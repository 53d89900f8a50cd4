//! The HSL color model: conversion from RGB by the min-channel base-angle
//! decomposition, hue rotation, and harmony generation.

use vstd::prelude::*;

use crate::component::ColorComponent;
use crate::component::dec3_u16;
use crate::frac::Frac;
use crate::frac::abs_int;
use crate::frac::frac_clamp;
use crate::harmony::ComplementaryColors;
use crate::harmony::ROT_OFFSET;
use crate::rgb::RGBColor;

verus! {

/// Hue in whole degrees `0 ..= 360`, saturation and lightness as unit
/// fractions.
#[derive(Debug, Clone, Copy, PartialEq, Eq, Structural)]
pub struct HSLColor {
    pub hue: ColorComponent<u16>,
    pub saturation: ColorComponent<Frac>,
    pub lightness: ColorComponent<Frac>,
}

/// The largest RGB channel value.
pub open spec fn rgb_max(c: RGBColor) -> int {
    let r = c.red.value as int;
    let g = c.green.value as int;
    let b = c.blue.value as int;
    if r >= g && r >= b {
        r
    } else if g >= b {
        g
    } else {
        b
    }
}

/// The smallest RGB channel value.
pub open spec fn rgb_min(c: RGBColor) -> int {
    let r = c.red.value as int;
    let g = c.green.value as int;
    let b = c.blue.value as int;
    if r <= g && r <= b {
        r
    } else if g <= b {
        g
    } else {
        b
    }
}

/// The hue of an RGB color in whole degrees, rounded half-up: a base
/// angle of 180, 60 or 300 degrees is picked by which channel is minimal,
/// and offset by sixty times the scaled difference of the two other
/// channels. An achromatic color reads as hue zero.
pub open spec fn rgb_hue_spec(c: RGBColor) -> int {
    let r = c.red.value as int;
    let g = c.green.value as int;
    let b = c.blue.value as int;
    let mx = rgb_max(c);
    let mn = rgb_min(c);
    let d = mx - mn;
    if d == 0 {
        0
    } else {
        let num = if r == mn {
            60 * (3 * d - (g - b))
        } else if b == mn {
            60 * (1 * d - (r - g))
        } else {
            60 * (5 * d - (b - r))
        };
        (2 * num + d) / (2 * d)
    }
}

/// The HSL decomposition of an RGB color: lightness is the mean of the
/// channel extremes, saturation scales their difference by the distance
/// of the channel sum from the extremes.
pub open spec fn rgb_to_hsl_spec(c: RGBColor) -> HSLColor {
    let mx = rgb_max(c);
    let mn = rgb_min(c);
    let sum = mn + mx;
    HSLColor {
        hue: ColorComponent { value: rgb_hue_spec(c) as u16 },
        saturation: ColorComponent {
            value: if sum == 0 || sum == 510 {
                Frac { num: 0, den: 1 }
            } else {
                Frac { num: (mx - mn) as u32, den: (255 - abs_int(sum - 255)) as u32 }
            },
        },
        lightness: ColorComponent { value: Frac { num: sum as u32, den: 510 } },
    }
}

/// The hue of an RGB color always lies in `0 ..= 360`, rounding included.
pub proof fn lemma_rgb_hue_bounds(c: RGBColor)
    ensures
        0 <= rgb_hue_spec(c) <= 360,
{
    let r = c.red.value as int;
    let g = c.green.value as int;
    let b = c.blue.value as int;
    let mx = rgb_max(c);
    let mn = rgb_min(c);
    let d = mx - mn;
    if d != 0 {
        let num = if r == mn {
            60 * (3 * d - (g - b))
        } else if b == mn {
            60 * (1 * d - (r - g))
        } else {
            60 * (5 * d - (b - r))
        };
        assert(0 <= num <= 360 * d);
        assert(2 * num + d < (2 * d) * 361);
        vstd::arithmetic::div_mod::lemma_multiply_divide_lt(2 * num + d, 2 * d, 361);
        vstd::arithmetic::div_mod::lemma_div_pos_is_pos(2 * num + d, 2 * d);
    }
}

/// The HSL decomposition of any RGB color is well formed, with hue at
/// most 360 degrees.
pub proof fn lemma_rgb_to_hsl_wf(c: RGBColor)
    ensures
        rgb_to_hsl_spec(c).wf(),
        rgb_to_hsl_spec(c).hue.value <= 360,
{
    lemma_rgb_hue_bounds(c);
}

/// Computes `rgb_hue_spec` on channel values.
pub(crate) fn rgb_hue(c: RGBColor) -> (h: u16)
    ensures
        h as int == rgb_hue_spec(c),
        h <= 360,
{
    proof {
        lemma_rgb_hue_bounds(c);
    }
    let r = c.red.value;
    let g = c.green.value;
    let b = c.blue.value;
    let mx: u8 = if r >= g && r >= b {
        r
    } else if g >= b {
        g
    } else {
        b
    };
    let mn: u8 = if r <= g && r <= b {
        r
    } else if g <= b {
        g
    } else {
        b
    };
    let d: i32 = mx as i32 - mn as i32;
    if d == 0 {
        return 0;
    }
    let num: i32 = if r == mn {
        60 * (3 * d - (g as i32 - b as i32))
    } else if b == mn {
        60 * (1 * d - (r as i32 - g as i32))
    } else {
        60 * (5 * d - (b as i32 - r as i32))
    };
    proof {
        assert(0 <= num <= 360 * d);
    }
    let q: u32 = (2 * num as u32 + d as u32) / (2 * d as u32);
    q as u16
}

impl HSLColor {
    /// All channels lie in their ranges: hue at most 360 whole degrees,
    /// saturation and lightness well-formed unit fractions.
    pub open spec fn wf(self) -> bool {
        self.hue.value <= 360 && self.saturation.value.wf() && self.lightness.value.wf()
    }

    /// The result of rotating the hue: the absolute value of the signed
    /// sum, reduced mod 360. The other channels are unchanged. For a
    /// negative sum this is not a true modular wrap: the absolute value
    /// is taken first, so rotating hue 10 by -30 gives 20, not 340.
    pub open spec fn rotate_hue_spec(self, amount: i16) -> HSLColor {
        HSLColor {
            hue: ColorComponent {
                value: (abs_int(self.hue.value + amount) % 360) as u16,
            },
            ..self
        }
    }

    /// Builds the triple, clamping hue into `0 ..= 360` and the two
    /// fractions into the unit interval. The fraction denominators must be
    /// positive for the values to be readable.
    pub fn new(hue: u16, saturation: Frac, lightness: Frac) -> (r: Self)
        requires
            saturation.den >= 1,
            lightness.den >= 1,
        ensures
            r == (HSLColor {
                hue: ColorComponent { value: if hue <= 360 { hue } else { 360u16 } },
                saturation: ColorComponent { value: frac_clamp(saturation) },
                lightness: ColorComponent { value: frac_clamp(lightness) },
            }),
            r.wf(),
    {
        let h: u16 = if hue <= 360 {
            hue
        } else {
            360
        };
        HSLColor {
            hue: ColorComponent { value: h },
            saturation: ColorComponent { value: Frac::new(saturation.num, saturation.den) },
            lightness: ColorComponent { value: Frac::new(lightness.num, lightness.den) },
        }
    }

    /// The rendering `HHH, S.SS, L.LL`: zero-padded three-digit hue, then
    /// the two fractions with two decimals each.
    pub fn to_str(&self) -> (r: String)
        requires
            self.wf(),
        ensures
            r@ == crate::component::dec3_seq(self.hue.value as int) + ", "@
                + self.saturation.value.two_dec_seq() + ", "@ + self.lightness.value.two_dec_seq(),
    {
        let mut r = dec3_u16(self.hue.value);
        r.append(", ");
        let s = self.saturation.value.to_str();
        r.append(s.as_str());
        r.append(", ");
        let l = self.lightness.value.to_str();
        r.append(l.as_str());
        r
    }

    /// Rotates the hue by `amount` degrees, by the absolute-value formula.
    pub fn rotate_hue(&self, amount: i16) -> (r: HSLColor)
        ensures
            r == self.rotate_hue_spec(amount),
            r.hue.value < 360,
    {
        let sum: i32 = self.hue.value as i32 + amount as i32;
        let a: i32 = if sum < 0 {
            -sum
        } else {
            sum
        };
        let h: i32 = a % 360;
        HSLColor { hue: ColorComponent { value: h as u16 }, ..*self }
    }

    /// Brightening is currently a no-op that returns the color unchanged.
    pub fn brighten(&self, amount: Frac) -> (r: HSLColor)
        ensures
            r == *self,
    {
        let _ = amount;
        *self
    }

    /// Darkening is currently a no-op that returns the color unchanged.
    pub fn darken(&self, amount: Frac) -> (r: HSLColor)
        ensures
            r == *self,
    {
        let _ = amount;
        *self
    }
}

impl From<RGBColor> for HSLColor {
    /// The min-channel HSL decomposition of `rgb`.
    fn from(rgb: RGBColor) -> (r: HSLColor) {
        let red = rgb.red.value;
        let green = rgb.green.value;
        let blue = rgb.blue.value;
        let mx: u8 = if red >= green && red >= blue {
            red
        } else if green >= blue {
            green
        } else {
            blue
        };
        let mn: u8 = if red <= green && red <= blue {
            red
        } else if green <= blue {
            green
        } else {
            blue
        };
        let sum: u32 = mn as u32 + mx as u32;
        let hue = rgb_hue(rgb);
        let saturation: Frac = if sum == 0 || sum == 510 {
            Frac { num: 0, den: 1 }
        } else {
            let den: u32 = if sum <= 255 {
                sum
            } else {
                510 - sum
            };
            Frac { num: mx as u32 - mn as u32, den }
        };
        let lightness = Frac { num: sum, den: 510 };
        HSLColor {
            hue: ColorComponent { value: hue },
            saturation: ColorComponent { value: saturation },
            lightness: ColorComponent { value: lightness },
        }
    }
}

impl vstd::std_specs::convert::FromSpecImpl<RGBColor> for HSLColor {
    open spec fn obeys_from_spec() -> bool {
        true
    }

    open spec fn from_spec(v: RGBColor) -> HSLColor {
        rgb_to_hsl_spec(v)
    }
}

impl ComplementaryColors for HSLColor {
    /// The color itself and two further rotations by 120 degrees.
    open spec fn triad_spec(self) -> Seq<HSLColor> {
        seq![
            self,
            self.rotate_hue_spec(120),
            self.rotate_hue_spec(120).rotate_hue_spec(120),
        ]
    }

    /// The color itself, a rotation by the offset, the 180-degree
    /// rotation, and the offset applied to that rotation.
    open spec fn tetradic_spec(self) -> Seq<HSLColor> {
        seq![
            self,
            self.rotate_hue_spec(30),
            self.rotate_hue_spec(180),
            self.rotate_hue_spec(180).rotate_hue_spec(30),
        ]
    }

    /// Rotations by minus and plus the offset around the color itself.
    open spec fn analogous_spec(self) -> Seq<HSLColor> {
        seq![self.rotate_hue_spec(-30i16), self, self.rotate_hue_spec(30)]
    }

    /// Sixteen copies with lightness `i / 17` for `i` in `1 ..= 16`, hue
    /// and saturation unchanged.
    open spec fn shades_spec(self) -> Seq<HSLColor> {
        Seq::new(
            16,
            |i: int|
                HSLColor {
                    lightness: ColorComponent { value: Frac { num: (i + 1) as u32, den: 17 } },
                    ..self
                },
        )
    }

    /// Rotations by 180 minus and 180 plus the offset around the color.
    open spec fn split_complemetary_spec(self) -> Seq<HSLColor> {
        seq![self.rotate_hue_spec(150), self, self.rotate_hue_spec(210)]
    }

    fn triad(self) -> (r: Vec<HSLColor>) {
        let second = self.rotate_hue(120);
        let third = second.rotate_hue(120);
        let mut r: Vec<HSLColor> = Vec::new();
        r.push(self);
        r.push(second);
        r.push(third);
        proof {
            assert(r@ =~= self.triad_spec());
        }
        r
    }

    fn tetradic(self) -> (r: Vec<HSLColor>) {
        let second = self.rotate_hue(ROT_OFFSET as i16);
        let third = self.rotate_hue(180);
        let fourth = third.rotate_hue(ROT_OFFSET as i16);
        let mut r: Vec<HSLColor> = Vec::new();
        r.push(self);
        r.push(second);
        r.push(third);
        r.push(fourth);
        proof {
            assert(r@ =~= self.tetradic_spec());
        }
        r
    }

    fn analogous(self) -> (r: Vec<HSLColor>) {
        let first = self.rotate_hue(-(ROT_OFFSET as i16));
        let third = self.rotate_hue(ROT_OFFSET as i16);
        let mut r: Vec<HSLColor> = Vec::new();
        r.push(first);
        r.push(self);
        r.push(third);
        proof {
            assert(r@ =~= self.analogous_spec());
        }
        r
    }

    fn shades(self) -> (r: Vec<HSLColor>) {
        let mut r: Vec<HSLColor> = Vec::new();
        let mut i: u32 = 1;
        while i <= 16
            invariant
                1 <= i <= 17,
                r@.len() == i - 1,
                forall|k: int|
                    0 <= k < i - 1 ==> #[trigger] r@[k] == (HSLColor {
                        lightness: ColorComponent { value: Frac { num: (k + 1) as u32, den: 17 } },
                        ..self
                    }),
            decreases 17 - i,
        {
            let mut color = self;
            color.lightness = ColorComponent { value: Frac { num: i, den: 17 } };
            r.push(color);
            i = i + 1;
        }
        proof {
            assert(r@ =~= self.shades_spec());
        }
        r
    }

    fn split_complemetary(self) -> (r: Vec<HSLColor>) {
        let first = self.rotate_hue(180 - ROT_OFFSET as i16);
        let third = self.rotate_hue(180 + ROT_OFFSET as i16);
        let mut r: Vec<HSLColor> = Vec::new();
        r.push(first);
        r.push(self);
        r.push(third);
        proof {
            assert(r@ =~= self.split_complemetary_spec());
        }
        r
    }
}

/// Every step of the lightness ramp is strictly lighter than the steps
/// before it, while hue and saturation stay those of the base color.
pub proof fn lemma_shades_monotone(c: HSLColor)
    ensures
        c.shades_spec().len() == 16,
        forall|i: int, j: int|
            0 <= i < j < 16 ==> (#[trigger] c.shades_spec()[i]).lightness.value.lt(
                (#[trigger] c.shades_spec()[j]).lightness.value,
            ),
        forall|i: int|
            0 <= i < 16 ==> (#[trigger] c.shades_spec()[i]).hue == c.hue
                && c.shades_spec()[i].saturation == c.saturation,
{
    assert forall|i: int, j: int| 0 <= i < j < 16 implies (#[trigger] c.shades_spec()[i]).lightness.value.lt(
        (#[trigger] c.shades_spec()[j]).lightness.value,
    ) by {
        assert(c.shades_spec()[i].lightness.value == Frac { num: (i + 1) as u32, den: 17 });
        assert(c.shades_spec()[j].lightness.value == Frac { num: (j + 1) as u32, den: 17 });
        assert((i + 1) * 17 < (j + 1) * 17) by (nonlinear_arith)
            requires
                i < j,
        ;
    }
}

} // verus!
