//! The HSV color model: conversion from RGB, sharing the min-channel hue
//! decomposition with HSL.

use vstd::prelude::*;

use crate::component::ColorComponent;
use crate::component::dec3_u16;
use crate::frac::Frac;
use crate::frac::frac_clamp;
use crate::hsl::rgb_hue;
use crate::hsl::rgb_hue_spec;
use crate::hsl::rgb_max;
use crate::hsl::rgb_min;
use crate::hsl::lemma_rgb_hue_bounds;
use crate::rgb::RGBColor;

verus! {

/// Hue in whole degrees `0 ..= 360`, saturation and value as unit
/// fractions.
#[derive(Debug, Clone, Copy, PartialEq, Eq, Structural)]
pub struct HSVColor {
    pub hue: ColorComponent<u16>,
    pub saturation: ColorComponent<Frac>,
    pub value: ColorComponent<Frac>,
}

/// The HSV decomposition of an RGB color: for an achromatic color the hue
/// and saturation are zero and the value is the shared channel fraction;
/// otherwise the hue is the shared min-channel decomposition, saturation
/// scales the channel spread by the maximum, and value is the maximum
/// channel fraction.
pub open spec fn rgb_to_hsv_spec(c: RGBColor) -> HSVColor {
    let mx = rgb_max(c);
    let mn = rgb_min(c);
    if mx == mn {
        HSVColor {
            hue: ColorComponent { value: 0u16 },
            saturation: ColorComponent { value: Frac { num: 0, den: 1 } },
            value: ColorComponent { value: Frac { num: mn as u32, den: 255 } },
        }
    } else {
        HSVColor {
            hue: ColorComponent { value: rgb_hue_spec(c) as u16 },
            saturation: ColorComponent { value: Frac { num: (mx - mn) as u32, den: mx as u32 } },
            value: ColorComponent { value: Frac { num: mx as u32, den: 255 } },
        }
    }
}

/// The HSV decomposition of any RGB color is well formed, with hue at
/// most 360 degrees.
pub proof fn lemma_rgb_to_hsv_wf(c: RGBColor)
    ensures
        rgb_to_hsv_spec(c).wf(),
        rgb_to_hsv_spec(c).hue.value <= 360,
{
    lemma_rgb_hue_bounds(c);
}

impl HSVColor {
    /// All channels lie in their ranges: hue at most 360 whole degrees,
    /// saturation and value well-formed unit fractions.
    pub open spec fn wf(self) -> bool {
        self.hue.value <= 360 && self.saturation.value.wf() && self.value.value.wf()
    }

    /// Builds the triple, clamping hue into `0 ..= 360` and the two
    /// fractions into the unit interval. The fraction denominators must be
    /// positive for the values to be readable.
    pub fn new(hue: u16, saturation: Frac, value: Frac) -> (r: Self)
        requires
            saturation.den >= 1,
            value.den >= 1,
        ensures
            r == (HSVColor {
                hue: ColorComponent { value: if hue <= 360 { hue } else { 360u16 } },
                saturation: ColorComponent { value: frac_clamp(saturation) },
                value: ColorComponent { value: frac_clamp(value) },
            }),
            r.wf(),
    {
        let h: u16 = if hue <= 360 {
            hue
        } else {
            360
        };
        HSVColor {
            hue: ColorComponent { value: h },
            saturation: ColorComponent { value: Frac::new(saturation.num, saturation.den) },
            value: ColorComponent { value: Frac::new(value.num, value.den) },
        }
    }

    /// The rendering `HHH, S.SS, V.VV`: zero-padded three-digit hue, then
    /// the two fractions with two decimals each.
    pub fn to_str(&self) -> (r: String)
        requires
            self.wf(),
        ensures
            r@ == crate::component::dec3_seq(self.hue.value as int) + ", "@
                + self.saturation.value.two_dec_seq() + ", "@ + self.value.value.two_dec_seq(),
    {
        let mut r = dec3_u16(self.hue.value);
        r.append(", ");
        let s = self.saturation.value.to_str();
        r.append(s.as_str());
        r.append(", ");
        let v = self.value.value.to_str();
        r.append(v.as_str());
        r
    }
}

impl From<RGBColor> for HSVColor {
    /// The min-channel HSV decomposition of `rgb`, with the achromatic
    /// short-circuit.
    fn from(rgb: RGBColor) -> (r: HSVColor) {
        let red = rgb.red.value;
        let green = rgb.green.value;
        let blue = rgb.blue.value;
        let mx: u8 = if red >= green && red >= blue {
            red
        } else if green >= blue {
            green
        } else {
            blue
        };
        let mn: u8 = if red <= green && red <= blue {
            red
        } else if green <= blue {
            green
        } else {
            blue
        };
        if mx == mn {
            return HSVColor {
                hue: ColorComponent { value: 0 },
                saturation: ColorComponent { value: Frac { num: 0, den: 1 } },
                value: ColorComponent { value: Frac { num: mn as u32, den: 255 } },
            };
        }
        let hue = rgb_hue(rgb);
        HSVColor {
            hue: ColorComponent { value: hue },
            saturation: ColorComponent {
                value: Frac { num: mx as u32 - mn as u32, den: mx as u32 },
            },
            value: ColorComponent { value: Frac { num: mx as u32, den: 255 } },
        }
    }
}

impl vstd::std_specs::convert::FromSpecImpl<RGBColor> for HSVColor {
    open spec fn obeys_from_spec() -> bool {
        true
    }

    open spec fn from_spec(v: RGBColor) -> HSVColor {
        rgb_to_hsv_spec(v)
    }
}

} // verus!
