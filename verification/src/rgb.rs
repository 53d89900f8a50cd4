//! The RGB color model: construction, decimal and hexadecimal text parsing,
//! rendering, lightness classification and inversion.

use vstd::prelude::*;

use crate::ansi::ColorAnsi;
use crate::ansi::reset_seq;
use crate::component::ColorComponent;
use crate::component::Error;
use crate::frac::Frac;
use crate::frac::abs_int;
use crate::frac::norm_frac;
use crate::harmony::ComplementaryColors;
use crate::hsl::HSLColor;
use crate::hsl::rgb_to_hsl_spec;
use crate::component::dec3_seq;
use crate::component::dec3_u16;
use crate::component::digit_char;
use crate::component::hex2_seq;
use crate::component::hex2_u8;
use crate::component::hex_char;
use crate::text::all_digits;
use crate::text::all_hex_digits;
use crate::text::dec_val;
use crate::text::digit_val;
use crate::text::find_comma;
use crate::text::first_comma_from;
use crate::text::hex_digit_of;
use crate::text::hex_digit_val;
use crate::text::hex_val;
use crate::text::is_digit;
use crate::text::is_hex_digit;
use crate::text::lemma_first_comma_at;
use crate::text::parse_dec_range;
use crate::text::parse_hex_range;
use crate::text::parse_u8_dec_spec;
use crate::text::parse_u8_hex_spec;

verus! {

/// A red/green/blue triple of 8-bit channels.
#[derive(Debug, Clone, Copy, PartialEq, Eq, Structural)]
pub struct RGBColor {
    pub red: ColorComponent<u8>,
    pub green: ColorComponent<u8>,
    pub blue: ColorComponent<u8>,
}

/// The triple with the given channel values.
pub open spec fn rgb_spec(red: u8, green: u8, blue: u8) -> RGBColor {
    RGBColor {
        red: ColorComponent { value: red },
        green: ColorComponent { value: green },
        blue: ColorComponent { value: blue },
    }
}

/// What parsing comma-separated decimal RGB text yields: the first three
/// comma-separated fields read as 8-bit decimal numbers, in red, green,
/// blue order. A field that fails to parse, or a missing field, names the
/// offending component in the error.
pub open spec fn spec_from_rgb(s: Seq<char>) -> Result<RGBColor, Seq<char>> {
    let i = first_comma_from(s, 0);
    match parse_u8_dec_spec(s.take(i)) {
        None => Err("red"@),
        Some(red) => if i == s.len() {
            Err("green"@)
        } else {
            let j = first_comma_from(s, i + 1);
            match parse_u8_dec_spec(s.subrange(i + 1, j)) {
                None => Err("green"@),
                Some(green) => if j == s.len() {
                    Err("blue"@)
                } else {
                    let k = first_comma_from(s, j + 1);
                    match parse_u8_dec_spec(s.subrange(j + 1, k)) {
                        None => Err("blue"@),
                        Some(blue) => Ok(rgb_spec(red, green, blue)),
                    }
                },
            }
        },
    }
}

/// What parsing hexadecimal color text yields: an optional leading `#` is
/// stripped; a three-character body is expanded by duplicating each
/// character; the body is then read as two-character red and green fields
/// and a blue field holding the rest. A field that fails to parse as
/// base sixteen, or a missing field, names the offending component.
pub open spec fn spec_from_hex(s: Seq<char>) -> Result<RGBColor, Seq<char>> {
    let body = if s.len() > 0 && s[0] == '#' {
        s.skip(1)
    } else {
        s
    };
    let hex6 = if body.len() == 3 {
        seq![body[0], body[0], body[1], body[1], body[2], body[2]]
    } else {
        body
    };
    if hex6.len() < 2 {
        Err("red"@)
    } else {
        match parse_u8_hex_spec(hex6.subrange(0, 2)) {
            None => Err("red"@),
            Some(red) => if hex6.len() < 4 {
                Err("green"@)
            } else {
                match parse_u8_hex_spec(hex6.subrange(2, 4)) {
                    None => Err("green"@),
                    Some(green) => match parse_u8_hex_spec(hex6.skip(4)) {
                        None => Err("blue"@),
                        Some(blue) => Ok(rgb_spec(red, green, blue)),
                    },
                }
            },
        }
    }
}

impl RGBColor {
    /// The `#RRGGBB` uppercase rendering.
    pub open spec fn to_hex_seq(self) -> Seq<char> {
        seq!['#'] + hex2_seq(self.red.value as int) + hex2_seq(self.green.value as int)
            + hex2_seq(self.blue.value as int)
    }

    /// The three zero-padded three-digit decimal channel strings joined by
    /// `sep`.
    pub open spec fn to_rgb_seq(self, sep: Seq<char>) -> Seq<char> {
        dec3_seq(self.red.value as int) + sep + dec3_seq(self.green.value as int) + sep + dec3_seq(
            self.blue.value as int,
        )
    }

    /// Each channel replaced by its distance from 255.
    pub open spec fn invert_spec(self) -> RGBColor {
        rgb_spec(
            (255 - self.red.value) as u8,
            (255 - self.green.value) as u8,
            (255 - self.blue.value) as u8,
        )
    }

    /// The channel sum reaches 383, about half the maximum of 765.
    pub open spec fn is_light_spec(self) -> bool {
        self.red.value + self.green.value + self.blue.value >= 383
    }

    /// Builds the triple; each channel is already within its full 8-bit
    /// range, so no clamping changes it.
    pub fn new(red: u8, green: u8, blue: u8) -> (r: Self)
        ensures
            r == rgb_spec(red, green, blue),
    {
        RGBColor {
            red: ColorComponent { value: red },
            green: ColorComponent { value: green },
            blue: ColorComponent { value: blue },
        }
    }

    /// Parses comma-separated decimal RGB text.
    pub fn from_rgb(value: &str) -> (r: Result<RGBColor, Error>)
        ensures
            ({
                let sr = spec_from_rgb(value@);
                match r {
                    Ok(c) => sr == Ok::<RGBColor, Seq<char>>(c),
                    Err(Error::ParseError(n)) => sr == Err::<RGBColor, Seq<char>>(n@),
                }
            }),
    {
        let len = value.unicode_len();
        let i = find_comma(value, 0, len);
        proof {
            assert(value@.subrange(0, i as int) =~= value@.take(i as int));
        }
        let red = match parse_dec_range(value, 0, i) {
            Some(v) => v,
            None => {
                return Err(Error::ParseError("red".to_owned()));
            },
        };
        if i == len {
            return Err(Error::ParseError("green".to_owned()));
        }
        let j = find_comma(value, i + 1, len);
        let green = match parse_dec_range(value, i + 1, j) {
            Some(v) => v,
            None => {
                return Err(Error::ParseError("green".to_owned()));
            },
        };
        if j == len {
            return Err(Error::ParseError("blue".to_owned()));
        }
        let k = find_comma(value, j + 1, len);
        let blue = match parse_dec_range(value, j + 1, k) {
            Some(v) => v,
            None => {
                return Err(Error::ParseError("blue".to_owned()));
            },
        };
        Ok(RGBColor::new(red, green, blue))
    }

    /// Parses hexadecimal color text, with an optional leading `#` and a
    /// three-digit shorthand expanded by digit duplication.
    pub fn from_hex(value: &str) -> (r: Result<RGBColor, Error>)
        ensures
            ({
                let sr = spec_from_hex(value@);
                match r {
                    Ok(c) => sr == Ok::<RGBColor, Seq<char>>(c),
                    Err(Error::ParseError(n)) => sr == Err::<RGBColor, Seq<char>>(n@),
                }
            }),
    {
        let len = value.unicode_len();
        let off: usize = if len > 0 && value.get_char(0) == '#' {
            1
        } else {
            0
        };
        let ghost body = if value@.len() > 0 && value@[0] == '#' {
            value@.skip(1)
        } else {
            value@
        };
        proof {
            assert(body =~= value@.subrange(off as int, len as int));
        }
        if len - off == 3 {
            let c0 = value.get_char(off);
            let c1 = value.get_char(off + 1);
            let c2 = value.get_char(off + 2);
            proof {
                assert(body[0] == c0 && body[1] == c1 && body[2] == c2);
            }
            let ghost hex6 = seq![c0, c0, c1, c1, c2, c2];
            proof {
                assert(hex6.subrange(0, 2) =~= seq![c0, c0]);
                assert(hex6.subrange(2, 4) =~= seq![c1, c1]);
                assert(hex6.skip(4) =~= seq![c2, c2]);
                lemma_double_hex_digit(c0);
                lemma_double_hex_digit(c1);
                lemma_double_hex_digit(c2);
            }
            let red = match hex_digit_of(c0) {
                Some(d) => 17 * d,
                None => {
                    return Err(Error::ParseError("red".to_owned()));
                },
            };
            let green = match hex_digit_of(c1) {
                Some(d) => 17 * d,
                None => {
                    return Err(Error::ParseError("green".to_owned()));
                },
            };
            let blue = match hex_digit_of(c2) {
                Some(d) => 17 * d,
                None => {
                    return Err(Error::ParseError("blue".to_owned()));
                },
            };
            Ok(RGBColor::new(red, green, blue))
        } else {
            if len - off < 2 {
                return Err(Error::ParseError("red".to_owned()));
            }
            proof {
                assert(body.subrange(0, 2) =~= value@.subrange(off as int, off + 2));
            }
            let red = match parse_hex_range(value, off, off + 2) {
                Some(v) => v,
                None => {
                    return Err(Error::ParseError("red".to_owned()));
                },
            };
            if len - off < 4 {
                return Err(Error::ParseError("green".to_owned()));
            }
            proof {
                assert(body.subrange(2, 4) =~= value@.subrange(off + 2, off + 4));
                assert(body.skip(4) =~= value@.subrange(off + 4, len as int));
            }
            let green = match parse_hex_range(value, off + 2, off + 4) {
                Some(v) => v,
                None => {
                    return Err(Error::ParseError("green".to_owned()));
                },
            };
            let blue = match parse_hex_range(value, off + 4, len) {
                Some(v) => v,
                None => {
                    return Err(Error::ParseError("blue".to_owned()));
                },
            };
            Ok(RGBColor::new(red, green, blue))
        }
    }

    /// Builds a triple of three independently sampled channels.
    pub fn new_rand() -> (r: Self) {
        let red = random_channel();
        let green = random_channel();
        let blue = random_channel();
        RGBColor::new(red, green, blue)
    }

    /// True when the channel sum reaches 383, used to choose contrasting
    /// text color.
    pub fn is_light(&self) -> (r: bool)
        ensures
            r == self.is_light_spec(),
    {
        self.red.value as u16 + self.green.value as u16 + self.blue.value as u16 >= 383
    }

    /// The `#RRGGBB` uppercase rendering.
    pub fn to_hex(&self) -> (r: String)
        ensures
            r@ == self.to_hex_seq(),
    {
        let mut r = String::new();
        r.append("#");
        let red = hex2_u8(self.red.value);
        r.append(red.as_str());
        let green = hex2_u8(self.green.value);
        r.append(green.as_str());
        let blue = hex2_u8(self.blue.value);
        r.append(blue.as_str());
        proof {
            reveal_strlit("#");
            assert(r@ =~= self.to_hex_seq());
        }
        r
    }

    /// The decimal rendering with the given separator.
    pub fn to_rgb(&self, separator: &str) -> (r: String)
        ensures
            r@ == self.to_rgb_seq(separator@),
    {
        let mut r = String::new();
        let red = dec3_u16(self.red.value as u16);
        r.append(red.as_str());
        r.append(separator);
        let green = dec3_u16(self.green.value as u16);
        r.append(green.as_str());
        r.append(separator);
        let blue = dec3_u16(self.blue.value as u16);
        r.append(blue.as_str());
        proof {
            assert(r@ =~= self.to_rgb_seq(separator@));
        }
        r
    }

    /// Each channel replaced by its distance from 255.
    pub fn invert(&self) -> (r: RGBColor)
        ensures
            r == self.invert_spec(),
    {
        RGBColor::new(255 - self.red.value, 255 - self.green.value, 255 - self.blue.value)
    }
}

/// Relies on rand's `thread_rng().gen_range` for one uniformly sampled
/// integer in `0 ..= 255`; every 8-bit value is a valid channel, so nothing
/// further is assumed of the sample.
#[verifier::external_body]
fn random_channel() -> u8 {
    rand::Rng::gen_range(&mut rand::thread_rng(), 0..=255u8)
}

/// A doubled hexadecimal digit parses to seventeen times its value.
proof fn lemma_double_hex_digit(c: char)
    ensures
        is_hex_digit(c) ==> parse_u8_hex_spec(seq![c, c]) == Some(
            (17 * hex_digit_val(c)) as u8,
        ),
        !is_hex_digit(c) ==> parse_u8_hex_spec(seq![c, c]) is None,
{
    let s = seq![c, c];
    assert(s.drop_last() =~= seq![c]);
    assert(seq![c].drop_last() =~= Seq::<char>::empty());
    assert(hex_val(Seq::<char>::empty()) == 0);
    assert(hex_val(seq![c]) == hex_digit_val(c));
    assert(hex_val(s) == hex_digit_val(c) * 16 + hex_digit_val(c));
    if is_hex_digit(c) {
        assert(hex_digit_val(c) <= 15);
        assert(hex_val(s) == 17 * hex_digit_val(c));
    }
}

/// A two-digit uppercase hexadecimal rendering parses back to its value.
proof fn lemma_hex2_parses(v: u8)
    ensures
        parse_u8_hex_spec(hex2_seq(v as int)) == Some(v),
{
    let s = hex2_seq(v as int);
    let hi = hex_char(v as int / 16);
    let lo = hex_char(v as int % 16);
    assert(s.drop_last() =~= seq![hi]);
    assert(seq![hi].drop_last() =~= Seq::<char>::empty());
    assert(is_hex_digit(hi) && hex_digit_val(hi) == v as int / 16);
    assert(is_hex_digit(lo) && hex_digit_val(lo) == v as int % 16);
    assert(hex_val(Seq::<char>::empty()) == 0);
    assert(hex_val(seq![hi]) == v as int / 16);
    assert(hex_val(s) == (v as int / 16) * 16 + (v as int % 16));
    assert((v as int / 16) * 16 + (v as int % 16) == v as int);
}

/// A three-digit decimal rendering parses back to its value and holds
/// digits only.
proof fn lemma_dec3_parses(v: u8)
    ensures
        parse_u8_dec_spec(dec3_seq(v as int)) == Some(v),
        all_digits(dec3_seq(v as int)),
        dec3_seq(v as int).len() == 3,
{
    let s = dec3_seq(v as int);
    assert(is_digit(digit_char(v as int / 100)) && digit_val(digit_char(v as int / 100)) == v as int / 100);
    assert(is_digit(digit_char(v as int / 10 % 10)) && digit_val(digit_char(v as int / 10 % 10)) == v as int / 10 % 10);
    assert(is_digit(digit_char(v as int % 10)) && digit_val(digit_char(v as int % 10)) == v as int % 10);
    assert(all_digits(s)) by {
        assert(forall|i: int| 0 <= i < 3 ==> s[i] == (if i == 0 {
            digit_char(v as int / 100)
        } else if i == 1 {
            digit_char(v as int / 10 % 10)
        } else {
            digit_char(v as int % 10)
        }));
    }
    let d2 = digit_char(v as int / 100);
    let d1 = digit_char(v as int / 10 % 10);
    let d0 = digit_char(v as int % 10);
    assert(s.drop_last() =~= seq![d2, d1]);
    assert(seq![d2, d1].drop_last() =~= seq![d2]);
    assert(seq![d2].drop_last() =~= Seq::<char>::empty());
    assert(dec_val(Seq::<char>::empty()) == 0);
    assert(dec_val(seq![d2]) == v as int / 100);
    assert(dec_val(seq![d2, d1]) == (v as int / 100) * 10 + (v as int / 10 % 10));
    assert(dec_val(s) == ((v as int / 100) * 10 + (v as int / 10 % 10)) * 10 + (v as int % 10));
    assert(((v as int / 100) * 10 + (v as int / 10 % 10)) * 10 + (v as int % 10) == v as int);
    assert(s[0] != '+');
}

/// Parsing the hexadecimal rendering of a color gives the color back.
pub proof fn lemma_hex_round_trip(c: RGBColor)
    ensures
        spec_from_hex(c.to_hex_seq()) == Ok::<RGBColor, Seq<char>>(c),
{
    let s = c.to_hex_seq();
    assert(s.len() == 7);
    assert(s[0] == '#');
    let body = s.skip(1);
    assert(body.len() == 6);
    assert(body.subrange(0, 2) =~= hex2_seq(c.red.value as int));
    assert(body.subrange(2, 4) =~= hex2_seq(c.green.value as int));
    assert(body.skip(4) =~= hex2_seq(c.blue.value as int));
    lemma_hex2_parses(c.red.value);
    lemma_hex2_parses(c.green.value);
    lemma_hex2_parses(c.blue.value);
    assert(rgb_spec(c.red.value, c.green.value, c.blue.value) == c);
}

/// Parsing the comma-separated decimal rendering of a color gives the
/// color back.
pub proof fn lemma_rgb_round_trip(c: RGBColor)
    ensures
        spec_from_rgb(c.to_rgb_seq(","@)) == Ok::<RGBColor, Seq<char>>(c),
{
    reveal_strlit(",");
    let sep = ","@;
    assert(sep =~= seq![',']);
    let s = c.to_rgb_seq(sep);
    lemma_dec3_parses(c.red.value);
    lemma_dec3_parses(c.green.value);
    lemma_dec3_parses(c.blue.value);
    assert(s.len() == 11);
    assert(s[3] == ',' && s[7] == ',');
    assert(forall|m: int| 0 <= m < 3 ==> s[m] == dec3_seq(c.red.value as int)[m]);
    assert(forall|m: int| 4 <= m < 7 ==> s[m] == dec3_seq(c.green.value as int)[m - 4]);
    assert(forall|m: int| 8 <= m < 11 ==> s[m] == dec3_seq(c.blue.value as int)[m - 8]);
    assert(forall|m: int| 0 <= m < 3 ==> s[m] != ',');
    assert(forall|m: int| 4 <= m < 7 ==> s[m] != ',');
    assert(forall|m: int| 8 <= m < 11 ==> s[m] != ',');
    lemma_first_comma_at(s, 0, 3);
    lemma_first_comma_at(s, 4, 7);
    lemma_first_comma_at(s, 8, 11);
    assert(s.take(3) =~= dec3_seq(c.red.value as int));
    assert(s.subrange(4, 7) =~= dec3_seq(c.green.value as int));
    assert(s.subrange(8, 11) =~= dec3_seq(c.blue.value as int));
    assert(rgb_spec(c.red.value, c.green.value, c.blue.value) == c);
}

/// Inverting twice gives the original color back.
pub proof fn lemma_invert_involution(c: RGBColor)
    ensures
        c.invert_spec().invert_spec() == c,
{
}

/// `num / den` scaled to the 8-bit channel range and rounded half-up.
pub open spec fn round255(num: int, den: int) -> int {
    (510 * num + den) / (2 * den)
}

/// The HSL color brought into well-formed shape: hue clamped to 360,
/// fractions normalized.
pub open spec fn norm_hsl(c: HSLColor) -> HSLColor {
    HSLColor {
        hue: ColorComponent {
            value: if c.hue.value <= 360 {
                c.hue.value
            } else {
                360u16
            },
        },
        saturation: ColorComponent { value: norm_frac(c.saturation.value) },
        lightness: ColorComponent { value: norm_frac(c.lightness.value) },
    }
}

/// The chroma / intermediate / match decomposition of an HSL color, in
/// exact rational arithmetic. With `s = sn/sd` and `l = ln/ld`, the common
/// denominator is `d = 120 * ld * sd`; over it, chroma
/// `(1 - |2l - 1|) * s` has numerator `120 * a * sn` with
/// `a = ld - |2*ln - ld|`, the intermediate `x` scales chroma by
/// `(60 - |hue mod 120 - 60|) / 60`, and the match term `m = l - chroma/2`
/// has numerator `60 * (2*ln*sd - a*sn)`. Each channel is the sector's
/// component plus `m`, scaled to the 8-bit range and rounded half-up. A
/// hue of exactly zero selects the all-zero sector, as in the six-sector
/// table it heads.
pub open spec fn hsl_to_rgb_spec(c: HSLColor) -> RGBColor {
    let n = norm_hsl(c);
    let hue = n.hue.value as int;
    let sn = n.saturation.value.num as int;
    let sd = n.saturation.value.den as int;
    let ln = n.lightness.value.num as int;
    let ld = n.lightness.value.den as int;
    let a = ld - abs_int(2 * ln - ld);
    let cn = a * sn;
    let bf = 60 - abs_int(hue % 120 - 60);
    let d = 120 * ld * sd;
    let x2 = 2 * cn * bf;
    let c2 = 120 * cn;
    let m2 = 60 * (2 * ln * sd - cn);
    let rn = if hue == 0 {
        0
    } else if hue <= 60 {
        c2
    } else if hue <= 120 {
        x2
    } else if hue <= 240 {
        0
    } else if hue <= 300 {
        x2
    } else {
        c2
    };
    let gn = if hue == 0 {
        0
    } else if hue <= 120 {
        if hue <= 60 {
            x2
        } else {
            c2
        }
    } else if hue <= 180 {
        c2
    } else if hue <= 240 {
        x2
    } else {
        0
    };
    let bn = if hue <= 120 {
        0
    } else if hue <= 180 {
        x2
    } else if hue <= 300 {
        c2
    } else {
        x2
    };
    rgb_spec(
        round255(rn + m2, d) as u8,
        round255(gn + m2, d) as u8,
        round255(bn + m2, d) as u8,
    )
}

/// One channel of the HSL to RGB conversion: the sector component plus
/// the match term, over the common denominator, scaled and rounded.
fn hsl_channel(comp: u128, m2: u128, d: u128) -> (r: u8)
    requires
        1 <= d,
        comp + m2 <= d,
        d <= 0x800000000000000000,
    ensures
        r as int == round255((comp + m2) as int, d as int),
{
    let t = comp + m2;
    let q = (510 * t + d) / (2 * d);
    proof {
        assert(((510 * t + d) as int) < ((2 * d) as int) * 256);
        vstd::arithmetic::div_mod::lemma_multiply_divide_lt(
            (510 * t + d) as int,
            (2 * d) as int,
            256,
        );
    }
    q as u8
}

impl From<HSLColor> for RGBColor {
    /// The chroma / intermediate / match conversion of `color`, each
    /// channel rounded half-up to the 8-bit range.
    fn from(color: HSLColor) -> (r: RGBColor) {
        let hue: u16 = if color.hue.value <= 360 {
            color.hue.value
        } else {
            360
        };
        let s: Frac = color.saturation.value.normalized();
        let l: Frac = color.lightness.value.normalized();
        let sn = s.num as u64;
        let sd = s.den as u64;
        let ln = l.num as u64;
        let ld = l.den as u64;
        let a: u64 = if 2 * ln <= ld {
            2 * ln
        } else {
            2 * ld - 2 * ln
        };
        proof {
            assert(a as int == (ld as int) - abs_int(2 * (ln as int) - (ld as int)));
            assert(a <= 2 * ln);
            assert(a <= 2 * (ld - ln));
            assert((a as int) * (sn as int) <= 0xffff_ffff * 0xffff_ffff) by (nonlinear_arith)
                requires
                    0 <= a <= 0xffff_ffff,
                    0 <= sn <= 0xffff_ffff,
            ;
        }
        let cn: u64 = a * sn;
        let hm: u64 = (hue % 120) as u64;
        let bf: u64 = if hm <= 60 {
            hm
        } else {
            120 - hm
        };
        proof {
            assert(bf as int == 60 - abs_int((hue as int) % 120 - 60));
            assert((ld as int) * (sd as int) <= 0xffff_ffff * 0xffff_ffff) by (nonlinear_arith)
                requires
                    0 <= ld <= 0xffff_ffff,
                    0 <= sd <= 0xffff_ffff,
            ;
            assert((ln as int) * (sd as int) <= 0xffff_ffff * 0xffff_ffff) by (nonlinear_arith)
                requires
                    0 <= ln <= 0xffff_ffff,
                    0 <= sd <= 0xffff_ffff,
            ;
        }
        let lds: u64 = ld * sd;
        let lnsd: u64 = ln * sd;
        proof {
            assert(lds >= 1) by (nonlinear_arith)
                requires
                    lds == ld * sd,
                    ld >= 1,
                    sd >= 1,
            ;
            assert((cn as int) <= 2 * (lnsd as int)) by (nonlinear_arith)
                requires
                    cn == a * sn,
                    lnsd == ln * sd,
                    a <= 2 * ln,
                    sn <= sd,
                    0 <= sn,
                    0 <= ln,
                    0 <= a,
            ;
            assert((cn as int) <= 2 * ((lds as int) - (lnsd as int))) by (nonlinear_arith)
                requires
                    cn == a * sn,
                    lds == ld * sd,
                    lnsd == ln * sd,
                    a <= 2 * (ld - ln),
                    sn <= sd,
                    0 <= sn,
                    ln <= ld,
                    0 <= a,
            ;
            assert((lnsd as int) <= lds as int) by (nonlinear_arith)
                requires
                    lds == ld * sd,
                    lnsd == ln * sd,
                    ln <= ld,
                    0 <= sd,
            ;
            assert((2 * (cn as int)) * (bf as int) <= 2 * (0xffff_ffff * 0xffff_ffff) * 60)
                by (nonlinear_arith)
                requires
                    0 <= cn <= 0xffff_ffff * 0xffff_ffff,
                    0 <= bf <= 60,
            ;
        }
        let d: u128 = 120 * (lds as u128);
        let x2: u128 = 2 * (cn as u128) * (bf as u128);
        let c2: u128 = 120 * (cn as u128);
        let mpre: u128 = 2 * (lnsd as u128);
        proof {
            assert(mpre >= cn as u128);
            assert(d >= 120);
            assert(x2 <= c2) by (nonlinear_arith)
                requires
                    x2 == 2 * (cn as u128) * (bf as u128),
                    c2 == 120 * (cn as u128),
                    bf <= 60,
            ;
            assert(c2 + 60 * (mpre - cn as u128) <= d);
            assert(60 * (mpre - cn as u128) <= d);
        }
        let m2: u128 = 60 * (mpre - cn as u128);
        let comp_r: u128 = if hue == 0 {
            0
        } else if hue <= 60 {
            c2
        } else if hue <= 120 {
            x2
        } else if hue <= 240 {
            0
        } else if hue <= 300 {
            x2
        } else {
            c2
        };
        let comp_g: u128 = if hue == 0 {
            0
        } else if hue <= 120 {
            if hue <= 60 {
                x2
            } else {
                c2
            }
        } else if hue <= 180 {
            c2
        } else if hue <= 240 {
            x2
        } else {
            0
        };
        let comp_b: u128 = if hue <= 120 {
            0
        } else if hue <= 180 {
            x2
        } else if hue <= 300 {
            c2
        } else {
            x2
        };
        let red = hsl_channel(comp_r, m2, d);
        let green = hsl_channel(comp_g, m2, d);
        let blue = hsl_channel(comp_b, m2, d);
        let out = RGBColor::new(red, green, blue);
        proof {
            let n = norm_hsl(color);
            assert(n.hue.value == hue);
            assert(n.saturation.value == s);
            assert(n.lightness.value == l);
            assert(d as int == 120 * (ld as int) * (sd as int)) by (nonlinear_arith)
                requires
                    d == 120 * (lds as u128),
                    lds == ld * sd,
            ;
            assert(mpre as int == 2 * (ln as int) * (sd as int)) by (nonlinear_arith)
                requires
                    mpre == 2 * (lnsd as u128),
                    lnsd == ln * sd,
            ;
            assert(m2 as int == 60 * (2 * (ln as int) * (sd as int) - (cn as int)));
            assert(x2 as int == 2 * (cn as int) * (bf as int));
            assert(c2 as int == 120 * (cn as int));
            assert(out == hsl_to_rgb_spec(color));
        }
        out
    }
}

impl vstd::std_specs::convert::FromSpecImpl<HSLColor> for RGBColor {
    open spec fn obeys_from_spec() -> bool {
        true
    }

    open spec fn from_spec(v: HSLColor) -> RGBColor {
        hsl_to_rgb_spec(v)
    }
}

impl RGBColor {
    /// A style that paints text in this color.
    pub fn to_ansi_foreground(&self) -> (r: ColorAnsi)
        ensures
            r == (ColorAnsi {
                foreground: Some(*self),
                background: None,
                bold: false,
                underline: false,
            }),
    {
        ColorAnsi::new(Some(*self), None)
    }

    /// A style that paints the background in this color.
    pub fn to_ansi_background(&self) -> (r: ColorAnsi)
        ensures
            r == (ColorAnsi {
                foreground: None,
                background: Some(*self),
                bold: false,
                underline: false,
            }),
    {
        ColorAnsi::new(None, Some(*self))
    }

    /// The hexadecimal rendering painted over a background of the color
    /// itself.
    pub fn paint_hex(&self) -> (r: String)
        ensures
            r@ == (ColorAnsi {
                foreground: None,
                background: Some(*self),
                bold: false,
                underline: false,
            }).escape_spec() + self.to_hex_seq() + reset_seq(),
    {
        let ansi = self.to_ansi_background();
        let hex = self.to_hex();
        ansi.paint(hex.as_str())
    }
}

impl ComplementaryColors for RGBColor {
    /// The HSL triad family, each member converted back to RGB.
    open spec fn triad_spec(self) -> Seq<RGBColor> {
        rgb_to_hsl_spec(self).triad_spec().map_values(|h: HSLColor| hsl_to_rgb_spec(h))
    }

    /// The HSL tetradic family, each member converted back to RGB.
    open spec fn tetradic_spec(self) -> Seq<RGBColor> {
        rgb_to_hsl_spec(self).tetradic_spec().map_values(|h: HSLColor| hsl_to_rgb_spec(h))
    }

    /// The HSL analogous family, each member converted back to RGB.
    open spec fn analogous_spec(self) -> Seq<RGBColor> {
        rgb_to_hsl_spec(self).analogous_spec().map_values(|h: HSLColor| hsl_to_rgb_spec(h))
    }

    /// The HSL lightness ramp, each member converted back to RGB.
    open spec fn shades_spec(self) -> Seq<RGBColor> {
        rgb_to_hsl_spec(self).shades_spec().map_values(|h: HSLColor| hsl_to_rgb_spec(h))
    }

    /// The HSL split-complementary family, each member converted back to
    /// RGB.
    open spec fn split_complemetary_spec(self) -> Seq<RGBColor> {
        rgb_to_hsl_spec(self).split_complemetary_spec().map_values(
            |h: HSLColor| hsl_to_rgb_spec(h),
        )
    }

    fn triad(self) -> (r: Vec<RGBColor>) {
        let hsl = HSLColor::from(self);
        let t = hsl.triad();
        let mut r: Vec<RGBColor> = Vec::new();
        r.push(RGBColor::from(t[0]));
        r.push(RGBColor::from(t[1]));
        r.push(RGBColor::from(t[2]));
        proof {
            assert(r@ =~= self.triad_spec());
        }
        r
    }

    fn tetradic(self) -> (r: Vec<RGBColor>) {
        let hsl = HSLColor::from(self);
        let t = hsl.tetradic();
        let mut r: Vec<RGBColor> = Vec::new();
        r.push(RGBColor::from(t[0]));
        r.push(RGBColor::from(t[1]));
        r.push(RGBColor::from(t[2]));
        r.push(RGBColor::from(t[3]));
        proof {
            assert(r@ =~= self.tetradic_spec());
        }
        r
    }

    fn analogous(self) -> (r: Vec<RGBColor>) {
        let hsl = HSLColor::from(self);
        let t = hsl.analogous();
        let mut r: Vec<RGBColor> = Vec::new();
        r.push(RGBColor::from(t[0]));
        r.push(RGBColor::from(t[1]));
        r.push(RGBColor::from(t[2]));
        proof {
            assert(r@ =~= self.analogous_spec());
        }
        r
    }

    fn shades(self) -> (r: Vec<RGBColor>) {
        let hsl = HSLColor::from(self);
        let sh = hsl.shades();
        let mut r: Vec<RGBColor> = Vec::new();
        let mut k: usize = 0;
        while k < 16
            invariant
                0 <= k <= 16,
                sh@.len() == 16,
                sh@ == rgb_to_hsl_spec(self).shades_spec(),
                r@.len() == k,
                forall|t: int| 0 <= t < k ==> #[trigger] r@[t] == hsl_to_rgb_spec(sh@[t]),
            decreases 16 - k,
        {
            let c = sh[k];
            r.push(RGBColor::from(c));
            k = k + 1;
        }
        proof {
            assert(r@ =~= self.shades_spec());
        }
        r
    }

    fn split_complemetary(self) -> (r: Vec<RGBColor>) {
        let hsl = HSLColor::from(self);
        let t = hsl.split_complemetary();
        let mut r: Vec<RGBColor> = Vec::new();
        r.push(RGBColor::from(t[0]));
        r.push(RGBColor::from(t[1]));
        r.push(RGBColor::from(t[2]));
        proof {
            assert(r@ =~= self.split_complemetary_spec());
        }
        r
    }
}

} // verus!
