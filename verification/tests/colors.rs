use color_rs::Error;
use color_rs::Frac;
use color_rs::component::ColorComponent;
use color_rs::component::ColorComponentConvert;
use color_rs::harmony::ComplementaryColors;
use color_rs::hsl::HSLColor;
use color_rs::hsv::HSVColor;
use color_rs::rgb::RGBColor;
use color_rs::validate::is_hex;
use color_rs::validate::is_rgb;

fn rgb(r: u8, g: u8, b: u8) -> RGBColor {
    RGBColor::new(r, g, b)
}

fn channels(c: RGBColor) -> (u8, u8, u8) {
    (c.red.value, c.green.value, c.blue.value)
}

fn parse_error_component(e: Error) -> String {
    match e {
        Error::ParseError(name) => name,
    }
}

#[test]
fn hex_red_is_not_light() {
    let c = RGBColor::from_hex("#FF0000").ok().unwrap();
    assert_eq!(channels(c), (255, 0, 0));
    assert!(!c.is_light());
}

#[test]
fn hex_shorthand_expands() {
    let c = RGBColor::from_hex("#fff").ok().unwrap();
    assert_eq!(channels(c), (255, 255, 255));
    assert!(c.is_light());
}

#[test]
fn hex_shorthand_mixed() {
    let c = RGBColor::from_hex("1a9").ok().unwrap();
    assert_eq!(channels(c), (0x11, 0xaa, 0x99));
}

#[test]
fn decimal_parse_and_hex_render() {
    let c = RGBColor::from_rgb("0,128,255").ok().unwrap();
    assert_eq!(channels(c), (0, 128, 255));
    assert_eq!(c.to_hex(), "#0080FF");
}

#[test]
fn decimal_rejects_out_of_pattern() {
    assert!(!is_rgb("999,0,0"));
}

#[test]
fn rotate_hue_absolute_value_quirk() {
    // Rotating hue 10 by -30 yields abs(10 - 30) mod 360 == 20, not the
    // modular-wrap answer 340: the formula takes the absolute value first.
    let c = HSLColor::new(10, Frac::new(1, 2), Frac::new(1, 2));
    let r = c.rotate_hue(-30);
    assert_eq!(r.hue.value, 20);
    assert_eq!(r.saturation.value, Frac { num: 1, den: 2 });
    assert_eq!(r.lightness.value, Frac { num: 1, den: 2 });
}

#[test]
fn hex_round_trip_samples() {
    for &(r, g, b) in &[(0u8, 0u8, 0u8), (255, 255, 255), (1, 2, 3), (0x0A, 0x80, 0xFF)] {
        let c = rgb(r, g, b);
        let back = RGBColor::from_hex(&c.to_hex()).ok().unwrap();
        assert_eq!(channels(back), (r, g, b));
    }
}

#[test]
fn decimal_round_trip_samples() {
    for &(r, g, b) in &[(0u8, 0u8, 0u8), (255, 255, 255), (7, 70, 200)] {
        let c = rgb(r, g, b);
        let back = RGBColor::from_rgb(&c.to_rgb(",")).ok().unwrap();
        assert_eq!(channels(back), (r, g, b));
    }
}

#[test]
fn invert_involution_samples() {
    for &(r, g, b) in &[(0u8, 0u8, 0u8), (255, 0, 128), (12, 34, 56)] {
        let c = rgb(r, g, b);
        assert_eq!(channels(c.invert()), (255 - r, 255 - g, 255 - b));
        assert_eq!(channels(c.invert().invert()), (r, g, b));
    }
}

#[test]
fn is_light_boundary() {
    assert!(rgb(127, 128, 128).is_light());
    assert!(!rgb(127, 128, 127).is_light());
}

#[test]
fn decimal_errors_name_component() {
    assert_eq!(parse_error_component(RGBColor::from_rgb("x,0,0").err().unwrap()), "red");
    assert_eq!(parse_error_component(RGBColor::from_rgb("0,x,0").err().unwrap()), "green");
    assert_eq!(parse_error_component(RGBColor::from_rgb("0,0,x").err().unwrap()), "blue");
    assert_eq!(parse_error_component(RGBColor::from_rgb("0,0,256").err().unwrap()), "blue");
    assert_eq!(parse_error_component(RGBColor::from_rgb("0,0").err().unwrap()), "blue");
    assert_eq!(parse_error_component(RGBColor::from_rgb("0").err().unwrap()), "green");
    assert_eq!(parse_error_component(RGBColor::from_rgb("").err().unwrap()), "red");
}

#[test]
fn hex_errors_name_component() {
    assert_eq!(parse_error_component(RGBColor::from_hex("#GG0000").err().unwrap()), "red");
    assert_eq!(parse_error_component(RGBColor::from_hex("#00GG00").err().unwrap()), "green");
    assert_eq!(parse_error_component(RGBColor::from_hex("#0000GG").err().unwrap()), "blue");
    assert_eq!(parse_error_component(RGBColor::from_hex("#f").err().unwrap()), "red");
    assert_eq!(parse_error_component(RGBColor::from_hex("#ffff").err().unwrap()), "blue");
    assert_eq!(parse_error_component(RGBColor::from_hex("#xyz").err().unwrap()), "red");
}

#[test]
fn decimal_parse_allows_extra_fields() {
    // The parser reads the first three comma-separated fields, as the
    // classifier alone enforces the three-field shape.
    let c = RGBColor::from_rgb("1,2,3,4").ok().unwrap();
    assert_eq!(channels(c), (1, 2, 3));
    assert!(!is_rgb("1,2,3,4"));
}

#[test]
fn validator_hex_forms() {
    assert!(is_hex("#FF0000"));
    assert!(is_hex("fff"));
    assert!(is_hex("#AbC123"));
    assert!(is_hex("abc123"));
    assert!(!is_hex("#ffff"));
    assert!(!is_hex("12345"));
    assert!(!is_hex("#ggg"));
    assert!(!is_hex(""));
}

#[test]
fn validator_rgb_forms() {
    assert!(is_rgb("0,128,255"));
    assert!(is_rgb("255,255,255"));
    assert!(is_rgb(",,"));
    assert!(!is_rgb("1,22,333"));
    assert!(!is_rgb("256,0,0"));
    assert!(!is_rgb("0,0"));
    assert!(!is_rgb("a,b,c"));
    assert!(!is_rgb("0,0,0,"));
}

#[test]
fn hsl_from_rgb_exact() {
    let h = HSLColor::from(rgb(0, 128, 255));
    assert_eq!(h.hue.value, 210);
    assert_eq!(h.saturation.value, Frac { num: 255, den: 255 });
    assert_eq!(h.lightness.value, Frac { num: 255, den: 510 });
    assert_eq!(h.to_str(), "210, 1.00, 0.50");
}

#[test]
fn hsl_from_rgb_achromatic() {
    let h = HSLColor::from(rgb(10, 10, 10));
    assert_eq!(h.hue.value, 0);
    assert_eq!(h.saturation.value.num, 0);
    assert_eq!(h.lightness.value, Frac { num: 20, den: 510 });
    assert_eq!(h.to_str(), "000, 0.00, 0.04");
}

#[test]
fn hsv_from_rgb_exact() {
    let v = HSVColor::from(rgb(0, 128, 255));
    assert_eq!(v.hue.value, 210);
    assert_eq!(v.saturation.value, Frac { num: 255, den: 255 });
    assert_eq!(v.value.value, Frac { num: 255, den: 255 });
    assert_eq!(v.to_str(), "210, 1.00, 1.00");
}

#[test]
fn hsv_from_rgb_achromatic_short_circuit() {
    let v = HSVColor::from(rgb(10, 10, 10));
    assert_eq!(v.hue.value, 0);
    assert_eq!(v.saturation.value, Frac { num: 0, den: 1 });
    assert_eq!(v.value.value, Frac { num: 10, den: 255 });
    assert_eq!(v.to_str(), "000, 0.00, 0.04");
}

#[test]
fn conversions_stay_in_range() {
    let mut ch: u16 = 0;
    while ch < 256 {
        let c = rgb(ch as u8, (255 - ch) as u8, ((ch * 7) % 256) as u8);
        let h = HSLColor::from(c);
        assert!(h.hue.value <= 360);
        assert!(h.saturation.value.num <= h.saturation.value.den);
        assert!(h.lightness.value.num <= h.lightness.value.den);
        let v = HSVColor::from(c);
        assert!(v.hue.value <= 360);
        assert!(v.saturation.value.num <= v.saturation.value.den);
        assert!(v.value.value.num <= v.value.value.den);
        ch += 17;
    }
}

#[test]
fn hsl_to_rgb_exact() {
    let c = RGBColor::from(HSLColor::new(210, Frac::new(1, 2), Frac::new(1, 2)));
    assert_eq!(channels(c), (64, 128, 191));
}

#[test]
fn hsl_rgb_round_trip_example() {
    let c = rgb(0, 128, 255);
    let back = RGBColor::from(HSLColor::from(c));
    assert_eq!(channels(back), (0, 128, 255));
}

#[test]
fn hue_zero_selects_empty_sector() {
    // A hue of exactly zero heads the six-sector table with the all-zero
    // entry, so a pure red decomposes back to black.
    let c = RGBColor::from(HSLColor::from(rgb(255, 0, 0)));
    assert_eq!(channels(c), (0, 0, 0));
}

#[test]
fn hsl_triad_hues() {
    let c = HSLColor::new(10, Frac::new(1, 2), Frac::new(1, 2));
    let t = c.triad();
    assert_eq!(t.len(), 3);
    assert_eq!(t[0], c);
    assert_eq!(t[1].hue.value, 130);
    assert_eq!(t[2].hue.value, 250);
    assert_eq!(t[1].saturation.value, c.saturation.value);
    assert_eq!(t[2].lightness.value, c.lightness.value);
}

#[test]
fn hsl_tetradic_hues() {
    let c = HSLColor::new(10, Frac::new(1, 2), Frac::new(1, 2));
    let t = c.tetradic();
    assert_eq!(t.len(), 4);
    assert_eq!(t[0], c);
    assert_eq!(t[1].hue.value, 40);
    assert_eq!(t[2].hue.value, 190);
    assert_eq!(t[3].hue.value, 220);
}

#[test]
fn hsl_analogous_hues() {
    let c = HSLColor::new(10, Frac::new(1, 2), Frac::new(1, 2));
    let t = c.analogous();
    assert_eq!(t.len(), 3);
    assert_eq!(t[0].hue.value, 20);
    assert_eq!(t[1], c);
    assert_eq!(t[2].hue.value, 40);
}

#[test]
fn hsl_split_complementary_hues() {
    let c = HSLColor::new(10, Frac::new(1, 2), Frac::new(1, 2));
    let t = c.split_complemetary();
    assert_eq!(t.len(), 3);
    assert_eq!(t[0].hue.value, 160);
    assert_eq!(t[1], c);
    assert_eq!(t[2].hue.value, 220);
}

#[test]
fn hsl_shades_ramp() {
    let c = HSLColor::new(10, Frac::new(1, 3), Frac::new(1, 2));
    let t = c.shades();
    assert_eq!(t.len(), 16);
    for (i, s) in t.iter().enumerate() {
        assert_eq!(s.hue.value, 10);
        assert_eq!(s.saturation.value, Frac { num: 1, den: 3 });
        assert_eq!(s.lightness.value, Frac { num: i as u32 + 1, den: 17 });
    }
    for i in 1..16 {
        let a = t[i - 1].lightness.value;
        let b = t[i].lightness.value;
        assert!(a.num * b.den < b.num * a.den);
    }
}

#[test]
fn rgb_triad_example() {
    let c = rgb(0, 128, 255);
    let t = c.triad();
    assert_eq!(t.len(), 3);
    assert_eq!(channels(t[0]), (0, 128, 255));
    let h = HSLColor::from(c);
    assert_eq!(channels(t[1]), channels(RGBColor::from(h.rotate_hue(120))));
    assert_eq!(channels(t[2]), channels(RGBColor::from(h.rotate_hue(120).rotate_hue(120))));
}

#[test]
fn rgb_shades_count() {
    let t = rgb(0, 128, 255).shades();
    assert_eq!(t.len(), 16);
    let h = HSLColor::from(rgb(0, 128, 255));
    let hs = h.shades();
    for i in 0..16 {
        assert_eq!(channels(t[i]), channels(RGBColor::from(hs[i])));
    }
}

#[test]
fn brighten_and_darken_are_noops() {
    let c = HSLColor::new(10, Frac::new(1, 2), Frac::new(1, 2));
    assert_eq!(c.brighten(Frac::new(1, 4)), c);
    assert_eq!(c.darken(Frac::new(1, 4)), c);
}

#[test]
fn hsl_new_clamps() {
    let c = HSLColor::new(400, Frac::new(5, 4), Frac::new(1, 2));
    assert_eq!(c.hue.value, 360);
    assert_eq!(c.saturation.value, Frac { num: 4, den: 4 });
    let v = HSVColor::new(361, Frac::new(1, 2), Frac::new(9, 8));
    assert_eq!(v.hue.value, 360);
    assert_eq!(v.value.value, Frac { num: 8, den: 8 });
}

#[test]
fn component_renders() {
    let c: ColorComponent<u8> = ColorComponent { value: 7 };
    assert_eq!(c.to_str(), "007");
    assert_eq!(c.to_hex(), "07");
    let m: ColorComponent<u8> = ColorComponent { value: 255 };
    assert_eq!(m.to_str(), "255");
    assert_eq!(m.to_hex(), "FF");
    let h: ColorComponent<u16> = ColorComponent { value: 360 };
    assert_eq!(h.to_str(), "360");
}

#[test]
fn to_rgb_separator() {
    assert_eq!(rgb(0, 128, 255).to_rgb(", "), "000, 128, 255");
    assert_eq!(rgb(1, 2, 3).to_rgb(","), "001,002,003");
}

#[test]
fn ansi_background_paint() {
    let ansi = rgb(1, 2, 3).to_ansi_background();
    assert_eq!(ansi.paint("X"), "\x1b[48;2;001;002;003mX\x1b[0m");
}

#[test]
fn ansi_foreground_escape() {
    let ansi = rgb(255, 0, 0).to_ansi_foreground();
    assert_eq!(ansi.to_escape_str(), "\x1b[38;2;255;000;000m");
}

#[test]
fn ansi_all_parts_in_order() {
    let mut ansi = color_rs::ansi::ColorAnsi::new(Some(rgb(9, 8, 7)), Some(rgb(1, 2, 3)));
    ansi.bold(true);
    ansi.underline(true);
    assert_eq!(ansi.to_escape_str(), "\x1b[1;4;48;2;001;002;003;38;2;009;008;007m");
}

#[test]
fn ansi_empty_style() {
    let ansi = color_rs::ansi::ColorAnsi::new(None, None);
    assert_eq!(ansi.to_escape_str(), "\x1b[m");
    assert_eq!(ansi.paint("hi"), "\x1b[mhi\x1b[0m");
}

#[test]
fn ansi_builders_overwrite() {
    let mut ansi = color_rs::ansi::ColorAnsi::new(None, None);
    ansi.foreground(rgb(1, 1, 1));
    ansi.foreground(rgb(2, 2, 2));
    assert_eq!(ansi.foreground, Some(rgb(2, 2, 2)));
    assert_eq!(ansi.background, None);
    ansi.background(rgb(3, 3, 3));
    assert_eq!(ansi.background, Some(rgb(3, 3, 3)));
}

#[test]
fn paint_hex_wraps_rendering() {
    assert_eq!(rgb(255, 0, 0).paint_hex(), "\x1b[48;2;255;000;000m#FF0000\x1b[0m");
}

#[test]
fn new_rand_yields_valid_channels() {
    let c = RGBColor::new_rand();
    let hex = c.to_hex();
    assert_eq!(hex.len(), 7);
    assert!(hex.starts_with('#'));
}

#[test]
fn frac_two_decimal_rendering() {
    assert_eq!(Frac::new(1, 2).to_str(), "0.50");
    assert_eq!(Frac::new(1, 1).to_str(), "1.00");
    assert_eq!(Frac::new(0, 1).to_str(), "0.00");
    assert_eq!(Frac::new(1, 3).to_str(), "0.33");
    assert_eq!(Frac::new(2, 3).to_str(), "0.67");
    assert_eq!(Frac::new(1, 17).to_str(), "0.06");
}

#[test]
fn decimal_parse_accepts_plus_and_zero_padding() {
    let c = RGBColor::from_rgb("+1,007,0").ok().unwrap();
    assert_eq!(channels(c), (1, 7, 0));
}
