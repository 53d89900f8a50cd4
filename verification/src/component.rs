//! A single bounded channel value and its decimal / hexadecimal rendering,
//! plus the parse-error type shared by the text constructors.

use vstd::prelude::*;

verus! {

/// Error raised when a red/green/blue text field fails to parse in its
/// expected numeric base. The payload names the failing component.
#[derive(Debug)]
pub enum Error {
    ParseError(String),
}

/// A single bounded numeric channel value.
#[derive(Debug, Clone, Copy, PartialEq, Eq, Structural)]
pub struct ColorComponent<T> {
    pub value: T,
}

impl<T> From<T> for ColorComponent<T> {
    /// Wraps a raw channel value.
    fn from(value: T) -> (r: Self) {
        ColorComponent { value }
    }
}

impl<T> vstd::std_specs::convert::FromSpecImpl<T> for ColorComponent<T> {
    open spec fn obeys_from_spec() -> bool {
        true
    }

    open spec fn from_spec(v: T) -> ColorComponent<T> {
        ColorComponent { value: v }
    }
}

/// The decimal digit character for `d` in `0 ..= 9`.
pub open spec fn digit_char(d: int) -> char {
    if d == 0 {
        '0'
    } else if d == 1 {
        '1'
    } else if d == 2 {
        '2'
    } else if d == 3 {
        '3'
    } else if d == 4 {
        '4'
    } else if d == 5 {
        '5'
    } else if d == 6 {
        '6'
    } else if d == 7 {
        '7'
    } else if d == 8 {
        '8'
    } else {
        '9'
    }
}

/// The uppercase hexadecimal digit character for `d` in `0 ..= 15`.
pub open spec fn hex_char(d: int) -> char {
    if d < 10 {
        digit_char(d)
    } else if d == 10 {
        'A'
    } else if d == 11 {
        'B'
    } else if d == 12 {
        'C'
    } else if d == 13 {
        'D'
    } else if d == 14 {
        'E'
    } else {
        'F'
    }
}

/// Zero-padded three-digit decimal rendering of `v` in `0 ..= 999`.
pub open spec fn dec3_seq(v: int) -> Seq<char> {
    seq![digit_char(v / 100), digit_char(v / 10 % 10), digit_char(v % 10)]
}

/// Two-digit uppercase hexadecimal rendering of `v` in `0 ..= 255`.
pub open spec fn hex2_seq(v: int) -> Seq<char> {
    seq![hex_char(v / 16), hex_char(v % 16)]
}

/// The one-character string for the decimal digit `d`.
pub fn digit_str(d: u8) -> (r: &'static str)
    requires
        d < 10,
    ensures
        r@ == seq![digit_char(d as int)],
{
    let r: &'static str = if d == 0 {
        "0"
    } else if d == 1 {
        "1"
    } else if d == 2 {
        "2"
    } else if d == 3 {
        "3"
    } else if d == 4 {
        "4"
    } else if d == 5 {
        "5"
    } else if d == 6 {
        "6"
    } else if d == 7 {
        "7"
    } else if d == 8 {
        "8"
    } else {
        "9"
    };
    proof {
        reveal_strlit("0");
        reveal_strlit("1");
        reveal_strlit("2");
        reveal_strlit("3");
        reveal_strlit("4");
        reveal_strlit("5");
        reveal_strlit("6");
        reveal_strlit("7");
        reveal_strlit("8");
        reveal_strlit("9");
        assert(r@ =~= seq![digit_char(d as int)]);
    }
    r
}

/// The one-character string for the uppercase hexadecimal digit `d`.
pub fn hex_digit_str(d: u8) -> (r: &'static str)
    requires
        d < 16,
    ensures
        r@ == seq![hex_char(d as int)],
{
    let r: &'static str = if d < 10 {
        digit_str(d)
    } else if d == 10 {
        "A"
    } else if d == 11 {
        "B"
    } else if d == 12 {
        "C"
    } else if d == 13 {
        "D"
    } else if d == 14 {
        "E"
    } else {
        "F"
    };
    proof {
        reveal_strlit("A");
        reveal_strlit("B");
        reveal_strlit("C");
        reveal_strlit("D");
        reveal_strlit("E");
        reveal_strlit("F");
        assert(r@ =~= seq![hex_char(d as int)]);
    }
    r
}

/// Zero-padded three-digit decimal string of `v`.
pub fn dec3_u16(v: u16) -> (r: String)
    requires
        v <= 999,
    ensures
        r@ == dec3_seq(v as int),
{
    let mut r = String::new();
    r.append(digit_str((v / 100) as u8));
    r.append(digit_str((v / 10 % 10) as u8));
    r.append(digit_str((v % 10) as u8));
    proof {
        assert(r@ =~= dec3_seq(v as int));
    }
    r
}

/// Two-digit uppercase hexadecimal string of `v`.
pub fn hex2_u8(v: u8) -> (r: String)
    requires
        true,
    ensures
        r@ == hex2_seq(v as int),
{
    let mut r = String::new();
    r.append(hex_digit_str(v / 16));
    r.append(hex_digit_str(v % 16));
    proof {
        assert(r@ =~= hex2_seq(v as int));
    }
    r
}

/// String and hexadecimal rendering of a channel value. Each implementation
/// fixes the rendering through its `to_str_spec` / `to_hex_spec` functions.
pub trait ColorComponentConvert: Sized {
    /// When the decimal rendering is defined.
    spec fn to_str_req(&self) -> bool;

    /// The exact decimal rendering.
    spec fn to_str_spec(&self) -> Seq<char>;

    /// When the hexadecimal rendering is defined.
    spec fn to_hex_req(&self) -> bool;

    /// The exact hexadecimal rendering.
    spec fn to_hex_spec(&self) -> Seq<char>;

    fn to_str(&self) -> (r: String)
        requires
            self.to_str_req(),
        ensures
            r@ == self.to_str_spec(),
    ;

    fn to_hex(&self) -> (r: String)
        requires
            self.to_hex_req(),
        ensures
            r@ == self.to_hex_spec(),
    ;
}

impl ColorComponentConvert for ColorComponent<u8> {
    open spec fn to_str_req(&self) -> bool {
        true
    }

    open spec fn to_str_spec(&self) -> Seq<char> {
        dec3_seq(self.value as int)
    }

    open spec fn to_hex_req(&self) -> bool {
        true
    }

    open spec fn to_hex_spec(&self) -> Seq<char> {
        hex2_seq(self.value as int)
    }

    fn to_str(&self) -> (r: String) {
        dec3_u16(self.value as u16)
    }

    fn to_hex(&self) -> (r: String) {
        hex2_u8(self.value)
    }
}

impl ColorComponentConvert for ColorComponent<u16> {
    open spec fn to_str_req(&self) -> bool {
        self.value <= 999
    }

    open spec fn to_str_spec(&self) -> Seq<char> {
        dec3_seq(self.value as int)
    }

    open spec fn to_hex_req(&self) -> bool {
        self.value <= 255
    }

    open spec fn to_hex_spec(&self) -> Seq<char> {
        hex2_seq(self.value as int)
    }

    fn to_str(&self) -> (r: String) {
        dec3_u16(self.value)
    }

    fn to_hex(&self) -> (r: String) {
        hex2_u8(self.value as u8)
    }
}

} // verus!
