//! An exact fraction in the unit interval, used for the saturation,
//! lightness and value channels of the HSL and HSV color models.

use vstd::prelude::*;

use crate::component::digit_char;
use crate::component::digit_str;

verus! {

/// The absolute value of `x`.
pub open spec fn abs_int(x: int) -> int {
    if x < 0 {
        -x
    } else {
        x
    }
}

/// A non-negative fraction `num / den` whose value lies in `[0, 1]`.
#[derive(Debug, Clone, Copy, PartialEq, Eq, Structural)]
pub struct Frac {
    pub num: u32,
    pub den: u32,
}

/// `f` with its numerator clamped to its denominator, so that the value
/// lies in the unit interval.
pub open spec fn frac_clamp(f: Frac) -> Frac {
    if f.num <= f.den {
        f
    } else {
        Frac { num: f.den, den: f.den }
    }
}

/// `f` brought into well-formed shape: a zero denominator is read as the
/// value zero, and the numerator is clamped to the denominator.
pub open spec fn norm_frac(f: Frac) -> Frac {
    if f.den == 0 {
        Frac { num: 0, den: 1 }
    } else {
        frac_clamp(f)
    }
}

impl Frac {
    /// The fraction is well formed: the denominator is positive and the
    /// value lies in the unit interval.
    pub open spec fn wf(&self) -> bool {
        1 <= self.den && self.num <= self.den
    }

    /// The value of `self` is strictly below the value of `other`, by
    /// cross multiplication.
    pub open spec fn lt(self, other: Frac) -> bool {
        self.num * other.den < other.num * self.den
    }

    /// The value rounded half-up to a whole number of hundredths,
    /// in `0 ..= 100` for a well-formed fraction.
    pub open spec fn hundredths(self) -> int {
        (200 * self.num + self.den) / (2 * self.den)
    }

    /// The two-decimal rendering, `0.XY` or `1.00`.
    pub open spec fn two_dec_seq(self) -> Seq<char> {
        if self.hundredths() == 100 {
            seq!['1', '.', '0', '0']
        } else {
            seq!['0', '.', digit_char(self.hundredths() / 10), digit_char(self.hundredths() % 10)]
        }
    }

    /// Builds `num / den`, clamping the value into `[0, 1]`: a numerator
    /// above the denominator is replaced by the denominator.
    pub fn new(num: u32, den: u32) -> (r: Frac)
        requires
            1 <= den,
        ensures
            r == frac_clamp(Frac { num, den }),
            r.wf(),
    {
        if num <= den {
            Frac { num, den }
        } else {
            Frac { num: den, den }
        }
    }

    /// The well-formed reading of the fraction: a zero denominator is
    /// read as zero, and the value is clamped into the unit interval.
    pub fn normalized(&self) -> (r: Frac)
        ensures
            r == norm_frac(*self),
            r.wf(),
    {
        if self.den == 0 {
            Frac { num: 0, den: 1 }
        } else if self.num > self.den {
            Frac { num: self.den, den: self.den }
        } else {
            *self
        }
    }

    /// The value rendered with two decimal places, rounded half-up.
    pub fn to_str(&self) -> (r: String)
        requires
            self.wf(),
        ensures
            r@ == self.two_dec_seq(),
    {
        let n = self.num as u64;
        let d = self.den as u64;
        let h = (200 * n + d) / (2 * d);
        proof {
            let a = (200 * n + d) as int;
            let b = (2 * d) as int;
            assert(a < b * 101);
            vstd::arithmetic::div_mod::lemma_multiply_divide_lt(a, b, 101);
            assert(h <= 100);
            assert(h == self.hundredths());
            if h != 100 {
                assert(h < 100);
                vstd::arithmetic::div_mod::lemma_multiply_divide_lt(h as int, 10, 10);
                assert((h as int) < 10 * 10);
            }
        }
        if h == 100 {
            let mut r = String::new();
            r.append("1.00");
            proof {
                reveal_strlit("1.00");
                assert(r@ =~= self.two_dec_seq());
            }
            r
        } else {
            let mut r = String::new();
            r.append("0.");
            r.append(digit_str((h / 10) as u8));
            r.append(digit_str((h % 10) as u8));
            proof {
                reveal_strlit("0.");
                assert(r@ =~= self.two_dec_seq());
            }
            r
        }
    }
}

} // verus!
