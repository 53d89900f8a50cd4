//! Anchored full-string classification of color text: hexadecimal form and
//! comma-separated decimal RGB form.

use vstd::prelude::*;

use crate::text::all_digits;
use crate::text::all_hex_digits;
use crate::text::dec_val;
use crate::text::digit_of;
use crate::text::digit_val;
use crate::text::find_comma;
use crate::text::first_comma_from;
use crate::text::hex_digit_of;
use crate::text::is_digit;

verus! {

/// The hexadecimal form: an optional leading `#`, then exactly three or
/// exactly six hexadecimal digits, either case.
pub open spec fn spec_is_hex(s: Seq<char>) -> bool {
    let body = if s.len() > 0 && s[0] == '#' {
        s.skip(1)
    } else {
        s
    };
    (body.len() == 3 || body.len() == 6) && all_hex_digits(body)
}

/// One field of the decimal RGB form: digits only, and at most three of
/// them, with a three-digit field valued at most 255. The empty field is
/// allowed: the pattern is deliberately lenient.
pub open spec fn spec_rgb_field(f: Seq<char>) -> bool {
    all_digits(f) && (f.len() <= 2 || (f.len() == 3 && dec_val(f) <= 255))
}

/// The decimal RGB form: exactly three comma-separated fields, each
/// matching `spec_rgb_field`.
pub open spec fn spec_is_rgb(s: Seq<char>) -> bool {
    let i = first_comma_from(s, 0);
    if i == s.len() {
        false
    } else {
        let j = first_comma_from(s, i + 1);
        if j == s.len() {
            false
        } else {
            first_comma_from(s, j + 1) == s.len() && spec_rgb_field(s.take(i)) && spec_rgb_field(
                s.subrange(i + 1, j),
            ) && spec_rgb_field(s.skip(j + 1))
        }
    }
}

/// True when `value` is in the hexadecimal color form.
pub fn is_hex(value: &str) -> (r: bool)
    ensures
        r == spec_is_hex(value@),
{
    let len = value.unicode_len();
    let off: usize = if len > 0 && value.get_char(0) == '#' {
        1
    } else {
        0
    };
    let ghost body = if value@.len() > 0 && value@[0] == '#' {
        value@.skip(1)
    } else {
        value@
    };
    proof {
        assert(body =~= value@.subrange(off as int, len as int));
    }
    if !(len - off == 3 || len - off == 6) {
        return false;
    }
    let mut i = off;
    while i < len
        invariant
            0 <= off <= i <= len,
            len == value@.len(),
            body == value@.subrange(off as int, len as int),
            body == (if value@.len() > 0 && value@[0] == '#' {
                value@.skip(1)
            } else {
                value@
            }),
            body.len() == 3 || body.len() == 6,
            all_hex_digits(body.take(i - off)),
        decreases len - i,
    {
        let c = value.get_char(i);
        if hex_digit_of(c).is_none() {
            proof {
                assert(body[i - off] == c);
            }
            return false;
        }
        proof {
            assert(body.take(i - off + 1) =~= body.take(i - off).push(c));
        }
        i = i + 1;
    }
    proof {
        assert(body.take(len - off) =~= body);
    }
    true
}

/// Checks one comma-separated field of `s`, the characters `lo` up to
/// `hi`, against the decimal RGB field pattern.
fn check_rgb_field(s: &str, lo: usize, hi: usize) -> (r: bool)
    requires
        lo <= hi <= s@.len(),
    ensures
        r == spec_rgb_field(s@.subrange(lo as int, hi as int)),
{
    let ghost f = s@.subrange(lo as int, hi as int);
    let n = hi - lo;
    if n > 3 {
        return false;
    }
    if n == 0 {
        proof {
            assert(spec_rgb_field(f));
        }
        return true;
    }
    let mut i = lo;
    while i < hi
        invariant
            0 <= lo <= i <= hi <= s@.len(),
            f == s@.subrange(lo as int, hi as int),
            all_digits(f.take(i - lo)),
        decreases hi - i,
    {
        let c = s.get_char(i);
        if digit_of(c).is_none() {
            proof {
                assert(f[i - lo] == c);
            }
            return false;
        }
        proof {
            assert(f.take(i - lo + 1) =~= f.take(i - lo).push(c));
        }
        i = i + 1;
    }
    proof {
        assert(f.take(hi - lo) =~= f);
    }
    if n <= 2 {
        return true;
    }
    let c0 = s.get_char(lo);
    let c1 = s.get_char(lo + 1);
    let c2 = s.get_char(lo + 2);
    let d0 = match digit_of(c0) {
        Some(d) => d,
        None => {
            proof {
                assert(f[0] == c0);
            }
            return false;
        },
    };
    let d1 = match digit_of(c1) {
        Some(d) => d,
        None => {
            proof {
                assert(f[1] == c1);
            }
            return false;
        },
    };
    let d2 = match digit_of(c2) {
        Some(d) => d,
        None => {
            proof {
                assert(f[2] == c2);
            }
            return false;
        },
    };
    let v: u32 = d0 as u32 * 100 + d1 as u32 * 10 + d2 as u32;
    proof {
        assert(f =~= seq![c0, c1, c2]);
        assert(f.drop_last() =~= seq![c0, c1]);
        assert(seq![c0, c1].drop_last() =~= seq![c0]);
        assert(seq![c0].drop_last() =~= Seq::<char>::empty());
        assert(dec_val(Seq::<char>::empty()) == 0);
        assert(dec_val(seq![c0]) == digit_val(c0));
        assert(dec_val(seq![c0, c1]) == digit_val(c0) * 10 + digit_val(c1));
        assert(dec_val(f) == (digit_val(c0) * 10 + digit_val(c1)) * 10 + digit_val(c2));
        assert(v == dec_val(f));
    }
    v <= 255
}

/// True when `value` is in the decimal RGB form.
pub fn is_rgb(value: &str) -> (r: bool)
    ensures
        r == spec_is_rgb(value@),
{
    let len = value.unicode_len();
    let i = find_comma(value, 0, len);
    if i == len {
        return false;
    }
    let j = find_comma(value, i + 1, len);
    if j == len {
        return false;
    }
    let k = find_comma(value, j + 1, len);
    if k != len {
        return false;
    }
    proof {
        assert(value@.subrange(0, i as int) =~= value@.take(i as int));
        assert(value@.subrange(j + 1, len as int) =~= value@.skip(j + 1));
    }
    let f1 = check_rgb_field(value, 0, i);
    let f2 = check_rgb_field(value, i + 1, j);
    let f3 = check_rgb_field(value, j + 1, len);
    f1 && f2 && f3
}

} // verus!
