//! Character-level helpers shared by the text validators and the RGB text
//! constructors: digit classification, numeric field evaluation, and
//! comma scanning.

use vstd::prelude::*;

verus! {

/// `c` is an ASCII decimal digit.
pub open spec fn is_digit(c: char) -> bool {
    '0' as int <= c as int <= '9' as int
}

/// The numeric value of a decimal digit character.
pub open spec fn digit_val(c: char) -> int {
    c as int - '0' as int
}

/// `c` is an ASCII hexadecimal digit, either case.
pub open spec fn is_hex_digit(c: char) -> bool {
    is_digit(c) || 'a' as int <= c as int <= 'f' as int || 'A' as int <= c as int <= 'F' as int
}

/// The numeric value of a hexadecimal digit character.
pub open spec fn hex_digit_val(c: char) -> int {
    if is_digit(c) {
        digit_val(c)
    } else if 'a' as int <= c as int <= 'f' as int {
        c as int - 'a' as int + 10
    } else {
        c as int - 'A' as int + 10
    }
}

/// Every character of `s` is a decimal digit.
pub open spec fn all_digits(s: Seq<char>) -> bool {
    forall|i: int| 0 <= i < s.len() ==> is_digit(#[trigger] s[i])
}

/// Every character of `s` is a hexadecimal digit.
pub open spec fn all_hex_digits(s: Seq<char>) -> bool {
    forall|i: int| 0 <= i < s.len() ==> is_hex_digit(#[trigger] s[i])
}

/// The base-ten value of a digit string.
pub open spec fn dec_val(s: Seq<char>) -> int
    decreases s.len(),
{
    if s.len() == 0 {
        0
    } else {
        dec_val(s.drop_last()) * 10 + digit_val(s.last())
    }
}

/// The base-sixteen value of a digit string.
pub open spec fn hex_val(s: Seq<char>) -> int
    decreases s.len(),
{
    if s.len() == 0 {
        0
    } else {
        hex_val(s.drop_last()) * 16 + hex_digit_val(s.last())
    }
}

/// What parsing a field as an unsigned 8-bit decimal number yields: an
/// optional leading `+`, then at least one digit, with value at most 255.
pub open spec fn parse_u8_dec_spec(s: Seq<char>) -> Option<u8> {
    let digits = if s.len() > 0 && s[0] == '+' {
        s.skip(1)
    } else {
        s
    };
    if digits.len() >= 1 && all_digits(digits) && dec_val(digits) <= 255 {
        Some(dec_val(digits) as u8)
    } else {
        None
    }
}

/// What parsing a field as an unsigned 8-bit hexadecimal number yields: at
/// least one hexadecimal digit, with value at most 255.
pub open spec fn parse_u8_hex_spec(s: Seq<char>) -> Option<u8> {
    if s.len() >= 1 && all_hex_digits(s) && hex_val(s) <= 255 {
        Some(hex_val(s) as u8)
    } else {
        None
    }
}

/// The position of the first comma of `s` at or after `i`, or `s.len()`
/// when there is none.
pub open spec fn first_comma_from(s: Seq<char>, i: int) -> int
    decreases s.len() - i,
{
    if i < 0 || i >= s.len() {
        s.len() as int
    } else if s[i] == ',' {
        i
    } else {
        first_comma_from(s, i + 1)
    }
}

/// A stretch free of commas followed by a comma (or the string's end)
/// pins down `first_comma_from`.
pub proof fn lemma_first_comma_at(s: Seq<char>, from: int, n: int)
    requires
        0 <= from <= n <= s.len(),
        forall|m: int| from <= m < n ==> s[m] != ',',
        n == s.len() || s[n] == ',',
    ensures
        first_comma_from(s, from) == n,
    decreases n - from,
{
    if from < n {
        lemma_first_comma_at(s, from + 1, n);
    }
}

/// A digit value never grows when digits are appended on the right.
pub proof fn lemma_dec_val_prefix(s: Seq<char>, i: int)
    requires
        0 <= i <= s.len(),
        all_digits(s),
    ensures
        dec_val(s.take(i)) <= dec_val(s),
        dec_val(s) >= 0,
    decreases s.len(),
{
    if s.len() == 0 {
        assert(s.take(i) =~= s);
    } else {
        lemma_dec_val_prefix(s.drop_last(), if i <= s.len() - 1 { i } else { s.len() - 1 });
        if i <= s.len() - 1 {
            assert(s.take(i) =~= s.drop_last().take(i));
        } else {
            assert(s.take(i) =~= s);
        }
        assert(is_digit(s.last()));
    }
}

/// Same bound for hexadecimal digit strings.
pub proof fn lemma_hex_val_prefix(s: Seq<char>, i: int)
    requires
        0 <= i <= s.len(),
        all_hex_digits(s),
    ensures
        hex_val(s.take(i)) <= hex_val(s),
        hex_val(s) >= 0,
    decreases s.len(),
{
    if s.len() == 0 {
        assert(s.take(i) =~= s);
    } else {
        lemma_hex_val_prefix(s.drop_last(), if i <= s.len() - 1 { i } else { s.len() - 1 });
        if i <= s.len() - 1 {
            assert(s.take(i) =~= s.drop_last().take(i));
        } else {
            assert(s.take(i) =~= s);
        }
        assert(is_hex_digit(s.last()));
    }
}

/// The decimal digit of `c`, if any.
pub fn digit_of(c: char) -> (r: Option<u8>)
    ensures
        r is Some <==> is_digit(c),
        r is Some ==> r->0 == digit_val(c),
{
    let u = c as u32;
    if 48 <= u && u <= 57 {
        Some((u - 48) as u8)
    } else {
        None
    }
}

/// The hexadecimal digit of `c`, if any.
pub fn hex_digit_of(c: char) -> (r: Option<u8>)
    ensures
        r is Some <==> is_hex_digit(c),
        r is Some ==> r->0 == hex_digit_val(c),
{
    let u = c as u32;
    if 48 <= u && u <= 57 {
        Some((u - 48) as u8)
    } else if 97 <= u && u <= 102 {
        Some((u - 97 + 10) as u8)
    } else if 65 <= u && u <= 70 {
        Some((u - 65 + 10) as u8)
    } else {
        None
    }
}

/// The position of the first comma of `s` at or after `from`, or the
/// length of `s` when there is none.
pub fn find_comma(s: &str, from: usize, len: usize) -> (r: usize)
    requires
        len == s@.len(),
        from <= len,
    ensures
        r == first_comma_from(s@, from as int),
        from <= r <= len,
    decreases len - from,
{
    if from == len {
        len
    } else {
        let c = s.get_char(from);
        if c == ',' {
            from
        } else {
            find_comma(s, from + 1, len)
        }
    }
}

/// Parses `s[lo .. hi]` as an unsigned 8-bit decimal field.
pub fn parse_dec_range(s: &str, lo: usize, hi: usize) -> (r: Option<u8>)
    requires
        lo <= hi <= s@.len(),
    ensures
        r == parse_u8_dec_spec(s@.subrange(lo as int, hi as int)),
{
    let ghost field = s@.subrange(lo as int, hi as int);
    let mut i = lo;
    if i < hi && s.get_char(i) == '+' {
        i = i + 1;
    }
    let ghost digits = s@.subrange(i as int, hi as int);
    proof {
        if field.len() > 0 && field[0] == '+' {
            assert(field.skip(1) =~= digits);
        } else {
            assert(field =~= digits);
        }
    }
    if i == hi {
        return None;
    }
    let ghost start = i as int;
    let mut v: u32 = 0;
    while i < hi
        invariant
            0 <= start <= i <= hi <= s@.len(),
            digits == s@.subrange(start, hi as int),
            field == s@.subrange(lo as int, hi as int),
            digits == (if field.len() > 0 && field[0] == '+' {
                field.skip(1)
            } else {
                field
            }),
            digits.len() >= 1,
            all_digits(digits.take(i - start)),
            v == dec_val(digits.take(i - start)),
            v <= 255,
        decreases hi - i,
    {
        let c = s.get_char(i);
        let d = match digit_of(c) {
            Some(d) => d,
            None => {
                proof {
                    assert(digits[i - start] == c);
                }
                return None;
            },
        };
        proof {
            assert(digits.take(i - start + 1).drop_last() =~= digits.take(i - start));
            assert(digits.take(i - start + 1).last() == c);
        }
        v = v * 10 + d as u32;
        i = i + 1;
        if v > 255 {
            proof {
                assert(digits.take(digits.len() as int) =~= digits);
                if all_digits(digits) {
                    lemma_dec_val_prefix(digits, i - start);
                }
            }
            return None;
        }
    }
    proof {
        assert(digits.take(i - start) =~= digits);
    }
    Some(v as u8)
}

/// Parses `s[lo .. hi]` as an unsigned 8-bit hexadecimal field.
pub fn parse_hex_range(s: &str, lo: usize, hi: usize) -> (r: Option<u8>)
    requires
        lo <= hi <= s@.len(),
    ensures
        r == parse_u8_hex_spec(s@.subrange(lo as int, hi as int)),
{
    let ghost digits = s@.subrange(lo as int, hi as int);
    if lo == hi {
        return None;
    }
    let mut i = lo;
    let ghost start = lo as int;
    let mut v: u32 = 0;
    while i < hi
        invariant
            0 <= start <= i <= hi <= s@.len(),
            start == lo as int,
            digits == s@.subrange(start, hi as int),
            digits.len() >= 1,
            all_hex_digits(digits.take(i - start)),
            v == hex_val(digits.take(i - start)),
            v <= 255,
        decreases hi - i,
    {
        let c = s.get_char(i);
        let d = match hex_digit_of(c) {
            Some(d) => d,
            None => {
                proof {
                    assert(digits[i - start] == c);
                }
                return None;
            },
        };
        proof {
            assert(digits.take(i - start + 1).drop_last() =~= digits.take(i - start));
            assert(digits.take(i - start + 1).last() == c);
        }
        v = v * 16 + d as u32;
        i = i + 1;
        if v > 255 {
            proof {
                assert(digits.take(digits.len() as int) =~= digits);
                if all_hex_digits(digits) {
                    lemma_hex_val_prefix(digits, i - start);
                }
            }
            return None;
        }
    }
    proof {
        assert(digits.take(i - start) =~= digits);
    }
    Some(v as u8)
}

} // verus!
