//! Reading unsigned numbers: an optional `+`, then one or more digits of
//! the radix, and nothing else. The digits are `0` to `9` and then the
//! letters `a` to `z`, in either case, for the values from ten on.

use vstd::prelude::*;
use crate::text::chars_of;

verus! {

/// The value of `c` as a digit, or -1 where it is none.
pub open spec fn digit_value(c: char) -> int {
    let code = c as u32 as int;
    if '0' as u32 <= code <= '9' as u32 {
        code - '0' as u32
    } else if 'a' as u32 <= code <= 'z' as u32 {
        code - 'a' as u32 + 10
    } else if 'A' as u32 <= code <= 'Z' as u32 {
        code - 'A' as u32 + 10
    } else {
        -1
    }
}

/// Whether `c` is a digit of `radix`.
pub open spec fn is_digit(c: char, radix: int) -> bool {
    0 <= digit_value(c) < radix
}

/// Whether every character of `s` is a digit of `radix`.
pub open spec fn all_digits(s: Seq<char>, radix: int) -> bool {
    forall|i: int| 0 <= i < s.len() ==> is_digit(#[trigger] s[i], radix)
}

/// The number that the digits `s` write in `radix`.
pub open spec fn digits_value(s: Seq<char>, radix: int) -> int
    decreases s.len(),
{
    if s.len() == 0 {
        0
    } else {
        digits_value(s.drop_last(), radix) * radix + digit_value(s.last())
    }
}

/// `s` without a leading `+`.
pub open spec fn unsigned_digits(s: Seq<char>) -> Seq<char> {
    if s.len() > 0 && s[0] == '+' {
        s.skip(1)
    } else {
        s
    }
}

/// The number that `s` writes in `radix`, where it writes one that is no
/// greater than `max`.
pub open spec fn parse_spec(s: Seq<char>, radix: int, max: int) -> Option<int> {
    let digits = unsigned_digits(s);
    if digits.len() > 0 && all_digits(digits, radix) && digits_value(digits, radix) <= max {
        Some(digits_value(digits, radix))
    } else {
        None
    }
}

/// A number never shrinks when digits are added on its right.
proof fn lemma_value_grows(s: Seq<char>, radix: int, i: int)
    requires
        2 <= radix <= 36,
        all_digits(s, radix),
        0 <= i <= s.len(),
    ensures
        0 <= digits_value(s.take(i), radix) <= digits_value(s, radix),
    decreases s.len() - i,
{
    lemma_value_not_negative(s.take(i), radix);
    if i < s.len() {
        lemma_value_grows(s, radix, i + 1);
        let t = s.take(i + 1);
        assert(t.drop_last() =~= s.take(i));
        assert(is_digit(s[i], radix));
        assert(t.last() == s[i]);
        let v = digits_value(s.take(i), radix);
        assert(v * radix >= v) by (nonlinear_arith)
            requires
                v >= 0,
                radix >= 2,
        ;
    } else {
        assert(s.take(i) =~= s);
    }
}

proof fn lemma_value_not_negative(s: Seq<char>, radix: int)
    requires
        2 <= radix <= 36,
        all_digits(s, radix),
    ensures
        0 <= digits_value(s, radix),
    decreases s.len(),
{
    if s.len() > 0 {
        lemma_value_not_negative(s.drop_last(), radix);
        assert(is_digit(s.last(), radix));
        let v = digits_value(s.drop_last(), radix);
        assert(v * radix >= 0) by (nonlinear_arith)
            requires
                v >= 0,
                radix >= 2,
        ;
    }
}

/// Reads `s` as a number in `radix`, no greater than `max`.
pub fn parse_unsigned(s: &str, radix: u32, max: u64) -> (r: Option<u64>)
    requires
        2 <= radix <= 36,
    ensures
        match r {
            Some(n) => parse_spec(s@, radix as int, max as int) == Some(n as int),
            None => parse_spec(s@, radix as int, max as int) is None,
        },
{
    let chars = chars_of(s);
    let from: usize = if chars.len() > 0 && chars[0] == '+' { 1 } else { 0 };
    let ghost digits = unsigned_digits(s@);
    assert(digits == chars@.skip(from as int));
    if from == chars.len() {
        return None;
    }
    let mut acc: u64 = 0;
    let mut i: usize = from;
    while i < chars.len()
        invariant
            from <= i <= chars.len(),
            2 <= radix <= 36,
            digits == chars@.skip(from as int),
            digits == unsigned_digits(s@),
            all_digits(digits.take(i - from), radix as int),
            acc == digits_value(digits.take(i - from), radix as int),
            acc <= max,
        decreases chars.len() - i,
    {
        let c: char = chars[i];
        let code: u32 = c as u32;
        let ghost shorter = digits.take(i - from);
        let ghost longer = digits.take(i - from + 1);
        proof {
            assert(digits[i - from] == c);
            assert(longer.drop_last() =~= shorter);
            assert(longer.last() == c);
        }
        let value: u32 = if 48 <= code && code <= 57 {
            code - 48
        } else if 97 <= code && code <= 122 {
            code - 87
        } else if 65 <= code && code <= 90 {
            code - 55
        } else {
            radix
        };
        if value >= radix {
            proof {
                assert(!is_digit(c, radix as int));
                assert(!all_digits(digits, radix as int));
            }
            return None;
        }
        let d: u64 = value as u64;
        assert(d == digit_value(c));
        proof {
            assert(is_digit(c, radix as int));
            assert forall|j: int| 0 <= j < longer.len() implies is_digit(
                #[trigger] longer[j],
                radix as int,
            ) by {
                if j < shorter.len() {
                    assert(longer[j] == shorter[j]);
                }
            }
        }
        let too_large: bool = d > max || acc > (max - d) / (radix as u64);
        if too_large {
            proof {
                assert(acc * radix + d > max) by (nonlinear_arith)
                    requires
                        d > max || acc > (max - d) / (radix as int),
                        radix >= 2,
                        0 <= d,
                        acc >= 0,
                ;
                if all_digits(digits, radix as int) {
                    lemma_value_grows(digits, radix as int, i - from + 1);
                }
            }
            return None;
        }
        proof {
            assert(acc * radix + d <= max) by (nonlinear_arith)
                requires
                    acc <= (max - d) / (radix as int),
                    radix >= 2,
                    0 <= d <= max,
                    acc >= 0,
            ;
        }
        acc = acc * (radix as u64) + d;
        i += 1;
    }
    proof {
        assert(digits.take(i - from) =~= digits);
    }
    Some(acc)
}

/// The number that `s` writes in base eight, where it fits 32 bits.
pub open spec fn parse_octal_spec(s: Seq<char>) -> Option<int> {
    parse_spec(s, 8, u32::MAX as int)
}

/// Reads permission bits written in base eight.
pub fn parse_octal(s: &str) -> (r: Option<u32>)
    ensures
        match r {
            Some(n) => parse_octal_spec(s@) == Some(n as int),
            None => parse_octal_spec(s@) is None,
        },
{
    match parse_unsigned(s, 8, 0xffff_ffff) {
        Some(n) => Some(n as u32),
        None => None,
    }
}

/// The number that `s` writes in base ten, where it fits a `usize`.
pub open spec fn parse_count_spec(s: Seq<char>) -> Option<int> {
    parse_spec(s, 10, usize::MAX as int)
}

/// Reads a count written in base ten.
pub fn parse_count(s: &str) -> (r: Option<usize>)
    ensures
        match r {
            Some(n) => parse_count_spec(s@) == Some(n as int),
            None => parse_count_spec(s@) is None,
        },
{
    match parse_unsigned(s, 10, usize::MAX as u64) {
        Some(n) => Some(n as usize),
        None => None,
    }
}

} // verus!
