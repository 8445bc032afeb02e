//! Unsigned numbers in text, as the standard library reads them: an optional
//! `+` followed by one or more digits.

use std::num::ParseIntError;
use vstd::prelude::*;

verus! {

/// The error of the standard library's integer parsers.
#[verifier::external_type_specification]
#[verifier::external_body]
pub struct ExParseIntError(ParseIntError);

/// The value of `c` as a digit in `radix`, where it is one: `0-9` count from
/// zero, `a-z` and `A-Z` from ten.
pub open spec fn digit_value(c: char, radix: int) -> Option<int> {
    let u = c as u32 as int;
    let v = if 0x30 <= u <= 0x39 {
        u - 0x30
    } else if 0x61 <= u <= 0x7A {
        u - 0x61 + 10
    } else if 0x41 <= u <= 0x5A {
        u - 0x41 + 10
    } else {
        radix
    };
    if v < radix {
        Some(v)
    } else {
        None
    }
}

/// The number that the digits of `s` write in `radix`, most significant
/// first; `None` where a character is no digit.
pub open spec fn digits_value(s: Seq<char>, radix: int) -> Option<int>
    decreases s.len(),
{
    if s.len() == 0 {
        Some(0)
    } else {
        match (digits_value(s.drop_last(), radix), digit_value(s.last(), radix)) {
            (Some(v), Some(d)) => Some(v * radix + d),
            _ => None,
        }
    }
}

/// The number that `s` writes: an optional `+`, then at least one digit.
pub open spec fn unsigned_value(s: Seq<char>, radix: int) -> Option<int> {
    let digits = if s.len() > 0 && s[0] == '+' {
        s.skip(1)
    } else {
        s
    };
    if digits.len() == 0 {
        None
    } else {
        digits_value(digits, radix)
    }
}

/// The 32-bit number that `s` writes in base 16.
pub open spec fn hex_u32(s: Seq<char>) -> Option<u32> {
    match unsigned_value(s, 16) {
        Some(v) if v <= u32::MAX => Some(v as u32),
        _ => None,
    }
}

/// The index that `s` writes in base 10.
pub open spec fn decimal_usize(s: Seq<char>) -> Option<usize> {
    match unsigned_value(s, 10) {
        Some(v) if v <= usize::MAX => Some(v as usize),
        _ => None,
    }
}

/// A number is at least the number that any of its prefixes writes.
pub proof fn lemma_digits_value_grows(s: Seq<char>, radix: int, k: int)
    requires
        radix >= 1,
        0 <= k <= s.len(),
        digits_value(s, radix) is Some,
    ensures
        digits_value(s.take(k), radix) is Some,
        0 <= digits_value(s.take(k), radix)->0 <= digits_value(s, radix)->0,
    decreases s.len(),
{
    if k == s.len() {
        assert(s.take(k) =~= s);
        if s.len() > 0 {
            lemma_digits_value_grows(s.drop_last(), radix, k - 1);
            assert(s.drop_last().take(k - 1) =~= s.drop_last());
            let v = digits_value(s.drop_last(), radix)->0;
            assert(v * radix >= 0) by (nonlinear_arith)
                requires
                    v >= 0,
                    radix >= 1,
            ;
        }
    } else {
        lemma_digits_value_grows(s.drop_last(), radix, k);
        assert(s.drop_last().take(k) =~= s.take(k));
        let v = digits_value(s.drop_last(), radix)->0;
        assert(v * radix >= v) by (nonlinear_arith)
            requires
                v >= 0,
                radix >= 1,
        ;
    }
}

/// The error with which the standard library refuses `text` as a number in
/// base 16. The same text is refused with the same error.
pub uninterp spec fn hex_error(text: Seq<char>) -> ParseIntError;

/// `u32::from_str_radix` with radix 16: the number that the text writes in
/// base 16 where it writes one that fits 32 bits, and otherwise the error of
/// the standard library for that text.
#[verifier::external_body]
pub(crate) fn parse_hex_u32(text: &str) -> (r: Result<u32, ParseIntError>)
    ensures
        r matches Ok(v) ==> hex_u32(text@) == Some(v),
        r matches Err(e) ==> hex_u32(text@) is None && e == hex_error(text@),
{
    u32::from_str_radix(text, 16)
}

/// Reads one decimal digit.
fn decimal_digit(c: char) -> (r: Option<usize>)
    ensures
        match r {
            Some(d) => digit_value(c, 10) == Some(d as int),
            None => digit_value(c, 10) is None,
        },
{
    let u: u32 = c as u32;
    if 0x30 <= u && u <= 0x39 {
        Some((u - 0x30) as usize)
    } else {
        None
    }
}

/// Parses an index written in base 10.
pub fn parse_usize(text: &[char]) -> (r: Option<usize>)
    ensures
        r == decimal_usize(text@),
{
    let start: usize = if text.len() > 0 && text[0] == '+' {
        1
    } else {
        0
    };
    if start >= text.len() {
        return None;
    }
    let ghost digits = text@.skip(start as int);
    assert(text@.skip(0) =~= text@);
    let mut acc: usize = 0;
    let mut i: usize = start;
    while i < text.len()
        invariant
            start <= i <= text@.len(),
            digits == text@.skip(start as int),
            unsigned_value(text@, 10) == digits_value(digits, 10),
            digits_value(digits.take(i - start), 10) == Some(acc as int),
        decreases text@.len() - i,
    {
        let ghost next = digits.take(i - start + 1);
        proof {
            assert(next.drop_last() =~= digits.take(i - start));
            assert(next.last() == text@[i as int]);
            if digits_value(digits, 10) is Some {
                lemma_digits_value_grows(digits, 10, i - start + 1);
            }
        }
        let d = match decimal_digit(text[i]) {
            Some(d) => d,
            None => {
                return None;
            },
        };
        let shifted = match acc.checked_mul(10) {
            Some(v) => v,
            None => {
                return None;
            },
        };
        acc = match shifted.checked_add(d) {
            Some(v) => v,
            None => {
                return None;
            },
        };
        i = i + 1;
    }
    assert(digits.take(i - start) =~= digits);
    Some(acc)
}

} // verus!
