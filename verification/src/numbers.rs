//! Decimal text of integers: formatting, and parsing through std.

use vstd::prelude::*;
use crate::text::is_digit;

verus! {

/// The character of a decimal digit `d` (`0 <= d < 10`).
pub open spec fn digit_char(d: int) -> char {
    ((48 + d) as u8) as char
}

/// The value of an ASCII digit character.
pub open spec fn digit_value(c: char) -> int {
    (c as u32) - 48
}

/// The decimal representation of `n`, without sign or leading zeros.
pub open spec fn decimal(n: nat) -> Seq<char>
    decreases n,
{
    if n < 10 {
        seq![digit_char(n as int)]
    } else {
        decimal(n / 10).push(digit_char((n % 10) as int))
    }
}

/// The value of a sequence of ASCII digits.
pub open spec fn digits_value(s: Seq<char>) -> int
    decreases s.len(),
{
    if s.len() == 0 {
        0
    } else {
        digits_value(s.drop_last()) * 10 + digit_value(s.last())
    }
}

/// Every character of `s` is an ASCII digit.
pub open spec fn all_digits(s: Seq<char>) -> bool {
    forall|i: int| 0 <= i < s.len() ==> is_digit(#[trigger] s[i])
}

/// The value of an unsigned decimal integer text: an optional `+`, then
/// one or more ASCII digits.
pub open spec fn unsigned_value(s: Seq<char>) -> Option<int> {
    let t = if s.len() > 0 && s[0] == '+' {
        s.drop_first()
    } else {
        s
    };
    if t.len() > 0 && all_digits(t) {
        Some(digits_value(t))
    } else {
        None
    }
}

/// The decimal text of `n`.
pub fn decimal_of(n: u64) -> (r: Vec<char>)
    ensures
        r@ == decimal(n as nat),
    decreases n,
{
    if n < 10 {
        let mut r: Vec<char> = Vec::new();
        r.push(((n as u8) + 48) as char);
        assert(r@ =~= seq![digit_char(n as int)]);
        r
    } else {
        let mut r = decimal_of(n / 10);
        r.push((((n % 10) as u8) + 48) as char);
        r
    }
}

/// The error text that `str::parse::<u8>` gives for `s`.
pub uninterp spec fn u8_error(s: Seq<char>) -> Seq<char>;

/// The error text that `str::parse::<u16>` gives for `s`.
pub uninterp spec fn u16_error(s: Seq<char>) -> Seq<char>;

/// The error text that `str::parse::<u32>` gives for `s`.
pub uninterp spec fn u32_error(s: Seq<char>) -> Seq<char>;

/// The error text that `str::parse::<u64>` gives for `s`.
pub uninterp spec fn u64_error(s: Seq<char>) -> Seq<char>;

/// `str::parse::<u8>` with the error turned into its text. std documents the
/// accepted form: an optional `+` and then only digits, with a value that fits.
#[verifier::external_body]
pub(crate) fn parse_u8(s: &str) -> (r: Result<u8, String>)
    ensures
        match r {
            Ok(v) => unsigned_value(s@) == Some(v as int),
            Err(e) => !(unsigned_value(s@) matches Some(v) && v <= u8::MAX) && e@ == u8_error(s@),
        },
{
    match s.parse::<u8>() {
        Ok(v) => Ok(v),
        Err(e) => Err(e.to_string()),
    }
}

/// `str::parse::<u16>` with the error turned into its text (accepted form as for `parse_u8`).
#[verifier::external_body]
pub(crate) fn parse_u16(s: &str) -> (r: Result<u16, String>)
    ensures
        match r {
            Ok(v) => unsigned_value(s@) == Some(v as int),
            Err(e) => !(unsigned_value(s@) matches Some(v) && v <= u16::MAX) && e@ == u16_error(
                s@,
            ),
        },
{
    match s.parse::<u16>() {
        Ok(v) => Ok(v),
        Err(e) => Err(e.to_string()),
    }
}

/// `str::parse::<u32>` with the error turned into its text (accepted form as for `parse_u8`).
#[verifier::external_body]
pub(crate) fn parse_u32(s: &str) -> (r: Result<u32, String>)
    ensures
        match r {
            Ok(v) => unsigned_value(s@) == Some(v as int),
            Err(e) => !(unsigned_value(s@) matches Some(v) && v <= u32::MAX) && e@ == u32_error(
                s@,
            ),
        },
{
    match s.parse::<u32>() {
        Ok(v) => Ok(v),
        Err(e) => Err(e.to_string()),
    }
}

/// `str::parse::<u64>` with the error turned into its text (accepted form as for `parse_u8`).
#[verifier::external_body]
pub(crate) fn parse_u64(s: &str) -> (r: Result<u64, String>)
    ensures
        match r {
            Ok(v) => unsigned_value(s@) == Some(v as int),
            Err(e) => !(unsigned_value(s@) matches Some(v) && v <= u64::MAX) && e@ == u64_error(
                s@,
            ),
        },
{
    match s.parse::<u64>() {
        Ok(v) => Ok(v),
        Err(e) => Err(e.to_string()),
    }
}

} // verus!
