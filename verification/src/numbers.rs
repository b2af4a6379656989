//! Decimal integers read from text (`str::parse`).

use vstd::prelude::*;

verus! {

/// Whether `c` is a decimal digit.
pub open spec fn is_digit(c: char) -> bool {
    '0' <= c <= '9'
}

/// The value of a string of decimal digits.
pub open spec fn digits_value(s: Seq<char>) -> int
    decreases s.len(),
{
    if s.len() == 0 {
        0
    } else {
        digits_value(s.drop_last()) * 10 + ((s.last() as u32) - 48)
    }
}

/// Whether `s` is a non-empty string of decimal digits.
pub open spec fn all_digits(s: Seq<char>) -> bool {
    s.len() > 0 && forall|i: int| 0 <= i < s.len() ==> is_digit(s[i])
}

/// The value of text read as an unsigned integer: an optional `+` followed by at least
/// one digit and nothing else.
pub open spec fn unsigned_value(s: Seq<char>) -> Option<int> {
    if s.len() > 0 && s[0] == '+' {
        if all_digits(s.drop_first()) {
            Some(digits_value(s.drop_first()))
        } else {
            None
        }
    } else if all_digits(s) {
        Some(digits_value(s))
    } else {
        None
    }
}

/// The value of text read as a signed integer: an optional `+` or `-` followed by at
/// least one digit and nothing else.
pub open spec fn signed_value(s: Seq<char>) -> Option<int> {
    if s.len() > 0 && s[0] == '-' {
        if all_digits(s.drop_first()) {
            Some(-digits_value(s.drop_first()))
        } else {
            None
        }
    } else {
        unsigned_value(s)
    }
}

/// The value of `s` read as a `usize`, when it is one.
pub open spec fn usize_of(s: Seq<char>) -> Option<int> {
    match unsigned_value(s) {
        Some(v) => if v <= usize::MAX { Some(v) } else { None },
        None => None,
    }
}

/// The value of `s` read as a `u16`, when it is one.
pub open spec fn u16_of(s: Seq<char>) -> Option<int> {
    match unsigned_value(s) {
        Some(v) => if v <= u16::MAX { Some(v) } else { None },
        None => None,
    }
}

/// The value of `s` read as a `u64`, when it is one.
pub open spec fn u64_of(s: Seq<char>) -> Option<int> {
    match unsigned_value(s) {
        Some(v) => if v <= u64::MAX { Some(v) } else { None },
        None => None,
    }
}

/// The value of `s` read as an `i32`, when it is one.
pub open spec fn i32_of(s: Seq<char>) -> Option<int> {
    match signed_value(s) {
        Some(v) => if i32::MIN <= v <= i32::MAX { Some(v) } else { None },
        None => None,
    }
}

/// The value of `s` read as an `i64`, when it is one.
pub open spec fn i64_of(s: Seq<char>) -> Option<int> {
    match signed_value(s) {
        Some(v) => if i64::MIN <= v <= i64::MAX { Some(v) } else { None },
        None => None,
    }
}

/// What `ParseIntError` displays when `str::parse::<usize>` refuses `s`.
pub uninterp spec fn usize_parse_error_text(s: Seq<char>) -> Seq<char>;

/// What `ParseIntError` displays when `str::parse::<u16>` refuses `s`.
pub uninterp spec fn u16_parse_error_text(s: Seq<char>) -> Seq<char>;

/// What `ParseIntError` displays when `str::parse::<u64>` refuses `s`.
pub uninterp spec fn u64_parse_error_text(s: Seq<char>) -> Seq<char>;

/// What `ParseIntError` displays when `str::parse::<i32>` refuses `s`.
pub uninterp spec fn i32_parse_error_text(s: Seq<char>) -> Seq<char>;

/// What `ParseIntError` displays when `str::parse::<i64>` refuses `s`.
pub uninterp spec fn i64_parse_error_text(s: Seq<char>) -> Seq<char>;

/// `str::parse::<usize>`: the value when the text is an optional `+` and digits whose
/// value fits, otherwise the displayed error, which the contract names.
#[verifier::external_body]
pub(crate) fn parse_usize(s: &str) -> (r: Result<usize, String>)
    ensures
        match r {
            Ok(n) => usize_of(s@) == Some(n as int),
            Err(m) => usize_of(s@) is None && m@ == usize_parse_error_text(s@),
        },
{
    s.parse::<usize>().map_err(|e| e.to_string())
}

/// `str::parse::<u16>`: the value when the text is an optional `+` and digits whose
/// value fits, otherwise the displayed error, which the contract names.
#[verifier::external_body]
pub(crate) fn parse_u16(s: &str) -> (r: Result<u16, String>)
    ensures
        match r {
            Ok(n) => u16_of(s@) == Some(n as int),
            Err(m) => u16_of(s@) is None && m@ == u16_parse_error_text(s@),
        },
{
    s.parse::<u16>().map_err(|e| e.to_string())
}

/// `str::parse::<u64>`: the value when the text is an optional `+` and digits whose
/// value fits, otherwise the displayed error, which the contract names.
#[verifier::external_body]
pub(crate) fn parse_u64(s: &str) -> (r: Result<u64, String>)
    ensures
        match r {
            Ok(n) => u64_of(s@) == Some(n as int),
            Err(m) => u64_of(s@) is None && m@ == u64_parse_error_text(s@),
        },
{
    s.parse::<u64>().map_err(|e| e.to_string())
}

/// `str::parse::<i32>`: the value when the text is an optional sign and digits whose
/// value fits, otherwise the displayed error, which the contract names.
#[verifier::external_body]
pub(crate) fn parse_i32(s: &str) -> (r: Result<i32, String>)
    ensures
        match r {
            Ok(n) => i32_of(s@) == Some(n as int),
            Err(m) => i32_of(s@) is None && m@ == i32_parse_error_text(s@),
        },
{
    s.parse::<i32>().map_err(|e| e.to_string())
}

/// `str::parse::<i64>`: the value when the text is an optional sign and digits whose
/// value fits, otherwise the displayed error, which the contract names.
#[verifier::external_body]
pub(crate) fn parse_i64(s: &str) -> (r: Result<i64, String>)
    ensures
        match r {
            Ok(n) => i64_of(s@) == Some(n as int),
            Err(m) => i64_of(s@) is None && m@ == i64_parse_error_text(s@),
        },
{
    s.parse::<i64>().map_err(|e| e.to_string())
}

} // verus!
