//! Decimal tokens of a trace and of the command line.
use vstd::prelude::*;

verus! {

/// A decimal digit.
pub open spec fn is_digit(c: char) -> bool {
    '0' <= c && c <= '9'
}

/// The value of a string of decimal digits, most significant first.
pub open spec fn digits_value(s: Seq<char>) -> nat
    decreases s.len(),
{
    if s.len() == 0 {
        0
    } else {
        digits_value(s.drop_last()) * 10 + ((s.last() as u32 - '0' as u32) as nat)
    }
}

/// The digits of a token: the token without one leading `+`.
pub open spec fn unsigned_digits(s: Seq<char>) -> Seq<char> {
    if s.len() > 0 && s[0] == '+' {
        s.drop_first()
    } else {
        s
    }
}

/// The value that a token spells as an unsigned decimal number: an optional
/// `+` followed by one or more digits, nothing else.
pub open spec fn decimal_of(s: Seq<char>) -> Option<nat> {
    let d = unsigned_digits(s);
    if d.len() > 0 && (forall|i: int| 0 <= i < d.len() ==> is_digit(#[trigger] d[i])) {
        Some(digits_value(d))
    } else {
        None
    }
}

/// What `str::parse::<u64>` gives for a token: its decimal value where that
/// fits in 64 bits.
pub open spec fn u64_of(s: Seq<char>) -> Option<u64> {
    match decimal_of(s) {
        Some(v) => if v <= u64::MAX {
            Some(v as u64)
        } else {
            None
        },
        None => None,
    }
}

/// What `str::parse::<usize>` gives for a token.
pub open spec fn usize_of(s: Seq<char>) -> Option<usize> {
    match decimal_of(s) {
        Some(v) => if v <= usize::MAX {
            Some(v as usize)
        } else {
            None
        },
        None => None,
    }
}

/// Relies on `<u64 as FromStr>::from_str`, documented to accept an optional
/// `+` followed by decimal digits only, and to fail on anything else and on
/// a value past `u64::MAX`.
#[verifier::external_body]
pub(crate) fn parse_u64(s: &str) -> (r: Option<u64>)
    ensures
        r == u64_of(s@),
{
    s.parse::<u64>().ok()
}

/// Relies on `<usize as FromStr>::from_str`, documented as for `u64`, with
/// `usize::MAX` as the bound.
#[verifier::external_body]
pub(crate) fn parse_usize(s: &str) -> (r: Option<usize>)
    ensures
        r == usize_of(s@),
{
    s.parse::<usize>().ok()
}

} // verus!
