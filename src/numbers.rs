//! Release and epoch numbers given as decimal text.

use vstd::prelude::*;
use crate::error::{ErrorModel, SpecError};

verus! {

pub open spec fn is_digit(c: char) -> bool {
    '0' <= c && c <= '9'
}

/// One or more ASCII digits.
pub open spec fn all_digits(s: Seq<char>) -> bool {
    s.len() > 0 && forall|j: int| 0 <= j < s.len() ==> is_digit(s[j])
}

/// The value of a run of decimal digits.
pub open spec fn digits_value(s: Seq<char>) -> int
    decreases s.len(),
{
    if s.len() == 0 {
        0
    } else {
        10 * digits_value(s.drop_last()) + ((s.last() as u32) as int - ('0' as u32) as int)
    }
}

/// Digits with an optional leading `+`.
pub open spec fn unsigned_decimal(s: Seq<char>) -> Option<int> {
    if s.len() > 0 && s[0] == '+' {
        if all_digits(s.skip(1)) {
            Some(digits_value(s.skip(1)))
        } else {
            None
        }
    } else if all_digits(s) {
        Some(digits_value(s))
    } else {
        None
    }
}

/// Digits with an optional leading `+` or `-`.
pub open spec fn signed_decimal(s: Seq<char>) -> Option<int> {
    if s.len() > 0 && s[0] == '-' {
        if all_digits(s.skip(1)) {
            Some(-digits_value(s.skip(1)))
        } else {
            None
        }
    } else {
        unsigned_decimal(s)
    }
}

/// The `u16` a text denotes, if it denotes one in range.
pub open spec fn u16_of(s: Seq<char>) -> Option<u16> {
    match unsigned_decimal(s) {
        Some(v) => if v <= u16::MAX {
            Some(v as u16)
        } else {
            None
        },
        None => None,
    }
}

/// The `i32` a text denotes, if it denotes one in range.
pub open spec fn i32_of(s: Seq<char>) -> Option<i32> {
    match signed_decimal(s) {
        Some(v) => if i32::MIN <= v <= i32::MAX {
            Some(v as i32)
        } else {
            None
        },
        None => None,
    }
}

/// Relies on `u16::from_str` (`str::parse`): an optional `+` then ASCII digits only, no white
/// space, and a value that fits; anything else is an error.
#[verifier::external_body]
fn parse_u16(s: &str) -> (r: Option<u16>)
    ensures
        r == u16_of(s@),
{
    s.parse::<u16>().ok()
}

/// Relies on `i32::from_str` (`str::parse`): an optional `+` or `-` then ASCII digits only, no
/// white space, and a value that fits; anything else is an error.
#[verifier::external_body]
fn parse_i32(s: &str) -> (r: Option<i32>)
    ensures
        r == i32_of(s@),
{
    s.parse::<i32>().ok()
}

pub open spec fn release_result(s: Seq<char>) -> Result<u16, ErrorModel> {
    match u16_of(s) {
        Some(v) => Ok(v),
        None => Err(ErrorModel::InvalidRelease { raw: s }),
    }
}

pub open spec fn epoch_result(s: Seq<char>) -> Result<i32, ErrorModel> {
    match i32_of(s) {
        Some(v) => Ok(v),
        None => Err(ErrorModel::InvalidEpoch { raw: s }),
    }
}

/// Reads a release number: a decimal that fits in 16 bits.
pub fn parse_release(raw: &str) -> (r: Result<u16, SpecError>)
    ensures
        match r {
            Ok(v) => release_result(raw@) == Ok::<u16, ErrorModel>(v),
            Err(e) => release_result(raw@) == Err::<u16, _>(e@),
        },
{
    match parse_u16(raw) {
        Some(v) => Ok(v),
        None => Err(SpecError::InvalidRelease { raw: raw.to_owned() }),
    }
}

/// Reads an epoch: a signed decimal that fits in 32 bits.
pub fn parse_epoch(raw: &str) -> (r: Result<i32, SpecError>)
    ensures
        match r {
            Ok(v) => epoch_result(raw@) == Ok::<i32, ErrorModel>(v),
            Err(e) => epoch_result(raw@) == Err::<i32, _>(e@),
        },
{
    match parse_i32(raw) {
        Some(v) => Ok(v),
        None => Err(SpecError::InvalidEpoch { raw: raw.to_owned() }),
    }
}

} // verus!
