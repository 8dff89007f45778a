//! Defaults taken from the clock.
use vstd::prelude::*;

use chrono::Datelike;

use crate::gmt_offset::{parse_i64, parse_int, OffsetError};
use crate::text::{split, split_on};

verus! {

/// A shutdown signal came before the connection was made.
#[derive(Clone, Copy, Debug, PartialEq, Eq, Structural)]
pub struct ShutdownSignalError;

impl ShutdownSignalError {
    /// A description of the error.
    pub fn message(&self) -> &'static str {
        "Shutdown signal received, aborting connection to gRPC service..."
    }
}

/// Relies on chrono's `Utc::now` and `Datelike::year`: the current year in
/// UTC, as the system clock gives it.
#[verifier::external_body]
fn current_year() -> (r: i32) {
    chrono::Utc::now().year()
}

/// The year asked for, or the current year when none is.
pub fn get_year(year: Option<i32>) -> (r: i32)
    ensures
        year matches Some(y) ==> r == y,
{
    match year {
        Some(y) => y,
        None => current_year(),
    }
}

/// chrono's offset from UTC, carried without looking inside.
#[verifier::external_type_specification]
#[verifier::external_body]
pub struct ExFixedOffset(chrono::FixedOffset);

/// chrono's `FixedOffset::east_opt` gives an offset exactly for
/// `-86_400 < secs < 86_400`.
pub assume_specification[ chrono::FixedOffset::east_opt ](secs: i32) -> (r: Option<
    chrono::FixedOffset,
>)
    ensures
        r is Some <==> -86_400 < secs < 86_400,
;

/// `s` without its leading `+` and `-` characters.
pub open spec fn trim_signs(s: Seq<char>) -> Seq<char>
    decreases s.len(),
{
    if s.len() > 0 && (s[0] == '-' || s[0] == '+') {
        trim_signs(s.drop_first())
    } else {
        s
    }
}

/// An integer as `i32`'s `FromStr` reads it.
pub open spec fn parse_int32(s: Seq<char>) -> Option<int> {
    match parse_int(s) {
        Some(v) => if i32::MIN <= v <= i32::MAX {
            Some(v)
        } else {
            None
        },
        None => None,
    }
}

/// What reading `s` as a fixed offset east of UTC gives: a leading `-`
/// negates, leading signs are dropped, the rest is `hours:minutes:seconds`,
/// and the offset is less than a day either way.
pub open spec fn read_fixed_offset(s: Seq<char>) -> Result<int, OffsetError> {
    let sign: int = if s.len() > 0 && s[0] == '-' {
        -1
    } else {
        1
    };
    let parts = split_on(trim_signs(s), ':');
    if parts.len() != 3 {
        Err(OffsetError::Format)
    } else if parse_int32(parts[0]) is None {
        Err(OffsetError::Hours)
    } else if parse_int32(parts[1]) is None {
        Err(OffsetError::Minutes)
    } else if parse_int32(parts[2]) is None {
        Err(OffsetError::Seconds)
    } else {
        let total = sign * (parse_int32(parts[0]).unwrap() * 3600 + parse_int32(parts[1]).unwrap()
            * 60 + parse_int32(parts[2]).unwrap());
        if -86_400 < total < 86_400 {
            Ok(total)
        } else {
            Err(OffsetError::OutOfRange)
        }
    }
}

fn parse_i32(s: &str) -> (r: Option<i32>)
    ensures
        r matches Some(v) ==> parse_int32(s@) == Some(v as int),
        r is None ==> parse_int32(s@) is None,
{
    match parse_i64(s) {
        Some(v) => if i32::MIN as i64 <= v && v <= i32::MAX as i64 {
            Some(v as i32)
        } else {
            None
        },
        None => None,
    }
}

fn trim_leading_signs(s: &str) -> (r: &str)
    ensures
        r@ == trim_signs(s@),
{
    let n = s.unicode_len();
    let mut i: usize = 0;
    assert(s@.subrange(0, n as int) =~= s@);
    while i < n && (s.get_char(i) == '-' || s.get_char(i) == '+')
        invariant
            n == s@.len(),
            i <= n,
            trim_signs(s@) == trim_signs(s@.subrange(i as int, n as int)),
        decreases n - i,
    {
        assert(s@.subrange(i as int, n as int).drop_first() =~= s@.subrange(i + 1, n as int));
        i = i + 1;
    }
    s.substring_char(i, n)
}

/// Reads an offset east of UTC written `[+-]hh:mm:ss` into seconds, as
/// chrono's `FixedOffset` accepts it.
pub fn deserialize_gmt_offset(s: &str) -> (r: Result<i32, OffsetError>)
    ensures
        r matches Ok(v) ==> read_fixed_offset(s@) == Ok::<int, OffsetError>(v as int),
        r matches Err(e) ==> read_fixed_offset(s@) == Err::<int, OffsetError>(e),
{
    let neg = s.unicode_len() > 0 && s.get_char(0) == '-';
    let parts = split(trim_leading_signs(s), ':');
    assert(parts@.map_values(|p: &str| p@) == split_on(trim_signs(s@), ':'));
    if parts.len() != 3 {
        return Err(OffsetError::Format);
    }
    assert(parts@[0]@ == split_on(trim_signs(s@), ':')[0]);
    assert(parts@[1]@ == split_on(trim_signs(s@), ':')[1]);
    assert(parts@[2]@ == split_on(trim_signs(s@), ':')[2]);
    let hours = match parse_i32(parts[0]) {
        Some(v) => v,
        None => return Err(OffsetError::Hours),
    };
    let minutes = match parse_i32(parts[1]) {
        Some(v) => v,
        None => return Err(OffsetError::Minutes),
    };
    let seconds = match parse_i32(parts[2]) {
        Some(v) => v,
        None => return Err(OffsetError::Seconds),
    };
    let magnitude: i64 = (hours as i64) * 3600 + (minutes as i64) * 60 + (seconds as i64);
    let total: i64 = if neg {
        -magnitude
    } else {
        magnitude
    };
    let ghost sign: int = if s@.len() > 0 && s@[0] == '-' {
        -1
    } else {
        1
    };
    assert(total == sign * (hours * 3600 + minutes * 60 + seconds));
    if total < i32::MIN as i64 || total > i32::MAX as i64 {
        return Err(OffsetError::OutOfRange);
    }
    match chrono::FixedOffset::east_opt(total as i32) {
        Some(_) => Ok(total as i32),
        None => Err(OffsetError::OutOfRange),
    }
}

} // verus!
