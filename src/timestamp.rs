//! Session dates as the timing service writes them: RFC 3339 text, the
//! zone designator possibly left out for UTC.
use vstd::prelude::*;

use crate::query_preparer::UtcTimestamp;

verus! {

/// Why a date could not be written.
#[derive(Clone, Copy, Debug, PartialEq, Eq, Structural)]
pub enum TimestampError {
    /// The instant in milliseconds does not fit in an `i64`.
    Components,
    /// chrono cannot represent the instant.
    Range,
}

/// The instant that chrono reads from the RFC 3339 text `s`, if it reads one.
pub uninterp spec fn rfc3339_instant(s: Seq<char>) -> Option<UtcTimestamp>;

/// The RFC 3339 text that chrono writes for the UTC instant `millis`
/// milliseconds after the epoch, if it can represent it.
pub uninterp spec fn rfc3339_of_millis(millis: i64) -> Option<Seq<char>>;

/// Relies on chrono's `DateTime::parse_from_rfc3339`, read back as whole
/// seconds and nanoseconds since the epoch (`timestamp`,
/// `timestamp_subsec_nanos`).
#[verifier::external_body]
fn parse_rfc3339(s: &str) -> (r: Option<UtcTimestamp>)
    ensures
        r == rfc3339_instant(s@),
{
    match chrono::DateTime::parse_from_rfc3339(s) {
        Ok(dt) => Some(UtcTimestamp { seconds: dt.timestamp(), nanos: dt.timestamp_subsec_nanos() }),
        Err(_) => None,
    }
}

/// Relies on chrono's `DateTime::<Utc>::from_timestamp_millis`, which gives
/// `None` on an out-of-range number of milliseconds, and `to_rfc3339`.
#[verifier::external_body]
fn format_rfc3339(millis: i64) -> (r: Option<String>)
    ensures
        r matches Some(s) ==> rfc3339_of_millis(millis) == Some(s@),
        r is None ==> rfc3339_of_millis(millis) is None,
{
    match chrono::DateTime::<chrono::Utc>::from_timestamp_millis(millis) {
        Some(dt) => Some(dt.to_rfc3339()),
        None => None,
    }
}

/// `s` with the UTC designator `Z` appended unless it ends with one.
pub open spec fn with_zone(s: Seq<char>) -> Seq<char> {
    if s.len() > 0 && s.last() == 'Z' {
        s
    } else {
        s + "Z"@
    }
}

/// Reads a date, taking one without a trailing `Z` to be in UTC.
pub fn deserialize(s: &str) -> (r: Option<UtcTimestamp>)
    ensures
        r == rfc3339_instant(with_zone(s@)),
{
    let n = s.unicode_len();
    if n > 0 && s.get_char(n - 1) == 'Z' {
        parse_rfc3339(s)
    } else {
        let mut fixed = s.to_owned();
        fixed.append("Z");
        assert(fixed@ == with_zone(s@));
        parse_rfc3339(fixed.as_str())
    }
}

/// The instant in whole milliseconds, when that fits in an `i64`.
pub open spec fn millis_of(t: UtcTimestamp) -> Option<i64> {
    let m = t.seconds * 1000 + t.nanos / 1_000_000;
    if i64::MIN <= t.seconds * 1000 <= i64::MAX && i64::MIN <= m <= i64::MAX {
        Some(m as i64)
    } else {
        None
    }
}

/// Writes a date as RFC 3339 text, to the millisecond.
pub fn serialize(ts: &Option<UtcTimestamp>) -> (r: Result<String, TimestampError>)
    requires
        ts is Some,
    ensures
        millis_of(ts.unwrap()) is None ==> r == Err::<String, TimestampError>(
            TimestampError::Components,
        ),
        millis_of(ts.unwrap()) matches Some(m) ==> match rfc3339_of_millis(m) {
            Some(text) => r matches Ok(s) && s@ == text,
            None => r == Err::<String, TimestampError>(TimestampError::Range),
        },
{
    let t = ts.unwrap();
    let millis = match t.seconds.checked_mul(1000) {
        Some(s) => match s.checked_add((t.nanos / 1_000_000) as i64) {
            Some(m) => m,
            None => return Err(TimestampError::Components),
        },
        None => return Err(TimestampError::Components),
    };
    match format_rfc3339(millis) {
        Some(text) => Ok(text),
        None => Err(TimestampError::Range),
    }
}

} // verus!
