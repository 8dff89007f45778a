//! The season index as the timing service publishes it, and its conversion
//! into an insert request with every date in UTC.
use vstd::prelude::*;

use crate::insert_meetings::{InsertMeetingsRequest, MeetingRecord, SessionRecord};
use crate::query_preparer::UtcTimestamp;

verus! {

/// A session as published: local start and end, and the local offset from
/// UTC in seconds.
#[derive(Clone, Debug)]
pub struct Session {
    pub key: i32,
    pub kind: String,
    pub name: String,
    pub start_date: Option<UtcTimestamp>,
    pub end_date: Option<UtcTimestamp>,
    pub gmt_offset: i64,
    pub path: String,
}

/// A meeting as published.
#[derive(Clone, Debug)]
pub struct Meeting {
    pub key: i32,
    pub number: i32,
    pub location: String,
    pub official_name: String,
    pub name: String,
    pub sessions: Vec<Session>,
}

/// The meetings of a season as published.
#[derive(Clone, Debug)]
pub struct Meetings {
    pub year: i32,
    pub meetings: Vec<Meeting>,
}

/// A local date moved back by `offset` seconds, into UTC; none when absent
/// or when the result leaves the range of `i64`.
pub open spec fn to_utc(d: Option<UtcTimestamp>, offset: i64) -> Option<UtcTimestamp> {
    match d {
        Some(t) => if i64::MIN <= t.seconds - offset <= i64::MAX {
            Some(UtcTimestamp { seconds: (t.seconds - offset) as i64, nanos: t.nanos })
        } else {
            None
        },
        None => None,
    }
}

/// The session to store for a published session.
pub open spec fn session_record(s: Session) -> SessionRecord {
    SessionRecord {
        key: s.key,
        kind: s.kind,
        name: s.name,
        start_date: to_utc(s.start_date, s.gmt_offset),
        end_date: to_utc(s.end_date, s.gmt_offset),
        path: s.path,
    }
}

fn shift(d: Option<UtcTimestamp>, offset: i64) -> (r: Option<UtcTimestamp>)
    ensures
        r == to_utc(d, offset),
{
    match d {
        Some(t) => match t.seconds.checked_sub(offset) {
            Some(seconds) => Some(UtcTimestamp { seconds, nanos: t.nanos }),
            None => None,
        },
        None => None,
    }
}

impl From<Session> for SessionRecord {
    fn from(s: Session) -> (r: SessionRecord) {
        let start_date = shift(s.start_date, s.gmt_offset);
        let end_date = shift(s.end_date, s.gmt_offset);
        SessionRecord { key: s.key, kind: s.kind, name: s.name, start_date, end_date, path: s.path }
    }
}

impl vstd::std_specs::convert::FromSpecImpl<Session> for SessionRecord {
    open spec fn obeys_from_spec() -> bool {
        true
    }

    open spec fn from_spec(s: Session) -> SessionRecord {
        session_record(s)
    }
}

/// The meeting to store for a published meeting, but for its sessions.
pub open spec fn same_meeting(r: MeetingRecord, m: Meeting) -> bool {
    &&& r.key == m.key
    &&& r.number == m.number
    &&& r.location == m.location
    &&& r.official_name == m.official_name
    &&& r.name == m.name
    &&& r.sessions@ == m.sessions@.map_values(|s: Session| session_record(s))
}

fn to_record(m: Meeting) -> (r: MeetingRecord)
    ensures
        same_meeting(r, m),
{
    let ghost published = m.sessions@;
    let mut rest = m.sessions;
    let total = rest.len();
    let mut sessions: Vec<SessionRecord> = Vec::new();
    let mut k: usize = 0;
    while rest.len() > 0
        invariant
            published.len() == total,
            k <= published.len(),
            rest@ == published.skip(k as int),
            sessions@ == published.take(k as int).map_values(|s: Session| session_record(s)),
        decreases rest@.len(),
    {
        let s = rest.remove(0);
        assert(s == published[k as int]);
        assert(rest@ =~= published.skip(k + 1));
        sessions.push(SessionRecord::from(s));
        assert(sessions@ =~= published.take(k + 1).map_values(|s: Session| session_record(s)));
        k = k + 1;
    }
    assert(published.take(k as int) =~= published);
    MeetingRecord {
        key: m.key,
        number: m.number,
        location: m.location,
        official_name: m.official_name,
        name: m.name,
        sessions,
    }
}

/// The insert request for a published season: the same meetings in the same
/// order, each session's dates moved into UTC by its offset.
pub fn to_insert_request(season: Meetings) -> (r: InsertMeetingsRequest)
    ensures
        r.year == season.year,
        r.meetings@.len() == season.meetings@.len(),
        forall|i: int|
            0 <= i < r.meetings@.len() ==> same_meeting(
                #[trigger] r.meetings@[i],
                season.meetings@[i],
            ),
{
    let ghost published = season.meetings@;
    let mut rest = season.meetings;
    let total = rest.len();
    let mut meetings: Vec<MeetingRecord> = Vec::new();
    let mut k: usize = 0;
    while rest.len() > 0
        invariant
            published.len() == total,
            k <= published.len(),
            rest@ == published.skip(k as int),
            meetings@.len() == k,
            forall|i: int| 0 <= i < k ==> same_meeting(#[trigger] meetings@[i], published[i]),
        decreases rest@.len(),
    {
        let m = rest.remove(0);
        assert(m == published[k as int]);
        assert(rest@ =~= published.skip(k + 1));
        meetings.push(to_record(m));
        k = k + 1;
    }
    InsertMeetingsRequest { year: season.year, meetings }
}

} // verus!
