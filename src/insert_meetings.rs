//! Storing the meetings of a season: the insert request, and the batched
//! `INSERT` statements it turns into.
use vstd::prelude::*;

use crate::models::{meeting_fields, meeting_table, session_fields, session_table, Meeting, Session};
use crate::query_preparer::insert::{insert_params, insert_sql, InsertQuery, InsertView};
use crate::query_preparer::{SqlType, Statement, UtcTimestamp};
use crate::sql_text::{concat, lemma_concat_take};

verus! {

/// A session to store, with its start and end as UTC instants.
#[derive(Clone, Debug)]
pub struct SessionRecord {
    pub key: i32,
    pub kind: String,
    pub name: String,
    pub start_date: Option<UtcTimestamp>,
    pub end_date: Option<UtcTimestamp>,
    pub path: String,
}

/// A meeting to store, with its sessions.
#[derive(Clone, Debug)]
pub struct MeetingRecord {
    pub key: i32,
    pub number: i32,
    pub location: String,
    pub official_name: String,
    pub name: String,
    pub sessions: Vec<SessionRecord>,
}

/// The meetings of one season to store.
#[derive(Clone, Debug)]
pub struct InsertMeetingsRequest {
    pub year: i32,
    pub meetings: Vec<MeetingRecord>,
}

/// Why a request could not be turned into statements.
#[derive(Clone, Copy, Debug, PartialEq, Eq, Structural)]
pub enum InsertError {
    /// A session misses its start or end, or has one out of range.
    InvalidTimestamp,
}

/// The two statements that store a request: the meetings, and the sessions
/// when there are any.
pub struct InsertPlan {
    pub meetings: Statement,
    pub sessions: Option<Statement>,
}

/// Whether chrono can represent the UTC instant `seconds` after the epoch
/// plus `nanos` nanoseconds.
pub uninterp spec fn utc_representable(seconds: i64, nanos: u32) -> bool;

/// Relies on chrono's `DateTime::<Utc>::from_timestamp`, which gives `None`
/// on an out-of-range number of seconds or an invalid nanosecond part.
#[verifier::external_body]
fn is_representable(t: UtcTimestamp) -> (r: bool)
    ensures
        r == utc_representable(t.seconds, t.nanos),
{
    chrono::DateTime::<chrono::Utc>::from_timestamp(t.seconds, t.nanos).is_some()
}

/// A date is present and chrono can represent it.
pub open spec fn date_ok(d: Option<UtcTimestamp>) -> bool {
    match d {
        Some(t) => utc_representable(t.seconds, t.nanos),
        None => false,
    }
}

/// Every session of every meeting has a usable start and end.
pub open spec fn dates_ok(meetings: Seq<MeetingRecord>) -> bool {
    forall|i: int, j: int|
        0 <= i < meetings.len() && 0 <= j < meetings[i].sessions@.len() ==> {
            let s = #[trigger] meetings[i].sessions@[j];
            date_ok(s.start_date) && date_ok(s.end_date)
        }
}

/// The stored columns of a meeting of `year`, in the order of
/// `meeting_fields()`.
pub open spec fn meeting_row(m: MeetingRecord, year: i32) -> Seq<SqlType> {
    seq![
        SqlType::Int(m.key),
        SqlType::Int(m.number),
        SqlType::Text(m.location),
        SqlType::Text(m.official_name),
        SqlType::Text(m.name),
        SqlType::Int(year),
    ]
}

/// The stored columns of a session of the meeting `meeting_key`, in the
/// order of `session_fields()`.
pub open spec fn session_row(s: SessionRecord, meeting_key: i32) -> Seq<SqlType> {
    seq![
        SqlType::Int(s.key),
        SqlType::Text(s.kind),
        SqlType::Text(s.name),
        SqlType::Timestamp(s.start_date.unwrap()),
        SqlType::Timestamp(s.end_date.unwrap()),
        SqlType::Text(s.path),
        SqlType::Int(meeting_key),
    ]
}

/// The session rows of one meeting, in order.
pub open spec fn meeting_session_rows(m: MeetingRecord) -> Seq<Seq<SqlType>> {
    m.sessions@.map_values(|s: SessionRecord| session_row(s, m.key))
}

/// The session rows of all meetings, meeting after meeting.
pub open spec fn session_rows(meetings: Seq<MeetingRecord>) -> Seq<Seq<SqlType>> {
    concat(meetings.map_values(|m: MeetingRecord| meeting_session_rows(m)))
}

/// The rows of the `meetings` table for a request.
pub open spec fn meeting_rows(r: InsertMeetingsRequest) -> Seq<Seq<SqlType>> {
    r.meetings@.map_values(|m: MeetingRecord| meeting_row(m, r.year))
}

/// The insert of `rows` into `table`.
pub open spec fn insert_of(table: Seq<char>, fields: Seq<Seq<char>>, rows: Seq<Seq<SqlType>>) -> InsertView {
    InsertView { table, fields, rows }
}

/// The statements that store `request`: nothing without meetings, an error
/// when a session date is missing or out of range, else one `INSERT` of
/// the meetings and, when there are sessions, one of the sessions.
pub fn prepare_inserts(request: &InsertMeetingsRequest) -> (r: Result<Option<InsertPlan>, InsertError>)
    ensures
        r is Err <==> request.meetings@.len() > 0 && !dates_ok(request.meetings@),
        r matches Ok(None) ==> request.meetings@.len() == 0,
        r matches Ok(Some(plan)) ==> {
            let m = insert_of(meeting_table(), meeting_fields(), meeting_rows(*request));
            let s = insert_of(session_table(), session_fields(), session_rows(request.meetings@));
            &&& request.meetings@.len() > 0
            &&& plan.meetings@.sql == insert_sql(m)
            &&& plan.meetings@.params == insert_params(m)
            &&& (plan.sessions is None <==> s.rows.len() == 0)
            &&& (plan.sessions matches Some(st) ==> st@.sql == insert_sql(s) && st@.params
                == insert_params(s))
        },
{
    if request.meetings.len() == 0 {
        return Ok(None);
    }
    let mut meetings = InsertQuery::new(Meeting::sql_table(), Meeting::sql_fields());
    let mut sessions = InsertQuery::new(Session::sql_table(), Session::sql_fields());
    let ghost all = request.meetings@;
    let ghost per_meeting = all.map_values(|m: MeetingRecord| meeting_session_rows(m));
    assert(meeting_rows(*request).take(0) =~= Seq::<Seq<SqlType>>::empty());
    assert(per_meeting.take(0) =~= Seq::<Seq<Seq<SqlType>>>::empty());
    let mut i: usize = 0;
    while i < request.meetings.len()
        invariant
            i <= all.len(),
            all == request.meetings@,
            per_meeting == all.map_values(|m: MeetingRecord| meeting_session_rows(m)),
            meetings.wf(),
            sessions.wf(),
            meetings@ == insert_of(meeting_table(), meeting_fields(), meeting_rows(*request).take(i as int)),
            sessions@ == insert_of(session_table(), session_fields(), concat(per_meeting.take(i as int))),
            forall|a: int, b: int|
                0 <= a < i && 0 <= b < all[a].sessions@.len() ==> {
                    let s = #[trigger] all[a].sessions@[b];
                    date_ok(s.start_date) && date_ok(s.end_date)
                },
        decreases all.len() - i,
    {
        let m = &request.meetings[i];
        let row = vec![
            SqlType::Int(m.key),
            SqlType::Int(m.number),
            SqlType::Text(m.location.clone()),
            SqlType::Text(m.official_name.clone()),
            SqlType::Text(m.name.clone()),
            SqlType::Int(request.year),
        ];
        assert(row@ =~= meeting_row(*m, request.year));
        let added = meetings.add_values(row);
        assert(added is Ok);
        assert(meeting_rows(*request).take(i + 1) =~= meeting_rows(*request).take(i as int).push(
            meeting_row(*m, request.year),
        ));
        let ghost done = sessions@.rows;
        let mut j: usize = 0;
        while j < m.sessions.len()
            invariant
                i < all.len(),
                all == request.meetings@,
                *m == all[i as int],
                j <= m.sessions@.len(),
                sessions.wf(),
                sessions@ == insert_of(session_table(), session_fields(), done + meeting_session_rows(*m).take(j as int)),
                forall|b: int|
                    0 <= b < j ==> {
                        let s = #[trigger] m.sessions@[b];
                        date_ok(s.start_date) && date_ok(s.end_date)
                    },
            decreases m.sessions@.len() - j,
        {
            let s = &m.sessions[j];
            assert(all[i as int].sessions@[j as int] == *s);
            let start = match s.start_date {
                Some(t) => t,
                None => {
                    assert(!dates_ok(all));
                    return Err(InsertError::InvalidTimestamp);
                },
            };
            let end = match s.end_date {
                Some(t) => t,
                None => {
                    assert(!dates_ok(all));
                    return Err(InsertError::InvalidTimestamp);
                },
            };
            if !is_representable(start) || !is_representable(end) {
                assert(!dates_ok(all));
                return Err(InsertError::InvalidTimestamp);
            }
            let row = vec![
                SqlType::Int(s.key),
                SqlType::Text(s.kind.clone()),
                SqlType::Text(s.name.clone()),
                SqlType::Timestamp(start),
                SqlType::Timestamp(end),
                SqlType::Text(s.path.clone()),
                SqlType::Int(m.key),
            ];
            assert(row@ =~= session_row(*s, m.key));
            let added = sessions.add_values(row);
            assert(added is Ok);
            assert(done + meeting_session_rows(*m).take(j + 1) =~= (done + meeting_session_rows(
                *m,
            ).take(j as int)).push(session_row(*s, m.key)));
            j = j + 1;
        }
        assert(meeting_session_rows(*m).take(m.sessions@.len() as int) =~= meeting_session_rows(*m));
        proof {
            lemma_concat_take(per_meeting, i as int);
        }
        i = i + 1;
    }
    assert(meeting_rows(*request).take(all.len() as int) =~= meeting_rows(*request));
    assert(per_meeting.take(all.len() as int) =~= per_meeting);
    let meetings_statement = meetings.build();
    let sessions_statement = if sessions.row_count() > 0 {
        Some(sessions.build())
    } else {
        None
    };
    Ok(Some(InsertPlan { meetings: meetings_statement, sessions: sessions_statement }))
}

fn contains_key(known: &Vec<i32>, key: i32) -> (r: bool)
    ensures
        r == known@.contains(key),
{
    let mut i: usize = 0;
    while i < known.len()
        invariant
            i <= known@.len(),
            forall|k: int| 0 <= k < i ==> known@[k] != key,
        decreases known@.len() - i,
    {
        if known[i] == key {
            return true;
        }
        i = i + 1;
    }
    false
}

/// Leaves out the meetings whose key is in `known`, keeping the others in
/// order.
pub fn drop_known(request: &mut InsertMeetingsRequest, known: &Vec<i32>)
    ensures
        final(request).year == old(request).year,
        final(request).meetings@ == old(request).meetings@.filter(
            |m: MeetingRecord| !known@.contains(m.key),
        ),
{
    let ghost before = request.meetings@;
    let total = request.meetings.len();
    let mut rest: Vec<MeetingRecord> = Vec::new();
    std::mem::swap(&mut rest, &mut request.meetings);
    let mut kept: Vec<MeetingRecord> = Vec::new();
    let ghost n = total as int;
    let mut k: usize = 0;
    while rest.len() > 0
        invariant
            n == before.len(),
            n == total,
            k <= n,
            k + rest@.len() == n,
            rest@ == before.skip(k as int),
            kept@ == before.take(k as int).filter(|m: MeetingRecord| !known@.contains(m.key)),
        decreases rest@.len(),
    {
        let m = rest.remove(0);
        assert(m == before[k as int]);
        assert(before.take(k + 1).drop_last() =~= before.take(k as int));
        assert(before.take(k + 1).last() == m);
        assert(rest@ =~= before.skip(k + 1));
        let ghost keep = |x: MeetingRecord| !known@.contains(x.key);
        proof {
            reveal(Seq::filter);
        }
        let ghost prev = kept@;
        assert(prev == before.take(k as int).filter(keep));
        if !contains_key(known, m.key) {
            kept.push(m);
            assert(kept@ == before.take(k + 1).filter(keep));
        } else {
            assert(kept@ == before.take(k + 1).filter(keep));
        }
        k = k + 1;
    }
    assert(before.take(k as int) =~= before);
    request.meetings = kept;
}

} // verus!
