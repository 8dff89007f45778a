//! `GET /{year}/meetings`: the stored meetings of a year, and whether to ask
//! the worker to fetch that year's meetings.
use vstd::prelude::*;

use super::{expands, expands_of, QueryParams};
use crate::models::{meeting_fields, meeting_table, session_fields, session_table, Meeting, Session};
use crate::query_preparer::select::{
    FilterView, JoinRow, JoinRowView, JoinType, JoinView, RowShape, RowType, SelectQuery,
};
use crate::query_preparer::{SqlOperator, SqlType};
use crate::text::text_eq;
use crate::utils;

verus! {

/// The query string of the meetings endpoint.
#[derive(Clone, Debug)]
pub struct MeetingsParams {
    pub key: Option<i32>,
    pub location: Option<String>,
    pub year: Option<i32>,
    pub expand: Option<String>,
}

impl MeetingsParams {
    /// The year asked for, or the current year when none is.
    pub fn get_year(&self) -> (r: i32)
        ensures
            self.year matches Some(y) ==> r == y,
    {
        utils::get_year(self.year)
    }

    /// The names listed in `expand`, in order.
    pub fn get_expands(&self) -> (r: Vec<&str>)
        ensures
            r@.map_values(|p: &str| p@) == expands_of(self.expand),
    {
        expands(&self.expand)
    }
}

impl QueryParams for MeetingsParams {
    open spec fn expand_param(&self) -> Option<String> {
        self.expand
    }

    fn get_expands(&self) -> (r: Vec<&str>) {
        MeetingsParams::get_expands(self)
    }
}

/// `sessions`: all sessions of the meeting, as an array, grouped by meeting.
pub open spec fn sessions_join() -> JoinView {
    JoinView {
        join_type: JoinType::LeftJoin,
        row: JoinRowView {
            shape: RowShape::AggBy(meeting_table(), "id"@),
            table: session_table(),
            fields: session_fields(),
            alias: "sessions"@,
        },
        key_1: (meeting_table(), "key"@),
        key_2: (session_table(), "meeting_key"@),
    }
}

/// The joins that the expanded names ask for, in order; unknown names are
/// ignored.
pub open spec fn meeting_joins(names: Seq<Seq<char>>) -> Seq<JoinView>
    decreases names.len(),
{
    if names.len() == 0 {
        Seq::empty()
    } else {
        let rest = meeting_joins(names.drop_last());
        if names.last() == "sessions"@ {
            rest.push(sessions_join())
        } else {
            rest
        }
    }
}

/// The filters of a meetings query for `year`: the year, then the meeting
/// key and the location pattern where given.
pub open spec fn meeting_filters(params: MeetingsParams, year: i32) -> Seq<FilterView> {
    seq![
        FilterView {
            key: (meeting_table(), "year"@),
            operator: SqlOperator::Eq,
            value: SqlType::Int(year),
        },
    ] + match params.key {
        Some(k) => seq![
            FilterView {
                key: (meeting_table(), "key"@),
                operator: SqlOperator::Eq,
                value: SqlType::Int(k),
            },
        ],
        None => Seq::empty(),
    } + match params.location {
        Some(l) => seq![
            FilterView {
                key: (meeting_table(), "location"@),
                operator: SqlOperator::ILike,
                value: SqlType::Text(l),
            },
        ],
        None => Seq::empty(),
    }
}

/// The meetings of the asked year, with the asked relations, filtered by
/// key and by location pattern where given.
pub fn prepare_query(params: &MeetingsParams) -> (r: SelectQuery)
    ensures
        r.wf(),
        r@.table == meeting_table(),
        r@.fields == meeting_fields(),
        r@.joins == meeting_joins(expands_of(params.expand)),
        exists|y: i32|
            r@.filters == meeting_filters(*params, y) && (params.year matches Some(py) ==> y
                == py),
{
    let mut query = SelectQuery::new(Meeting::sql_table(), Meeting::sql_fields());
    let names = params.get_expands();
    let ghost all = names@.map_values(|p: &str| p@);
    let mut i: usize = 0;
    while i < names.len()
        invariant
            i <= names@.len(),
            all == names@.map_values(|p: &str| p@),
            all == expands_of(params.expand),
            query.wf(),
            query@.table == meeting_table(),
            query@.fields == meeting_fields(),
            query@.filters.len() == 0,
            query@.joins == meeting_joins(all.take(i as int)),
        decreases names@.len() - i,
    {
        assert(all.take(i + 1).drop_last() =~= all.take(i as int));
        assert(all.take(i + 1).last() == names@[i as int]@);
        if text_eq(names[i], "sessions") {
            let row = JoinRow::new(
                RowType::AggBy(Meeting::sql_table().to_owned(), "id".to_owned()),
                Session::sql_table(),
                Session::sql_fields(),
                "sessions",
            );
            query.add_join(
                JoinType::LeftJoin,
                row,
                (Meeting::sql_table(), "key"),
                (Session::sql_table(), "meeting_key"),
            );
        }
        i = i + 1;
    }
    assert(all.take(names@.len() as int) =~= all);
    let year = params.get_year();
    query.add_filter((Meeting::sql_table(), "year"), SqlOperator::Eq, SqlType::Int(year));
    if let Some(key) = params.key {
        query.add_filter((Meeting::sql_table(), "key"), SqlOperator::Eq, SqlType::Int(key));
    }
    if let Some(location) = &params.location {
        query.add_filter(
            (Meeting::sql_table(), "location"),
            SqlOperator::ILike,
            SqlType::Text(location.clone()),
        );
    }
    assert(query@.filters =~= meeting_filters(*params, year));
    query
}

/// What the meetings endpoint answers.
#[derive(Clone, Copy, Debug, PartialEq, Eq, Structural)]
pub enum MeetingsReply {
    /// `200 OK` with the meetings found, possibly none.
    Found,
    /// `202 Accepted` with an empty list: the season is being fetched.
    Accepted,
    /// `200 OK` with an empty list.
    Empty,
}

/// How asking the worker to fetch a season went.
#[derive(Clone, Copy, Debug, PartialEq, Eq, Structural)]
pub enum PublishOutcome {
    /// The request could not be encoded or published.
    NotSent,
    /// The queue confirmed the request.
    Confirmed,
    /// The request was published but not confirmed.
    Unconfirmed,
}

/// Whether to ask the worker to fetch the season `year` after `found`
/// meetings were read: not when the request filters by key or location,
/// where an empty result may come from the filter, and not when meetings of
/// a past or future season were found; the current season may have new ones.
pub fn needs_fetch(params: &MeetingsParams, year: i32, found: usize, current_year: i32) -> (r: bool)
    ensures
        r == (params.key is None && params.location is None && (found == 0 || year
            == current_year)),
{
    if found > 0 && year != current_year {
        return false;
    }
    params.key.is_none() && params.location.is_none()
}

/// The answer once a fetch was asked for: the meetings found, or
/// `Accepted` when the queue confirmed and none were found; an empty list
/// when the request was not sent.
pub fn reply_after_publish(outcome: PublishOutcome, found: usize) -> (r: MeetingsReply)
    ensures
        outcome == PublishOutcome::NotSent ==> r == MeetingsReply::Empty,
        outcome == PublishOutcome::Unconfirmed ==> r == MeetingsReply::Found,
        outcome == PublishOutcome::Confirmed ==> r == if found > 0 {
            MeetingsReply::Found
        } else {
            MeetingsReply::Accepted
        },
{
    match outcome {
        PublishOutcome::NotSent => MeetingsReply::Empty,
        PublishOutcome::Unconfirmed => MeetingsReply::Found,
        PublishOutcome::Confirmed => if found > 0 {
            MeetingsReply::Found
        } else {
            MeetingsReply::Accepted
        },
    }
}

} // verus!
