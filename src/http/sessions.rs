//! `GET /sessions`.
use vstd::prelude::*;

use crate::models::{session_fields, session_table, Session};
use crate::query_preparer::select::{FilterView, JoinView, SelectQuery};
use crate::query_preparer::{SqlOperator, SqlType};

verus! {

/// The query string of the sessions endpoint.
#[derive(Clone, Debug)]
pub struct SessionsParams {
    pub key: Option<i32>,
    pub meeting: Option<i32>,
}

/// The filter on `column` for `value`, when there is one.
pub open spec fn int_filter(column: Seq<char>, value: Option<i32>) -> Seq<FilterView> {
    match value {
        Some(v) => seq![
            FilterView {
                key: (session_table(), column),
                operator: SqlOperator::Eq,
                value: SqlType::Int(v),
            },
        ],
        None => Seq::empty(),
    }
}

/// All sessions, filtered by session key and by meeting key where given.
pub fn prepare_query(params: &SessionsParams) -> (r: SelectQuery)
    ensures
        r.wf(),
        r@.table == session_table(),
        r@.fields == session_fields(),
        r@.joins == Seq::<JoinView>::empty(),
        r@.filters == int_filter("key"@, params.key) + int_filter("meeting_key"@, params.meeting),
{
    let mut query = SelectQuery::new(Session::sql_table(), Session::sql_fields());
    if let Some(key) = params.key {
        query.add_filter((Session::sql_table(), "key"), SqlOperator::Eq, SqlType::Int(key));
    }
    let ghost first = query@.filters;
    assert(first =~= int_filter("key"@, params.key));
    if let Some(meeting_key) = params.meeting {
        query.add_filter(
            (Session::sql_table(), "meeting_key"),
            SqlOperator::Eq,
            SqlType::Int(meeting_key),
        );
    }
    assert(query@.filters =~= first + int_filter("meeting_key"@, params.meeting));
    query
}

} // verus!
