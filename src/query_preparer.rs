//! The values and operators shared by the `SELECT` and `INSERT` builders.
pub mod insert;
pub mod select;

use vstd::prelude::*;

verus! {

/// A UTC instant: whole seconds since the Unix epoch and the nanoseconds
/// within that second.
#[derive(Clone, Copy, Debug, PartialEq, Eq, Structural)]
pub struct UtcTimestamp {
    pub seconds: i64,
    pub nanos: u32,
}

/// A value bound to a positional placeholder.
#[derive(Clone, Debug, PartialEq)]
pub enum SqlType {
    Int(i32),
    Text(String),
    Timestamp(UtcTimestamp),
}

impl SqlType {
    /// A copy of this value.
    pub fn cloned(&self) -> (r: SqlType)
        ensures
            r == *self,
    {
        match self {
            SqlType::Int(v) => SqlType::Int(*v),
            SqlType::Text(s) => SqlType::Text(s.clone()),
            SqlType::Timestamp(t) => SqlType::Timestamp(*t),
        }
    }
}

/// The comparison a filter applies between a column and its bound value.
#[derive(Clone, Copy, Debug, PartialEq, Eq, Structural)]
pub enum SqlOperator {
    Eq,
    Sup,
    Inf,
    ILike,
}

/// The text of an operator between a column and its placeholder.
pub open spec fn operator_text(op: SqlOperator) -> Seq<char> {
    match op {
        SqlOperator::Eq => "="@,
        SqlOperator::Sup => ">"@,
        SqlOperator::Inf => "<"@,
        SqlOperator::ILike => " ILIKE "@,
    }
}

/// Appends the text of `op`.
pub(crate) fn push_operator(out: &mut String, op: SqlOperator)
    ensures
        final(out)@ == old(out)@ + operator_text(op),
{
    match op {
        SqlOperator::Eq => out.append("="),
        SqlOperator::Sup => out.append(">"),
        SqlOperator::Inf => out.append("<"),
        SqlOperator::ILike => out.append(" ILIKE "),
    }
}

/// Copies of the strings in `v`.
pub(crate) fn to_strings(v: &Vec<&str>) -> (r: Vec<String>)
    ensures
        r@.len() == v@.len(),
        forall|i: int| 0 <= i < v@.len() ==> #[trigger] r@[i]@ == v@[i]@,
{
    let mut r: Vec<String> = Vec::new();
    let mut i: usize = 0;
    while i < v.len()
        invariant
            i <= v@.len(),
            r@.len() == i,
            forall|k: int| 0 <= k < i ==> #[trigger] r@[k]@ == v@[k]@,
        decreases v@.len() - i,
    {
        r.push(v[i].to_owned());
        i = i + 1;
    }
    r
}

/// What a built statement is: its SQL text and the values bound to its
/// placeholders, in order.
pub struct StatementView {
    pub sql: Seq<char>,
    pub params: Seq<SqlType>,
}

/// A built statement, ready for execution. It cannot be changed.
pub struct Statement {
    sql: String,
    params: Vec<SqlType>,
}

impl View for Statement {
    type V = StatementView;

    closed spec fn view(&self) -> StatementView {
        StatementView { sql: self.sql@, params: self.params@ }
    }
}

impl Statement {
    pub(crate) fn from_parts(sql: String, params: Vec<SqlType>) -> (r: Statement)
        ensures
            r@.sql == sql@,
            r@.params == params@,
    {
        Statement { sql, params }
    }

    /// The SQL text, with `$1`, `$2`, ... as placeholders.
    pub fn sql(&self) -> (r: &str)
        ensures
            r@ == self@.sql,
    {
        self.sql.as_str()
    }

    /// The values bound to the placeholders, in the order of their numbers.
    pub fn params(&self) -> (r: &Vec<SqlType>)
        ensures
            r@ == self@.params,
    {
        &self.params
    }
}

/// The views of a sequence of strings.
pub open spec fn views(v: Seq<String>) -> Seq<Seq<char>> {
    v.map_values(|s: String| s@)
}

} // verus!
