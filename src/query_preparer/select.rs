//! The `SELECT` builder: a base table and its columns, joined tables folded
//! into JSON projections, `AND`-ed filters and the `GROUP BY` that
//! aggregated joins call for.
use vstd::prelude::*;

use super::{
    operator_text, push_operator, to_strings, views, SqlOperator, SqlType, Statement,
};
use crate::sql_text::{
    concat, join_sep, lemma_concat_take, lemma_join_sep_take, placeholder, push_placeholder,
};

verus! {

/// A column qualified by its table, rendered `table.field`.
#[derive(Clone, Debug)]
pub struct SqlKey {
    table: String,
    field: String,
}

/// A qualified column as (table, field).
pub type KeyView = (Seq<char>, Seq<char>);

impl View for SqlKey {
    type V = KeyView;

    closed spec fn view(&self) -> KeyView {
        (self.table@, self.field@)
    }
}

/// `table.field`
pub open spec fn key_text(k: KeyView) -> Seq<char> {
    k.0 + "."@ + k.1
}

impl SqlKey {
    pub fn new(v: (&str, &str)) -> (r: Self)
        ensures
            r@ == (v.0@, v.1@),
    {
        SqlKey { table: v.0.to_owned(), field: v.1.to_owned() }
    }

    /// The rendered column, `table.field`.
    pub fn to_text(&self) -> (r: String)
        ensures
            r@ == key_text(self@),
    {
        let mut out = String::new();
        self.push_to(&mut out);
        out
    }

    fn push_to(&self, out: &mut String)
        ensures
            final(out)@ == old(out)@ + key_text(self@),
    {
        let ghost start = out@;
        out.append(self.table.as_str());
        out.append(".");
        out.append(self.field.as_str());
        assert(out@ =~= start + key_text(self@));
    }

    fn same_as(&self, other: &SqlKey) -> (r: bool)
        ensures
            r == (self@ == other@),
    {
        self.table == other.table && self.field == other.field
    }
}

/// How a joined table is matched against the base table.
#[derive(Clone, Copy, Debug, PartialEq, Eq, Structural)]
pub enum JoinType {
    InnerJoin,
    LeftJoin,
    RightJoin,
}

/// How many rows a join contributes per base row: at most one (`Single`),
/// or many, folded into an array and grouped by the given (table, column).
#[derive(Clone, Debug)]
pub enum RowType {
    Single,
    AggBy(String, String),
}

/// The shape of a join, as a value.
pub enum RowShape {
    Single,
    AggBy(Seq<char>, Seq<char>),
}

impl View for RowType {
    type V = RowShape;

    open spec fn view(&self) -> RowShape {
        match self {
            RowType::Single => RowShape::Single,
            RowType::AggBy(t, f) => RowShape::AggBy(t@, f@),
        }
    }
}

/// A joined table: its shape, name, projected fields and the alias of its
/// JSON projection.
pub struct JoinRowView {
    pub shape: RowShape,
    pub table: Seq<char>,
    pub fields: Seq<Seq<char>>,
    pub alias: Seq<char>,
}

/// The table a join brings in, and how it is projected.
#[derive(Clone, Debug)]
pub struct JoinRow {
    row_type: RowType,
    table: String,
    fields: Vec<String>,
    alias: String,
}

impl View for JoinRow {
    type V = JoinRowView;

    closed spec fn view(&self) -> JoinRowView {
        JoinRowView {
            shape: self.row_type@,
            table: self.table@,
            fields: views(self.fields@),
            alias: self.alias@,
        }
    }
}

impl JoinRow {
    pub fn new(row_type: RowType, table: &str, fields: Vec<&str>, alias: &str) -> (r: Self)
        ensures
            r@.shape == row_type@,
            r@.table == table@,
            r@.fields == fields@.map_values(|s: &str| s@),
            r@.alias == alias@,
    {
        let owned = to_strings(&fields);
        let r = JoinRow { row_type, table: table.to_owned(), fields: owned, alias: alias.to_owned() };
        assert(r@.fields =~= fields@.map_values(|s: &str| s@));
        r
    }
}

/// A join as (kind, joined table, left key, right key).
pub struct JoinView {
    pub join_type: JoinType,
    pub row: JoinRowView,
    pub key_1: KeyView,
    pub key_2: KeyView,
}

/// A join of the statement, matched on `key_1 = key_2`.
#[derive(Clone, Debug)]
pub struct SqlJoin {
    join_type: JoinType,
    row: JoinRow,
    key_1: SqlKey,
    key_2: SqlKey,
}

impl View for SqlJoin {
    type V = JoinView;

    closed spec fn view(&self) -> JoinView {
        JoinView { join_type: self.join_type, row: self.row@, key_1: self.key_1@, key_2: self.key_2@ }
    }
}

/// A filter as (column, operator, bound value).
pub struct FilterView {
    pub key: KeyView,
    pub operator: SqlOperator,
    pub value: SqlType,
}

/// One conjunct of the `WHERE` clause.
#[derive(Clone, Debug)]
pub struct SqlFilter {
    key: SqlKey,
    operator: SqlOperator,
    value: SqlType,
}

impl View for SqlFilter {
    type V = FilterView;

    closed spec fn view(&self) -> FilterView {
        FilterView { key: self.key@, operator: self.operator, value: self.value }
    }
}

/// What a `SELECT` builder holds: base table, its fields, joins and filters,
/// each in the order added.
pub struct SelectView {
    pub table: Seq<char>,
    pub fields: Seq<Seq<char>>,
    pub joins: Seq<JoinView>,
    pub filters: Seq<FilterView>,
}

/// Accumulates the parts of a `SELECT` statement; `build` renders them.
pub struct SelectQuery {
    table: String,
    fields: Vec<String>,
    join: Vec<SqlJoin>,
    filter: Vec<SqlFilter>,
    has_agg: bool,
}

impl View for SelectQuery {
    type V = SelectView;

    closed spec fn view(&self) -> SelectView {
        SelectView {
            table: self.table@,
            fields: views(self.fields@),
            joins: self.join@.map_values(|j: SqlJoin| j@),
            filters: self.filter@.map_values(|f: SqlFilter| f@),
        }
    }
}

// ---------------------------------------------------------------------------
// The text of a statement, part by part.
/// The base table's columns, each qualified by the table.
pub open spec fn column_list(table: Seq<char>, fields: Seq<Seq<char>>) -> Seq<Seq<char>> {
    fields.map_values(|f: Seq<char>| table + "."@ + f)
}

/// `SELECT t.f1,t.f2,...`
pub open spec fn select_head(m: SelectView) -> Seq<char> {
    "SELECT "@ + join_sep(column_list(m.table, m.fields), ","@)
}

/// The entries `'f',t.f` of a joined table's JSON object.
pub open spec fn object_entries(row: JoinRowView) -> Seq<Seq<char>> {
    row.fields.map_values(|f: Seq<char>| "'"@ + f + "',"@ + row.table + "."@ + f)
}

/// `jsonb_build_object('f1',t.f1,...)`
pub open spec fn object_text(row: JoinRowView) -> Seq<char> {
    "jsonb_build_object("@ + join_sep(object_entries(row), ","@) + ")"@
}

/// `jsonb_agg(object)`
pub open spec fn aggregate_text(row: JoinRowView) -> Seq<char> {
    "jsonb_agg("@ + object_text(row) + ")"@
}

/// The projected expression of a joined table. A single row is folded into
/// an aggregate, and its first element taken, when the statement groups.
pub open spec fn projection_expr(row: JoinRowView, agg: bool) -> Seq<char> {
    match row.shape {
        RowShape::Single => if agg {
            aggregate_text(row) + "->0"@
        } else {
            object_text(row)
        },
        RowShape::AggBy(_, _) => aggregate_text(row),
    }
}

/// `,expression AS alias`
pub open spec fn projection_text(j: JoinView, agg: bool) -> Seq<char> {
    ","@ + projection_expr(j.row, agg) + " AS "@ + j.row.alias
}

/// The projections of all joins, in order.
pub open spec fn projections(joins: Seq<JoinView>, agg: bool) -> Seq<char> {
    concat(joins.map_values(|j: JoinView| projection_text(j, agg)))
}

pub open spec fn join_type_text(t: JoinType) -> Seq<char> {
    match t {
        JoinType::InnerJoin => " JOIN "@,
        JoinType::LeftJoin => " LEFT JOIN "@,
        JoinType::RightJoin => " RIGHT JOIN "@,
    }
}

/// ` LEFT JOIN t ON a.x=t.y`
pub open spec fn join_clause(j: JoinView) -> Seq<char> {
    join_type_text(j.join_type) + j.row.table + " ON "@ + key_text(j.key_1) + "="@ + key_text(
        j.key_2,
    )
}

/// The join clauses, in order.
pub open spec fn join_clauses(joins: Seq<JoinView>) -> Seq<char> {
    concat(joins.map_values(|j: JoinView| join_clause(j)))
}

/// `t.f op $n`
pub open spec fn predicate(f: FilterView, n: nat) -> Seq<char> {
    key_text(f.key) + operator_text(f.operator) + placeholder(n)
}

/// The predicates of the filters; the i-th (from 0) is bound to `$(i+1)`.
pub open spec fn predicates(fs: Seq<FilterView>) -> Seq<Seq<char>> {
    Seq::new(fs.len(), |i: int| predicate(fs[i], (i + 1) as nat))
}

/// ` WHERE p1 AND p2 ...`, or nothing without filters.
pub open spec fn where_clause(fs: Seq<FilterView>) -> Seq<char> {
    if fs.len() == 0 {
        Seq::empty()
    } else {
        " WHERE "@ + join_sep(predicates(fs), " AND "@)
    }
}

/// Whether any join is aggregated.
pub open spec fn has_aggregate(joins: Seq<JoinView>) -> bool {
    exists|i: int| 0 <= i < joins.len() && (#[trigger] joins[i]).row.shape is AggBy
}

/// The grouping keys of the aggregated joins, in join order.
pub open spec fn agg_keys(joins: Seq<JoinView>) -> Seq<KeyView>
    decreases joins.len(),
{
    if joins.len() == 0 {
        Seq::empty()
    } else {
        match joins.last().row.shape {
            RowShape::AggBy(t, f) => agg_keys(joins.drop_last()).push((t, f)),
            RowShape::Single => agg_keys(joins.drop_last()),
        }
    }
}

/// `s` without repetitions, each element where it first occurs.
pub open spec fn distinct<A>(s: Seq<A>) -> Seq<A>
    decreases s.len(),
{
    if s.len() == 0 {
        s
    } else {
        let d = distinct(s.drop_last());
        if d.contains(s.last()) {
            d
        } else {
            d.push(s.last())
        }
    }
}

/// The keys of the `GROUP BY` clause.
pub open spec fn group_keys(joins: Seq<JoinView>) -> Seq<KeyView> {
    distinct(agg_keys(joins))
}

/// ` GROUP BY k1,k2,...` when a join is aggregated, else nothing.
pub open spec fn group_by_clause(joins: Seq<JoinView>) -> Seq<char> {
    if has_aggregate(joins) {
        " GROUP BY "@ + join_sep(group_keys(joins).map_values(|k: KeyView| key_text(k)), ","@)
    } else {
        Seq::empty()
    }
}

/// What comes before the filters: the projected columns, the base table
/// and the joins.
pub open spec fn select_front(m: SelectView) -> Seq<char> {
    select_head(m) + projections(m.joins, has_aggregate(m.joins)) + " FROM "@ + m.table
        + join_clauses(m.joins)
}

/// The SQL text of the statement that `m` describes.
pub open spec fn select_sql(m: SelectView) -> Seq<char> {
    select_front(m) + where_clause(m.filters) + group_by_clause(m.joins)
}

/// The values bound by the statement that `m` describes: the filters'
/// values, in order.
pub open spec fn select_params(m: SelectView) -> Seq<SqlType> {
    m.filters.map_values(|f: FilterView| f.value)
}

// ---------------------------------------------------------------------------
// Rendering.
fn push_columns(out: &mut String, table: &String, fields: &Vec<String>)
    ensures
        final(out)@ == old(out)@ + join_sep(column_list(table@, views(fields@)), ","@),
{
    let ghost start = out@;
    let ghost parts = column_list(table@, views(fields@));
    let mut i: usize = 0;
    while i < fields.len()
        invariant
            i <= fields@.len(),
            parts == column_list(table@, views(fields@)),
            out@ == start + join_sep(parts.take(i as int), ","@),
        decreases fields@.len() - i,
    {
        proof {
            lemma_join_sep_take(parts, ","@, i as int);
        }
        if i > 0 {
            out.append(",");
        }
        out.append(table.as_str());
        out.append(".");
        out.append(fields[i].as_str());
        assert(out@ =~= start + join_sep(parts.take(i + 1), ","@));
        i = i + 1;
    }
    assert(parts.take(fields@.len() as int) =~= parts);
}

impl JoinRow {
    fn push_object(&self, out: &mut String)
        ensures
            final(out)@ == old(out)@ + object_text(self@),
    {
        let ghost start = out@;
        let ghost parts = object_entries(self@);
        out.append("jsonb_build_object(");
        let mut i: usize = 0;
        while i < self.fields.len()
            invariant
                i <= self.fields@.len(),
                parts == object_entries(self@),
                out@ == start + "jsonb_build_object("@ + join_sep(parts.take(i as int), ","@),
            decreases self.fields@.len() - i,
        {
            proof {
                lemma_join_sep_take(parts, ","@, i as int);
            }
            if i > 0 {
                out.append(",");
            }
            out.append("'");
            out.append(self.fields[i].as_str());
            out.append("',");
            out.append(self.table.as_str());
            out.append(".");
            out.append(self.fields[i].as_str());
            assert(out@ =~= start + "jsonb_build_object("@ + join_sep(parts.take(i + 1), ","@));
            i = i + 1;
        }
        assert(parts.take(self.fields@.len() as int) =~= parts);
        out.append(")");
        assert(out@ =~= start + object_text(self@));
    }
}

impl SqlJoin {
    fn push_projection(&self, out: &mut String, agg: bool)
        ensures
            final(out)@ == old(out)@ + projection_text(self@, agg),
    {
        let ghost start = out@;
        out.append(",");
        match &self.row.row_type {
            RowType::Single => {
                if agg {
                    out.append("jsonb_agg(");
                    self.row.push_object(out);
                    out.append(")");
                    out.append("->0");
                    assert(out@ =~= start + ","@ + aggregate_text(self.row@) + "->0"@);
                } else {
                    self.row.push_object(out);
                }
            },
            RowType::AggBy(_, _) => {
                out.append("jsonb_agg(");
                self.row.push_object(out);
                out.append(")");
                assert(out@ =~= start + ","@ + aggregate_text(self.row@));
            },
        }
        assert(out@ =~= start + ","@ + projection_expr(self.row@, agg));
        out.append(" AS ");
        out.append(self.row.alias.as_str());
        assert(out@ =~= start + projection_text(self@, agg));
    }

    fn push_clause(&self, out: &mut String)
        ensures
            final(out)@ == old(out)@ + join_clause(self@),
    {
        let ghost start = out@;
        match self.join_type {
            JoinType::InnerJoin => out.append(" JOIN "),
            JoinType::LeftJoin => out.append(" LEFT JOIN "),
            JoinType::RightJoin => out.append(" RIGHT JOIN "),
        }
        out.append(self.row.table.as_str());
        out.append(" ON ");
        self.key_1.push_to(out);
        out.append("=");
        self.key_2.push_to(out);
        assert(out@ =~= start + join_clause(self@));
    }
}

impl SqlFilter {
    fn push_predicate(&self, out: &mut String, n: usize)
        ensures
            final(out)@ == old(out)@ + predicate(self@, n as nat),
    {
        let ghost start = out@;
        self.key.push_to(out);
        push_operator(out, self.operator);
        push_placeholder(out, n);
        assert(out@ =~= start + predicate(self@, n as nat));
    }
}

impl SelectQuery {
    /// The builder's internal consistency: the aggregate flag tells whether
    /// any join is aggregated.
    pub closed spec fn wf(&self) -> bool {
        self.has_agg == has_aggregate(self@.joins)
    }

    pub fn new(table: &str, fields: Vec<&str>) -> (r: Self)
        ensures
            r.wf(),
            r@.table == table@,
            r@.fields == fields@.map_values(|s: &str| s@),
            r@.joins == Seq::<JoinView>::empty(),
            r@.filters == Seq::<FilterView>::empty(),
    {
        let owned = to_strings(&fields);
        let r = SelectQuery {
            table: table.to_owned(),
            fields: owned,
            join: Vec::new(),
            filter: Vec::new(),
            has_agg: false,
        };
        assert(r@.fields =~= fields@.map_values(|s: &str| s@));
        assert(r@.joins =~= Seq::<JoinView>::empty());
        assert(r@.filters =~= Seq::<FilterView>::empty());
        r
    }

    /// Appends a join of `row` on `key_1 = key_2`.
    pub fn add_join(&mut self, join_type: JoinType, row: JoinRow, key_1: (&str, &str), key_2: (
        &str,
        &str,
    ))
        requires
            old(self).wf(),
        ensures
            final(self).wf(),
            final(self)@.table == old(self)@.table,
            final(self)@.fields == old(self)@.fields,
            final(self)@.filters == old(self)@.filters,
            final(self)@.joins == old(self)@.joins.push(
                JoinView {
                    join_type,
                    row: row@,
                    key_1: (key_1.0@, key_1.1@),
                    key_2: (key_2.0@, key_2.1@),
                },
            ),
    {
        let ghost old_joins = self@.joins;
        if let RowType::AggBy(_, _) = row.row_type {
            self.has_agg = true;
        }
        let j = SqlJoin { join_type, row, key_1: SqlKey::new(key_1), key_2: SqlKey::new(key_2) };
        self.join.push(j);
        proof {
            let joins = self@.joins;
            assert(joins =~= old_joins.push(j@));
            assert(joins[joins.len() - 1] == j@);
            if has_aggregate(old_joins) {
                let w = choose|i: int|
                    0 <= i < old_joins.len() && (#[trigger] old_joins[i]).row.shape is AggBy;
                assert(joins[w] == old_joins[w]);
            }
        }
    }

    /// Appends the filter `key operator value`.
    pub fn add_filter(&mut self, key: (&str, &str), operator: SqlOperator, value: SqlType)
        requires
            old(self).wf(),
        ensures
            final(self).wf(),
            final(self)@.table == old(self)@.table,
            final(self)@.fields == old(self)@.fields,
            final(self)@.joins == old(self)@.joins,
            final(self)@.filters == old(self)@.filters.push(
                FilterView { key: (key.0@, key.1@), operator, value },
            ),
    {
        let ghost old_filters = self@.filters;
        let f = SqlFilter { key: SqlKey::new(key), operator, value };
        self.filter.push(f);
        assert(self@.filters =~= old_filters.push(f@));
        assert(self@.joins =~= old(self)@.joins);
    }

    /// Renders the statement: its SQL text and its bound values.
    pub fn build(&self) -> (r: Statement)
        requires
            self.wf(),
        ensures
            r@.sql == select_sql(self@),
            r@.params == select_params(self@),
    {
        let ghost m = self@;
        let mut out = String::new();
        out.append("SELECT ");
        push_columns(&mut out, &self.table, &self.fields);
        assert(out@ =~= select_head(m));
        let ghost head = out@;

        // Projections of the joined tables.
        let agg = self.has_agg;
        let ghost proj = m.joins.map_values(|j: JoinView| projection_text(j, agg));
        let mut i: usize = 0;
        while i < self.join.len()
            invariant
                i <= self.join@.len(),
                m == self@,
                proj == m.joins.map_values(|j: JoinView| projection_text(j, agg)),
                out@ == head + concat(proj.take(i as int)),
            decreases self.join@.len() - i,
        {
            proof {
                lemma_concat_take(proj, i as int);
            }
            self.join[i].push_projection(&mut out, agg);
            assert(out@ =~= head + concat(proj.take(i + 1)));
            i = i + 1;
        }
        assert(proj.take(self.join@.len() as int) =~= proj);
        out.append(" FROM ");
        out.append(self.table.as_str());
        let ghost from = out@;
        assert(from =~= select_head(m) + projections(m.joins, has_aggregate(m.joins)) + " FROM "@
            + m.table);

        // Join clauses.
        let ghost clauses = m.joins.map_values(|j: JoinView| join_clause(j));
        let mut i: usize = 0;
        while i < self.join.len()
            invariant
                i <= self.join@.len(),
                m == self@,
                clauses == m.joins.map_values(|j: JoinView| join_clause(j)),
                out@ == from + concat(clauses.take(i as int)),
            decreases self.join@.len() - i,
        {
            proof {
                lemma_concat_take(clauses, i as int);
            }
            self.join[i].push_clause(&mut out);
            assert(out@ =~= from + concat(clauses.take(i + 1)));
            i = i + 1;
        }
        assert(clauses.take(self.join@.len() as int) =~= clauses);
        let ghost joined = out@;
        assert(joined =~= select_front(m));

        // Filters.
        let mut params: Vec<SqlType> = Vec::new();
        let ghost preds = predicates(m.filters);
        if self.filter.len() > 0 {
            out.append(" WHERE ");
        }
        let mut i: usize = 0;
        while i < self.filter.len()
            invariant
                i <= self.filter@.len(),
                m == self@,
                preds == predicates(m.filters),
                self.filter@.len() > 0 ==> out@ == joined + " WHERE "@ + join_sep(
                    preds.take(i as int),
                    " AND "@,
                ),
                self.filter@.len() == 0 ==> out@ == joined,
                params@ == select_params(m).take(i as int),
            decreases self.filter@.len() - i,
        {
            proof {
                lemma_join_sep_take(preds, " AND "@, i as int);
            }
            if i > 0 {
                out.append(" AND ");
            }
            self.filter[i].push_predicate(&mut out, i + 1);
            params.push(self.filter[i].value.cloned());
            assert(out@ =~= joined + " WHERE "@ + join_sep(preds.take(i + 1), " AND "@));
            assert(params@ =~= select_params(m).take(i + 1));
            i = i + 1;
        }
        assert(preds.take(self.filter@.len() as int) =~= preds);
        assert(select_params(m).take(self.filter@.len() as int) =~= select_params(m));
        assert(out@ =~= joined + where_clause(m.filters));
        let ghost filtered = out@;

        // Grouping.
        if self.has_agg {
            let keys = self.group_keys();
            out.append(" GROUP BY ");
            let ghost texts = keys@.map_values(|k: SqlKey| key_text(k@));
            let mut i: usize = 0;
            while i < keys.len()
                invariant
                    i <= keys@.len(),
                    texts == keys@.map_values(|k: SqlKey| key_text(k@)),
                    out@ == filtered + " GROUP BY "@ + join_sep(texts.take(i as int), ","@),
                decreases keys@.len() - i,
            {
                proof {
                    lemma_join_sep_take(texts, ","@, i as int);
                }
                if i > 0 {
                    out.append(",");
                }
                keys[i].push_to(&mut out);
                assert(out@ =~= filtered + " GROUP BY "@ + join_sep(texts.take(i + 1), ","@));
                i = i + 1;
            }
            assert(texts.take(keys@.len() as int) =~= texts);
            assert(texts =~= group_keys(m.joins).map_values(|k: KeyView| key_text(k)));
        }
        assert(out@ =~= select_sql(m));
        Statement::from_parts(out, params)
    }

    /// The distinct grouping keys of the aggregated joins, in join order.
    fn group_keys(&self) -> (r: Vec<SqlKey>)
        ensures
            r@.map_values(|k: SqlKey| k@) == group_keys(self@.joins),
    {
        let ghost joins = self@.joins;
        let mut keys: Vec<SqlKey> = Vec::new();
        let mut i: usize = 0;
        while i < self.join.len()
            invariant
                i <= self.join@.len(),
                joins == self@.joins,
                keys@.map_values(|k: SqlKey| k@) == distinct(agg_keys(joins.take(i as int))),
            decreases self.join@.len() - i,
        {
            let ghost prefix = joins.take(i as int);
            let ghost next = joins.take(i + 1);
            assert(next.drop_last() =~= prefix);
            assert(next.last() == self.join@[i as int]@);
            let ghost before = keys@.map_values(|k: SqlKey| k@);
            if let RowType::AggBy(t, f) = &self.join[i].row.row_type {
                let key = SqlKey::new((t.as_str(), f.as_str()));
                let mut found = false;
                let mut k: usize = 0;
                while k < keys.len()
                    invariant
                        k <= keys@.len(),
                        before == keys@.map_values(|k: SqlKey| k@),
                        found == (exists|x: int| 0 <= x < k && before[x] == key@),
                    decreases keys@.len() - k,
                {
                    assert(before[k as int] == keys@[k as int]@);
                    if keys[k].same_as(&key) {
                        found = true;
                    }
                    k = k + 1;
                }
                assert(found == before.contains(key@));
                assert(agg_keys(next) == agg_keys(prefix).push(key@));
                assert(agg_keys(next).drop_last() =~= agg_keys(prefix));
                if !found {
                    keys.push(key);
                    assert(keys@.map_values(|k: SqlKey| k@) =~= before.push(key@));
                }
            } else {
                assert(agg_keys(next) == agg_keys(prefix));
            }
            i = i + 1;
        }
        assert(joins.take(self.join@.len() as int) =~= joins);
        keys
    }
}

// ---------------------------------------------------------------------------
// Properties of the rendered statements.
/// A builder with neither joins nor filters renders `SELECT t.f1,t.f2,...
/// FROM t` and binds no value.
pub proof fn lemma_plain_select(table: Seq<char>, fields: Seq<Seq<char>>)
    ensures
        ({
            let m = SelectView {
                table,
                fields,
                joins: Seq::empty(),
                filters: Seq::empty(),
            };
            &&& select_sql(m) == "SELECT "@ + join_sep(column_list(table, fields), ","@) + " FROM "@
                + table
            &&& select_params(m).len() == 0
        }),
{
    let m = SelectView { table, fields, joins: Seq::empty(), filters: Seq::empty() };
    assert(m.joins.map_values(|j: JoinView| projection_text(j, has_aggregate(m.joins)))
        =~= Seq::<Seq<char>>::empty());
    assert(m.joins.map_values(|j: JoinView| join_clause(j)) =~= Seq::<Seq<char>>::empty());
    assert(select_sql(m) =~= "SELECT "@ + join_sep(column_list(table, fields), ","@) + " FROM "@
        + table);
}

/// Filters shape the `WHERE` clause and the bound values alone: `n`
/// filters give `n` predicates joined by `AND`, in the order added, the i-th
/// (from 0) bound to `$(i+1)` whatever its operator, and `n` bound values in
/// that order.
pub proof fn lemma_filters_in_order(m: SelectView, fs: Seq<FilterView>)
    ensures
        ({
            let with = SelectView { filters: fs, ..m };
            &&& select_sql(with) == select_front(m) + where_clause(fs) + group_by_clause(m.joins)
            &&& fs.len() == 0 ==> where_clause(fs) == Seq::<char>::empty()
            &&& fs.len() > 0 ==> where_clause(fs) == " WHERE "@ + join_sep(predicates(fs), " AND "@)
            &&& predicates(fs).len() == fs.len()
            &&& forall|i: int|
                0 <= i < fs.len() ==> #[trigger] predicates(fs)[i] == key_text(fs[i].key)
                    + operator_text(fs[i].operator) + "$"@ + crate::sql_text::decimal(
                    (i + 1) as nat,
                )
            &&& select_params(with).len() == fs.len()
            &&& forall|i: int| 0 <= i < fs.len() ==> #[trigger] select_params(with)[i] == fs[i].value
        }),
{
}

/// Where every join is single-shaped, nothing is grouped and every joined
/// table is projected as a plain JSON object.
pub proof fn lemma_single_joins_no_grouping(m: SelectView)
    requires
        forall|i: int| 0 <= i < m.joins.len() ==> (#[trigger] m.joins[i]).row.shape is Single,
    ensures
        !has_aggregate(m.joins),
        group_by_clause(m.joins) == Seq::<char>::empty(),
        forall|i: int|
            0 <= i < m.joins.len() ==> #[trigger] projection_expr(
                m.joins[i].row,
                has_aggregate(m.joins),
            ) == object_text(m.joins[i].row),
{
}

/// Every key of `agg_keys(joins)` is the grouping key of an aggregated join,
/// and the other way round.
pub proof fn lemma_agg_keys_members(joins: Seq<JoinView>)
    ensures
        forall|k: KeyView|
            agg_keys(joins).contains(k) <==> exists|i: int|
                0 <= i < joins.len() && (#[trigger] joins[i]).row.shape == RowShape::AggBy(k.0, k.1),
    decreases joins.len(),
{
    if joins.len() > 0 {
        let rest = joins.drop_last();
        lemma_agg_keys_members(rest);
        assert forall|k: KeyView|
            agg_keys(joins).contains(k) <==> exists|i: int|
                0 <= i < joins.len() && (#[trigger] joins[i]).row.shape == RowShape::AggBy(
                    k.0,
                    k.1,
                ) by {
            let last = joins.len() - 1;
            if agg_keys(joins).contains(k) {
                let x = choose|x: int| 0 <= x < agg_keys(joins).len() && agg_keys(joins)[x] == k;
                if agg_keys(rest).contains(k) {
                    let i = choose|i: int|
                        0 <= i < rest.len() && (#[trigger] rest[i]).row.shape == RowShape::AggBy(
                            k.0,
                            k.1,
                        );
                    assert(joins[i] == rest[i]);
                } else {
                    assert(joins[last].row.shape == RowShape::AggBy(k.0, k.1));
                }
            }
            if exists|i: int|
                0 <= i < joins.len() && (#[trigger] joins[i]).row.shape == RowShape::AggBy(
                    k.0,
                    k.1,
                ) {
                let i = choose|i: int|
                    0 <= i < joins.len() && (#[trigger] joins[i]).row.shape == RowShape::AggBy(
                        k.0,
                        k.1,
                    );
                if i < last {
                    assert(rest[i] == joins[i]);
                    assert(agg_keys(rest).contains(k));
                    let x = choose|x: int| 0 <= x < agg_keys(rest).len() && agg_keys(rest)[x] == k;
                    if let RowShape::AggBy(t, f) = joins.last().row.shape {
                        assert(agg_keys(joins)[x] == k);
                    } else {
                        assert(agg_keys(joins)[x] == k);
                    }
                } else {
                    assert(agg_keys(joins).last() == k);
                }
            }
        }
    }
}

/// `distinct(s)` holds each element of `s` exactly once.
pub proof fn lemma_distinct<A>(s: Seq<A>)
    ensures
        distinct(s).no_duplicates(),
        forall|x: A| distinct(s).contains(x) <==> s.contains(x),
    decreases s.len(),
{
    if s.len() > 0 {
        let rest = s.drop_last();
        lemma_distinct(rest);
        let d = distinct(rest);
        assert forall|x: A| distinct(s).contains(x) <==> s.contains(x) by {
            if rest.contains(x) {
                let i = choose|i: int| 0 <= i < rest.len() && rest[i] == x;
                assert(s[i] == x);
            }
            if s.contains(x) {
                let i = choose|i: int| 0 <= i < s.len() && s[i] == x;
                if i < s.len() - 1 {
                    assert(rest[i] == x);
                }
            }
            if !d.contains(s.last()) {
                if d.push(s.last()).contains(x) {
                    let i = choose|i: int| 0 <= i < d.push(s.last()).len() && d.push(s.last())[i] == x;
                    if i < d.len() {
                        assert(d[i] == x);
                    }
                }
                if d.contains(x) {
                    let i = choose|i: int| 0 <= i < d.len() && d[i] == x;
                    assert(d.push(s.last())[i] == x);
                }
                assert(d.push(s.last())[d.len() as int] == s.last());
            }
        }
    }
}

/// With an aggregated join, the statement ends in one `GROUP BY` clause
/// whose keys are the grouping keys of all aggregated joins, each once, and
/// every single-shaped join is projected as `jsonb_agg(...)->0`.
pub proof fn lemma_aggregate_groups(m: SelectView, a: int)
    requires
        0 <= a < m.joins.len(),
        m.joins[a].row.shape is AggBy,
    ensures
        has_aggregate(m.joins),
        select_sql(m) == select_front(m) + where_clause(m.filters) + " GROUP BY "@ + join_sep(
            group_keys(m.joins).map_values(|k: KeyView| key_text(k)),
            ","@,
        ),
        group_keys(m.joins).no_duplicates(),
        forall|k: KeyView|
            group_keys(m.joins).contains(k) <==> exists|i: int|
                0 <= i < m.joins.len() && (#[trigger] m.joins[i]).row.shape == RowShape::AggBy(
                    k.0,
                    k.1,
                ),
        forall|i: int|
            0 <= i < m.joins.len() && (#[trigger] m.joins[i]).row.shape is Single
                ==> projection_expr(m.joins[i].row, has_aggregate(m.joins)) == aggregate_text(
                m.joins[i].row,
            ) + "->0"@,
{
    assert(m.joins[a].row.shape is AggBy);
    lemma_agg_keys_members(m.joins);
    lemma_distinct(agg_keys(m.joins));
    assert forall|k: KeyView|
        group_keys(m.joins).contains(k) <==> exists|i: int|
            0 <= i < m.joins.len() && (#[trigger] m.joins[i]).row.shape == RowShape::AggBy(
                k.0,
                k.1,
            ) by {
        assert(group_keys(m.joins).contains(k) == agg_keys(m.joins).contains(k));
    }
    let g = " GROUP BY "@ + join_sep(
        group_keys(m.joins).map_values(|k: KeyView| key_text(k)),
        ","@,
    );
    assert(group_by_clause(m.joins) == g);
    assert(select_sql(m) =~= select_front(m) + where_clause(m.filters) + g);
}

/// The text and the bound values of a statement depend on what the builder
/// was given alone: builders given the same table, fields, joins and
/// filters, in the same order, render the same text and bind the same
/// values in the same order.
pub proof fn lemma_select_deterministic(a: SelectView, b: SelectView)
    requires
        a == b,
    ensures
        select_sql(a) == select_sql(b),
        select_params(a) == select_params(b),
{
}

} // verus!
