//! The `INSERT` builder: one statement for a batch of rows of the same
//! columns.
use vstd::prelude::*;

use super::{to_strings, views, SqlType, Statement};
use crate::sql_text::{
    concat, join_sep, lemma_concat_take, lemma_concat_uniform, lemma_join_sep_take, placeholder,
    push_placeholder,
};

verus! {

/// A row whose number of values differs from the number of columns.
#[derive(Clone, Copy, Debug, PartialEq, Eq, Structural)]
pub struct ArityError {
    pub expected: usize,
    pub given: usize,
}

/// What an `INSERT` builder holds: the table, its columns and the rows
/// accepted so far, in order.
pub struct InsertView {
    pub table: Seq<char>,
    pub fields: Seq<Seq<char>>,
    pub rows: Seq<Seq<SqlType>>,
}

/// Accumulates rows for a multi-row `INSERT`; `build` renders them.
pub struct InsertQuery {
    table: String,
    fields: Vec<String>,
    nb_fields: usize,
    values: Vec<Vec<SqlType>>,
}

impl View for InsertQuery {
    type V = InsertView;

    closed spec fn view(&self) -> InsertView {
        InsertView {
            table: self.table@,
            fields: views(self.fields@),
            rows: self.values@.map_values(|r: Vec<SqlType>| r@),
        }
    }
}

/// Every row has one value per column.
pub open spec fn rows_fit(m: InsertView) -> bool {
    forall|i: int| 0 <= i < m.rows.len() ==> (#[trigger] m.rows[i]).len() == m.fields.len()
}

/// The placeholders `($n,...)` of row `i` (from 0) of rows of `f` values.
pub open spec fn row_group(i: int, f: int) -> Seq<char> {
    "("@ + join_sep(Seq::new(f as nat, |j: int| placeholder((i * f + j + 1) as nat)), ","@)
        + ")"@
}

/// The placeholder groups of `k` rows of `f` values.
pub open spec fn row_groups(k: int, f: int) -> Seq<Seq<char>> {
    Seq::new(k as nat, |i: int| row_group(i, f))
}

/// `INSERT INTO t (f1,f2,...) VALUES `
pub open spec fn insert_head(m: InsertView) -> Seq<char> {
    "INSERT INTO "@ + m.table + " ("@ + join_sep(m.fields, ","@) + ") VALUES "@
}

/// The SQL text of the statement that `m` describes.
pub open spec fn insert_sql(m: InsertView) -> Seq<char> {
    insert_head(m) + join_sep(row_groups(m.rows.len() as int, m.fields.len() as int), ","@)
}

/// The values bound by the statement: the rows' values, row after row.
pub open spec fn insert_params(m: InsertView) -> Seq<SqlType> {
    concat(m.rows)
}

fn push_fields(out: &mut String, fields: &Vec<String>)
    ensures
        final(out)@ == old(out)@ + join_sep(views(fields@), ","@),
{
    let ghost start = out@;
    let ghost parts = views(fields@);
    let mut i: usize = 0;
    while i < fields.len()
        invariant
            i <= fields@.len(),
            parts == views(fields@),
            out@ == start + join_sep(parts.take(i as int), ","@),
        decreases fields@.len() - i,
    {
        proof {
            lemma_join_sep_take(parts, ","@, i as int);
        }
        if i > 0 {
            out.append(",");
        }
        out.append(fields[i].as_str());
        assert(out@ =~= start + join_sep(parts.take(i + 1), ","@));
        i = i + 1;
    }
    assert(parts.take(fields@.len() as int) =~= parts);
}

impl InsertQuery {
    /// Every accepted row has one value per column.
    pub closed spec fn wf(&self) -> bool {
        &&& self.nb_fields == self.fields@.len()
        &&& rows_fit(self@)
    }

    pub fn new(table: &str, fields: Vec<&str>) -> (r: Self)
        ensures
            r.wf(),
            r@.table == table@,
            r@.fields == fields@.map_values(|s: &str| s@),
            r@.rows == Seq::<Seq<SqlType>>::empty(),
    {
        let owned = to_strings(&fields);
        let nb_fields = owned.len();
        let r = InsertQuery { table: table.to_owned(), fields: owned, nb_fields, values: Vec::new() };
        assert(r@.fields =~= fields@.map_values(|s: &str| s@));
        assert(r@.rows =~= Seq::<Seq<SqlType>>::empty());
        r
    }

    /// The number of rows accepted so far.
    pub fn row_count(&self) -> (r: usize)
        ensures
            r == self@.rows.len(),
    {
        self.values.len()
    }

    /// Appends a row, when it has one value per column.
    pub fn add_values(&mut self, values: Vec<SqlType>) -> (r: Result<(), ArityError>)
        requires
            old(self).wf(),
        ensures
            final(self).wf(),
            r is Ok <==> values@.len() == old(self)@.fields.len(),
            r is Ok ==> final(self)@ == (InsertView {
                rows: old(self)@.rows.push(values@),
                ..old(self)@
            }),
            r is Err ==> final(self)@ == old(self)@,
            r matches Err(e) ==> e.expected == old(self)@.fields.len() && e.given == values@.len(),
    {
        if values.len() != self.nb_fields {
            return Err(ArityError { expected: self.nb_fields, given: values.len() });
        }
        let ghost old_rows = self@.rows;
        let ghost row = values@;
        self.values.push(values);
        assert(self@.rows =~= old_rows.push(row));
        Ok(())
    }

    /// Renders the statement: its SQL text and its bound values, row after
    /// row. A batch without rows renders no valid statement.
    pub fn build(&self) -> (r: Statement)
        requires
            self.wf(),
            self@.rows.len() > 0,
        ensures
            r@.sql == insert_sql(self@),
            r@.params == insert_params(self@),
    {
        let ghost m = self@;
        let ghost f = m.fields.len() as int;
        let mut out = String::new();
        out.append("INSERT INTO ");
        out.append(self.table.as_str());
        out.append(" (");
        push_fields(&mut out, &self.fields);
        out.append(") VALUES ");
        let ghost head = out@;
        assert(head =~= insert_head(m));
        let ghost groups = row_groups(m.rows.len() as int, f);

        let mut params: Vec<SqlType> = Vec::new();
        let mut i: usize = 0;
        while i < self.values.len()
            invariant
                i <= self.values@.len(),
                m == self@,
                self.wf(),
                f == m.fields.len(),
                groups == row_groups(m.rows.len() as int, f),
                out@ == head + join_sep(groups.take(i as int), ","@),
                params@ == concat(m.rows.take(i as int)),
            decreases self.values@.len() - i,
        {
            proof {
                lemma_join_sep_take(groups, ","@, i as int);
                lemma_concat_take(m.rows, i as int);
                lemma_concat_uniform(m.rows.take(i as int), f);
            }
            if i > 0 {
                out.append(",");
            }
            out.append("(");
            let ghost open_at = out@;
            let row = &self.values[i];
            assert(row@ == m.rows[i as int]);
            let ghost entries = Seq::new(f as nat, |j: int| placeholder((i * f + j + 1) as nat));
            let ghost done = params@;
            let mut j: usize = 0;
            while j < row.len()
                invariant
                    j <= row@.len(),
                    row@.len() == f,
                    done.len() == i * f,
                    entries == Seq::new(f as nat, |j: int| placeholder((i * f + j + 1) as nat)),
                    out@ == open_at + join_sep(entries.take(j as int), ","@),
                    params@ == done + row@.take(j as int),
                decreases row@.len() - j,
            {
                proof {
                    lemma_join_sep_take(entries, ","@, j as int);
                }
                if j > 0 {
                    out.append(",");
                }
                params.push(row[j].cloned());
                push_placeholder(&mut out, params.len());
                assert(params@ =~= done + row@.take(j + 1));
                assert(out@ =~= open_at + join_sep(entries.take(j + 1), ","@));
                j = j + 1;
            }
            assert(entries.take(f) =~= entries);
            assert(row@.take(f) =~= row@);
            out.append(")");
            assert(groups[i as int] == row_group(i as int, f));
            assert(out@ =~= head + join_sep(groups.take(i + 1), ","@));
            i = i + 1;
        }
        assert(groups.take(m.rows.len() as int) =~= groups);
        assert(m.rows.take(m.rows.len() as int) =~= m.rows);
        Statement::from_parts(out, params)
    }
}

// ---------------------------------------------------------------------------
// Properties of the rendered statements.
/// `k` rows of `f` values render `k` groups of `f` placeholders, numbered
/// from `$1` row after row, and bind `k * f` values, value `j` of row `i`
/// at position `i * f + j`.
pub proof fn lemma_insert_layout(m: InsertView)
    requires
        rows_fit(m),
    ensures
        ({
            let k = m.rows.len() as int;
            let f = m.fields.len() as int;
            &&& insert_sql(m) == insert_head(m) + join_sep(row_groups(k, f), ","@)
            &&& row_groups(k, f).len() == k
            &&& forall|i: int|
                0 <= i < k ==> #[trigger] row_groups(k, f)[i] == "("@ + join_sep(
                    Seq::new(f as nat, |j: int| "$"@ + crate::sql_text::decimal((i * f + j + 1) as nat)),
                    ","@,
                ) + ")"@
            &&& insert_params(m).len() == k * f
            &&& forall|i: int, j: int|
                0 <= i < k && 0 <= j < f ==> insert_params(m)[i * f + j] == #[trigger] m.rows[i][j]
        }),
{
    let k = m.rows.len() as int;
    let f = m.fields.len() as int;
    lemma_concat_uniform(m.rows, f);
    assert forall|i: int| 0 <= i < k implies #[trigger] row_groups(k, f)[i] == "("@ + join_sep(
        Seq::new(f as nat, |j: int| "$"@ + crate::sql_text::decimal((i * f + j + 1) as nat)),
        ","@,
    ) + ")"@ by {
        assert(Seq::new(f as nat, |j: int| placeholder((i * f + j + 1) as nat)) =~= Seq::new(
            f as nat,
            |j: int| "$"@ + crate::sql_text::decimal((i * f + j + 1) as nat),
        ));
    }
}

/// Builders given the same table, fields and rows, in the same order,
/// render the same text and bind the same values in the same order.
pub proof fn lemma_insert_deterministic(a: InsertView, b: InsertView)
    requires
        a == b,
    ensures
        insert_sql(a) == insert_sql(b),
        insert_params(a) == insert_params(b),
{
}

} // verus!
