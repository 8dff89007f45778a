//! `GET /{year}/drivers` and `GET /{year}/drivers/{name}`.
use vstd::prelude::*;

use super::{expands, expands_of, QueryParams};
use crate::models::{
    driver_fields, driver_table, drivers_images_fields, drivers_images_table, team_fields,
    team_table, Driver, DriversImages, Team,
};
use crate::query_preparer::select::{
    FilterView, JoinRow, JoinRowView, JoinType, JoinView, RowShape, RowType, SelectQuery,
};
use crate::query_preparer::{SqlOperator, SqlType};
use crate::text::text_eq;
use crate::utils::get_year;

verus! {

/// The query string of the drivers endpoints.
#[derive(Clone, Debug)]
pub struct DriversParams {
    pub year: Option<i32>,
    pub name: Option<String>,
    pub expand: Option<String>,
}

impl DriversParams {
    /// The names listed in `expand`, in order.
    pub fn get_expands(&self) -> (r: Vec<&str>)
        ensures
            r@.map_values(|p: &str| p@) == expands_of(self.expand),
    {
        expands(&self.expand)
    }
}

impl QueryParams for DriversParams {
    open spec fn expand_param(&self) -> Option<String> {
        self.expand
    }

    fn get_expands(&self) -> (r: Vec<&str>) {
        DriversParams::get_expands(self)
    }
}

/// `team`: the driver's team, as one object.
pub open spec fn team_join() -> JoinView {
    JoinView {
        join_type: JoinType::LeftJoin,
        row: JoinRowView {
            shape: RowShape::Single,
            table: team_table(),
            fields: team_fields(),
            alias: "team"@,
        },
        key_1: (driver_table(), "team_id"@),
        key_2: (team_table(), "id"@),
    }
}

/// `images`: the driver's pictures, as one object.
pub open spec fn images_join() -> JoinView {
    JoinView {
        join_type: JoinType::LeftJoin,
        row: JoinRowView {
            shape: RowShape::Single,
            table: drivers_images_table(),
            fields: drivers_images_fields(),
            alias: "images"@,
        },
        key_1: (driver_table(), "id"@),
        key_2: (drivers_images_table(), "driver_id"@),
    }
}

/// The joins that the expanded names ask for, in order; unknown names are
/// ignored.
pub open spec fn driver_joins(names: Seq<Seq<char>>) -> Seq<JoinView>
    decreases names.len(),
{
    if names.len() == 0 {
        Seq::empty()
    } else {
        let rest = driver_joins(names.drop_last());
        if names.last() == "team"@ {
            rest.push(team_join())
        } else if names.last() == "images"@ {
            rest.push(images_join())
        } else {
            rest
        }
    }
}

/// The drivers of the asked year, with the asked relations, filtered by
/// name (the `url` column) when one is given.
pub fn prepare_query(params: &DriversParams) -> (r: SelectQuery)
    ensures
        r.wf(),
        r@.table == driver_table(),
        r@.fields == driver_fields(),
        r@.joins == driver_joins(expands_of(params.expand)),
        r@.filters.len() == if params.name is Some { 2int } else { 1int },
        r@.filters[0].key == (driver_table(), "year"@),
        r@.filters[0].operator == SqlOperator::Eq,
        r@.filters[0].value is Int,
        params.year matches Some(y) ==> r@.filters[0].value == SqlType::Int(y),
        params.name matches Some(n) ==> r@.filters[1] == (FilterView {
            key: (driver_table(), "url"@),
            operator: SqlOperator::Eq,
            value: SqlType::Text(n),
        }),
{
    let mut query = SelectQuery::new(Driver::sql_table(), Driver::sql_fields());
    let names = params.get_expands();
    let ghost all = names@.map_values(|p: &str| p@);
    let mut i: usize = 0;
    while i < names.len()
        invariant
            i <= names@.len(),
            all == names@.map_values(|p: &str| p@),
            all == expands_of(params.expand),
            query.wf(),
            query@.table == driver_table(),
            query@.fields == driver_fields(),
            query@.filters.len() == 0,
            query@.joins == driver_joins(all.take(i as int)),
        decreases names@.len() - i,
    {
        assert(all.take(i + 1).drop_last() =~= all.take(i as int));
        assert(all.take(i + 1).last() == names@[i as int]@);
        if text_eq(names[i], "team") {
            let row = JoinRow::new(RowType::Single, Team::sql_table(), Team::sql_fields(), "team");
            query.add_join(
                JoinType::LeftJoin,
                row,
                (Driver::sql_table(), "team_id"),
                (Team::sql_table(), "id"),
            );
        } else if text_eq(names[i], "images") {
            let row = JoinRow::new(
                RowType::Single,
                DriversImages::sql_table(),
                DriversImages::sql_fields(),
                "images",
            );
            query.add_join(
                JoinType::LeftJoin,
                row,
                (Driver::sql_table(), "id"),
                (DriversImages::sql_table(), "driver_id"),
            );
        }
        i = i + 1;
    }
    assert(all.take(names@.len() as int) =~= all);
    query.add_filter((Driver::sql_table(), "year"), SqlOperator::Eq, SqlType::Int(get_year(params.year)));
    if let Some(name) = &params.name {
        query.add_filter((Driver::sql_table(), "url"), SqlOperator::Eq, SqlType::Text(name.clone()));
    }
    query
}

} // verus!
