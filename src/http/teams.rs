//! `GET /{year}/teams` and `GET /{year}/teams/{name}`.
use vstd::prelude::*;

use super::{expands, expands_of, QueryParams};
use crate::models::{
    driver_fields, driver_table, team_fields, team_table, teams_images_fields, teams_images_table,
    Driver, Team, TeamsImages,
};
use crate::query_preparer::select::{
    FilterView, JoinRow, JoinRowView, JoinType, JoinView, RowShape, RowType, SelectQuery,
};
use crate::query_preparer::{SqlOperator, SqlType};
use crate::text::text_eq;
use crate::utils::get_year;

verus! {

/// The query string of the teams endpoints.
#[derive(Clone, Debug)]
pub struct TeamsParams {
    pub year: Option<i32>,
    pub name: Option<String>,
    pub expand: Option<String>,
}

impl TeamsParams {
    /// The names listed in `expand`, in order.
    pub fn get_expands(&self) -> (r: Vec<&str>)
        ensures
            r@.map_values(|p: &str| p@) == expands_of(self.expand),
    {
        expands(&self.expand)
    }
}

impl QueryParams for TeamsParams {
    open spec fn expand_param(&self) -> Option<String> {
        self.expand
    }

    fn get_expands(&self) -> (r: Vec<&str>) {
        TeamsParams::get_expands(self)
    }
}

/// `drivers`: all drivers of the team, as an array, grouped by team.
pub open spec fn drivers_join() -> JoinView {
    JoinView {
        join_type: JoinType::LeftJoin,
        row: JoinRowView {
            shape: RowShape::AggBy(team_table(), "id"@),
            table: driver_table(),
            fields: driver_fields(),
            alias: "drivers"@,
        },
        key_1: (team_table(), "id"@),
        key_2: (driver_table(), "team_id"@),
    }
}

/// `images`: the team's pictures, as one object.
pub open spec fn images_join() -> JoinView {
    JoinView {
        join_type: JoinType::LeftJoin,
        row: JoinRowView {
            shape: RowShape::Single,
            table: teams_images_table(),
            fields: teams_images_fields(),
            alias: "images"@,
        },
        key_1: (team_table(), "id"@),
        key_2: (teams_images_table(), "team_id"@),
    }
}

/// The joins that the expanded names ask for, in order; unknown names are
/// ignored.
pub open spec fn team_joins(names: Seq<Seq<char>>) -> Seq<JoinView>
    decreases names.len(),
{
    if names.len() == 0 {
        Seq::empty()
    } else {
        let rest = team_joins(names.drop_last());
        if names.last() == "drivers"@ {
            rest.push(drivers_join())
        } else if names.last() == "images"@ {
            rest.push(images_join())
        } else {
            rest
        }
    }
}

/// The teams of the asked year, with the asked relations, filtered by name
/// (the `url` column) when one is given.
pub fn prepare_query(params: &TeamsParams) -> (r: SelectQuery)
    ensures
        r.wf(),
        r@.table == team_table(),
        r@.fields == team_fields(),
        r@.joins == team_joins(expands_of(params.expand)),
        r@.filters.len() == if params.name is Some { 2int } else { 1int },
        r@.filters[0].key == (team_table(), "year"@),
        r@.filters[0].operator == SqlOperator::Eq,
        r@.filters[0].value is Int,
        params.year matches Some(y) ==> r@.filters[0].value == SqlType::Int(y),
        params.name matches Some(n) ==> r@.filters[1] == (FilterView {
            key: (team_table(), "url"@),
            operator: SqlOperator::Eq,
            value: SqlType::Text(n),
        }),
{
    let mut query = SelectQuery::new(Team::sql_table(), Team::sql_fields());
    let names = params.get_expands();
    let ghost all = names@.map_values(|p: &str| p@);
    let mut i: usize = 0;
    while i < names.len()
        invariant
            i <= names@.len(),
            all == names@.map_values(|p: &str| p@),
            all == expands_of(params.expand),
            query.wf(),
            query@.table == team_table(),
            query@.fields == team_fields(),
            query@.filters.len() == 0,
            query@.joins == team_joins(all.take(i as int)),
        decreases names@.len() - i,
    {
        assert(all.take(i + 1).drop_last() =~= all.take(i as int));
        assert(all.take(i + 1).last() == names@[i as int]@);
        if text_eq(names[i], "drivers") {
            let row = JoinRow::new(
                RowType::AggBy(Team::sql_table().to_owned(), "id".to_owned()),
                Driver::sql_table(),
                Driver::sql_fields(),
                "drivers",
            );
            query.add_join(
                JoinType::LeftJoin,
                row,
                (Team::sql_table(), "id"),
                (Driver::sql_table(), "team_id"),
            );
        } else if text_eq(names[i], "images") {
            let row = JoinRow::new(
                RowType::Single,
                TeamsImages::sql_table(),
                TeamsImages::sql_fields(),
                "images",
            );
            query.add_join(
                JoinType::LeftJoin,
                row,
                (Team::sql_table(), "id"),
                (TeamsImages::sql_table(), "team_id"),
            );
        }
        i = i + 1;
    }
    assert(all.take(names@.len() as int) =~= all);
    query.add_filter((Team::sql_table(), "year"), SqlOperator::Eq, SqlType::Int(get_year(params.year)));
    if let Some(name) = &params.name {
        query.add_filter((Team::sql_table(), "url"), SqlOperator::Eq, SqlType::Text(name.clone()));
    }
    query
}

} // verus!
