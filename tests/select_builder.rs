use metrics_one::query_preparer::select::{JoinRow, JoinType, RowType, SelectQuery, SqlKey};
use metrics_one::query_preparer::{SqlOperator, SqlType};

#[test]
fn plain_select_lists_qualified_fields() {
    let q = SelectQuery::new("drivers", vec!["url", "year"]);
    let st = q.build();
    assert_eq!(st.sql(), "SELECT drivers.url,drivers.year FROM drivers");
    assert!(st.params().is_empty());
}

#[test]
fn plain_select_without_fields() {
    let q = SelectQuery::new("drivers", vec![]);
    assert_eq!(q.build().sql(), "SELECT  FROM drivers");
}

#[test]
fn filters_are_anded_in_insertion_order() {
    let mut q = SelectQuery::new("meetings", vec!["key"]);
    q.add_filter(("meetings", "year"), SqlOperator::Eq, SqlType::Int(2024));
    q.add_filter(("meetings", "number"), SqlOperator::Sup, SqlType::Int(3));
    q.add_filter(("meetings", "number"), SqlOperator::Inf, SqlType::Int(9));
    q.add_filter(("meetings", "location"), SqlOperator::ILike, SqlType::Text("%sakhir%".to_string()));
    let st = q.build();
    assert_eq!(
        st.sql(),
        "SELECT meetings.key FROM meetings WHERE meetings.year=$1 AND meetings.number>$2 \
         AND meetings.number<$3 AND meetings.location ILIKE $4"
    );
    assert_eq!(
        st.params(),
        &vec![
            SqlType::Int(2024),
            SqlType::Int(3),
            SqlType::Int(9),
            SqlType::Text("%sakhir%".to_string())
        ]
    );
}

#[test]
fn placeholders_past_nine_have_two_digits() {
    let mut q = SelectQuery::new("t", vec!["a"]);
    for i in 0..11 {
        q.add_filter(("t", "a"), SqlOperator::Eq, SqlType::Int(i));
    }
    let st = q.build();
    assert!(st.sql().ends_with("t.a=$9 AND t.a=$10 AND t.a=$11"));
    assert_eq!(st.params().len(), 11);
    assert_eq!(st.params()[10], SqlType::Int(10));
}

#[test]
fn single_join_without_aggregate_is_a_plain_object() {
    let mut q = SelectQuery::new("drivers", vec!["url"]);
    q.add_join(
        JoinType::LeftJoin,
        JoinRow::new(RowType::Single, "teams", vec!["name", "colour"], "team"),
        ("drivers", "team_id"),
        ("teams", "id"),
    );
    let st = q.build();
    assert_eq!(
        st.sql(),
        "SELECT drivers.url,jsonb_build_object('name',teams.name,'colour',teams.colour) AS team \
         FROM drivers LEFT JOIN teams ON drivers.team_id=teams.id"
    );
    assert!(!st.sql().contains("GROUP BY"));
    assert!(!st.sql().contains("jsonb_agg"));
}

#[test]
fn aggregated_join_groups_and_wraps_single_joins() {
    let mut q = SelectQuery::new("teams", vec!["name"]);
    q.add_join(
        JoinType::InnerJoin,
        JoinRow::new(RowType::Single, "teams_images", vec!["logo_url"], "images"),
        ("teams", "id"),
        ("teams_images", "team_id"),
    );
    q.add_join(
        JoinType::LeftJoin,
        JoinRow::new(RowType::AggBy("teams".to_string(), "id".to_string()), "drivers", vec!["url"], "drivers"),
        ("teams", "id"),
        ("drivers", "team_id"),
    );
    q.add_join(
        JoinType::RightJoin,
        JoinRow::new(RowType::AggBy("teams".to_string(), "id".to_string()), "cars", vec!["model"], "cars"),
        ("teams", "id"),
        ("cars", "team_id"),
    );
    q.add_join(
        JoinType::LeftJoin,
        JoinRow::new(RowType::AggBy("teams".to_string(), "year".to_string()), "staff", vec!["role"], "staff"),
        ("teams", "id"),
        ("staff", "team_id"),
    );
    q.add_filter(("teams", "year"), SqlOperator::Eq, SqlType::Int(2024));
    let st = q.build();
    assert_eq!(
        st.sql(),
        "SELECT teams.name,\
         jsonb_agg(jsonb_build_object('logo_url',teams_images.logo_url))->0 AS images,\
         jsonb_agg(jsonb_build_object('url',drivers.url)) AS drivers,\
         jsonb_agg(jsonb_build_object('model',cars.model)) AS cars,\
         jsonb_agg(jsonb_build_object('role',staff.role)) AS staff \
         FROM teams JOIN teams_images ON teams.id=teams_images.team_id \
         LEFT JOIN drivers ON teams.id=drivers.team_id \
         RIGHT JOIN cars ON teams.id=cars.team_id \
         LEFT JOIN staff ON teams.id=staff.team_id \
         WHERE teams.year=$1 GROUP BY teams.id,teams.year"
    );
    assert_eq!(st.sql().matches("GROUP BY").count(), 1);
    assert_eq!(st.params(), &vec![SqlType::Int(2024)]);
}

#[test]
fn building_twice_gives_the_same_statement() {
    let make = || {
        let mut q = SelectQuery::new("meetings", vec!["key", "name"]);
        q.add_join(
            JoinType::LeftJoin,
            JoinRow::new(RowType::AggBy("meetings".to_string(), "id".to_string()), "sessions", vec!["key"], "sessions"),
            ("meetings", "key"),
            ("sessions", "meeting_key"),
        );
        q.add_filter(("meetings", "year"), SqlOperator::Eq, SqlType::Int(2023));
        q.add_filter(("meetings", "location"), SqlOperator::ILike, SqlType::Text("%a%".to_string()));
        q
    };
    let a = make();
    let b = make();
    let first = a.build();
    let again = a.build();
    let other = b.build();
    assert_eq!(first.sql(), again.sql());
    assert_eq!(first.sql(), other.sql());
    assert_eq!(first.params(), again.params());
    assert_eq!(first.params(), other.params());
}

#[test]
fn qualified_key_renders_table_dot_field() {
    assert_eq!(SqlKey::new(("drivers", "team_id")).to_text(), "drivers.team_id");
}
