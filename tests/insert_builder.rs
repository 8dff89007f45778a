use metrics_one::query_preparer::insert::{ArityError, InsertQuery};
use metrics_one::query_preparer::{SqlType, UtcTimestamp};

#[test]
fn batch_renders_row_groups_in_row_major_order() {
    let mut q = InsertQuery::new("meetings", vec!["key", "year"]);
    assert!(q.add_values(vec![SqlType::Int(1), SqlType::Int(2024)]).is_ok());
    assert!(q.add_values(vec![SqlType::Int(2), SqlType::Int(2024)]).is_ok());
    let st = q.build();
    assert_eq!(st.sql(), "INSERT INTO meetings (key,year) VALUES ($1,$2),($3,$4)");
    assert_eq!(
        st.params(),
        &vec![SqlType::Int(1), SqlType::Int(2024), SqlType::Int(2), SqlType::Int(2024)]
    );
}

#[test]
fn wrong_arity_is_refused_and_leaves_the_batch() {
    let mut q = InsertQuery::new("meetings", vec!["key", "year"]);
    assert_eq!(q.add_values(vec![SqlType::Int(1), SqlType::Int(2024)]), Ok(()));
    assert_eq!(q.row_count(), 1);
    assert_eq!(
        q.add_values(vec![SqlType::Int(2)]),
        Err(ArityError { expected: 2, given: 1 })
    );
    assert_eq!(
        q.add_values(vec![SqlType::Int(2), SqlType::Int(3), SqlType::Int(4)]),
        Err(ArityError { expected: 2, given: 3 })
    );
    assert_eq!(q.row_count(), 1);
    assert_eq!(q.add_values(vec![SqlType::Int(3), SqlType::Int(2025)]), Ok(()));
    assert_eq!(q.row_count(), 2);
    let st = q.build();
    assert_eq!(st.sql(), "INSERT INTO meetings (key,year) VALUES ($1,$2),($3,$4)");
    assert_eq!(st.params()[2], SqlType::Int(3));
}

#[test]
fn three_rows_of_three_values() {
    let mut q = InsertQuery::new("sessions", vec!["key", "name", "start_date"]);
    let at = UtcTimestamp { seconds: 1709391600, nanos: 0 };
    for k in 0..3 {
        q.add_values(vec![SqlType::Int(k), SqlType::Text(format!("s{}", k)), SqlType::Timestamp(at)])
            .unwrap();
    }
    let st = q.build();
    assert_eq!(
        st.sql(),
        "INSERT INTO sessions (key,name,start_date) VALUES ($1,$2,$3),($4,$5,$6),($7,$8,$9)"
    );
    assert_eq!(st.params().len(), 9);
    assert_eq!(st.params()[4], SqlType::Text("s1".to_string()));
    assert_eq!(st.params()[8], SqlType::Timestamp(at));
}

#[test]
fn building_an_insert_twice_gives_the_same_statement() {
    let mut q = InsertQuery::new("t", vec!["a"]);
    q.add_values(vec![SqlType::Text("x".to_string())]).unwrap();
    let a = q.build();
    let b = q.build();
    assert_eq!(a.sql(), b.sql());
    assert_eq!(a.params(), b.params());
}
