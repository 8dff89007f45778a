use metrics_one::insert_meetings::{
    drop_known, prepare_inserts, InsertError, InsertMeetingsRequest, MeetingRecord, SessionRecord,
};
use metrics_one::query_preparer::{SqlType, UtcTimestamp};
use metrics_one::worker::{to_insert_request, Meeting, Meetings, Session};

fn at(seconds: i64) -> Option<UtcTimestamp> {
    Some(UtcTimestamp { seconds, nanos: 0 })
}

fn session(key: i32, start: Option<UtcTimestamp>) -> SessionRecord {
    SessionRecord {
        key,
        kind: "Practice".to_string(),
        name: "Practice 1".to_string(),
        start_date: start,
        end_date: at(1709214600),
        path: "2024/p1/".to_string(),
    }
}

fn meeting(key: i32, sessions: Vec<SessionRecord>) -> MeetingRecord {
    MeetingRecord {
        key,
        number: 1,
        location: "Sakhir".to_string(),
        official_name: "GULF AIR BAHRAIN GRAND PRIX 2024".to_string(),
        name: "Bahrain Grand Prix".to_string(),
        sessions,
    }
}

#[test]
fn meetings_and_sessions_become_two_batches() {
    let request = InsertMeetingsRequest {
        year: 2024,
        meetings: vec![meeting(1229, vec![session(9465, at(1709211000))]), meeting(1230, vec![])],
    };
    let plan = prepare_inserts(&request).unwrap().unwrap();
    assert_eq!(
        plan.meetings.sql(),
        "INSERT INTO meetings (key,number,location,official_name,name,year) \
         VALUES ($1,$2,$3,$4,$5,$6),($7,$8,$9,$10,$11,$12)"
    );
    assert_eq!(plan.meetings.params().len(), 12);
    assert_eq!(plan.meetings.params()[5], SqlType::Int(2024));
    assert_eq!(plan.meetings.params()[6], SqlType::Int(1230));
    let sessions = plan.sessions.unwrap();
    assert_eq!(
        sessions.sql(),
        "INSERT INTO sessions (key,kind,name,start_date,end_date,path,meeting_key) \
         VALUES ($1,$2,$3,$4,$5,$6,$7)"
    );
    assert_eq!(
        sessions.params(),
        &vec![
            SqlType::Int(9465),
            SqlType::Text("Practice".to_string()),
            SqlType::Text("Practice 1".to_string()),
            SqlType::Timestamp(UtcTimestamp { seconds: 1709211000, nanos: 0 }),
            SqlType::Timestamp(UtcTimestamp { seconds: 1709214600, nanos: 0 }),
            SqlType::Text("2024/p1/".to_string()),
            SqlType::Int(1229),
        ]
    );
}

#[test]
fn no_meetings_means_nothing_to_do() {
    let request = InsertMeetingsRequest { year: 2024, meetings: vec![] };
    assert!(prepare_inserts(&request).unwrap().is_none());
}

#[test]
fn meetings_without_sessions_skip_the_session_batch() {
    let request = InsertMeetingsRequest { year: 2024, meetings: vec![meeting(1, vec![])] };
    let plan = prepare_inserts(&request).unwrap().unwrap();
    assert!(plan.sessions.is_none());
}

#[test]
fn missing_or_unrepresentable_dates_are_refused() {
    let missing = InsertMeetingsRequest { year: 2024, meetings: vec![meeting(1, vec![session(2, None)])] };
    assert_eq!(prepare_inserts(&missing).err(), Some(InsertError::InvalidTimestamp));
    let far = InsertMeetingsRequest { year: 2024, meetings: vec![meeting(1, vec![session(2, at(i64::MAX))])] };
    assert_eq!(prepare_inserts(&far).err(), Some(InsertError::InvalidTimestamp));
    let bad_nanos = InsertMeetingsRequest {
        year: 2024,
        meetings: vec![meeting(
            1,
            vec![session(2, Some(UtcTimestamp { seconds: 1709211000, nanos: 2_000_000_000 }))],
        )],
    };
    assert_eq!(prepare_inserts(&bad_nanos).err(), Some(InsertError::InvalidTimestamp));
}

#[test]
fn known_meetings_are_dropped_in_order() {
    let mut request = InsertMeetingsRequest {
        year: 2024,
        meetings: vec![meeting(1, vec![]), meeting(2, vec![]), meeting(3, vec![]), meeting(4, vec![])],
    };
    drop_known(&mut request, &vec![2, 4, 9]);
    let keys: Vec<i32> = request.meetings.iter().map(|m| m.key).collect();
    assert_eq!(keys, vec![1, 3]);
    assert_eq!(request.year, 2024);
}

#[test]
fn published_dates_are_moved_into_utc() {
    let season = Meetings {
        year: 2024,
        meetings: vec![Meeting {
            key: 1229,
            number: 1,
            location: "Sakhir".to_string(),
            official_name: "GULF AIR BAHRAIN GRAND PRIX 2024".to_string(),
            name: "Bahrain Grand Prix".to_string(),
            sessions: vec![
                Session {
                    key: 9465,
                    kind: "Practice".to_string(),
                    name: "Practice 1".to_string(),
                    start_date: Some(UtcTimestamp { seconds: 1709222400, nanos: 5 }),
                    end_date: None,
                    gmt_offset: 10800,
                    path: "p1/".to_string(),
                },
                Session {
                    key: 9466,
                    kind: "Race".to_string(),
                    name: "Race".to_string(),
                    start_date: Some(UtcTimestamp { seconds: i64::MIN, nanos: 0 }),
                    end_date: at(100),
                    gmt_offset: 1,
                    path: "r/".to_string(),
                },
            ],
        }],
    };
    let request = to_insert_request(season);
    assert_eq!(request.year, 2024);
    assert_eq!(request.meetings.len(), 1);
    let m = &request.meetings[0];
    assert_eq!(m.key, 1229);
    assert_eq!(m.sessions[0].start_date, Some(UtcTimestamp { seconds: 1709211600, nanos: 5 }));
    assert_eq!(m.sessions[0].end_date, None);
    assert_eq!(m.sessions[1].start_date, None);
    assert_eq!(m.sessions[1].end_date, at(99));
    assert_eq!(m.sessions[1].key, 9466);
}
