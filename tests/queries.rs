use metrics_one::http::drivers::{self, DriversParams};
use metrics_one::http::meetings::{self, MeetingsParams, MeetingsReply, PublishOutcome};
use metrics_one::http::sessions::{self, SessionsParams};
use metrics_one::http::teams::{self, TeamsParams};
use metrics_one::http::QueryParams;
use metrics_one::query_preparer::SqlType;

#[test]
fn drivers_with_team_and_images() {
    let params = DriversParams {
        year: Some(2024),
        name: Some("max_verstappen".to_string()),
        expand: Some("team,images".to_string()),
    };
    let st = drivers::prepare_query(&params).build();
    assert_eq!(
        st.sql(),
        "SELECT drivers.first_name,drivers.last_name,drivers.url,drivers.number,drivers.year,\
         jsonb_build_object('name',teams.name,'url',teams.url,'colour',teams.colour,'year',teams.year) AS team,\
         jsonb_build_object('headshot_url',drivers_images.headshot_url,'profile_url',drivers_images.profile_url) AS images \
         FROM drivers LEFT JOIN teams ON drivers.team_id=teams.id \
         LEFT JOIN drivers_images ON drivers.id=drivers_images.driver_id \
         WHERE drivers.year=$1 AND drivers.url=$2"
    );
    assert_eq!(
        st.params(),
        &vec![SqlType::Int(2024), SqlType::Text("max_verstappen".to_string())]
    );
}

#[test]
fn drivers_ignore_unknown_expands() {
    let params = DriversParams { year: Some(2023), name: None, expand: Some("nothing".to_string()) };
    let st = drivers::prepare_query(&params).build();
    assert_eq!(
        st.sql(),
        "SELECT drivers.first_name,drivers.last_name,drivers.url,drivers.number,drivers.year \
         FROM drivers WHERE drivers.year=$1"
    );
    assert_eq!(st.params(), &vec![SqlType::Int(2023)]);
}

#[test]
fn teams_with_drivers_and_images_group_by_team() {
    let params = TeamsParams { year: Some(2024), name: None, expand: Some("drivers,images".to_string()) };
    let st = teams::prepare_query(&params).build();
    assert_eq!(
        st.sql(),
        "SELECT teams.name,teams.url,teams.colour,teams.year,\
         jsonb_agg(jsonb_build_object('first_name',drivers.first_name,'last_name',drivers.last_name,'url',drivers.url,'number',drivers.number,'year',drivers.year)) AS drivers,\
         jsonb_agg(jsonb_build_object('car_url',teams_images.car_url,'logo_url',teams_images.logo_url))->0 AS images \
         FROM teams LEFT JOIN drivers ON teams.id=drivers.team_id \
         LEFT JOIN teams_images ON teams.id=teams_images.team_id \
         WHERE teams.year=$1 GROUP BY teams.id"
    );
}

#[test]
fn teams_by_name() {
    let params = TeamsParams { year: Some(2022), name: Some("ferrari".to_string()), expand: None };
    let st = teams::prepare_query(&params).build();
    assert_eq!(
        st.sql(),
        "SELECT teams.name,teams.url,teams.colour,teams.year FROM teams \
         WHERE teams.year=$1 AND teams.url=$2"
    );
    assert_eq!(st.params(), &vec![SqlType::Int(2022), SqlType::Text("ferrari".to_string())]);
}

#[test]
fn meetings_with_sessions_key_and_location() {
    let params = MeetingsParams {
        key: Some(1229),
        location: Some("%bahrain%".to_string()),
        year: Some(2024),
        expand: Some("sessions".to_string()),
    };
    let st = meetings::prepare_query(&params).build();
    assert_eq!(
        st.sql(),
        "SELECT meetings.key,meetings.number,meetings.location,meetings.official_name,meetings.name,meetings.year,\
         jsonb_agg(jsonb_build_object('key',sessions.key,'kind',sessions.kind,'name',sessions.name,'start_date',sessions.start_date,'end_date',sessions.end_date,'path',sessions.path,'meeting_key',sessions.meeting_key)) AS sessions \
         FROM meetings LEFT JOIN sessions ON meetings.key=sessions.meeting_key \
         WHERE meetings.year=$1 AND meetings.key=$2 AND meetings.location ILIKE $3 GROUP BY meetings.id"
    );
    assert_eq!(
        st.params(),
        &vec![SqlType::Int(2024), SqlType::Int(1229), SqlType::Text("%bahrain%".to_string())]
    );
}

#[test]
fn meetings_default_to_the_current_year() {
    let params = MeetingsParams { key: None, location: None, year: None, expand: None };
    let year = params.get_year();
    assert!(year >= 2024);
    let st = meetings::prepare_query(&params).build();
    assert_eq!(st.params(), &vec![SqlType::Int(year)]);
}

#[test]
fn sessions_filtered_by_meeting() {
    let st = sessions::prepare_query(&SessionsParams { key: None, meeting: Some(1229) }).build();
    assert_eq!(
        st.sql(),
        "SELECT sessions.key,sessions.kind,sessions.name,sessions.start_date,sessions.end_date,sessions.path,sessions.meeting_key \
         FROM sessions WHERE sessions.meeting_key=$1"
    );
    assert_eq!(st.params(), &vec![SqlType::Int(1229)]);
    let all = sessions::prepare_query(&SessionsParams { key: Some(7), meeting: Some(8) }).build();
    assert!(all.sql().ends_with("WHERE sessions.key=$1 AND sessions.meeting_key=$2"));
}

#[test]
fn expands_split_on_commas() {
    let p = DriversParams { year: None, name: None, expand: Some("team,images".to_string()) };
    assert_eq!(p.get_expands(), vec!["team", "images"]);
    let none = TeamsParams { year: None, name: None, expand: None };
    assert!(none.get_expands().is_empty());
    let empty = MeetingsParams { key: None, location: None, year: None, expand: Some(String::new()) };
    assert_eq!(empty.get_expands(), vec![""]);
    let trailing = DriversParams { year: None, name: None, expand: Some("team,".to_string()) };
    assert_eq!(trailing.get_expands(), vec!["team", ""]);
    assert_eq!(QueryParams::get_expands(&p), vec!["team", "images"]);
}

#[test]
fn meetings_fetch_decision() {
    let plain = MeetingsParams { key: None, location: None, year: Some(2020), expand: None };
    assert!(!meetings::needs_fetch(&plain, 2020, 3, 2025));
    assert!(meetings::needs_fetch(&plain, 2020, 0, 2025));
    assert!(meetings::needs_fetch(&plain, 2025, 5, 2025));
    let filtered = MeetingsParams { key: Some(1), location: None, year: Some(2025), expand: None };
    assert!(!meetings::needs_fetch(&filtered, 2025, 0, 2025));
    assert_eq!(meetings::reply_after_publish(PublishOutcome::NotSent, 3), MeetingsReply::Empty);
    assert_eq!(meetings::reply_after_publish(PublishOutcome::Unconfirmed, 0), MeetingsReply::Found);
    assert_eq!(meetings::reply_after_publish(PublishOutcome::Confirmed, 2), MeetingsReply::Found);
    assert_eq!(meetings::reply_after_publish(PublishOutcome::Confirmed, 0), MeetingsReply::Accepted);
}
