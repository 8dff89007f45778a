//! The stored entities: for each, the columns it is stored in and the
//! name and column list of its table, in declaration order.
use vstd::prelude::*;

use crate::query_preparer::UtcTimestamp;

verus! {

/// A driver of a season.
#[derive(Clone, Debug)]
pub struct Driver {
    pub first_name: String,
    pub last_name: String,
    pub url: String,
    pub number: i32,
    pub year: i32,
}

pub open spec fn driver_table() -> Seq<char> {
    "drivers"@
}

pub open spec fn driver_fields() -> Seq<Seq<char>> {
    seq!["first_name"@, "last_name"@, "url"@, "number"@, "year"@]
}

impl Driver {
    /// The table the rows are stored in.
    pub fn sql_table() -> (r: &'static str)
        ensures
            r@ == driver_table(),
    {
        "drivers"
    }

    /// The stored columns, in declaration order.
    pub fn sql_fields() -> (r: Vec<&'static str>)
        ensures
            r@.map_values(|s: &str| s@) == driver_fields(),
    {
        let r = vec!["first_name", "last_name", "url", "number", "year"];
        assert(r@.map_values(|s: &str| s@) =~= driver_fields());
        r
    }
}

/// A team of a season.
#[derive(Clone, Debug)]
pub struct Team {
    pub name: String,
    pub url: String,
    pub colour: String,
    pub year: i32,
}

pub open spec fn team_table() -> Seq<char> {
    "teams"@
}

pub open spec fn team_fields() -> Seq<Seq<char>> {
    seq!["name"@, "url"@, "colour"@, "year"@]
}

impl Team {
    /// The table the rows are stored in.
    pub fn sql_table() -> (r: &'static str)
        ensures
            r@ == team_table(),
    {
        "teams"
    }

    /// The stored columns, in declaration order.
    pub fn sql_fields() -> (r: Vec<&'static str>)
        ensures
            r@.map_values(|s: &str| s@) == team_fields(),
    {
        let r = vec!["name", "url", "colour", "year"];
        assert(r@.map_values(|s: &str| s@) =~= team_fields());
        r
    }
}

/// A race meeting of a season.
#[derive(Clone, Debug)]
pub struct Meeting {
    pub key: i32,
    pub number: i32,
    pub location: String,
    pub official_name: String,
    pub name: String,
    pub year: i32,
}

pub open spec fn meeting_table() -> Seq<char> {
    "meetings"@
}

pub open spec fn meeting_fields() -> Seq<Seq<char>> {
    seq!["key"@, "number"@, "location"@, "official_name"@, "name"@, "year"@]
}

impl Meeting {
    /// The table the rows are stored in.
    pub fn sql_table() -> (r: &'static str)
        ensures
            r@ == meeting_table(),
    {
        "meetings"
    }

    /// The stored columns, in declaration order.
    pub fn sql_fields() -> (r: Vec<&'static str>)
        ensures
            r@.map_values(|s: &str| s@) == meeting_fields(),
    {
        let r = vec!["key", "number", "location", "official_name", "name", "year"];
        assert(r@.map_values(|s: &str| s@) =~= meeting_fields());
        r
    }
}

/// A session of a meeting.
#[derive(Clone, Debug)]
pub struct Session {
    pub key: i32,
    pub kind: String,
    pub name: String,
    pub start_date: UtcTimestamp,
    pub end_date: UtcTimestamp,
    pub path: String,
    pub meeting_key: i32,
}

pub open spec fn session_table() -> Seq<char> {
    "sessions"@
}

pub open spec fn session_fields() -> Seq<Seq<char>> {
    seq!["key"@, "kind"@, "name"@, "start_date"@, "end_date"@, "path"@, "meeting_key"@]
}

impl Session {
    /// The table the rows are stored in.
    pub fn sql_table() -> (r: &'static str)
        ensures
            r@ == session_table(),
    {
        "sessions"
    }

    /// The stored columns, in declaration order.
    pub fn sql_fields() -> (r: Vec<&'static str>)
        ensures
            r@.map_values(|s: &str| s@) == session_fields(),
    {
        let r = vec!["key", "kind", "name", "start_date", "end_date", "path", "meeting_key"];
        assert(r@.map_values(|s: &str| s@) =~= session_fields());
        r
    }
}

/// The pictures of a driver.
#[derive(Clone, Debug)]
pub struct DriversImages {
    pub headshot_url: String,
    pub profile_url: String,
}

pub open spec fn drivers_images_table() -> Seq<char> {
    "drivers_images"@
}

pub open spec fn drivers_images_fields() -> Seq<Seq<char>> {
    seq!["headshot_url"@, "profile_url"@]
}

impl DriversImages {
    /// The table the rows are stored in.
    pub fn sql_table() -> (r: &'static str)
        ensures
            r@ == drivers_images_table(),
    {
        "drivers_images"
    }

    /// The stored columns, in declaration order.
    pub fn sql_fields() -> (r: Vec<&'static str>)
        ensures
            r@.map_values(|s: &str| s@) == drivers_images_fields(),
    {
        let r = vec!["headshot_url", "profile_url"];
        assert(r@.map_values(|s: &str| s@) =~= drivers_images_fields());
        r
    }
}

/// The pictures of a team.
#[derive(Clone, Debug)]
pub struct TeamsImages {
    pub car_url: String,
    pub logo_url: String,
}

pub open spec fn teams_images_table() -> Seq<char> {
    "teams_images"@
}

pub open spec fn teams_images_fields() -> Seq<Seq<char>> {
    seq!["car_url"@, "logo_url"@]
}

impl TeamsImages {
    /// The table the rows are stored in.
    pub fn sql_table() -> (r: &'static str)
        ensures
            r@ == teams_images_table(),
    {
        "teams_images"
    }

    /// The stored columns, in declaration order.
    pub fn sql_fields() -> (r: Vec<&'static str>)
        ensures
            r@.map_values(|s: &str| s@) == teams_images_fields(),
    {
        let r = vec!["car_url", "logo_url"];
        assert(r@.map_values(|s: &str| s@) =~= teams_images_fields());
        r
    }
}

} // verus!
