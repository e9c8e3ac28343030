//! The record of an achievement as the database keeps it: its title, the
//! local date and time written day first, and the Unix time.
use vstd::prelude::*;

verus! {

/// `chrono::NaiveDateTime`, a date and time of day, carried through opaquely.
#[verifier::external_type_specification]
#[verifier::external_body]
pub struct ExNaiveDateTime(chrono::NaiveDateTime);

/// How the date of an achievement is written: day/month/year and the time.
pub const CONQUEST_DATE_FORMAT: &'static str = "%d/%m/%Y %H:%M:%S";

/// The statement that creates the table of achievements when it is missing.
pub const CREATE_TABLE_SQL: &'static str = "CREATE TABLE IF NOT EXISTS conquest (\n            id INTEGER PRIMARY KEY,\n            name TEXT NOT NULL,\n            date TEXT,\n            timestamp INTEGER\n        )";

/// The statement that records one achievement: title, date and Unix time.
pub const INSERT_SQL: &'static str = "INSERT INTO conquest (name, date, timestamp) VALUES (?1, ?2, ?3)";

/// The text that `NaiveDateTime::format(fmt).to_string()` gives.
pub uninterp spec fn formatted_time(time: chrono::NaiveDateTime, fmt: Seq<char>) -> Seq<char>;

/// `NaiveDateTime::format` written out with `to_string`; the contract only
/// names its result. It is called with the one format string of this crate,
/// whose specifiers are all valid (an invalid one makes `to_string` panic).
#[verifier::external_body]
fn format_time(time: &chrono::NaiveDateTime, fmt: &str) -> (r: String)
    requires
        fmt@ == CONQUEST_DATE_FORMAT@,
    ensures
        r@ == formatted_time(*time, fmt@),
{
    time.format(fmt).to_string()
}

/// One row of the table of achievements.
pub struct ConquestRecord {
    pub name: String,
    pub date: String,
    pub timestamp: i64,
}

/// The row for the achievement `name` won at local time `local_time`, Unix
/// time `timestamp`.
pub fn conquest_record(name: &str, local_time: &chrono::NaiveDateTime, timestamp: i64) -> (r:
    ConquestRecord)
    ensures
        r.name@ == name@,
        r.date@ == formatted_time(*local_time, CONQUEST_DATE_FORMAT@),
        r.timestamp == timestamp,
{
    ConquestRecord {
        name: name.to_owned(),
        date: format_time(local_time, CONQUEST_DATE_FORMAT),
        timestamp,
    }
}

} // verus!
