//! Wall-clock readings as the log writes them, and their place on the
//! timeline. Calendar work is done by the `chrono` crate.

use crate::timing::Instant;
use vstd::pervasive::unreached;
use vstd::prelude::*;

verus! {

/// A reading of the local wall clock, without a time zone. `nanosecond` may
/// exceed 999,999,999 to stand for a leap second, as in `chrono`.
#[derive(Clone, Copy, Debug, PartialEq, Eq, Structural)]
pub struct LocalTime {
    pub year: i32,
    pub month: u32,
    pub day: u32,
    pub hour: u32,
    pub minute: u32,
    pub second: u32,
    pub nanosecond: u32,
}

/// The format in which the log writes its timestamps, as in
/// `2024.04.22 17:55:53`.
pub const TIMESTAMP_FORMAT: &'static str = "%Y.%m.%d %H:%M:%S";

/// What `chrono::NaiveDateTime::parse_from_str` makes of `text` under
/// `format`, by calendar fields; `None` where it reports an error.
pub uninterp spec fn naive_datetime_parse(text: Seq<char>, format: Seq<char>) -> Option<LocalTime>;

/// Calls `chrono::NaiveDateTime::parse_from_str` and reads the fields of the
/// result through `chrono::Datelike` and `chrono::Timelike`. The answer
/// depends on the two texts alone. Only the format of the log is admitted:
/// numbers, literal characters and a space.
#[verifier::external_body]
pub(crate) fn parse_naive_datetime(text: &str, format: &str) -> (parsed: Option<LocalTime>)
    requires
        format@ == TIMESTAMP_FORMAT@,
    ensures
        parsed == naive_datetime_parse(text@, format@),
{
    let t = chrono::NaiveDateTime::parse_from_str(text, format).ok()?;
    Some(
        LocalTime {
            year: chrono::Datelike::year(&t),
            month: chrono::Datelike::month(&t),
            day: chrono::Datelike::day(&t),
            hour: chrono::Timelike::hour(&t),
            minute: chrono::Timelike::minute(&t),
            second: chrono::Timelike::second(&t),
            nanosecond: chrono::Timelike::nanosecond(&t),
        },
    )
}

/// Builds the reading with `chrono::NaiveDate::from_ymd_opt` and
/// `chrono::NaiveDate::and_hms_nano_opt`, calls
/// `chrono::TimeZone::from_local_datetime` on `chrono::Local` and takes the
/// earliest instant that shows this reading, in the milliseconds of
/// `chrono::DateTime::timestamp_millis`. The answer depends on the time zone
/// of the machine, so nothing is claimed of it; there is none where the
/// reading names no date or time, or falls in a gap of the local clock.
#[verifier::external_body]
pub(crate) fn local_to_instant(t: &LocalTime) -> (instant: Option<Instant>) {
    let date = chrono::NaiveDate::from_ymd_opt(t.year, t.month, t.day)?;
    let naive = date.and_hms_nano_opt(t.hour, t.minute, t.second, t.nanosecond)?;
    let mapped = chrono::TimeZone::from_local_datetime(&chrono::Local, &naive);
    mapped.earliest().map(|at| Instant { unix_millis: at.timestamp_millis() })
}

/// The reading that a timestamp of the log stands for.
pub open spec fn timestamp_reading(timestamp: Seq<char>) -> Option<LocalTime> {
    naive_datetime_parse(timestamp, TIMESTAMP_FORMAT@)
}

/// Reads a timestamp of the log. The timestamp must be one that reads; a
/// text of which that is not known goes to `check_timestamp`.
pub fn parse_timestamp(timestamp: &str) -> (reading: LocalTime)
    requires
        timestamp_reading(timestamp@) is Some,
    ensures
        Some(reading) == timestamp_reading(timestamp@),
{
    match parse_naive_datetime(timestamp, TIMESTAMP_FORMAT) {
        Some(reading) => reading,
        None => unreached(),
    }
}

/// Reads a timestamp of the log if it is written in the log's format, and
/// says so if it is not.
pub fn check_timestamp(timestamp: &str) -> (reading: Option<LocalTime>)
    ensures
        reading == timestamp_reading(timestamp@),
{
    match parse_naive_datetime(timestamp, TIMESTAMP_FORMAT) {
        Some(_) => Some(parse_timestamp(timestamp)),
        None => None,
    }
}

} // verus!
