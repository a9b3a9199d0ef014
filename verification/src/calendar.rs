//! Calendar days in UTC, counted from 1 January 1970.

use chrono::{DateTime, NaiveDate};
use vstd::prelude::*;

verus! {

/// The seconds in one day.
pub const SECONDS_PER_DAY: i64 = 86_400;

/// The first second of 1 January of the year -262143, the earliest instant
/// that has a calendar date.
pub const MIN_TIMESTAMP: i64 = -8_334_601_228_800;

/// The last second of 31 December of the year 262142, the latest instant
/// that has a calendar date.
pub const MAX_TIMESTAMP: i64 = 8_210_266_876_799;

/// The format of a day in a query: day, month and year, separated by `/`.
pub open spec fn day_format() -> Seq<char> {
    "%d/%m/%Y"@
}

/// Whether a timestamp falls on a day that the calendar can represent.
pub open spec fn has_utc_date(timestamp: int) -> bool {
    MIN_TIMESTAMP <= timestamp <= MAX_TIMESTAMP
}

/// The number of the UTC day that holds a timestamp; day 0 is 1 January 1970.
pub open spec fn epoch_day_of(timestamp: int) -> int {
    timestamp / (SECONDS_PER_DAY as int)
}

/// The day, by its number, that a text states when it is read by a format,
/// or `None` where the text does not follow the format or states no real day.
pub uninterp spec fn parsed_epoch_day(text: Seq<char>, format: Seq<char>) -> Option<int>;

/// A day of the proleptic Gregorian calendar in UTC.
#[derive(Clone, Copy, Debug, PartialEq, Eq, Structural)]
pub struct CalendarDay {
    /// Days since 1 January 1970; negative before it.
    pub epoch_day: i32,
}

/// Calls `DateTime::from_timestamp` of chrono with no nanoseconds, then
/// `date_naive` and `NaiveDate::to_epoch_days`. The contract claims that the
/// call succeeds exactly on the seconds of the years -262143 to 262142, the
/// dates from `NaiveDate::MIN` to `NaiveDate::MAX`, and that the day's number
/// is then the floor of the timestamp over 86 400.
#[verifier::external_body]
fn utc_epoch_day(timestamp: i64) -> (day: Option<i32>)
    ensures
        day is Some <==> has_utc_date(timestamp as int),
        day matches Some(d) ==> d == epoch_day_of(timestamp as int),
{
    match DateTime::from_timestamp(timestamp, 0) {
        Some(instant) => Some(instant.date_naive().to_epoch_days()),
        None => None,
    }
}

/// Calls `NaiveDate::parse_from_str` of chrono, then
/// `NaiveDate::to_epoch_days`. The contract claims that the outcome is a
/// function of the text and the format alone, and names it.
#[verifier::external_body]
fn parse_epoch_day(text: &str, format: &str) -> (day: Option<i32>)
    ensures
        day matches Some(d) ==> parsed_epoch_day(text@, format@) == Some(d as int),
        day is None ==> parsed_epoch_day(text@, format@) is None,
{
    match NaiveDate::parse_from_str(text, format) {
        Ok(date) => Some(date.to_epoch_days()),
        Err(_) => None,
    }
}

impl CalendarDay {
    /// The UTC day on which a timestamp falls, where there is one.
    pub fn from_timestamp(timestamp: i64) -> (day: Option<CalendarDay>)
        ensures
            day is Some <==> has_utc_date(timestamp as int),
            day matches Some(d) ==> d.epoch_day == epoch_day_of(timestamp as int),
    {
        match utc_epoch_day(timestamp) {
            Some(epoch_day) => Some(CalendarDay { epoch_day }),
            None => None,
        }
    }

    /// Reads a day written as `DD/MM/YYYY`.
    pub fn parse(text: &str) -> (day: Option<CalendarDay>)
        ensures
            day matches Some(d) ==> parsed_epoch_day(text@, day_format()) == Some(
                d.epoch_day as int,
            ),
            day is None <==> parsed_epoch_day(text@, day_format()) is None,
    {
        match parse_epoch_day(text, "%d/%m/%Y") {
            Some(epoch_day) => Some(CalendarDay { epoch_day }),
            None => None,
        }
    }

    /// Whether a timestamp falls on this day.
    pub fn holds(&self, timestamp: i64) -> (within: bool)
        ensures
            within == on_day(timestamp as int, self.epoch_day as int),
    {
        match utc_epoch_day(timestamp) {
            Some(epoch_day) => epoch_day == self.epoch_day,
            None => false,
        }
    }
}

/// Whether a timestamp has a UTC date and that date is the given day.
pub open spec fn on_day(timestamp: int, epoch_day: int) -> bool {
    has_utc_date(timestamp) && epoch_day_of(timestamp) == epoch_day
}

} // verus!
