//! Text forms of timestamps.

use chrono::DateTime;
use vstd::prelude::*;
use crate::calendar::has_utc_date;

verus! {

/// The format of a timestamp in a log line: date and time of day.
pub open spec fn time_format() -> Seq<char> {
    "%Y-%m-%d %H:%M:%S"@
}

/// The text of a timestamp's UTC date and time when written by a format.
pub uninterp spec fn utc_text(timestamp: int, format: Seq<char>) -> Seq<char>;

/// Calls `DateTime::from_timestamp` of chrono with no nanoseconds, then
/// `DateTime::format` and `to_string` on what it gives. The contract admits
/// only timestamps that have a date and the one format made of the year,
/// month, day, hour, minute and second items, on which neither call fails,
/// and claims that the text is a function of the two arguments alone.
#[verifier::external_body]
fn render_utc(timestamp: i64, format: &str) -> (text: String)
    requires
        has_utc_date(timestamp as int),
        format@ == time_format(),
    ensures
        text@ == utc_text(timestamp as int, format@),
{
    DateTime::from_timestamp(timestamp, 0).unwrap().format(format).to_string()
}

/// Writes a timestamp as `YYYY-MM-DD HH:MM:SS` in UTC.
pub fn format_time(timestamp: i64) -> (text: String)
    requires
        has_utc_date(timestamp as int),
    ensures
        text@ == utc_text(timestamp as int, time_format()),
{
    render_utc(timestamp, "%Y-%m-%d %H:%M:%S")
}

} // verus!
