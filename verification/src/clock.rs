//! Calendar fields of a moment, in UTC.

use chrono::{DateTime, Datelike, Timelike, Utc};
use vstd::prelude::*;
use crate::text;

verus! {

/// The first millisecond of the calendar that `chrono` covers.
pub const FIRST_MOMENT: i64 = -8_334_601_228_800_000;

/// The last one.
pub const LAST_MOMENT: i64 = 8_210_266_876_799_999;

/// Whether the calendar covers a moment.
pub open spec fn covered(ms: i64) -> bool {
    FIRST_MOMENT <= ms <= LAST_MOMENT
}

/// Hour of the day, 0 to 23.
pub open spec fn hour_of(ms: i64) -> int {
    (ms as int / 3_600_000) % 24
}

/// Minute of the hour, 0 to 59.
pub open spec fn minute_of(ms: i64) -> int {
    (ms as int / 60_000) % 60
}

/// Day of the week, Monday being 0; the epoch was a Thursday.
pub open spec fn weekday_of(ms: i64) -> int {
    (ms as int / 86_400_000 + 3) % 7
}

/// Calls `chrono::Timelike::hour` on `chrono::DateTime::from_timestamp_millis`: the hour of the
/// day in UTC, which counts no leap seconds, for every moment that the calendar covers.
#[verifier::external_body]
pub(crate) fn hour(ms: i64) -> (r: Option<u32>)
    ensures
        r is Some <==> covered(ms),
        r matches Some(h) ==> h == hour_of(ms),
{
    match DateTime::from_timestamp_millis(ms) {
        Some(moment) => Some(moment.hour()),
        None => None,
    }
}

/// Calls `chrono::Timelike::minute` on `chrono::DateTime::from_timestamp_millis`: the minute of
/// the hour in UTC, for every moment that the calendar covers.
#[verifier::external_body]
pub(crate) fn minute(ms: i64) -> (r: Option<u32>)
    ensures
        r is Some <==> covered(ms),
        r matches Some(m) ==> m == minute_of(ms),
{
    match DateTime::from_timestamp_millis(ms) {
        Some(moment) => Some(moment.minute()),
        None => None,
    }
}

/// Calls `chrono::Weekday::num_days_from_monday` on the `chrono::Datelike::weekday` of
/// `chrono::DateTime::from_timestamp_millis`: the day of the week in UTC, for every moment that
/// the calendar covers.
#[verifier::external_body]
pub(crate) fn weekday(ms: i64) -> (r: Option<u32>)
    ensures
        r is Some <==> covered(ms),
        r matches Some(d) ==> d == weekday_of(ms),
{
    match DateTime::from_timestamp_millis(ms) {
        Some(moment) => Some(moment.weekday().num_days_from_monday()),
        None => None,
    }
}

/// Whether a year of the Gregorian calendar has a 29th of February.
pub open spec fn is_leap(year: int) -> bool {
    year % 4 == 0 && (year % 100 != 0 || year % 400 == 0)
}

/// How many days a month has.
pub open spec fn month_length(year: int, month: int) -> int {
    if month == 2 {
        if is_leap(year) {
            29
        } else {
            28
        }
    } else if month == 4 || month == 6 || month == 9 || month == 11 {
        30
    } else {
        31
    }
}

/// Whether there is such a day.
pub open spec fn is_date(year: int, month: int, day: int) -> bool {
    1 <= month <= 12 && 1 <= day <= month_length(year, month)
}

/// How many days of a year are over when a month begins.
pub open spec fn days_before_month(year: int, month: int) -> int
    decreases month,
{
    if month <= 1 {
        0
    } else {
        days_before_month(year, month - 1) + month_length(year, month - 1)
    }
}

/// How many years up to one had a 29th of February, counted from year 1.
pub open spec fn leap_days(year: int) -> int {
    year / 4 - year / 100 + year / 400
}

/// How many days a date is after the epoch.
pub open spec fn day_number(year: int, month: int, day: int) -> int {
    365 * (year - 1970) + leap_days(year - 1) - leap_days(1969) + days_before_month(year, month)
        + day - 1
}

/// A year as text: four digits, and where they do not do, a sign and as many as it takes.
pub open spec fn year_text(year: int) -> Seq<char> {
    if 0 <= year <= 9999 {
        text::padded(year, 4)
    } else if year > 9999 {
        "+"@ + text::digits(year)
    } else if year >= -9999 {
        "-"@ + text::padded(-year, 4)
    } else {
        "-"@ + text::digits(-year)
    }
}

/// Whether a text is the date of a moment: year, month and day with hyphens between them.
pub open spec fn dates(ms: i64, text: Seq<char>) -> bool {
    exists|year: int, month: int, day: int|
        #![trigger day_number(year, month, day)]
        is_date(year, month, day) && day_number(year, month, day) == ms as int / 86_400_000
            && text == year_text(year) + "-"@ + text::padded(month, 2) + "-"@ + text::padded(
            day,
            2,
        )
}

/// Calls `chrono::DateTime::format` with `%Y-%m-%d` on `chrono::DateTime::from_timestamp_millis`:
/// the date in the Gregorian calendar, for every moment that the calendar covers.
#[verifier::external_body]
pub(crate) fn date(ms: i64) -> (r: Option<String>)
    ensures
        r is Some <==> covered(ms),
        r matches Some(t) ==> dates(ms, t@),
{
    match DateTime::from_timestamp_millis(ms) {
        Some(moment) => Some(moment.format("%Y-%m-%d").to_string()),
        None => None,
    }
}

/// Calls `chrono::Utc::now`: some moment that the calendar covers. Which one is the machine's
/// clock to say; where that stands before the epoch, the call panics.
#[verifier::external_body]
pub(crate) fn now_ms() -> (r: i64)
    ensures
        covered(r),
{
    Utc::now().timestamp_millis()
}

} // verus!
