//! Time. An instant counts microseconds since 1970-01-01 00:00 UTC, a date
//! counts days since 1970-01-01; the calendar itself is chrono's.
use vstd::prelude::*;
use chrono::Datelike;

verus! {

/// The first day of chrono's calendar: January 1 of the year -262143.
pub const FIRST_DAY: i32 = -96_465_292;

/// The last day of chrono's calendar: December 31 of the year 262142.
pub const LAST_DAY: i32 = 95_026_236;

/// The instant at which the given time of day falls on the given date, a
/// day being 86 400 seconds long; `None` for a date outside the calendar
/// and for a time that no day has.
pub open spec fn instant_of(day: i32, hour: u32, minute: u32, second: u32) -> Option<i64> {
    if FIRST_DAY <= day <= LAST_DAY && hour < 24 && minute < 60 && second < 60 {
        Some(((day * 86_400 + hour * 3_600 + minute * 60 + second) * 1_000_000) as i64)
    } else {
        None
    }
}

/// The year and the month in which an instant falls, as
/// `chrono::DateTime::from_timestamp_micros` and the `year` and `month` of
/// what it returns give them; `None` where the instant lies outside
/// chrono's calendar.
pub uninterp spec fn civil_month(instant: i64) -> Option<(i32, u32)>;

/// The year and the month (1 for January to 12 for December) in which an
/// instant falls.
pub open spec fn month_of(instant: i64) -> Option<(i32, u32)> {
    match civil_month(instant) {
        Some((year, month)) => if 1 <= month <= 12 {
            Some((year, month))
        } else {
            None
        },
        None => None,
    }
}

/// Reads the clock with `chrono::Utc::now`, which panics where the clock
/// stands before 1970.
///
/// Trusted: the value is the time of the call, of which nothing is claimed
/// but that it lies within chrono's calendar, so that it has a year and a
/// month.
#[verifier::external_body]
pub(crate) fn now() -> (instant: i64)
    ensures
        civil_month(instant) is Some,
{
    chrono::Utc::now().timestamp_micros()
}

/// Puts a time of day on a date.
pub fn instant(day: i32, hour: u32, minute: u32, second: u32) -> (at: Option<i64>)
    ensures
        at == instant_of(day, hour, minute, second),
{
    if FIRST_DAY <= day && day <= LAST_DAY && hour < 24 && minute < 60 && second < 60 {
        let days: i64 = day as i64;
        let seconds: i64 = days * 86_400 + hour as i64 * 3_600 + minute as i64 * 60
            + second as i64;
        Some(seconds * 1_000_000)
    } else {
        None
    }
}

/// Finds the month of an instant with `chrono::DateTime::from_timestamp_micros`
/// and the `year` and `month` of the date it returns.
///
/// Trusted: the result is a function of the instant alone, and the month
/// is a number from 1 to 12.
#[verifier::external_body]
pub(crate) fn month(instant: i64) -> (found: Option<(i32, u32)>)
    ensures
        found == civil_month(instant),
        found matches Some((_, month)) ==> 1 <= month <= 12,
{
    let moment = chrono::DateTime::from_timestamp_micros(instant)?;
    Some((moment.year(), moment.month()))
}

/// The first instant of a day of the calendar comes after the last second
/// of every earlier day.
pub proof fn lemma_days_do_not_overlap(earlier: i32, later: i32)
    requires
        FIRST_DAY <= earlier < later <= LAST_DAY,
    ensures
        instant_of(earlier, 23, 59, 59) matches Some(end) && instant_of(later, 0, 0, 0) matches Some(
            start,
        ) && end < start,
        instant_of(earlier, 0, 0, 0) matches Some(start) && instant_of(earlier, 23, 59, 59) matches Some(
            end,
        ) && end - start == 86_399_000_000,
{
}

} // verus!
