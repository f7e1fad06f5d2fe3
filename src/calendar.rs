//! Times of day, dates and instants read from text, through chrono.
use vstd::prelude::*;

use chrono::{Datelike, Timelike};

use crate::structs::{CalendarDate, ClockTime, Timestamp};

verus! {

/// Hour and minute that chrono's `NaiveTime::parse_from_str` reads from a text in the format
/// `%H:%M`, or `None` where it reports an error.
pub uninterp spec fn clock_time_of(s: Seq<char>) -> Option<(u8, u8)>;

/// Year, month and day that chrono's `NaiveDate::parse_from_str` reads from a text in the
/// format `%Y-%m-%d`, or `None` where it reports an error.
pub uninterp spec fn calendar_date_of(s: Seq<char>) -> Option<(i32, u8, u8)>;

/// What chrono's `DateTime<FixedOffset>` parser (relaxed RFC 3339, the one its serde support
/// uses) reads from a text: local year, month, day, hour, minute, second, nanosecond, and
/// the offset east of UTC in seconds; `None` where it reports an error.
pub uninterp spec fn timestamp_of(s: Seq<char>) -> Option<(i32, u8, u8, u8, u8, u8, u32, i32)>;

/// The time of day that `%H:%M` gives for `s`.
pub open spec fn parsed_clock_time(s: Seq<char>) -> Option<ClockTime> {
    match clock_time_of(s) {
        Some(p) => Some(ClockTime { hour: p.0, minute: p.1, second: 0 }),
        None => None,
    }
}

/// The date that `%Y-%m-%d` gives for `s`.
pub open spec fn parsed_date(s: Seq<char>) -> Option<CalendarDate> {
    match calendar_date_of(s) {
        Some(p) => Some(CalendarDate { year: p.0, month: p.1, day: p.2 }),
        None => None,
    }
}

/// The instant that an RFC 3339 text `s` gives.
pub open spec fn parsed_timestamp(s: Seq<char>) -> Option<Timestamp> {
    match timestamp_of(s) {
        Some(p) => Some(
            Timestamp {
                date: CalendarDate { year: p.0, month: p.1, day: p.2 },
                time: ClockTime { hour: p.3, minute: p.4, second: p.5 },
                nanosecond: p.6,
                offset_seconds: p.7,
            },
        ),
        None => None,
    }
}

/// Relies on chrono's `NaiveTime::parse_from_str(s, "%H:%M")`: the hour and minute it read,
/// within their ranges; chrono documents that missing seconds are zero.
#[verifier::external_body]
pub(crate) fn parse_clock_time(s: &str) -> (r: Option<ClockTime>)
    ensures
        r is None <==> clock_time_of(s@) is None,
        r matches Some(t) ==> clock_time_of(s@) == Some((t.hour, t.minute)) && t.second == 0
            && t.wf(),
{
    chrono::NaiveTime::parse_from_str(s, "%H:%M").ok().map(
        |t| ClockTime { hour: t.hour() as u8, minute: t.minute() as u8, second: t.second() as u8 },
    )
}

/// Relies on chrono's `NaiveDate::parse_from_str(s, "%Y-%m-%d")`: the year, month and day of
/// the date it read, which is a real date within `NaiveDate`'s years.
#[verifier::external_body]
pub(crate) fn parse_calendar_date(s: &str) -> (r: Option<CalendarDate>)
    ensures
        r is None <==> calendar_date_of(s@) is None,
        r matches Some(d) ==> calendar_date_of(s@) == Some((d.year, d.month, d.day)) && d.wf(),
{
    chrono::NaiveDate::parse_from_str(s, "%Y-%m-%d").ok().map(
        |d| CalendarDate { year: d.year(), month: d.month() as u8, day: d.day() as u8 },
    )
}

/// Relies on chrono's `FromStr` for `DateTime<FixedOffset>`: the local date and time of the
/// instant it read, and its offset. These are a real date, a `NaiveTime` (leap seconds as a
/// nanosecond count of a billion or more during second 59) and a `FixedOffset` (under a day).
#[verifier::external_body]
pub(crate) fn parse_timestamp(s: &str) -> (r: Option<Timestamp>)
    ensures
        r is None <==> timestamp_of(s@) is None,
        r matches Some(t) ==> timestamp_of(s@) == Some(
            (
                t.date.year,
                t.date.month,
                t.date.day,
                t.time.hour,
                t.time.minute,
                t.time.second,
                t.nanosecond,
                t.offset_seconds,
            ),
        ),
        r matches Some(t) ==> t.wf(),
{
    s.parse::<chrono::DateTime<chrono::FixedOffset>>().ok().map(
        |t| {
            let n = t.naive_local();
            Timestamp {
                date: CalendarDate { year: n.year(), month: n.month() as u8, day: n.day() as u8 },
                time: ClockTime {
                    hour: n.hour() as u8,
                    minute: n.minute() as u8,
                    second: n.second() as u8,
                },
                nanosecond: n.nanosecond(),
                offset_seconds: t.offset().local_minus_utc(),
            }
        },
    )
}

} // verus!
