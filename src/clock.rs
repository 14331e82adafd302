//! Calendar and time-zone work, done by chrono.

use vstd::prelude::*;
use crate::task::{instant_in_range, TimeOfDay};
use chrono::{Datelike, TimeZone, Timelike};

verus! {

/// A calendar date.
#[derive(Debug, Clone, Copy, PartialEq, Eq, Structural)]
pub struct CivilDate {
    pub year: i32,
    pub month: u32,
    pub day: u32,
}

/// A calendar date and a time of day, in no particular zone.
#[derive(Debug, Clone, Copy, PartialEq, Eq, Structural)]
pub struct CivilDateTime {
    pub date: CivilDate,
    pub time: TimeOfDay,
}

/// The character of a decimal digit.
pub open spec fn digit_char(d: int) -> char {
    (('0' as int) + d) as char
}

/// A number below 100 written with two digits.
pub open spec fn two_digits(n: int) -> Seq<char> {
    seq![digit_char(n / 10), digit_char(n % 10)]
}

/// A time of day written `HH:MM`.
pub open spec fn hm_text(t: TimeOfDay) -> Seq<char> {
    two_digits(t.hour as int) + seq![':'] + two_digits(t.minute as int)
}

/// Days from 1970-01-01 to a date of the proleptic Gregorian calendar.
pub open spec fn days_from_civil(y: int, m: int, d: int) -> int {
    let yy = if m <= 2 { y - 1 } else { y };
    let era = yy / 400;
    let yoe = yy - era * 400;
    let mp = if m > 2 { m - 3 } else { m + 9 };
    let doy = (153 * mp + 2) / 5 + d - 1;
    let doe = yoe * 365 + yoe / 4 - yoe / 100 + doy;
    era * 146097 + doe - 719468
}

/// Unix seconds at the start of a date, read as UTC.
pub open spec fn day_start(d: CivilDate) -> int {
    days_from_civil(d.year as int, d.month as int, d.day as int) * 86400
}

/// Unix seconds of a date and time of day, read as UTC.
pub open spec fn utc_seconds(dt: CivilDateTime) -> int {
    day_start(dt.date) + dt.time.seconds()
}

/// `d` is the date that a clock less than a day off UTC shows at instant `t`.
pub open spec fn date_near(d: CivilDate, t: int) -> bool {
    day_start(d) - 86400 < t < day_start(d) + 2 * 86400
}

/// `t` is an instant at which a clock less than a day off UTC shows `dt`.
pub open spec fn instant_near(t: int, dt: CivilDateTime) -> bool {
    utc_seconds(dt) - 86400 < t < utc_seconds(dt) + 86400
}

impl CivilDateTime {
    /// A time of day on a date.
    pub fn on(date: CivilDate, time: TimeOfDay) -> (r: CivilDateTime)
        ensures
            r.date == date,
            r.time == time,
    {
        CivilDateTime { date, time }
    }
}

/// The RFC 3339 text, to the second and in UTC with a trailing `Z`, of an instant
/// given in unix seconds.
pub uninterp spec fn rfc3339_text(t: i64) -> Seq<char>;

/// The instant, in unix seconds, that chrono reads from an RFC 3339 text.
pub uninterp spec fn rfc3339_parse_of(s: Seq<char>) -> Option<i64>;

/// The time of day that chrono reads from a text with the format `%H:%M`.
pub uninterp spec fn hm_parse_of(s: Seq<char>) -> Option<TimeOfDay>;

/// The date and time that a form field written `%Y-%m-%dT%H:%M` stands for.
pub uninterp spec fn form_datetime_of(s: Seq<char>) -> Option<CivilDateTime>;

/// Relies on chrono's `DateTime::<Utc>::from_timestamp` and
/// `to_rfc3339_opts(SecondsFormat::Secs, true)`: an instant between the years
/// 0 and 9999 exists and is written in UTC with a trailing `Z`.
#[verifier::external_body]
pub(crate) fn format_rfc3339(t: i64) -> (r: String)
    requires
        instant_in_range(t as int),
    ensures
        r@ == rfc3339_text(t),
{
    chrono::DateTime::<chrono::Utc>::from_timestamp(t, 0).unwrap().to_rfc3339_opts(
        chrono::SecondsFormat::Secs,
        true,
    )
}

/// Relies on chrono's `DateTime::parse_from_rfc3339` and `timestamp`: the text
/// that chrono writes for an instant parses back to that instant.
#[verifier::external_body]
pub(crate) fn parse_rfc3339(s: &str) -> (r: Option<i64>)
    ensures
        r == rfc3339_parse_of(s@),
        forall|t: i64|
            instant_in_range(t as int) && s@ == #[trigger] rfc3339_text(t) ==> r == Some(t),
{
    match chrono::DateTime::parse_from_rfc3339(s) {
        Ok(d) => Some(d.timestamp()),
        Err(_) => None,
    }
}

/// Relies on chrono's `NaiveTime::format` with `%H:%M`: hour and minute, each
/// zero-padded to two digits.
#[verifier::external_body]
pub(crate) fn format_hm(t: TimeOfDay) -> (r: String)
    requires
        t.wf(),
    ensures
        r@ == hm_text(t),
{
    chrono::NaiveTime::from_hms_opt(t.hour, t.minute, t.second).unwrap().format("%H:%M").to_string()
}

/// Relies on chrono's `NaiveTime::parse_from_str` with `%H:%M`: a parsed time
/// has no seconds, and two-digit hour and minute parse to their values.
#[verifier::external_body]
pub(crate) fn parse_hm(s: &str) -> (r: Option<TimeOfDay>)
    ensures
        r == hm_parse_of(s@),
        r matches Some(t) ==> t.wf() && t.second == 0,
        forall|t: TimeOfDay|
            t.wf() && t.second == 0 && s@ == #[trigger] hm_text(t) ==> r == Some(t),
{
    let t = chrono::NaiveTime::parse_from_str(s, "%H:%M").ok()?;
    Some(TimeOfDay { hour: t.hour(), minute: t.minute(), second: t.second() })
}

/// Relies on chrono's `NaiveDateTime::parse_from_str` with `%Y-%m-%dT%H:%M`:
/// a parsed time of day is valid.
#[verifier::external_body]
pub(crate) fn parse_form_datetime(s: &str) -> (r: Option<CivilDateTime>)
    ensures
        r == form_datetime_of(s@),
        r matches Some(d) ==> d.time.wf(),
{
    let d = chrono::NaiveDateTime::parse_from_str(s, "%Y-%m-%dT%H:%M").ok()?;
    Some(CivilDateTime {
        date: CivilDate { year: d.year(), month: d.month(), day: d.day() },
        time: TimeOfDay { hour: d.hour(), minute: d.minute(), second: d.second() },
    })
}

/// Relies on chrono's `DateTime::from_timestamp`, `with_timezone(&Local)` and
/// `date_naive`: the local calendar date at an instant. It depends on the
/// machine's zone; what holds of every zone is that chrono refuses offsets of
/// a day or more (`FixedOffset::east_opt`), so the date is within a day of the
/// UTC date. The instant is kept in the years 0 to 9999, where the local time
/// stays inside chrono's range and `naive_local` does not panic.
#[verifier::external_body]
pub(crate) fn local_date_of(t: i64) -> (r: Option<CivilDate>)
    requires
        instant_in_range(t as int),
    ensures
        r matches Some(d) ==> date_near(d, t as int),
{
    let d = chrono::DateTime::from_timestamp(t, 0)?.with_timezone(&chrono::Local).date_naive();
    Some(CivilDate { year: d.year(), month: d.month(), day: d.day() })
}

/// Relies on chrono's `Local.from_local_datetime(..).single()`: the one instant
/// at which the local wall clock shows the given date and time, if there is
/// exactly one (none in a daylight-saving gap, two in a fold). It depends on the
/// machine's zone; what holds of every zone is that its offset is less than a
/// day (`FixedOffset::east_opt`). The year is kept in 0 to 9999, away from the
/// range ends where the zone lookup could fail.
#[verifier::external_body]
pub(crate) fn local_instant(d: CivilDateTime) -> (r: Option<i64>)
    requires
        0 <= d.date.year <= 9999,
    ensures
        r matches Some(i) ==> instant_near(i as int, d),
{
    let day = chrono::NaiveDate::from_ymd_opt(d.date.year, d.date.month, d.date.day)?;
    let n = day.and_hms_opt(d.time.hour, d.time.minute, d.time.second)?;
    Some(chrono::Local.from_local_datetime(&n).single()?.timestamp())
}

} // verus!
