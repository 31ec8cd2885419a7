//! Calendar dates and second-precision UTC instants, as plain integers.
//!
//! The cache encodes an instant into its on-disk file names as fourteen
//! digits (`YYYYMMDDHHMMSS`), so years are limited to four digits here.
//! Everything the logic reads off an instant is a plain field; what only a
//! calendar library can compute (the clock, day arithmetic, parsing of
//! textual dates) is reached through trusted wrappers at the end of this
//! module.

use chrono::{Datelike, TimeZone, Timelike};
use vstd::prelude::*;

verus! {

/// A calendar date in the proleptic Gregorian calendar.
#[derive(Clone, Copy, PartialEq, Eq, Structural, Debug)]
pub struct Date {
    pub year: u32,
    pub month: u32,
    pub day: u32,
}

/// An instant in UTC with second precision.
#[derive(Clone, Copy, PartialEq, Eq, Structural, Debug)]
pub struct Timestamp {
    pub year: u32,
    pub month: u32,
    pub day: u32,
    pub hour: u32,
    pub minute: u32,
    pub second: u32,
}

pub open spec fn is_leap_year(y: int) -> bool {
    (y % 4 == 0 && y % 100 != 0) || y % 400 == 0
}

pub open spec fn days_in_month(y: int, m: int) -> int {
    if m == 2 {
        if is_leap_year(y) {
            29
        } else {
            28
        }
    } else if m == 4 || m == 6 || m == 9 || m == 11 {
        30
    } else {
        31
    }
}

impl Date {
    pub open spec fn valid(self) -> bool {
        &&& 1 <= self.year <= 9999
        &&& 1 <= self.month <= 12
        &&& 1 <= self.day <= days_in_month(self.year as int, self.month as int)
    }

    pub fn is_valid(&self) -> (r: bool)
        ensures
            r == self.valid(),
    {
        1 <= self.year && self.year <= 9999 && 1 <= self.month && self.month <= 12 && 1 <= self.day
            && self.day <= month_length(self.year, self.month)
    }
}

/// The number of days of a month, executable twin of `days_in_month`.
pub fn month_length(year: u32, month: u32) -> (r: u32)
    requires
        1 <= month <= 12,
    ensures
        r == days_in_month(year as int, month as int),
{
    if month == 2 {
        if (year % 4 == 0 && year % 100 != 0) || year % 400 == 0 {
            29
        } else {
            28
        }
    } else if month == 4 || month == 6 || month == 9 || month == 11 {
        30
    } else {
        31
    }
}

impl Timestamp {
    pub open spec fn date(self) -> Date {
        Date { year: self.year, month: self.month, day: self.day }
    }

    pub open spec fn valid(self) -> bool {
        &&& self.date().valid()
        &&& self.hour <= 23
        &&& self.minute <= 59
        &&& self.second <= 59
    }

    /// Strict chronological order, read field by field.
    pub open spec fn spec_before(self, other: Timestamp) -> bool {
        if self.year != other.year {
            self.year < other.year
        } else if self.month != other.month {
            self.month < other.month
        } else if self.day != other.day {
            self.day < other.day
        } else if self.hour != other.hour {
            self.hour < other.hour
        } else if self.minute != other.minute {
            self.minute < other.minute
        } else {
            self.second < other.second
        }
    }

    pub fn before(&self, other: &Timestamp) -> (r: bool)
        ensures
            r == self.spec_before(*other),
    {
        if self.year != other.year {
            self.year < other.year
        } else if self.month != other.month {
            self.month < other.month
        } else if self.day != other.day {
            self.day < other.day
        } else if self.hour != other.hour {
            self.hour < other.hour
        } else if self.minute != other.minute {
            self.minute < other.minute
        } else {
            self.second < other.second
        }
    }

    pub fn is_valid(&self) -> (r: bool)
        ensures
            r == self.valid(),
    {
        let d = Date { year: self.year, month: self.month, day: self.day };
        d.is_valid() && self.hour <= 23 && self.minute <= 59 && self.second <= 59
    }

}

/// Gathers loose fields into a valid `Timestamp`, or refuses them.
pub open spec fn checked_timestamp(y: i32, mo: u32, d: u32, h: u32, mi: u32, s: u32) -> Option<
    Timestamp,
> {
    if 1 <= y <= 9999 {
        let t = Timestamp { year: y as u32, month: mo, day: d, hour: h, minute: mi, second: s };
        if t.valid() {
            Some(t)
        } else {
            None
        }
    } else {
        None
    }
}

fn check_timestamp_fields(y: i32, mo: u32, d: u32, h: u32, mi: u32, s: u32) -> (r: Option<
    Timestamp,
>)
    ensures
        r == checked_timestamp(y, mo, d, h, mi, s),
        r matches Some(t) ==> t.valid(),
{
    if 1 <= y && y <= 9999 {
        let t = Timestamp { year: y as u32, month: mo, day: d, hour: h, minute: mi, second: s };
        if t.is_valid() {
            Some(t)
        } else {
            None
        }
    } else {
        None
    }
}

/// Gathers loose fields into a valid `Date`, or refuses them.
pub open spec fn checked_date(y: i32, mo: u32, d: u32) -> Option<Date> {
    if 1 <= y <= 9999 {
        let date = Date { year: y as u32, month: mo, day: d };
        if date.valid() {
            Some(date)
        } else {
            None
        }
    } else {
        None
    }
}

fn check_date_fields(y: i32, mo: u32, d: u32) -> (r: Option<Date>)
    ensures
        r == checked_date(y, mo, d),
        r matches Some(date) ==> date.valid(),
{
    if 1 <= y && y <= 9999 {
        let date = Date { year: y as u32, month: mo, day: d };
        if date.is_valid() {
            Some(date)
        } else {
            None
        }
    } else {
        None
    }
}

/// Relies on chrono::Utc::now and chrono's Datelike/Timelike getters, whose
/// documentation puts the month in 1..=12, the day in 1..=31, the hour
/// below 24 and minute and second below 60. Nothing is assumed about which
/// instant the clock reports.
#[verifier::external_body]
fn utc_now_fields() -> (r: (i32, u32, u32, u32, u32, u32))
    ensures
        1 <= r.1 <= 12,
        1 <= r.2 <= 31,
        r.3 <= 23,
        r.4 <= 59,
        r.5 <= 59,
{
    let now = chrono::Utc::now();
    (now.year(), now.month(), now.day(), now.hour(), now.minute(), now.second())
}

/// The current instant, or `None` if the system clock reports a year that
/// the four-digit file name encoding cannot carry.
pub fn now_timestamp() -> (r: Option<Timestamp>)
    ensures
        r matches Some(t) ==> t.valid(),
{
    let (y, mo, d, h, mi, s) = utc_now_fields();
    check_timestamp_fields(y, mo, d, h, mi, s)
}

/// The instant a given number of days after `t`, time of day unchanged.
pub uninterp spec fn plus_days(t: Timestamp, days: int) -> Timestamp;

/// Relies on chrono::NaiveDate::checked_add_days: adding a day count to a
/// calendar date depends on the date and the count alone, yields a real
/// calendar date, and leaves the time of day untouched. The bounds keep
/// chrono's arithmetic in range and the resulting year at four digits.
#[verifier::external_body]
pub fn add_days(t: &Timestamp, days: u64) -> (r: Timestamp)
    requires
        t.valid(),
        t.year <= 9899,
        days <= 36500,
    ensures
        r == plus_days(*t, days as int),
        r.valid(),
        r.hour == t.hour && r.minute == t.minute && r.second == t.second,
{
    let d = chrono::NaiveDate::from_ymd_opt(t.year as i32, t.month, t.day).unwrap();
    let d2 = d.checked_add_days(chrono::Days::new(days)).unwrap();
    Timestamp {
        year: d2.year() as u32,
        month: d2.month(),
        day: d2.day(),
        hour: t.hour,
        minute: t.minute,
        second: t.second,
    }
}

/// The UTC instant of local midnight of a date in the fixed reference zone.
pub uninterp spec fn reference_midnight_utc(d: Date) -> Timestamp;

/// Relies on chrono_tz's America/New_York table and chrono's local-to-UTC
/// conversion: the UTC instant of local midnight depends on the date alone;
/// over the zone's whole history its offset lies between four and five
/// hours behind UTC (standard and daylight time at the full hours, local
/// mean time before the standard eras at four hours fifty-six minutes), so
/// the instant falls in the early morning of the same calendar date; and
/// midnight never falls in the zone's daylight-saving gap, whose
/// transitions happen at two o'clock.
#[verifier::external_body]
pub fn naive_date_to_utc(d: &Date) -> (r: Timestamp)
    requires
        d.valid(),
    ensures
        r == reference_midnight_utc(*d),
        r.valid(),
        r.date() == *d,
        r.hour <= 5,
{
    let nd = chrono::NaiveDate::from_ymd_opt(d.year as i32, d.month, d.day).unwrap();
    let ndt = nd.and_time(chrono::NaiveTime::from_hms_opt(0, 0, 0).unwrap());
    let local = chrono_tz::America::New_York.from_local_datetime(&ndt).unwrap();
    let u = local.to_utc();
    Timestamp {
        year: u.year() as u32,
        month: u.month(),
        day: u.day(),
        hour: u.hour(),
        minute: u.minute(),
        second: u.second(),
    }
}

/// What chrono's RFC 3339 parser, taken to UTC, makes of a text.
pub uninterp spec fn rfc3339_fields(s: Seq<char>) -> Option<(i32, u32, u32, u32, u32, u32)>;

/// Relies on chrono::DateTime::parse_from_rfc3339 followed by to_utc: the
/// outcome depends on the text alone.
#[verifier::external_body]
fn rfc3339_outside(s: &str) -> (r: Option<(i32, u32, u32, u32, u32, u32)>)
    ensures
        r == rfc3339_fields(s@),
{
    match chrono::DateTime::parse_from_rfc3339(s) {
        Ok(dt) => {
            let u = dt.to_utc();
            Some((u.year(), u.month(), u.day(), u.hour(), u.minute(), u.second()))
        },
        Err(_) => None,
    }
}

pub open spec fn rfc3339_timestamp(s: Seq<char>) -> Option<Timestamp> {
    match rfc3339_fields(s) {
        Some(f) => checked_timestamp(f.0, f.1, f.2, f.3, f.4, f.5),
        None => None,
    }
}

/// Parses an RFC 3339 text into a UTC instant; `None` on malformed text or
/// on a year outside the four digits the file name encoding carries.
pub fn parse_rfc3339_utc(s: &str) -> (r: Option<Timestamp>)
    ensures
        r == rfc3339_timestamp(s@),
        r matches Some(t) ==> t.valid(),
{
    match rfc3339_outside(s) {
        Some(f) => check_timestamp_fields(f.0, f.1, f.2, f.3, f.4, f.5),
        None => None,
    }
}

/// What parsing a text as `DateTime<Utc>` makes of it.
pub uninterp spec fn utc_text_fields(s: Seq<char>) -> Option<(i32, u32, u32, u32, u32, u32)>;

/// Relies on chrono's FromStr for DateTime<Utc> (RFC 3339 with some slack):
/// the outcome depends on the text alone.
#[verifier::external_body]
fn utc_text_outside(s: &str) -> (r: Option<(i32, u32, u32, u32, u32, u32)>)
    ensures
        r == utc_text_fields(s@),
{
    match s.parse::<chrono::DateTime<chrono::Utc>>() {
        Ok(u) => Some((u.year(), u.month(), u.day(), u.hour(), u.minute(), u.second())),
        Err(_) => None,
    }
}

pub open spec fn utc_text_timestamp(s: Seq<char>) -> Option<Timestamp> {
    match utc_text_fields(s) {
        Some(f) => checked_timestamp(f.0, f.1, f.2, f.3, f.4, f.5),
        None => None,
    }
}

/// Parses a text in the relaxed UTC datetime form (as Notion's sitemap
/// writes it) into a UTC instant.
pub fn parse_utc_text(s: &str) -> (r: Option<Timestamp>)
    ensures
        r == utc_text_timestamp(s@),
        r matches Some(t) ==> t.valid(),
{
    match utc_text_outside(s) {
        Some(f) => check_timestamp_fields(f.0, f.1, f.2, f.3, f.4, f.5),
        None => None,
    }
}

/// What chrono's `%Y-%m-%d` date parser makes of a text.
pub uninterp spec fn ymd_fields(s: Seq<char>) -> Option<(i32, u32, u32)>;

/// Relies on chrono::NaiveDate::parse_from_str with the `%Y-%m-%d` format:
/// the outcome depends on the text alone.
#[verifier::external_body]
fn ymd_outside(s: &str) -> (r: Option<(i32, u32, u32)>)
    ensures
        r == ymd_fields(s@),
{
    match chrono::NaiveDate::parse_from_str(s, "%Y-%m-%d") {
        Ok(d) => Some((d.year(), d.month(), d.day())),
        Err(_) => None,
    }
}

pub open spec fn ymd_date(s: Seq<char>) -> Option<Date> {
    match ymd_fields(s) {
        Some(f) => checked_date(f.0, f.1, f.2),
        None => None,
    }
}

/// Parses a bare `YYYY-MM-DD` date text.
pub fn parse_ymd_date(s: &str) -> (r: Option<Date>)
    ensures
        r == ymd_date(s@),
        r matches Some(d) ==> d.valid(),
{
    match ymd_outside(s) {
        Some(f) => check_date_fields(f.0, f.1, f.2),
        None => None,
    }
}

} // verus!
