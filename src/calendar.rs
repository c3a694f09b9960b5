use vstd::prelude::*;

use chrono::{Datelike, Months, NaiveDate, NaiveDateTime, NaiveTime};

verus! {

/// Smallest and largest year that a calendar date may carry.
pub const MIN_YEAR: i32 = -262143;

pub const MAX_YEAR: i32 = 262142;

pub const SECONDS_PER_DAY: u32 = 86400;

/// A calendar date in the proleptic Gregorian calendar.
#[derive(Clone, Copy, Debug, PartialEq, Eq, Structural)]
pub struct Date {
    pub year: i32,
    pub month: u32,
    pub day: u32,
}

/// A wall-clock time of day, as seconds since midnight.
#[derive(Clone, Copy, Debug, PartialEq, Eq, Structural)]
pub struct TimeOfDay {
    pub seconds: u32,
}

/// A naive (zone-less) date and time of day.
#[derive(Clone, Copy, Debug, PartialEq, Eq, Structural)]
pub struct DateTime {
    pub date: Date,
    pub time: TimeOfDay,
}

pub open spec fn is_leap_year(y: int) -> bool {
    y % 4 == 0 && (y % 100 != 0 || y % 400 == 0)
}

pub open spec fn days_in_month_spec(y: int, m: int) -> int {
    if m == 2 {
        if is_leap_year(y) { 29 } else { 28 }
    } else if m == 4 || m == 6 || m == 9 || m == 11 {
        30
    } else {
        31
    }
}

pub open spec fn valid_ymd(y: int, m: int, d: int) -> bool {
    MIN_YEAR <= y <= MAX_YEAR && 1 <= m <= 12 && 1 <= d <= days_in_month_spec(y, m)
}

/// Days in the months of a year before month `m`.
pub open spec fn days_before_month(y: int, m: int) -> int {
    let leap = if m > 2 && is_leap_year(y) { 1int } else { 0int };
    leap + if m == 1 { 0int } else if m == 2 { 31 } else if m == 3 { 59 } else if m == 4 { 90 }
    else if m == 5 { 120 } else if m == 6 { 151 } else if m == 7 { 181 } else if m == 8 { 212 }
    else if m == 9 { 243 } else if m == 10 { 273 } else if m == 11 { 304 } else { 334 }
}

/// The day number of a date: days since the start of year one of the
/// proleptic Gregorian calendar, 0001-01-01 being day 1.
pub open spec fn day_number(year: int, month: int, day: int) -> int {
    let y = year - 1;
    365 * y + y / 4 - y / 100 + y / 400 + days_before_month(year, month) + day
}

/// The weekday of a date, counted from Monday (0) to Sunday (6); day 1 was a
/// Monday.
pub open spec fn weekday_of(year: int, month: int, day: int) -> int {
    (day_number(year, month, day) - 1) % 7
}

/// Moving a date by `k` calendar months, keeping the day unless the target month
/// is shorter, in which case its last day is taken.
pub open spec fn shift_months(d: Date, k: int) -> Option<Date> {
    if k == 0 {
        Some(d)
    } else {
        let t = d.year * 12 + d.month - 1 + k;
        let y = t / 12;
        let m = t % 12 + 1;
        let last = days_in_month_spec(y, m);
        let nd = if d.day > last { last } else { d.day as int };
        if i32::MIN <= t <= i32::MAX && MIN_YEAR <= y <= MAX_YEAR {
            Some(Date { year: y as i32, month: m as u32, day: nd as u32 })
        } else {
            None
        }
    }
}

impl Date {
    pub open spec fn wf(self) -> bool {
        valid_ymd(self.year as int, self.month as int, self.day as int)
    }

    pub open spec fn later_than(self, o: Date) -> bool {
        self.year > o.year || (self.year == o.year && (self.month > o.month || (self.month
            == o.month && self.day > o.day)))
    }

    pub open spec fn number(self) -> int {
        day_number(self.year as int, self.month as int, self.day as int)
    }

    pub open spec fn weekday(self) -> int {
        weekday_of(self.year as int, self.month as int, self.day as int)
    }

    /// Whether the date is after `o`.
    pub fn is_after(&self, o: &Date) -> (r: bool)
        ensures
            r == self.later_than(*o),
    {
        self.year > o.year || (self.year == o.year && (self.month > o.month || (self.month
            == o.month && self.day > o.day)))
    }
}

impl TimeOfDay {
    pub open spec fn wf(self) -> bool {
        self.seconds < SECONDS_PER_DAY
    }

    /// A time of day from hours, minutes and seconds.
    pub fn from_hms(h: u32, m: u32, s: u32) -> (r: TimeOfDay)
        requires
            h < 24,
            m < 60,
            s < 60,
        ensures
            r.seconds == h * 3600 + m * 60 + s,
            r.wf(),
    {
        TimeOfDay { seconds: h * 3600 + m * 60 + s }
    }
}

impl DateTime {
    pub open spec fn wf(self) -> bool {
        self.date.wf() && self.time.wf()
    }

    /// Chronological order, which for valid values is the order of the fields.
    pub open spec fn before(self, o: DateTime) -> bool {
        o.date.later_than(self.date) || (self.date == o.date && self.time.seconds
            < o.time.seconds)
    }

    pub open spec fn not_after(self, o: DateTime) -> bool {
        self.before(o) || self == o
    }

    /// Seconds from `self` to `later`, as chrono counts them.
    pub open spec fn seconds_until(self, later: DateTime) -> int {
        (later.date.number() - self.date.number()) * 86400 + later.time.seconds
            - self.time.seconds
    }

    pub fn is_before(&self, o: &DateTime) -> (r: bool)
        ensures
            r == self.before(*o),
    {
        o.date.is_after(&self.date) || (self.date == o.date && self.time.seconds
            < o.time.seconds)
    }
}

/// Leap years of the Gregorian calendar.
pub fn is_leap(y: i32) -> (r: bool)
    ensures
        r == is_leap_year(y as int),
{
    y % 4 == 0 && (y % 100 != 0 || y % 400 == 0)
}

/// Number of days in a month of a given year.
pub fn days_in_month(y: i32, m: u32) -> (r: u32)
    requires
        1 <= m <= 12,
    ensures
        r == days_in_month_spec(y as int, m as int),
        28 <= r <= 31,
{
    if m == 2 {
        if is_leap(y) { 29 } else { 28 }
    } else if m == 4 || m == 6 || m == 9 || m == 11 {
        30
    } else {
        31
    }
}

/// Relies on chrono's NaiveDate::from_ymd_opt: a date exists exactly when the
/// month and day exist in that year of the Gregorian calendar and the year lies
/// within chrono's range.
#[verifier::external_body]
pub(crate) fn ymd_exists(y: i32, m: u32, d: u32) -> (r: bool)
    ensures
        r == valid_ymd(y as int, m as int, d as int),
{
    NaiveDate::from_ymd_opt(y, m, d).is_some()
}

/// Relies on chrono's NaiveDate::checked_add_months: the month moves forward,
/// the day is clamped to the new month's length, `None` when out of range.
#[verifier::external_body]
pub(crate) fn add_months(d: Date, n: u32) -> (r: Option<Date>)
    requires
        d.wf(),
    ensures
        n <= i32::MAX ==> r == shift_months(d, n as int),
        n > i32::MAX ==> r.is_none(),
{
    NaiveDate::from_ymd_opt(d.year, d.month, d.day).unwrap().checked_add_months(
        Months::new(n),
    ).map(|x| Date { year: x.year(), month: x.month(), day: x.day() })
}

/// Relies on chrono's NaiveDate::checked_sub_months: the month moves back,
/// the day is clamped to the new month's length, `None` when out of range.
#[verifier::external_body]
pub(crate) fn sub_months(d: Date, n: u32) -> (r: Option<Date>)
    requires
        d.wf(),
    ensures
        n <= i32::MAX ==> r == shift_months(d, -(n as int)),
        n > i32::MAX ==> r.is_none(),
{
    NaiveDate::from_ymd_opt(d.year, d.month, d.day).unwrap().checked_sub_months(
        Months::new(n),
    ).map(|x| Date { year: x.year(), month: x.month(), day: x.day() })
}

/// Relies on chrono's Datelike::weekday, counted from Monday, which follows
/// the proleptic Gregorian calendar.
#[verifier::external_body]
pub(crate) fn weekday(d: &Date) -> (r: u8)
    requires
        d.wf(),
    ensures
        r as int == weekday_of(d.year as int, d.month as int, d.day as int),
        r < 7,
{
    NaiveDate::from_ymd_opt(d.year, d.month, d.day).unwrap().weekday().num_days_from_monday() as u8
}

/// Relies on chrono's NaiveDateTime::signed_duration_since, in whole seconds:
/// the days between the two dates and the seconds between the two times.
#[verifier::external_body]
pub(crate) fn seconds_between(start: &DateTime, end: &DateTime) -> (r: i64)
    requires
        start.wf(),
        end.wf(),
    ensures
        r == (day_number(end.date.year as int, end.date.month as int, end.date.day as int)
            - day_number(start.date.year as int, start.date.month as int, start.date.day as int))
            * 86400 + end.time.seconds - start.time.seconds,
{
    let s = NaiveDateTime::new(
        NaiveDate::from_ymd_opt(start.date.year, start.date.month, start.date.day).unwrap(),
        NaiveTime::from_num_seconds_from_midnight_opt(start.time.seconds, 0).unwrap(),
    );
    let e = NaiveDateTime::new(
        NaiveDate::from_ymd_opt(end.date.year, end.date.month, end.date.day).unwrap(),
        NaiveTime::from_num_seconds_from_midnight_opt(end.time.seconds, 0).unwrap(),
    );
    e.signed_duration_since(s).num_seconds()
}

} // verus!
