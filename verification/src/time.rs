use vstd::prelude::*;

use crate::error::Error;

verus! {

/// Years the library's calendar types accept, matching the range of the civil
/// date-time values the schedule API works with.
pub const MIN_YEAR: i32 = -9999;
pub const MAX_YEAR: i32 = 9999;

pub open spec fn is_leap_year(y: int) -> bool {
    y % 4 == 0 && (y % 100 != 0 || y % 400 == 0)
}

pub open spec fn days_in_month(y: int, m: int) -> int {
    if m == 2 {
        if is_leap_year(y) {
            29
        } else {
            28
        }
    } else if m == 4 || m == 6 || m == 9 || m == 11 {
        30
    } else {
        31
    }
}

/// A proleptic Gregorian calendar date is valid when the month exists and the
/// day exists within that month of that year.
pub open spec fn valid_date(y: int, m: int, d: int) -> bool {
    &&& MIN_YEAR <= y <= MAX_YEAR
    &&& 1 <= m <= 12
    &&& 1 <= d <= days_in_month(y, m)
}

/// A calendar date (proleptic Gregorian).
#[derive(Debug, Clone, Copy, PartialEq, Eq, Structural)]
pub struct Date {
    pub year: i32,
    pub month: u32,
    pub day: u32,
}

impl Date {
    pub open spec fn wf(self) -> bool {
        valid_date(self.year as int, self.month as int, self.day as int)
    }

    /// Builds a date, rejecting any (year, month, day) triple that does not
    /// name a real calendar day.
    pub fn new(year: i32, month: u32, day: u32) -> (r: Result<Date, Error>)
        ensures
            r is Ok <==> valid_date(year as int, month as int, day as int),
            r matches Ok(d) ==> d == (Date { year, month, day }),
            r matches Err(e) ==> e == Error::InvalidTime,
    {
        if year < MIN_YEAR || year > MAX_YEAR || month < 1 || month > 12 {
            return Err(Error::InvalidTime);
        }
        let dim: u32 = days_in_month_exec(year, month);
        if day < 1 || day > dim {
            return Err(Error::InvalidTime);
        }
        Ok(Date { year, month, day })
    }
}

/// Builds a date, rejecting a triple that is not a real calendar day.
pub fn date(year: i32, month: u32, day: u32) -> (r: Result<Date, Error>)
    ensures
        r is Ok <==> valid_date(year as int, month as int, day as int),
        r matches Ok(d) ==> d == (Date { year, month, day }),
        r matches Err(e) ==> e == Error::InvalidTime,
{
    Date::new(year, month, day)
}

fn is_leap_year_exec(y: i32) -> (r: bool)
    ensures
        r == is_leap_year(y as int),
{
    let m4 = y.checked_rem_euclid(4).unwrap();
    let m100 = y.checked_rem_euclid(100).unwrap();
    let m400 = y.checked_rem_euclid(400).unwrap();
    m4 == 0 && (m100 != 0 || m400 == 0)
}

fn days_in_month_exec(y: i32, m: u32) -> (r: u32)
    requires
        1 <= m <= 12,
    ensures
        r == days_in_month(y as int, m as int),
{
    if m == 2 {
        if is_leap_year_exec(y) {
            29
        } else {
            28
        }
    } else if m == 4 || m == 6 || m == 9 || m == 11 {
        30
    } else {
        31
    }
}

/// A calendar date together with a wall-clock time of day.
#[derive(Debug, Clone, Copy, PartialEq, Eq, Structural)]
pub struct DateTime {
    pub date: Date,
    pub hour: u32,
    pub minute: u32,
    pub second: u32,
}

/// Seconds since the start of the day.
pub open spec fn spec_seconds_of_day(t: DateTime) -> int {
    t.hour * 3600 + t.minute * 60 + t.second
}

/// Strict calendar order on dates.
pub open spec fn date_before(a: Date, b: Date) -> bool {
    ||| a.year < b.year
    ||| (a.year == b.year && a.month < b.month)
    ||| (a.year == b.year && a.month == b.month && a.day < b.day)
}

/// Strict calendar order on date-times.
pub open spec fn before(a: DateTime, b: DateTime) -> bool {
    ||| date_before(a.date, b.date)
    ||| (a.date == b.date && spec_seconds_of_day(a) < spec_seconds_of_day(b))
}

impl DateTime {
    pub open spec fn wf(self) -> bool {
        &&& self.date.wf()
        &&& self.hour <= 23
        &&& self.minute <= 59
        &&& self.second <= 59
    }

    /// Builds a date-time, rejecting out-of-range time-of-day components.
    pub fn new(date: Date, hour: u32, minute: u32, second: u32) -> (r: Result<DateTime, Error>)
        requires
            date.wf(),
        ensures
            r is Ok <==> (hour <= 23 && minute <= 59 && second <= 59),
            r matches Ok(t) ==> t == (DateTime { date, hour, minute, second }) && t.wf(),
            r matches Err(e) ==> e == Error::InvalidTime,
    {
        if hour > 23 || minute > 59 || second > 59 {
            return Err(Error::InvalidTime);
        }
        Ok(DateTime { date, hour, minute, second })
    }

    pub fn seconds_of_day(&self) -> (r: u32)
        requires
            self.wf(),
        ensures
            r == spec_seconds_of_day(*self),
    {
        self.hour * 3600 + self.minute * 60 + self.second
    }

    /// Strict calendar order: is `self` earlier than `other`?
    pub fn lt(&self, other: &DateTime) -> (r: bool)
        ensures
            r == before(*self, *other),
    {
        if self.date.year != other.date.year {
            return self.date.year < other.date.year;
        }
        if self.date.month != other.date.month {
            return self.date.month < other.date.month;
        }
        if self.date.day != other.date.day {
            return self.date.day < other.date.day;
        }
        let a: u64 = self.hour as u64 * 3600 + self.minute as u64 * 60 + self.second as u64;
        let b: u64 = other.hour as u64 * 3600 + other.minute as u64 * 60 + other.second as u64;
        a < b
    }

    pub fn le(&self, other: &DateTime) -> (r: bool)
        ensures
            r == !before(*other, *self),
    {
        !other.lt(self)
    }
}

/// Relies on chrono's `Local::now` and `NaiveDate`'s `Datelike` accessors:
/// the current local date is a real day of the proleptic Gregorian calendar,
/// so its month is in 1..=12 and its day exists in that month.
#[verifier::external_body]
fn current_local_date() -> (r: (i32, u32, u32))
    ensures
        1 <= r.1 <= 12,
        1 <= r.2 <= days_in_month(r.0 as int, r.1 as int),
{
    let d = chrono::Local::now().date_naive();
    (chrono::Datelike::year(&d), chrono::Datelike::month(&d), chrono::Datelike::day(&d))
}

/// Relies on chrono's `Local::now` and the `Datelike`/`Timelike` accessors:
/// the current local date is a real calendar day, and the clock components
/// are a valid time of day (hour 0..=23, minute and second 0..=59).
#[verifier::external_body]
fn current_local_datetime() -> (r: (i32, u32, u32, u32, u32, u32))
    ensures
        1 <= r.1 <= 12,
        1 <= r.2 <= days_in_month(r.0 as int, r.1 as int),
        r.3 <= 23,
        r.4 <= 59,
        r.5 <= 59,
{
    let t = chrono::Local::now().naive_local();
    let d = chrono::NaiveDateTime::date(&t);
    (
        chrono::Datelike::year(&d),
        chrono::Datelike::month(&d),
        chrono::Datelike::day(&d),
        chrono::Timelike::hour(&t),
        chrono::Timelike::minute(&t),
        chrono::Timelike::second(&t),
    )
}

/// The current local calendar date; fails only when the system clock reports
/// a year outside the library's supported range.
pub fn today() -> (r: Result<Date, Error>)
    ensures
        r matches Ok(d) ==> d.wf(),
        r matches Err(e) ==> e == Error::InvalidTime,
{
    let (y, m, d) = current_local_date();
    Date::new(y, m, d)
}

/// The current local date and time; fails only when the system clock reports
/// a year outside the library's supported range.
pub fn now() -> (r: Result<DateTime, Error>)
    ensures
        r matches Ok(t) ==> t.wf(),
        r matches Err(e) ==> e == Error::InvalidTime,
{
    let (y, mo, d, h, mi, s) = current_local_datetime();
    let date = Date::new(y, mo, d)?;
    DateTime::new(date, h, mi, s)
}

/// Today's date at 23:59:59, or `None` when the clock is out of range.
pub fn one_sec_before_midnight() -> (r: Option<DateTime>)
    ensures
        r matches Some(t) ==> t.wf() && t.hour == 23 && t.minute == 59 && t.second == 59,
{
    match today() {
        Ok(d) => Some(DateTime { date: d, hour: 23, minute: 59, second: 59 }),
        Err(_) => None,
    }
}

/// Today's date at 00:00:00, or `None` when the clock is out of range.
pub fn midnight() -> (r: Option<DateTime>)
    ensures
        r matches Some(t) ==> t.wf() && t.hour == 0 && t.minute == 0 && t.second == 0,
{
    match today() {
        Ok(d) => Some(DateTime { date: d, hour: 0, minute: 0, second: 0 }),
        Err(_) => None,
    }
}

} // verus!
