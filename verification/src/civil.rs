//! Civil (time zone independent) dates, times and datetimes.
//!
//! A `DateTime` holds its calendar and clock fields as plain integers. Datetimes are ordered
//! lexicographically by their fields, which is captured by the integer [`DateTime::rank`].
use vstd::prelude::*;

verus! {

/// Returns `true` if `year` is a leap year in the proleptic Gregorian calendar.
pub open spec fn leap_year(year: int) -> bool {
    year % 4 == 0 && (year % 100 != 0 || year % 400 == 0)
}

/// The number of days in `month` of `year`.
pub open spec fn month_days(month: int, year: int) -> int {
    if month == 4 || month == 6 || month == 9 || month == 11 {
        30
    } else if month == 2 {
        if leap_year(year) {
            29
        } else {
            28
        }
    } else {
        31
    }
}

/// A valid calendar date within the supported range of years.
pub open spec fn valid_date(year: int, month: int, day: int) -> bool {
    &&& -9999 <= year <= 9999
    &&& 1 <= month <= 12
    &&& 1 <= day <= month_days(month, year)
}

/// A valid wall clock time.
pub open spec fn valid_time(hour: int, minute: int, second: int, nanosecond: int) -> bool {
    &&& 0 <= hour <= 23
    &&& 0 <= minute <= 59
    &&& 0 <= second <= 59
    &&& 0 <= nanosecond <= 999_999_999
}

/// Position of a date in the lexicographic order of `(year, month, day)`.
pub open spec fn date_rank(year: int, month: int, day: int) -> int {
    (year * 13 + month) * 32 + day
}

/// Position of a time of day (at second precision) in the order of `(hour, minute, second)`.
pub open spec fn time_rank(hour: int, minute: int, second: int) -> int {
    (hour * 60 + minute) * 60 + second
}

/// Returns `true` if `year` is a leap year.
pub fn is_leap_year(year: i16) -> (r: bool)
    ensures
        r == leap_year(year as int),
{
    let by_four = year % 4 == 0;
    let by_hundred = year % 100 == 0;
    let by_four_hundred = year % 400 == 0;
    by_four && ((!by_hundred) || by_four_hundred)
}

/// Returns the number of days in `month` of `year`.
pub fn days_in_month(month: i8, year: i16) -> (r: i8)
    ensures
        r == month_days(month as int, year as int),
        28 <= r <= 31,
{
    if month == 9 || month == 4 || month == 6 || month == 11 {
        30
    } else if month == 2 {
        if is_leap_year(year) {
            29
        } else {
            28
        }
    } else {
        31
    }
}

/// A day of the week.
#[derive(Debug, Clone, Copy, PartialEq, Eq, Hash, Structural)]
pub enum Weekday {
    /// Monday.
    Monday,
    /// Tuesday.
    Tuesday,
    /// Wednesday.
    Wednesday,
    /// Thursday.
    Thursday,
    /// Friday.
    Friday,
    /// Saturday.
    Saturday,
    /// Sunday.
    Sunday,
}

impl Weekday {
    /// The weekday number where Monday is `1` and Sunday is `7`.
    pub open spec fn number(self) -> int {
        match self {
            Weekday::Monday => 1,
            Weekday::Tuesday => 2,
            Weekday::Wednesday => 3,
            Weekday::Thursday => 4,
            Weekday::Friday => 5,
            Weekday::Saturday => 6,
            Weekday::Sunday => 7,
        }
    }

    /// Returns the weekday number where Monday is `1` and Sunday is `7`.
    pub fn to_monday_one_offset(self) -> (r: i8)
        ensures
            r == self.number(),
            1 <= r <= 7,
    {
        match self {
            Weekday::Monday => 1,
            Weekday::Tuesday => 2,
            Weekday::Wednesday => 3,
            Weekday::Thursday => 4,
            Weekday::Friday => 5,
            Weekday::Saturday => 6,
            Weekday::Sunday => 7,
        }
    }
}

/// A civil date.
#[derive(Debug, Clone, Copy, PartialEq, Eq, PartialOrd, Ord, Hash, Structural)]
pub struct Date {
    pub year: i16,
    pub month: i8,
    pub day: i8,
}

/// A civil time of day.
#[derive(Debug, Clone, Copy, PartialEq, Eq, PartialOrd, Ord, Hash, Structural)]
pub struct Time {
    pub hour: i8,
    pub minute: i8,
    pub second: i8,
    pub subsec_nanosecond: i32,
}

/// A civil datetime: a date together with a time of day.
///
/// The field order makes the derived ordering the chronological one.
#[derive(Debug, Clone, Copy, PartialEq, Eq, PartialOrd, Ord, Hash, Structural)]
pub struct DateTime {
    pub year: i16,
    pub month: i8,
    pub day: i8,
    pub hour: i8,
    pub minute: i8,
    pub second: i8,
    pub subsec_nanosecond: i32,
}

impl Date {
    /// The date is a valid calendar date.
    pub open spec fn wf(self) -> bool {
        valid_date(self.year as int, self.month as int, self.day as int)
    }

    /// Returns the year.
    pub fn year(&self) -> (r: i16)
        ensures
            r == self.year,
    {
        self.year
    }

    /// Returns the month.
    pub fn month(&self) -> (r: i8)
        ensures
            r == self.month,
    {
        self.month
    }

    /// Returns the day of the month.
    pub fn day(&self) -> (r: i8)
        ensures
            r == self.day,
    {
        self.day
    }

    /// Combines this date with a time of day.
    pub fn to_datetime(self, time: Time) -> (r: DateTime)
        ensures
            r == DateTime::from_parts(self, time),
    {
        DateTime {
            year: self.year,
            month: self.month,
            day: self.day,
            hour: time.hour,
            minute: time.minute,
            second: time.second,
            subsec_nanosecond: time.subsec_nanosecond,
        }
    }

    /// Creates the datetime at the given time of day on this date.
    ///
    /// Panics in the same cases as [`time`]; here the time must be valid.
    pub fn at(self, hour: i8, minute: i8, second: i8, subsec_nanosecond: i32) -> (r: DateTime)
        requires
            valid_time(hour as int, minute as int, second as int, subsec_nanosecond as int),
        ensures
            r == DateTime::from_parts(self, Time { hour, minute, second, subsec_nanosecond }),
    {
        self.to_datetime(Time { hour, minute, second, subsec_nanosecond })
    }
}

impl Time {
    /// The time is a valid time of day.
    pub open spec fn wf(self) -> bool {
        valid_time(
            self.hour as int,
            self.minute as int,
            self.second as int,
            self.subsec_nanosecond as int,
        )
    }

    /// Position of this time in the chronological order of times of day.
    pub open spec fn rank(self) -> int {
        time_rank(self.hour as int, self.minute as int, self.second as int) * 1_000_000_000
            + self.subsec_nanosecond
    }

    /// Midnight.
    pub open spec fn spec_midnight() -> Time {
        Time { hour: 0, minute: 0, second: 0, subsec_nanosecond: 0 }
    }

    /// Midnight.
    pub fn midnight() -> (r: Time)
        ensures
            r.wf(),
            r == Time::spec_midnight(),
    {
        Time { hour: 0, minute: 0, second: 0, subsec_nanosecond: 0 }
    }

    /// Returns the hour.
    pub fn hour(&self) -> (r: i8)
        ensures
            r == self.hour,
    {
        self.hour
    }

    /// Returns the minute.
    pub fn minute(&self) -> (r: i8)
        ensures
            r == self.minute,
    {
        self.minute
    }

    /// Returns the second.
    pub fn second(&self) -> (r: i8)
        ensures
            r == self.second,
    {
        self.second
    }

    /// Returns the fractional part of the second in nanoseconds.
    pub fn subsec_nanosecond(&self) -> (r: i32)
        ensures
            r == self.subsec_nanosecond,
    {
        self.subsec_nanosecond
    }

    /// Returns `true` if `self` is earlier than or equal to `other` on the clock.
    pub fn is_at_or_before(&self, other: &Time) -> (r: bool)
        requires
            self.wf(),
            other.wf(),
        ensures
            r == (self.rank() <= other.rank()),
    {
        if self.hour != other.hour {
            self.hour < other.hour
        } else if self.minute != other.minute {
            self.minute < other.minute
        } else if self.second != other.second {
            self.second < other.second
        } else {
            self.subsec_nanosecond <= other.subsec_nanosecond
        }
    }
}

/// Creates a date. The date must be valid.
pub fn date(year: i16, month: i8, day: i8) -> (r: Date)
    requires
        valid_date(year as int, month as int, day as int),
    ensures
        r == (Date { year, month, day }),
        r.wf(),
{
    Date { year, month, day }
}

/// Creates a time of day. The time must be valid.
pub fn time(hour: i8, minute: i8, second: i8, subsec_nanosecond: i32) -> (r: Time)
    requires
        valid_time(hour as int, minute as int, second as int, subsec_nanosecond as int),
    ensures
        r == (Time { hour, minute, second, subsec_nanosecond }),
        r.wf(),
{
    Time { hour, minute, second, subsec_nanosecond }
}

/// Creates a datetime. The date and the time must be valid.
pub fn datetime(
    year: i16,
    month: i8,
    day: i8,
    hour: i8,
    minute: i8,
    second: i8,
    subsec_nanosecond: i32,
) -> (r: DateTime)
    requires
        valid_date(year as int, month as int, day as int),
        valid_time(hour as int, minute as int, second as int, subsec_nanosecond as int),
    ensures
        r == (DateTime { year, month, day, hour, minute, second, subsec_nanosecond }),
        r.wf(),
{
    DateTime { year, month, day, hour, minute, second, subsec_nanosecond }
}

impl DateTime {
    /// The smallest supported datetime: `-9999-01-01T00:00:00`.
    pub open spec fn spec_min() -> DateTime {
        DateTime {
            year: -9999i16,
            month: 1,
            day: 1,
            hour: 0,
            minute: 0,
            second: 0,
            subsec_nanosecond: 0,
        }
    }

    /// The largest supported datetime: `9999-12-31T23:59:59.999999999`.
    pub open spec fn spec_max() -> DateTime {
        DateTime {
            year: 9999,
            month: 12,
            day: 31,
            hour: 23,
            minute: 59,
            second: 59,
            subsec_nanosecond: 999_999_999,
        }
    }

    /// The datetime is made of a valid date and a valid time.
    pub open spec fn wf(self) -> bool {
        &&& valid_date(self.year as int, self.month as int, self.day as int)
        &&& valid_time(
            self.hour as int,
            self.minute as int,
            self.second as int,
            self.subsec_nanosecond as int,
        )
    }

    /// Assembles a datetime from a date and a time.
    pub open spec fn from_parts(date: Date, time: Time) -> DateTime {
        DateTime {
            year: date.year,
            month: date.month,
            day: date.day,
            hour: time.hour,
            minute: time.minute,
            second: time.second,
            subsec_nanosecond: time.subsec_nanosecond,
        }
    }

    /// The datetime one nanosecond later; the calendar carries into the next second, minute,
    /// hour, day, month and year.
    pub open spec fn successor(self) -> DateTime {
        if self.subsec_nanosecond < 999_999_999 {
            DateTime { subsec_nanosecond: (self.subsec_nanosecond + 1) as i32, ..self }
        } else if self.second < 59 {
            DateTime { second: (self.second + 1) as i8, subsec_nanosecond: 0, ..self }
        } else if self.minute < 59 {
            DateTime { minute: (self.minute + 1) as i8, second: 0, subsec_nanosecond: 0, ..self }
        } else if self.hour < 23 {
            DateTime {
                hour: (self.hour + 1) as i8,
                minute: 0,
                second: 0,
                subsec_nanosecond: 0,
                ..self
            }
        } else if self.day < month_days(self.month as int, self.year as int) {
            DateTime {
                year: self.year,
                month: self.month,
                day: (self.day + 1) as i8,
                hour: 0,
                minute: 0,
                second: 0,
                subsec_nanosecond: 0,
            }
        } else if self.month < 12 {
            DateTime {
                year: self.year,
                month: (self.month + 1) as i8,
                day: 1,
                hour: 0,
                minute: 0,
                second: 0,
                subsec_nanosecond: 0,
            }
        } else {
            DateTime {
                year: (self.year + 1) as i16,
                month: 1,
                day: 1,
                hour: 0,
                minute: 0,
                second: 0,
                subsec_nanosecond: 0,
            }
        }
    }

    /// Position of the date of this datetime.
    pub open spec fn day_rank(self) -> int {
        date_rank(self.year as int, self.month as int, self.day as int)
    }

    /// Position of this datetime at second precision.
    pub open spec fn sec_rank(self) -> int {
        self.day_rank() * 86400 + time_rank(self.hour as int, self.minute as int, self.second as int)
    }

    /// Position of this datetime in chronological order.
    pub open spec fn rank(self) -> int {
        self.sec_rank() * 1_000_000_000 + self.subsec_nanosecond
    }

    /// The date part.
    pub open spec fn date_of(self) -> Date {
        Date { year: self.year, month: self.month, day: self.day }
    }

    /// The time part.
    pub open spec fn time_of(self) -> Time {
        Time {
            hour: self.hour,
            minute: self.minute,
            second: self.second,
            subsec_nanosecond: self.subsec_nanosecond,
        }
    }

    /// Creates a datetime from its components.
    ///
    /// # Errors
    ///
    /// Returns `None` if the components do not form a valid date and time.
    pub fn new(
        year: i16,
        month: i8,
        day: i8,
        hour: i8,
        minute: i8,
        second: i8,
        subsec_nanosecond: i32,
    ) -> (r: Option<DateTime>)
        ensures
            r is Some <==> (valid_date(year as int, month as int, day as int) && valid_time(
                hour as int,
                minute as int,
                second as int,
                subsec_nanosecond as int,
            )),
            r matches Some(d) ==> d == (DateTime {
                year,
                month,
                day,
                hour,
                minute,
                second,
                subsec_nanosecond,
            }),
    {
        if year < -9999 || year > 9999 || month < 1 || month > 12 || day < 1 {
            return None;
        }
        if day > days_in_month(month, year) {
            return None;
        }
        if hour < 0 || hour > 23 || minute < 0 || minute > 59 || second < 0 || second > 59 {
            return None;
        }
        if subsec_nanosecond < 0 || subsec_nanosecond > 999_999_999 {
            return None;
        }
        Some(DateTime { year, month, day, hour, minute, second, subsec_nanosecond })
    }

    /// The smallest supported datetime.
    pub fn min_value() -> (r: DateTime)
        ensures
            r == DateTime::spec_min(),
            r.wf(),
    {
        DateTime {
            year: -9999,
            month: 1,
            day: 1,
            hour: 0,
            minute: 0,
            second: 0,
            subsec_nanosecond: 0,
        }
    }

    /// The largest supported datetime.
    pub fn max_value() -> (r: DateTime)
        ensures
            r == DateTime::spec_max(),
            r.wf(),
    {
        DateTime {
            year: 9999,
            month: 12,
            day: 31,
            hour: 23,
            minute: 59,
            second: 59,
            subsec_nanosecond: 999_999_999,
        }
    }

    /// Returns the year.
    pub fn year(&self) -> (r: i16)
        ensures
            r == self.year,
    {
        self.year
    }

    /// Returns the month.
    pub fn month(&self) -> (r: i8)
        ensures
            r == self.month,
    {
        self.month
    }

    /// Returns the day of the month.
    pub fn day(&self) -> (r: i8)
        ensures
            r == self.day,
    {
        self.day
    }

    /// Returns the hour.
    pub fn hour(&self) -> (r: i8)
        ensures
            r == self.hour,
    {
        self.hour
    }

    /// Returns the minute.
    pub fn minute(&self) -> (r: i8)
        ensures
            r == self.minute,
    {
        self.minute
    }

    /// Returns the second.
    pub fn second(&self) -> (r: i8)
        ensures
            r == self.second,
    {
        self.second
    }

    /// Returns the fractional part of the second in nanoseconds.
    pub fn subsec_nanosecond(&self) -> (r: i32)
        ensures
            r == self.subsec_nanosecond,
    {
        self.subsec_nanosecond
    }

    /// Returns the date part.
    pub fn date(&self) -> (r: Date)
        ensures
            r == self.date_of(),
    {
        Date { year: self.year, month: self.month, day: self.day }
    }

    /// Returns the time part.
    pub fn time(&self) -> (r: Time)
        ensures
            r == self.time_of(),
    {
        Time {
            hour: self.hour,
            minute: self.minute,
            second: self.second,
            subsec_nanosecond: self.subsec_nanosecond,
        }
    }

    /// Returns this datetime with its time of day replaced by `time`.
    pub fn with_time(&self, time: Time) -> (r: DateTime)
        ensures
            r == DateTime::from_parts(self.date_of(), time),
    {
        DateTime {
            year: self.year,
            month: self.month,
            day: self.day,
            hour: time.hour,
            minute: time.minute,
            second: time.second,
            subsec_nanosecond: time.subsec_nanosecond,
        }
    }

    /// Returns `true` if `self` happens strictly before `other`.
    pub fn is_before(&self, other: &DateTime) -> (r: bool)
        requires
            self.wf(),
            other.wf(),
        ensures
            r == (self.rank() < other.rank()),
    {
        proof {
            lemma_rank_order(*self, *other);
        }
        if self.year != other.year {
            self.year < other.year
        } else if self.month != other.month {
            self.month < other.month
        } else if self.day != other.day {
            self.day < other.day
        } else if self.hour != other.hour {
            self.hour < other.hour
        } else if self.minute != other.minute {
            self.minute < other.minute
        } else if self.second != other.second {
            self.second < other.second
        } else {
            self.subsec_nanosecond < other.subsec_nanosecond
        }
    }

    /// Returns `true` if `self` and `other` are the same datetime.
    pub fn is_same(&self, other: &DateTime) -> (r: bool)
        ensures
            r == (*self == *other),
    {
        self.year == other.year && self.month == other.month && self.day == other.day
            && self.hour == other.hour && self.minute == other.minute && self.second
            == other.second && self.subsec_nanosecond == other.subsec_nanosecond
    }

    /// Returns the later of `self` and `other`.
    pub fn later(self, other: DateTime) -> (r: DateTime)
        requires
            self.wf(),
            other.wf(),
        ensures
            r == (if self.rank() < other.rank() {
                other
            } else {
                self
            }),
    {
        if self.is_before(&other) {
            other
        } else {
            self
        }
    }

    /// Returns the earlier of `self` and `other`.
    pub fn earlier(self, other: DateTime) -> (r: DateTime)
        requires
            self.wf(),
            other.wf(),
        ensures
            r == (if other.rank() < self.rank() {
                other
            } else {
                self
            }),
    {
        if other.is_before(&self) {
            other
        } else {
            self
        }
    }
}

/// The chronological order of valid datetimes is the lexicographic order of their fields.
pub proof fn lemma_rank_order(a: DateTime, b: DateTime)
    requires
        a.wf(),
        b.wf(),
    ensures
        a.year < b.year ==> a.rank() < b.rank(),
        a.year == b.year && a.month < b.month ==> a.rank() < b.rank(),
        a.year == b.year && a.month == b.month && a.day < b.day ==> a.rank() < b.rank(),
        a.year == b.year && a.month == b.month && a.day == b.day && a.hour < b.hour ==> a.rank()
            < b.rank(),
        a.year == b.year && a.month == b.month && a.day == b.day && a.hour == b.hour && a.minute
            < b.minute ==> a.rank() < b.rank(),
        a.year == b.year && a.month == b.month && a.day == b.day && a.hour == b.hour && a.minute
            == b.minute && a.second < b.second ==> a.rank() < b.rank(),
        a.year == b.year && a.month == b.month && a.day == b.day && a.hour == b.hour && a.minute
            == b.minute && a.second == b.second ==> (a.rank() < b.rank() <==> a.subsec_nanosecond
            < b.subsec_nanosecond),
        a.rank() == b.rank() <==> a == b,
{
    lemma_rank_bounds(a);
    lemma_rank_bounds(b);
}

/// Bounds of the parts of a datetime's rank.
pub proof fn lemma_rank_bounds(a: DateTime)
    requires
        a.wf(),
    ensures
        0 <= time_rank(a.hour as int, a.minute as int, a.second as int) < 86400,
        0 <= a.subsec_nanosecond < 1_000_000_000,
        a.rank() == a.day_rank() * 86_400_000_000_000 + time_rank(
            a.hour as int,
            a.minute as int,
            a.second as int,
        ) * 1_000_000_000 + a.subsec_nanosecond,
{
}

/// Moving two datetimes to the same time of day keeps their order.
pub proof fn lemma_same_time_order(a: DateTime, b: DateTime, t: Time)
    requires
        a.wf(),
        b.wf(),
        t.wf(),
        a.rank() <= b.rank(),
    ensures
        DateTime::from_parts(a.date_of(), t).wf(),
        DateTime::from_parts(b.date_of(), t).wf(),
        DateTime::from_parts(a.date_of(), t).rank() <= DateTime::from_parts(b.date_of(), t).rank(),
{
    let x = DateTime::from_parts(a.date_of(), t);
    let y = DateTime::from_parts(b.date_of(), t);
    lemma_rank_bounds(a);
    lemma_rank_bounds(b);
    lemma_rank_bounds(x);
    lemma_rank_bounds(y);
    assert(a.day_rank() <= b.day_rank());
}

} // verus!
