//! Calendar computations delegated to `jiff`.
//!
//! Every item in this module is trusted: its contract is believed, not proved. The contracts
//! name the results of `jiff`'s calendar arithmetic and state the few facts the library relies on.
use crate::civil::{valid_date, DateTime};
use crate::span::Span;
use vstd::prelude::*;

verus! {

/// Converts a datetime to `jiff` by calling `jiff::civil::datetime`, which panics on invalid
/// components; hence the datetime must be valid. Nothing is claimed of the opaque result.
#[verifier::external_body]
fn to_jiff_datetime(d: &DateTime) -> jiff::civil::DateTime
    requires
        d.wf(),
{
    jiff::civil::datetime(d.year, d.month, d.day, d.hour, d.minute, d.second, d.subsec_nanosecond)
}

/// Reads the components of a `jiff` datetime through its getters (`year`, `month`, ...).
///
/// Claims: the result is a valid datetime, as every `jiff::civil::DateTime` is (the range of
/// each getter is documented, and days never exceed the length of their month).
#[verifier::external_body]
pub(crate) fn from_jiff_datetime(d: jiff::civil::DateTime) -> (r: DateTime)
    ensures
        r.wf(),
{
    DateTime {
        year: d.year(),
        month: d.month(),
        day: d.day(),
        hour: d.hour(),
        minute: d.minute(),
        second: d.second(),
        subsec_nanosecond: d.subsec_nanosecond(),
    }
}

/// Converts a span to `jiff` by calling `jiff::Span::new` and its unit setters (`years`,
/// `months`, ...), which panic on values beyond the documented limits; hence the span must be
/// well formed. Nothing is claimed of the opaque result.
#[verifier::external_body]
fn to_jiff_span(s: &Span) -> jiff::Span
    requires
        s.wf(),
{
    jiff::Span::new().years(s.years).months(s.months).weeks(s.weeks).days(s.days).hours(
        s.hours,
    ).minutes(s.minutes).seconds(s.seconds).milliseconds(s.milliseconds).microseconds(
        s.microseconds,
    ).nanoseconds(s.nanoseconds)
}

/// Reads the units of a `jiff` span through its getters (`get_years`, `get_months`, ...).
///
/// Claims: the result is well formed: every unit within the limit documented by the
/// corresponding `try_` setter, and all non-zero units sharing the span's sign.
#[verifier::external_body]
pub(crate) fn from_jiff_span(s: jiff::Span) -> (r: Span)
    ensures
        r.wf(),
{
    Span {
        years: s.get_years() as i64,
        months: s.get_months() as i64,
        weeks: s.get_weeks() as i64,
        days: s.get_days() as i64,
        hours: s.get_hours() as i64,
        minutes: s.get_minutes(),
        seconds: s.get_seconds(),
        milliseconds: s.get_milliseconds(),
        microseconds: s.get_microseconds(),
        nanoseconds: s.get_nanoseconds(),
    }
}

/// The number of days from 1970-01-01 to the date `year-month-day` of the proleptic Gregorian
/// calendar (negative before 1970).
#[verifier::opaque]
pub open spec fn days_from_civil(year: int, month: int, day: int) -> int {
    let y = if month <= 2 {
        year - 1
    } else {
        year
    };
    let era = y / 400;
    let year_of_era = y - era * 400;
    let shifted_month = if month > 2 {
        month - 3
    } else {
        month + 9
    };
    let day_of_year = (153 * shifted_month + 2) / 5 + day - 1;
    let day_of_era = year_of_era * 365 + year_of_era / 4 - year_of_era / 100 + day_of_year;
    era * 146097 + day_of_era - 719468
}

/// The weekday of a date, numbered from Monday (`1`) to Sunday (`7`); 1970-01-01 was a Thursday.
#[verifier::opaque]
pub open spec fn civil_weekday(year: i16, month: i8, day: i8) -> i8 {
    ((days_from_civil(year as int, month as int, day as int) + 3) % 7 + 1) as i8
}

/// Calls `jiff::civil::Date::weekday` followed by `Weekday::to_monday_one_offset`.
///
/// Claims: the result is `civil_weekday(year, month, day)`, the weekday of the date in the
/// proleptic Gregorian calendar that `jiff` uses, numbered as the documentation of
/// `to_monday_one_offset` promises. The date must be valid, since
/// `jiff::civil::date` panics otherwise.
#[verifier::external_body]
pub(crate) fn weekday_of(year: i16, month: i8, day: i8) -> (r: i8)
    requires
        valid_date(year as int, month as int, day as int),
    ensures
        r == civil_weekday(year, month, day),
        1 <= r <= 7,
{
    jiff::civil::date(year, month, day).weekday().to_monday_one_offset()
}

/// The number of nanoseconds from 1970-01-01T00:00:00 to `d`, counting every day as 86400
/// seconds (civil time has no time zone).
pub open spec fn civil_nanos(d: DateTime) -> int {
    (days_from_civil(d.year as int, d.month as int, d.day as int) * 86400 + d.hour * 3600
        + d.minute * 60 + d.second) * 1_000_000_000 + d.subsec_nanosecond
}

/// The signed number of nanoseconds elapsed from `from` until `to`.
#[verifier::opaque]
pub open spec fn civil_nanos_until(from: DateTime, to: DateTime) -> i128 {
    (civil_nanos(to) - civil_nanos(from)) as i128
}

/// Calls `jiff::civil::DateTime::duration_until` and `SignedDuration::as_nanos`.
///
/// Claims: the result is `civil_nanos_until(*from, *to)`, the civil difference of the two
/// datetimes in nanoseconds (which fits in an `i128`); it is negative exactly when `to` is before
/// `from` (as the documentation of `duration_until` says) and zero exactly when both are the same
/// datetime.
#[verifier::external_body]
pub(crate) fn nanos_until(from: &DateTime, to: &DateTime) -> (r: i128)
    requires
        from.wf(),
        to.wf(),
    ensures
        r == civil_nanos_until(*from, *to),
        r < 0 <==> to.rank() < from.rank(),
        r == 0 <==> *from == *to,
{
    to_jiff_datetime(from).duration_until(to_jiff_datetime(to)).as_nanos()
}

/// The datetime `d + s` as computed by `jiff`, or `None` when it leaves the supported range.
pub uninterp spec fn civil_add(d: DateTime, s: Span) -> Option<DateTime>;

/// Calls `jiff::civil::DateTime::checked_add` with a span.
///
/// Claims: the call succeeds exactly when `civil_add(*d, *s)` is `Some`, with that datetime,
/// which is valid. Adding the zero span gives `d` back (the span has no units to add); adding a
/// positive span gives a later datetime and a negative span an earlier one, since every unit of
/// the span moves the datetime in the direction of its sign. Adding one nanosecond gives the next
/// nanosecond, and fails only at `DateTime::MAX`, the last datetime `jiff` supports.
#[verifier::external_body]
pub(crate) fn checked_add(d: &DateTime, s: &Span) -> (r: Result<DateTime, jiff::Error>)
    requires
        d.wf(),
        s.wf(),
    ensures
        r is Ok <==> civil_add(*d, *s) is Some,
        r matches Ok(x) ==> {
            &&& civil_add(*d, *s) == Some(x)
            &&& x.wf()
            &&& s.sign() > 0 ==> d.rank() < x.rank()
            &&& s.sign() < 0 ==> x.rank() < d.rank()
            &&& s.sign() == 0 ==> x == *d
        },
        s.sign() == 0 ==> r is Ok,
        *s == Span::one_nanosecond() ==> (r is Ok <==> *d != DateTime::spec_max()),
        *s == Span::one_nanosecond() ==> (r matches Ok(x) ==> x == d.successor()),
{
    to_jiff_datetime(d).checked_add(to_jiff_span(s)).map(from_jiff_datetime)
}

/// Calls `jiff::Span::checked_mul`.
///
/// Claims: as its documentation says, every unit is multiplied by `k`, and the call fails exactly
/// when a product leaves the limit of its unit. `k` must not be `i64::MIN`, for which `jiff`
/// fails even on the zero span.
#[verifier::external_body]
pub(crate) fn span_checked_mul(s: &Span, k: i64) -> (r: Result<Span, jiff::Error>)
    requires
        s.wf(),
        k > i64::MIN,
    ensures
        r is Ok <==> s.times_fits(k as int),
        r matches Ok(x) ==> x == s.times(k as int) && x.wf(),
{
    to_jiff_span(s).checked_mul(k).map(from_jiff_span)
}

/// The span from `from` until `to` as computed by `jiff` (largest unit: days).
pub uninterp spec fn civil_until(from: DateTime, to: DateTime) -> Option<Span>;

/// Calls `jiff::civil::DateTime::until`.
///
/// Claims: the call succeeds exactly when `civil_until(*from, *to)` is `Some`, with that span,
/// which is well formed.
#[verifier::external_body]
pub(crate) fn until(from: &DateTime, to: &DateTime) -> (r: Result<Span, jiff::Error>)
    requires
        from.wf(),
        to.wf(),
    ensures
        r is Ok <==> civil_until(*from, *to) is Some,
        r matches Ok(x) ==> civil_until(*from, *to) == Some(x) && x.wf(),
{
    to_jiff_datetime(from).until(to_jiff_datetime(to)).map(from_jiff_span)
}

/// The text `jiff` displays for a datetime, such as `2025-01-01T00:00:00`.
pub uninterp spec fn civil_text(d: DateTime) -> Seq<char>;

/// Calls `to_string` on a `jiff::civil::DateTime` (its `Display` implementation).
///
/// Claims: the result is `civil_text(*d)`.
#[verifier::external_body]
pub(crate) fn datetime_text(d: &DateTime) -> (r: String)
    requires
        d.wf(),
    ensures
        r@ == civil_text(*d),
{
    to_jiff_datetime(d).to_string()
}

/// The text `jiff` displays for a span, such as `PT1S` or `-P1D`.
pub uninterp spec fn span_text_of(s: Span) -> Seq<char>;

/// Calls `to_string` on a `jiff::Span` (its `Display` implementation).
///
/// Claims: the result is `span_text_of(*s)`.
#[verifier::external_body]
pub(crate) fn span_text(s: &Span) -> (r: String)
    requires
        s.wf(),
    ensures
        r@ == span_text_of(*s),
{
    to_jiff_span(s).to_string()
}

/// Calls `to_string` on a `jiff::Error`. Nothing is claimed of the message.
#[verifier::external_body]
pub(crate) fn jiff_error_text(e: &jiff::Error) -> String {
    e.to_string()
}

/// The digits of `n` in base ten.
pub open spec fn digits(n: nat) -> Seq<char>
    decreases n,
{
    let d = n % 10;
    let c = if d == 0 {
        '0'
    } else if d == 1 {
        '1'
    } else if d == 2 {
        '2'
    } else if d == 3 {
        '3'
    } else if d == 4 {
        '4'
    } else if d == 5 {
        '5'
    } else if d == 6 {
        '6'
    } else if d == 7 {
        '7'
    } else if d == 8 {
        '8'
    } else {
        '9'
    };
    if n < 10 {
        seq![c]
    } else {
        digits(n / 10).push(c)
    }
}

/// The decimal notation of `v`, with a leading `-` for negative numbers.
pub open spec fn decimal_text(v: int) -> Seq<char> {
    if v < 0 {
        seq!['-'] + digits((-v) as nat)
    } else {
        digits(v as nat)
    }
}

/// Calls `to_string` on an `i64` (its `Display` implementation).
///
/// Claims: the result is the decimal notation of `v`, as `Display` for integers prints.
#[verifier::external_body]
pub(crate) fn decimal(v: i64) -> (r: String)
    ensures
        r@ == decimal_text(v as int),
{
    v.to_string()
}

} // verus!
