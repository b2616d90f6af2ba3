//! Spans of calendar and clock time.
use vstd::prelude::*;

verus! {

/// The absolute value of `x`.
pub open spec fn abs(x: int) -> int {
    if x < 0 {
        -x
    } else {
        x
    }
}

/// `m` carrying the sign `sg`.
pub open spec fn signed(sg: int, m: int) -> int {
    if sg > 0 {
        m
    } else if sg < 0 {
        -m
    } else {
        0
    }
}

/// A span of time made of calendar units (years, months, weeks, days) and clock units (hours
/// down to nanoseconds).
///
/// All non-zero units of a span share one sign: a span is either positive, negative or zero.
#[derive(Debug, Clone, Copy, PartialEq, Eq, Hash, Structural)]
pub struct Span {
    /// Years.
    pub years: i64,
    /// Months.
    pub months: i64,
    /// Weeks.
    pub weeks: i64,
    /// Days.
    pub days: i64,
    /// Hours.
    pub hours: i64,
    /// Minutes.
    pub minutes: i64,
    /// Seconds.
    pub seconds: i64,
    /// Milliseconds.
    pub milliseconds: i64,
    /// Microseconds.
    pub microseconds: i64,
    /// Nanoseconds.
    pub nanoseconds: i64,
}

impl Span {
    /// Every unit is within the limit that `jiff` documents for it and all non-zero units share
    /// one sign.
    pub open spec fn wf(self) -> bool {
        &&& -19_998 <= self.years <= 19_998
        &&& -239_976 <= self.months <= 239_976
        &&& -1_043_497 <= self.weeks <= 1_043_497
        &&& -7_304_484 <= self.days <= 7_304_484
        &&& -175_307_616 <= self.hours <= 175_307_616
        &&& -10_518_456_960 <= self.minutes <= 10_518_456_960
        &&& -631_107_417_600 <= self.seconds <= 631_107_417_600
        &&& -631_107_417_600_000 <= self.milliseconds <= 631_107_417_600_000
        &&& -631_107_417_600_000_000 <= self.microseconds <= 631_107_417_600_000_000
        &&& -9_223_372_036_854_775_807 <= self.nanoseconds <= 9_223_372_036_854_775_807
        &&& (self.years >= 0 && self.months >= 0 && self.weeks >= 0 && self.days >= 0 && self.hours >= 0 && self.minutes >= 0 && self.seconds >= 0 && self.milliseconds >= 0 && self.microseconds >= 0 && self.nanoseconds >= 0) || (self.years <= 0 && self.months <= 0 && self.weeks <= 0 && self.days <= 0 && self.hours <= 0 && self.minutes <= 0 && self.seconds <= 0 && self.milliseconds <= 0 && self.microseconds <= 0 && self.nanoseconds <= 0)
    }

    /// `1` for a positive span, `-1` for a negative one and `0` for the zero span.
    pub open spec fn sign(self) -> int {
        if self.years > 0 || self.months > 0 || self.weeks > 0 || self.days > 0 || self.hours > 0 || self.minutes > 0 || self.seconds > 0 || self.milliseconds > 0 || self.microseconds > 0 || self.nanoseconds > 0 {
            1
        } else if self.years < 0 || self.months < 0 || self.weeks < 0 || self.days < 0 || self.hours < 0 || self.minutes < 0 || self.seconds < 0 || self.milliseconds < 0 || self.microseconds < 0 || self.nanoseconds < 0 {
            -1
        } else {
            0
        }
    }

    /// The span with every unit multiplied by `k`.
    pub open spec fn times(self, k: int) -> Span {
        Span {
            years: (self.years * k) as i64,
            months: (self.months * k) as i64,
            weeks: (self.weeks * k) as i64,
            days: (self.days * k) as i64,
            hours: (self.hours * k) as i64,
            minutes: (self.minutes * k) as i64,
            seconds: (self.seconds * k) as i64,
            milliseconds: (self.milliseconds * k) as i64,
            microseconds: (self.microseconds * k) as i64,
            nanoseconds: (self.nanoseconds * k) as i64,
        }
    }

    /// Every unit multiplied by `k` stays within its limit.
    pub open spec fn times_fits(self, k: int) -> bool {
        &&& -19_998 <= self.years * k <= 19_998
        &&& -239_976 <= self.months * k <= 239_976
        &&& -1_043_497 <= self.weeks * k <= 1_043_497
        &&& -7_304_484 <= self.days * k <= 7_304_484
        &&& -175_307_616 <= self.hours * k <= 175_307_616
        &&& -10_518_456_960 <= self.minutes * k <= 10_518_456_960
        &&& -631_107_417_600 <= self.seconds * k <= 631_107_417_600
        &&& -631_107_417_600_000 <= self.milliseconds * k <= 631_107_417_600_000
        &&& -631_107_417_600_000_000 <= self.microseconds * k <= 631_107_417_600_000_000
        &&& -9_223_372_036_854_775_807 <= self.nanoseconds * k <= 9_223_372_036_854_775_807
    }

    /// The span with every unit negated.
    pub open spec fn spec_negate(self) -> Span {
        Span {
            years: (-self.years) as i64,
            months: (-self.months) as i64,
            weeks: (-self.weeks) as i64,
            days: (-self.days) as i64,
            hours: (-self.hours) as i64,
            minutes: (-self.minutes) as i64,
            seconds: (-self.seconds) as i64,
            milliseconds: (-self.milliseconds) as i64,
            microseconds: (-self.microseconds) as i64,
            nanoseconds: (-self.nanoseconds) as i64,
        }
    }

    /// The zero span.
    pub open spec fn zero() -> Span {
        Span {
            years: 0,
            months: 0,
            weeks: 0,
            days: 0,
            hours: 0,
            minutes: 0,
            seconds: 0,
            milliseconds: 0,
            microseconds: 0,
            nanoseconds: 0,
        }
    }

    /// The span of one nanosecond.
    pub open spec fn one_nanosecond() -> Span {
        Span { nanoseconds: 1, ..Span::zero() }
    }

    /// No unit is non-zero once unit `i` is set to magnitude `m`.
    pub open spec fn all_zero_after(self, i: int, m: int) -> bool {
        &&& (if i == 0 { m } else { abs(self.years as int) }) == 0
        &&& (if i == 1 { m } else { abs(self.months as int) }) == 0
        &&& (if i == 2 { m } else { abs(self.weeks as int) }) == 0
        &&& (if i == 3 { m } else { abs(self.days as int) }) == 0
        &&& (if i == 4 { m } else { abs(self.hours as int) }) == 0
        &&& (if i == 5 { m } else { abs(self.minutes as int) }) == 0
        &&& (if i == 6 { m } else { abs(self.seconds as int) }) == 0
        &&& (if i == 7 { m } else { abs(self.milliseconds as int) }) == 0
        &&& (if i == 8 { m } else { abs(self.microseconds as int) }) == 0
        &&& (if i == 9 { m } else { abs(self.nanoseconds as int) }) == 0
    }

    /// The sign of the span once unit `i` is set to `v`: a negative `v` makes the whole span
    /// negative, no non-zero unit left makes it zero, and otherwise the sign stays (or becomes
    /// positive for a zero span).
    pub open spec fn sign_after(self, i: int, v: int) -> int {
        if v < 0 {
            -1
        } else if self.all_zero_after(i, abs(v)) {
            0
        } else if self.sign() == 0 {
            1
        } else {
            self.sign()
        }
    }

    /// The span with unit `i` (from years, `0`, down to nanoseconds, `9`) set to `v`.
    pub open spec fn with_unit(self, i: int, v: int) -> Span {
        let sg = self.sign_after(i, v);
        Span {
            years: signed(sg, if i == 0 { abs(v) } else { abs(self.years as int) }) as i64,
            months: signed(sg, if i == 1 { abs(v) } else { abs(self.months as int) }) as i64,
            weeks: signed(sg, if i == 2 { abs(v) } else { abs(self.weeks as int) }) as i64,
            days: signed(sg, if i == 3 { abs(v) } else { abs(self.days as int) }) as i64,
            hours: signed(sg, if i == 4 { abs(v) } else { abs(self.hours as int) }) as i64,
            minutes: signed(sg, if i == 5 { abs(v) } else { abs(self.minutes as int) }) as i64,
            seconds: signed(sg, if i == 6 { abs(v) } else { abs(self.seconds as int) }) as i64,
            milliseconds: signed(sg, if i == 7 { abs(v) } else { abs(self.milliseconds as int) }) as i64,
            microseconds: signed(sg, if i == 8 { abs(v) } else { abs(self.microseconds as int) }) as i64,
            nanoseconds: signed(sg, if i == 9 { abs(v) } else { abs(self.nanoseconds as int) }) as i64,
        }
    }

    /// Creates a zero span.
    pub fn new() -> (r: Span)
        ensures
            r == Span::zero(),
            r.wf(),
            r.sign() == 0,
    {
        Span {
            years: 0,
            months: 0,
            weeks: 0,
            days: 0,
            hours: 0,
            minutes: 0,
            seconds: 0,
            milliseconds: 0,
            microseconds: 0,
            nanoseconds: 0,
        }
    }

    /// Returns `true` if the span is positive.
    pub fn is_positive(&self) -> (r: bool)
        requires
            self.wf(),
        ensures
            r == (self.sign() > 0),
    {
        self.years > 0 || self.months > 0 || self.weeks > 0 || self.days > 0 || self.hours > 0 || self.minutes > 0 || self.seconds > 0 || self.milliseconds > 0 || self.microseconds > 0 || self.nanoseconds > 0
    }

    /// Returns `true` if the span is negative.
    pub fn is_negative(&self) -> (r: bool)
        requires
            self.wf(),
        ensures
            r == (self.sign() < 0),
    {
        self.years < 0 || self.months < 0 || self.weeks < 0 || self.days < 0 || self.hours < 0 || self.minutes < 0 || self.seconds < 0 || self.milliseconds < 0 || self.microseconds < 0 || self.nanoseconds < 0
    }

    /// Returns `true` if every unit of the span is zero.
    pub fn is_zero(&self) -> (r: bool)
        requires
            self.wf(),
        ensures
            r == (self.sign() == 0),
            r == (*self == Span::zero()),
    {
        self.years == 0 && self.months == 0 && self.weeks == 0 && self.days == 0 && self.hours == 0 && self.minutes == 0 && self.seconds == 0 && self.milliseconds == 0 && self.microseconds == 0 && self.nanoseconds == 0
    }

    /// Returns the span with every unit negated.
    pub fn negate(&self) -> (r: Span)
        requires
            self.wf(),
        ensures
            r == self.spec_negate(),
            r.wf(),
            r.sign() == -self.sign(),
    {
        Span {
            years: -self.years,
            months: -self.months,
            weeks: -self.weeks,
            days: -self.days,
            hours: -self.hours,
            minutes: -self.minutes,
            seconds: -self.seconds,
            milliseconds: -self.milliseconds,
            microseconds: -self.microseconds,
            nanoseconds: -self.nanoseconds,
        }
    }

    /// Sets the number of years on this span; the value may be negative.
    pub fn years(self, years: i64) -> (r: Span)
        requires
            self.wf(),
            -19_998 <= years <= 19_998,
        ensures
            r == self.with_unit(0, years as int),
            r.wf(),
    {
        let mv = abs64(years);
        let m0: i64 = mv;
        let m1: i64 = abs64(self.months);
        let m2: i64 = abs64(self.weeks);
        let m3: i64 = abs64(self.days);
        let m4: i64 = abs64(self.hours);
        let m5: i64 = abs64(self.minutes);
        let m6: i64 = abs64(self.seconds);
        let m7: i64 = abs64(self.milliseconds);
        let m8: i64 = abs64(self.microseconds);
        let m9: i64 = abs64(self.nanoseconds);
        let all_zero = m0 == 0 && m1 == 0 && m2 == 0 && m3 == 0 && m4 == 0 && m5 == 0 && m6 == 0 && m7 == 0 && m8 == 0 && m9 == 0;
        let sg: i64 = if years < 0 {
            -1
        } else if all_zero {
            0
        } else if self.is_negative() {
            -1
        } else {
            1
        };
        Span {
            years: signed64(sg, m0),
            months: signed64(sg, m1),
            weeks: signed64(sg, m2),
            days: signed64(sg, m3),
            hours: signed64(sg, m4),
            minutes: signed64(sg, m5),
            seconds: signed64(sg, m6),
            milliseconds: signed64(sg, m7),
            microseconds: signed64(sg, m8),
            nanoseconds: signed64(sg, m9),
        }
    }

    /// Sets the number of months on this span; the value may be negative.
    pub fn months(self, months: i64) -> (r: Span)
        requires
            self.wf(),
            -239_976 <= months <= 239_976,
        ensures
            r == self.with_unit(1, months as int),
            r.wf(),
    {
        let mv = abs64(months);
        let m0: i64 = abs64(self.years);
        let m1: i64 = mv;
        let m2: i64 = abs64(self.weeks);
        let m3: i64 = abs64(self.days);
        let m4: i64 = abs64(self.hours);
        let m5: i64 = abs64(self.minutes);
        let m6: i64 = abs64(self.seconds);
        let m7: i64 = abs64(self.milliseconds);
        let m8: i64 = abs64(self.microseconds);
        let m9: i64 = abs64(self.nanoseconds);
        let all_zero = m0 == 0 && m1 == 0 && m2 == 0 && m3 == 0 && m4 == 0 && m5 == 0 && m6 == 0 && m7 == 0 && m8 == 0 && m9 == 0;
        let sg: i64 = if months < 0 {
            -1
        } else if all_zero {
            0
        } else if self.is_negative() {
            -1
        } else {
            1
        };
        Span {
            years: signed64(sg, m0),
            months: signed64(sg, m1),
            weeks: signed64(sg, m2),
            days: signed64(sg, m3),
            hours: signed64(sg, m4),
            minutes: signed64(sg, m5),
            seconds: signed64(sg, m6),
            milliseconds: signed64(sg, m7),
            microseconds: signed64(sg, m8),
            nanoseconds: signed64(sg, m9),
        }
    }

    /// Sets the number of weeks on this span; the value may be negative.
    pub fn weeks(self, weeks: i64) -> (r: Span)
        requires
            self.wf(),
            -1_043_497 <= weeks <= 1_043_497,
        ensures
            r == self.with_unit(2, weeks as int),
            r.wf(),
    {
        let mv = abs64(weeks);
        let m0: i64 = abs64(self.years);
        let m1: i64 = abs64(self.months);
        let m2: i64 = mv;
        let m3: i64 = abs64(self.days);
        let m4: i64 = abs64(self.hours);
        let m5: i64 = abs64(self.minutes);
        let m6: i64 = abs64(self.seconds);
        let m7: i64 = abs64(self.milliseconds);
        let m8: i64 = abs64(self.microseconds);
        let m9: i64 = abs64(self.nanoseconds);
        let all_zero = m0 == 0 && m1 == 0 && m2 == 0 && m3 == 0 && m4 == 0 && m5 == 0 && m6 == 0 && m7 == 0 && m8 == 0 && m9 == 0;
        let sg: i64 = if weeks < 0 {
            -1
        } else if all_zero {
            0
        } else if self.is_negative() {
            -1
        } else {
            1
        };
        Span {
            years: signed64(sg, m0),
            months: signed64(sg, m1),
            weeks: signed64(sg, m2),
            days: signed64(sg, m3),
            hours: signed64(sg, m4),
            minutes: signed64(sg, m5),
            seconds: signed64(sg, m6),
            milliseconds: signed64(sg, m7),
            microseconds: signed64(sg, m8),
            nanoseconds: signed64(sg, m9),
        }
    }

    /// Sets the number of days on this span; the value may be negative.
    pub fn days(self, days: i64) -> (r: Span)
        requires
            self.wf(),
            -7_304_484 <= days <= 7_304_484,
        ensures
            r == self.with_unit(3, days as int),
            r.wf(),
    {
        let mv = abs64(days);
        let m0: i64 = abs64(self.years);
        let m1: i64 = abs64(self.months);
        let m2: i64 = abs64(self.weeks);
        let m3: i64 = mv;
        let m4: i64 = abs64(self.hours);
        let m5: i64 = abs64(self.minutes);
        let m6: i64 = abs64(self.seconds);
        let m7: i64 = abs64(self.milliseconds);
        let m8: i64 = abs64(self.microseconds);
        let m9: i64 = abs64(self.nanoseconds);
        let all_zero = m0 == 0 && m1 == 0 && m2 == 0 && m3 == 0 && m4 == 0 && m5 == 0 && m6 == 0 && m7 == 0 && m8 == 0 && m9 == 0;
        let sg: i64 = if days < 0 {
            -1
        } else if all_zero {
            0
        } else if self.is_negative() {
            -1
        } else {
            1
        };
        Span {
            years: signed64(sg, m0),
            months: signed64(sg, m1),
            weeks: signed64(sg, m2),
            days: signed64(sg, m3),
            hours: signed64(sg, m4),
            minutes: signed64(sg, m5),
            seconds: signed64(sg, m6),
            milliseconds: signed64(sg, m7),
            microseconds: signed64(sg, m8),
            nanoseconds: signed64(sg, m9),
        }
    }

    /// Sets the number of hours on this span; the value may be negative.
    pub fn hours(self, hours: i64) -> (r: Span)
        requires
            self.wf(),
            -175_307_616 <= hours <= 175_307_616,
        ensures
            r == self.with_unit(4, hours as int),
            r.wf(),
    {
        let mv = abs64(hours);
        let m0: i64 = abs64(self.years);
        let m1: i64 = abs64(self.months);
        let m2: i64 = abs64(self.weeks);
        let m3: i64 = abs64(self.days);
        let m4: i64 = mv;
        let m5: i64 = abs64(self.minutes);
        let m6: i64 = abs64(self.seconds);
        let m7: i64 = abs64(self.milliseconds);
        let m8: i64 = abs64(self.microseconds);
        let m9: i64 = abs64(self.nanoseconds);
        let all_zero = m0 == 0 && m1 == 0 && m2 == 0 && m3 == 0 && m4 == 0 && m5 == 0 && m6 == 0 && m7 == 0 && m8 == 0 && m9 == 0;
        let sg: i64 = if hours < 0 {
            -1
        } else if all_zero {
            0
        } else if self.is_negative() {
            -1
        } else {
            1
        };
        Span {
            years: signed64(sg, m0),
            months: signed64(sg, m1),
            weeks: signed64(sg, m2),
            days: signed64(sg, m3),
            hours: signed64(sg, m4),
            minutes: signed64(sg, m5),
            seconds: signed64(sg, m6),
            milliseconds: signed64(sg, m7),
            microseconds: signed64(sg, m8),
            nanoseconds: signed64(sg, m9),
        }
    }

    /// Sets the number of minutes on this span; the value may be negative.
    pub fn minutes(self, minutes: i64) -> (r: Span)
        requires
            self.wf(),
            -10_518_456_960 <= minutes <= 10_518_456_960,
        ensures
            r == self.with_unit(5, minutes as int),
            r.wf(),
    {
        let mv = abs64(minutes);
        let m0: i64 = abs64(self.years);
        let m1: i64 = abs64(self.months);
        let m2: i64 = abs64(self.weeks);
        let m3: i64 = abs64(self.days);
        let m4: i64 = abs64(self.hours);
        let m5: i64 = mv;
        let m6: i64 = abs64(self.seconds);
        let m7: i64 = abs64(self.milliseconds);
        let m8: i64 = abs64(self.microseconds);
        let m9: i64 = abs64(self.nanoseconds);
        let all_zero = m0 == 0 && m1 == 0 && m2 == 0 && m3 == 0 && m4 == 0 && m5 == 0 && m6 == 0 && m7 == 0 && m8 == 0 && m9 == 0;
        let sg: i64 = if minutes < 0 {
            -1
        } else if all_zero {
            0
        } else if self.is_negative() {
            -1
        } else {
            1
        };
        Span {
            years: signed64(sg, m0),
            months: signed64(sg, m1),
            weeks: signed64(sg, m2),
            days: signed64(sg, m3),
            hours: signed64(sg, m4),
            minutes: signed64(sg, m5),
            seconds: signed64(sg, m6),
            milliseconds: signed64(sg, m7),
            microseconds: signed64(sg, m8),
            nanoseconds: signed64(sg, m9),
        }
    }

    /// Sets the number of seconds on this span; the value may be negative.
    pub fn seconds(self, seconds: i64) -> (r: Span)
        requires
            self.wf(),
            -631_107_417_600 <= seconds <= 631_107_417_600,
        ensures
            r == self.with_unit(6, seconds as int),
            r.wf(),
    {
        let mv = abs64(seconds);
        let m0: i64 = abs64(self.years);
        let m1: i64 = abs64(self.months);
        let m2: i64 = abs64(self.weeks);
        let m3: i64 = abs64(self.days);
        let m4: i64 = abs64(self.hours);
        let m5: i64 = abs64(self.minutes);
        let m6: i64 = mv;
        let m7: i64 = abs64(self.milliseconds);
        let m8: i64 = abs64(self.microseconds);
        let m9: i64 = abs64(self.nanoseconds);
        let all_zero = m0 == 0 && m1 == 0 && m2 == 0 && m3 == 0 && m4 == 0 && m5 == 0 && m6 == 0 && m7 == 0 && m8 == 0 && m9 == 0;
        let sg: i64 = if seconds < 0 {
            -1
        } else if all_zero {
            0
        } else if self.is_negative() {
            -1
        } else {
            1
        };
        Span {
            years: signed64(sg, m0),
            months: signed64(sg, m1),
            weeks: signed64(sg, m2),
            days: signed64(sg, m3),
            hours: signed64(sg, m4),
            minutes: signed64(sg, m5),
            seconds: signed64(sg, m6),
            milliseconds: signed64(sg, m7),
            microseconds: signed64(sg, m8),
            nanoseconds: signed64(sg, m9),
        }
    }

    /// Sets the number of milliseconds on this span; the value may be negative.
    pub fn milliseconds(self, milliseconds: i64) -> (r: Span)
        requires
            self.wf(),
            -631_107_417_600_000 <= milliseconds <= 631_107_417_600_000,
        ensures
            r == self.with_unit(7, milliseconds as int),
            r.wf(),
    {
        let mv = abs64(milliseconds);
        let m0: i64 = abs64(self.years);
        let m1: i64 = abs64(self.months);
        let m2: i64 = abs64(self.weeks);
        let m3: i64 = abs64(self.days);
        let m4: i64 = abs64(self.hours);
        let m5: i64 = abs64(self.minutes);
        let m6: i64 = abs64(self.seconds);
        let m7: i64 = mv;
        let m8: i64 = abs64(self.microseconds);
        let m9: i64 = abs64(self.nanoseconds);
        let all_zero = m0 == 0 && m1 == 0 && m2 == 0 && m3 == 0 && m4 == 0 && m5 == 0 && m6 == 0 && m7 == 0 && m8 == 0 && m9 == 0;
        let sg: i64 = if milliseconds < 0 {
            -1
        } else if all_zero {
            0
        } else if self.is_negative() {
            -1
        } else {
            1
        };
        Span {
            years: signed64(sg, m0),
            months: signed64(sg, m1),
            weeks: signed64(sg, m2),
            days: signed64(sg, m3),
            hours: signed64(sg, m4),
            minutes: signed64(sg, m5),
            seconds: signed64(sg, m6),
            milliseconds: signed64(sg, m7),
            microseconds: signed64(sg, m8),
            nanoseconds: signed64(sg, m9),
        }
    }

    /// Sets the number of microseconds on this span; the value may be negative.
    pub fn microseconds(self, microseconds: i64) -> (r: Span)
        requires
            self.wf(),
            -631_107_417_600_000_000 <= microseconds <= 631_107_417_600_000_000,
        ensures
            r == self.with_unit(8, microseconds as int),
            r.wf(),
    {
        let mv = abs64(microseconds);
        let m0: i64 = abs64(self.years);
        let m1: i64 = abs64(self.months);
        let m2: i64 = abs64(self.weeks);
        let m3: i64 = abs64(self.days);
        let m4: i64 = abs64(self.hours);
        let m5: i64 = abs64(self.minutes);
        let m6: i64 = abs64(self.seconds);
        let m7: i64 = abs64(self.milliseconds);
        let m8: i64 = mv;
        let m9: i64 = abs64(self.nanoseconds);
        let all_zero = m0 == 0 && m1 == 0 && m2 == 0 && m3 == 0 && m4 == 0 && m5 == 0 && m6 == 0 && m7 == 0 && m8 == 0 && m9 == 0;
        let sg: i64 = if microseconds < 0 {
            -1
        } else if all_zero {
            0
        } else if self.is_negative() {
            -1
        } else {
            1
        };
        Span {
            years: signed64(sg, m0),
            months: signed64(sg, m1),
            weeks: signed64(sg, m2),
            days: signed64(sg, m3),
            hours: signed64(sg, m4),
            minutes: signed64(sg, m5),
            seconds: signed64(sg, m6),
            milliseconds: signed64(sg, m7),
            microseconds: signed64(sg, m8),
            nanoseconds: signed64(sg, m9),
        }
    }

    /// Sets the number of nanoseconds on this span; the value may be negative.
    pub fn nanoseconds(self, nanoseconds: i64) -> (r: Span)
        requires
            self.wf(),
            nanoseconds > i64::MIN,
        ensures
            r == self.with_unit(9, nanoseconds as int),
            r.wf(),
    {
        let mv = abs64(nanoseconds);
        let m0: i64 = abs64(self.years);
        let m1: i64 = abs64(self.months);
        let m2: i64 = abs64(self.weeks);
        let m3: i64 = abs64(self.days);
        let m4: i64 = abs64(self.hours);
        let m5: i64 = abs64(self.minutes);
        let m6: i64 = abs64(self.seconds);
        let m7: i64 = abs64(self.milliseconds);
        let m8: i64 = abs64(self.microseconds);
        let m9: i64 = mv;
        let all_zero = m0 == 0 && m1 == 0 && m2 == 0 && m3 == 0 && m4 == 0 && m5 == 0 && m6 == 0 && m7 == 0 && m8 == 0 && m9 == 0;
        let sg: i64 = if nanoseconds < 0 {
            -1
        } else if all_zero {
            0
        } else if self.is_negative() {
            -1
        } else {
            1
        };
        Span {
            years: signed64(sg, m0),
            months: signed64(sg, m1),
            weeks: signed64(sg, m2),
            days: signed64(sg, m3),
            hours: signed64(sg, m4),
            minutes: signed64(sg, m5),
            seconds: signed64(sg, m6),
            milliseconds: signed64(sg, m7),
            microseconds: signed64(sg, m8),
            nanoseconds: signed64(sg, m9),
        }
    }
}

/// `m` carrying the sign `sg`.
fn signed64(sg: i64, m: i64) -> (r: i64)
    requires
        m >= 0,
    ensures
        r == signed(sg as int, m as int),
{
    if sg > 0 {
        m
    } else if sg < 0 {
        -m
    } else {
        0
    }
}

/// The absolute value of `x`, which must not be `i64::MIN`.
fn abs64(x: i64) -> (r: i64)
    requires
        x > i64::MIN,
    ensures
        r == abs(x as int),
{
    if x < 0 {
        -x
    } else {
        x
    }
}

/// Multiplying a well formed span by one gives the same span, and fits.
pub proof fn lemma_times_one(s: Span)
    requires
        s.wf(),
    ensures
        s.times_fits(1),
        s.times(1) == s,
{
}

/// Multiplying a positive span by a positive factor that fits gives a positive span.
pub proof fn lemma_times_positive(s: Span, k: int)
    requires
        s.wf(),
        s.sign() > 0,
        k >= 1,
        s.times_fits(k),
    ensures
        s.times(k).sign() > 0,
        s.times(k).wf(),
{
    assert forall|x: int| x >= 0 implies #[trigger] (x * k) >= 0 && (x > 0 ==> x * k > 0) by {
        assert(x >= 0 && k >= 1 ==> x * k >= 0 && (x > 0 ==> x * k > 0)) by (nonlinear_arith);
    }
    assert(s.years * k >= 0);
    assert(s.months * k >= 0);
    assert(s.weeks * k >= 0);
    assert(s.days * k >= 0);
    assert(s.hours * k >= 0);
    assert(s.minutes * k >= 0);
    assert(s.seconds * k >= 0);
    assert(s.milliseconds * k >= 0);
    assert(s.microseconds * k >= 0);
    assert(s.nanoseconds * k >= 0);
}

} // verus!
