//! A cron-like recurrence pattern.
use super::ranged::{
    first_outside, lemma_first_outside_none, stepped, unit_allows, values_of, UnitSet,
};
use crate::calendar::{civil_nanos_until, civil_weekday, days_from_civil, nanos_until, weekday_of};
use crate::civil::{
    date_rank, days_in_month, lemma_rank_bounds, lemma_rank_order, time_rank, valid_date,
    DateTime, Weekday,
};
use crate::error::Error;
use crate::range::DateTimeRange;
use crate::{private, Pattern};
use vstd::prelude::*;

verus! {

/// The choices of a [`Cron`] pattern: for every unit, the explicitly chosen values. No chosen
/// values for a unit means that every value of that unit is allowed.
pub struct CronView {
    pub years: Set<int>,
    pub months: Set<int>,
    pub weekdays: Set<int>,
    pub days: Set<int>,
    pub hours: Set<int>,
    pub minutes: Set<int>,
    pub seconds: Set<int>,
}

impl CronView {
    /// The date `year-month-day` is valid and allowed by the year, month, day and weekday
    /// choices.
    pub open spec fn date_matches(self, year: int, month: int, day: int) -> bool {
        &&& valid_date(year, month, day)
        &&& unit_allows(self.years, -9999, 9999, year)
        &&& unit_allows(self.months, 1, 12, month)
        &&& unit_allows(self.days, 1, 31, day)
        &&& unit_allows(
            self.weekdays,
            1,
            7,
            civil_weekday(year as i16, month as i8, day as i8) as int,
        )
    }

    /// The time `hour:minute:second` is allowed by the hour, minute and second choices.
    pub open spec fn time_matches(self, hour: int, minute: int, second: int) -> bool {
        &&& unit_allows(self.hours, 0, 23, hour)
        &&& unit_allows(self.minutes, 0, 59, minute)
        &&& unit_allows(self.seconds, 0, 59, second)
    }

    /// `d` is an event of the pattern: a whole second allowed by every choice.
    pub open spec fn matches(self, d: DateTime) -> bool {
        &&& d.wf()
        &&& d.subsec_nanosecond == 0
        &&& self.date_matches(d.year as int, d.month as int, d.day as int)
        &&& self.time_matches(d.hour as int, d.minute as int, d.second as int)
    }

    /// `d` is the earliest event `e` with `lo <= e.rank() < hi`.
    pub open spec fn is_first(self, lo: int, hi: int, d: DateTime) -> bool {
        &&& self.matches(d)
        &&& lo <= d.rank() < hi
        &&& forall|e: DateTime| #[trigger]
            self.matches(e) && lo <= e.rank() < hi ==> d.rank() <= e.rank()
    }

    /// `d` is the latest event `e` with `lo <= e.rank() < hi`.
    pub open spec fn is_last(self, lo: int, hi: int, d: DateTime) -> bool {
        &&& self.matches(d)
        &&& lo <= d.rank() < hi
        &&& forall|e: DateTime| #[trigger]
            self.matches(e) && lo <= e.rank() < hi ==> e.rank() <= d.rank()
    }

    /// The earliest event `e` with `lo <= e.rank() < hi`, if any.
    pub open spec fn first_match(self, lo: int, hi: int) -> Option<DateTime> {
        if exists|d: DateTime| self.is_first(lo, hi, d) {
            Some(choose|d: DateTime| self.is_first(lo, hi, d))
        } else {
            None
        }
    }

    /// The latest event `e` with `lo <= e.rank() < hi`, if any.
    pub open spec fn last_match(self, lo: int, hi: int) -> Option<DateTime> {
        if exists|d: DateTime| self.is_last(lo, hi, d) {
            Some(choose|d: DateTime| self.is_last(lo, hi, d))
        } else {
            None
        }
    }
}

impl CronView {
    /// The earliest event in a window is unique.
    pub proof fn lemma_first_is(self, lo: int, hi: int, d: DateTime)
        requires
            self.is_first(lo, hi, d),
        ensures
            self.first_match(lo, hi) == Some(d),
    {
        let c = choose|x: DateTime| self.is_first(lo, hi, x);
        assert(self.is_first(lo, hi, c));
        assert(self.matches(d));
        assert(self.matches(c));
        lemma_rank_order(c, d);
    }

    /// Without events in a window there is no earliest one.
    pub proof fn lemma_first_none(self, lo: int, hi: int)
        requires
            forall|e: DateTime| #[trigger] self.matches(e) ==> !(lo <= e.rank() < hi),
        ensures
            self.first_match(lo, hi) is None,
    {
        if exists|d: DateTime| self.is_first(lo, hi, d) {
            let c = choose|x: DateTime| self.is_first(lo, hi, x);
            assert(self.matches(c));
        }
    }

    /// A window holding an event has an earliest event.
    pub proof fn lemma_first_exists(self, lo: int, hi: int, d: DateTime)
        requires
            self.matches(d),
            lo <= d.rank() < hi,
        ensures
            self.first_match(lo, hi) is Some,
        decreases d.rank() - lo,
    {
        if !self.is_first(lo, hi, d) {
            let e = choose|e: DateTime| self.matches(e) && lo <= e.rank() < hi && e.rank() < d.rank();
            self.lemma_first_exists(lo, hi, e);
        } else {
            assert(exists|x: DateTime| self.is_first(lo, hi, x));
        }
    }

    /// A window holding an event has a latest event.
    pub proof fn lemma_last_exists(self, lo: int, hi: int, d: DateTime)
        requires
            self.matches(d),
            lo <= d.rank() < hi,
        ensures
            self.last_match(lo, hi) is Some,
        decreases hi - d.rank(),
    {
        if !self.is_last(lo, hi, d) {
            let e = choose|e: DateTime| self.matches(e) && lo <= e.rank() < hi && d.rank() < e.rank();
            self.lemma_last_exists(lo, hi, e);
        } else {
            assert(exists|x: DateTime| self.is_last(lo, hi, x));
        }
    }

    /// The latest event in a window is unique.
    pub proof fn lemma_last_is(self, lo: int, hi: int, d: DateTime)
        requires
            self.is_last(lo, hi, d),
        ensures
            self.last_match(lo, hi) == Some(d),
    {
        let c = choose|x: DateTime| self.is_last(lo, hi, x);
        assert(self.is_last(lo, hi, c));
        assert(self.matches(d));
        assert(self.matches(c));
        lemma_rank_order(c, d);
    }

    /// Without events in a window there is no latest one.
    pub proof fn lemma_last_none(self, lo: int, hi: int)
        requires
            forall|e: DateTime| #[trigger] self.matches(e) ==> !(lo <= e.rank() < hi),
        ensures
            self.last_match(lo, hi) is None,
    {
        if exists|d: DateTime| self.is_last(lo, hi, d) {
            let c = choose|x: DateTime| self.is_last(lo, hi, x);
            assert(self.matches(c));
        }
    }
}

/// `instant` moved into `range`: not before its start and not after its end.
pub open spec fn clamp_into(instant: DateTime, range: DateTimeRange) -> DateTime {
    let a = if instant.rank() < range.start.rank() {
        range.start
    } else {
        instant
    };
    if range.end.rank() < a.rank() {
        range.end
    } else {
        a
    }
}

/// Of two candidates around `instant`, the one closer to it, preferring `next` on a tie; if only
/// one exists, that one.
pub open spec fn pick_closest(
    instant: DateTime,
    previous: Option<DateTime>,
    next: Option<DateTime>,
) -> Option<DateTime> {
    match (previous, next) {
        (Some(p), Some(n)) => if civil_nanos_until(p, instant) >= civil_nanos_until(instant, n) {
            Some(n)
        } else {
            Some(p)
        },
        (Some(p), None) => Some(p),
        (None, n) => n,
    }
}

/// A cron-like recurrence pattern.
///
/// The default value produces an event at every second. Builder methods such as
/// [`Cron::second`] and [`Cron::hours`] restrict the allowed values of a unit; values chosen for
/// one unit combine with the values chosen for all others.
#[derive(Debug, Clone)]
pub struct Cron {
    pub(crate) years: UnitSet,
    pub(crate) months: UnitSet,
    pub(crate) weekdays: UnitSet,
    pub(crate) days: UnitSet,
    pub(crate) hours: UnitSet,
    pub(crate) minutes: UnitSet,
    pub(crate) seconds: UnitSet,
}

impl View for Cron {
    type V = CronView;

    closed spec fn view(&self) -> CronView {
        CronView {
            years: self.years.stored(),
            months: self.months.stored(),
            weekdays: self.weekdays.stored(),
            days: self.days.stored(),
            hours: self.hours.stored(),
            minutes: self.minutes.stored(),
            seconds: self.seconds.stored(),
        }
    }
}

/// The smallest valid second of the lexicographic bound, as a rank at second precision.
pub open spec fn sec_bound(y: int, m: int, d: int, h: int, mi: int, s: int) -> int {
    date_rank(y, m, d) * 86400 + time_rank(h, mi, s)
}

impl Cron {
    /// Every unit set is well formed and has the bounds of its unit.
    pub closed spec fn inv(&self) -> bool {
        &&& self.years.inv() && self.years.lo() == -9999 && self.years.hi() == 9999
        &&& self.months.inv() && self.months.lo() == 1 && self.months.hi() == 12
        &&& self.weekdays.inv() && self.weekdays.lo() == 1 && self.weekdays.hi() == 7
        &&& self.days.inv() && self.days.lo() == 1 && self.days.hi() == 31
        &&& self.hours.inv() && self.hours.lo() == 0 && self.hours.hi() == 23
        &&& self.minutes.inv() && self.minutes.lo() == 0 && self.minutes.hi() == 59
        &&& self.seconds.inv() && self.seconds.lo() == 0 && self.seconds.hi() == 59
    }

    /// Creates a new `Cron` that ticks every second.
    pub fn new() -> (r: Cron)
        ensures
            r.inv(),
            r@ == (CronView {
                years: Set::empty(),
                months: Set::empty(),
                weekdays: Set::empty(),
                days: Set::empty(),
                hours: Set::empty(),
                minutes: Set::empty(),
                seconds: Set::empty(),
            }),
    {
        Cron {
            years: UnitSet::full(-9999, 9999),
            months: UnitSet::full(1, 12),
            weekdays: UnitSet::full(1, 7),
            days: UnitSet::full(1, 31),
            hours: UnitSet::full(0, 23),
            minutes: UnitSet::full(0, 59),
            seconds: UnitSet::full(0, 59),
        }
    }
}

// Searching for events.
impl Cron {
    /// The time `h:mi:s` is allowed.
    spec fn time_ok(&self, h: int, mi: int, s: int) -> bool {
        self.hours.has(h) && self.minutes.has(mi) && self.seconds.has(s)
    }

    /// The date `y-m-d` is valid and allowed.
    spec fn date_ok(&self, y: int, m: int, d: int) -> bool {
        &&& valid_date(y, m, d)
        &&& self.years.has(y)
        &&& self.months.has(m)
        &&& self.days.has(d)
        &&& self.weekdays.has(civil_weekday(y as i16, m as i8, d as i8) as int)
    }

    proof fn lemma_view(&self)
        requires
            self.inv(),
        ensures
            forall|h: int, mi: int, s: int|
                #[trigger] self@.time_matches(h, mi, s) == self.time_ok(h, mi, s),
            forall|y: int, m: int, d: int|
                #[trigger] self@.date_matches(y, m, d) == self.date_ok(y, m, d),
    {
    }

    /// The earliest allowed time of day at or after `h0:mi0:s0` (where `s0` may be `60`).
    fn first_time(&self, h0: i16, mi0: i16, s0: i16) -> (r: Option<(i16, i16, i16)>)
        requires
            self.inv(),
            0 <= h0 <= 23,
            0 <= mi0 <= 59,
            0 <= s0 <= 60,
        ensures
            r matches Some((h, mi, s)) ==> {
                &&& self.time_ok(h as int, mi as int, s as int)
                &&& time_rank(h as int, mi as int, s as int) >= time_rank(
                    h0 as int,
                    mi0 as int,
                    s0 as int,
                )
                &&& forall|h2: int, mi2: int, s2: int| #[trigger]
                    self.time_ok(h2, mi2, s2) && time_rank(h2, mi2, s2) >= time_rank(
                        h0 as int,
                        mi0 as int,
                        s0 as int,
                    ) ==> time_rank(h as int, mi as int, s as int) <= time_rank(h2, mi2, s2)
            },
            r is None ==> forall|h2: int, mi2: int, s2: int| #[trigger]
                self.time_ok(h2, mi2, s2) ==> time_rank(h2, mi2, s2) < time_rank(
                    h0 as int,
                    mi0 as int,
                    s0 as int,
                ),
    {
        let ghost b = time_rank(h0 as int, mi0 as int, s0 as int);
        let min_s = self.seconds.smallest();
        let min_mi = self.minutes.smallest();
        if self.hours.contains(h0) {
            if self.minutes.contains(mi0) {
                if let Some(s) = self.seconds.first_in(s0, 59) {
                    assert forall|h2: int, mi2: int, s2: int| #[trigger]
                        self.time_ok(h2, mi2, s2) && time_rank(h2, mi2, s2) >= b implies time_rank(
                        h0 as int,
                        mi0 as int,
                        s as int,
                    ) <= time_rank(h2, mi2, s2) by {
                        if h2 == h0 && mi2 == mi0 {
                            assert(self.seconds.has(s2));
                        }
                    }
                    return Some((h0, mi0, s));
                }
            }
            if let Some(mi) = self.minutes.first_in(mi0 + 1, 59) {
                assert forall|h2: int, mi2: int, s2: int| #[trigger]
                    self.time_ok(h2, mi2, s2) && time_rank(h2, mi2, s2) >= b implies time_rank(
                    h0 as int,
                    mi as int,
                    min_s as int,
                ) <= time_rank(h2, mi2, s2) by {
                    assert(self.seconds.has(s2));
                    if h2 == h0 && mi2 == mi0 {
                        assert(self.minutes.has(mi2));
                    }
                    if h2 == h0 && mi2 > mi0 {
                        assert(self.minutes.has(mi2));
                    }
                }
                return Some((h0, mi, min_s));
            }
        }
        if let Some(h) = self.hours.first_in(h0 + 1, 23) {
            assert forall|h2: int, mi2: int, s2: int| #[trigger]
                self.time_ok(h2, mi2, s2) && time_rank(h2, mi2, s2) >= b implies time_rank(
                h as int,
                min_mi as int,
                min_s as int,
            ) <= time_rank(h2, mi2, s2) by {
                assert(self.seconds.has(s2));
                assert(self.minutes.has(mi2));
                assert(self.hours.has(h2));
                if h2 == h0 && mi2 == mi0 {
                    assert(self.minutes.has(mi2));
                }
            }
            return Some((h, min_mi, min_s));
        }
        assert forall|h2: int, mi2: int, s2: int| #[trigger]
            self.time_ok(h2, mi2, s2) implies time_rank(h2, mi2, s2) < b by {
            assert(self.seconds.has(s2));
            assert(self.minutes.has(mi2));
            assert(self.hours.has(h2));
        }
        None
    }

    /// The latest allowed time of day at or before `h0:mi0:s0` (where `s0` may be `-1`).
    fn last_time(&self, h0: i16, mi0: i16, s0: i16) -> (r: Option<(i16, i16, i16)>)
        requires
            self.inv(),
            0 <= h0 <= 23,
            0 <= mi0 <= 59,
            -1 <= s0 <= 59,
        ensures
            r matches Some((h, mi, s)) ==> {
                &&& self.time_ok(h as int, mi as int, s as int)
                &&& time_rank(h as int, mi as int, s as int) <= time_rank(
                    h0 as int,
                    mi0 as int,
                    s0 as int,
                )
                &&& forall|h2: int, mi2: int, s2: int| #[trigger]
                    self.time_ok(h2, mi2, s2) && time_rank(h2, mi2, s2) <= time_rank(
                        h0 as int,
                        mi0 as int,
                        s0 as int,
                    ) ==> time_rank(h2, mi2, s2) <= time_rank(h as int, mi as int, s as int)
            },
            r is None ==> forall|h2: int, mi2: int, s2: int| #[trigger]
                self.time_ok(h2, mi2, s2) ==> time_rank(h2, mi2, s2) > time_rank(
                    h0 as int,
                    mi0 as int,
                    s0 as int,
                ),
    {
        let ghost b = time_rank(h0 as int, mi0 as int, s0 as int);
        let max_s = self.seconds.largest();
        let max_mi = self.minutes.largest();
        if self.hours.contains(h0) {
            if self.minutes.contains(mi0) {
                if let Some(s) = self.seconds.last_in(0, s0) {
                    assert forall|h2: int, mi2: int, s2: int| #[trigger]
                        self.time_ok(h2, mi2, s2) && time_rank(h2, mi2, s2) <= b implies time_rank(
                        h2,
                        mi2,
                        s2,
                    ) <= time_rank(h0 as int, mi0 as int, s as int) by {
                        if h2 == h0 && mi2 == mi0 {
                            assert(self.seconds.has(s2));
                        }
                    }
                    return Some((h0, mi0, s));
                }
            }
            if let Some(mi) = self.minutes.last_in(0, mi0 - 1) {
                assert forall|h2: int, mi2: int, s2: int| #[trigger]
                    self.time_ok(h2, mi2, s2) && time_rank(h2, mi2, s2) <= b implies time_rank(
                    h2,
                    mi2,
                    s2,
                ) <= time_rank(h0 as int, mi as int, max_s as int) by {
                    assert(self.seconds.has(s2));
                    if h2 == h0 && mi2 == mi0 {
                        assert(self.minutes.has(mi2));
                    }
                    if h2 == h0 && mi2 < mi0 {
                        assert(self.minutes.has(mi2));
                    }
                }
                return Some((h0, mi, max_s));
            }
        }
        if let Some(h) = self.hours.last_in(0, h0 - 1) {
            assert forall|h2: int, mi2: int, s2: int| #[trigger]
                self.time_ok(h2, mi2, s2) && time_rank(h2, mi2, s2) <= b implies time_rank(
                h2,
                mi2,
                s2,
            ) <= time_rank(h as int, max_mi as int, max_s as int) by {
                assert(self.seconds.has(s2));
                assert(self.minutes.has(mi2));
                assert(self.hours.has(h2));
                if h2 == h0 && mi2 == mi0 {
                    assert(self.minutes.has(mi2));
                }
            }
            return Some((h, max_mi, max_s));
        }
        assert forall|h2: int, mi2: int, s2: int| #[trigger]
            self.time_ok(h2, mi2, s2) implies time_rank(h2, mi2, s2) > b by {
            assert(self.seconds.has(s2));
            assert(self.minutes.has(mi2));
            assert(self.hours.has(h2));
        }
        None
    }

    /// The earliest allowed date at or after `y0-m0-d0` (where `m0` may be `13` and `d0` may be
    /// `32`).
    fn first_date(&self, y0: i16, m0: i16, d0: i16) -> (r: Option<(i16, i16, i16)>)
        requires
            self.inv(),
            -9999 <= y0 <= 9999,
            1 <= m0 <= 13,
            1 <= d0 <= 32,
        ensures
            r matches Some((y, m, d)) ==> {
                &&& self.date_ok(y as int, m as int, d as int)
                &&& date_rank(y as int, m as int, d as int) >= date_rank(
                    y0 as int,
                    m0 as int,
                    d0 as int,
                )
                &&& forall|y2: int, m2: int, d2: int| #[trigger]
                    self.date_ok(y2, m2, d2) && date_rank(y2, m2, d2) >= date_rank(
                        y0 as int,
                        m0 as int,
                        d0 as int,
                    ) ==> date_rank(y as int, m as int, d as int) <= date_rank(y2, m2, d2)
            },
            r is None ==> forall|y2: int, m2: int, d2: int| #[trigger]
                self.date_ok(y2, m2, d2) ==> date_rank(y2, m2, d2) < date_rank(
                    y0 as int,
                    m0 as int,
                    d0 as int,
                ),
    {
        let ghost b = date_rank(y0 as int, m0 as int, d0 as int);
        let mut y = y0;
        while y <= 9999
            invariant
                self.inv(),
                -9999 <= y0 <= 9999,
                1 <= m0 <= 13,
                1 <= d0 <= 32,
                b == date_rank(y0 as int, m0 as int, d0 as int),
                y0 <= y <= 10000,
                forall|y2: int, m2: int, d2: int| #[trigger]
                    self.date_ok(y2, m2, d2) && date_rank(y2, m2, d2) >= b ==> y2 >= y,
            decreases 10000 - y,
        {
            if self.years.contains(y) {
                let mut m: i16 = if y == y0 {
                    m0
                } else {
                    1
                };
                while m <= 12
                    invariant
                        self.inv(),
                        -9999 <= y0 <= y <= 9999,
                        1 <= m0 <= 13,
                        1 <= d0 <= 32,
                        b == date_rank(y0 as int, m0 as int, d0 as int),
                        self.years.has(y as int),
                        1 <= m <= 13,
                        y == y0 ==> m >= m0,
                        forall|y2: int, m2: int, d2: int| #[trigger]
                            self.date_ok(y2, m2, d2) && date_rank(y2, m2, d2) >= b ==> y2 > y || (
                            y2 == y && m2 >= m),
                    decreases 13 - m,
                {
                    if self.months.contains(m) {
                        let dim = days_in_month(m as i8, y) as i16;
                        let mut d: i16 = if y == y0 && m == m0 {
                            d0
                        } else {
                            1
                        };
                        while d <= dim
                            invariant
                                self.inv(),
                                -9999 <= y0 <= y <= 9999,
                                1 <= m0 <= 13,
                                1 <= d0 <= 32,
                                b == date_rank(y0 as int, m0 as int, d0 as int),
                                self.years.has(y as int),
                                self.months.has(m as int),
                                1 <= m <= 12,
                                y == y0 ==> m >= m0,
                                y == y0 && m == m0 ==> d >= d0,
                                1 <= d <= 33,
                                dim == crate::civil::month_days(m as int, y as int),
                                forall|y2: int, m2: int, d2: int| #[trigger]
                                    self.date_ok(y2, m2, d2) && date_rank(y2, m2, d2) >= b ==> y2
                                        > y || (y2 == y && (m2 > m || (m2 == m && d2 >= d))),
                            decreases 33 - d,
                        {
                            if self.days.contains(d) {
                                let wd = weekday_of(y, m as i8, d as i8);
                                if self.weekdays.contains(wd as i16) {
                                    assert(self.date_ok(y as int, m as int, d as int));
                                    return Some((y, m, d));
                                }
                            }
                            assert forall|y2: int, m2: int, d2: int| #[trigger]
                                self.date_ok(y2, m2, d2) && date_rank(y2, m2, d2) >= b implies y2
                                > y || (y2 == y && (m2 > m || (m2 == m && d2 >= d + 1))) by {
                                if y2 == y && m2 == m && d2 == d {
                                    assert(self.days.has(d2));
                                }
                            }
                            d = d + 1;
                        }
                    }
                    assert forall|y2: int, m2: int, d2: int| #[trigger]
                        self.date_ok(y2, m2, d2) && date_rank(y2, m2, d2) >= b implies y2 > y || (
                        y2 == y && m2 >= m + 1) by {
                        if y2 == y && m2 == m {
                            assert(self.months.has(m2));
                        }
                    }
                    m = m + 1;
                }
            }
            assert forall|y2: int, m2: int, d2: int| #[trigger]
                self.date_ok(y2, m2, d2) && date_rank(y2, m2, d2) >= b implies y2 >= y + 1 by {
                if y2 == y {
                    assert(self.years.has(y2));
                }
            }
            y = y + 1;
        }
        None
    }

    /// The latest allowed date at or before `y0-m0-d0` (where `m0` and `d0` may be `0`).
    fn last_date(&self, y0: i16, m0: i16, d0: i16) -> (r: Option<(i16, i16, i16)>)
        requires
            self.inv(),
            -9999 <= y0 <= 9999,
            0 <= m0 <= 12,
            0 <= d0 <= 31,
        ensures
            r matches Some((y, m, d)) ==> {
                &&& self.date_ok(y as int, m as int, d as int)
                &&& date_rank(y as int, m as int, d as int) <= date_rank(
                    y0 as int,
                    m0 as int,
                    d0 as int,
                )
                &&& forall|y2: int, m2: int, d2: int| #[trigger]
                    self.date_ok(y2, m2, d2) && date_rank(y2, m2, d2) <= date_rank(
                        y0 as int,
                        m0 as int,
                        d0 as int,
                    ) ==> date_rank(y2, m2, d2) <= date_rank(y as int, m as int, d as int)
            },
            r is None ==> forall|y2: int, m2: int, d2: int| #[trigger]
                self.date_ok(y2, m2, d2) ==> date_rank(y2, m2, d2) > date_rank(
                    y0 as int,
                    m0 as int,
                    d0 as int,
                ),
    {
        let ghost b = date_rank(y0 as int, m0 as int, d0 as int);
        let mut y = y0;
        while y >= -9999
            invariant
                self.inv(),
                -9999 <= y0 <= 9999,
                0 <= m0 <= 12,
                0 <= d0 <= 31,
                b == date_rank(y0 as int, m0 as int, d0 as int),
                -10000 <= y <= y0,
                forall|y2: int, m2: int, d2: int| #[trigger]
                    self.date_ok(y2, m2, d2) && date_rank(y2, m2, d2) <= b ==> y2 <= y,
            decreases y + 10000,
        {
            if self.years.contains(y) {
                let mut m: i16 = if y == y0 {
                    m0
                } else {
                    12
                };
                while m >= 1
                    invariant
                        self.inv(),
                        -9999 <= y <= y0 <= 9999,
                        0 <= m0 <= 12,
                        0 <= d0 <= 31,
                        b == date_rank(y0 as int, m0 as int, d0 as int),
                        self.years.has(y as int),
                        0 <= m <= 12,
                        y == y0 ==> m <= m0,
                        forall|y2: int, m2: int, d2: int| #[trigger]
                            self.date_ok(y2, m2, d2) && date_rank(y2, m2, d2) <= b ==> y2 < y || (
                            y2 == y && m2 <= m),
                    decreases m,
                {
                    if self.months.contains(m) {
                        let dim = days_in_month(m as i8, y) as i16;
                        let mut d: i16 = if y == y0 && m == m0 && d0 < dim {
                            d0
                        } else {
                            dim
                        };
                        while d >= 1
                            invariant
                                self.inv(),
                                -9999 <= y <= y0 <= 9999,
                                0 <= m0 <= 12,
                                0 <= d0 <= 31,
                                b == date_rank(y0 as int, m0 as int, d0 as int),
                                self.years.has(y as int),
                                self.months.has(m as int),
                                1 <= m <= 12,
                                y == y0 ==> m <= m0,
                                y == y0 && m == m0 ==> d <= d0,
                                0 <= d <= dim,
                                dim == crate::civil::month_days(m as int, y as int),
                                forall|y2: int, m2: int, d2: int| #[trigger]
                                    self.date_ok(y2, m2, d2) && date_rank(y2, m2, d2) <= b ==> y2
                                        < y || (y2 == y && (m2 < m || (m2 == m && d2 <= d))),
                            decreases d,
                        {
                            if self.days.contains(d) {
                                let wd = weekday_of(y, m as i8, d as i8);
                                if self.weekdays.contains(wd as i16) {
                                    assert(self.date_ok(y as int, m as int, d as int));
                                    return Some((y, m, d));
                                }
                            }
                            assert forall|y2: int, m2: int, d2: int| #[trigger]
                                self.date_ok(y2, m2, d2) && date_rank(y2, m2, d2) <= b implies y2
                                < y || (y2 == y && (m2 < m || (m2 == m && d2 <= d - 1))) by {
                                if y2 == y && m2 == m && d2 == d {
                                    assert(self.days.has(d2));
                                }
                            }
                            d = d - 1;
                        }
                    }
                    assert forall|y2: int, m2: int, d2: int| #[trigger]
                        self.date_ok(y2, m2, d2) && date_rank(y2, m2, d2) <= b implies y2 < y || (
                        y2 == y && m2 <= m - 1) by {
                        if y2 == y && m2 == m {
                            assert(self.months.has(m2));
                        }
                    }
                    m = m - 1;
                }
            }
            assert forall|y2: int, m2: int, d2: int| #[trigger]
                self.date_ok(y2, m2, d2) && date_rank(y2, m2, d2) <= b implies y2 <= y - 1 by {
                if y2 == y {
                    assert(self.years.has(y2));
                }
            }
            y = y - 1;
        }
        None
    }

    /// `d` is a valid whole second allowed by every choice.
    spec fn ok(&self, d: DateTime) -> bool {
        &&& d.wf()
        &&& d.subsec_nanosecond == 0
        &&& self.date_ok(d.year as int, d.month as int, d.day as int)
        &&& self.time_ok(d.hour as int, d.minute as int, d.second as int)
    }

    /// The earliest event whose second is at or after the second `y-m-d h:mi:s0` (where the date is
    /// valid and `s0` may be `60`).
    fn first_from(&self, y: i16, m: i8, d: i8, h: i8, mi: i8, s0: i8) -> (r: Option<DateTime>)
        requires
            self.inv(),
            valid_date(y as int, m as int, d as int),
            0 <= h <= 23,
            0 <= mi <= 59,
            0 <= s0 <= 60,
        ensures
            r matches Some(e) ==> {
                &&& self.ok(e)
                &&& e.sec_rank() >= sec_bound(
                    y as int,
                    m as int,
                    d as int,
                    h as int,
                    mi as int,
                    s0 as int,
                )
                &&& forall|e2: DateTime| #[trigger]
                    self.ok(e2) && e2.sec_rank() >= sec_bound(
                        y as int,
                        m as int,
                        d as int,
                        h as int,
                        mi as int,
                        s0 as int,
                    ) ==> e.sec_rank() <= e2.sec_rank()
            },
            r is None ==> forall|e2: DateTime| #[trigger]
                self.ok(e2) ==> e2.sec_rank() < sec_bound(
                    y as int,
                    m as int,
                    d as int,
                    h as int,
                    mi as int,
                    s0 as int,
                ),
    {
        let ghost b = sec_bound(y as int, m as int, d as int, h as int, mi as int, s0 as int);
        let ghost db = date_rank(y as int, m as int, d as int);
        assert(0 <= time_rank(h as int, mi as int, s0 as int) <= 86400);
        let first = self.first_date(y as i16, m as i16, d as i16);
        let (yy, mm, dd) = match first {
            Some(t) => t,
            None => {
                assert forall|e2: DateTime| #[trigger] self.ok(e2) implies e2.sec_rank() < b by {
                    lemma_rank_bounds(e2);
                    assert(self.date_ok(e2.year as int, e2.month as int, e2.day as int));
                }
                return None;
            },
        };
        if yy == y as i16 && mm == m as i16 && dd == d as i16 {
            if let Some((h1, mi1, s1)) = self.first_time(h as i16, mi as i16, s0 as i16) {
                let e = DateTime {
                    year: y,
                    month: m,
                    day: d,
                    hour: h1 as i8,
                    minute: mi1 as i8,
                    second: s1 as i8,
                    subsec_nanosecond: 0,
                };
                assert forall|e2: DateTime| #[trigger]
                    self.ok(e2) && e2.sec_rank() >= b implies e.sec_rank() <= e2.sec_rank() by {
                    lemma_rank_bounds(e2);
                    assert(self.date_ok(e2.year as int, e2.month as int, e2.day as int));
                    assert(self.time_ok(e2.hour as int, e2.minute as int, e2.second as int));
                }
                return Some(e);
            }
            let next = self.first_date(y as i16, m as i16, d as i16 + 1);
            let (y2, m2, d2) = match next {
                Some(t) => t,
                None => {
                    assert forall|e2: DateTime| #[trigger] self.ok(e2) implies e2.sec_rank()
                        < b by {
                        lemma_rank_bounds(e2);
                        assert(self.date_ok(e2.year as int, e2.month as int, e2.day as int));
                        assert(self.time_ok(e2.hour as int, e2.minute as int, e2.second as int));
                    }
                    return None;
                },
            };
            let h1 = self.hours.smallest();
            let mi1 = self.minutes.smallest();
            let s1 = self.seconds.smallest();
            let e = DateTime {
                year: y2,
                month: m2 as i8,
                day: d2 as i8,
                hour: h1 as i8,
                minute: mi1 as i8,
                second: s1 as i8,
                subsec_nanosecond: 0,
            };
            assert forall|e2: DateTime| #[trigger]
                self.ok(e2) && e2.sec_rank() >= b implies e.sec_rank() <= e2.sec_rank() by {
                lemma_rank_bounds(e2);
                assert(self.date_ok(e2.year as int, e2.month as int, e2.day as int));
                assert(self.time_ok(e2.hour as int, e2.minute as int, e2.second as int));
                assert(self.hours.has(e2.hour as int));
                assert(self.minutes.has(e2.minute as int));
                assert(self.seconds.has(e2.second as int));
            }
            return Some(e);
        }
        let h1 = self.hours.smallest();
        let mi1 = self.minutes.smallest();
        let s1 = self.seconds.smallest();
        let e = DateTime {
            year: yy,
            month: mm as i8,
            day: dd as i8,
            hour: h1 as i8,
            minute: mi1 as i8,
            second: s1 as i8,
            subsec_nanosecond: 0,
        };
        assert forall|e2: DateTime| #[trigger]
            self.ok(e2) && e2.sec_rank() >= b implies e.sec_rank() <= e2.sec_rank() by {
            lemma_rank_bounds(e2);
            assert(self.date_ok(e2.year as int, e2.month as int, e2.day as int));
            assert(self.time_ok(e2.hour as int, e2.minute as int, e2.second as int));
            assert(self.hours.has(e2.hour as int));
            assert(self.minutes.has(e2.minute as int));
            assert(self.seconds.has(e2.second as int));
        }
        Some(e)
    }

    /// The latest event whose second is at or before the second `y-m-d h:mi:s0` (where the date is
    /// valid and `s0` may be `-1`).
    fn last_upto(&self, y: i16, m: i8, d: i8, h: i8, mi: i8, s0: i8) -> (r: Option<DateTime>)
        requires
            self.inv(),
            valid_date(y as int, m as int, d as int),
            0 <= h <= 23,
            0 <= mi <= 59,
            -1 <= s0 <= 59,
        ensures
            r matches Some(e) ==> {
                &&& self.ok(e)
                &&& e.sec_rank() <= sec_bound(
                    y as int,
                    m as int,
                    d as int,
                    h as int,
                    mi as int,
                    s0 as int,
                )
                &&& forall|e2: DateTime| #[trigger]
                    self.ok(e2) && e2.sec_rank() <= sec_bound(
                        y as int,
                        m as int,
                        d as int,
                        h as int,
                        mi as int,
                        s0 as int,
                    ) ==> e2.sec_rank() <= e.sec_rank()
            },
            r is None ==> forall|e2: DateTime| #[trigger]
                self.ok(e2) ==> e2.sec_rank() > sec_bound(
                    y as int,
                    m as int,
                    d as int,
                    h as int,
                    mi as int,
                    s0 as int,
                ),
    {
        let ghost b = sec_bound(y as int, m as int, d as int, h as int, mi as int, s0 as int);
        assert(-1 <= time_rank(h as int, mi as int, s0 as int) < 86400);
        let last = self.last_date(y as i16, m as i16, d as i16);
        let (yy, mm, dd) = match last {
            Some(t) => t,
            None => {
                assert forall|e2: DateTime| #[trigger] self.ok(e2) implies e2.sec_rank() > b by {
                    lemma_rank_bounds(e2);
                    assert(self.date_ok(e2.year as int, e2.month as int, e2.day as int));
                }
                return None;
            },
        };
        if yy == y as i16 && mm == m as i16 && dd == d as i16 {
            if let Some((h1, mi1, s1)) = self.last_time(h as i16, mi as i16, s0 as i16) {
                let e = DateTime {
                    year: y,
                    month: m,
                    day: d,
                    hour: h1 as i8,
                    minute: mi1 as i8,
                    second: s1 as i8,
                    subsec_nanosecond: 0,
                };
                assert forall|e2: DateTime| #[trigger]
                    self.ok(e2) && e2.sec_rank() <= b implies e2.sec_rank() <= e.sec_rank() by {
                    lemma_rank_bounds(e2);
                    assert(self.date_ok(e2.year as int, e2.month as int, e2.day as int));
                    assert(self.time_ok(e2.hour as int, e2.minute as int, e2.second as int));
                }
                return Some(e);
            }
            let prev = self.last_date(y as i16, m as i16, d as i16 - 1);
            let (y2, m2, d2) = match prev {
                Some(t) => t,
                None => {
                    assert forall|e2: DateTime| #[trigger] self.ok(e2) implies e2.sec_rank()
                        > b by {
                        lemma_rank_bounds(e2);
                        assert(self.date_ok(e2.year as int, e2.month as int, e2.day as int));
                        assert(self.time_ok(e2.hour as int, e2.minute as int, e2.second as int));
                    }
                    return None;
                },
            };
            let h1 = self.hours.largest();
            let mi1 = self.minutes.largest();
            let s1 = self.seconds.largest();
            let e = DateTime {
                year: y2,
                month: m2 as i8,
                day: d2 as i8,
                hour: h1 as i8,
                minute: mi1 as i8,
                second: s1 as i8,
                subsec_nanosecond: 0,
            };
            assert forall|e2: DateTime| #[trigger]
                self.ok(e2) && e2.sec_rank() <= b implies e2.sec_rank() <= e.sec_rank() by {
                lemma_rank_bounds(e2);
                assert(self.date_ok(e2.year as int, e2.month as int, e2.day as int));
                assert(self.time_ok(e2.hour as int, e2.minute as int, e2.second as int));
                assert(self.hours.has(e2.hour as int));
                assert(self.minutes.has(e2.minute as int));
                assert(self.seconds.has(e2.second as int));
            }
            return Some(e);
        }
        let h1 = self.hours.largest();
        let mi1 = self.minutes.largest();
        let s1 = self.seconds.largest();
        let e = DateTime {
            year: yy,
            month: mm as i8,
            day: dd as i8,
            hour: h1 as i8,
            minute: mi1 as i8,
            second: s1 as i8,
            subsec_nanosecond: 0,
        };
        assert forall|e2: DateTime| #[trigger]
            self.ok(e2) && e2.sec_rank() <= b implies e2.sec_rank() <= e.sec_rank() by {
            lemma_rank_bounds(e2);
            assert(self.date_ok(e2.year as int, e2.month as int, e2.day as int));
            assert(self.time_ok(e2.hour as int, e2.minute as int, e2.second as int));
            assert(self.hours.has(e2.hour as int));
            assert(self.minutes.has(e2.minute as int));
            assert(self.seconds.has(e2.second as int));
        }
        Some(e)
    }

    proof fn lemma_ok(&self, e: DateTime)
        requires
            self.inv(),
        ensures
            self@.matches(e) == self.ok(e),
            self.ok(e) ==> e.rank() == e.sec_rank() * 1_000_000_000,
    {
        self.lemma_view();
    }

    /// The earliest event `e` with `range.start <= e < range.end` that is after `instant` (or at
    /// it, if `inclusive`).
    fn first_after(&self, instant: DateTime, range: DateTimeRange, inclusive: bool) -> (r: Option<
        DateTime,
    >)
        requires
            self.inv(),
            instant.wf(),
            range.wf(),
        ensures
            r == self@.first_match(
                if instant.rank() < range.start.rank() {
                    range.start.rank()
                } else if inclusive {
                    instant.rank()
                } else {
                    instant.rank() + 1
                },
                range.end.rank(),
            ),
    {
        let ghost lo = if instant.rank() < range.start.rank() {
            range.start.rank()
        } else if inclusive {
            instant.rank()
        } else {
            instant.rank() + 1
        };
        let ghost hi = range.end.rank();
        let lower_is_start = instant.is_before(&range.start);
        let b = if lower_is_start {
            range.start
        } else {
            instant
        };
        let s0: i8 = if (lower_is_start || inclusive) && b.subsec_nanosecond == 0 {
            b.second
        } else {
            b.second + 1
        };
        let ghost sb = sec_bound(
            b.year as int,
            b.month as int,
            b.day as int,
            b.hour as int,
            b.minute as int,
            s0 as int,
        );
        assert forall|e: DateTime| #[trigger] self.ok(e) implies (e.sec_rank() >= sb <==> e.rank()
            >= lo) by {
            self.lemma_ok(e);
        }
        match self.first_from(b.year, b.month, b.day, b.hour, b.minute, s0) {
            Some(e) => {
                proof {
                    self.lemma_ok(e);
                }
                if e.is_before(&range.end) {
                    assert forall|e2: DateTime| #[trigger]
                        self@.matches(e2) && lo <= e2.rank() < hi implies e.rank()
                        <= e2.rank() by {
                        self.lemma_ok(e2);
                    }
                    proof {
                        self@.lemma_first_is(lo, hi, e);
                    }
                    Some(e)
                } else {
                    assert forall|e2: DateTime| #[trigger] self@.matches(e2) implies !(lo
                        <= e2.rank() < hi) by {
                        self.lemma_ok(e2);
                    }
                    proof {
                        self@.lemma_first_none(lo, hi);
                    }
                    None
                }
            },
            None => {
                assert forall|e2: DateTime| #[trigger] self@.matches(e2) implies !(lo <= e2.rank()
                    < hi) by {
                    self.lemma_ok(e2);
                }
                proof {
                    self@.lemma_first_none(lo, hi);
                }
                None
            },
        }
    }

    /// The latest event `e` with `range.start <= e < min(instant, range.end)`.
    fn last_before(&self, instant: DateTime, range: DateTimeRange) -> (r: Option<DateTime>)
        requires
            self.inv(),
            instant.wf(),
            range.wf(),
        ensures
            r == self@.last_match(
                range.start.rank(),
                if instant.rank() < range.end.rank() {
                    instant.rank()
                } else {
                    range.end.rank()
                },
            ),
    {
        let ghost lo = range.start.rank();
        let ghost hi = if instant.rank() < range.end.rank() {
            instant.rank()
        } else {
            range.end.rank()
        };
        let u = instant.earlier(range.end);
        let s0: i8 = if u.subsec_nanosecond == 0 {
            u.second - 1
        } else {
            u.second
        };
        let ghost sb = sec_bound(
            u.year as int,
            u.month as int,
            u.day as int,
            u.hour as int,
            u.minute as int,
            s0 as int,
        );
        assert forall|e: DateTime| #[trigger] self.ok(e) implies (e.sec_rank() <= sb <==> e.rank()
            < hi) by {
            self.lemma_ok(e);
        }
        match self.last_upto(u.year, u.month, u.day, u.hour, u.minute, s0) {
            Some(e) => {
                proof {
                    self.lemma_ok(e);
                }
                if !e.is_before(&range.start) {
                    assert forall|e2: DateTime| #[trigger]
                        self@.matches(e2) && lo <= e2.rank() < hi implies e2.rank()
                        <= e.rank() by {
                        self.lemma_ok(e2);
                    }
                    proof {
                        self@.lemma_last_is(lo, hi, e);
                    }
                    Some(e)
                } else {
                    assert forall|e2: DateTime| #[trigger] self@.matches(e2) implies !(lo
                        <= e2.rank() < hi) by {
                        self.lemma_ok(e2);
                    }
                    proof {
                        self@.lemma_last_none(lo, hi);
                    }
                    None
                }
            },
            None => {
                assert forall|e2: DateTime| #[trigger] self@.matches(e2) implies !(lo <= e2.rank()
                    < hi) by {
                    self.lemma_ok(e2);
                }
                proof {
                    self@.lemma_last_none(lo, hi);
                }
                None
            },
        }
    }
}

// Panicking builder methods.
impl Cron {
    /// Limits the pattern to a specific year; call it repeatedly to allow several years.
    ///
    /// The fallible version of this method is [`Cron::try_year`]. The year must be within
    /// `-9999..=9999`.
    pub fn year(self, year: i16) -> (r: Cron)
        requires
            self.inv(),
            -9999 <= year <= 9999,
        ensures
            r.inv(),
            r@ == (CronView { years: self@.years.insert(year as int), ..self@ }),
    {
        match self.try_year(year) {
            Ok(c) => c,
            Err(_) => Cron::new(),
        }
    }

    /// Limits the years to every `step`'s year from `start` onwards.
    ///
    /// The fallible version of this method is [`Cron::try_year_step_by`]. The step must not be
    /// zero and `start` must lie within `-9999..=9999`.
    pub fn year_step_by(self, start: i16, step: usize) -> (r: Cron)
        requires
            self.inv(),
            step > 0,
            start >= -9999,
            start <= 9999,
        ensures
            r.inv(),
            r@ == (CronView { years: self@.years + stepped(start as int, step as int, 9999), ..self@ }),
    {
        match self.try_year_step_by(start, step) {
            Ok(c) => c,
            Err(_) => Cron::new(),
        }
    }

    /// Limits the years to the given values.
    ///
    /// The fallible version of this method is [`Cron::try_years`]. Every value must be within
    /// `-9999..=9999`.
    pub fn years(self, years: &[i16]) -> (r: Cron)
        requires
            self.inv(),
            forall|i: int| 0 <= i < years@.len() ==> -9999 <= #[trigger] years@[i] <= 9999,
        ensures
            r.inv(),
            r@ == (CronView {
                years: self@.years + values_of(years@.map_values(|v: i16| v as int)),
                ..self@
            }),
    {
        proof {
            lemma_first_outside_none(years@.map_values(|v: i16| v as int), -9999, 9999);
        }
        match self.try_years(years) {
            Ok(c) => c,
            Err(_) => Cron::new(),
        }
    }

    /// Limits the pattern to a specific month; call it repeatedly to allow several months.
    ///
    /// The fallible version of this method is [`Cron::try_month`]. The month must be within
    /// `1..=12`.
    pub fn month(self, month: i8) -> (r: Cron)
        requires
            self.inv(),
            1 <= month <= 12,
        ensures
            r.inv(),
            r@ == (CronView { months: self@.months.insert(month as int), ..self@ }),
    {
        match self.try_month(month) {
            Ok(c) => c,
            Err(_) => Cron::new(),
        }
    }

    /// Limits the months to every `step`'s month from `start` onwards.
    ///
    /// The fallible version of this method is [`Cron::try_month_step_by`]. The step must not be
    /// zero and `start` must lie within `1..=12`.
    pub fn month_step_by(self, start: i8, step: usize) -> (r: Cron)
        requires
            self.inv(),
            step > 0,
            start >= 1,
            start <= 12,
        ensures
            r.inv(),
            r@ == (CronView { months: self@.months + stepped(start as int, step as int, 12), ..self@ }),
    {
        match self.try_month_step_by(start, step) {
            Ok(c) => c,
            Err(_) => Cron::new(),
        }
    }

    /// Limits the months to the given values.
    ///
    /// The fallible version of this method is [`Cron::try_months`]. Every value must be within
    /// `1..=12`.
    pub fn months(self, months: &[i8]) -> (r: Cron)
        requires
            self.inv(),
            forall|i: int| 0 <= i < months@.len() ==> 1 <= #[trigger] months@[i] <= 12,
        ensures
            r.inv(),
            r@ == (CronView {
                months: self@.months + values_of(months@.map_values(|v: i8| v as int)),
                ..self@
            }),
    {
        proof {
            lemma_first_outside_none(months@.map_values(|v: i8| v as int), 1, 12);
        }
        match self.try_months(months) {
            Ok(c) => c,
            Err(_) => Cron::new(),
        }
    }

    /// Limits the pattern to a specific day; call it repeatedly to allow several days.
    ///
    /// The fallible version of this method is [`Cron::try_day`]. The day must be within
    /// `1..=31`.
    pub fn day(self, day: i8) -> (r: Cron)
        requires
            self.inv(),
            1 <= day <= 31,
        ensures
            r.inv(),
            r@ == (CronView { days: self@.days.insert(day as int), ..self@ }),
    {
        match self.try_day(day) {
            Ok(c) => c,
            Err(_) => Cron::new(),
        }
    }

    /// Limits the days to every `step`'s day from `start` onwards.
    ///
    /// The fallible version of this method is [`Cron::try_day_step_by`]. The step must not be
    /// zero and `start` must lie within `1..=31`.
    pub fn day_step_by(self, start: i8, step: usize) -> (r: Cron)
        requires
            self.inv(),
            step > 0,
            start >= 1,
            start <= 31,
        ensures
            r.inv(),
            r@ == (CronView { days: self@.days + stepped(start as int, step as int, 31), ..self@ }),
    {
        match self.try_day_step_by(start, step) {
            Ok(c) => c,
            Err(_) => Cron::new(),
        }
    }

    /// Limits the days to the given values.
    ///
    /// The fallible version of this method is [`Cron::try_days`]. Every value must be within
    /// `1..=31`.
    pub fn days(self, days: &[i8]) -> (r: Cron)
        requires
            self.inv(),
            forall|i: int| 0 <= i < days@.len() ==> 1 <= #[trigger] days@[i] <= 31,
        ensures
            r.inv(),
            r@ == (CronView {
                days: self@.days + values_of(days@.map_values(|v: i8| v as int)),
                ..self@
            }),
    {
        proof {
            lemma_first_outside_none(days@.map_values(|v: i8| v as int), 1, 31);
        }
        match self.try_days(days) {
            Ok(c) => c,
            Err(_) => Cron::new(),
        }
    }

    /// Limits the pattern to a specific hour; call it repeatedly to allow several hours.
    ///
    /// The fallible version of this method is [`Cron::try_hour`]. The hour must be within
    /// `0..=23`.
    pub fn hour(self, hour: i8) -> (r: Cron)
        requires
            self.inv(),
            0 <= hour <= 23,
        ensures
            r.inv(),
            r@ == (CronView { hours: self@.hours.insert(hour as int), ..self@ }),
    {
        match self.try_hour(hour) {
            Ok(c) => c,
            Err(_) => Cron::new(),
        }
    }

    /// Limits the hours to every `step`'s hour from `start` onwards.
    ///
    /// The fallible version of this method is [`Cron::try_hour_step_by`]. The step must not be
    /// zero and `start` must lie within `0..=23`.
    pub fn hour_step_by(self, start: i8, step: usize) -> (r: Cron)
        requires
            self.inv(),
            step > 0,
            start >= 0,
            start <= 23,
        ensures
            r.inv(),
            r@ == (CronView { hours: self@.hours + stepped(start as int, step as int, 23), ..self@ }),
    {
        match self.try_hour_step_by(start, step) {
            Ok(c) => c,
            Err(_) => Cron::new(),
        }
    }

    /// Limits the hours to the given values.
    ///
    /// The fallible version of this method is [`Cron::try_hours`]. Every value must be within
    /// `0..=23`.
    pub fn hours(self, hours: &[i8]) -> (r: Cron)
        requires
            self.inv(),
            forall|i: int| 0 <= i < hours@.len() ==> 0 <= #[trigger] hours@[i] <= 23,
        ensures
            r.inv(),
            r@ == (CronView {
                hours: self@.hours + values_of(hours@.map_values(|v: i8| v as int)),
                ..self@
            }),
    {
        proof {
            lemma_first_outside_none(hours@.map_values(|v: i8| v as int), 0, 23);
        }
        match self.try_hours(hours) {
            Ok(c) => c,
            Err(_) => Cron::new(),
        }
    }

    /// Limits the pattern to a specific minute; call it repeatedly to allow several minutes.
    ///
    /// The fallible version of this method is [`Cron::try_minute`]. The minute must be within
    /// `0..=59`.
    pub fn minute(self, minute: i8) -> (r: Cron)
        requires
            self.inv(),
            0 <= minute <= 59,
        ensures
            r.inv(),
            r@ == (CronView { minutes: self@.minutes.insert(minute as int), ..self@ }),
    {
        match self.try_minute(minute) {
            Ok(c) => c,
            Err(_) => Cron::new(),
        }
    }

    /// Limits the minutes to every `step`'s minute from `start` onwards.
    ///
    /// The fallible version of this method is [`Cron::try_minute_step_by`]. The step must not be
    /// zero and `start` must lie within `0..=59`.
    pub fn minute_step_by(self, start: i8, step: usize) -> (r: Cron)
        requires
            self.inv(),
            step > 0,
            start >= 0,
            start <= 59,
        ensures
            r.inv(),
            r@ == (CronView { minutes: self@.minutes + stepped(start as int, step as int, 59), ..self@ }),
    {
        match self.try_minute_step_by(start, step) {
            Ok(c) => c,
            Err(_) => Cron::new(),
        }
    }

    /// Limits the minutes to the given values.
    ///
    /// The fallible version of this method is [`Cron::try_minutes`]. Every value must be within
    /// `0..=59`.
    pub fn minutes(self, minutes: &[i8]) -> (r: Cron)
        requires
            self.inv(),
            forall|i: int| 0 <= i < minutes@.len() ==> 0 <= #[trigger] minutes@[i] <= 59,
        ensures
            r.inv(),
            r@ == (CronView {
                minutes: self@.minutes + values_of(minutes@.map_values(|v: i8| v as int)),
                ..self@
            }),
    {
        proof {
            lemma_first_outside_none(minutes@.map_values(|v: i8| v as int), 0, 59);
        }
        match self.try_minutes(minutes) {
            Ok(c) => c,
            Err(_) => Cron::new(),
        }
    }

    /// Limits the pattern to a specific second; call it repeatedly to allow several seconds.
    ///
    /// The fallible version of this method is [`Cron::try_second`]. The second must be within
    /// `0..=59`.
    pub fn second(self, second: i8) -> (r: Cron)
        requires
            self.inv(),
            0 <= second <= 59,
        ensures
            r.inv(),
            r@ == (CronView { seconds: self@.seconds.insert(second as int), ..self@ }),
    {
        match self.try_second(second) {
            Ok(c) => c,
            Err(_) => Cron::new(),
        }
    }

    /// Limits the seconds to every `step`'s second from `start` onwards.
    ///
    /// The fallible version of this method is [`Cron::try_second_step_by`]. The step must not be
    /// zero and `start` must lie within `0..=59`.
    pub fn second_step_by(self, start: i8, step: usize) -> (r: Cron)
        requires
            self.inv(),
            step > 0,
            start >= 0,
            start <= 59,
        ensures
            r.inv(),
            r@ == (CronView { seconds: self@.seconds + stepped(start as int, step as int, 59), ..self@ }),
    {
        match self.try_second_step_by(start, step) {
            Ok(c) => c,
            Err(_) => Cron::new(),
        }
    }

    /// Limits the seconds to the given values.
    ///
    /// The fallible version of this method is [`Cron::try_seconds`]. Every value must be within
    /// `0..=59`.
    pub fn seconds(self, seconds: &[i8]) -> (r: Cron)
        requires
            self.inv(),
            forall|i: int| 0 <= i < seconds@.len() ==> 0 <= #[trigger] seconds@[i] <= 59,
        ensures
            r.inv(),
            r@ == (CronView {
                seconds: self@.seconds + values_of(seconds@.map_values(|v: i8| v as int)),
                ..self@
            }),
    {
        proof {
            lemma_first_outside_none(seconds@.map_values(|v: i8| v as int), 0, 59);
        }
        match self.try_seconds(seconds) {
            Ok(c) => c,
            Err(_) => Cron::new(),
        }
    }

}

// Fallible builder methods.
impl Cron {
    /// Limits the pattern to a specific year; call it repeatedly to allow several years.
    ///
    /// # Errors
    ///
    /// Returns a range error if the year is not within `-9999..=9999`.
    pub fn try_year(self, year: i16) -> (r: Result<Cron, Error>)
        requires
            self.inv(),
        ensures
            r is Ok <==> -9999 <= year <= 9999,
            r matches Ok(c) ==> c.inv() && c@ == (CronView { years: self@.years.insert(year as int), ..self@ }),
            r matches Err(e) ==> e.is_range(year as int, -9999, 9999),
    {
        let Cron { years, months, weekdays, days, hours, minutes, seconds } = self;
        let mut set = years;
        match set.try_insert(year as i16) {
            Ok(_) => Ok(Cron { years: set, months, weekdays, days, hours, minutes, seconds }),
            Err(e) => Err(e),
        }
    }

    /// Limits the years to every `step`'s year from `start` onwards (up to `9999`).
    ///
    /// The step must not be zero.
    ///
    /// # Errors
    ///
    /// Returns a range error if `start` is not within `-9999..=9999`.
    pub fn try_year_step_by(self, start: i16, step: usize) -> (r: Result<Cron, Error>)
        requires
            self.inv(),
            step > 0,
        ensures
            r is Ok <==> (-9999 <= start <= 9999),
            r matches Ok(c) ==> c.inv() && c@ == (CronView {
                years: self@.years + stepped(start as int, step as int, 9999),
                ..self@
            }),
            r matches Err(e) ==> e.is_range(start as int, -9999, 9999),
    {
        let Cron { years, months, weekdays, days, hours, minutes, seconds } = self;
        let mut set = years;
        match set.try_insert_stepped(start as i16, step) {
            Ok(_) => Ok(Cron { years: set, months, weekdays, days, hours, minutes, seconds }),
            Err(e) => Err(e),
        }
    }

    /// Limits the years to the given values.
    ///
    /// # Errors
    ///
    /// Returns a range error for the first value that is not within `-9999..=9999`.
    pub fn try_years(self, years: &[i16]) -> (r: Result<Cron, Error>)
        requires
            self.inv(),
        ensures
            ({
                let s = years@.map_values(|v: i16| v as int);
                let i = first_outside(s, -9999, 9999);
                &&& r is Ok <==> i == s.len()
                &&& r matches Ok(c) ==> c.inv() && c@ == (CronView { years: self@.years + values_of(s), ..self@ })
                &&& r matches Err(e) ==> e.is_range(s[i], -9999, 9999)
            }),
    {
        let input = years;
        let Cron { years, months, weekdays, days, hours, minutes, seconds } = self;
        let mut set = years;
        match set.try_insert_all(input) {
            Ok(_) => Ok(Cron { years: set, months, weekdays, days, hours, minutes, seconds }),
            Err(e) => Err(e),
        }
    }

    /// Limits the pattern to a specific month; call it repeatedly to allow several months.
    ///
    /// # Errors
    ///
    /// Returns a range error if the month is not within `1..=12`.
    pub fn try_month(self, month: i8) -> (r: Result<Cron, Error>)
        requires
            self.inv(),
        ensures
            r is Ok <==> 1 <= month <= 12,
            r matches Ok(c) ==> c.inv() && c@ == (CronView { months: self@.months.insert(month as int), ..self@ }),
            r matches Err(e) ==> e.is_range(month as int, 1, 12),
    {
        let Cron { years, months, weekdays, days, hours, minutes, seconds } = self;
        let mut set = months;
        match set.try_insert(month as i16) {
            Ok(_) => Ok(Cron { years, months: set, weekdays, days, hours, minutes, seconds }),
            Err(e) => Err(e),
        }
    }

    /// Limits the months to every `step`'s month from `start` onwards (up to `12`).
    ///
    /// The step must not be zero.
    ///
    /// # Errors
    ///
    /// Returns a range error if `start` is not within `1..=12`.
    pub fn try_month_step_by(self, start: i8, step: usize) -> (r: Result<Cron, Error>)
        requires
            self.inv(),
            step > 0,
        ensures
            r is Ok <==> (1 <= start <= 12),
            r matches Ok(c) ==> c.inv() && c@ == (CronView {
                months: self@.months + stepped(start as int, step as int, 12),
                ..self@
            }),
            r matches Err(e) ==> e.is_range(start as int, 1, 12),
    {
        let Cron { years, months, weekdays, days, hours, minutes, seconds } = self;
        let mut set = months;
        match set.try_insert_stepped(start as i16, step) {
            Ok(_) => Ok(Cron { years, months: set, weekdays, days, hours, minutes, seconds }),
            Err(e) => Err(e),
        }
    }

    /// Limits the months to the given values.
    ///
    /// # Errors
    ///
    /// Returns a range error for the first value that is not within `1..=12`.
    pub fn try_months(self, months: &[i8]) -> (r: Result<Cron, Error>)
        requires
            self.inv(),
        ensures
            ({
                let s = months@.map_values(|v: i8| v as int);
                let i = first_outside(s, 1, 12);
                &&& r is Ok <==> i == s.len()
                &&& r matches Ok(c) ==> c.inv() && c@ == (CronView { months: self@.months + values_of(s), ..self@ })
                &&& r matches Err(e) ==> e.is_range(s[i], 1, 12)
            }),
    {
        let mut wide: Vec<i16> = Vec::new();
        let mut i: usize = 0;
        while i < months.len()
            invariant
                0 <= i <= months.len(),
                wide@.len() == i,
                forall|j: int| 0 <= j < i ==> wide@[j] as int == months@[j] as int,
            decreases months.len() - i,
        {
            wide.push(months[i] as i16);
            i = i + 1;
        }
        assert(wide@.map_values(|v: i16| v as int) =~= months@.map_values(|v: i8| v as int));

        let Cron { years, months, weekdays, days, hours, minutes, seconds } = self;
        let mut set = months;
        match set.try_insert_all(&wide) {
            Ok(_) => Ok(Cron { years, months: set, weekdays, days, hours, minutes, seconds }),
            Err(e) => Err(e),
        }
    }

    /// Limits the pattern to a specific day; call it repeatedly to allow several days.
    ///
    /// # Errors
    ///
    /// Returns a range error if the day is not within `1..=31`.
    pub fn try_day(self, day: i8) -> (r: Result<Cron, Error>)
        requires
            self.inv(),
        ensures
            r is Ok <==> 1 <= day <= 31,
            r matches Ok(c) ==> c.inv() && c@ == (CronView { days: self@.days.insert(day as int), ..self@ }),
            r matches Err(e) ==> e.is_range(day as int, 1, 31),
    {
        let Cron { years, months, weekdays, days, hours, minutes, seconds } = self;
        let mut set = days;
        match set.try_insert(day as i16) {
            Ok(_) => Ok(Cron { years, months, weekdays, days: set, hours, minutes, seconds }),
            Err(e) => Err(e),
        }
    }

    /// Limits the days to every `step`'s day from `start` onwards (up to `31`).
    ///
    /// The step must not be zero.
    ///
    /// # Errors
    ///
    /// Returns a range error if `start` is not within `1..=31`.
    pub fn try_day_step_by(self, start: i8, step: usize) -> (r: Result<Cron, Error>)
        requires
            self.inv(),
            step > 0,
        ensures
            r is Ok <==> (1 <= start <= 31),
            r matches Ok(c) ==> c.inv() && c@ == (CronView {
                days: self@.days + stepped(start as int, step as int, 31),
                ..self@
            }),
            r matches Err(e) ==> e.is_range(start as int, 1, 31),
    {
        let Cron { years, months, weekdays, days, hours, minutes, seconds } = self;
        let mut set = days;
        match set.try_insert_stepped(start as i16, step) {
            Ok(_) => Ok(Cron { years, months, weekdays, days: set, hours, minutes, seconds }),
            Err(e) => Err(e),
        }
    }

    /// Limits the days to the given values.
    ///
    /// # Errors
    ///
    /// Returns a range error for the first value that is not within `1..=31`.
    pub fn try_days(self, days: &[i8]) -> (r: Result<Cron, Error>)
        requires
            self.inv(),
        ensures
            ({
                let s = days@.map_values(|v: i8| v as int);
                let i = first_outside(s, 1, 31);
                &&& r is Ok <==> i == s.len()
                &&& r matches Ok(c) ==> c.inv() && c@ == (CronView { days: self@.days + values_of(s), ..self@ })
                &&& r matches Err(e) ==> e.is_range(s[i], 1, 31)
            }),
    {
        let mut wide: Vec<i16> = Vec::new();
        let mut i: usize = 0;
        while i < days.len()
            invariant
                0 <= i <= days.len(),
                wide@.len() == i,
                forall|j: int| 0 <= j < i ==> wide@[j] as int == days@[j] as int,
            decreases days.len() - i,
        {
            wide.push(days[i] as i16);
            i = i + 1;
        }
        assert(wide@.map_values(|v: i16| v as int) =~= days@.map_values(|v: i8| v as int));

        let Cron { years, months, weekdays, days, hours, minutes, seconds } = self;
        let mut set = days;
        match set.try_insert_all(&wide) {
            Ok(_) => Ok(Cron { years, months, weekdays, days: set, hours, minutes, seconds }),
            Err(e) => Err(e),
        }
    }

    /// Limits the pattern to a specific hour; call it repeatedly to allow several hours.
    ///
    /// # Errors
    ///
    /// Returns a range error if the hour is not within `0..=23`.
    pub fn try_hour(self, hour: i8) -> (r: Result<Cron, Error>)
        requires
            self.inv(),
        ensures
            r is Ok <==> 0 <= hour <= 23,
            r matches Ok(c) ==> c.inv() && c@ == (CronView { hours: self@.hours.insert(hour as int), ..self@ }),
            r matches Err(e) ==> e.is_range(hour as int, 0, 23),
    {
        let Cron { years, months, weekdays, days, hours, minutes, seconds } = self;
        let mut set = hours;
        match set.try_insert(hour as i16) {
            Ok(_) => Ok(Cron { years, months, weekdays, days, hours: set, minutes, seconds }),
            Err(e) => Err(e),
        }
    }

    /// Limits the hours to every `step`'s hour from `start` onwards (up to `23`).
    ///
    /// The step must not be zero.
    ///
    /// # Errors
    ///
    /// Returns a range error if `start` is not within `0..=23`.
    pub fn try_hour_step_by(self, start: i8, step: usize) -> (r: Result<Cron, Error>)
        requires
            self.inv(),
            step > 0,
        ensures
            r is Ok <==> (0 <= start <= 23),
            r matches Ok(c) ==> c.inv() && c@ == (CronView {
                hours: self@.hours + stepped(start as int, step as int, 23),
                ..self@
            }),
            r matches Err(e) ==> e.is_range(start as int, 0, 23),
    {
        let Cron { years, months, weekdays, days, hours, minutes, seconds } = self;
        let mut set = hours;
        match set.try_insert_stepped(start as i16, step) {
            Ok(_) => Ok(Cron { years, months, weekdays, days, hours: set, minutes, seconds }),
            Err(e) => Err(e),
        }
    }

    /// Limits the hours to the given values.
    ///
    /// # Errors
    ///
    /// Returns a range error for the first value that is not within `0..=23`.
    pub fn try_hours(self, hours: &[i8]) -> (r: Result<Cron, Error>)
        requires
            self.inv(),
        ensures
            ({
                let s = hours@.map_values(|v: i8| v as int);
                let i = first_outside(s, 0, 23);
                &&& r is Ok <==> i == s.len()
                &&& r matches Ok(c) ==> c.inv() && c@ == (CronView { hours: self@.hours + values_of(s), ..self@ })
                &&& r matches Err(e) ==> e.is_range(s[i], 0, 23)
            }),
    {
        let mut wide: Vec<i16> = Vec::new();
        let mut i: usize = 0;
        while i < hours.len()
            invariant
                0 <= i <= hours.len(),
                wide@.len() == i,
                forall|j: int| 0 <= j < i ==> wide@[j] as int == hours@[j] as int,
            decreases hours.len() - i,
        {
            wide.push(hours[i] as i16);
            i = i + 1;
        }
        assert(wide@.map_values(|v: i16| v as int) =~= hours@.map_values(|v: i8| v as int));

        let Cron { years, months, weekdays, days, hours, minutes, seconds } = self;
        let mut set = hours;
        match set.try_insert_all(&wide) {
            Ok(_) => Ok(Cron { years, months, weekdays, days, hours: set, minutes, seconds }),
            Err(e) => Err(e),
        }
    }

    /// Limits the pattern to a specific minute; call it repeatedly to allow several minutes.
    ///
    /// # Errors
    ///
    /// Returns a range error if the minute is not within `0..=59`.
    pub fn try_minute(self, minute: i8) -> (r: Result<Cron, Error>)
        requires
            self.inv(),
        ensures
            r is Ok <==> 0 <= minute <= 59,
            r matches Ok(c) ==> c.inv() && c@ == (CronView { minutes: self@.minutes.insert(minute as int), ..self@ }),
            r matches Err(e) ==> e.is_range(minute as int, 0, 59),
    {
        let Cron { years, months, weekdays, days, hours, minutes, seconds } = self;
        let mut set = minutes;
        match set.try_insert(minute as i16) {
            Ok(_) => Ok(Cron { years, months, weekdays, days, hours, minutes: set, seconds }),
            Err(e) => Err(e),
        }
    }

    /// Limits the minutes to every `step`'s minute from `start` onwards (up to `59`).
    ///
    /// The step must not be zero.
    ///
    /// # Errors
    ///
    /// Returns a range error if `start` is not within `0..=59`.
    pub fn try_minute_step_by(self, start: i8, step: usize) -> (r: Result<Cron, Error>)
        requires
            self.inv(),
            step > 0,
        ensures
            r is Ok <==> (0 <= start <= 59),
            r matches Ok(c) ==> c.inv() && c@ == (CronView {
                minutes: self@.minutes + stepped(start as int, step as int, 59),
                ..self@
            }),
            r matches Err(e) ==> e.is_range(start as int, 0, 59),
    {
        let Cron { years, months, weekdays, days, hours, minutes, seconds } = self;
        let mut set = minutes;
        match set.try_insert_stepped(start as i16, step) {
            Ok(_) => Ok(Cron { years, months, weekdays, days, hours, minutes: set, seconds }),
            Err(e) => Err(e),
        }
    }

    /// Limits the minutes to the given values.
    ///
    /// # Errors
    ///
    /// Returns a range error for the first value that is not within `0..=59`.
    pub fn try_minutes(self, minutes: &[i8]) -> (r: Result<Cron, Error>)
        requires
            self.inv(),
        ensures
            ({
                let s = minutes@.map_values(|v: i8| v as int);
                let i = first_outside(s, 0, 59);
                &&& r is Ok <==> i == s.len()
                &&& r matches Ok(c) ==> c.inv() && c@ == (CronView { minutes: self@.minutes + values_of(s), ..self@ })
                &&& r matches Err(e) ==> e.is_range(s[i], 0, 59)
            }),
    {
        let mut wide: Vec<i16> = Vec::new();
        let mut i: usize = 0;
        while i < minutes.len()
            invariant
                0 <= i <= minutes.len(),
                wide@.len() == i,
                forall|j: int| 0 <= j < i ==> wide@[j] as int == minutes@[j] as int,
            decreases minutes.len() - i,
        {
            wide.push(minutes[i] as i16);
            i = i + 1;
        }
        assert(wide@.map_values(|v: i16| v as int) =~= minutes@.map_values(|v: i8| v as int));

        let Cron { years, months, weekdays, days, hours, minutes, seconds } = self;
        let mut set = minutes;
        match set.try_insert_all(&wide) {
            Ok(_) => Ok(Cron { years, months, weekdays, days, hours, minutes: set, seconds }),
            Err(e) => Err(e),
        }
    }

    /// Limits the pattern to a specific second; call it repeatedly to allow several seconds.
    ///
    /// # Errors
    ///
    /// Returns a range error if the second is not within `0..=59`.
    pub fn try_second(self, second: i8) -> (r: Result<Cron, Error>)
        requires
            self.inv(),
        ensures
            r is Ok <==> 0 <= second <= 59,
            r matches Ok(c) ==> c.inv() && c@ == (CronView { seconds: self@.seconds.insert(second as int), ..self@ }),
            r matches Err(e) ==> e.is_range(second as int, 0, 59),
    {
        let Cron { years, months, weekdays, days, hours, minutes, seconds } = self;
        let mut set = seconds;
        match set.try_insert(second as i16) {
            Ok(_) => Ok(Cron { years, months, weekdays, days, hours, minutes, seconds: set }),
            Err(e) => Err(e),
        }
    }

    /// Limits the seconds to every `step`'s second from `start` onwards (up to `59`).
    ///
    /// The step must not be zero.
    ///
    /// # Errors
    ///
    /// Returns a range error if `start` is not within `0..=59`.
    pub fn try_second_step_by(self, start: i8, step: usize) -> (r: Result<Cron, Error>)
        requires
            self.inv(),
            step > 0,
        ensures
            r is Ok <==> (0 <= start <= 59),
            r matches Ok(c) ==> c.inv() && c@ == (CronView {
                seconds: self@.seconds + stepped(start as int, step as int, 59),
                ..self@
            }),
            r matches Err(e) ==> e.is_range(start as int, 0, 59),
    {
        let Cron { years, months, weekdays, days, hours, minutes, seconds } = self;
        let mut set = seconds;
        match set.try_insert_stepped(start as i16, step) {
            Ok(_) => Ok(Cron { years, months, weekdays, days, hours, minutes, seconds: set }),
            Err(e) => Err(e),
        }
    }

    /// Limits the seconds to the given values.
    ///
    /// # Errors
    ///
    /// Returns a range error for the first value that is not within `0..=59`.
    pub fn try_seconds(self, seconds: &[i8]) -> (r: Result<Cron, Error>)
        requires
            self.inv(),
        ensures
            ({
                let s = seconds@.map_values(|v: i8| v as int);
                let i = first_outside(s, 0, 59);
                &&& r is Ok <==> i == s.len()
                &&& r matches Ok(c) ==> c.inv() && c@ == (CronView { seconds: self@.seconds + values_of(s), ..self@ })
                &&& r matches Err(e) ==> e.is_range(s[i], 0, 59)
            }),
    {
        let mut wide: Vec<i16> = Vec::new();
        let mut i: usize = 0;
        while i < seconds.len()
            invariant
                0 <= i <= seconds.len(),
                wide@.len() == i,
                forall|j: int| 0 <= j < i ==> wide@[j] as int == seconds@[j] as int,
            decreases seconds.len() - i,
        {
            wide.push(seconds[i] as i16);
            i = i + 1;
        }
        assert(wide@.map_values(|v: i16| v as int) =~= seconds@.map_values(|v: i8| v as int));

        let Cron { years, months, weekdays, days, hours, minutes, seconds } = self;
        let mut set = seconds;
        match set.try_insert_all(&wide) {
            Ok(_) => Ok(Cron { years, months, weekdays, days, hours, minutes, seconds: set }),
            Err(e) => Err(e),
        }
    }

}

// Weekday builder methods.
impl Cron {
    fn weekday_number(self, weekday: i8) -> (r: Cron)
        requires
            self.inv(),
            1 <= weekday <= 7,
        ensures
            r.inv(),
            r@ == (CronView { weekdays: self@.weekdays.insert(weekday as int), ..self@ }),
    {
        let Cron { years, months, weekdays, days, hours, minutes, seconds } = self;
        let mut set = weekdays;
        match set.try_insert(weekday as i16) {
            Ok(_) => Cron { years, months, weekdays: set, days, hours, minutes, seconds },
            Err(_) => Cron::new(),
        }
    }

    /// Limits the pattern to a specific weekday; call it repeatedly to allow several weekdays.
    pub fn weekday(self, weekday: Weekday) -> (r: Cron)
        requires
            self.inv(),
        ensures
            r.inv(),
            r@ == (CronView { weekdays: self@.weekdays.insert(weekday.number()), ..self@ }),
    {
        self.weekday_number(weekday.to_monday_one_offset())
    }

    /// Limits the weekdays to every `step`'s weekday from `start` onwards (up to Sunday).
    ///
    /// The step must not be zero.
    pub fn weekday_step_by(self, start: Weekday, step: usize) -> (r: Cron)
        requires
            self.inv(),
            step > 0,
        ensures
            r.inv(),
            r@ == (CronView {
                weekdays: self@.weekdays + stepped(start.number(), step as int, 7),
                ..self@
            }),
    {
        let Cron { years, months, weekdays, days, hours, minutes, seconds } = self;
        let mut set = weekdays;
        match set.try_insert_stepped(start.to_monday_one_offset() as i16, step) {
            Ok(_) => Cron { years, months, weekdays: set, days, hours, minutes, seconds },
            Err(_) => Cron::new(),
        }
    }

    /// Limits the weekdays to the given values.
    pub fn weekdays(self, weekdays: &[Weekday]) -> (r: Cron)
        requires
            self.inv(),
        ensures
            r.inv(),
            r@ == (CronView {
                weekdays: self@.weekdays + values_of(weekdays@.map_values(|w: Weekday| w.number())),
                ..self@
            }),
    {
        let mut c = self;
        let mut i: usize = 0;
        let ghost s = weekdays@.map_values(|w: Weekday| w.number());
        assert(values_of(s.take(0)) =~= Set::<int>::empty());
        assert(c@.weekdays + values_of(s.take(0)) =~= c@.weekdays);
        while i < weekdays.len()
            invariant
                c.inv(),
                0 <= i <= weekdays.len(),
                s == weekdays@.map_values(|w: Weekday| w.number()),
                c@ == (CronView { weekdays: self@.weekdays + values_of(s.take(i as int)), ..self@ }),
            decreases weekdays.len() - i,
        {
            c = c.weekday(weekdays[i]);
            assert(values_of(s.take(i + 1)) =~= values_of(s.take(i as int)).insert(s[i as int]))
                by {
                assert forall|w: int| values_of(s.take(i + 1)).contains(w) implies values_of(
                    s.take(i as int),
                ).insert(s[i as int]).contains(w) by {
                    let j = choose|j: int| 0 <= j < i + 1 && #[trigger] s.take(i + 1)[j] == w;
                    if j < i {
                        assert(s.take(i as int)[j] == w);
                    }
                }
                assert forall|w: int| values_of(s.take(i as int)).insert(s[i as int]).contains(w)
                    implies values_of(s.take(i + 1)).contains(w) by {
                    if w == s[i as int] {
                        assert(s.take(i + 1)[i as int] == w);
                    } else {
                        let j = choose|j: int| 0 <= j < i && #[trigger] s.take(i as int)[j] == w;
                        assert(s.take(i + 1)[j] == w);
                    }
                }
            }
            assert(c@.weekdays =~= self@.weekdays + values_of(s.take(i + 1)));
            i = i + 1;
        }
        assert(s.take(weekdays.len() as int) =~= s);
        c
    }
}

impl private::Sealed for Cron {

}

impl Pattern for Cron {
    open spec fn wf(&self) -> bool {
        self.inv()
    }

    open spec fn is_next_after(&self, instant: DateTime, range: DateTimeRange, r: Option<DateTime>) -> bool {
        r == self@.first_match(
            if instant.rank() < range.start.rank() {
                range.start.rank()
            } else {
                instant.rank() + 1
            },
            range.end.rank(),
        )
    }

    open spec fn is_previous_before(&self, instant: DateTime, range: DateTimeRange, r: Option<DateTime>) -> bool {
        r == self@.last_match(
            range.start.rank(),
            if instant.rank() < range.end.rank() {
                instant.rank()
            } else {
                range.end.rank()
            },
        )
    }

    open spec fn is_closest_to(&self, instant: DateTime, range: DateTimeRange, r: Option<DateTime>) -> bool {
        let i = clamp_into(instant, range);
        r == pick_closest(
            i,
            self@.last_match(range.start.rank(), i.rank()),
            self@.first_match(i.rank(), range.end.rank()),
        )
    }

    fn duplicate(&self) -> (r: Cron) {
        Cron {
            years: self.years.duplicate(),
            months: self.months.duplicate(),
            weekdays: self.weekdays.duplicate(),
            days: self.days.duplicate(),
            hours: self.hours.duplicate(),
            minutes: self.minutes.duplicate(),
            seconds: self.seconds.duplicate(),
        }
    }

    /// The earliest event strictly after `instant` that lies within `range`.
    fn next_after(&self, instant: DateTime, range: DateTimeRange) -> (r: Option<DateTime>)
    {
        self.first_after(instant, range, false)
    }

    /// The latest event strictly before `instant` that lies within `range`.
    fn previous_before(&self, instant: DateTime, range: DateTimeRange) -> (r: Option<DateTime>)
    {
        self.last_before(instant, range)
    }

    /// Of the latest event before and the earliest event at or after `instant` (moved into the
    /// range) within `range`, the one closer to it.
    fn closest_to(&self, instant: DateTime, range: DateTimeRange) -> (r: Option<DateTime>)
    {
        let i = instant.later(range.start).earlier(range.end);
        let next = self.first_after(i, range, true);
        let previous = self.last_before(i, range);
        match (previous, next) {
            (Some(p), Some(n)) => {
                if nanos_until(&p, &i) >= nanos_until(&i, &n) {
                    Some(n)
                } else {
                    Some(p)
                }
            },
            (Some(p), None) => Some(p),
            (None, n) => n,
        }
    }
}

/// A cron pattern finds no event closest to an instant only when no event lies within the range.
pub proof fn lemma_cron_closest_none(c: Cron, instant: DateTime, range: DateTimeRange, e: DateTime)
    requires
        instant.wf(),
        range.wf(),
        c.is_closest_to(instant, range, None),
        c@.matches(e),
    ensures
        !range.spec_contains(e),
{
    let i = clamp_into(instant, range);
    if range.spec_contains(e) {
        if e.rank() < i.rank() {
            c@.lemma_last_exists(range.start.rank(), i.rank(), e);
        } else {
            c@.lemma_first_exists(i.rank(), range.end.rank(), e);
        }
    }
}

/// The next event of a cron pattern after an instant before the range start is the first event
/// of the range: no event of the range comes before it.
pub proof fn lemma_cron_next_from_start(
    c: Cron,
    instant: DateTime,
    range: DateTimeRange,
    d: DateTime,
    e: DateTime,
)
    requires
        instant.rank() < range.start.rank(),
        c.is_next_after(instant, range, Some(d)),
        c@.matches(e),
        range.spec_contains(e),
    ensures
        d.rank() <= e.rank(),
{
    let lo = range.start.rank();
    let hi = range.end.rank();
    assert(c@.is_first(lo, hi, c@.first_match(lo, hi)->0)) by {
        c@.lemma_first_exists(lo, hi, e);
    }
}

/// The previous event of a cron pattern before an instant after the range end is the last event
/// of the range: no event of the range comes after it.
pub proof fn lemma_cron_previous_from_end(
    c: Cron,
    instant: DateTime,
    range: DateTimeRange,
    d: DateTime,
    e: DateTime,
)
    requires
        range.end.rank() < instant.rank(),
        c.is_previous_before(instant, range, Some(d)),
        c@.matches(e),
        range.spec_contains(e),
    ensures
        e.rank() <= d.rank(),
{
    let lo = range.start.rank();
    let hi = range.end.rank();
    assert(c@.is_last(lo, hi, c@.last_match(lo, hi)->0)) by {
        c@.lemma_last_exists(lo, hi, e);
    }
}

/// Every weekday number lies in `1..=7`.
pub proof fn lemma_weekday_range(year: i16, month: i8, day: i8)
    ensures
        1 <= civil_weekday(year, month, day) <= 7,
{
    reveal(civil_weekday);
}

/// A new cron pattern ticks at every whole second: every valid datetime without fraction of a
/// second is one of its events.
pub proof fn lemma_new_ticks_every_second(d: DateTime)
    requires
        d.wf(),
        d.subsec_nanosecond == 0,
    ensures
        every_second().matches(d),
{
    lemma_weekday_range(d.year, d.month, d.day);
}

/// The view of a new cron pattern, which limits no unit.
pub open spec fn every_second() -> CronView {
    CronView {
        years: Set::empty(),
        months: Set::empty(),
        weekdays: Set::empty(),
        days: Set::empty(),
        hours: Set::empty(),
        minutes: Set::empty(),
        seconds: Set::empty(),
    }
}

/// `e` is the earliest whole second `f` with `lo <= f.rank() < hi`.
pub open spec fn is_first_second(lo: int, hi: int, e: DateTime) -> bool {
    &&& e.wf()
    &&& e.subsec_nanosecond == 0
    &&& lo <= e.rank() < hi
    &&& forall|f: DateTime|
        f.wf() && f.subsec_nanosecond == 0 && lo <= #[trigger] f.rank() < hi ==> e.rank()
            <= f.rank()
}

/// `e` is the latest whole second `f` with `lo <= f.rank() < hi`.
pub open spec fn is_last_second(lo: int, hi: int, e: DateTime) -> bool {
    &&& e.wf()
    &&& e.subsec_nanosecond == 0
    &&& lo <= e.rank() < hi
    &&& forall|f: DateTime|
        f.wf() && f.subsec_nanosecond == 0 && lo <= #[trigger] f.rank() < hi ==> f.rank()
            <= e.rank()
}

/// A new cron pattern's next event after `d` is the next whole second after `d` within the range
/// (the first whole second of the range when `d` is before it), and there is one whenever the
/// range holds such a second.
pub proof fn lemma_new_next_after(c: Cron, d: DateTime, range: DateTimeRange, r: Option<DateTime>)
    requires
        c@ == every_second(),
        c.is_next_after(d, range, r),
    ensures
        ({
            let lo = if d.rank() < range.start.rank() {
                range.start.rank()
            } else {
                d.rank() + 1
            };
            &&& r matches Some(e) ==> is_first_second(lo, range.end.rank(), e)
            &&& (exists|f: DateTime|
                f.wf() && f.subsec_nanosecond == 0 && lo <= #[trigger] f.rank() < range.end.rank())
                ==> r is Some
        }),
{
    let lo = if d.rank() < range.start.rank() {
        range.start.rank()
    } else {
        d.rank() + 1
    };
    let hi = range.end.rank();
    if let Some(e) = r {
        assert(c@.is_first(lo, hi, e));
        assert forall|f: DateTime|
            f.wf() && f.subsec_nanosecond == 0 && lo <= #[trigger] f.rank() < hi implies e.rank()
                <= f.rank() by {
            lemma_new_ticks_every_second(f);
        }
    }
    if exists|f: DateTime| f.wf() && f.subsec_nanosecond == 0 && lo <= #[trigger] f.rank() < hi {
        let f = choose|f: DateTime| f.wf() && f.subsec_nanosecond == 0 && lo <= #[trigger] f.rank() < hi;
        lemma_new_ticks_every_second(f);
        c@.lemma_first_exists(lo, hi, f);
    }
}

/// A new cron pattern's previous event before `d` is the last whole second before `d` within the
/// range (the last whole second of the range when `d` is after it), and there is one whenever the
/// range holds such a second.
pub proof fn lemma_new_previous_before(c: Cron, d: DateTime, range: DateTimeRange, r: Option<DateTime>)
    requires
        c@ == every_second(),
        c.is_previous_before(d, range, r),
    ensures
        ({
            let hi = if d.rank() < range.end.rank() {
                d.rank()
            } else {
                range.end.rank()
            };
            &&& r matches Some(e) ==> is_last_second(range.start.rank(), hi, e)
            &&& (exists|f: DateTime|
                f.wf() && f.subsec_nanosecond == 0 && range.start.rank() <= #[trigger] f.rank() < hi)
                ==> r is Some
        }),
{
    let lo = range.start.rank();
    let hi = if d.rank() < range.end.rank() {
        d.rank()
    } else {
        range.end.rank()
    };
    if let Some(e) = r {
        assert(c@.is_last(lo, hi, e));
        assert forall|f: DateTime|
            f.wf() && f.subsec_nanosecond == 0 && lo <= #[trigger] f.rank() < hi implies f.rank()
                <= e.rank() by {
            lemma_new_ticks_every_second(f);
        }
    }
    if exists|f: DateTime| f.wf() && f.subsec_nanosecond == 0 && lo <= #[trigger] f.rank() < hi {
        let f = choose|f: DateTime| f.wf() && f.subsec_nanosecond == 0 && lo <= #[trigger] f.rank() < hi;
        lemma_new_ticks_every_second(f);
        c@.lemma_last_exists(lo, hi, f);
    }
}

/// A cron pattern yields one result per instant and range for each lookup.
pub proof fn lemma_cron_determined(
    c: Cron,
    instant: DateTime,
    range: DateTimeRange,
    x: Option<DateTime>,
    y: Option<DateTime>,
)
    ensures
        c.is_next_after(instant, range, x) && c.is_next_after(instant, range, y) ==> x == y,
        c.is_previous_before(instant, range, x) && c.is_previous_before(instant, range, y) ==> x
            == y,
        c.is_closest_to(instant, range, x) && c.is_closest_to(instant, range, y) ==> x == y,
{
}

/// The day number (counted by `days_from_civil`) of a date known to fall on `w`: the days of the
/// week from Monday 1970-01-05 to Sunday 1970-01-11.
pub open spec fn reference_day(w: Weekday) -> int {
    match w {
        Weekday::Monday => days_from_civil(1970, 1, 5),
        Weekday::Tuesday => days_from_civil(1970, 1, 6),
        Weekday::Wednesday => days_from_civil(1970, 1, 7),
        Weekday::Thursday => days_from_civil(1970, 1, 8),
        Weekday::Friday => days_from_civil(1970, 1, 9),
        Weekday::Saturday => days_from_civil(1970, 1, 10),
        Weekday::Sunday => days_from_civil(1970, 1, 11),
    }
}

/// A date falls on `w` when a whole number of weeks separates it from the reference day of `w`.
pub open spec fn falls_on(year: int, month: int, day: int, w: Weekday) -> bool {
    (days_from_civil(year, month, day) - reference_day(w)) % 7 == 0
}

/// The number of a weekday is the number every date falling on that weekday gets: a date's
/// weekday number (as `civil_weekday` gives it, and as cron patterns match dates) is that of `w`
/// exactly when the date falls on `w`.
pub proof fn lemma_weekday_number_of_dates(w: Weekday, year: int, month: int, day: int)
    requires
        valid_date(year, month, day),
    ensures
        civil_weekday(year as i16, month as i8, day as i8) == w.number() <==> falls_on(
            year,
            month,
            day,
            w,
        ),
{
    reveal(civil_weekday);
    lemma_days_of_january_1970();
    let n = days_from_civil(year, month, day);
    let k = (n + 3) % 7;
    assert(((k + 1) as i8) as int == k + 1);
    let j = w.number();
    assert(reference_day(w) == 3 + j);
    assert((n - 3 - j) % 7 == (k - j + 1 + 7) % 7) by (nonlinear_arith)
        requires
            k == (n + 3) % 7,
            1 <= j <= 7,
    ;
}

/// The day numbers of the week from Monday 1970-01-05 to Sunday 1970-01-11.
proof fn lemma_days_of_january_1970()
    ensures
        forall|d: int| 1 <= d <= 31 ==> #[trigger] days_from_civil(1970, 1, d) == d - 1,
{
    assert forall|d: int| 1 <= d <= 31 implies #[trigger] days_from_civil(1970, 1, d) == d - 1 by {
        reveal(days_from_civil);
        let era = 1969int / 400;
        assert(era == 4);
        let year_of_era = 1969 - era * 400;
        assert(year_of_era == 369);
        assert((153int * 10 + 2) / 5 == 306);
        assert(year_of_era / 4 == 92 && year_of_era / 100 == 3);
        assert(era * 146097 == 584388);
        assert(year_of_era * 365 == 134685);
    }
}

/// A cron pattern with a single weekday choice and no year, month or day choices matches exactly
/// the valid dates falling on that weekday.
pub proof fn lemma_weekday_choice_matches(v: CronView, w: Weekday, year: int, month: int, day: int)
    requires
        v.weekdays == set![w.number()],
        v.years.is_empty(),
        v.months.is_empty(),
        v.days.is_empty(),
    ensures
        v.date_matches(year, month, day) <==> valid_date(year, month, day) && falls_on(
            year,
            month,
            day,
            w,
        ),
{
    if valid_date(year, month, day) {
        lemma_weekday_number_of_dates(w, year, month, day);
        reveal(civil_weekday);
        let k = (days_from_civil(year, month, day) + 3) % 7;
        assert(((k + 1) as i8) as int == k + 1);
    }
}

} // verus!
