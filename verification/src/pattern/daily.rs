//! Daily recurrence patterns, optionally at a fixed time of day.
use crate::civil::{lemma_rank_bounds, lemma_same_time_order, DateTime, Time};
use crate::error::Error;
use crate::pattern::interval::{interval_error_text, lemma_next_after_on_grid, Interval, IntervalView};
use crate::pattern::utils::reached;
use crate::private;
use crate::range::DateTimeRange;
use crate::span::Span;
use crate::Pattern;
use vstd::prelude::*;

verus! {

/// A recurrence pattern for daily events which may also happen at a fixed time of the day.
#[derive(Debug, Clone, Copy)]
pub struct Daily {
    interval: Interval,
    at: Option<Time>,
}

/// The mathematical model of a [`Daily`] pattern.
pub struct DailyView {
    /// The underlying interval of whole days.
    pub interval: Interval,
    /// The time of day of the events, if fixed.
    pub at: Option<Time>,
}

impl View for Daily {
    type V = DailyView;

    closed spec fn view(&self) -> DailyView {
        DailyView { interval: self.interval, at: self.at }
    }
}

/// The span of `days` days.
pub open spec fn days_span(days: int) -> Span {
    Span::zero().with_unit(3, days)
}

/// Which lookup of the underlying interval a daily pattern performs.
enum Lookup {
    Next,
    Previous,
    Closest,
}

/// A lookup of an interval: `o` is what it yields for an instant and a range.
pub type Search = spec_fn(Interval, DateTime, DateTimeRange, Option<DateTime>) -> bool;

/// Looking up the next event of an interval.
pub open spec fn next_search() -> Search {
    |i: Interval, x: DateTime, rg: DateTimeRange, o: Option<DateTime>| i.next_after_spec(x, rg, o)
}

/// Looking up the previous event of an interval.
pub open spec fn previous_search() -> Search {
    |i: Interval, x: DateTime, rg: DateTimeRange, o: Option<DateTime>|
        i.previous_before_spec(x, rg, o)
}

/// Looking up the closest event of an interval.
pub open spec fn closest_search() -> Search {
    |i: Interval, x: DateTime, rg: DateTimeRange, o: Option<DateTime>| i.closest_to_spec(x, rg, o)
}

/// The interval lookup that `lookup` stands for.
spec fn search_of(lookup: Lookup) -> Search {
    match lookup {
        Lookup::Next => next_search(),
        Lookup::Previous => previous_search(),
        Lookup::Closest => closest_search(),
    }
}

/// The range a daily pattern with time of day `t` searches within `range`: from `t` on the day
/// of the range start, or, once `t` has passed on that day, on the day of `first` (the first
/// event of the interval after the range start); `None` when there is no such event. The days
/// are counted from the day of the range's fixpoint, at `t`.
pub open spec fn adjusted_range(range: DateTimeRange, t: Time, first: Option<DateTime>) -> Option<
    DateTimeRange,
> {
    if range.start.time_of().rank() <= t.rank() {
        Some(
            DateTimeRange {
                start: DateTime::from_parts(range.start.date_of(), t),
                end: range.end,
                fixpoint: Some(DateTime::from_parts(range.spec_fixpoint().date_of(), t)),
            },
        )
    } else {
        match first {
            Some(d) => Some(
                DateTimeRange {
                    start: DateTime::from_parts(d.date_of(), t),
                    end: range.end,
                    fixpoint: Some(DateTime::from_parts(range.spec_fixpoint().date_of(), t)),
                },
            ),
            None => None,
        }
    }
}

/// `found` unless it is before `start`.
pub open spec fn not_before(found: Option<DateTime>, start: DateTime) -> Option<DateTime> {
    match found {
        Some(d) => if d.rank() < start.rank() {
            None
        } else {
            Some(d)
        },
        None => None,
    }
}

impl Daily {
    /// The underlying interval is well formed, without offset, and the time of day, if any, is
    /// valid.
    pub open spec fn inv(&self) -> bool {
        &&& self@.interval.inv()
        &&& self@.interval@.offset is None
        &&& self@.at matches Some(t) ==> t.wf()
    }

    /// With time of day `t`, `search` within the adjusted range yields `found` and the pattern
    /// yields `r`; `first` is the interval's first event after the range start, looked up when
    /// `t` has passed on the day of the range start.
    pub open spec fn adjusted_step(
        &self,
        instant: DateTime,
        range: DateTimeRange,
        t: Time,
        first: Option<DateTime>,
        found: Option<DateTime>,
        r: Option<DateTime>,
        search: Search,
    ) -> bool {
        &&& t.rank() < range.start.time_of().rank() ==> self@.interval.next_after_spec(
            range.start,
            range,
            first,
        )
        &&& match adjusted_range(range, t, first) {
            None => r is None,
            Some(adjusted) => search(self@.interval, instant, adjusted, found) && r == not_before(
                found,
                range.start,
            ),
        }
    }

    /// `r` is what `search` yields for this pattern: the lookup of the interval itself without a
    /// time of day, the lookup within the adjusted range otherwise.
    pub open spec fn searched(
        &self,
        instant: DateTime,
        range: DateTimeRange,
        r: Option<DateTime>,
        search: Search,
    ) -> bool {
        match self@.at {
            None => search(self@.interval, instant, range, r),
            Some(t) => exists|first: Option<DateTime>, found: Option<DateTime>|
                #[trigger] self.adjusted_step(instant, range, t, first, found, r, search),
        }
    }

    /// Creates a new `Daily` from an interval of days, which must be positive.
    ///
    /// The fallible version of this method is [`Daily::try_new`].
    pub fn new(interval: i64) -> (r: Daily)
        requires
            0 < interval <= 7_304_484,
        ensures
            r.inv(),
            r@.interval@ == (IntervalView { span: days_span(interval as int), offset: None }),
            r@.at is None,
    {
        let span = Span::new().days(interval);
        Daily { interval: Interval::new(span), at: None }
    }

    /// Creates a new `Daily` from an interval of days.
    ///
    /// # Errors
    ///
    /// Returns an error if `interval` is negative or zero.
    pub fn try_new(interval: i64) -> (r: Result<Daily, Error>)
        requires
            -7_304_484 <= interval <= 7_304_484,
        ensures
            r is Ok <==> interval > 0,
            r matches Ok(d) ==> d.inv() && d@.interval@ == (IntervalView {
                span: days_span(interval as int),
                offset: None,
            }) && d@.at is None,
            r matches Err(e) ==> e.is_adhoc(interval_error_text(days_span(interval as int)))
                && e.wf(),
    {
        let span = Span::new().days(interval);
        match Interval::try_new(span) {
            Ok(i) => Ok(Daily { interval: i, at: None }),
            Err(e) => Err(e),
        }
    }

    /// Sets the exact time of day for the daily recurrence, replacing any time set before.
    pub fn at(self, time: Time) -> (r: Daily)
        requires
            self.inv(),
            time.wf(),
        ensures
            r.inv(),
            r@ == (DailyView { at: Some(time), ..self@ }),
    {
        Daily { interval: self.interval, at: Some(time) }
    }

    /// Runs `lookup` on the underlying interval within `range`, after moving the start of the
    /// range to the configured time of day (on the day of the range start, or on the day of the
    /// interval's first event when the time of day has already passed on that day).
    fn range_adjusted(&self, lookup: Lookup, instant: DateTime, range: DateTimeRange) -> (r:
        Option<DateTime>)
        requires
            self.inv(),
            instant.wf(),
            range.wf(),
        ensures
            r matches Some(d) ==> {
                &&& d.wf()
                &&& range.spec_contains(d)
                &&& lookup is Next ==> instant.rank() < d.rank()
                &&& lookup is Previous ==> d.rank() < instant.rank()
            },
            self.searched(instant, range, r, search_of(lookup)),
    {
        let time = match self.at {
            None => {
                return match lookup {
                    Lookup::Next => self.interval.next_after(instant, range),
                    Lookup::Previous => self.interval.previous_before(instant, range),
                    Lookup::Closest => self.interval.closest_to(instant, range),
                };
            },
            Some(t) => t,
        };
        let ghost mut first: Option<DateTime> = None;
        let day = if range.start.time().is_at_or_before(&time) {
            range.start
        } else {
            let next = self.interval.next_after(range.start, range);
            proof {
                first = next;
            }
            match next {
                Some(d) => d,
                None => {
                    assert(self.adjusted_step(
                        instant,
                        range,
                        time,
                        first,
                        None,
                        None,
                        search_of(lookup),
                    ));
                    return None;
                },
            }
        };
        let start = day.with_time(time);
        let fixpoint = range.fixpoint().with_time(time);
        proof {
            lemma_same_time_order(range.spec_fixpoint(), day, time);
        }
        let adjusted = DateTimeRange { start, end: range.end, fixpoint: Some(fixpoint) };
        let found = match lookup {
            Lookup::Next => self.interval.next_after(instant, adjusted),
            Lookup::Previous => self.interval.previous_before(instant, adjusted),
            Lookup::Closest => self.interval.closest_to(instant, adjusted),
        };
        let r = match found {
            Some(d) => if d.is_before(&range.start) {
                None
            } else {
                Some(d)
            },
            None => None,
        };
        assert(self.adjusted_step(instant, range, time, first, found, r, search_of(lookup)));
        r
    }
}

impl PartialEq for Daily {
    /// Two daily patterns are equal when their intervals and times of day are.
    fn eq(&self, other: &Self) -> (r: bool) {
        self.interval == other.interval && match (self.at, other.at) {
            (Some(a), Some(b)) => a == b,
            (None, None) => true,
            _ => false,
        }
    }
}

impl vstd::std_specs::cmp::PartialEqSpecImpl for Daily {
    open spec fn obeys_eq_spec() -> bool {
        true
    }

    open spec fn eq_spec(&self, other: &Self) -> bool {
        self@.interval@.span == other@.interval@.span && self@.at == other@.at
    }
}

impl Eq for Daily {

}

impl private::Sealed for Daily {

}

impl Pattern for Daily {
    open spec fn wf(&self) -> bool {
        self.inv()
    }

    open spec fn is_next_after(&self, instant: DateTime, range: DateTimeRange, r: Option<DateTime>) -> bool {
        self.searched(instant, range, r, next_search())
    }

    open spec fn is_previous_before(&self, instant: DateTime, range: DateTimeRange, r: Option<DateTime>) -> bool {
        self.searched(instant, range, r, previous_search())
    }

    open spec fn is_closest_to(&self, instant: DateTime, range: DateTimeRange, r: Option<DateTime>) -> bool {
        self.searched(instant, range, r, closest_search())
    }

    fn duplicate(&self) -> (r: Daily) {
        *self
    }

    /// The next event of the underlying interval, within the adjusted range with a time of day.
    fn next_after(&self, instant: DateTime, range: DateTimeRange) -> (r: Option<DateTime>) {
        self.range_adjusted(Lookup::Next, instant, range)
    }

    /// The previous event of the underlying interval, within the adjusted range with a time of
    /// day.
    fn previous_before(&self, instant: DateTime, range: DateTimeRange) -> (r: Option<DateTime>) {
        self.range_adjusted(Lookup::Previous, instant, range)
    }

    /// The event of the underlying interval closest to `instant`, within the adjusted range with a
    /// time of day.
    fn closest_to(&self, instant: DateTime, range: DateTimeRange) -> (r: Option<DateTime>) {
        self.range_adjusted(Lookup::Closest, instant, range)
    }
}

/// A daily pattern at a time of day counts its days from the series fixpoint: its next event is
/// reached from the day of the range's fixpoint, at that time, by whole multiples of its interval.
pub proof fn lemma_daily_at_on_grid(d: Daily, instant: DateTime, range: DateTimeRange, t: Time, x: DateTime)
    requires
        d.inv(),
        d@.at == Some(t),
        d@.interval@.offset is None,
        d.is_next_after(instant, range, Some(x)),
    ensures
        reached(DateTime::from_parts(range.spec_fixpoint().date_of(), t), d@.interval@.span, x),
{
    let (first, found) = choose|first: Option<DateTime>, found: Option<DateTime>|
        #[trigger] d.adjusted_step(instant, range, t, first, found, Some(x), next_search());
    let adjusted = adjusted_range(range, t, first)->0;
    assert(d@.interval.next_after_spec(instant, adjusted, found));
    assert(found == Some(x));
    lemma_next_after_on_grid(d@.interval, instant, adjusted, x);
}

/// A daily pattern at time of day `t` whose days are counted from the day of the range start
/// (no fixpoint, or one on that day) has its first event on that very day when `t` has not passed
/// there: the range start's date at `t`, if it lies within the range, is the next event after any
/// earlier instant.
pub proof fn lemma_daily_at_first_day(
    d: Daily,
    instant: DateTime,
    range: DateTimeRange,
    t: Time,
    r: Option<DateTime>,
)
    requires
        d.inv(),
        d@.at == Some(t),
        range.wf(),
        range.spec_fixpoint().date_of() == range.start.date_of(),
        range.start.rank() <= DateTime::from_parts(range.start.date_of(), t).rank(),
        DateTime::from_parts(range.start.date_of(), t).rank() < range.end.rank(),
        instant.rank() < DateTime::from_parts(range.start.date_of(), t).rank(),
        d.is_next_after(instant, range, r),
    ensures
        r == Some(DateTime::from_parts(range.start.date_of(), t)),
{
    let first_day = DateTime::from_parts(range.start.date_of(), t);
    lemma_same_time_order(range.start, range.start, t);
    lemma_rank_bounds(range.start);
    lemma_rank_bounds(first_day);
    assert(range.start.time_of().rank() <= t.rank());
    let (first, found) = choose|first: Option<DateTime>, found: Option<DateTime>|
        #[trigger] d.adjusted_step(instant, range, t, first, found, r, next_search());
    let adjusted = adjusted_range(range, t, first)->0;
    assert(adjusted.start == first_day);
    assert(adjusted.spec_fixpoint() == first_day);
    assert(d@.interval.next_after_spec(instant, adjusted, found));
    assert(found == Some(first_day));
}

} // verus!
