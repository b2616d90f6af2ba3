//! Recurring events: series of events following recurrence patterns.
use vstd::prelude::*;

pub mod calendar;
pub mod civil;
pub mod error;
pub mod event;
pub mod pattern;
mod outside;
mod private;
pub mod range;
pub mod series;
pub mod span;

pub use civil::{date, datetime, time, Date, DateTime, Time, Weekday};
pub use error::Error;
pub use event::Event;
pub use range::{Bound, DateTimeRange, IntoBounds};
pub use series::Series;
pub use span::Span;

verus! {

/// `b` behaves as `a` does: both are well formed alike and yield the same results.
pub open spec fn equivalent<P: Pattern>(a: P, b: P) -> bool {
    &&& a.wf() == b.wf()
    &&& forall|i: DateTime, rg: DateTimeRange, x: Option<DateTime>|
        #![trigger a.is_next_after(i, rg, x)]
        #![trigger b.is_next_after(i, rg, x)]
        a.is_next_after(i, rg, x) == b.is_next_after(i, rg, x)
    &&& forall|i: DateTime, rg: DateTimeRange, x: Option<DateTime>|
        #![trigger a.is_previous_before(i, rg, x)]
        #![trigger b.is_previous_before(i, rg, x)]
        a.is_previous_before(i, rg, x) == b.is_previous_before(i, rg, x)
    &&& forall|i: DateTime, rg: DateTimeRange, x: Option<DateTime>|
        #![trigger a.is_closest_to(i, rg, x)]
        #![trigger b.is_closest_to(i, rg, x)]
        a.is_closest_to(i, rg, x) == b.is_closest_to(i, rg, x)
}

/// A trait for recurrence patterns.
///
/// Values implementing `Pattern` yield the events of a series: the datetime before, after or close
/// to a given instant within a range. The trait is sealed; the [`pattern`] module holds its
/// implementations.
pub trait Pattern: private::Sealed + Clone {
    /// The pattern is well formed.
    spec fn wf(&self) -> bool;

    /// `r` is what `next_after(instant, range)` of this pattern may return.
    spec fn is_next_after(&self, instant: DateTime, range: DateTimeRange, r: Option<DateTime>) -> bool;

    /// `r` is what `previous_before(instant, range)` of this pattern may return.
    spec fn is_previous_before(&self, instant: DateTime, range: DateTimeRange, r: Option<DateTime>) -> bool;

    /// `r` is what `closest_to(instant, range)` of this pattern may return.
    spec fn is_closest_to(&self, instant: DateTime, range: DateTimeRange, r: Option<DateTime>) -> bool;

    /// Returns a pattern that behaves as this one does.
    fn duplicate(&self) -> (r: Self)
        requires
            self.wf(),
        ensures
            r.wf(),
            forall|i: DateTime, rg: DateTimeRange, x: Option<DateTime>|
                #![trigger self.is_next_after(i, rg, x)]
                #![trigger r.is_next_after(i, rg, x)]
                self.is_next_after(i, rg, x) == r.is_next_after(i, rg, x),
            forall|i: DateTime, rg: DateTimeRange, x: Option<DateTime>|
                #![trigger self.is_previous_before(i, rg, x)]
                #![trigger r.is_previous_before(i, rg, x)]
                self.is_previous_before(i, rg, x) == r.is_previous_before(i, rg, x),
            forall|i: DateTime, rg: DateTimeRange, x: Option<DateTime>|
                #![trigger self.is_closest_to(i, rg, x)]
                #![trigger r.is_closest_to(i, rg, x)]
                self.is_closest_to(i, rg, x) == r.is_closest_to(i, rg, x),
    ;

    /// Finds the next event after `instant` within `range`.
    ///
    /// The result is strictly later than `instant` and lies within the range; it is `None` when
    /// the next event would not be before the range's end.
    fn next_after(&self, instant: DateTime, range: DateTimeRange) -> (r: Option<DateTime>)
        requires
            self.wf(),
            instant.wf(),
            range.wf(),
        ensures
            self.is_next_after(instant, range, r),
            r matches Some(d) ==> {
                &&& d.wf()
                &&& instant.rank() < d.rank()
                &&& range.spec_contains(d)
            },
    ;

    /// Finds the previous event before `instant` within `range`.
    ///
    /// The result is strictly earlier than `instant` and lies within the range; it is `None`
    /// when the previous event would be before the range's start.
    fn previous_before(&self, instant: DateTime, range: DateTimeRange) -> (r: Option<DateTime>)
        requires
            self.wf(),
            instant.wf(),
            range.wf(),
        ensures
            self.is_previous_before(instant, range, r),
            r matches Some(d) ==> {
                &&& d.wf()
                &&& d.rank() < instant.rank()
                &&& range.spec_contains(d)
            },
    ;

    /// Finds an event closest to `instant` within `range`.
    ///
    /// The result may be before, after or at `instant` and lies within the range.
    fn closest_to(&self, instant: DateTime, range: DateTimeRange) -> (r: Option<DateTime>)
        requires
            self.wf(),
            instant.wf(),
            range.wf(),
        ensures
            self.is_closest_to(instant, range, r),
            r matches Some(d) ==> d.wf() && range.spec_contains(d),
    ;
}

/// Combines values implementing [`Pattern`] into more complex recurrence patterns.
///
/// Every pattern can be combined.
pub trait Combine: Pattern + Sized {
    /// Combines `self` with another pattern: the events of the result are those of both.
    fn and<P: Pattern>(self, other: P) -> (r: pattern::Combined<Self, P>)
        ensures
            r@ == (self, other),
    {
        pattern::Combined::new(self, other)
    }
}

impl<T: Pattern> Combine for T {

}

/// Values standing for points in time that convert into a [`Series`].
pub trait ToSeries {
    /// The value can be converted.
    spec fn convertible(&self) -> bool;

    /// Converts the value to a [`Series`] with the given recurrence pattern.
    ///
    /// # Errors
    ///
    /// Returns an error if the value cannot be converted into a valid `Series`.
    fn to_series<P: Pattern>(&self, pattern: P) -> (r: Result<Series<P>, Error>)
        requires
            self.convertible(),
            pattern.wf(),
    ;
}

impl ToSeries for Event {
    open spec fn convertible(&self) -> bool {
        self.wf()
    }

    /// A series starting at the event's start whose events last as long as this event.
    fn to_series<P: Pattern>(&self, pattern: P) -> (r: Result<Series<P>, Error>)
        ensures
            series::built(
                series::SeriesWithView {
                    pattern,
                    bounds: (Bound::Included(self.start), Bound::Unbounded),
                    fixpoint: None,
                    event_duration: self.spec_duration(),
                },
                r,
            ),
    {
        series::SeriesWith::from_parts(
            pattern,
            (Bound::Included(self.start), Bound::Unbounded),
            None,
            self.duration(),
        ).build()
    }
}

impl ToSeries for DateTime {
    open spec fn convertible(&self) -> bool {
        self.wf()
    }

    /// A series starting at this datetime.
    fn to_series<P: Pattern>(&self, pattern: P) -> (r: Result<Series<P>, Error>)
        ensures
            series::created((Bound::Included(*self), Bound::Unbounded), pattern, r),
    {
        Series::try_new((Bound::Included(*self), Bound::Unbounded), pattern)
    }
}

impl ToSeries for Date {
    open spec fn convertible(&self) -> bool {
        self.wf()
    }

    /// A series starting at midnight on this date.
    fn to_series<P: Pattern>(&self, pattern: P) -> (r: Result<Series<P>, Error>)
        ensures
            series::created(
                (Bound::Included(DateTime::from_parts(*self, Time::spec_midnight())), Bound::Unbounded),
                pattern,
                r,
            ),
    {
        self.to_datetime(Time::midnight()).to_series(pattern)
    }
}

impl ToSeries for (Bound, Bound) {
    open spec fn convertible(&self) -> bool {
        self.0.wf() && self.1.wf()
    }

    /// A series over the range these bounds stand for.
    fn to_series<P: Pattern>(&self, pattern: P) -> (r: Result<Series<P>, Error>)
        ensures
            series::created(*self, pattern, r),
    {
        Series::try_new(*self, pattern)
    }
}

impl ToSeries for core::ops::Range<DateTime> {
    open spec fn convertible(&self) -> bool {
        self.start.wf() && self.end.wf()
    }

    /// A series over this range.
    fn to_series<P: Pattern>(&self, pattern: P) -> (r: Result<Series<P>, Error>)
        ensures
            series::created(
                (Bound::Included(self.start), Bound::Excluded(self.end)),
                pattern,
                r,
            ),
    {
        Series::try_new((Bound::Included(self.start), Bound::Excluded(self.end)), pattern)
    }
}

impl ToSeries for core::ops::RangeFull {
    open spec fn convertible(&self) -> bool {
        true
    }

    /// A series over all supported datetimes.
    fn to_series<P: Pattern>(&self, pattern: P) -> (r: Result<Series<P>, Error>)
        ensures
            series::created((Bound::Unbounded, Bound::Unbounded), pattern, r),
    {
        Series::try_new((Bound::Unbounded, Bound::Unbounded), pattern)
    }
}

} // verus!
