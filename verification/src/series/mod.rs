//! A series of recurring events.
mod find;
mod iter;
mod lookup;
mod range;
mod split;
mod with;

pub use self::lookup::{contained, event_at, event_from};
pub use find::{is_found, FindMode, SeriesFind, SeriesFindView};
pub use iter::Iter;
pub use range::{back_step, front_step, next_spec, Range, RangeView};
pub use split::{cutoff_error_text, is_cutoff, split_at, SeriesSplit, SeriesSplitView, SplitMode};
pub use with::{built, duration_error_text, shortened, SeriesWith, SeriesWithView};

use self::lookup::SeriesCore;
use crate::calendar::checked_add;
use crate::civil::DateTime;
use crate::error::Error;
use crate::event::Event;
use crate::range::{simplified, try_simplify_range, Bound, DateTimeRange, IntoBounds};
use crate::span::Span;
use crate::{equivalent, Pattern};
use vstd::prelude::*;

verus! {

/// A series of recurring events: the events that a recurrence [`Pattern`] yields within a range.
#[derive(Debug, Clone)]
pub struct Series<P> {
    core: SeriesCore<P>,
    range: DateTimeRange,
    bound: DateTime,
}

/// The mathematical model of a [`Series`].
pub struct SeriesView<P> {
    /// The recurrence pattern.
    pub pattern: P,
    /// The duration of each event; zero for events without an end.
    pub event_duration: Span,
    /// The range within which events start (its end already less the event duration).
    pub range: DateTimeRange,
    /// The end the series was given, before the event duration was taken off.
    pub bound: DateTime,
}

impl<P> View for Series<P> {
    type V = SeriesView<P>;

    closed spec fn view(&self) -> SeriesView<P> {
        SeriesView {
            pattern: self.core.pattern,
            event_duration: self.core.event_duration,
            range: self.range,
            bound: self.bound,
        }
    }
}

/// `r` is what creating a series over `bounds` with `pattern` gives: a series over the range of
/// the bounds with events without end, or the error for the first check that fails.
pub open spec fn created<P: Pattern>(bounds: (Bound, Bound), pattern: P, r: Result<Series<P>, Error>) -> bool {
    match simplified(bounds) {
        None => r matches Err(e) && e.kind is Jiff && e.wf(),
        Some(rng) => if rng.end.rank() <= rng.start.rank() {
            r matches Err(e) && e.is_datetime_range("series"@, rng.start, rng.end) && e.wf()
        } else {
            r matches Ok(s) && s.inv() && s@ == (SeriesView {
                pattern,
                event_duration: Span::zero(),
                range: rng,
                bound: rng.end,
            })
        },
    }
}

impl<P: Pattern> Series<P> {
    /// The pattern is well formed, the event duration zero or positive, the range non-empty, and
    /// its end the given end less the event duration.
    pub open spec fn inv(&self) -> bool {
        &&& self@.pattern.wf()
        &&& self@.event_duration.wf()
        &&& self@.event_duration.sign() >= 0
        &&& self@.range.wf()
        &&& self@.range.start.rank() < self@.range.end.rank()
        &&& self@.bound.wf()
        &&& shortened(self@.bound, self@.event_duration) == Some(self@.range.end)
    }

    /// Assembles a series from its parts.
    pub(crate) fn from_parts(core: SeriesCore<P>, range: DateTimeRange, bound: DateTime) -> (r:
        Series<P>)
        ensures
            r@ == (SeriesView {
                pattern: core.pattern,
                event_duration: core.event_duration,
                range,
                bound,
            }),
    {
        Series { core, range, bound }
    }

    /// Creates a new `Series` that produces events within `range` according to `pattern`.
    ///
    /// The fallible version of this method is [`Series::try_new`]; here the bounds must stand for
    /// a non-empty range.
    pub fn new<B: IntoBounds>(range: B, pattern: P) -> (r: Series<P>)
        requires
            range.spec_bounds().0.wf(),
            range.spec_bounds().1.wf(),
            pattern.wf(),
            simplified(range.spec_bounds()) matches Some(rng) && rng.start.rank() < rng.end.rank(),
        ensures
            created(range.spec_bounds(), pattern, Ok(r)),
    {
        Series::try_new(range, pattern).unwrap()
    }

    /// Creates a new `Series` that produces events within `range` according to `pattern`.
    ///
    /// # Errors
    ///
    /// Returns an error if a bound cannot be represented or if the range is empty.
    pub fn try_new<B: IntoBounds>(range: B, pattern: P) -> (r: Result<Series<P>, Error>)
        requires
            range.spec_bounds().0.wf(),
            range.spec_bounds().1.wf(),
            pattern.wf(),
        ensures
            created(range.spec_bounds(), pattern, r),
    {
        let range = match try_simplify_range(range.into_bounds()) {
            Ok(r) => r,
            Err(e) => return Err(e),
        };
        if !range.start.is_before(&range.end) {
            return Err(Error::datetime_range("series", range.start, range.end));
        }
        Ok(Series { core: SeriesCore::new(pattern, Span::new()), range, bound: range.end })
    }

    /// Creates a builder for a new `Series` from the parts of this series: its start, the end it
    /// was given (before the event duration was taken off), its fixpoint, event duration and an
    /// equivalent pattern. Building it unchanged gives this series back.
    pub fn with(&self) -> (r: SeriesWith<P>)
        requires
            self.inv(),
        ensures
            r.inv(),
            equivalent(self@.pattern, r@.pattern),
            r@.bounds == (Bound::Included(self@.range.start), Bound::Excluded(self@.bound)),
            r@.fixpoint == self@.range.fixpoint,
            r@.event_duration == self@.event_duration,
    {
        let pattern = self.core.pattern.duplicate();
        SeriesWith::from_parts(
            pattern,
            (Bound::Included(self.range.start), Bound::Excluded(self.bound)),
            self.range.fixpoint,
            self.core.event_duration,
        )
    }

    /// The range of the series.
    pub(crate) fn range_value(&self) -> (r: DateTimeRange)
        ensures
            r == self@.range,
    {
        self.range
    }

    /// Returns the datetime at which the series starts (inclusive).
    pub fn start(&self) -> (r: DateTime)
        ensures
            r == self@.range.start,
    {
        self.range.start
    }

    /// Returns the datetime at which the series ends (exclusive), less the event duration.
    pub fn end(&self) -> (r: DateTime)
        ensures
            r == self@.range.end,
    {
        self.range.end
    }

    /// Returns the fixpoint for relative recurrence patterns: the start unless one was set.
    pub fn fixpoint(&self) -> (r: DateTime)
        ensures
            r == self@.range.spec_fixpoint(),
    {
        self.range.fixpoint()
    }

    /// Returns the duration of individual events; zero for events without an end.
    pub fn event_duration(&self) -> (r: Span)
        ensures
            r == self@.event_duration,
    {
        self.core.event_duration
    }

    /// Returns the recurrence pattern.
    pub fn pattern(&self) -> (r: &P)
        ensures
            *r == self@.pattern,
    {
        &self.core.pattern
    }

    /// The state of a fresh iterator over the series.
    pub open spec fn iter_view(&self) -> RangeView<P> {
        RangeView {
            pattern: self@.pattern,
            event_duration: self@.event_duration,
            range: self@.range,
            first: true,
            front: Some(self@.range.start),
            back: Some(self@.range.end),
        }
    }

    /// Creates an iterator over the events of the series.
    pub fn iter(&self) -> (r: Iter<'_, P>)
        requires
            self.inv(),
        ensures
            r.inv(),
            r@ == self.iter_view(),
    {
        Iter::new(Range::new(&self.core, self.range))
    }

    /// The range that iterating over `bounds` covers: the series range intersected with the
    /// bounds, whose end loses the event duration.
    pub open spec fn sub_range(&self, bounds: (Bound, Bound)) -> Option<DateTimeRange> {
        match simplified(bounds) {
            Some(rng) => match shortened(rng.end, self@.event_duration) {
                Some(end) => {
                    let start = if self@.range.start.rank() < rng.start.rank() {
                        rng.start
                    } else {
                        self@.range.start
                    };
                    let stop = if end.rank() < self@.range.end.rank() {
                        end
                    } else {
                        self@.range.end
                    };
                    if start.rank() < stop.rank() {
                        Some(
                            DateTimeRange {
                                start,
                                end: stop,
                                fixpoint: Some(self@.range.spec_fixpoint()),
                            },
                        )
                    } else {
                        None
                    }
                },
                None => None,
            },
            None => None,
        }
    }

    /// Creates an iterator over the events of the series within `range`.
    ///
    /// The fallible version of this method is [`Series::try_range`]; here the range must overlap
    /// the series.
    pub fn range<B: IntoBounds>(&self, range: B) -> (r: Range<'_, P>)
        requires
            self.inv(),
            range.spec_bounds().0.wf(),
            range.spec_bounds().1.wf(),
            self.sub_range(range.spec_bounds()) is Some,
        ensures
            r.inv(),
            r@ == (RangeView {
                pattern: self@.pattern,
                event_duration: self@.event_duration,
                range: self.sub_range(range.spec_bounds())->0,
                first: true,
                front: Some(self.sub_range(range.spec_bounds())->0.start),
                back: Some(self.sub_range(range.spec_bounds())->0.end),
            }),
    {
        self.try_range(range).unwrap()
    }

    /// Creates an iterator over the events of the series within `range`.
    ///
    /// # Errors
    ///
    /// Returns an error if a bound cannot be represented, if the end of the range less the event
    /// duration cannot be computed, or if the range does not overlap the series.
    pub fn try_range<B: IntoBounds>(&self, range: B) -> (r: Result<Range<'_, P>, Error>)
        requires
            self.inv(),
            range.spec_bounds().0.wf(),
            range.spec_bounds().1.wf(),
        ensures
            r is Ok <==> self.sub_range(range.spec_bounds()) is Some,
            r matches Ok(it) ==> it.inv() && it@ == (RangeView {
                pattern: self@.pattern,
                event_duration: self@.event_duration,
                range: self.sub_range(range.spec_bounds())->0,
                first: true,
                front: Some(self.sub_range(range.spec_bounds())->0.start),
                back: Some(self.sub_range(range.spec_bounds())->0.end),
            }),
            r matches Err(e) ==> e.wf() && match simplified(range.spec_bounds()) {
                None => e.kind is Jiff,
                Some(rng) => match shortened(rng.end, self@.event_duration) {
                    None => e.kind is Jiff,
                    Some(end) => e.is_datetime_range(
                        "series intersection"@,
                        if self@.range.start.rank() < rng.start.rank() {
                            rng.start
                        } else {
                            self@.range.start
                        },
                        if end.rank() < self@.range.end.rank() {
                            end
                        } else {
                            self@.range.end
                        },
                    ),
                },
            },
    {
        let mut range = match try_simplify_range(range.into_bounds()) {
            Ok(r) => r,
            Err(e) => return Err(e),
        };
        if self.core.event_duration.is_positive() {
            let back = self.core.event_duration.negate();
            match checked_add(&range.end, &back) {
                Ok(end) => {
                    range = DateTimeRange::new(range.start, end);
                },
                Err(e) => return Err(Error::jiff(e)),
            }
        }
        match self.range.intersect(range) {
            Ok(r) => Ok(Range::new(&self.core, r)),
            Err(e) => Err(e),
        }
    }

    /// Gets the first event of the series: the event closest to its start.
    pub fn first(&self) -> (r: Option<Event>)
        requires
            self.inv(),
        ensures
            self.is_closest_event(self@.range.start, r),
            r matches Some(e) ==> e.wf() && self@.range.spec_contains(e.start),
    {
        self.get_closest_to(self.range.start)
    }

    /// Gets the last event of the series: the event before its end.
    pub fn last(&self) -> (r: Option<Event>)
        requires
            self.inv(),
        ensures
            self.is_previous_event(self@.range.end, r),
            r matches Some(e) ==> e.wf() && self@.range.spec_contains(e.start),
    {
        self.get_previous_before(self.range.end)
    }

    /// `r` is the event starting at `instant`, as [`Series::get`] finds it.
    pub open spec fn is_event_at(&self, instant: DateTime, r: Option<Event>) -> bool {
        exists|d: Option<DateTime>|
            {
                &&& #[trigger] self@.pattern.is_closest_to(instant, self@.range, d)
                &&& r == if d == Some(instant) {
                    event_at(self@.event_duration, instant)
                } else {
                    None
                }
            }
    }

    /// `r` is the event containing `instant`, as [`Series::get_containing`] finds it.
    pub open spec fn is_containing_event(&self, instant: DateTime, r: Option<Event>) -> bool {
        exists|c: Option<DateTime>, p: Option<DateTime>|
            {
                &&& #[trigger] self@.pattern.is_closest_to(instant, self@.range, c)
                &&& #[trigger] self@.pattern.is_previous_before(instant, self@.range, p)
                &&& r == contained(
                    event_from(
                        self@.event_duration,
                        match c {
                            Some(x) => if x.rank() <= instant.rank() {
                                c
                            } else {
                                p
                            },
                            None => p,
                        },
                    ),
                    instant,
                )
            }
    }

    /// `r` is the event after `instant`, as [`Series::get_next_after`] finds it.
    pub open spec fn is_next_event(&self, instant: DateTime, r: Option<Event>) -> bool {
        exists|d: Option<DateTime>|
            #[trigger] self@.pattern.is_next_after(instant, self@.range, d) && r == event_from(
                self@.event_duration,
                d,
            )
    }

    /// `r` is the event before `instant`, as [`Series::get_previous_before`] finds it.
    pub open spec fn is_previous_event(&self, instant: DateTime, r: Option<Event>) -> bool {
        exists|d: Option<DateTime>|
            #[trigger] self@.pattern.is_previous_before(instant, self@.range, d) && r == event_from(
                self@.event_duration,
                d,
            )
    }

    /// `r` is the event closest to `instant`, as [`Series::get_closest_to`] finds it.
    pub open spec fn is_closest_event(&self, instant: DateTime, r: Option<Event>) -> bool {
        exists|d: Option<DateTime>|
            #[trigger] self@.pattern.is_closest_to(instant, self@.range, d) && r == event_from(
                self@.event_duration,
                d,
            )
    }

    /// Returns `true` when the series has an event starting at `instant`.
    pub fn contains(&self, instant: DateTime) -> (r: bool)
        requires
            self.inv(),
            instant.wf(),
        ensures
            exists|e: Option<Event>| #[trigger] self.is_event_at(instant, e) && r == e is Some,
            r ==> self@.range.spec_contains(instant),
    {
        let e = self.get(instant);
        assert(self.is_event_at(instant, e));
        e.is_some()
    }

    /// Gets the event starting at `instant`, if any.
    pub fn get(&self, instant: DateTime) -> (r: Option<Event>)
        requires
            self.inv(),
            instant.wf(),
        ensures
            self.is_event_at(instant, r),
            r matches Some(e) ==> e.wf() && e.start == instant && self@.range.spec_contains(
                instant,
            ),
    {
        self.core.get(instant, self.range)
    }

    /// Gets the event containing `instant`, if any.
    pub fn get_containing(&self, instant: DateTime) -> (r: Option<Event>)
        requires
            self.inv(),
            instant.wf(),
        ensures
            self.is_containing_event(instant, r),
            r matches Some(e) ==> e.wf() && e.spec_contains(instant) && self@.range.spec_contains(
                e.start,
            ),
    {
        self.core.get_containing(instant, self.range)
    }

    /// Gets the next event after `instant`.
    pub fn get_next_after(&self, instant: DateTime) -> (r: Option<Event>)
        requires
            self.inv(),
            instant.wf(),
        ensures
            self.is_next_event(instant, r),
            r matches Some(e) ==> e.wf() && instant.rank() < e.start.rank()
                && self@.range.spec_contains(e.start),
    {
        self.core.get_next_after(instant, self.range)
    }

    /// Gets the previous event before `instant`.
    pub fn get_previous_before(&self, instant: DateTime) -> (r: Option<Event>)
        requires
            self.inv(),
            instant.wf(),
        ensures
            self.is_previous_event(instant, r),
            r matches Some(e) ==> e.wf() && e.start.rank() < instant.rank()
                && self@.range.spec_contains(e.start),
    {
        self.core.get_previous_before(instant, self.range)
    }

    /// Gets the event whose start is closest to `instant`.
    pub fn get_closest_to(&self, instant: DateTime) -> (r: Option<Event>)
        requires
            self.inv(),
            instant.wf(),
        ensures
            self.is_closest_event(instant, r),
            r matches Some(e) ==> e.wf() && self@.range.spec_contains(e.start),
    {
        self.core.get_closest_to(instant, self.range)
    }

    /// Finds an event of the series as `options` ask: at, after, before, closest to or
    /// containing an instant.
    pub fn find(&self, options: SeriesFind) -> (r: Option<Event>)
        requires
            self.inv(),
            options@.instant.wf(),
        ensures
            is_found(*self, options@, r),
    {
        options.find(self)
    }

    /// Splits off the part of the series after a cutoff point, which is returned; this series
    /// keeps the part before it. On error, this series is unchanged.
    ///
    /// # Errors
    ///
    /// Returns an error if no cutoff point is found or if either part would be empty.
    pub fn split_off(&mut self, options: SeriesSplit) -> (r: Result<Series<P>, Error>)
        requires
            old(self).inv(),
            options@.instant.wf(),
        ensures
            final(self).inv(),
            exists|d: Option<DateTime>|
                {
                    &&& #[trigger] is_cutoff(old(self)@, options@, d)
                    &&& match d {
                        Some(c) => split_at(old(self)@, c, *old(self), *final(self), r),
                        None => *final(self) == *old(self) && (r matches Err(e) && e.is_adhoc(
                            cutoff_error_text(options@),
                        )),
                    }
                },
    {
        options.split_off(self)
    }
}

/// The first event an iterator over a series yields from the front is the first event of the
/// series.
pub proof fn lemma_iter_front_starts_at_first<P: Pattern>(
    s: Series<P>,
    after: RangeView<P>,
    r: Option<Event>,
)
    requires
        s.inv(),
        front_step(s.iter_view(), after, r),
    ensures
        s.is_closest_event(s@.range.start, r),
{
    let d = choose|d: Option<DateTime>|
        #[trigger] next_spec(s.iter_view(), s@.range.start, d) && r == event_from(
            s@.event_duration,
            d,
        );
    assert(s@.pattern.is_closest_to(s@.range.start, s@.range, d));
}

/// The first event an iterator over a series yields from the back is the last event of the
/// series.
pub proof fn lemma_iter_back_starts_at_last<P: Pattern>(
    s: Series<P>,
    after: RangeView<P>,
    r: Option<Event>,
)
    requires
        s.inv(),
        back_step(s.iter_view(), after, r),
    ensures
        s.is_previous_event(s@.range.end, r),
{
    let d = choose|d: Option<DateTime>|
        #[trigger] s@.pattern.is_previous_before(s@.range.end, s@.range, d) && r == event_from(
            s@.event_duration,
            d,
        );
    assert(s@.pattern.is_previous_before(s@.range.end, s@.range, d));
}

/// Events taken one after the other from the front of an iterator start strictly later each
/// time, and those taken from the back strictly earlier each time.
pub proof fn lemma_iter_ordered<P: Pattern>(
    first: RangeView<P>,
    second: RangeView<P>,
    third: RangeView<P>,
    a: Event,
    b: Event,
)
    requires
        front_step(first, second, Some(a)),
        front_step(second, third, Some(b)),
    ensures
        a.start.rank() < b.start.rank(),
{
}

/// Events taken one after the other from the back of an iterator start strictly earlier each
/// time.
pub proof fn lemma_iter_back_ordered<P: Pattern>(
    first: RangeView<P>,
    second: RangeView<P>,
    third: RangeView<P>,
    a: Event,
    b: Event,
)
    requires
        back_step(first, second, Some(a)),
        back_step(second, third, Some(b)),
    ensures
        b.start.rank() < a.start.rank(),
{
}

/// Building a series from its own builder, unchanged, gives the series back (with an equivalent
/// pattern): the same range, end, fixpoint and event duration.
pub proof fn lemma_rebuild<P: Pattern>(s: Series<P>, w: SeriesWithView<P>, r: Result<Series<P>, Error>)
    requires
        s.inv(),
        w.bounds == (Bound::Included(s@.range.start), Bound::Excluded(s@.bound)),
        w.fixpoint == s@.range.fixpoint,
        w.event_duration == s@.event_duration,
        built(w, r),
    ensures
        r matches Ok(x) && x@.range == s@.range && x@.bound == s@.bound && x@.event_duration
            == s@.event_duration && x@.pattern == w.pattern,
{
}

/// Splitting a series at a cutoff point leaves the part before the cutoff and returns the part
/// after it: the first keeps the start, the fixpoint, the pattern and the event duration and ends
/// at the cutoff (less the event duration), so its events stay those of the split series; the
/// second starts at the cutoff and keeps the end and the fixpoint of the split series. Without
/// event duration the two parts cover the range of the split series.
pub proof fn lemma_split_partitions<P: Pattern>(
    s: SeriesView<P>,
    cutoff: DateTime,
    before: Series<P>,
    after: Series<P>,
    right: Series<P>,
)
    requires
        split_at(s, cutoff, before, after, Ok(right)),
    ensures
        after@.range.start == s.range.start,
        after@.range.spec_fixpoint() == s.range.spec_fixpoint(),
        equivalent(s.pattern, after@.pattern),
        after@.event_duration == s.event_duration,
        after@.bound == cutoff,
        s.event_duration.sign() == 0 ==> after@.range.end == cutoff,
        right@.range.start == cutoff,
        right@.range.end == s.range.end,
        right@.bound == s.bound,
        right@.range.spec_fixpoint() == s.range.spec_fixpoint(),
{
}

/// A failed split leaves the series as it was.
pub proof fn lemma_failed_split_unchanged<P: Pattern>(
    s: SeriesView<P>,
    cutoff: DateTime,
    before: Series<P>,
    after: Series<P>,
    e: Error,
)
    requires
        split_at(s, cutoff, before, after, Err(e)),
    ensures
        after == before,
{
}

/// Where the pattern's lookups around `instant` are determined, the event containing `instant`
/// is found whether it starts at or before `instant` or earlier still: when the closest event
/// starts after `instant` (or there is none), the event starting at the previous event before
/// `instant` is returned if it still runs at `instant`; when the closest event starts at or before
/// `instant`, that event is returned if it contains `instant`.
pub proof fn lemma_containing_finds_running_event<P: Pattern>(
    s: Series<P>,
    instant: DateTime,
    closest: Option<DateTime>,
    previous: Option<DateTime>,
    e: Event,
    r: Option<Event>,
)
    requires
        s.inv(),
        forall|x: Option<DateTime>| #[trigger]
            s@.pattern.is_closest_to(instant, s@.range, x) ==> x == closest,
        forall|x: Option<DateTime>| #[trigger]
            s@.pattern.is_previous_before(instant, s@.range, x) ==> x == previous,
        s.is_containing_event(instant, r),
        e.spec_contains(instant),
    ensures
        (closest matches Some(c) && instant.rank() < c.rank()) || closest is None ==> (
        previous matches Some(p) && event_at(s@.event_duration, p) == Some(e) ==> r == Some(e)),
        closest matches Some(c) && c.rank() <= instant.rank() && event_at(s@.event_duration, c)
            == Some(e) ==> r == Some(e),
{
    let (c, p) = choose|c: Option<DateTime>, p: Option<DateTime>|
        {
            &&& #[trigger] s@.pattern.is_closest_to(instant, s@.range, c)
            &&& #[trigger] s@.pattern.is_previous_before(instant, s@.range, p)
            &&& r == contained(
                event_from(
                    s@.event_duration,
                    match c {
                        Some(x) => if x.rank() <= instant.rank() {
                            c
                        } else {
                            p
                        },
                        None => p,
                    },
                ),
                instant,
            )
        };
    assert(c == closest);
    assert(p == previous);
}

} // verus!
