//! The lookups of a series, independent of its range.
use crate::calendar::{checked_add, civil_add};
use crate::civil::DateTime;
use crate::event::Event;
use crate::range::DateTimeRange;
use crate::span::Span;
use crate::Pattern;
use vstd::prelude::*;

verus! {

/// The event starting at `start` in a series whose events last `duration`: without an end for a
/// zero duration, `None` when its end cannot be represented.
pub open spec fn event_at(duration: Span, start: DateTime) -> Option<Event> {
    if duration.sign() > 0 {
        match civil_add(start, duration) {
            Some(end) => Some(Event { start, end: Some(end) }),
            None => None,
        }
    } else {
        Some(Event { start, end: None })
    }
}

/// The event starting at `start`, if there is a start.
pub open spec fn event_from(duration: Span, start: Option<DateTime>) -> Option<Event> {
    match start {
        Some(s) => event_at(duration, s),
        None => None,
    }
}

/// The pattern and event duration of a series.
#[derive(Debug, Clone)]
pub(crate) struct SeriesCore<P> {
    pub(crate) pattern: P,
    pub(crate) event_duration: Span,
}

impl<P: Pattern> SeriesCore<P> {
    /// The pattern is well formed and the event duration is zero or positive.
    pub(crate) open spec fn inv(&self) -> bool {
        &&& self.pattern.wf()
        &&& self.event_duration.wf()
        &&& self.event_duration.sign() >= 0
    }

    /// Creates the core of a series.
    pub(crate) fn new(pattern: P, event_duration: Span) -> (r: SeriesCore<P>)
        ensures
            r.pattern == pattern,
            r.event_duration == event_duration,
    {
        SeriesCore { pattern, event_duration }
    }

    /// The event starting at `start`.
    pub(crate) fn get_event_unchecked(&self, start: DateTime) -> (r: Option<Event>)
        requires
            self.inv(),
            start.wf(),
        ensures
            r == event_at(self.event_duration, start),
            r matches Some(e) ==> e.wf(),
    {
        if self.event_duration.is_positive() {
            match checked_add(&start, &self.event_duration) {
                Ok(end) => Some(Event::new_unchecked(start, end)),
                Err(_) => None,
            }
        } else {
            Some(Event::at(start))
        }
    }

    /// The event starting at `start`, if there is a start.
    fn event_for(&self, start: Option<DateTime>) -> (r: Option<Event>)
        requires
            self.inv(),
            start matches Some(s) ==> s.wf(),
        ensures
            r == event_from(self.event_duration, start),
            r matches Some(e) ==> e.wf() && start == Some(e.start),
    {
        match start {
            Some(s) => self.get_event_unchecked(s),
            None => None,
        }
    }

    /// The event starting exactly at `instant`.
    pub(crate) fn get(&self, instant: DateTime, range: DateTimeRange) -> (r: Option<Event>)
        requires
            self.inv(),
            instant.wf(),
            range.wf(),
        ensures
            exists|d: Option<DateTime>|
                {
                    &&& #[trigger] self.pattern.is_closest_to(instant, range, d)
                    &&& r == if d == Some(instant) {
                        event_at(self.event_duration, instant)
                    } else {
                        None
                    }
                },
            r matches Some(e) ==> e.wf() && e.start == instant && range.spec_contains(instant),
    {
        let d = self.pattern.closest_to(instant, range);
        let r = match d {
            Some(s) => if s.is_same(&instant) {
                self.get_event_unchecked(s)
            } else {
                None
            },
            None => None,
        };
        assert(self.pattern.is_closest_to(instant, range, d));
        r
    }

    /// The event containing `instant`: the closest event if it starts at or before `instant`,
    /// otherwise the previous one, provided that it contains `instant`.
    pub(crate) fn get_containing(&self, instant: DateTime, range: DateTimeRange) -> (r: Option<
        Event,
    >)
        requires
            self.inv(),
            instant.wf(),
            range.wf(),
        ensures
            exists|c: Option<DateTime>, p: Option<DateTime>|
                {
                    &&& #[trigger] self.pattern.is_closest_to(instant, range, c)
                    &&& #[trigger] self.pattern.is_previous_before(instant, range, p)
                    &&& r == contained(
                        event_from(
                            self.event_duration,
                            match c {
                                Some(x) => if x.rank() <= instant.rank() {
                                    c
                                } else {
                                    p
                                },
                                None => p,
                            },
                        ),
                        instant,
                    )
                },
            r matches Some(e) ==> e.wf() && e.spec_contains(instant) && range.spec_contains(
                e.start,
            ),
    {
        let c = self.pattern.closest_to(instant, range);
        let p = self.pattern.previous_before(instant, range);
        let start = match c {
            Some(x) => if !instant.is_before(&x) {
                c
            } else {
                p
            },
            None => p,
        };
        let r = match self.event_for(start) {
            Some(e) => if e.contains(instant) {
                Some(e)
            } else {
                None
            },
            None => None,
        };
        assert(self.pattern.is_closest_to(instant, range, c));
        assert(self.pattern.is_previous_before(instant, range, p));
        r
    }

    /// The event after `instant`.
    pub(crate) fn get_next_after(&self, instant: DateTime, range: DateTimeRange) -> (r: Option<
        Event,
    >)
        requires
            self.inv(),
            instant.wf(),
            range.wf(),
        ensures
            exists|d: Option<DateTime>|
                #[trigger] self.pattern.is_next_after(instant, range, d) && r == event_from(
                    self.event_duration,
                    d,
                ),
            r matches Some(e) ==> e.wf() && instant.rank() < e.start.rank() && range.spec_contains(
                e.start,
            ),
    {
        let d = self.pattern.next_after(instant, range);
        let r = self.event_for(d);
        assert(self.pattern.is_next_after(instant, range, d));
        r
    }

    /// The event before `instant`.
    pub(crate) fn get_previous_before(&self, instant: DateTime, range: DateTimeRange) -> (r:
        Option<Event>)
        requires
            self.inv(),
            instant.wf(),
            range.wf(),
        ensures
            exists|d: Option<DateTime>|
                #[trigger] self.pattern.is_previous_before(instant, range, d) && r == event_from(
                    self.event_duration,
                    d,
                ),
            r matches Some(e) ==> e.wf() && e.start.rank() < instant.rank() && range.spec_contains(
                e.start,
            ),
    {
        let d = self.pattern.previous_before(instant, range);
        let r = self.event_for(d);
        assert(self.pattern.is_previous_before(instant, range, d));
        r
    }

    /// The event closest to `instant`.
    pub(crate) fn get_closest_to(&self, instant: DateTime, range: DateTimeRange) -> (r: Option<
        Event,
    >)
        requires
            self.inv(),
            instant.wf(),
            range.wf(),
        ensures
            exists|d: Option<DateTime>|
                #[trigger] self.pattern.is_closest_to(instant, range, d) && r == event_from(
                    self.event_duration,
                    d,
                ),
            r matches Some(e) ==> e.wf() && range.spec_contains(e.start),
    {
        let d = self.pattern.closest_to(instant, range);
        let r = self.event_for(d);
        assert(self.pattern.is_closest_to(instant, range, d));
        r
    }
}

/// `event` if it contains `instant`.
pub open spec fn contained(event: Option<Event>, instant: DateTime) -> Option<Event> {
    match event {
        Some(e) => if e.spec_contains(instant) {
            Some(e)
        } else {
            None
        },
        None => None,
    }
}

} // verus!
