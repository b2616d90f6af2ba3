//! Iteration over the events of a series within a range.
use crate::civil::DateTime;
use crate::event::Event;
use crate::range::DateTimeRange;
use crate::series::lookup::{event_from, SeriesCore};
use crate::span::Span;
use crate::Pattern;
use vstd::prelude::*;

verus! {

/// An iterator over a sub-range of events in a [`Series`][crate::series::Series].
///
/// Events are taken from the front with [`Range::next`] and from the back with
/// [`Range::next_back`]; the two ends move independently.
#[derive(Debug, Clone)]
pub struct Range<'a, P> {
    core: &'a SeriesCore<P>,
    range: DateTimeRange,
    first: bool,
    cursor_front: Option<DateTime>,
    cursor_back: Option<DateTime>,
}

/// The mathematical model of a [`Range`] iterator.
pub struct RangeView<P> {
    /// The recurrence pattern.
    pub pattern: P,
    /// The duration of each event.
    pub event_duration: Span,
    /// The range iterated over.
    pub range: DateTimeRange,
    /// No event was taken from the front yet.
    pub first: bool,
    /// The start of the event last taken from the front (the range start before the first),
    /// `None` once the front is exhausted.
    pub front: Option<DateTime>,
    /// The start of the event last taken from the back (the range end before the first), `None`
    /// once the back is exhausted.
    pub back: Option<DateTime>,
}

impl<'a, P> View for Range<'a, P> {
    type V = RangeView<P>;

    closed spec fn view(&self) -> RangeView<P> {
        RangeView {
            pattern: self.core.pattern,
            event_duration: self.core.event_duration,
            range: self.range,
            first: self.first,
            front: self.cursor_front,
            back: self.cursor_back,
        }
    }
}

impl<'a, P: Pattern> Range<'a, P> {
    /// The pattern is well formed, the duration zero or positive, and the cursors valid.
    pub open spec fn inv(&self) -> bool {
        &&& self@.pattern.wf()
        &&& self@.event_duration.wf()
        &&& self@.event_duration.sign() >= 0
        &&& self@.range.wf()
        &&& self@.front matches Some(c) ==> c.wf()
        &&& self@.back matches Some(c) ==> c.wf()
    }

    /// Creates an iterator over the events of `core` within `range`.
    pub(crate) fn new(core: &'a SeriesCore<P>, range: DateTimeRange) -> (r: Range<'a, P>)
        requires
            core.inv(),
            range.wf(),
        ensures
            r.inv(),
            r@ == (RangeView {
                pattern: core.pattern,
                event_duration: core.event_duration,
                range,
                first: true,
                front: Some(range.start),
                back: Some(range.end),
            }),
    {
        Range {
            core,
            range,
            first: true,
            cursor_front: Some(range.start),
            cursor_back: Some(range.end),
        }
    }

    /// Takes the next event from the front: the event closest to the range start the first time,
    /// then the event after the one taken last.
    pub fn next(&mut self) -> (r: Option<Event>)
        requires
            old(self).inv(),
        ensures
            final(self).inv(),
            front_step(old(self)@, final(self)@, r),
    {
        let cursor = match self.cursor_front {
            Some(c) => c,
            None => return None,
        };
        let ghost before = self@;
        self.cursor_front = None;
        let event = if self.first {
            self.first = false;
            self.core.get_closest_to(cursor, self.range)
        } else {
            self.core.get_next_after(cursor, self.range)
        };
        proof {
            let d = choose|d: Option<DateTime>|
                next_spec(before, cursor, d) && event == event_from(before.event_duration, d);
            assert(next_spec(before, cursor, d));
        }
        match event {
            Some(e) => {
                self.cursor_front = Some(e.start);
                Some(e)
            },
            None => None,
        }
    }

    /// Takes the next event from the back: the event before the one taken last from the back
    /// (before the range end the first time).
    pub fn next_back(&mut self) -> (r: Option<Event>)
        requires
            old(self).inv(),
        ensures
            final(self).inv(),
            back_step(old(self)@, final(self)@, r),
    {
        let cursor = match self.cursor_back {
            Some(c) => c,
            None => return None,
        };
        self.cursor_back = None;
        match self.core.get_previous_before(cursor, self.range) {
            Some(e) => {
                self.cursor_back = Some(e.start);
                Some(e)
            },
            None => None,
        }
    }
}

/// Taking `r` from the front moves an iterator from state `before` to state `after`: the lookup
/// from the front cursor yields `r`, whose start becomes the front cursor (or the front ends);
/// the first event is the one closest to the range start, each later one is after the one
/// taken before it.
pub open spec fn front_step<P: Pattern>(before: RangeView<P>, after: RangeView<P>, r: Option<Event>) -> bool {
    &&& after.pattern == before.pattern
    &&& after.event_duration == before.event_duration
    &&& after.range == before.range
    &&& after.back == before.back
    &&& before.front is None ==> r is None && after == before
    &&& before.front matches Some(c) ==> {
        &&& !after.first
        &&& after.front == match r {
            Some(e) => Some(e.start),
            None => None,
        }
        &&& exists|d: Option<DateTime>|
            {
                &&& #[trigger] next_spec(before, c, d)
                &&& r == event_from(before.event_duration, d)
            }
    }
    &&& r matches Some(e) ==> e.wf() && before.range.spec_contains(e.start)
    &&& r matches Some(e) ==> (!before.first ==> (before.front matches Some(c) ==> c.rank()
        < e.start.rank()))
}

/// Taking `r` from the back moves an iterator from state `before` to state `after`: `r` is the
/// event before the back cursor, and its start becomes the back cursor (or the back ends).
pub open spec fn back_step<P: Pattern>(before: RangeView<P>, after: RangeView<P>, r: Option<Event>) -> bool {
    &&& after.pattern == before.pattern
    &&& after.event_duration == before.event_duration
    &&& after.range == before.range
    &&& after.front == before.front
    &&& after.first == before.first
    &&& before.back is None ==> r is None && after == before
    &&& before.back matches Some(c) ==> {
        &&& after.back == match r {
            Some(e) => Some(e.start),
            None => None,
        }
        &&& exists|d: Option<DateTime>|
            {
                &&& #[trigger] before.pattern.is_previous_before(c, before.range, d)
                &&& r == event_from(before.event_duration, d)
            }
    }
    &&& r matches Some(e) ==> e.wf() && before.range.spec_contains(e.start)
    &&& r matches Some(e) ==> (before.back matches Some(c) ==> e.start.rank() < c.rank())
}

/// `d` is what the front of an iterator in state `it` looks up from cursor `c`: the datetime
/// closest to `c` the first time, the datetime after `c` afterwards.
pub open spec fn next_spec<P: Pattern>(it: RangeView<P>, c: DateTime, d: Option<DateTime>) -> bool {
    if it.first {
        it.pattern.is_closest_to(c, it.range, d)
    } else {
        it.pattern.is_next_after(c, it.range, d)
    }
}

} // verus!
