//! Events with a start and an optional end.
use crate::calendar::{civil_text, civil_until, datetime_text, until};
use crate::civil::DateTime;
use crate::error::Error;
use crate::span::Span;
use vstd::prelude::*;

verus! {

/// An event that happens at a point in time and may span until an optional end (exclusive).
#[derive(Debug, Clone, Copy, PartialEq, Eq, PartialOrd, Ord, Hash, Structural)]
pub struct Event {
    /// The start of the event (inclusive).
    pub start: DateTime,
    /// The end of the event (exclusive), if it has one.
    pub end: Option<DateTime>,
}

impl Event {
    /// The start is valid and the end, if any, is a valid datetime strictly after the start.
    pub open spec fn wf(self) -> bool {
        &&& self.start.wf()
        &&& self.end matches Some(e) ==> e.wf() && self.start.rank() < e.rank()
    }

    /// `instant` falls within the event: at its start for an event without end, otherwise
    /// between its start (inclusive) and its end (exclusive).
    pub open spec fn spec_contains(self, instant: DateTime) -> bool {
        match self.end {
            Some(e) => self.start.rank() <= instant.rank() < e.rank(),
            None => instant == self.start,
        }
    }

    /// The text of an event: its start, followed by ` - ` and its end if it has one.
    pub open spec fn text(self) -> Seq<char> {
        match self.end {
            Some(e) => civil_text(self.start) + " - "@ + civil_text(e),
            None => civil_text(self.start),
        }
    }

    /// Creates an event which starts and ends at `instant`.
    pub fn at(instant: DateTime) -> (r: Event)
        ensures
            r == (Event { start: instant, end: None }),
    {
        Event { start: instant, end: None }
    }

    /// Creates an event which spans from `start` (inclusive) to `end` (exclusive).
    ///
    /// The fallible version of this method is [`Event::try_new`]; here `start` must be before
    /// `end`.
    pub fn new(start: DateTime, end: DateTime) -> (r: Event)
        requires
            start.wf(),
            end.wf(),
            start.rank() < end.rank(),
        ensures
            r == (Event { start, end: Some(end) }),
            r.wf(),
    {
        Event { start, end: Some(end) }
    }

    /// Creates an event which spans from `start` (inclusive) to `end` (exclusive).
    ///
    /// # Errors
    ///
    /// Returns an error if `start >= end`.
    pub fn try_new(start: DateTime, end: DateTime) -> (r: Result<Event, Error>)
        requires
            start.wf(),
            end.wf(),
        ensures
            r is Ok <==> start.rank() < end.rank(),
            r matches Ok(e) ==> e == (Event { start, end: Some(end) }) && e.wf(),
            r matches Err(e) ==> e.is_datetime_range("event"@, start, end) && e.wf(),
    {
        if !start.is_before(&end) {
            return Err(Error::datetime_range("event", start, end));
        }
        Ok(Event::new_unchecked(start, end))
    }

    /// Creates an event from `start` to `end` without checking that `end` is after `start`.
    pub(crate) fn new_unchecked(start: DateTime, end: DateTime) -> (r: Event)
        ensures
            r == (Event { start, end: Some(end) }),
    {
        Event { start, end: Some(end) }
    }

    /// Returns the datetime at which the event starts.
    pub fn start(&self) -> (r: DateTime)
        ensures
            r == self.start,
    {
        self.start
    }

    /// Returns the datetime at which the event ends, if it has an end.
    pub fn end(&self) -> (r: Option<DateTime>)
        ensures
            r == self.end,
    {
        self.end
    }

    /// The span between the event's start and end; the zero span for events without end (or if
    /// `jiff` cannot compute the span).
    pub open spec fn spec_duration(self) -> Span {
        match self.end {
            Some(e) => match civil_until(self.start, e) {
                Some(s) => s,
                None => Span::zero(),
            },
            None => Span::zero(),
        }
    }

    /// Returns the span between the event's start and end; the zero span for events without end
    /// (or if `jiff` cannot compute the span).
    pub fn duration(&self) -> (r: Span)
        requires
            self.wf(),
        ensures
            r == self.spec_duration(),
            r.wf(),
    {
        match self.end {
            Some(e) => match until(&self.start, &e) {
                Ok(s) => s,
                Err(_) => Span::new(),
            },
            None => Span::new(),
        }
    }

    /// Returns `true` if `instant` falls within the event.
    pub fn contains(&self, instant: DateTime) -> (r: bool)
        requires
            self.wf(),
            instant.wf(),
        ensures
            r == self.spec_contains(instant),
    {
        match self.end {
            Some(e) => !instant.is_before(&self.start) && instant.is_before(&e),
            None => instant.is_same(&self.start),
        }
    }

    /// Returns the text of the event: its start, followed by ` - ` and its end if it has one.
    pub fn to_string(&self) -> (r: String)
        requires
            self.wf(),
        ensures
            r@ == self.text(),
    {
        let mut s = datetime_text(&self.start);
        if let Some(e) = self.end {
            s.append(" - ");
            s.append(datetime_text(&e).as_str());
        }
        s
    }
}

} // verus!
