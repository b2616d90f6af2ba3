//! Fixed interval recurrence patterns.
use crate::calendar::{checked_add, civil_add, span_text, span_text_of};
use crate::civil::DateTime;
use crate::error::Error;
use crate::pattern::utils::{
    advance_from,
    advanced_until,
    closest_of,
    lemma_closest_of,
    earliest,
    latest,
    lemma_reached_next,
    lemma_reached_self,
    reached,
    pick_closest_to,
};
use crate::private;
use crate::range::DateTimeRange;
use crate::span::Span;
use crate::Pattern;
use vstd::prelude::*;

verus! {

/// A fixed interval recurrence pattern.
///
/// Events recur every `span`, counted from the fixpoint of the series range, optionally shifted by
/// an offset.
#[derive(Debug, Clone, Copy)]
pub struct Interval {
    span: Span,
    offset: Option<Span>,
}

/// The mathematical model of an [`Interval`].
pub struct IntervalView {
    /// The (positive) span between two events.
    pub span: Span,
    /// The (non-negative) offset from the series start, if any.
    pub offset: Option<Span>,
}

impl View for Interval {
    type V = IntervalView;

    closed spec fn view(&self) -> IntervalView {
        IntervalView { span: self.span, offset: self.offset }
    }
}

/// The message of the error refusing a span that is not positive or has sub-second units.
pub open spec fn interval_error_text(span: Span) -> Seq<char> {
    "interval must be positive, non-zero and must not include sub-second units but got "@
        + span_text_of(span)
}

/// `span` is a valid interval: positive, without milliseconds, microseconds or nanoseconds.
pub open spec fn valid_interval(span: Span) -> bool {
    &&& span.sign() > 0
    &&& span.milliseconds == 0
    &&& span.microseconds == 0
    &&& span.nanoseconds == 0
}

/// The message of the error refusing a negative offset.
pub open spec fn offset_error_text(offset: Span) -> Seq<char> {
    "offset must be zero or positive but got "@ + span_text_of(offset)
}

impl Interval {
    /// The span is positive and the offset, if any, is zero or positive.
    pub open spec fn inv(&self) -> bool {
        &&& self@.span.wf()
        &&& self@.span.sign() > 0
        &&& self@.offset matches Some(o) ==> o.wf() && o.sign() >= 0
    }

    /// `d` shifted by the offset: `d` itself without an offset, `None` if the addition fails.
    pub open spec fn spec_add_offset(&self, d: DateTime) -> Option<DateTime> {
        match self@.offset {
            None => Some(d),
            Some(o) => civil_add(d, o),
        }
    }

    /// The datetime one span after `date`, if it is before `end`.
    pub open spec fn next_within(&self, date: DateTime, end: DateTime) -> Option<DateTime> {
        match civil_add(date, self@.span) {
            Some(n) => if n.rank() < end.rank() {
                Some(n)
            } else {
                None
            },
            None => None,
        }
    }

    /// `candidate` if it lies within `lower..upper`.
    pub open spec fn within(candidate: Option<DateTime>, lower: DateTime, upper: DateTime) -> Option<
        DateTime,
    > {
        match candidate {
            Some(p) => if lower.rank() <= p.rank() && p.rank() < upper.rank() {
                Some(p)
            } else {
                None
            },
            None => None,
        }
    }

    /// The result of `next_after(instant, range)` given the datetime `date` that the interval
    /// reached from the fixpoint.
    pub open spec fn next_after_spec(
        &self,
        instant: DateTime,
        range: DateTimeRange,
        r: Option<DateTime>,
    ) -> bool {
        match (self.spec_add_offset(range.start), self.spec_add_offset(range.spec_fixpoint())) {
            (Some(start), Some(fixpoint)) => if range.end.rank() <= start.rank() {
                r is None
            } else if instant.rank() < start.rank() {
                if start == fixpoint {
                    r == Some(start)
                } else {
                    exists|date: DateTime|
                        {
                            &&& #[trigger] advanced_until(fixpoint, self@.span, start, date)
                            &&& r == if start.rank() <= date.rank() {
                                Interval::within(Some(date), start, range.end)
                            } else {
                                self.next_within(date, range.end)
                            }
                        }
                }
            } else {
                let bound = earliest(instant, range.end);
                exists|date: DateTime|
                    {
                        &&& #[trigger] advanced_until(fixpoint, self@.span, bound, date)
                        &&& r == if date == range.end {
                            None
                        } else {
                            self.next_within(date, range.end)
                        }
                    }
            },
            _ => r is None,
        }
    }

    /// The result of `previous_before(instant, range)`.
    pub open spec fn previous_before_spec(
        &self,
        instant: DateTime,
        range: DateTimeRange,
        r: Option<DateTime>,
    ) -> bool {
        match (self.spec_add_offset(range.start), self.spec_add_offset(range.spec_fixpoint())) {
            (Some(start), Some(fixpoint)) => if instant.rank() <= start.rank() || range.end.rank()
                <= start.rank() {
                r is None
            } else {
                let bound = earliest(instant, range.end);
                exists|date: DateTime|
                    {
                        &&& #[trigger] advanced_until(fixpoint, self@.span, bound, date)
                        &&& r == Interval::within(
                            if date.rank() < bound.rank() {
                                Some(date)
                            } else {
                                civil_add(date, self@.span.spec_negate())
                            },
                            start,
                            bound,
                        )
                    }
            },
            (Some(start), None) => r is None,
            _ => r is None,
        }
    }

    /// The result of `closest_to(instant, range)`.
    pub open spec fn closest_to_spec(
        &self,
        instant: DateTime,
        range: DateTimeRange,
        r: Option<DateTime>,
    ) -> bool {
        match (self.spec_add_offset(range.start), self.spec_add_offset(range.spec_fixpoint())) {
            (Some(start), Some(fixpoint)) => if range.end.rank() <= start.rank() {
                r is None
            } else {
                let bound = earliest(latest(instant, start), range.end);
                exists|date: DateTime|
                    {
                        &&& #[trigger] advanced_until(fixpoint, self@.span, bound, date)
                        &&& r == closest_of(
                            instant,
                            Interval::within(
                                if date == range.end {
                                    civil_add(date, self@.span.spec_negate())
                                } else {
                                    Some(date)
                                },
                                start,
                                range.end,
                            ),
                            self.next_within(date, range.end),
                        )
                    }
            },
            _ => r is None,
        }
    }

    /// Creates a new `Interval` from a positive span without sub-second units.
    ///
    /// The fallible version of this method is [`Interval::try_new`].
    pub fn new(span: Span) -> (r: Interval)
        requires
            span.wf(),
            valid_interval(span),
        ensures
            r.inv(),
            r@ == (IntervalView { span, offset: None }),
    {
        Interval { span, offset: None }
    }

    /// Creates a new `Interval` from a `Span`.
    ///
    /// # Errors
    ///
    /// Returns an error if `span` is negative or zero, or has milliseconds, microseconds or
    /// nanoseconds.
    pub fn try_new(span: Span) -> (r: Result<Interval, Error>)
        requires
            span.wf(),
        ensures
            r is Ok <==> valid_interval(span),
            r matches Ok(i) ==> i.inv() && i@ == (IntervalView { span, offset: None }),
            r matches Err(e) ==> e.is_adhoc(interval_error_text(span)) && e.wf(),
    {
        if !span.is_positive() || span.milliseconds != 0 || span.microseconds != 0
            || span.nanoseconds != 0 {
            let mut m = String::from_str(
                "interval must be positive, non-zero and must not include sub-second units but got ",
            );
            m.append(span_text(&span).as_str());
            return Err(Error::adhoc(m));
        }
        Ok(Interval { span, offset: None })
    }

    /// Sets the offset from the series start at which the first recurrence happens.
    ///
    /// The fallible version of this method is [`Interval::try_offset`].
    pub fn offset(self, offset: Span) -> (r: Interval)
        requires
            self.inv(),
            offset.wf(),
            offset.sign() >= 0,
        ensures
            r.inv(),
            r@ == (IntervalView { offset: Some(offset), ..self@ }),
    {
        Interval { span: self.span, offset: Some(offset) }
    }

    /// Sets the offset from the series start at which the first recurrence happens.
    ///
    /// # Errors
    ///
    /// Returns an error if `offset` is negative.
    pub fn try_offset(self, offset: Span) -> (r: Result<Interval, Error>)
        requires
            self.inv(),
            offset.wf(),
        ensures
            r is Ok <==> offset.sign() >= 0,
            r matches Ok(i) ==> i.inv() && i@ == (IntervalView { offset: Some(offset), ..self@ }),
            r matches Err(e) ==> e.is_adhoc(offset_error_text(offset)) && e.wf(),
    {
        if offset.is_negative() {
            let mut m = String::from_str("offset must be zero or positive but got ");
            m.append(span_text(&offset).as_str());
            return Err(Error::adhoc(m));
        }
        Ok(Interval { span: self.span, offset: Some(offset) })
    }

    /// Returns the span between two events.
    pub fn span(&self) -> (r: Span)
        ensures
            r == self@.span,
    {
        self.span
    }

    /// Shifts `instant` by the offset, if any.
    fn add_offset(&self, instant: DateTime) -> (r: Option<DateTime>)
        requires
            self.inv(),
            instant.wf(),
        ensures
            r == self.spec_add_offset(instant),
            r matches Some(x) ==> x.wf() && instant.rank() <= x.rank(),
    {
        match self.offset {
            None => Some(instant),
            Some(o) => match checked_add(&instant, &o) {
                Ok(x) => Some(x),
                Err(_) => None,
            },
        }
    }

    /// The datetime one span after `date`, if it is before `end`.
    fn next_span_within(&self, date: DateTime, end: DateTime) -> (r: Option<DateTime>)
        requires
            self.inv(),
            date.wf(),
            end.wf(),
        ensures
            r == self.next_within(date, end),
            r matches Some(x) ==> x.wf() && date.rank() < x.rank() && x.rank() < end.rank(),
    {
        match checked_add(&date, &self.span) {
            Ok(n) => if n.is_before(&end) {
                Some(n)
            } else {
                None
            },
            Err(_) => None,
        }
    }

    /// The datetime one span before `date`, if any.
    fn previous_span(&self, date: DateTime) -> (r: Option<DateTime>)
        requires
            self.inv(),
            date.wf(),
        ensures
            r == civil_add(date, self@.span.spec_negate()),
            r matches Some(x) ==> x.wf() && x.rank() < date.rank(),
    {
        let back = self.span.negate();
        match checked_add(&date, &back) {
            Ok(p) => Some(p),
            Err(_) => None,
        }
    }
}

/// `candidate` if it lies within `lower..upper`.
fn within(candidate: Option<DateTime>, lower: DateTime, upper: DateTime) -> (r: Option<DateTime>)
    requires
        candidate matches Some(c) ==> c.wf(),
        lower.wf(),
        upper.wf(),
    ensures
        r == Interval::within(candidate, lower, upper),
{
    match candidate {
        Some(p) => if !p.is_before(&lower) && p.is_before(&upper) {
            Some(p)
        } else {
            None
        },
        None => None,
    }
}

impl PartialEq for Interval {
    /// Two intervals are equal when their spans are (the offsets are not compared).
    fn eq(&self, other: &Self) -> (r: bool) {
        self.span == other.span
    }
}

impl vstd::std_specs::cmp::PartialEqSpecImpl for Interval {
    open spec fn obeys_eq_spec() -> bool {
        true
    }

    open spec fn eq_spec(&self, other: &Self) -> bool {
        self@.span == other@.span
    }
}

impl Eq for Interval {

}

impl private::Sealed for Interval {

}

impl Pattern for Interval {
    open spec fn wf(&self) -> bool {
        self.inv()
    }

    open spec fn is_next_after(&self, instant: DateTime, range: DateTimeRange, r: Option<DateTime>) -> bool {
        self.next_after_spec(instant, range, r)
    }

    open spec fn is_previous_before(&self, instant: DateTime, range: DateTimeRange, r: Option<DateTime>) -> bool {
        self.previous_before_spec(instant, range, r)
    }

    open spec fn is_closest_to(&self, instant: DateTime, range: DateTimeRange, r: Option<DateTime>) -> bool {
        self.closest_to_spec(instant, range, r)
    }

    fn duplicate(&self) -> (r: Interval) {
        *self
    }

    /// The first event after `instant` within the range; the first event of the range when
    /// `instant` is before its (offset) start.
    fn next_after(&self, instant: DateTime, range: DateTimeRange) -> (r: Option<DateTime>)
        ensures
            self.next_after_spec(instant, range, r),
    {
        let start = match self.add_offset(range.start) {
            Some(s) => s,
            None => return None,
        };
        if !start.is_before(&range.end) {
            return None;
        }
        let fixpoint = match self.add_offset(range.fixpoint()) {
            Some(f) => f,
            None => return None,
        };
        if instant.is_before(&start) {
            if start.is_same(&fixpoint) {
                return Some(start);
            }
            let date = advance_from(fixpoint, self.span, start);
            let r = if !date.is_before(&start) {
                within(Some(date), start, range.end)
            } else {
                self.next_span_within(date, range.end)
            };
            assert(advanced_until(fixpoint, self@.span, start, date));
            return r;
        }
        let bound = instant.earlier(range.end);
        assert(bound == earliest(instant, range.end));
        let date = advance_from(fixpoint, self.span, bound);
        let r = if date.is_same(&range.end) {
            None
        } else {
            self.next_span_within(date, range.end)
        };
        assert(advanced_until(fixpoint, self@.span, bound, date));
        r
    }

    /// The last event before `instant` within the range; `None` when `instant` is not after the
    /// (offset) start of the range.
    fn previous_before(&self, instant: DateTime, range: DateTimeRange) -> (r: Option<DateTime>)
        ensures
            self.previous_before_spec(instant, range, r),
    {
        let start = match self.add_offset(range.start) {
            Some(s) => s,
            None => return None,
        };
        if !start.is_before(&instant) || !start.is_before(&range.end) {
            return None;
        }
        let fixpoint = match self.add_offset(range.fixpoint()) {
            Some(f) => f,
            None => return None,
        };
        let bound = instant.earlier(range.end);
        assert(bound == earliest(instant, range.end));
        let date = advance_from(fixpoint, self.span, bound);
        let candidate = if date.is_before(&bound) {
            Some(date)
        } else {
            self.previous_span(date)
        };
        let r = within(candidate, start, bound);
        assert(advanced_until(fixpoint, self@.span, bound, date));
        r
    }

    /// The event closest to `instant` within the range, favoring the later one on ties.
    #[verifier::rlimit(60)]
    fn closest_to(&self, instant: DateTime, range: DateTimeRange) -> (r: Option<DateTime>)
        ensures
            self.closest_to_spec(instant, range, r),
    {
        let start = match self.add_offset(range.start) {
            Some(s) => s,
            None => return None,
        };
        if !start.is_before(&range.end) {
            return None;
        }
        let fixpoint = match self.add_offset(range.fixpoint()) {
            Some(f) => f,
            None => return None,
        };
        let bound = instant.later(start).earlier(range.end);
        assert(bound == earliest(latest(instant, start), range.end));
        let date = advance_from(fixpoint, self.span, bound);
        let previous = if date.is_same(&range.end) {
            self.previous_span(date)
        } else {
            Some(date)
        };
        let previous = within(previous, start, range.end);
        let next = self.next_span_within(date, range.end);
        let r = pick_closest_to(instant, previous, next);
        proof {
            lemma_closest_of(instant, previous, next);
        }
        assert(advanced_until(fixpoint, self@.span, bound, date));
        r
    }
}

/// Interval events recur on the grid of the pattern: the next event after any instant is reached
/// from the (offset) fixpoint of the range by adding whole multiples of the span.
pub proof fn lemma_next_after_on_grid(i: Interval, instant: DateTime, range: DateTimeRange, d: DateTime)
    requires
        i.inv(),
        i.next_after_spec(instant, range, Some(d)),
    ensures
        i.spec_add_offset(range.spec_fixpoint()) matches Some(f) && reached(f, i@.span, d),
{
    let f = i.spec_add_offset(range.spec_fixpoint())->0;
    let start = i.spec_add_offset(range.start)->0;
    if instant.rank() < start.rank() && start == f {
        lemma_reached_self(f, i@.span);
    } else {
        let bound = if instant.rank() < start.rank() {
            start
        } else {
            earliest(instant, range.end)
        };
        let date = choose|date: DateTime|
            {
                &&& #[trigger] advanced_until(f, i@.span, bound, date)
                &&& Some(d) == if instant.rank() < start.rank() {
                    if start.rank() <= date.rank() {
                        Interval::within(Some(date), start, range.end)
                    } else {
                        i.next_within(date, range.end)
                    }
                } else if date == range.end {
                    None
                } else {
                    i.next_within(date, range.end)
                }
            };
        if d != date {
            lemma_reached_next(f, i@.span, date, d);
        }
    }
}

/// An interval whose grid lands on the range start has its first event there: when advancing the
/// (offset) fixpoint by whole spans up to the (offset) range start can only end on that start,
/// the start is the next event after any earlier instant, provided it lies before the range end.
pub proof fn lemma_next_after_grid_on_start(
    i: Interval,
    instant: DateTime,
    range: DateTimeRange,
    start: DateTime,
    fixpoint: DateTime,
    r: Option<DateTime>,
)
    requires
        i.inv(),
        i.spec_add_offset(range.start) == Some(start),
        i.spec_add_offset(range.spec_fixpoint()) == Some(fixpoint),
        forall|x: DateTime| #[trigger]
            advanced_until(fixpoint, i@.span, start, x) ==> x == start,
        instant.rank() < start.rank(),
        start.rank() < range.end.rank(),
        i.is_next_after(instant, range, r),
    ensures
        r == Some(start),
{
    if start != fixpoint {
        let date = choose|date: DateTime|
            {
                &&& #[trigger] advanced_until(fixpoint, i@.span, start, date)
                &&& r == if start.rank() <= date.rank() {
                    Interval::within(Some(date), start, range.end)
                } else {
                    i.next_within(date, range.end)
                }
            };
        assert(date == start);
    }
}

} // verus!
