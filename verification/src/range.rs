//! The time range of a series.
use crate::calendar::{checked_add, civil_text, datetime_text};
use crate::civil::DateTime;
use crate::error::Error;
use crate::span::Span;
use vstd::prelude::*;

verus! {

/// Representation of the time range of a [`Series`][crate::series::Series].
///
/// The range spans from `start` (inclusive) to `end` (exclusive). An optional fixpoint, which must
/// not be later than `start`, anchors patterns that are relative to some point in time.
#[derive(Debug, Clone, Copy, PartialEq, Eq, Structural)]
pub struct DateTimeRange {
    /// The lower bound (inclusive).
    pub start: DateTime,
    /// The upper bound (exclusive).
    pub end: DateTime,
    /// An optional (inclusive) fixpoint for relative patterns; `start` when absent.
    pub fixpoint: Option<DateTime>,
}

impl DateTimeRange {
    /// Both bounds and the fixpoint are valid datetimes and the fixpoint is not after `start`.
    pub open spec fn wf(self) -> bool {
        &&& self.start.wf()
        &&& self.end.wf()
        &&& self.fixpoint matches Some(f) ==> f.wf() && f.rank() <= self.start.rank()
    }

    /// The fixpoint used by relative patterns.
    pub open spec fn spec_fixpoint(self) -> DateTime {
        match self.fixpoint {
            Some(f) => f,
            None => self.start,
        }
    }

    /// `instant` lies within the range.
    pub open spec fn spec_contains(self, instant: DateTime) -> bool {
        self.start.rank() <= instant.rank() < self.end.rank()
    }

    /// Creates a new range from a start (inclusive) and an end (exclusive).
    pub fn new(start: DateTime, end: DateTime) -> (r: DateTimeRange)
        ensures
            r == (DateTimeRange { start, end, fixpoint: None }),
    {
        DateTimeRange { start, end, fixpoint: None }
    }

    /// The message of the error refusing `fixpoint` as later than `start`.
    pub open spec fn fixpoint_text(fixpoint: DateTime, start: DateTime) -> Seq<char> {
        "fixpoint ("@ + civil_text(fixpoint) + ") must be less than or equal to range start ("@
            + civil_text(start) + ")"@
    }

    /// Sets the (inclusive) fixpoint for relative recurrence patterns.
    ///
    /// # Errors
    ///
    /// Returns an error if `fixpoint` is later than the range start.
    pub fn with_fixpoint(self, fixpoint: DateTime) -> (r: Result<DateTimeRange, Error>)
        requires
            self.start.wf(),
            fixpoint.wf(),
        ensures
            r is Ok <==> fixpoint.rank() <= self.start.rank(),
            r matches Ok(x) ==> x == (DateTimeRange { fixpoint: Some(fixpoint), ..self }),
            r matches Err(e) ==> e.is_adhoc(DateTimeRange::fixpoint_text(fixpoint, self.start))
                && e.wf(),
    {
        if self.start.is_before(&fixpoint) {
            let mut m = String::from_str("fixpoint (");
            m.append(datetime_text(&fixpoint).as_str());
            m.append(") must be less than or equal to range start (");
            m.append(datetime_text(&self.start).as_str());
            m.append(")");
            return Err(Error::adhoc(m));
        }
        Ok(DateTimeRange { start: self.start, end: self.end, fixpoint: Some(fixpoint) })
    }

    /// Intersects `self` with `other`: the overlap of both ranges, with the fixpoint of `self`.
    ///
    /// # Errors
    ///
    /// Returns an error if the overlap is empty.
    pub fn intersect(&self, other: DateTimeRange) -> (r: Result<DateTimeRange, Error>)
        requires
            self.wf(),
            other.wf(),
        ensures
            ({
                let start = if self.start.rank() < other.start.rank() {
                    other.start
                } else {
                    self.start
                };
                let end = if other.end.rank() < self.end.rank() {
                    other.end
                } else {
                    self.end
                };
                &&& r is Ok <==> start.rank() < end.rank()
                &&& r matches Ok(x) ==> x == (DateTimeRange {
                    start,
                    end,
                    fixpoint: Some(self.spec_fixpoint()),
                })
                &&& r matches Err(e) ==> e.wf() && e.is_datetime_range(
                    "series intersection"@,
                    start,
                    end,
                )
            }),
    {
        let start = self.start.later(other.start);
        let end = self.end.earlier(other.end);
        if !start.is_before(&end) {
            return Err(Error::datetime_range("series intersection", start, end));
        }
        DateTimeRange::new(start, end).with_fixpoint(self.fixpoint())
    }

    /// Returns the fixpoint for relative recurrence patterns: `start` unless one was set.
    pub fn fixpoint(&self) -> (r: DateTime)
        ensures
            r == self.spec_fixpoint(),
    {
        match self.fixpoint {
            Some(f) => f,
            None => self.start,
        }
    }

    /// The lower bound (inclusive).
    pub fn start(&self) -> (r: DateTime)
        ensures
            r == self.start,
    {
        self.start
    }

    /// The upper bound (exclusive).
    pub fn end(&self) -> (r: DateTime)
        ensures
            r == self.end,
    {
        self.end
    }

    /// Returns `true` if `instant` lies within the range.
    pub fn contains(&self, instant: &DateTime) -> (r: bool)
        requires
            self.wf(),
            instant.wf(),
        ensures
            r == self.spec_contains(*instant),
    {
        !instant.is_before(&self.start) && instant.is_before(&self.end)
    }
}

impl From<core::ops::Range<DateTime>> for DateTimeRange {
    /// The range from `range.start` (inclusive) to `range.end` (exclusive), without fixpoint.
    fn from(range: core::ops::Range<DateTime>) -> (r: DateTimeRange) {
        DateTimeRange { start: range.start, end: range.end, fixpoint: None }
    }
}

impl vstd::std_specs::convert::FromSpecImpl<core::ops::Range<DateTime>> for DateTimeRange {
    open spec fn obeys_from_spec() -> bool {
        true
    }

    open spec fn from_spec(range: core::ops::Range<DateTime>) -> DateTimeRange {
        DateTimeRange { start: range.start, end: range.end, fixpoint: None }
    }
}

impl From<DateTimeRange> for core::ops::Range<DateTime> {
    /// The range from the start to the end, dropping the fixpoint.
    fn from(range: DateTimeRange) -> (r: core::ops::Range<DateTime>) {
        core::ops::Range { start: range.start, end: range.end }
    }
}

impl vstd::std_specs::convert::FromSpecImpl<DateTimeRange> for core::ops::Range<DateTime> {
    open spec fn obeys_from_spec() -> bool {
        true
    }

    open spec fn from_spec(range: DateTimeRange) -> core::ops::Range<DateTime> {
        core::ops::Range { start: range.start, end: range.end }
    }
}

/// A bound of a range of datetimes.
#[derive(Debug, Clone, Copy, PartialEq, Eq, Structural)]
pub enum Bound {
    /// An inclusive bound.
    Included(DateTime),
    /// An exclusive bound.
    Excluded(DateTime),
    /// No bound.
    Unbounded,
}

impl Bound {
    /// The datetime of the bound, if any, is valid.
    pub open spec fn wf(self) -> bool {
        match self {
            Bound::Included(d) => d.wf(),
            Bound::Excluded(d) => d.wf(),
            Bound::Unbounded => true,
        }
    }
}

/// The inclusive start that a lower bound stands for: `None` if it cannot be represented.
pub open spec fn lower_of(b: Bound) -> Option<DateTime> {
    match b {
        Bound::Unbounded => Some(DateTime::spec_min()),
        Bound::Included(d) => Some(d),
        Bound::Excluded(d) => if d == DateTime::spec_max() {
            None
        } else {
            Some(d.successor())
        },
    }
}

/// The exclusive end that an upper bound stands for: `None` if it cannot be represented.
pub open spec fn upper_of(b: Bound) -> Option<DateTime> {
    match b {
        Bound::Unbounded => Some(DateTime::spec_max()),
        Bound::Included(d) => if d == DateTime::spec_max() {
            None
        } else {
            Some(d.successor())
        },
        Bound::Excluded(d) => Some(d),
    }
}

/// The range from an inclusive start to an exclusive end that a pair of bounds stands for.
pub open spec fn simplified(bounds: (Bound, Bound)) -> Option<DateTimeRange> {
    match (lower_of(bounds.0), upper_of(bounds.1)) {
        (Some(start), Some(end)) => Some(DateTimeRange { start, end, fixpoint: None }),
        _ => None,
    }
}

/// Values that stand for a range of datetimes given by a lower and an upper bound.
pub trait IntoBounds {
    /// The bounds this value stands for.
    spec fn spec_bounds(&self) -> (Bound, Bound);

    /// Returns the bounds this value stands for.
    fn into_bounds(self) -> (r: (Bound, Bound))
        ensures
            r == self.spec_bounds(),
    ;
}

impl IntoBounds for (Bound, Bound) {
    open spec fn spec_bounds(&self) -> (Bound, Bound) {
        *self
    }

    fn into_bounds(self) -> (r: (Bound, Bound)) {
        self
    }
}

impl IntoBounds for core::ops::Range<DateTime> {
    open spec fn spec_bounds(&self) -> (Bound, Bound) {
        (Bound::Included(self.start), Bound::Excluded(self.end))
    }

    fn into_bounds(self) -> (r: (Bound, Bound)) {
        (Bound::Included(self.start), Bound::Excluded(self.end))
    }
}

impl IntoBounds for DateTimeRange {
    open spec fn spec_bounds(&self) -> (Bound, Bound) {
        (Bound::Included(self.start), Bound::Excluded(self.end))
    }

    fn into_bounds(self) -> (r: (Bound, Bound)) {
        (Bound::Included(self.start), Bound::Excluded(self.end))
    }
}

impl IntoBounds for core::ops::RangeFull {
    open spec fn spec_bounds(&self) -> (Bound, Bound) {
        (Bound::Unbounded, Bound::Unbounded)
    }

    fn into_bounds(self) -> (r: (Bound, Bound)) {
        (Bound::Unbounded, Bound::Unbounded)
    }
}

/// The datetime one nanosecond after `d`.
fn add_nanosecond(d: DateTime) -> (r: Result<DateTime, Error>)
    requires
        d.wf(),
    ensures
        r is Ok <==> d != DateTime::spec_max(),
        r matches Ok(x) ==> x == d.successor() && x.wf(),
        r matches Err(e) ==> e.kind is Jiff && e.wf(),
{
    let one = Span::new().nanoseconds(1);
    assert(one == Span::one_nanosecond());
    match checked_add(&d, &one) {
        Ok(x) => Ok(x),
        Err(e) => Err(Error::jiff(e)),
    }
}

/// Simplifies a pair of range bounds into a [`DateTimeRange`] from an inclusive start to an
/// exclusive end.
///
/// # Errors
///
/// Returns an error if an excluded start or an included end is `DateTime::MAX`, whose successor
/// cannot be represented.
pub fn try_simplify_range(bounds: (Bound, Bound)) -> (r: Result<DateTimeRange, Error>)
    requires
        bounds.0.wf(),
        bounds.1.wf(),
    ensures
        r is Ok <==> simplified(bounds) is Some,
        r matches Ok(x) ==> Some(x) == simplified(bounds) && x.wf(),
        r matches Err(e) ==> e.kind is Jiff && e.wf(),
{
    let start = match bounds.0 {
        Bound::Unbounded => DateTime::min_value(),
        Bound::Included(d) => d,
        Bound::Excluded(d) => match add_nanosecond(d) {
            Ok(x) => x,
            Err(e) => return Err(e),
        },
    };
    let end = match bounds.1 {
        Bound::Unbounded => DateTime::max_value(),
        Bound::Included(d) => match add_nanosecond(d) {
            Ok(x) => x,
            Err(e) => return Err(e),
        },
        Bound::Excluded(d) => d,
    };
    Ok(DateTimeRange::new(start, end))
}

} // verus!
