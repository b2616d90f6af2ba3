//! Building series from their parts.
use crate::calendar::{checked_add, civil_add, span_text, span_text_of};
use crate::civil::DateTime;
use crate::error::Error;
use crate::range::{simplified, try_simplify_range, Bound, DateTimeRange, IntoBounds};
use crate::series::lookup::SeriesCore;
use crate::series::{Series, SeriesView};
use crate::span::Span;
use crate::Pattern;
use vstd::prelude::*;

verus! {

/// A builder for [`Series`] values, produced by [`Series::with`] and turned into a series by
/// [`SeriesWith::build`].
#[derive(Debug, Clone)]
pub struct SeriesWith<P> {
    pattern: P,
    lower: Bound,
    upper: Bound,
    fixpoint: Option<DateTime>,
    event_duration: Span,
}

/// The mathematical model of a [`SeriesWith`] builder.
pub struct SeriesWithView<P> {
    /// The recurrence pattern.
    pub pattern: P,
    /// The bounds of the series range.
    pub bounds: (Bound, Bound),
    /// The fixpoint for relative patterns, if set.
    pub fixpoint: Option<DateTime>,
    /// The duration of each event.
    pub event_duration: Span,
}

impl<P> View for SeriesWith<P> {
    type V = SeriesWithView<P>;

    closed spec fn view(&self) -> SeriesWithView<P> {
        SeriesWithView {
            pattern: self.pattern,
            bounds: (self.lower, self.upper),
            fixpoint: self.fixpoint,
            event_duration: self.event_duration,
        }
    }
}

/// The message of the error refusing a negative event duration.
pub open spec fn duration_error_text(duration: Span) -> Seq<char> {
    "event duration must be positive or zero but got "@ + span_text_of(duration)
}

/// The end of a series once the event duration is taken off `end`: `None` if that fails.
pub open spec fn shortened(end: DateTime, duration: Span) -> Option<DateTime> {
    if duration.sign() > 0 {
        civil_add(end, duration.spec_negate())
    } else {
        Some(end)
    }
}

/// `r` is what building a series from `w` gives: the range of the bounds, shortened by the
/// event duration, with the fixpoint; or the error for the first check that fails.
pub open spec fn built<P: Pattern>(w: SeriesWithView<P>, r: Result<Series<P>, Error>) -> bool {
    match simplified(w.bounds) {
        None => r matches Err(e) && e.kind is Jiff && e.wf(),
        Some(rng) => if w.event_duration.sign() < 0 {
            r matches Err(e) && e.is_adhoc(duration_error_text(w.event_duration)) && e.wf()
        } else {
            match shortened(rng.end, w.event_duration) {
                None => r matches Err(e) && e.kind is Jiff && e.wf(),
                Some(end) => if end.rank() <= rng.start.rank() {
                    r matches Err(e) && e.is_datetime_range("series"@, rng.start, end) && e.wf()
                } else {
                    match w.fixpoint {
                        Some(f) => if rng.start.rank() < f.rank() {
                            r matches Err(e) && e.is_adhoc(
                                DateTimeRange::fixpoint_text(f, rng.start),
                            ) && e.wf()
                        } else {
                            r matches Ok(s) && s.inv() && s@ == (SeriesView {
                                pattern: w.pattern,
                                event_duration: w.event_duration,
                                range: DateTimeRange { start: rng.start, end, fixpoint: w.fixpoint },
                                bound: rng.end,
                            })
                        },
                        None => r matches Ok(s) && s.inv() && s@ == (SeriesView {
                            pattern: w.pattern,
                            event_duration: w.event_duration,
                            range: DateTimeRange { start: rng.start, end, fixpoint: None },
                            bound: rng.end,
                        }),
                    }
                },
            }
        }
    }
}

impl<P: Pattern> SeriesWith<P> {
    /// The pattern, the bounds, the fixpoint and the duration are well formed.
    pub open spec fn inv(&self) -> bool {
        &&& self@.pattern.wf()
        &&& self@.bounds.0.wf()
        &&& self@.bounds.1.wf()
        &&& self@.fixpoint matches Some(f) ==> f.wf()
        &&& self@.event_duration.wf()
    }

    /// Creates a builder from its parts.
    pub(crate) fn from_parts(
        pattern: P,
        bounds: (Bound, Bound),
        fixpoint: Option<DateTime>,
        event_duration: Span,
    ) -> (r: SeriesWith<P>)
        ensures
            r@ == (SeriesWithView { pattern, bounds, fixpoint, event_duration }),
    {
        SeriesWith { pattern, lower: bounds.0, upper: bounds.1, fixpoint, event_duration }
    }

    /// Sets the range of the series.
    pub fn range<B: IntoBounds>(self, range: B) -> (r: SeriesWith<P>)
        requires
            self.inv(),
            range.spec_bounds().0.wf(),
            range.spec_bounds().1.wf(),
        ensures
            r.inv(),
            r@ == (SeriesWithView { bounds: range.spec_bounds(), ..self@ }),
    {
        let SeriesWith { pattern, lower: _, upper: _, fixpoint, event_duration } = self;
        let (lower, upper) = range.into_bounds();
        SeriesWith { pattern, lower, upper, fixpoint, event_duration }
    }

    /// Sets the (inclusive) start of the series.
    pub fn start(self, start: DateTime) -> (r: SeriesWith<P>)
        requires
            self.inv(),
            start.wf(),
        ensures
            r.inv(),
            r@ == (SeriesWithView { bounds: (Bound::Included(start), self@.bounds.1), ..self@ }),
    {
        let SeriesWith { pattern, lower: _, upper, fixpoint, event_duration } = self;
        SeriesWith { pattern, lower: Bound::Included(start), upper, fixpoint, event_duration }
    }

    /// Sets the (exclusive) end of the series.
    pub fn end(self, end: DateTime) -> (r: SeriesWith<P>)
        requires
            self.inv(),
            end.wf(),
        ensures
            r.inv(),
            r@ == (SeriesWithView { bounds: (self@.bounds.0, Bound::Excluded(end)), ..self@ }),
    {
        let SeriesWith { pattern, lower, upper: _, fixpoint, event_duration } = self;
        SeriesWith { pattern, lower, upper: Bound::Excluded(end), fixpoint, event_duration }
    }

    /// Sets the fixpoint for relative recurrence patterns; it must not be later than the start.
    pub fn fixpoint(self, fixpoint: DateTime) -> (r: SeriesWith<P>)
        requires
            self.inv(),
            fixpoint.wf(),
        ensures
            r.inv(),
            r@ == (SeriesWithView { fixpoint: Some(fixpoint), ..self@ }),
    {
        let SeriesWith { pattern, lower, upper, fixpoint: _, event_duration } = self;
        SeriesWith { pattern, lower, upper, fixpoint: Some(fixpoint), event_duration }
    }

    /// Sets the duration of the individual events of the series.
    pub fn event_duration(self, event_duration: Span) -> (r: SeriesWith<P>)
        requires
            self.inv(),
            event_duration.wf(),
        ensures
            r.inv(),
            r@ == (SeriesWithView { event_duration, ..self@ }),
    {
        let SeriesWith { pattern, lower, upper, fixpoint, event_duration: _ } = self;
        SeriesWith { pattern, lower, upper, fixpoint, event_duration }
    }

    /// Sets the recurrence pattern of the series.
    pub fn pattern<Q: Pattern>(self, pattern: Q) -> (r: SeriesWith<Q>)
        requires
            self.inv(),
            pattern.wf(),
        ensures
            r.inv(),
            r@ == (SeriesWithView {
                pattern,
                bounds: self@.bounds,
                fixpoint: self@.fixpoint,
                event_duration: self@.event_duration,
            }),
    {
        SeriesWith {
            pattern,
            lower: self.lower,
            upper: self.upper,
            fixpoint: self.fixpoint,
            event_duration: self.event_duration,
        }
    }

    /// Builds the [`Series`].
    ///
    /// # Errors
    ///
    /// Returns an error if the bounds cannot be represented, if the event duration is negative,
    /// if the end (less the event duration) is not after the start, or if the fixpoint is later
    /// than the start.
    pub fn build(self) -> (r: Result<Series<P>, Error>)
        requires
            self.inv(),
        ensures
            built(self@, r),
    {
        let SeriesWith { pattern, lower, upper, fixpoint, event_duration } = self;
        let mut range = match try_simplify_range((lower, upper)) {
            Ok(r) => r,
            Err(e) => return Err(e),
        };
        let bound = range.end;
        if event_duration.is_negative() {
            let mut m = String::from_str("event duration must be positive or zero but got ");
            m.append(span_text(&event_duration).as_str());
            return Err(Error::adhoc(m));
        }
        if event_duration.is_positive() {
            let back = event_duration.negate();
            match checked_add(&range.end, &back) {
                Ok(end) => {
                    range = DateTimeRange::new(range.start, end);
                },
                Err(e) => return Err(Error::jiff(e)),
            }
        }
        if !range.start.is_before(&range.end) {
            return Err(Error::datetime_range("series", range.start, range.end));
        }
        if let Some(f) = fixpoint {
            range = match range.with_fixpoint(f) {
                Ok(r) => r,
                Err(e) => return Err(e),
            };
        }
        Ok(Series::from_parts(SeriesCore::new(pattern, event_duration), range, bound))
    }
}

} // verus!
