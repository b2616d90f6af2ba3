//! Splitting a series in two.
use crate::calendar::{civil_text, datetime_text};
use crate::civil::DateTime;
use crate::error::Error;
use crate::series::with::shortened;
use crate::series::{Series, SeriesView};
use crate::{equivalent, Pattern};
use vstd::prelude::*;

verus! {

/// Where [`Series::split_off`] cuts a series.
#[derive(Debug, Clone, Copy, PartialEq, Eq, Structural)]
pub enum SplitMode {
    /// Split the series exactly at the given instant.
    At,
    /// Split the series at the next event after the given instant.
    NextAfter,
    /// Split the series at the previous event before the given instant.
    PreviousBefore,
    /// Split the series at the event closest to the given instant.
    ClosestTo,
}

impl Default for SplitMode {
    /// Splitting exactly at the given instant.
    fn default() -> (r: SplitMode)
        ensures
            r == SplitMode::At,
    {
        SplitMode::At
    }
}

/// Options for [`Series::split_off`]: an instant and a [`SplitMode`].
#[derive(Debug, Clone, Copy)]
pub struct SeriesSplit {
    instant: DateTime,
    mode: SplitMode,
}

/// The mathematical model of [`SeriesSplit`] options.
pub struct SeriesSplitView {
    /// The instant at or around which to split.
    pub instant: DateTime,
    /// How the instant selects the cutoff point.
    pub mode: SplitMode,
}

impl View for SeriesSplit {
    type V = SeriesSplitView;

    closed spec fn view(&self) -> SeriesSplitView {
        SeriesSplitView { instant: self.instant, mode: self.mode }
    }
}

/// `d` is the cutoff point that `split` selects in the series `s`: the instant itself if it lies
/// within the range (mode `At`), or the next, previous or closest event of the pattern.
pub open spec fn is_cutoff<P: Pattern>(s: SeriesView<P>, split: SeriesSplitView, d: Option<DateTime>) -> bool {
    match split.mode {
        SplitMode::At => d == if s.range.spec_contains(split.instant) {
            Some(split.instant)
        } else {
            None
        },
        SplitMode::NextAfter => s.pattern.is_next_after(split.instant, s.range, d),
        SplitMode::PreviousBefore => s.pattern.is_previous_before(split.instant, s.range, d),
        SplitMode::ClosestTo => s.pattern.is_closest_to(split.instant, s.range, d),
    }
}

/// The message of the error reporting that `split` finds no cutoff point.
pub open spec fn cutoff_error_text(split: SeriesSplitView) -> Seq<char> {
    match split.mode {
        SplitMode::At => civil_text(split.instant) + " not within series range"@,
        SplitMode::NextAfter => "no series event after "@ + civil_text(split.instant),
        SplitMode::PreviousBefore => "no series event before "@ + civil_text(split.instant),
        SplitMode::ClosestTo => "no series event close to "@ + civil_text(split.instant),
    }
}

/// Splitting the series `s` at `cutoff` gives `r` and leaves `after` in place of `before`.
///
/// The part before the cutoff keeps the start and is given the cutoff as its end, which loses
/// the event duration; the part after starts at the cutoff, keeps the end of `s` (and the end
/// `s` was given) and takes the fixpoint of `s`. Splitting fails, leaving the series unchanged,
/// if the end of the first part cannot be computed or a part would be empty.
pub open spec fn split_at<P: Pattern>(
    s: SeriesView<P>,
    cutoff: DateTime,
    before: Series<P>,
    after: Series<P>,
    r: Result<Series<P>, Error>,
) -> bool {
    match shortened(cutoff, s.event_duration) {
        Some(x) => if s.range.start.rank() < x.rank() && cutoff.rank() < s.range.end.rank() {
            r matches Ok(right) && {
                &&& after.inv()
                &&& right.inv()
                &&& equivalent(s.pattern, after@.pattern)
                &&& equivalent(s.pattern, right@.pattern)
                &&& after@.event_duration == s.event_duration
                &&& right@.event_duration == s.event_duration
                &&& after@.range == crate::range::DateTimeRange {
                    start: s.range.start,
                    end: x,
                    fixpoint: s.range.fixpoint,
                }
                &&& after@.bound == cutoff
                &&& right@.range == crate::range::DateTimeRange {
                    start: cutoff,
                    end: s.range.end,
                    fixpoint: Some(s.range.spec_fixpoint()),
                }
                &&& right@.bound == s.bound
            }
        } else if s.range.start.rank() < x.rank() {
            after == before && (r matches Err(e) && e.is_datetime_range(
                "series"@,
                cutoff,
                s.range.end,
            ))
        } else {
            after == before && (r matches Err(e) && e.is_datetime_range(
                "series"@,
                s.range.start,
                x,
            ))
        },
        None => after == before && (r matches Err(e) && e.kind is Jiff),
    }
}

impl SeriesSplit {
    /// Options for splitting a series exactly at `instant`.
    pub fn new(instant: DateTime) -> (r: SeriesSplit)
        ensures
            r@ == (SeriesSplitView { instant, mode: SplitMode::At }),
    {
        SeriesSplit { instant, mode: SplitMode::At }
    }

    /// Sets the split mode.
    pub fn mode(self, mode: SplitMode) -> (r: SeriesSplit)
        ensures
            r@ == (SeriesSplitView { mode, ..self@ }),
    {
        SeriesSplit { instant: self.instant, mode }
    }

    /// Finds the cutoff point in `series`.
    fn find_cutoff_point<P: Pattern>(&self, series: &Series<P>) -> (r: Result<DateTime, Error>)
        requires
            series.inv(),
            self@.instant.wf(),
        ensures
            exists|d: Option<DateTime>|
                {
                    &&& #[trigger] is_cutoff(series@, self@, d)
                    &&& match d {
                        Some(c) => r == Ok::<DateTime, Error>(c),
                        None => r matches Err(e) && e.is_adhoc(cutoff_error_text(self@)) && e.wf(),
                    }
                },
            r matches Ok(c) ==> c.wf() && series@.range.spec_contains(c),
    {
        let range = series.range_value();
        let d = match self.mode {
            SplitMode::At => if range.contains(&self.instant) {
                Some(self.instant)
            } else {
                None
            },
            SplitMode::NextAfter => series.pattern().next_after(self.instant, range),
            SplitMode::PreviousBefore => series.pattern().previous_before(self.instant, range),
            SplitMode::ClosestTo => series.pattern().closest_to(self.instant, range),
        };
        assert(is_cutoff(series@, self@, d));
        match d {
            Some(c) => Ok(c),
            None => {
                let mut m = String::new();
                match self.mode {
                    SplitMode::At => {
                        m.append(datetime_text(&self.instant).as_str());
                        m.append(" not within series range");
                    },
                    SplitMode::NextAfter => {
                        m.append("no series event after ");
                        m.append(datetime_text(&self.instant).as_str());
                    },
                    SplitMode::PreviousBefore => {
                        m.append("no series event before ");
                        m.append(datetime_text(&self.instant).as_str());
                    },
                    SplitMode::ClosestTo => {
                        m.append("no series event close to ");
                        m.append(datetime_text(&self.instant).as_str());
                    },
                }
                Err(Error::adhoc(m))
            },
        }
    }

    /// Splits off the part of `series` after the cutoff point, which is returned; `series` keeps
    /// the part before it.
    pub(crate) fn split_off<P: Pattern>(self, series: &mut Series<P>) -> (r: Result<Series<P>, Error>)
        requires
            old(series).inv(),
            self@.instant.wf(),
        ensures
            final(series).inv(),
            exists|d: Option<DateTime>|
                {
                    &&& #[trigger] is_cutoff(old(series)@, self@, d)
                    &&& match d {
                        Some(c) => split_at(old(series)@, c, *old(series), *final(series), r),
                        None => *final(series) == *old(series) && (r matches Err(e) && e.is_adhoc(
                            cutoff_error_text(self@),
                        )),
                    }
                },
    {
        let cutoff = match self.find_cutoff_point(series) {
            Ok(c) => c,
            Err(e) => return Err(e),
        };
        let left = match series.with().end(cutoff).build() {
            Ok(s) => s,
            Err(e) => return Err(e),
        };
        let fixpoint = series.fixpoint();
        let right = match series.with().start(cutoff).fixpoint(fixpoint).build() {
            Ok(s) => s,
            Err(e) => return Err(e),
        };
        *series = left;
        Ok(right)
    }
}

impl From<DateTime> for SeriesSplit {
    /// Options for splitting a series exactly at `instant`.
    fn from(instant: DateTime) -> (r: SeriesSplit) {
        SeriesSplit { instant, mode: SplitMode::At }
    }
}

impl vstd::std_specs::convert::FromSpecImpl<DateTime> for SeriesSplit {
    open spec fn obeys_from_spec() -> bool {
        true
    }

    closed spec fn from_spec(instant: DateTime) -> SeriesSplit {
        SeriesSplit { instant, mode: SplitMode::At }
    }
}

} // verus!
