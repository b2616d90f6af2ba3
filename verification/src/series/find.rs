//! Finding single events of a series.
use crate::civil::DateTime;
use crate::event::Event;
use crate::series::Series;
use crate::Pattern;
use vstd::prelude::*;

verus! {

/// How [`Series::find`] looks for an event.
#[derive(Debug, Clone, Copy, PartialEq, Eq, Structural)]
pub enum FindMode {
    /// Find an event at an exact instant.
    At,
    /// Find the next event after an instant.
    NextAfter,
    /// Find the previous event before an instant.
    PreviousBefore,
    /// Find the event closest to an instant.
    ClosestTo,
    /// Find the event containing an instant.
    Containing,
}

impl Default for FindMode {
    /// Finding the next event after the instant.
    fn default() -> (r: FindMode)
        ensures
            r == FindMode::NextAfter,
    {
        FindMode::NextAfter
    }
}

/// Options for [`Series::find`]: an instant and a [`FindMode`].
#[derive(Debug, Clone, Copy)]
pub struct SeriesFind {
    instant: DateTime,
    mode: FindMode,
}

/// The mathematical model of [`SeriesFind`] options.
pub struct SeriesFindView {
    /// The instant at or around which to look.
    pub instant: DateTime,
    /// What to look for.
    pub mode: FindMode,
}

impl View for SeriesFind {
    type V = SeriesFindView;

    closed spec fn view(&self) -> SeriesFindView {
        SeriesFindView { instant: self.instant, mode: self.mode }
    }
}

/// `r` is what finding with `options` in `series` gives.
pub open spec fn is_found<P: Pattern>(series: Series<P>, options: SeriesFindView, r: Option<Event>) -> bool {
    match options.mode {
        FindMode::At => series.is_event_at(options.instant, r),
        FindMode::NextAfter => series.is_next_event(options.instant, r),
        FindMode::PreviousBefore => series.is_previous_event(options.instant, r),
        FindMode::ClosestTo => series.is_closest_event(options.instant, r),
        FindMode::Containing => series.is_containing_event(options.instant, r),
    }
}

impl SeriesFind {
    /// Options for finding the next event after `instant`.
    pub fn new(instant: DateTime) -> (r: SeriesFind)
        ensures
            r@ == (SeriesFindView { instant, mode: FindMode::NextAfter }),
    {
        SeriesFind { instant, mode: FindMode::NextAfter }
    }

    /// Sets the find mode.
    pub fn mode(self, mode: FindMode) -> (r: SeriesFind)
        ensures
            r@ == (SeriesFindView { mode, ..self@ }),
    {
        SeriesFind { instant: self.instant, mode }
    }

    /// Finds an event of `series` according to these options.
    pub(crate) fn find<P: Pattern>(self, series: &Series<P>) -> (r: Option<Event>)
        requires
            series.inv(),
            self@.instant.wf(),
        ensures
            is_found(*series, self@, r),
    {
        match self.mode {
            FindMode::At => series.get(self.instant),
            FindMode::NextAfter => series.get_next_after(self.instant),
            FindMode::PreviousBefore => series.get_previous_before(self.instant),
            FindMode::ClosestTo => series.get_closest_to(self.instant),
            FindMode::Containing => series.get_containing(self.instant),
        }
    }
}

impl From<DateTime> for SeriesFind {
    /// Options for finding the next event after `instant`.
    fn from(instant: DateTime) -> (r: SeriesFind) {
        SeriesFind { instant, mode: FindMode::NextAfter }
    }
}

impl vstd::std_specs::convert::FromSpecImpl<DateTime> for SeriesFind {
    open spec fn obeys_from_spec() -> bool {
        true
    }

    closed spec fn from_spec(instant: DateTime) -> SeriesFind {
        SeriesFind { instant, mode: FindMode::NextAfter }
    }
}

} // verus!
