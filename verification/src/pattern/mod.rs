//! Patterns for recurring events.
use crate::span::Span;
use vstd::prelude::*;

mod combined;
mod cron;
mod daily;
mod interval;
mod ranged;
pub mod utils;

pub use combined::{lemma_combined_closest_none, lemma_combined_next_and_previous, Combined};
pub use cron::{
    clamp_into,
    every_second,
    is_first_second,
    is_last_second,
    lemma_cron_closest_none,
    lemma_cron_determined,
    lemma_cron_next_from_start,
    lemma_cron_previous_from_end,
    lemma_new_next_after,
    lemma_new_previous_before,
    lemma_new_ticks_every_second,
    lemma_weekday_range,
    pick_closest,
    Cron,
    CronView,
};
pub use ranged::{
    first_outside,
    lemma_stepped_members,
    lemma_two_choices,
    lemma_values_of_empty,
    lemma_values_of_push,
    nth_step,
    stepped,
    unit_allows,
    values_of,
};
pub use daily::{
    adjusted_range,
    closest_search,
    days_span,
    lemma_daily_at_on_grid,
    next_search,
    not_before,
    previous_search,
    Daily,
    DailyView,
    Search,
};
pub use interval::{
    interval_error_text,
    lemma_next_after_on_grid,
    offset_error_text,
    valid_interval,
    Interval,
    IntervalView,
};

verus! {

/// Creates a cron recurrence pattern, which produces events at every second unless further
/// methods restrict it.
pub fn cron() -> (r: Cron)
    ensures
        r.inv(),
        r@ == (CronView {
            years: Set::empty(),
            months: Set::empty(),
            weekdays: Set::empty(),
            days: Set::empty(),
            hours: Set::empty(),
            minutes: Set::empty(),
            seconds: Set::empty(),
        }),
{
    Cron::new()
}

/// Creates a recurrence pattern for events recurring on a fixed, positive interval without
/// sub-second units.
pub fn interval(span: Span) -> (r: Interval)
    requires
        span.wf(),
        valid_interval(span),
    ensures
        r.inv(),
        r@ == (IntervalView { span, offset: None }),
{
    Interval::new(span)
}

/// Creates a recurrence pattern for events recurring every `interval` seconds.
pub fn secondly(interval: i64) -> (r: Interval)
    requires
        0 < interval <= 631_107_417_600,
    ensures
        r.inv(),
        r@ == (IntervalView { span: Span::zero().with_unit(6, interval as int), offset: None }),
{
    Interval::new(Span::new().seconds(interval))
}

/// Creates a recurrence pattern for events recurring every `interval` minutes.
pub fn minutely(interval: i64) -> (r: Interval)
    requires
        0 < interval <= 10_518_456_960,
    ensures
        r.inv(),
        r@ == (IntervalView { span: Span::zero().with_unit(5, interval as int), offset: None }),
{
    Interval::new(Span::new().minutes(interval))
}

/// Creates a recurrence pattern for events recurring every `interval` hours.
pub fn hourly(interval: i64) -> (r: Interval)
    requires
        0 < interval <= 175_307_616,
    ensures
        r.inv(),
        r@ == (IntervalView { span: Span::zero().with_unit(4, interval as int), offset: None }),
{
    Interval::new(Span::new().hours(interval))
}

/// Creates a recurrence pattern for events recurring every `interval` days.
pub fn daily(interval: i64) -> (r: Daily)
    requires
        0 < interval <= 7_304_484,
    ensures
        r.inv(),
        r@.interval@ == (IntervalView { span: days_span(interval as int), offset: None }),
        r@.at is None,
{
    Daily::new(interval)
}

/// Creates a recurrence pattern for events recurring every `interval` months.
pub fn monthly(interval: i64) -> (r: Interval)
    requires
        0 < interval <= 239_976,
    ensures
        r.inv(),
        r@ == (IntervalView { span: Span::zero().with_unit(1, interval as int), offset: None }),
{
    Interval::new(Span::new().months(interval))
}

/// Creates a recurrence pattern for events recurring every `interval` years.
pub fn yearly(interval: i64) -> (r: Interval)
    requires
        0 < interval <= 19_998,
    ensures
        r.inv(),
        r@ == (IntervalView { span: Span::zero().with_unit(0, interval as int), offset: None }),
{
    Interval::new(Span::new().years(interval))
}

} // verus!
