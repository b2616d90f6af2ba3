use recurring::pattern::{daily, hourly, yearly};
use recurring::series::{FindMode, SeriesFind, SeriesSplit, SplitMode};
use recurring::{date, datetime, time, Bound, Combine, DateTime, Event, Pattern, Series, Span};

fn series_jiff(d: DateTime) -> jiff::civil::DateTime {
    jiff::civil::datetime(d.year, d.month, d.day, d.hour, d.minute, d.second, d.subsec_nanosecond)
}

fn series_jiff_span(s: Span) -> jiff::Span {
    jiff::Span::new()
        .years(s.years)
        .months(s.months)
        .weeks(s.weeks)
        .days(s.days)
        .hours(s.hours)
        .minutes(s.minutes)
        .seconds(s.seconds)
        .milliseconds(s.milliseconds)
        .microseconds(s.microseconds)
        .nanoseconds(s.nanoseconds)
}

fn series_plus(d: DateTime, s: Span) -> DateTime {
    let x = series_jiff(d).checked_add(series_jiff_span(s)).unwrap();
    recurring::datetime(x.year(), x.month(), x.day(), x.hour(), x.minute(), x.second(), x.subsec_nanosecond())
}

fn series_minus(d: DateTime, s: Span) -> DateTime {
    series_plus(d, s.negate())
}

fn from(start: DateTime) -> (Bound, Bound) {
    (Bound::Included(start), Bound::Unbounded)
}

fn series_take<P: Pattern>(range: (Bound, Bound), pattern: P, take: usize) -> Vec<Event> {
    let series = Series::new(range, pattern);
    let mut iter = series.iter();
    let mut events = Vec::new();
    while events.len() < take {
        match iter.next() {
            Some(e) => events.push(e),
            None => break,
        }
    }
    events
}

fn series_full<P: Pattern>(range: (Bound, Bound), pattern: P) -> Vec<Event> {
    series_take(range, pattern, usize::MAX)
}

#[test]
fn series_range() {
    let series = Series::new((Bound::Unbounded, Bound::Unbounded), daily(1));
    assert_eq!(series.start(), DateTime::min_value());
    assert_eq!(series.end(), DateTime::max_value());

    let start = date(2025, 1, 1).at(0, 0, 0, 0);
    let end = date(2025, 2, 1).at(0, 0, 0, 0);

    let series = Series::new(start..end, daily(1));
    assert_eq!(series.start(), start);
    assert_eq!(series.end(), end);

    let series = Series::new((Bound::Unbounded, Bound::Included(end)), daily(1));
    assert_eq!(series.start(), DateTime::min_value());
    assert_eq!(series.end(), series_plus(end, Span::new().nanoseconds(1)));
}

#[test]
fn series_iter() {
    let start = date(2025, 1, 1).at(0, 0, 0, 0);
    let end = date(2025, 1, 2).at(0, 0, 0, 0);

    let series = Series::new(start..end, hourly(6));
    let mut iter = series.iter();

    assert_eq!(iter.next(), Some(Event::at(start)));
    assert_eq!(iter.next_back(), Some(Event::at(series_minus(end, Span::new().hours(6)))));
    assert_eq!(iter.next(), Some(Event::at(series_plus(start, Span::new().hours(6)))));
    assert_eq!(iter.next(), Some(Event::at(series_plus(start, Span::new().hours(12)))));
    assert_eq!(iter.next_back(), Some(Event::at(series_minus(end, Span::new().hours(12)))));
    assert_eq!(iter.next(), Some(Event::at(series_minus(end, Span::new().hours(6)))));
    assert_eq!(iter.next(), None);
    assert_eq!(iter.next_back(), Some(Event::at(series_plus(start, Span::new().hours(6)))));
    assert_eq!(iter.next_back(), Some(Event::at(start)));
    assert_eq!(iter.next_back(), None);
    assert_eq!(iter.next(), None);
    assert_eq!(iter.next_back(), None);
}

#[test]
fn series_daily() {
    let start = datetime(2025, 1, 1, 1, 1, 1, 0);

    assert_eq!(
        series_take(from(start), daily(2), 5),
        vec![
            Event::at(datetime(2025, 1, 1, 1, 1, 1, 0)),
            Event::at(datetime(2025, 1, 3, 1, 1, 1, 0)),
            Event::at(datetime(2025, 1, 5, 1, 1, 1, 0)),
            Event::at(datetime(2025, 1, 7, 1, 1, 1, 0)),
            Event::at(datetime(2025, 1, 9, 1, 1, 1, 0)),
        ]
    );
}

#[test]
fn series_daily_at() {
    let start = datetime(2025, 1, 1, 1, 1, 1, 0);

    assert_eq!(
        series_take(
            from(start),
            daily(2).at(time(2, 2, 2, 2)).and(daily(2).at(time(3, 3, 3, 3))),
            5
        ),
        vec![
            Event::at(datetime(2025, 1, 1, 2, 2, 2, 2)),
            Event::at(datetime(2025, 1, 1, 3, 3, 3, 3)),
            Event::at(datetime(2025, 1, 3, 2, 2, 2, 2)),
            Event::at(datetime(2025, 1, 3, 3, 3, 3, 3)),
            Event::at(datetime(2025, 1, 5, 2, 2, 2, 2)),
        ]
    );
}

#[test]
fn series_daily_with_end() {
    let start = datetime(2025, 1, 1, 1, 1, 1, 0);
    let end = datetime(2025, 1, 5, 1, 1, 1, 0);

    assert_eq!(
        series_full((Bound::Included(start), Bound::Excluded(end)), daily(2)),
        vec![
            Event::at(datetime(2025, 1, 1, 1, 1, 1, 0)),
            Event::at(datetime(2025, 1, 3, 1, 1, 1, 0)),
        ]
    );
}

#[test]
fn series_daily_with_end_and_duration() {
    let start = datetime(2025, 1, 1, 1, 1, 1, 0);
    let end = datetime(2025, 1, 5, 1, 1, 1, 0);
    let series = Series::new(start..end, daily(2))
        .with()
        .event_duration(Span::new().hours(1))
        .build()
        .unwrap();

    let mut events = Vec::new();
    let mut iter = series.iter();
    while let Some(e) = iter.next() {
        events.push(e);
    }
    let expected = vec![
        Event::new(datetime(2025, 1, 1, 1, 1, 1, 0), datetime(2025, 1, 1, 2, 1, 1, 0)),
        Event::new(datetime(2025, 1, 3, 1, 1, 1, 0), datetime(2025, 1, 3, 2, 1, 1, 0)),
    ];
    assert_eq!(events, expected);
}

#[test]
fn series_contains_event() {
    let start = datetime(2025, 1, 1, 1, 1, 1, 0);
    let series = Series::new(
        from(start),
        daily(2).at(time(2, 2, 2, 2)).and(daily(2).at(time(3, 3, 3, 3))),
    );
    assert!(!series.contains(datetime(2025, 1, 1, 1, 1, 1, 0)));
    assert!(series.contains(datetime(2025, 1, 1, 2, 2, 2, 2)));
    assert!(series.contains(datetime(2025, 1, 1, 3, 3, 3, 3)));
    assert!(!series.contains(datetime(2025, 1, 1, 2, 2, 2, 3)));
    assert!(!series.contains(datetime(2025, 1, 1, 3, 3, 3, 2)));
}

#[test]
fn series_relative_events() {
    let start = datetime(2025, 1, 1, 1, 1, 1, 0);
    let end = datetime(2025, 1, 3, 1, 1, 1, 0);
    let series = Series::new(
        start..end,
        daily(2).at(time(2, 2, 2, 2)).and(daily(2).at(time(3, 3, 3, 3))),
    );
    assert_eq!(series.get(datetime(2025, 1, 1, 1, 1, 1, 0)), None);
    assert_eq!(
        series.get(datetime(2025, 1, 1, 2, 2, 2, 2)),
        Some(Event::at(datetime(2025, 1, 1, 2, 2, 2, 2)))
    );

    assert_eq!(
        series.get_next_after(datetime(2025, 1, 1, 2, 2, 2, 2)),
        Some(Event::at(datetime(2025, 1, 1, 3, 3, 3, 3)))
    );

    assert_eq!(series.get_previous_before(datetime(2025, 1, 1, 2, 2, 2, 2)), None);

    assert_eq!(
        series.get_previous_before(datetime(2025, 1, 1, 3, 3, 3, 3)),
        Some(Event::at(datetime(2025, 1, 1, 2, 2, 2, 2))),
    );
}

#[test]
fn series_get_event_containing() {
    let start = datetime(2025, 1, 1, 1, 1, 1, 0);
    let end = datetime(2025, 1, 3, 1, 1, 1, 0);
    let series = Series::new(start..end, daily(2).at(time(2, 2, 2, 2)));
    assert_eq!(series.get_containing(datetime(2025, 1, 1, 1, 1, 1, 0)), None);
    assert_eq!(
        series.get_containing(datetime(2025, 1, 1, 2, 2, 2, 2)),
        Some(Event::at(datetime(2025, 1, 1, 2, 2, 2, 2)))
    );
    assert_eq!(series.get_containing(datetime(2025, 1, 1, 2, 2, 2, 3)), None);

    let series = Series::new(start..end, daily(2).at(time(2, 2, 2, 2)))
        .with()
        .event_duration(Span::new().hours(1))
        .build()
        .unwrap();

    assert_eq!(
        series.get_containing(datetime(2025, 1, 1, 2, 2, 2, 3)),
        Some(Event::new(datetime(2025, 1, 1, 2, 2, 2, 2), datetime(2025, 1, 1, 3, 2, 2, 2)))
    );

    assert_eq!(
        series.get_containing(datetime(2025, 1, 1, 3, 2, 2, 1)),
        Some(Event::new(datetime(2025, 1, 1, 2, 2, 2, 2), datetime(2025, 1, 1, 3, 2, 2, 2)))
    );

    assert_eq!(series.get_containing(datetime(2025, 1, 1, 3, 2, 2, 2)), None);
}

#[test]
fn series_first_event() {
    let start = datetime(2025, 1, 1, 1, 1, 1, 0);
    let end = datetime(2025, 1, 3, 1, 1, 1, 0);
    let series = Series::new(start..end, daily(2).at(time(2, 2, 2, 2)));
    assert_eq!(series.first(), Some(Event::at(datetime(2025, 1, 1, 2, 2, 2, 2))));
}

#[test]
fn series_last_event() {
    let start = datetime(2025, 1, 1, 1, 1, 1, 0);
    let end = datetime(2025, 1, 10, 1, 1, 1, 0);
    let series = Series::new(start..end, daily(2).at(time(2, 2, 2, 2)));
    assert_eq!(series.last(), Some(Event::at(datetime(2025, 1, 9, 2, 2, 2, 2))));

    let series = Series::new(from(start), daily(2).at(time(2, 2, 2, 2)));
    assert_eq!(series.last(), Some(Event::at(datetime(9999, 12, 30, 2, 2, 2, 2))));
}

#[test]
fn series_last_event_unbounded() {
    let start = date(2025, 1, 1).at(1, 1, 1, 0);
    let series = Series::new(from(start), hourly(2));
    assert_eq!(series.last(), Some(Event::at(date(9999, 12, 31).at(23, 1, 1, 0))));
}

#[test]
fn series_get_closest_event() {
    let start = datetime(2025, 1, 1, 0, 0, 0, 0);
    let series = Series::new(from(start), hourly(1));

    assert_eq!(
        series.get_closest_to(datetime(2024, 12, 31, 0, 0, 0, 0)),
        Some(Event::at(datetime(2025, 1, 1, 0, 0, 0, 0)))
    );
    assert_eq!(
        series.get_closest_to(datetime(2025, 1, 1, 0, 0, 0, 0)),
        Some(Event::at(datetime(2025, 1, 1, 0, 0, 0, 0)))
    );
    assert_eq!(
        series.get_closest_to(datetime(2025, 1, 1, 0, 29, 0, 999)),
        Some(Event::at(datetime(2025, 1, 1, 0, 0, 0, 0)))
    );
    assert_eq!(
        series.get_closest_to(datetime(2025, 1, 1, 0, 30, 0, 0)),
        Some(Event::at(datetime(2025, 1, 1, 1, 0, 0, 0)))
    );
    assert_eq!(
        series.get_closest_to(DateTime::min_value()),
        Some(Event::at(datetime(2025, 1, 1, 0, 0, 0, 0)))
    );
    assert_eq!(
        series.get_closest_to(DateTime::max_value()),
        Some(Event::at(datetime(9999, 12, 31, 23, 0, 0, 0)))
    );
}

#[test]
fn series_overlapping_last_event() {
    let start = date(2025, 1, 1).at(0, 0, 0, 0);
    let end = date(2025, 2, 1).at(0, 0, 0, 0);
    let series = Series::new(start..end, daily(1))
        .with()
        .event_duration(Span::new().hours(50))
        .build()
        .unwrap();

    assert_eq!(series.end(), date(2025, 1, 29).at(22, 0, 0, 0));
    assert_eq!(
        series.last(),
        Some(Event::new(date(2025, 1, 29).at(0, 0, 0, 0), date(2025, 1, 31).at(2, 0, 0, 0)))
    );
}

#[test]
fn series_event_durations() {
    let start = date(2025, 1, 1).at(0, 0, 0, 0);
    let end = date(2025, 2, 1).at(0, 0, 0, 0);
    let series = Series::new(start..end, daily(1));

    assert!(series
        .clone()
        .with()
        .event_duration(Span::new().days(30).hours(23).minutes(59).seconds(59).nanoseconds(999))
        .build()
        .is_ok());

    assert!(series.clone().with().event_duration(Span::new().months(1)).build().is_err());

    assert!(series.clone().with().event_duration(Span::new().years(1)).build().is_err());
}

#[test]
fn series_leap_year() {
    let start = date(2024, 1, 1).at(0, 0, 0, 0);

    assert_eq!(
        series_take(from(start), yearly(1), 5),
        vec![
            Event::at(date(2024, 1, 1).at(0, 0, 0, 0)),
            Event::at(date(2025, 1, 1).at(0, 0, 0, 0)),
            Event::at(date(2026, 1, 1).at(0, 0, 0, 0)),
            Event::at(date(2027, 1, 1).at(0, 0, 0, 0)),
            Event::at(date(2028, 1, 1).at(0, 0, 0, 0)),
        ]
    );
}

#[test]
fn series_split_off_at_instant() {
    let start = date(2025, 1, 1).at(0, 0, 0, 0);
    let mut s1 = Series::new(from(start), hourly(1));
    let cutoff = date(2025, 4, 1).at(12, 34, 56, 0);
    let s2 = s1.split_off(SeriesSplit::new(cutoff)).unwrap();
    assert_eq!(s2.first(), Some(Event::at(date(2025, 4, 1).at(13, 0, 0, 0))));
    assert_eq!(s1.end(), cutoff);
    assert_eq!(s2.start(), cutoff);
    assert_eq!(s2.fixpoint(), start);
}

#[test]
fn series_split_off_next_after() {
    let start = date(2025, 1, 1).at(0, 0, 0, 0);
    let mut s1 = Series::new(from(start), hourly(1));
    let instant = date(2025, 4, 1).at(12, 34, 56, 0);
    let s2 = s1.split_off(SeriesSplit::new(instant).mode(SplitMode::NextAfter)).unwrap();
    assert_eq!(s2.first(), Some(Event::at(date(2025, 4, 1).at(13, 0, 0, 0))));
    assert_eq!(s1.end(), date(2025, 4, 1).at(13, 0, 0, 0));
}

#[test]
fn series_split_off_closest_to() {
    let start = date(2025, 1, 1).at(0, 0, 0, 0);
    let mut s1 = Series::new(from(start), hourly(1));
    let instant = date(2025, 4, 1).at(12, 34, 56, 0);
    let s2 = s1.split_off(SeriesSplit::new(instant).mode(SplitMode::ClosestTo)).unwrap();
    assert_eq!(s1.end(), date(2025, 4, 1).at(13, 0, 0, 0));
    assert_eq!(s2.start(), date(2025, 4, 1).at(13, 0, 0, 0));
}

#[test]
fn series_split_off_failure_leaves_series_unchanged() {
    let start = date(2025, 1, 1).at(0, 0, 0, 0);
    let end = date(2025, 1, 2).at(0, 0, 0, 0);
    let mut s1 = Series::new(start..end, hourly(1));
    let outside = date(2025, 2, 1).at(0, 0, 0, 0);
    let err = s1.split_off(SeriesSplit::new(outside)).unwrap_err();
    assert_eq!(err.to_string(), "2025-02-01T00:00:00 not within series range");
    assert_eq!(s1.start(), start);
    assert_eq!(s1.end(), end);

    let err = s1.split_off(SeriesSplit::new(start)).unwrap_err();
    assert_eq!(
        err.to_string(),
        "series end must be greater than start but got series range 2025-01-01T00:00:00..2025-01-01T00:00:00"
    );
    assert_eq!(s1.end(), end);

    let late = date(2025, 1, 1).at(23, 30, 0, 0);
    let err = s1.split_off(SeriesSplit::new(late).mode(SplitMode::NextAfter)).unwrap_err();
    assert_eq!(err.to_string(), "no series event after 2025-01-01T23:30:00");
}

#[test]
fn series_with_fixpoint_shifts_events() {
    let start = date(2025, 1, 1).at(0, 0, 0, 0);
    let fixpoint = date(2024, 12, 31).at(12, 34, 56, 0);
    let series = Series::new(from(start), daily(1)).with().fixpoint(fixpoint).build().unwrap();
    assert_eq!(series.first(), Some(Event::at(date(2025, 1, 1).at(12, 34, 56, 0))));
    assert_eq!(series.fixpoint(), fixpoint);
}

#[test]
fn series_sub_range_iteration() {
    let series = Series::new(from(date(2025, 1, 1).at(0, 0, 0, 0)), hourly(2));
    let range = date(2026, 1, 1).at(12, 34, 56, 0)..date(2027, 1, 1).at(12, 34, 56, 0);
    let mut iter = series.range(range);
    assert_eq!(iter.next(), Some(Event::at(date(2026, 1, 1).at(14, 0, 0, 0))));
    assert_eq!(iter.next(), Some(Event::at(date(2026, 1, 1).at(16, 0, 0, 0))));
    assert_eq!(iter.next_back(), Some(Event::at(date(2027, 1, 1).at(12, 0, 0, 0))));
    assert_eq!(iter.next_back(), Some(Event::at(date(2027, 1, 1).at(10, 0, 0, 0))));

    let before = date(2020, 1, 1).at(0, 0, 0, 0)..date(2021, 1, 1).at(0, 0, 0, 0);
    assert!(series.try_range(before).is_err());
}

#[test]
fn series_rebuild_keeps_range() {
    let start = date(2025, 1, 1).at(0, 0, 0, 0);
    let end = date(2025, 3, 1).at(0, 0, 0, 0);
    let series = Series::new(start..end, daily(3));
    let rebuilt = series.with().build().unwrap();
    assert_eq!(rebuilt.start(), series.start());
    assert_eq!(rebuilt.end(), series.end());
    assert_eq!(rebuilt.fixpoint(), series.fixpoint());
}

#[test]
fn series_iter_matches_first_and_last() {
    let start = date(2025, 1, 1).at(5, 0, 0, 0);
    let end = date(2025, 1, 9).at(0, 0, 0, 0);
    let series = Series::new(start..end, daily(3));
    let mut iter = series.iter();
    assert_eq!(iter.next(), series.first());
    assert_eq!(iter.next_back(), series.last());
    let mut previous = series.first().unwrap().start();
    let mut iter = series.iter();
    iter.next();
    while let Some(e) = iter.next() {
        assert!(previous.is_before(&e.start()));
        previous = e.start();
    }
}

#[test]
fn series_find_modes() {
    let start = date(2025, 1, 1).at(0, 0, 0, 0);
    let series = Series::new(from(start), hourly(1));
    let instant = date(2025, 4, 1).at(12, 34, 56, 0);
    assert_eq!(
        series.find(SeriesFind::new(instant).mode(FindMode::ClosestTo)),
        Some(Event::at(date(2025, 4, 1).at(13, 0, 0, 0)))
    );
    assert_eq!(
        series.find(SeriesFind::new(instant)),
        Some(Event::at(date(2025, 4, 1).at(13, 0, 0, 0)))
    );
    assert_eq!(
        series.find(SeriesFind::new(instant).mode(FindMode::PreviousBefore)),
        Some(Event::at(date(2025, 4, 1).at(12, 0, 0, 0)))
    );
    assert_eq!(series.find(SeriesFind::new(instant).mode(FindMode::At)), None);
    assert_eq!(series.find(SeriesFind::new(instant).mode(FindMode::Containing)), None);
    let on_the_hour = date(2025, 4, 1).at(12, 0, 0, 0);
    assert_eq!(
        series.find(SeriesFind::new(on_the_hour).mode(FindMode::At)),
        Some(Event::at(on_the_hour))
    );
}

#[test]
fn series_with_pattern_replaces_pattern() {
    let s1 = Series::new(from(date(2025, 1, 1).at(0, 0, 0, 0)), daily(1));
    let s2 = s1.with().pattern(daily(2)).build().unwrap();
    assert!(s2.pattern() == &daily(2));
    assert!(s1.pattern() != &daily(2));
    let s3 = s1.with().event_duration(Span::new().hours(1)).build().unwrap();
    assert_eq!(s3.event_duration(), Span::new().hours(1));
}

#[test]
fn series_split_and_find_from_datetime() {
    let start = date(2025, 1, 1).at(0, 0, 0, 0);
    let series = Series::new(from(start), hourly(1));
    let instant = date(2025, 1, 1).at(3, 30, 0, 0);
    assert_eq!(series.find(SeriesFind::from(instant)), Some(Event::at(date(2025, 1, 1).at(4, 0, 0, 0))));
    let mut s1 = Series::new(from(start), hourly(1));
    let s2 = s1.split_off(SeriesSplit::from(instant)).unwrap();
    assert_eq!(s1.end(), instant);
    assert_eq!(s2.start(), instant);
}

#[test]
fn series_daily_at_counts_from_fixpoint() {
    let s = Series::new(from(date(2025, 1, 2).at(0, 0, 0, 0)), daily(2).at(time(12, 0, 0, 0)))
        .with()
        .fixpoint(date(2025, 1, 1).at(0, 0, 0, 0))
        .build()
        .unwrap();
    assert_eq!(s.first(), Some(Event::at(date(2025, 1, 3).at(12, 0, 0, 0))));
    assert_eq!(
        s.get_next_after(date(2025, 1, 3).at(12, 0, 0, 0)),
        Some(Event::at(date(2025, 1, 5).at(12, 0, 0, 0)))
    );
    assert_eq!(s.get(date(2025, 1, 2).at(12, 0, 0, 0)), None);
}

#[test]
fn series_with_build_gives_series_back() {
    let start = date(2025, 1, 1).at(0, 0, 0, 0);
    let end = date(2025, 2, 1).at(0, 0, 0, 0);
    let s = Series::new(start..end, daily(1))
        .with()
        .event_duration(Span::new().hours(1))
        .build()
        .unwrap();
    assert_eq!(s.end(), date(2025, 1, 31).at(23, 0, 0, 0));
    let s2 = s.with().build().unwrap();
    assert_eq!(s2.start(), s.start());
    assert_eq!(s2.end(), s.end());
    assert_eq!(s2.fixpoint(), s.fixpoint());
    assert_eq!(s2.event_duration(), s.event_duration());

    let mut left = s.clone();
    let cutoff = date(2025, 1, 10).at(0, 0, 0, 0);
    let right = left.split_off(SeriesSplit::new(cutoff)).unwrap();
    assert_eq!(right.start(), cutoff);
    assert_eq!(right.end(), s.end());
    assert_eq!(left.end(), date(2025, 1, 9).at(23, 0, 0, 0));
}
