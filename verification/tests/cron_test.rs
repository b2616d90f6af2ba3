use recurring::pattern::{cron, Cron};
use recurring::{date, Bound, DateTime, DateTimeRange, Event, Pattern, Series, Weekday};

fn cron_take<P: Pattern>(range: (Bound, Bound), pattern: P, take: usize) -> Vec<Event> {
    let series = Series::new(range, pattern);
    let mut iter = series.iter();
    let mut events = Vec::new();
    while events.len() < take {
        match iter.next() {
            Some(e) => events.push(e),
            None => break,
        }
    }
    events
}

fn cron_take_rev<P: Pattern>(range: (Bound, Bound), pattern: P, take: usize) -> Vec<Event> {
    let series = Series::new(range, pattern);
    let mut iter = series.iter();
    let mut events = Vec::new();
    while events.len() < take {
        match iter.next_back() {
            Some(e) => events.push(e),
            None => break,
        }
    }
    events
}

fn full_range() -> DateTimeRange {
    DateTimeRange::new(DateTime::min_value(), DateTime::max_value())
}

#[test]
fn cron_default() {
    let start = date(2025, 1, 1).at(12, 0, 0, 0);

    assert_eq!(
        cron_take((Bound::Included(start), Bound::Unbounded), cron(), 5),
        vec![
            Event::at(date(2025, 1, 1).at(12, 0, 0, 0)),
            Event::at(date(2025, 1, 1).at(12, 0, 1, 0)),
            Event::at(date(2025, 1, 1).at(12, 0, 2, 0)),
            Event::at(date(2025, 1, 1).at(12, 0, 3, 0)),
            Event::at(date(2025, 1, 1).at(12, 0, 4, 0)),
        ]
    );

    assert_eq!(
        cron_take_rev((Bound::Included(start), Bound::Unbounded), cron(), 5),
        vec![
            Event::at(date(9999, 12, 31).at(23, 59, 59, 0)),
            Event::at(date(9999, 12, 31).at(23, 59, 58, 0)),
            Event::at(date(9999, 12, 31).at(23, 59, 57, 0)),
            Event::at(date(9999, 12, 31).at(23, 59, 56, 0)),
            Event::at(date(9999, 12, 31).at(23, 59, 55, 0)),
        ]
    );
}

#[test]
fn cron_daily_at() {
    let start = date(2025, 1, 1).at(12, 0, 0, 0);
    let end = DateTime::max_value();
    let pattern = cron().hours(&[10, 11]).minute(30).second(0);

    assert_eq!(
        cron_take((Bound::Included(start), Bound::Excluded(end)), pattern.clone(), 5),
        vec![
            Event::at(date(2025, 1, 2).at(10, 30, 0, 0)),
            Event::at(date(2025, 1, 2).at(11, 30, 0, 0)),
            Event::at(date(2025, 1, 3).at(10, 30, 0, 0)),
            Event::at(date(2025, 1, 3).at(11, 30, 0, 0)),
            Event::at(date(2025, 1, 4).at(10, 30, 0, 0)),
        ]
    );

    assert_eq!(
        cron_take_rev((Bound::Included(start), Bound::Excluded(end)), pattern, 5),
        vec![
            Event::at(date(9999, 12, 31).at(11, 30, 0, 0)),
            Event::at(date(9999, 12, 31).at(10, 30, 0, 0)),
            Event::at(date(9999, 12, 30).at(11, 30, 0, 0)),
            Event::at(date(9999, 12, 30).at(10, 30, 0, 0)),
            Event::at(date(9999, 12, 29).at(11, 30, 0, 0)),
        ]
    );
}

#[test]
fn cron_weekdays() {
    let start = date(2025, 5, 11).at(12, 0, 0, 0);
    let pattern = cron()
        .weekdays(&[Weekday::Monday, Weekday::Thursday])
        .hour(12)
        .minute(0)
        .second(0);

    assert_eq!(
        cron_take((Bound::Included(start), Bound::Unbounded), pattern.clone(), 5),
        vec![
            Event::at(date(2025, 5, 12).at(12, 0, 0, 0)),
            Event::at(date(2025, 5, 15).at(12, 0, 0, 0)),
            Event::at(date(2025, 5, 19).at(12, 0, 0, 0)),
            Event::at(date(2025, 5, 22).at(12, 0, 0, 0)),
            Event::at(date(2025, 5, 26).at(12, 0, 0, 0)),
        ]
    );

    assert_eq!(
        cron_take_rev((Bound::Included(start), Bound::Unbounded), pattern, 5),
        vec![
            Event::at(date(9999, 12, 30).at(12, 0, 0, 0)),
            Event::at(date(9999, 12, 27).at(12, 0, 0, 0)),
            Event::at(date(9999, 12, 23).at(12, 0, 0, 0)),
            Event::at(date(9999, 12, 20).at(12, 0, 0, 0)),
            Event::at(date(9999, 12, 16).at(12, 0, 0, 0)),
        ]
    );
}

#[test]
fn cron_next_after() {
    let range = full_range();
    let pattern = Cron::new().minute(3).second(5).second(10);

    assert_eq!(
        pattern.next_after(date(2025, 1, 1).at(0, 0, 0, 0), range),
        Some(date(2025, 1, 1).at(0, 3, 5, 0))
    );

    assert_eq!(
        pattern.next_after(date(2025, 1, 1).at(0, 3, 5, 0), range),
        Some(date(2025, 1, 1).at(0, 3, 10, 0))
    );

    assert_eq!(
        pattern.next_after(date(2025, 1, 1).at(0, 3, 10, 0), range),
        Some(date(2025, 1, 1).at(1, 3, 5, 0))
    );
}

#[test]
fn cron_previous_before() {
    let range = full_range();
    let pattern = Cron::new().minute(3).seconds(&[5, 10]);

    assert_eq!(
        pattern.previous_before(date(2025, 1, 1).at(0, 3, 5, 0), range),
        Some(date(2024, 12, 31).at(23, 3, 10, 0))
    );

    assert_eq!(
        pattern.previous_before(date(2024, 12, 31).at(23, 3, 10, 0), range),
        Some(date(2024, 12, 31).at(23, 3, 5, 0))
    );

    assert_eq!(
        pattern.previous_before(date(2024, 12, 31).at(23, 3, 5, 0), range),
        Some(date(2024, 12, 31).at(22, 3, 10, 0))
    );
}

#[test]
fn cron_closest_to() {
    let range = full_range();
    let pattern = Cron::new().hour(1).minute(30).second(0);

    assert_eq!(
        pattern.closest_to(date(2025, 1, 1).at(1, 29, 59, 0), range),
        Some(date(2025, 1, 1).at(1, 30, 0, 0))
    );

    assert_eq!(
        pattern.closest_to(date(2025, 1, 1).at(1, 30, 1, 0), range),
        Some(date(2025, 1, 1).at(1, 30, 0, 0))
    );

    assert_eq!(
        pattern.closest_to(date(2025, 1, 1).at(14, 0, 0, 0), range),
        Some(date(2025, 1, 2).at(1, 30, 0, 0))
    );

    assert_eq!(
        pattern.closest_to(date(2025, 1, 1).at(1, 30, 0, 0), range),
        Some(date(2025, 1, 1).at(1, 30, 0, 0))
    );
}

#[test]
fn cron_closest_to_datetime_max() {
    let range = full_range();
    let pattern = Cron::new().hour(1).minute(30).second(0);

    assert_eq!(
        pattern.closest_to(DateTime::max_value(), range),
        Some(date(9999, 12, 31).at(1, 30, 0, 0))
    );
}

#[test]
fn cron_step_by() {
    let start = date(2025, 5, 11).at(12, 0, 0, 0);
    let pattern = cron().hour_step_by(12, 4).minute_step_by(0, 30).second(0);

    assert_eq!(
        cron_take((Bound::Included(start), Bound::Unbounded), pattern.clone(), 10),
        vec![
            Event::at(date(2025, 5, 11).at(12, 0, 0, 0)),
            Event::at(date(2025, 5, 11).at(12, 30, 0, 0)),
            Event::at(date(2025, 5, 11).at(16, 0, 0, 0)),
            Event::at(date(2025, 5, 11).at(16, 30, 0, 0)),
            Event::at(date(2025, 5, 11).at(20, 0, 0, 0)),
            Event::at(date(2025, 5, 11).at(20, 30, 0, 0)),
            Event::at(date(2025, 5, 12).at(12, 0, 0, 0)),
            Event::at(date(2025, 5, 12).at(12, 30, 0, 0)),
            Event::at(date(2025, 5, 12).at(16, 0, 0, 0)),
            Event::at(date(2025, 5, 12).at(16, 30, 0, 0)),
        ]
    );

    assert_eq!(
        cron_take_rev((Bound::Included(start), Bound::Unbounded), pattern, 10),
        vec![
            Event::at(date(9999, 12, 31).at(20, 30, 0, 0)),
            Event::at(date(9999, 12, 31).at(20, 0, 0, 0)),
            Event::at(date(9999, 12, 31).at(16, 30, 0, 0)),
            Event::at(date(9999, 12, 31).at(16, 0, 0, 0)),
            Event::at(date(9999, 12, 31).at(12, 30, 0, 0)),
            Event::at(date(9999, 12, 31).at(12, 0, 0, 0)),
            Event::at(date(9999, 12, 30).at(20, 30, 0, 0)),
            Event::at(date(9999, 12, 30).at(20, 0, 0, 0)),
            Event::at(date(9999, 12, 30).at(16, 30, 0, 0)),
            Event::at(date(9999, 12, 30).at(16, 0, 0, 0)),
        ]
    );
}

#[test]
fn cron_without_matches_has_no_closest_event() {
    let range = full_range();
    let never = cron().month(2).day(30);
    assert_eq!(never.closest_to(date(2025, 1, 1).at(0, 0, 0, 0), range), None);
    assert_eq!(never.next_after(DateTime::min_value(), range), None);
    assert_eq!(never.previous_before(DateTime::max_value(), range), None);
}

#[test]
fn cron_next_from_before_range_is_first_event() {
    let range = DateTimeRange::new(date(2025, 3, 1).at(0, 0, 0, 0), date(2025, 4, 1).at(0, 0, 0, 0));
    let pattern = cron().day(15).hour(8).minute(0).second(0);
    assert_eq!(
        pattern.next_after(date(2020, 1, 1).at(0, 0, 0, 0), range),
        Some(date(2025, 3, 15).at(8, 0, 0, 0))
    );
}

#[test]
fn cron_step_by_rejects_start_above_maximum() {
    let err = Cron::new().try_month_step_by(13, 1).unwrap_err();
    assert_eq!(err.to_string(), "parameter with value 13 is not in the required range of 1..=12");
    assert!(Cron::new().try_second_step_by(60, 1).is_err());
    assert!(Cron::new().try_hour_step_by(24, 2).is_err());
    assert!(Cron::new().try_day_step_by(32, 2).is_err());
    assert!(Cron::new().try_minute_step_by(60, 2).is_err());
    assert!(Cron::new().try_year_step_by(10000, 2).is_err());
    assert!(Cron::new().try_month_step_by(12, 5).is_ok());
}

#[test]
fn cron_repeated_choices_equal_lists() {
    let start = date(2025, 1, 1).at(0, 0, 0, 0);
    let a = cron().hour(10).hour(20).minute(30).second(0);
    let b = cron().hours(&[10, 20]).minute(30).second(0);
    assert_eq!(
        cron_take((Bound::Included(start), Bound::Unbounded), a, 6),
        cron_take((Bound::Included(start), Bound::Unbounded), b, 6)
    );
    let c = cron().minute_step_by(0, 30).second(0);
    let d = cron().minutes(&[0, 30]).second(0);
    assert_eq!(
        cron_take((Bound::Included(start), Bound::Unbounded), c, 6),
        cron_take((Bound::Included(start), Bound::Unbounded), d, 6)
    );
    let e = Cron::new().minute(3).seconds(&[5, 10]);
    let f = Cron::new().minute(3).second(5).second(10);
    assert_eq!(
        cron_take((Bound::Included(start), Bound::Unbounded), e, 4),
        cron_take((Bound::Included(start), Bound::Unbounded), f, 4)
    );
}
