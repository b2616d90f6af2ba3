use recurring::pattern::{cron, hourly};
use recurring::{date, Bound, Combine, DateTime, DateTimeRange, Event, Pattern, Series};

fn combined_take<P: Pattern>(range: (Bound, Bound), pattern: P, take: usize) -> Vec<Event> {
    let series = Series::new(range, pattern);
    let mut iter = series.iter();
    let mut events = Vec::new();
    while events.len() < take {
        match iter.next() {
            Some(e) => events.push(e),
            None => break,
        }
    }
    events
}

fn combined_take_rev<P: Pattern>(range: (Bound, Bound), pattern: P, take: usize) -> Vec<Event> {
    let series = Series::new(range, pattern);
    let mut iter = series.iter();
    let mut events = Vec::new();
    while events.len() < take {
        match iter.next_back() {
            Some(e) => events.push(e),
            None => break,
        }
    }
    events
}

#[test]
fn combined() {
    let start = date(2025, 1, 1).at(12, 0, 0, 0);
    let end = date(2025, 12, 31).at(23, 59, 59, 0);
    let pattern = cron()
        .hour(10)
        .minute(30)
        .second(0)
        .and(cron().hour(12).minute(45).second(30))
        .and(hourly(6));

    assert_eq!(
        combined_take((Bound::Included(start), Bound::Excluded(end)), pattern.clone(), 10),
        vec![
            Event::at(date(2025, 1, 1).at(12, 0, 0, 0)),
            Event::at(date(2025, 1, 1).at(12, 45, 30, 0)),
            Event::at(date(2025, 1, 1).at(18, 0, 0, 0)),
            Event::at(date(2025, 1, 2).at(0, 0, 0, 0)),
            Event::at(date(2025, 1, 2).at(6, 0, 0, 0)),
            Event::at(date(2025, 1, 2).at(10, 30, 0, 0)),
            Event::at(date(2025, 1, 2).at(12, 0, 0, 0)),
            Event::at(date(2025, 1, 2).at(12, 45, 30, 0)),
            Event::at(date(2025, 1, 2).at(18, 0, 0, 0)),
            Event::at(date(2025, 1, 3).at(0, 0, 0, 0)),
        ]
    );

    assert_eq!(
        combined_take_rev((Bound::Included(start), Bound::Excluded(end)), pattern, 10),
        vec![
            Event::at(date(2025, 12, 31).at(18, 0, 0, 0)),
            Event::at(date(2025, 12, 31).at(12, 45, 30, 0)),
            Event::at(date(2025, 12, 31).at(12, 0, 0, 0)),
            Event::at(date(2025, 12, 31).at(10, 30, 0, 0)),
            Event::at(date(2025, 12, 31).at(6, 0, 0, 0)),
            Event::at(date(2025, 12, 31).at(0, 0, 0, 0)),
            Event::at(date(2025, 12, 30).at(18, 0, 0, 0)),
            Event::at(date(2025, 12, 30).at(12, 45, 30, 0)),
            Event::at(date(2025, 12, 30).at(12, 0, 0, 0)),
            Event::at(date(2025, 12, 30).at(10, 30, 0, 0)),
        ]
    );
}

#[test]
fn combined_closest_to() {
    let start = date(2025, 1, 1).at(12, 0, 0, 0);
    let end = date(2025, 12, 31).at(12, 0, 0, 0);
    let range = DateTimeRange::new(start, end);
    let pattern = cron()
        .hour(10)
        .minute(30)
        .second(0)
        .and(cron().hour(12).minute(45).second(30))
        .and(hourly(6));

    assert_eq!(
        pattern.closest_to(date(2024, 12, 31).at(0, 0, 0, 0), range),
        Some(date(2025, 1, 1).at(12, 0, 0, 0)),
    );
    assert_eq!(
        pattern.closest_to(date(2025, 1, 1).at(12, 0, 0, 0), range),
        Some(date(2025, 1, 1).at(12, 0, 0, 0)),
    );
    assert_eq!(
        pattern.closest_to(date(2025, 1, 2).at(8, 14, 59, 0), range),
        Some(date(2025, 1, 2).at(6, 0, 0, 0)),
    );
    assert_eq!(
        pattern.closest_to(date(2025, 1, 2).at(8, 15, 0, 0), range),
        Some(date(2025, 1, 2).at(6, 0, 0, 0)),
    );
    assert_eq!(
        pattern.closest_to(date(2025, 1, 2).at(8, 15, 0, 1), range),
        Some(date(2025, 1, 2).at(10, 30, 0, 0)),
    );
    assert_eq!(
        pattern.closest_to(date(2025, 1, 2).at(8, 15, 1, 0), range),
        Some(date(2025, 1, 2).at(10, 30, 0, 0)),
    );
    assert_eq!(
        pattern.closest_to(DateTime::max_value(), range),
        Some(date(2025, 12, 31).at(10, 30, 0, 0)),
    );
}

#[test]
fn combined_next_and_previous_pick_earliest_and_latest() {
    let range = DateTimeRange::new(date(2025, 1, 1).at(0, 0, 0, 0), date(2025, 1, 2).at(0, 0, 0, 0));
    let pattern = cron().hour(3).minute(0).second(0).and(cron().hour(5).minute(0).second(0));
    let instant = date(2025, 1, 1).at(4, 0, 0, 0);
    assert_eq!(pattern.next_after(instant, range), Some(date(2025, 1, 1).at(5, 0, 0, 0)));
    assert_eq!(pattern.previous_before(instant, range), Some(date(2025, 1, 1).at(3, 0, 0, 0)));
    assert_eq!(
        pattern.next_after(date(2025, 1, 1).at(1, 0, 0, 0), range),
        Some(date(2025, 1, 1).at(3, 0, 0, 0))
    );
    assert_eq!(pattern.next_after(date(2025, 1, 1).at(6, 0, 0, 0), range), None);
}
