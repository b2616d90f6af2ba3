use recurring::{date, Event, Span};

#[test]
fn event_end_before_start() {
    let start = date(2025, 1, 2).at(0, 0, 0, 0);
    let end = date(2025, 1, 1).at(0, 0, 0, 0);
    assert!(Event::try_new(start, end).is_err());
}

#[test]
fn event_display() {
    assert_eq!(
        Event::at(date(2025, 1, 1).at(0, 0, 0, 0)).to_string(),
        "2025-01-01T00:00:00"
    );
    assert_eq!(
        Event::new(
            date(2025, 1, 1).at(0, 0, 0, 0),
            date(2025, 1, 1).at(12, 0, 0, 0)
        )
        .to_string(),
        "2025-01-01T00:00:00 - 2025-01-01T12:00:00"
    );
}

#[test]
fn event_contains_start_but_not_end() {
    let start = date(2025, 1, 1).at(0, 0, 0, 0);
    let end = date(2025, 1, 1).at(12, 0, 0, 0);
    let event = Event::new(start, end);
    assert!(event.contains(start));
    assert!(event.contains(date(2025, 1, 1).at(11, 59, 59, 999_999_999)));
    assert!(!event.contains(end));
    assert!(!event.contains(date(2024, 12, 31).at(23, 59, 59, 999_999_999)));

    let point = Event::at(start);
    assert!(point.contains(start));
    assert!(!point.contains(end));
}

#[test]
fn event_accessors_and_duration() {
    let start = date(2025, 1, 1).at(0, 0, 0, 0);
    let end = date(2025, 1, 2).at(12, 0, 0, 0);
    let event = Event::new(start, end);
    assert_eq!(event.start(), start);
    assert_eq!(event.end(), Some(end));
    assert_eq!(event.duration(), Span::new().days(1).hours(12));
    assert_eq!(Event::at(start).duration(), Span::new());
    assert_eq!(Event::at(start).end(), None);
}

#[test]
fn event_try_new_error_message() {
    let start = date(2025, 1, 1).at(0, 0, 0, 0);
    let err = Event::try_new(start, start).unwrap_err();
    assert_eq!(
        err.to_string(),
        "event end must be greater than start but got event range 2025-01-01T00:00:00..2025-01-01T00:00:00"
    );
    assert_eq!(
        Event::try_new(start, date(2025, 1, 1).at(0, 0, 0, 1)).unwrap(),
        Event::new(start, date(2025, 1, 1).at(0, 0, 0, 1))
    );
}
