use recurring::pattern::hourly;
use recurring::{date, Bound, Event, ToSeries};

#[test]
fn event_to_series_keeps_duration() {
    let d = date(2025, 1, 1);
    let event = Event::new(d.at(0, 0, 0, 0), d.at(0, 30, 0, 0));
    let series = event.to_series(hourly(2)).unwrap();
    let mut events = series.iter();
    assert_eq!(events.next(), Some(Event::new(d.at(0, 0, 0, 0), d.at(0, 30, 0, 0))));
    assert_eq!(events.next(), Some(Event::new(d.at(2, 0, 0, 0), d.at(2, 30, 0, 0))));
}

#[test]
fn datetime_and_date_to_series() {
    let series = date(2025, 1, 1).at(0, 0, 0, 0).to_series(hourly(2)).unwrap();
    let mut events = series.iter();
    assert_eq!(events.next(), Some(Event::at(date(2025, 1, 1).at(0, 0, 0, 0))));
    assert_eq!(events.next(), Some(Event::at(date(2025, 1, 1).at(2, 0, 0, 0))));

    let series = date(2025, 1, 1).to_series(hourly(2)).unwrap();
    let mut events = series.iter();
    assert_eq!(events.next(), Some(Event::at(date(2025, 1, 1).at(0, 0, 0, 0))));
    assert_eq!(events.next(), Some(Event::at(date(2025, 1, 1).at(2, 0, 0, 0))));
}

#[test]
fn ranges_to_series() {
    let start = date(2025, 1, 1).at(0, 0, 0, 0);
    let end = date(2025, 1, 1).at(4, 0, 0, 0);

    let series = (start..end).to_series(hourly(2)).unwrap();
    let mut events = series.iter();
    assert_eq!(events.next(), Some(Event::at(date(2025, 1, 1).at(0, 0, 0, 0))));
    assert_eq!(events.next(), Some(Event::at(date(2025, 1, 1).at(2, 0, 0, 0))));
    assert_eq!(events.next(), None);

    let series = (Bound::Included(start), Bound::Included(end)).to_series(hourly(2)).unwrap();
    let mut events = series.iter();
    assert_eq!(events.next(), Some(Event::at(date(2025, 1, 1).at(0, 0, 0, 0))));
    assert_eq!(events.next(), Some(Event::at(date(2025, 1, 1).at(2, 0, 0, 0))));
    assert_eq!(events.next(), Some(Event::at(date(2025, 1, 1).at(4, 0, 0, 0))));
    assert_eq!(events.next(), None);

    let series = (Bound::Unbounded, Bound::Included(end)).to_series(hourly(2)).unwrap();
    let mut events = series.iter();
    assert_eq!(events.next(), Some(Event::at(date(-9999, 1, 1).at(0, 0, 0, 0))));
    assert_eq!(events.next(), Some(Event::at(date(-9999, 1, 1).at(2, 0, 0, 0))));
}

#[test]
fn full_range_to_series() {
    let series = (..).to_series(hourly(2)).unwrap();
    assert_eq!(series.start(), recurring::DateTime::min_value());
    assert_eq!(series.end(), recurring::DateTime::max_value());
}
