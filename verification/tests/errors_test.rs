use recurring::pattern::{daily, Cron, Interval};
use recurring::{date, Bound, Event, Series, Span};

#[test]
fn event_errors() {
    let start = date(2025, 1, 1).at(0, 0, 0, 0);

    assert_eq!(
        Event::try_new(start, start).unwrap_err().to_string(),
        "event end must be greater than start but got event range 2025-01-01T00:00:00..2025-01-01T00:00:00",
    );
}

#[test]
fn series_errors() {
    let start = date(2025, 1, 1).at(0, 0, 0, 0);

    assert_eq!(
        Series::try_new(start..start, daily(1)).unwrap_err().to_string(),
        "series end must be greater than start but got series range 2025-01-01T00:00:00..2025-01-01T00:00:00",
    );

    assert_eq!(
        Series::new((Bound::Included(start), Bound::Unbounded), daily(1))
            .with()
            .event_duration(Span::new().seconds(1).negate())
            .build()
            .unwrap_err()
            .to_string(),
        "event duration must be positive or zero but got -PT1S",
    );

    assert_eq!(
        Series::new((Bound::Included(start), Bound::Unbounded), daily(1))
            .with()
            .end(start)
            .build()
            .unwrap_err()
            .to_string(),
        "series end must be greater than start but got series range 2025-01-01T00:00:00..2025-01-01T00:00:00",
    );
}

#[test]
fn interval_errors() {
    assert_eq!(
        Interval::try_new(Span::new().seconds(0)).unwrap_err().to_string(),
        "interval must be positive, non-zero and must not include sub-second units but got PT0S",
    );

    assert_eq!(
        Interval::try_new(Span::new().seconds(1).nanoseconds(10)).unwrap_err().to_string(),
        "interval must be positive, non-zero and must not include sub-second units but got PT1.00000001S",
    );
}

#[test]
fn cron_errors() {
    assert_eq!(
        Cron::new().try_second(-10).unwrap_err().to_string(),
        "parameter with value -10 is not in the required range of 0..=59",
    );

    assert_eq!(
        Cron::new().try_years(&[2025, 10000]).unwrap_err().to_string(),
        "parameter with value 10000 is not in the required range of -9999..=9999",
    );
}

#[test]
fn fixpoint_after_start_error() {
    let start = date(2025, 1, 1).at(0, 0, 0, 0);
    let later = date(2025, 1, 1).at(0, 0, 0, 1);
    let series = Series::new((Bound::Included(start), Bound::Unbounded), daily(1));
    assert!(series.with().fixpoint(start).build().is_ok());
    assert_eq!(
        series.with().fixpoint(later).build().unwrap_err().to_string(),
        "fixpoint (2025-01-01T00:00:00.000000001) must be less than or equal to range start (2025-01-01T00:00:00)",
    );
}

#[test]
fn unrepresentable_bound_error() {
    let max = recurring::DateTime::max_value();
    let err = Series::try_new((Bound::Excluded(max), Bound::Unbounded), daily(1)).unwrap_err();
    assert!(!err.to_string().is_empty());
    let err = Series::try_new((Bound::Unbounded, Bound::Included(max)), daily(1)).unwrap_err();
    assert!(!err.to_string().is_empty());
}
