use recurring::pattern::Daily;
use recurring::{date, time, DateTime, DateTimeRange, Pattern, Span};

fn daily_jiff(d: DateTime) -> jiff::civil::DateTime {
    jiff::civil::datetime(d.year, d.month, d.day, d.hour, d.minute, d.second, d.subsec_nanosecond)
}

fn daily_jiff_span(s: Span) -> jiff::Span {
    jiff::Span::new()
        .years(s.years)
        .months(s.months)
        .weeks(s.weeks)
        .days(s.days)
        .hours(s.hours)
        .minutes(s.minutes)
        .seconds(s.seconds)
        .milliseconds(s.milliseconds)
        .microseconds(s.microseconds)
        .nanoseconds(s.nanoseconds)
}

fn daily_plus(d: DateTime, s: Span) -> DateTime {
    let x = daily_jiff(d).checked_add(daily_jiff_span(s)).unwrap();
    recurring::datetime(x.year(), x.month(), x.day(), x.hour(), x.minute(), x.second(), x.subsec_nanosecond())
}

fn daily_minus(d: DateTime, s: Span) -> DateTime {
    daily_plus(d, s.negate())
}

fn january() -> DateTimeRange {
    DateTimeRange::new(date(2025, 1, 1).at(0, 0, 0, 0), date(2025, 2, 1).at(0, 0, 0, 0))
}

#[test]
fn daily_next_after() {
    let range = january();
    let daily = Daily::new(2);
    assert_eq!(
        daily.next_after(DateTime::min_value(), range),
        Some(date(2025, 1, 1).at(0, 0, 0, 0))
    );
    assert_eq!(
        daily.next_after(daily_minus(range.start(), Span::new().nanoseconds(1)), range),
        Some(date(2025, 1, 1).at(0, 0, 0, 0))
    );

    assert_eq!(daily.next_after(range.start(), range), Some(date(2025, 1, 3).at(0, 0, 0, 0)));

    assert_eq!(
        daily.next_after(date(2025, 1, 1).at(0, 30, 0, 0), range),
        Some(date(2025, 1, 3).at(0, 0, 0, 0))
    );

    assert_eq!(
        daily.next_after(daily_minus(range.end(), Span::new().days(1).nanoseconds(1)), range),
        Some(date(2025, 1, 31).at(0, 0, 0, 0))
    );
    assert_eq!(daily.next_after(daily_minus(range.end(), Span::new().days(1)), range), None);
    assert_eq!(daily.next_after(range.end(), range), None);
    assert_eq!(daily.next_after(DateTime::max_value(), range), None);
}

#[test]
fn daily_at_next_after() {
    let range = january();
    let daily = Daily::new(2).at(time(12, 0, 0, 0));
    assert_eq!(
        daily.next_after(DateTime::min_value(), range),
        Some(date(2025, 1, 1).at(12, 0, 0, 0))
    );
    assert_eq!(
        daily.next_after(daily_minus(range.start(), Span::new().nanoseconds(1)), range),
        Some(date(2025, 1, 1).at(12, 0, 0, 0))
    );

    assert_eq!(daily.next_after(range.start(), range), Some(date(2025, 1, 1).at(12, 0, 0, 0)));

    assert_eq!(
        daily.next_after(date(2025, 1, 1).at(12, 0, 0, 0), range),
        Some(date(2025, 1, 3).at(12, 0, 0, 0))
    );

    assert_eq!(
        daily.next_after(date(2025, 1, 1).at(11, 59, 59, 999), range),
        Some(date(2025, 1, 1).at(12, 0, 0, 0))
    );

    assert_eq!(
        daily.next_after(daily_minus(range.end(), Span::new().days(2)), range),
        Some(date(2025, 1, 31).at(12, 0, 0, 0))
    );
    assert_eq!(daily.next_after(daily_minus(range.end(), Span::new().hours(12)), range), None);
    assert_eq!(daily.next_after(range.end(), range), None);
    assert_eq!(daily.next_after(DateTime::max_value(), range), None);
}

#[test]
fn daily_previous_before() {
    let range = january();
    let daily = Daily::new(2);
    assert_eq!(daily.previous_before(DateTime::min_value(), range), None);
    assert_eq!(daily.previous_before(range.start(), range), None);
    assert_eq!(
        daily.previous_before(daily_plus(range.start(), Span::new().seconds(1)), range),
        Some(date(2025, 1, 1).at(0, 0, 0, 0))
    );

    assert_eq!(
        daily.previous_before(date(2025, 1, 1).at(0, 30, 0, 0), range),
        Some(date(2025, 1, 1).at(0, 0, 0, 0))
    );

    assert_eq!(
        daily.previous_before(date(2025, 1, 4).at(0, 0, 0, 0), range),
        Some(date(2025, 1, 3).at(0, 0, 0, 0))
    );

    assert_eq!(daily.previous_before(range.end(), range), Some(date(2025, 1, 31).at(0, 0, 0, 0)));
}

#[test]
fn daily_at_previous_before() {
    let range = january();
    let daily = Daily::new(2).at(time(12, 0, 0, 0));
    assert_eq!(daily.previous_before(DateTime::min_value(), range), None);
    assert_eq!(daily.previous_before(range.start(), range), None);
    assert_eq!(daily.previous_before(daily_plus(range.start(), Span::new().hours(12)), range), None);
    assert_eq!(
        daily.previous_before(daily_plus(range.start(), Span::new().hours(12).seconds(1)), range),
        Some(date(2025, 1, 1).at(12, 0, 0, 0))
    );

    assert_eq!(
        daily.previous_before(date(2025, 1, 4).at(0, 0, 0, 0), range),
        Some(date(2025, 1, 3).at(12, 0, 0, 0))
    );

    assert_eq!(daily.previous_before(range.end(), range), Some(date(2025, 1, 31).at(12, 0, 0, 0)));
}

#[test]
fn daily_closest_to() {
    let range = january();
    let daily = Daily::new(2);

    assert_eq!(
        daily.closest_to(date(2025, 1, 1).at(0, 0, 0, 0), range),
        Some(date(2025, 1, 1).at(0, 0, 0, 0))
    );

    assert_eq!(
        daily.closest_to(date(2025, 1, 2).at(0, 0, 0, 0), range),
        Some(date(2025, 1, 3).at(0, 0, 0, 0))
    );

    assert_eq!(
        daily.closest_to(daily_minus(date(2025, 1, 2).at(0, 0, 0, 0), Span::new().nanoseconds(1)), range),
        Some(date(2025, 1, 1).at(0, 0, 0, 0))
    );

    assert_eq!(
        daily.closest_to(date(2024, 12, 31).at(0, 30, 0, 0), range),
        Some(date(2025, 1, 1).at(0, 0, 0, 0))
    );

    assert_eq!(
        daily.closest_to(date(2025, 2, 1).at(0, 0, 0, 0), range),
        Some(date(2025, 1, 31).at(0, 0, 0, 0))
    );

    assert_eq!(
        daily.closest_to(date(2025, 2, 10).at(0, 30, 0, 0), range),
        Some(date(2025, 1, 31).at(0, 0, 0, 0))
    );
}

#[test]
fn daily_closest_to_datetime_max() {
    let start = date(2025, 1, 1).at(0, 0, 0, 0);
    let range = DateTimeRange::new(start, DateTime::max_value());
    let daily = Daily::new(2);

    assert_eq!(
        daily.closest_to(DateTime::max_value(), range),
        Some(date(9999, 12, 30).at(0, 0, 0, 0))
    );
}

#[test]
fn daily_try_new_rejects_non_positive_intervals() {
    assert!(Daily::try_new(1).is_ok());
    assert_eq!(
        Daily::try_new(0).unwrap_err().to_string(),
        "interval must be positive, non-zero and must not include sub-second units but got PT0S"
    );
    assert_eq!(
        Daily::try_new(-1).unwrap_err().to_string(),
        "interval must be positive, non-zero and must not include sub-second units but got -P1D"
    );
}
