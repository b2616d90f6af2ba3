use recurring::pattern::Interval;
use recurring::{date, DateTime, DateTimeRange, Pattern, Span};

fn interval_jiff(d: DateTime) -> jiff::civil::DateTime {
    jiff::civil::datetime(d.year, d.month, d.day, d.hour, d.minute, d.second, d.subsec_nanosecond)
}

fn interval_jiff_span(s: Span) -> jiff::Span {
    jiff::Span::new()
        .years(s.years)
        .months(s.months)
        .weeks(s.weeks)
        .days(s.days)
        .hours(s.hours)
        .minutes(s.minutes)
        .seconds(s.seconds)
        .milliseconds(s.milliseconds)
        .microseconds(s.microseconds)
        .nanoseconds(s.nanoseconds)
}

fn interval_plus(d: DateTime, s: Span) -> DateTime {
    let x = interval_jiff(d).checked_add(interval_jiff_span(s)).unwrap();
    recurring::datetime(x.year(), x.month(), x.day(), x.hour(), x.minute(), x.second(), x.subsec_nanosecond())
}

fn interval_minus(d: DateTime, s: Span) -> DateTime {
    interval_plus(d, s.negate())
}

fn two_days() -> DateTimeRange {
    DateTimeRange::new(date(2025, 1, 1).at(0, 0, 0, 0), date(2025, 1, 3).at(0, 0, 0, 0))
}

#[test]
fn interval_next_after() {
    let range = two_days();
    let interval = Interval::new(Span::new().hours(1));
    assert_eq!(
        interval.next_after(DateTime::min_value(), range),
        Some(date(2025, 1, 1).at(0, 0, 0, 0))
    );
    assert_eq!(
        interval.next_after(interval_minus(range.start(), Span::new().nanoseconds(1)), range),
        Some(date(2025, 1, 1).at(0, 0, 0, 0))
    );

    assert_eq!(
        interval.next_after(range.start(), range),
        Some(date(2025, 1, 1).at(1, 0, 0, 0))
    );

    assert_eq!(
        interval.next_after(date(2025, 1, 1).at(0, 30, 0, 0), range),
        Some(date(2025, 1, 1).at(1, 0, 0, 0))
    );

    assert_eq!(
        interval.next_after(interval_minus(range.end(), Span::new().hours(1).nanoseconds(1)), range),
        Some(date(2025, 1, 2).at(23, 0, 0, 0))
    );
    assert_eq!(interval.next_after(interval_minus(range.end(), Span::new().hours(1)), range), None);
    assert_eq!(interval.next_after(range.end(), range), None);
    assert_eq!(interval.next_after(DateTime::max_value(), range), None);
}

#[test]
fn interval_offset_next_after() {
    let range = two_days();
    let interval = Interval::new(Span::new().hours(1)).offset(Span::new().minutes(10));
    assert_eq!(
        interval.next_after(DateTime::min_value(), range),
        Some(date(2025, 1, 1).at(0, 10, 0, 0))
    );
    assert_eq!(
        interval.next_after(interval_minus(range.start(), Span::new().nanoseconds(1)), range),
        Some(date(2025, 1, 1).at(0, 10, 0, 0))
    );

    assert_eq!(
        interval.next_after(range.start(), range),
        Some(date(2025, 1, 1).at(0, 10, 0, 0))
    );

    assert_eq!(
        interval.next_after(date(2025, 1, 1).at(0, 30, 0, 0), range),
        Some(date(2025, 1, 1).at(1, 10, 0, 0))
    );

    assert_eq!(
        interval.next_after(interval_minus(range.end(), Span::new().hours(1)), range),
        Some(date(2025, 1, 2).at(23, 10, 0, 0))
    );
    assert_eq!(interval.next_after(interval_minus(range.end(), Span::new().minutes(50)), range), None);
    assert_eq!(interval.next_after(range.end(), range), None);
    assert_eq!(interval.next_after(DateTime::max_value(), range), None);

    let interval = Interval::new(Span::new().hours(1)).offset(Span::new().hours(2).minutes(30));

    assert_eq!(
        interval.next_after(DateTime::min_value(), range),
        Some(date(2025, 1, 1).at(2, 30, 0, 0))
    );
    assert_eq!(
        interval.next_after(interval_minus(range.end(), Span::new().minutes(30).nanoseconds(1)), range),
        Some(date(2025, 1, 2).at(23, 30, 0, 0))
    );
    assert_eq!(interval.next_after(interval_minus(range.end(), Span::new().minutes(30)), range), None);

    let interval = Interval::new(Span::new().hours(1)).offset(Span::new().days(3));

    assert_eq!(interval.next_after(DateTime::min_value(), range), None);
}

#[test]
fn interval_previous_before() {
    let range = two_days();
    let interval = Interval::new(Span::new().hours(1));
    assert_eq!(interval.previous_before(DateTime::min_value(), range), None);
    assert_eq!(interval.previous_before(range.start(), range), None);
    assert_eq!(
        interval.previous_before(interval_plus(range.start(), Span::new().seconds(1)), range),
        Some(date(2025, 1, 1).at(0, 0, 0, 0))
    );

    assert_eq!(
        interval.previous_before(date(2025, 1, 1).at(0, 30, 0, 0), range),
        Some(date(2025, 1, 1).at(0, 0, 0, 0))
    );

    assert_eq!(
        interval.previous_before(date(2025, 1, 3).at(0, 0, 0, 0), range),
        Some(date(2025, 1, 2).at(23, 0, 0, 0))
    );

    assert_eq!(
        interval.previous_before(range.end(), range),
        Some(date(2025, 1, 2).at(23, 0, 0, 0))
    );
}

#[test]
fn interval_offset_previous_before() {
    let range = two_days();
    let interval = Interval::new(Span::new().hours(1)).offset(Span::new().minutes(30));
    assert_eq!(interval.previous_before(DateTime::min_value(), range), None);
    assert_eq!(interval.previous_before(range.start(), range), None);
    assert_eq!(
        interval.previous_before(interval_plus(range.start(), Span::new().minutes(30)), range),
        None
    );
    assert_eq!(
        interval.previous_before(interval_plus(range.start(), Span::new().minutes(30).seconds(1)), range),
        Some(date(2025, 1, 1).at(0, 30, 0, 0))
    );

    assert_eq!(
        interval.previous_before(date(2025, 1, 1).at(0, 31, 0, 0), range),
        Some(date(2025, 1, 1).at(0, 30, 0, 0))
    );

    assert_eq!(
        interval.previous_before(date(2025, 1, 3).at(0, 0, 0, 0), range),
        Some(date(2025, 1, 2).at(23, 30, 0, 0))
    );

    assert_eq!(
        interval.previous_before(range.end(), range),
        Some(date(2025, 1, 2).at(23, 30, 0, 0))
    );
}

#[test]
fn interval_closest_to() {
    let range = two_days();
    let interval = Interval::new(Span::new().hours(1));

    assert_eq!(
        interval.closest_to(date(2025, 1, 1).at(0, 0, 0, 0), range),
        Some(date(2025, 1, 1).at(0, 0, 0, 0))
    );

    assert_eq!(
        interval.closest_to(date(2025, 1, 1).at(0, 30, 0, 0), range),
        Some(date(2025, 1, 1).at(1, 0, 0, 0))
    );

    assert_eq!(
        interval.closest_to(
            interval_minus(date(2025, 1, 1).at(0, 30, 0, 0), Span::new().nanoseconds(1)),
            range,
        ),
        Some(date(2025, 1, 1).at(0, 0, 0, 0))
    );

    assert_eq!(
        interval.closest_to(date(2024, 12, 31).at(0, 30, 0, 0), range),
        Some(date(2025, 1, 1).at(0, 0, 0, 0))
    );

    assert_eq!(
        interval.closest_to(date(2025, 1, 3).at(0, 0, 0, 0), range),
        Some(date(2025, 1, 2).at(23, 0, 0, 0))
    );

    assert_eq!(
        interval.closest_to(date(2025, 2, 10).at(0, 30, 0, 0), range),
        Some(date(2025, 1, 2).at(23, 0, 0, 0))
    );
}

#[test]
fn interval_offset_closest_to() {
    let start = date(2025, 1, 1).at(0, 0, 0, 0);
    let range = DateTimeRange::new(start, DateTime::max_value());
    let interval = Interval::new(Span::new().hours(1)).offset(Span::new().minutes(5));

    assert_eq!(
        interval.closest_to(date(2025, 1, 1).at(0, 30, 0, 0), range),
        Some(date(2025, 1, 1).at(0, 5, 0, 0))
    );
    assert_eq!(
        interval.closest_to(date(2025, 1, 1).at(0, 35, 0, 0), range),
        Some(date(2025, 1, 1).at(1, 5, 0, 0))
    );
}

#[test]
fn interval_closest_to_datetime_max() {
    let start = date(2025, 1, 1).at(0, 0, 0, 0);
    let range = DateTimeRange::new(start, DateTime::max_value());
    let interval = Interval::new(Span::new().hours(2));

    assert_eq!(
        interval.closest_to(DateTime::max_value(), range),
        Some(date(9999, 12, 31).at(22, 0, 0, 0))
    );
}

#[test]
fn interval_previous_before_respects_fixpoint_range_start() {
    let fixpoint = date(2024, 12, 31).at(23, 0, 0, 0);
    let range = two_days().with_fixpoint(fixpoint).unwrap();
    let interval = Interval::new(Span::new().hours(2));
    assert_eq!(interval.previous_before(date(2025, 1, 1).at(0, 30, 0, 0), range), None);
    assert_eq!(
        interval.previous_before(date(2025, 1, 1).at(1, 30, 0, 0), range),
        Some(date(2025, 1, 1).at(1, 0, 0, 0))
    );
    assert_eq!(
        interval.next_after(DateTime::min_value(), range),
        Some(date(2025, 1, 1).at(1, 0, 0, 0))
    );
}

#[test]
fn interval_offset_error() {
    let interval = Interval::new(Span::new().hours(1));
    assert!(interval.try_offset(Span::new()).is_ok());
    assert_eq!(
        interval.try_offset(Span::new().hours(1).negate()).unwrap_err().to_string(),
        "offset must be zero or positive but got -PT1H"
    );
}

#[test]
fn interval_equality_ignores_offset() {
    let a = Interval::new(Span::new().hours(1));
    let b = Interval::new(Span::new().hours(1)).offset(Span::new().minutes(5));
    let c = Interval::new(Span::new().hours(2));
    assert!(a == b);
    assert!(a != c);
}
