use recurring::pattern::utils::{advance_by_until, closest_to};
use recurring::{date, DateTime, Span};

#[test]
fn advance_by_until_worst_case() {
    assert_eq!(
        advance_by_until(
            DateTime::min_value(),
            Span::new().nanoseconds(1),
            DateTime::max_value()
        ),
        date(9999, 12, 31).at(23, 59, 59, 999_999_999)
    );
}

#[test]
fn advance_by_until_cases() {
    let cases = vec![
        (
            date(2025, 1, 1).at(0, 0, 0, 0),
            Span::new().minutes(1),
            date(2025, 1, 1).at(0, 0, 0, 0),
            date(2025, 1, 1).at(0, 0, 0, 0),
        ),
        (
            date(2025, 1, 1).at(0, 0, 0, 0),
            Span::new().minutes(1),
            date(2025, 1, 10).at(1, 1, 30, 0),
            date(2025, 1, 10).at(1, 1, 0, 0),
        ),
        (
            date(2024, 1, 1).at(2, 2, 2, 0),
            Span::new().years(1),
            date(2027, 1, 10).at(1, 1, 30, 0),
            date(2027, 1, 1).at(2, 2, 2, 0),
        ),
        (
            date(2024, 1, 1).at(2, 2, 2, 0),
            Span::new().months(1),
            date(2024, 10, 10).at(1, 1, 30, 0),
            date(2024, 10, 1).at(2, 2, 2, 0),
        ),
        (
            date(2025, 1, 1).at(2, 2, 2, 0),
            Span::new().days(1),
            date(2027, 1, 3).at(2, 2, 2, 0),
            date(2027, 1, 3).at(2, 2, 2, 0),
        ),
    ];
    for (start, span, end, expected) in cases {
        assert_eq!(advance_by_until(start, span, end), expected);
    }
}

#[test]
fn closest_to_prefers_right_on_ties() {
    let instant = date(2025, 1, 1).at(12, 0, 0, 0);
    let left = date(2025, 1, 1).at(11, 0, 0, 0);
    let right = date(2025, 1, 1).at(13, 0, 0, 0);
    assert_eq!(closest_to(instant, left, right), right);
    let nearer = date(2025, 1, 1).at(11, 30, 0, 0);
    assert_eq!(closest_to(instant, nearer, right), nearer);
    assert_eq!(closest_to(instant, right, nearer), nearer);
}
