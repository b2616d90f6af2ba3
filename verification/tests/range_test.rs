use recurring::{date, DateTimeRange};

#[test]
fn range_with_fixpoint_and_intersect() {
    let start = date(2025, 1, 1).at(0, 0, 0, 0);
    let end = date(2025, 2, 1).at(0, 0, 0, 0);
    let range = DateTimeRange::new(start, end);
    assert_eq!(range.fixpoint(), start);
    let earlier = date(2024, 12, 1).at(0, 0, 0, 0);
    let with = range.with_fixpoint(earlier).unwrap();
    assert_eq!(with.fixpoint(), earlier);
    assert!(range.with_fixpoint(date(2025, 1, 1).at(0, 0, 0, 1)).is_err());

    let other = DateTimeRange::new(date(2025, 1, 15).at(0, 0, 0, 0), date(2025, 3, 1).at(0, 0, 0, 0));
    let both = with.intersect(other).unwrap();
    assert_eq!(both.start(), date(2025, 1, 15).at(0, 0, 0, 0));
    assert_eq!(both.end(), end);
    assert_eq!(both.fixpoint(), earlier);

    let disjoint = DateTimeRange::new(date(2025, 3, 1).at(0, 0, 0, 0), date(2025, 4, 1).at(0, 0, 0, 0));
    assert_eq!(
        range.intersect(disjoint).unwrap_err().to_string(),
        "series intersection end must be greater than start but got series intersection range 2025-03-01T00:00:00..2025-02-01T00:00:00"
    );
    assert!(range.contains(&start));
    assert!(!range.contains(&end));
}

#[test]
fn range_conversions() {
    let start = date(2025, 1, 1).at(0, 0, 0, 0);
    let end = date(2025, 2, 1).at(0, 0, 0, 0);
    let range = DateTimeRange::from(start..end);
    assert_eq!(range, DateTimeRange::new(start, end));
    let back: core::ops::Range<recurring::DateTime> = range.into();
    assert_eq!(back, start..end);
}
