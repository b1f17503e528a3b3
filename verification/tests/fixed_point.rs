use asteroid_sim::fixed::{narrow, negated, over_time, plus, scale, span, Gap, Vec2, NANOS_PER_SECOND, UNIT};

#[test]
fn sums_saturate() {
    assert_eq!(plus(2, 3), 5);
    assert_eq!(plus(i64::MAX, 1), i64::MAX);
    assert_eq!(plus(i64::MIN, -1), i64::MIN);
    assert_eq!(narrow(-1), -1);
    assert_eq!(narrow(i128::MAX), i64::MAX);
    assert_eq!(narrow(i128::MIN), i64::MIN);
    assert_eq!(span(2, 3), 1);
    assert_eq!(span(i64::MAX, i64::MIN), u64::MAX);
    assert_eq!(negated(7), -7);
    assert_eq!(negated(i64::MIN), i64::MAX);
}

#[test]
fn scale_rounds_toward_zero() {
    assert_eq!(scale(7, 1, 2), 3);
    assert_eq!(scale(-7, 1, 2), -3);
    assert_eq!(scale(500_000, 16_000_000, NANOS_PER_SECOND), 8_000);
    assert_eq!(scale(i64::MAX, 2, 1), i64::MAX);
    assert_eq!(scale(i64::MIN, 2, 1), i64::MIN);
    assert_eq!(scale(UNIT, UNIT, UNIT), UNIT);
}

#[test]
fn distance_is_compared_exactly() {
    let a = Vec2::new(0, 0);
    let b = Vec2::new(3_000, 4_000);
    assert_eq!(a.compare_distance(b, 5_000), Gap::Equal);
    assert_eq!(a.compare_distance(b, 5_001), Gap::Less);
    assert_eq!(a.compare_distance(b, 4_999), Gap::Greater);
    assert!(!a.is_within(b, 5_000));
    assert!(a.is_within(b, 5_001));
    assert!(!a.is_beyond(b, 5_000));
    assert!(a.is_beyond(b, 4_999));
}

#[test]
fn distance_at_the_ends_of_the_range() {
    let a = Vec2::new(i64::MIN, i64::MIN);
    let b = Vec2::new(i64::MAX, i64::MAX);
    assert_eq!(a.compare_distance(b, u64::MAX), Gap::Greater);
    assert!(a.is_beyond(b, u64::MAX));
    assert!(!a.is_within(b, u64::MAX));
    assert!(!a.is_within(a, 0));
    assert!(a.is_within(a, 1));
}

#[test]
fn rates_over_time() {
    assert_eq!(over_time(500_000, 16_000_000), 8_000);
    assert_eq!(over_time(-500_000, 16_000_000), -8_000);
    assert_eq!(over_time(7, 999_999_999), 6);
    assert_eq!(over_time(-7, 999_999_999), -6);
    assert_eq!(over_time(1, u64::MAX), 18_446_744_073);
    assert_eq!(over_time(i64::MAX, u64::MAX), i64::MAX);
    assert_eq!(over_time(i64::MIN, u64::MAX), i64::MIN);
    assert_eq!(over_time(i64::MIN, 0), 0);
    assert_eq!(Vec2::new(1_000, -2_000).over_time(2_500_000_000), Vec2::new(2_500, -5_000));
}
