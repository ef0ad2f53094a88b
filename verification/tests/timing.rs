use media_engine::timing::{pts_due_by, pts_to_micros};

#[test]
fn micros_exact_millisecond_base() {
    // time base 1/1000: each pts unit is one millisecond
    assert_eq!(pts_to_micros(1500, 0, 1, 1000), Some(1_500_000));
}

#[test]
fn micros_relative_to_start() {
    assert_eq!(pts_to_micros(2500, 500, 1, 1000), Some(2_000_000));
    assert_eq!(pts_to_micros(500, 500, 1, 1000), Some(0));
}

#[test]
fn micros_before_start_is_negative() {
    assert_eq!(pts_to_micros(0, 1000, 1, 1000), Some(-1_000_000));
}

#[test]
fn micros_rounds_to_nearest() {
    // 1/3 of a second is 333333.3 microseconds
    assert_eq!(pts_to_micros(1, 0, 1, 3), Some(333_333));
    // 2/3 of a second is 666666.7 microseconds
    assert_eq!(pts_to_micros(2, 0, 1, 3), Some(666_667));
}

#[test]
fn micros_ties_round_away_from_zero() {
    // half a microsecond, both signs
    assert_eq!(pts_to_micros(1, 0, 1, 2_000_000), Some(1));
    assert_eq!(pts_to_micros(-1, 0, 1, 2_000_000), Some(-1));
}

#[test]
fn micros_unusable_time_base() {
    assert_eq!(pts_to_micros(100, 0, 1, 0), None);
    assert_eq!(pts_to_micros(100, 0, -1, 10), None);
    assert_eq!(pts_to_micros(100, 0, 1, -10), None);
}

#[test]
fn micros_overflowing_result_unavailable() {
    assert_eq!(pts_to_micros(i64::MAX, 0, 1000, 1), None);
}

#[test]
fn due_by_boundary() {
    // 1000 ms == exactly the target
    assert!(pts_due_by(1000, 0, 1, 1000, 1_000_000));
    // one millisecond later is strictly after
    assert!(!pts_due_by(1001, 0, 1, 1000, 1_000_000));
}
