use routing::timeout::clamp_timeout_ms;

#[test]
fn low_estimate_is_raised_to_floor() {
    assert_eq!(clamp_timeout_ms(100, 500, 30_000), 500);
}

#[test]
fn high_estimate_is_lowered_to_ceiling() {
    assert_eq!(clamp_timeout_ms(60_000, 100, 10_000), 10_000);
}

#[test]
fn estimate_within_bounds_is_kept() {
    assert_eq!(clamp_timeout_ms(1_300, 100, 30_000), 1_300);
    assert_eq!(clamp_timeout_ms(100, 100, 30_000), 100);
    assert_eq!(clamp_timeout_ms(30_000, 100, 30_000), 30_000);
}

#[test]
fn ceiling_wins_over_floor() {
    assert_eq!(clamp_timeout_ms(50, 1_000, 200), 200);
    assert_eq!(clamp_timeout_ms(5_000, 1_000, 200), 200);
}

#[test]
fn result_saturates_at_u64_max() {
    let huge = u64::MAX as u128 + 10;
    assert_eq!(clamp_timeout_ms(5, huge, huge + 1), u64::MAX);
    assert_eq!(clamp_timeout_ms(u64::MAX, 0, huge), u64::MAX);
}
