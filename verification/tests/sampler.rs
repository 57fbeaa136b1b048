use netchart::sampler::{rate_bytes_per_sec, rate_for_mode, RateMode};

#[test]
fn rate_scales_interval_to_one_second() {
    // 1000 bytes over a 100 ms interval is 10000 bytes per second.
    assert_eq!(rate_bytes_per_sec(1000, 0, 100), 10_000);
}

#[test]
fn rate_combines_both_directions() {
    assert_eq!(rate_bytes_per_sec(600, 400, 100), 10_000);
    assert_eq!(rate_bytes_per_sec(250, 250, 250), 2_000);
}

#[test]
fn rate_modes_choose_their_counters() {
    assert_eq!(rate_for_mode(RateMode::Combined, 600, 400, 100), 10_000);
    assert_eq!(rate_for_mode(RateMode::TransmittedOnly, 600, 400, 100), 6_000);
}

#[test]
fn rate_truncates_and_saturates() {
    // 1 byte over 3 ms: 333.33 bytes per second, truncated.
    assert_eq!(rate_bytes_per_sec(1, 0, 3), 333);
    // A counter jump too large for the interval saturates instead of wrapping.
    assert_eq!(rate_bytes_per_sec(u64::MAX, u64::MAX, 1), u64::MAX);
    assert_eq!(rate_bytes_per_sec(0, 0, 250), 0);
}
