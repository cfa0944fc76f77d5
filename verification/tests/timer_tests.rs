use hack86::timer::{estimate_cpu_timer_freq, os_wait_ticks};

#[test]
fn wait_ticks_scale_by_milliseconds() {
    assert_eq!(os_wait_ticks(1_000_000, Some(500)), 500_000);
    assert_eq!(os_wait_ticks(10_000_000, Some(1)), 10_000);
    assert_eq!(os_wait_ticks(0, Some(250)), 0);
}

#[test]
fn wait_defaults_to_one_second() {
    assert_eq!(os_wait_ticks(1_000_000, None), 1_000_000);
}

#[test]
fn frequency_estimate_scales_elapsed_ratio() {
    // 3,000,000 CPU ticks over 3,000 OS ticks at 1,000 OS ticks per second:
    // one million CPU ticks per second.
    assert_eq!(estimate_cpu_timer_freq(1_000, 3_000_000, 3_000), 1_000_000);
    assert_eq!(estimate_cpu_timer_freq(10_000_000, 25_000, 10_000), 25_000_000);
}

#[test]
fn zero_elapsed_yields_zero() {
    assert_eq!(estimate_cpu_timer_freq(1_000_000, 12345, 0), 0);
}
