use taranis::time::{get_mock_now, VirtualClock, MAX_TS_MS};

#[test]
fn real_time_passes_through_at_factor_one() {
    let c = VirtualClock::new(1_000_000, None, 1);
    assert_eq!(c.virtual_time(1_000_000), 1_000_000);
    assert_eq!(c.virtual_time(1_234_567), 1_234_567);
}

#[test]
fn accelerated_time_scales_around_the_anchor() {
    let c = VirtualClock::new(1_000_000, Some(5_000_000), 10);
    assert_eq!(c.anchor_ms, 5_000_000);
    // at process start the clock reads the anchor
    assert_eq!(c.virtual_time(1_000_000), 5_000_000);
    // one real second later it has advanced ten
    assert_eq!(c.virtual_time(1_001_000), 5_010_000);
    // a wall reading before the latch does not run backwards
    assert_eq!(c.virtual_time(999_000), 5_000_000);
}

#[test]
fn anchor_defaults_to_the_process_start() {
    let c = VirtualClock::new(2_000_000, None, 60);
    assert_eq!(c.anchor_ms, 2_000_000);
    assert_eq!(c.virtual_time(2_000_500), 2_030_000);
}

#[test]
fn scaled_time_stays_in_range() {
    let c = VirtualClock::new(0, Some(0), 1_000_000);
    assert_eq!(c.virtual_time(MAX_TS_MS), MAX_TS_MS);
}

#[test]
fn monotonic_over_increasing_wall_readings() {
    let c = VirtualClock::new(1_000_000, Some(7_777_777), 25);
    let mut last = 0;
    for k in 0..50u64 {
        let v = c.virtual_time(990_000 + k * 12_345);
        assert!(v >= last);
        last = v;
    }
}

#[test]
fn now_reads_the_wall_clock_once() {
    let c = VirtualClock::new(1_000_000, None, 1);
    let a = get_mock_now(&c);
    let b = c.now_ms();
    assert!(a <= MAX_TS_MS && b <= MAX_TS_MS);
}
