use std::time::{SystemTime, UNIX_EPOCH};

use agl_health::time_base::TimeBase;

fn sampled_base() -> TimeBase {
    // A monotonic reading of one second after boot, paired with the
    // current wall clock.
    let wall = SystemTime::now()
        .duration_since(UNIX_EPOCH)
        .map(|d| d.as_nanos() as u64)
        .unwrap_or(0);
    TimeBase::from_samples(1_000_000_000, wall)
}

#[test]
fn to_wall_ns_is_monotonic() {
    let tb = sampled_base();
    let a = tb.to_wall_ns(1_000);
    let b = tb.to_wall_ns(2_000);
    assert!(b > a);
    assert_eq!(b - a, 1_000);
}

#[test]
fn from_samples_maps_the_sample_back() {
    let tb = TimeBase::from_samples(5_000, 1_700_000_000_000_000_000);
    assert_eq!(tb.to_wall_ns(5_000), 1_700_000_000_000_000_000);
    assert_eq!(tb.to_wall_ns(6_000), 1_700_000_000_000_001_000);
}

#[test]
fn to_wall_ns_saturates() {
    // Wall clock behind the monotonic clock: negative offset.
    let behind = TimeBase::from_samples(10_000, 1_000);
    assert_eq!(behind.to_wall_ns(5_000), 0);
    assert_eq!(behind.to_wall_ns(10_000), 1_000);
    let ahead = TimeBase::from_samples(0, u64::MAX - 10);
    assert_eq!(ahead.to_wall_ns(100), u64::MAX);
}

#[test]
fn capture_produces_reasonable_offset() {
    // Sample both clocks together, as the daemon does at startup, then
    // convert a later monotonic reading.
    let start = std::time::Instant::now();
    let monotonic_ns = |i: std::time::Instant| 1_000_000_000 + i.duration_since(start).as_nanos() as u64;
    let wall = SystemTime::now()
        .duration_since(UNIX_EPOCH)
        .map(|d| d.as_nanos() as u64)
        .unwrap_or(0);
    let tb = TimeBase::from_samples(monotonic_ns(std::time::Instant::now()), wall);
    let now = tb.to_wall_ns(monotonic_ns(std::time::Instant::now()));
    // Sanity: a recent wall-clock ns should be in the
    // 1.7e18 .. 2.0e18 range (2023 .. 2033).
    assert!(now > 1_700_000_000_000_000_000);
    assert!(now < 2_000_000_000_000_000_000);
}
