use agl_health::bandwidth::{BandwidthWindow, MAX_SAMPLES};
use agl_health::metrics::CgroupNetBytes;

fn entry(id: u64, rx: u64, tx: u64, rx_inet: u64, tx_inet: u64) -> CgroupNetBytes {
    CgroupNetBytes {
        cgroup_id: id,
        rx_bytes: rx,
        tx_bytes: tx,
        rx_packets: rx / 100,
        tx_packets: tx / 100,
        rx_internet_bytes: rx_inet,
        tx_internet_bytes: tx_inet,
    }
}

const SEC: u64 = 1_000_000_000;

#[test]
fn empty_window_answers_nothing() {
    let w = BandwidthWindow::new();
    assert!(w.query(0).is_empty());
    assert!(w.query(30).is_empty());
    assert!(w.query(u64::MAX).is_empty());
}

#[test]
fn cumulative_mode_returns_latest_counters_in_order() {
    let mut w = BandwidthWindow::new();
    w.push(0, vec![entry(1, 1, 1, 1, 1)]);
    w.push(SEC, vec![entry(1, 100, 100, 10, 0), entry(2, 500, 0, 400, 100)]);
    let out = w.query(0);
    assert_eq!(out.len(), 2);
    assert_eq!(out[0].cgroup_id, 1);
    assert_eq!((out[0].rx_bytes, out[0].tx_bytes), (100, 100));
    assert_eq!(out[1].cgroup_id, 2);
    assert_eq!(out[1].rx_internet_bytes, 400);
}

#[test]
fn windowed_deltas_use_the_closest_older_sample() {
    let mut w = BandwidthWindow::new();
    w.push(10 * SEC, vec![entry(1, 100, 0, 100, 0)]);
    w.push(20 * SEC, vec![entry(1, 300, 0, 250, 0), entry(2, 50, 0, 0, 0)]);
    w.push(30 * SEC, vec![entry(1, 1000, 0, 900, 0), entry(2, 80, 0, 10, 0)]);
    // 10 s back from 30 s is the sample at 20 s.
    let d = w.query(10);
    assert_eq!(d.len(), 2);
    assert_eq!((d[0].cgroup_id, d[0].rx_bytes, d[0].rx_internet_bytes), (1, 700, 650));
    assert_eq!((d[1].cgroup_id, d[1].rx_bytes, d[1].rx_internet_bytes), (2, 30, 10));
    // A window longer than the history falls back to the oldest sample.
    let d = w.query(1000);
    assert_eq!(d[0].rx_bytes, 900);
    // A cgroup missing from the baseline counts from zero.
    assert_eq!(d[1].rx_bytes, 80);
}

#[test]
fn counters_that_went_backwards_saturate_at_zero() {
    let mut w = BandwidthWindow::new();
    w.push(SEC, vec![entry(1, 1000, 1000, 0, 0)]);
    w.push(3 * SEC, vec![entry(1, 10, 2000, 0, 0)]);
    let d = w.query(2);
    assert_eq!((d[0].rx_bytes, d[0].tx_bytes), (0, 1000));
}

#[test]
fn history_keeps_the_latest_samples() {
    let mut w = BandwidthWindow::new();
    for i in 0..(MAX_SAMPLES as u64 + 5) {
        w.push(i * SEC, vec![entry(1, i * 10, 0, 0, 0)]);
    }
    // The oldest retained sample is number 5 (t = 5 s, rx = 50).
    let d = w.query(1_000_000);
    let latest = (MAX_SAMPLES as u64 + 4) * 10;
    assert_eq!(d[0].rx_bytes, latest - 50);
}
