use agl_health::layout::{MetricSnapshotV3, ShmHeader, SNAPSHOT_SIZE};
use agl_health::segment::ShmPod;

#[test]
fn shm_header_is_exactly_64_bytes() {
    assert_eq!(<ShmHeader as ShmPod>::byte_size(), 64);
    let mut bytes: Vec<u8> = Vec::new();
    ShmHeader::new().write_le(&mut bytes);
    assert_eq!(bytes.len(), 64);
}

#[test]
fn v3_snapshot_fits_budget() {
    let total = MetricSnapshotV3::initial().encode().len();
    let header = <ShmHeader as ShmPod>::byte_size();
    println!("ShmHeader:        {header} bytes");
    println!(
        "MetricSnapshotV3: {total} bytes ({:.1} KiB, {:.1}% of 512 KiB budget)",
        total as f64 / 1024.0,
        (total as f64 / (512.0 * 1024.0)) * 100.0
    );
    assert_eq!(total, SNAPSHOT_SIZE);
    assert!(total <= 512 * 1024);
}

#[test]
fn v3_snapshot_default_is_zeroed() {
    let snap = MetricSnapshotV3::default();
    assert_eq!(snap.header.magic, 0);
    assert_eq!(snap.process_count, 0);
    assert_eq!(snap.cpu_core_count, 0);
}

#[test]
fn shm_header_default_is_a_fresh_header() {
    let h = ShmHeader::default();
    let fresh = ShmHeader::new();
    assert_eq!(h.magic, fresh.magic);
    assert_eq!(h.version, fresh.version);
    assert_eq!(h.sequence, 0);
    assert_eq!(h.timestamp_ns_wall, 0);
    assert_eq!(h.snapshot_size as usize, SNAPSHOT_SIZE);
}
