use agl_health::layout::{MetricSnapshotV3, ShmHeader, SEQ_OFFSET, SHM_MAGIC, SHM_VERSION, SNAPSHOT_SIZE};
use agl_health::segment::{
    format_wall_ns, read_segment, seqlock_accepts, seqlock_should_copy, stamp_sequence,
    SegmentError, SeqlockWriter, READ_RETRY_BUDGET,
};

fn sample_snapshot() -> MetricSnapshotV3 {
    let mut s = MetricSnapshotV3::initial();
    s.header.timestamp_ns_wall = 1_700_000_000_123_456_789;
    s.memory.total_bytes = 16 << 30;
    s.memory.psi_some_pct_x100 = 1234;
    s.load.load_1_bits = 0.5f64.to_bits();
    s.sched.p99_ns = 77;
    s.tcp.listen = 3;
    s.security.setuid = 2;
    s.cpu_core_count = 2;
    s.cpu_cores[1].cpu_id = 1;
    s.cpu_cores[1].irq_ns = 999;
    s.net_iface_count = 1;
    s.net_ifaces[0].rx_bytes = 4096;
    s.block_dev_count = 1;
    s.block_devs[0].device_major = 8;
    s.process_count = 1;
    s.top_processes[0].pid = 42;
    s.top_processes[0].comm[..4].copy_from_slice(b"bash");
    s.sched_cpu_count = 1;
    s.sched_per_cpu[0].histogram.buckets[3] = 5;
    s
}

#[test]
fn encode_then_decode_gives_the_snapshot_back() {
    let s = sample_snapshot();
    let image = s.encode();
    assert_eq!(image.len(), SNAPSHOT_SIZE);
    let back = MetricSnapshotV3::decode(&image).expect("full image decodes");
    assert_eq!(back.header.timestamp_ns_wall, 1_700_000_000_123_456_789);
    assert_eq!(back.header.magic, SHM_MAGIC);
    assert_eq!(back.memory.total_bytes, 16 << 30);
    assert_eq!(back.memory.psi_some_pct_x100, 1234);
    assert_eq!(f64::from_bits(back.load.load_1_bits), 0.5);
    assert_eq!(back.sched.p99_ns, 77);
    assert_eq!(back.tcp.listen, 3);
    assert_eq!(back.security.setuid, 2);
    assert_eq!(back.cpu_core_count, 2);
    assert_eq!(back.cpu_cores[1].irq_ns, 999);
    assert_eq!(back.net_ifaces[0].rx_bytes, 4096);
    assert_eq!(back.block_devs[0].device_major, 8);
    assert_eq!(back.top_processes[0].pid, 42);
    assert_eq!(&back.top_processes[0].comm[..5], b"bash\0");
    assert_eq!(back.sched_per_cpu[0].histogram.buckets[3], 5);
    assert_eq!(back.encode(), image);
}

#[test]
fn integers_are_little_endian() {
    let mut s = MetricSnapshotV3::zeroed();
    s.header.magic = 0x0102_0304_0506_0708;
    let image = s.encode();
    assert_eq!(&image[..8], &[8, 7, 6, 5, 4, 3, 2, 1]);
}

#[test]
fn read_segment_reports_each_error() {
    let good = sample_snapshot().encode();
    assert!(read_segment(&good).is_ok());
    assert_eq!(read_segment(&good[..100]).unwrap_err(), SegmentError::TooShort { len: 100 });

    let mut bad_magic = sample_snapshot();
    bad_magic.header.magic = 7;
    bad_magic.header.version = 9;
    assert_eq!(read_segment(&bad_magic.encode()).unwrap_err(), SegmentError::BadMagic { found: 7 });

    let mut bad_version = sample_snapshot();
    bad_version.header.version = 9;
    assert_eq!(
        read_segment(&bad_version.encode()).unwrap_err(),
        SegmentError::BadVersion { found: 9 }
    );

    let mut bad_size = sample_snapshot();
    bad_size.header.snapshot_size = 12;
    assert_eq!(read_segment(&bad_size.encode()).unwrap_err(), SegmentError::BadSize { found: 12 });

    // Bytes past the snapshot are ignored.
    let mut longer = good.clone();
    longer.extend_from_slice(&[0xAA; 32]);
    assert!(read_segment(&longer).is_ok());
}

#[test]
fn initial_segment_has_fresh_header_and_zero_body() {
    let s = MetricSnapshotV3::initial();
    assert_eq!(s.header.magic, SHM_MAGIC);
    assert_eq!(s.header.version, SHM_VERSION);
    assert_eq!(s.header.snapshot_size as usize, SNAPSHOT_SIZE);
    assert_eq!(s.header.sequence, 0);
    let image = s.encode();
    assert!(image[64..].iter().all(|&b| b == 0));
    assert!(ShmHeader::new().validate().is_ok());
}

#[test]
fn stamped_sequence_is_read_back() {
    let s = sample_snapshot();
    let mut image = s.encode();
    stamp_sequence(&mut image, 0x1122_3344_5566_7788);
    assert_eq!(&image[SEQ_OFFSET..SEQ_OFFSET + 8], &[0x88, 0x77, 0x66, 0x55, 0x44, 0x33, 0x22, 0x11]);
    let back = MetricSnapshotV3::decode(&image).unwrap();
    assert_eq!(back.header.sequence, 0x1122_3344_5566_7788);
    assert_eq!(back.header.timestamp_ns_wall, s.header.timestamp_ns_wall);
    assert_eq!(back.top_processes[0].pid, 42);
}

#[test]
fn seqlock_writer_is_odd_during_write_and_even_after() {
    let mut w = SeqlockWriter::new();
    assert_eq!(w.local_seq, 0);
    for round in 1..=3u64 {
        let begin = w.begin_write();
        assert_eq!(begin % 2, 1);
        let end = w.end_write();
        assert_eq!(end % 2, 0);
        assert_eq!(end, 2 * round);
    }
    let mut wrap = SeqlockWriter { local_seq: u64::MAX - 1 };
    assert_eq!(wrap.begin_write(), u64::MAX);
    assert_eq!(wrap.end_write(), 0);
}

#[test]
fn seqlock_reader_decisions() {
    assert!(seqlock_should_copy(4));
    assert!(!seqlock_should_copy(5));
    assert!(seqlock_accepts(0, 4, 4));
    assert!(!seqlock_accepts(0, 4, 6));
    assert!(!seqlock_accepts(0, 0, 0));
    assert!(!seqlock_accepts(4, 0, 0));
    assert!(seqlock_accepts(5, 0, 0));
    // A counter that moved during the copy is retried even on an unpublished segment.
    assert!(!seqlock_accepts(5, 0, 2));
    assert_eq!(READ_RETRY_BUDGET, 1024);
}

#[test]
fn wall_ns_formatting() {
    assert_eq!(
        format_wall_ns(1_700_000_000_123_456_789),
        "1700000000s + 123456789ns since epoch"
    );
    assert_eq!(format_wall_ns(0), "0s + 000000000ns since epoch");
    assert_eq!(format_wall_ns(1_000_000_007), "1s + 000000007ns since epoch");
    assert_eq!(format_wall_ns(u64::MAX), "18446744073s + 709551615ns since epoch");
}
