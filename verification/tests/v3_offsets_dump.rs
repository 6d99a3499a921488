//! Byte offsets of the snapshot fields, found by encoding a record with a
//! single marked field and locating the mark.

use agl_health::layout::{MetricSnapshotV3, SchedSnapshotFixed, ShmHeader, SNAPSHOT_SIZE};
use agl_health::metrics::{
    BlockStats, CpuStats, MemorySnapshot, NetIfaceStats, ProcessStats, TcpStateSnapshot,
};
use agl_health::segment::ShmPod;

fn first_nonzero(b: &[u8]) -> usize {
    b.iter().position(|&x| x != 0).expect("marked field not found")
}

fn record_offset<T: ShmPod + Default>(mark: impl Fn(&mut T)) -> usize {
    let mut r = T::default();
    mark(&mut r);
    let mut bytes = Vec::new();
    r.write_le(&mut bytes);
    first_nonzero(&bytes)
}

fn snapshot_offset(mark: impl Fn(&mut MetricSnapshotV3)) -> usize {
    let mut s = MetricSnapshotV3::zeroed();
    mark(&mut s);
    first_nonzero(&s.encode())
}

#[test]
fn dump_offsets() {
    println!("MetricSnapshotV3::SIZE     = {}", MetricSnapshotV3::zeroed().encode().len());
    println!("ShmHeader size              = {}", <ShmHeader as ShmPod>::byte_size());
    println!();
    println!("--- Header ---");
    let magic = snapshot_offset(|s| s.header.magic = 1);
    let version = snapshot_offset(|s| s.header.version = 1);
    let sequence = snapshot_offset(|s| s.header.sequence = 1);
    let ts = snapshot_offset(|s| s.header.timestamp_ns_wall = 1);
    let size = snapshot_offset(|s| s.header.snapshot_size = 1);
    println!("magic                       @ {magic}");
    println!("version                     @ {version}");
    println!("sequence                    @ {sequence}");
    println!("timestamp_ns_wall           @ {ts}");
    println!("snapshot_size               @ {size}");
    assert_eq!((magic, version, sequence, ts, size), (0, 8, 16, 24, 32));
    println!();
    println!("--- MetricSnapshotV3 top level ---");
    let top = [
        ("memory", snapshot_offset(|s| s.memory.total_bytes = 1), 64),
        ("load", snapshot_offset(|s| s.load.load_1_bits = 1), 152),
        ("sched", snapshot_offset(|s| s.sched.histogram.buckets[0] = 1), 176),
        ("tcp", snapshot_offset(|s| s.tcp.established = 1), 288),
        ("security", snapshot_offset(|s| s.security.ptrace = 1), 384),
        ("cpu_core_count", snapshot_offset(|s| s.cpu_core_count = 1), 432),
        ("cpu_cores", snapshot_offset(|s| s.cpu_cores[0].cpu_id = 1), 440),
        ("net_iface_count", snapshot_offset(|s| s.net_iface_count = 1), 1464),
        ("net_ifaces", snapshot_offset(|s| s.net_ifaces[0].iface_idx = 1), 1472),
        ("block_dev_count", snapshot_offset(|s| s.block_dev_count = 1), 2048),
        ("block_devs", snapshot_offset(|s| s.block_devs[0].device_major = 1), 2056),
        ("process_count", snapshot_offset(|s| s.process_count = 1), 3208),
        ("top_processes", snapshot_offset(|s| s.top_processes[0].pid = 1), 3216),
    ];
    for (name, off, expected) in top {
        println!("{name:<28}@ {off}");
        assert_eq!(off, expected, "{name}");
    }
    println!();
    println!("--- MemorySnapshot sub-offsets ---");
    let m = 64;
    let mem = [
        ("memory.total_bytes", record_offset::<MemorySnapshot>(|r| r.total_bytes = 1), 0),
        ("memory.free_bytes", record_offset::<MemorySnapshot>(|r| r.free_bytes = 1), 8),
        ("memory.cached_bytes", record_offset::<MemorySnapshot>(|r| r.cached_bytes = 1), 16),
        ("memory.buffered_bytes", record_offset::<MemorySnapshot>(|r| r.buffered_bytes = 1), 24),
        ("memory.slab_bytes", record_offset::<MemorySnapshot>(|r| r.slab_bytes = 1), 32),
        ("memory.swap_used_bytes", record_offset::<MemorySnapshot>(|r| r.swap_used_bytes = 1), 40),
        ("memory.swap_free_bytes", record_offset::<MemorySnapshot>(|r| r.swap_free_bytes = 1), 48),
        ("memory.page_faults_minor", record_offset::<MemorySnapshot>(|r| r.page_faults_minor = 1), 56),
        ("memory.page_faults_major", record_offset::<MemorySnapshot>(|r| r.page_faults_major = 1), 64),
        ("memory.psi_some_pct_x100", record_offset::<MemorySnapshot>(|r| r.psi_some_pct_x100 = 1), 72),
        ("memory.psi_full_pct_x100", record_offset::<MemorySnapshot>(|r| r.psi_full_pct_x100 = 1), 76),
        ("memory.oom_kills_total", record_offset::<MemorySnapshot>(|r| r.oom_kills_total = 1), 80),
    ];
    for (name, off, expected) in mem {
        println!("{name:<28}@ {}", m + off);
        assert_eq!(off, expected, "{name}");
    }
    println!();
    println!("--- LoadSnapshotFixed sub-offsets ---");
    println!("load.load_1                 @ {}", snapshot_offset(|s| s.load.load_1_bits = 1));
    println!("load.load_5                 @ {}", snapshot_offset(|s| s.load.load_5_bits = 1));
    println!("load.load_15                @ {}", snapshot_offset(|s| s.load.load_15_bits = 1));
    assert_eq!(snapshot_offset(|s| s.load.load_15_bits = 1), 168);
    println!();
    println!("--- SchedSnapshotFixed top-level ---");
    let p50 = snapshot_offset(|s| s.sched.p50_ns = 1);
    let p95 = snapshot_offset(|s| s.sched.p95_ns = 1);
    let p99 = snapshot_offset(|s| s.sched.p99_ns = 1);
    println!("sched.p50_ns                @ {p50}");
    println!("sched.p95_ns                @ {p95}");
    println!("sched.p99_ns                @ {p99}");
    assert_eq!((p50, p95, p99), (264, 272, 280));
}

#[test]
fn dump_entry_sizes_and_sub_offsets() {
    println!("--- Entry sizes ---");
    println!("ProcessStats  = {} bytes", <ProcessStats as ShmPod>::byte_size());
    println!("CpuStats      = {} bytes", <CpuStats as ShmPod>::byte_size());
    println!("NetIfaceStats = {} bytes", <NetIfaceStats as ShmPod>::byte_size());
    println!("BlockStats    = {} bytes", <BlockStats as ShmPod>::byte_size());
    println!("TcpState      = {} bytes", <TcpStateSnapshot as ShmPod>::byte_size());
    println!();
    println!("--- ProcessStats sub-offsets ---");
    let p = [
        ("pid", record_offset::<ProcessStats>(|r| r.pid = 1)),
        ("ppid", record_offset::<ProcessStats>(|r| r.ppid = 1)),
        ("uid", record_offset::<ProcessStats>(|r| r.uid = 1)),
        ("thread_count", record_offset::<ProcessStats>(|r| r.thread_count = 1)),
        ("cpu_user_ns", record_offset::<ProcessStats>(|r| r.cpu_user_ns = 1)),
        ("cpu_system_ns", record_offset::<ProcessStats>(|r| r.cpu_system_ns = 1)),
        ("mem_rss_bytes", record_offset::<ProcessStats>(|r| r.mem_rss_bytes = 1)),
        ("mem_vms_bytes", record_offset::<ProcessStats>(|r| r.mem_vms_bytes = 1)),
        ("vol_ctx_sw", record_offset::<ProcessStats>(|r| r.voluntary_ctx_sw = 1)),
        ("invol_ctx_sw", record_offset::<ProcessStats>(|r| r.involuntary_ctx_sw = 1)),
        ("read_bytes", record_offset::<ProcessStats>(|r| r.read_bytes = 1)),
        ("write_bytes", record_offset::<ProcessStats>(|r| r.write_bytes = 1)),
        ("pf_minor", record_offset::<ProcessStats>(|r| r.page_faults_minor = 1)),
        ("pf_major", record_offset::<ProcessStats>(|r| r.page_faults_major = 1)),
        ("start_time_ns", record_offset::<ProcessStats>(|r| r.start_time_ns = 1)),
        ("open_fds", record_offset::<ProcessStats>(|r| r.open_fds = 1)),
        ("comm", record_offset::<ProcessStats>(|r| r.comm[0] = 1)),
    ];
    for (name, off) in p {
        println!("{name:<15}@ {off}");
    }
    let offs: Vec<usize> = p.iter().map(|x| x.1).collect();
    assert_eq!(offs, vec![0, 4, 8, 12, 16, 24, 32, 40, 48, 56, 64, 72, 80, 88, 96, 104, 112]);
    println!();
    println!("--- CpuStats sub-offsets ---");
    let c = [
        ("cpu_id", record_offset::<CpuStats>(|r| r.cpu_id = 1)),
        ("user_ns", record_offset::<CpuStats>(|r| r.user_ns = 1)),
        ("system_ns", record_offset::<CpuStats>(|r| r.system_ns = 1)),
        ("iowait_ns", record_offset::<CpuStats>(|r| r.iowait_ns = 1)),
        ("irq_ns", record_offset::<CpuStats>(|r| r.irq_ns = 1)),
        ("softirq_ns", record_offset::<CpuStats>(|r| r.softirq_ns = 1)),
        ("idle_ns", record_offset::<CpuStats>(|r| r.idle_ns = 1)),
        ("ctx_switches", record_offset::<CpuStats>(|r| r.ctx_switches = 1)),
    ];
    for (name, off) in c {
        println!("{name:<15}@ {off}");
    }
    let offs: Vec<usize> = c.iter().map(|x| x.1).collect();
    assert_eq!(offs, vec![0, 8, 16, 24, 32, 40, 48, 56]);
    println!();
    println!("--- NetIfaceStats sub-offsets ---");
    let n = [
        ("iface_idx", record_offset::<NetIfaceStats>(|r| r.iface_idx = 1)),
        ("rx_bytes", record_offset::<NetIfaceStats>(|r| r.rx_bytes = 1)),
        ("tx_bytes", record_offset::<NetIfaceStats>(|r| r.tx_bytes = 1)),
        ("rx_packets", record_offset::<NetIfaceStats>(|r| r.rx_packets = 1)),
        ("tx_packets", record_offset::<NetIfaceStats>(|r| r.tx_packets = 1)),
        ("rx_drops", record_offset::<NetIfaceStats>(|r| r.rx_drops = 1)),
        ("tx_drops", record_offset::<NetIfaceStats>(|r| r.tx_drops = 1)),
        ("rx_errors", record_offset::<NetIfaceStats>(|r| r.rx_errors = 1)),
        ("tx_errors", record_offset::<NetIfaceStats>(|r| r.tx_errors = 1)),
    ];
    for (name, off) in n {
        println!("{name:<15}@ {off}");
    }
    let offs: Vec<usize> = n.iter().map(|x| x.1).collect();
    assert_eq!(offs, vec![0, 8, 16, 24, 32, 40, 48, 56, 64]);
    println!();
    println!("--- BlockStats sub-offsets ---");
    let b = [
        ("device_major", record_offset::<BlockStats>(|r| r.device_major = 1)),
        ("device_minor", record_offset::<BlockStats>(|r| r.device_minor = 1)),
        ("reads_comp", record_offset::<BlockStats>(|r| r.reads_completed = 1)),
        ("writes_comp", record_offset::<BlockStats>(|r| r.writes_completed = 1)),
        ("read_bytes", record_offset::<BlockStats>(|r| r.read_bytes = 1)),
        ("write_bytes", record_offset::<BlockStats>(|r| r.write_bytes = 1)),
        ("read_lat_ns", record_offset::<BlockStats>(|r| r.read_latency_ns = 1)),
        ("write_lat_ns", record_offset::<BlockStats>(|r| r.write_latency_ns = 1)),
        ("io_inflight", record_offset::<BlockStats>(|r| r.io_inflight = 1)),
        ("io_ticks_ms", record_offset::<BlockStats>(|r| r.io_ticks_ms = 1)),
    ];
    for (name, off) in b {
        println!("{name:<15}@ {off}");
    }
    let offs: Vec<usize> = b.iter().map(|x| x.1).collect();
    assert_eq!(offs, vec![0, 4, 8, 16, 24, 32, 40, 48, 56, 64]);
    println!();
    println!("--- TcpStateSnapshot sub-offsets ---");
    let t = [
        ("established", record_offset::<TcpStateSnapshot>(|r| r.established = 1)),
        ("syn_sent", record_offset::<TcpStateSnapshot>(|r| r.syn_sent = 1)),
        ("syn_recv", record_offset::<TcpStateSnapshot>(|r| r.syn_recv = 1)),
        ("fin_wait1", record_offset::<TcpStateSnapshot>(|r| r.fin_wait1 = 1)),
        ("fin_wait2", record_offset::<TcpStateSnapshot>(|r| r.fin_wait2 = 1)),
        ("time_wait", record_offset::<TcpStateSnapshot>(|r| r.time_wait = 1)),
        ("close_wait", record_offset::<TcpStateSnapshot>(|r| r.close_wait = 1)),
        ("listen", record_offset::<TcpStateSnapshot>(|r| r.listen = 1)),
        ("listen_ofl", record_offset::<TcpStateSnapshot>(|r| r.listen_overflows = 1)),
        ("retransmits", record_offset::<TcpStateSnapshot>(|r| r.retransmits = 1)),
        ("resets_in", record_offset::<TcpStateSnapshot>(|r| r.resets_in = 1)),
        ("resets_out", record_offset::<TcpStateSnapshot>(|r| r.resets_out = 1)),
    ];
    for (name, off) in t {
        println!("{name:<15}@ {off}");
    }
    let offs: Vec<usize> = t.iter().map(|x| x.1).collect();
    assert_eq!(offs, vec![0, 8, 16, 24, 32, 40, 48, 56, 64, 72, 80, 88]);
}

#[test]
fn dump_per_cpu_sched_offsets() {
    println!("--- Per-CPU scheduler ---");
    let count = snapshot_offset(|s| s.sched_cpu_count = 1);
    let rows = snapshot_offset(|s| s.sched_per_cpu[0].p50_ns = 1) - 88;
    println!("sched_cpu_count             @ {count}");
    println!("sched_per_cpu               @ {rows}");
    println!("SchedSnapshotFixed size      = {}", <SchedSnapshotFixed as ShmPod>::byte_size());
    println!("MetricSnapshotV3 total       = {}", SNAPSHOT_SIZE);
    assert_eq!((count, rows), (68752, 68760));
    assert_eq!(<SchedSnapshotFixed as ShmPod>::byte_size(), 112);
}
