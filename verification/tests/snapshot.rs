use std::collections::HashMap;

use agl_health::aggregate::SchedSnapshot;
use agl_health::layout::{build_v3, CpuUtilDelta, SHM_MAGIC, SHM_VERSION, SNAPSHOT_SIZE};
use agl_health::metrics::{
    BlockStats, CgroupNetBytes, CpuStats, MemorySnapshot, NetIfaceStats, ProcessStats,
    SchedHistogram, SecurityEventCounts, TcpStateSnapshot,
};
use agl_health::procfs::{PidStatusFacts, ProcMemFacts};
use agl_health::snapshot::{
    cgroup_rows, collect_sample, process_rows, supplement_pids, LoadSnapshot, MetricSnapshot,
};

fn proc_row(pid: u32, cpu: u64) -> ProcessStats {
    ProcessStats { pid, cpu_user_ns: cpu, mem_rss_bytes: 1, ..Default::default() }
}

fn sample_v1() -> MetricSnapshot {
    let mut v1 = MetricSnapshot::empty();
    v1.memory.total_bytes = 1 << 30;
    v1.cpu_cores = vec![CpuStats { cpu_id: 0, irq_ns: 7, ..Default::default() }; 20];
    v1.net_ifaces = vec![NetIfaceStats { rx_bytes: 9, ..Default::default() }];
    v1.block = vec![BlockStats { device_major: 8, ..Default::default() }; 2];
    v1.top_processes = vec![proc_row(10, 500), proc_row(11, 400)];
    v1.sched_per_cpu = vec![SchedSnapshot { histogram: SchedHistogram::default(), p50_ns: 1, p95_ns: 2, p99_ns: 3 }];
    v1
}

#[test]
fn tiers_write_their_own_fields() {
    let mut s = MetricSnapshot::empty();
    let facts = ProcMemFacts { total_bytes: 100, swap_used_bytes: 5, psi_some_pct_x100: 12, ..Default::default() };
    s.apply_proc_tier(&facts, LoadSnapshot { load_1_bits: 1, load_5_bits: 2, load_15_bits: 3 });
    let sample = collect_sample(
        42,
        SchedSnapshot { histogram: SchedHistogram::default(), p50_ns: 0, p95_ns: 0, p99_ns: 0 },
        &vec![TcpStateSnapshot { listen: 1, ..Default::default() }; 2],
        &vec![NetIfaceStats { rx_bytes: 3, ..Default::default() }; 2],
        &vec![MemorySnapshot { page_faults_minor: 5, total_bytes: 999, ..Default::default() }; 2],
        vec![],
        &vec![proc_row(1, 1), proc_row(2, 2)],
        &vec![CpuStats::default(); 2],
        &vec![SecurityEventCounts::default()],
        &vec![CgroupNetBytes::default()],
    );
    assert_eq!(sample.tcp.listen, 2);
    assert_eq!(sample.net_ifaces.len(), 1);
    assert_eq!(sample.net_ifaces[0].rx_bytes, 6);
    assert_eq!(sample.page_faults_minor, 10);
    assert_eq!(sample.top_processes[0].pid, 2);
    assert_eq!(sample.cpu_cores[1].cpu_id, 1);
    s.apply_bpf_sample(sample);
    // The /proc tier's memory facts survive the kernel tier's update.
    assert_eq!(s.memory.total_bytes, 100);
    assert_eq!(s.memory.swap_used_bytes, 5);
    assert_eq!(s.memory.psi_some_pct_x100, 12);
    assert_eq!(s.memory.page_faults_minor, 10);
    assert_eq!(s.timestamp_ns, 42);
    assert_eq!(s.load.load_15_bits, 3);
}

#[test]
fn process_rows_apply_limit_and_pid_facts() {
    let top: Vec<ProcessStats> = (0..150).map(|i| proc_row(i, 1000 - i as u64)).collect();
    let mut facts = HashMap::new();
    facts.insert(3u32, PidStatusFacts { mem_rss_bytes: 77, mem_vms_bytes: 88, thread_count: 4 });
    let rows = process_rows(&top, None, &facts);
    assert_eq!(rows.len(), 100);
    assert_eq!((rows[3].mem_rss_bytes, rows[3].mem_vms_bytes, rows[3].thread_count), (77, 88, 4));
    assert_eq!(rows[4].mem_rss_bytes, 1);
    assert_eq!(process_rows(&top, Some(5), &facts).len(), 5);
    assert_eq!(process_rows(&top, Some(500), &facts).len(), 150);
    let cg: Vec<CgroupNetBytes> = (0..60).map(|i| CgroupNetBytes { cgroup_id: i, ..Default::default() }).collect();
    assert_eq!(cgroup_rows(&cg, None).len(), 50);
    assert_eq!(cgroup_rows(&cg, Some(2)).iter().map(|c| c.cgroup_id).collect::<Vec<_>>(), vec![0, 1]);
    let pids = supplement_pids(&top);
    assert_eq!(pids.len(), 100);
    assert_eq!(pids[7], 7);
}

#[test]
fn v3_snapshot_built_from_v1() {
    let v1 = sample_v1();
    let mut facts = HashMap::new();
    facts.insert(11u32, PidStatusFacts { mem_rss_bytes: 5, mem_vms_bytes: 6, thread_count: 3 });
    let util = vec![CpuUtilDelta { cpu_id: 0, user_ns: 11, system_ns: 12, iowait_ns: 13, idle_ns: 14 }];
    let v3 = build_v3(&v1, &facts, &util, 123);
    assert_eq!(v3.header.magic, SHM_MAGIC);
    assert_eq!(v3.header.version, SHM_VERSION);
    assert_eq!(v3.header.snapshot_size as usize, SNAPSHOT_SIZE);
    assert_eq!(v3.header.timestamp_ns_wall, 123);
    assert_eq!(v3.header.sequence, 0);
    assert_eq!(v3.memory.total_bytes, 1 << 30);
    // Core rows are capped at 16; /proc/stat figures overlay the first ones.
    assert_eq!(v3.cpu_core_count, 16);
    assert_eq!((v3.cpu_cores[0].user_ns, v3.cpu_cores[0].irq_ns), (11, 7));
    assert_eq!(v3.cpu_cores[1].user_ns, 0);
    assert_eq!(v3.net_iface_count, 1);
    assert_eq!(v3.block_dev_count, 2);
    assert_eq!(v3.process_count, 2);
    assert_eq!((v3.top_processes[1].pid, v3.top_processes[1].thread_count, v3.top_processes[1].mem_rss_bytes), (11, 3, 5));
    assert_eq!(v3.top_processes[2].pid, 0);
    assert_eq!(v3.sched_cpu_count, 1);
    assert_eq!(v3.sched_per_cpu[0].p99_ns, 3);

    // Without kernel CPU rows, /proc/stat decides the count.
    let mut bare = MetricSnapshot::empty();
    bare.top_processes = vec![];
    let v3 = build_v3(&bare, &HashMap::new(), &util, 0);
    assert_eq!(v3.cpu_core_count, 1);
    assert_eq!(v3.cpu_cores[0].idle_ns, 14);
}
