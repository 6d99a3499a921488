use agl_health::aggregate::{
    collect_cgroup_net, collect_per_cpu_cores, collect_top_processes, merge_sched,
    percentile_for_target, sum_percpu_mem, sum_percpu_sched, sum_percpu_security, sum_percpu_tcp,
    TOP_CGROUP_CAP, TOP_PROCESS_CAP,
};
use agl_health::metrics::{
    CgroupNetBytes, CpuStats, MemorySnapshot, ProcessStats, SchedHistogram, SecurityEventCounts,
    TcpStateSnapshot,
};

fn hist(buckets: [u64; 8], max: u64) -> SchedHistogram {
    SchedHistogram {
        buckets,
        total_count: buckets.iter().sum(),
        total_latency_ns: 1000,
        max_latency_ns: max,
    }
}

#[test]
fn per_cpu_histograms_sum_with_max_latency() {
    let a = hist([1, 2, 0, 0, 0, 0, 0, 0], 500);
    let b = hist([0, 1, 1, 0, 0, 0, 0, 1], 20_000_000_000);
    let total = sum_percpu_sched(&vec![a, b]);
    assert_eq!(total.buckets, [1, 3, 1, 0, 0, 0, 0, 1]);
    assert_eq!(total.total_count, 6);
    assert_eq!(total.total_latency_ns, 2000);
    assert_eq!(total.max_latency_ns, 20_000_000_000);
    let mut acc = a;
    merge_sched(&mut acc, &b);
    assert_eq!(acc.buckets, total.buckets);
}

#[test]
fn per_cpu_sums_wrap() {
    let t1 = TcpStateSnapshot { retransmits: u64::MAX, established: 1, ..Default::default() };
    let t2 = TcpStateSnapshot { retransmits: 2, established: 2, ..Default::default() };
    let t = sum_percpu_tcp(&vec![t1, t2]);
    assert_eq!(t.retransmits, 1);
    assert_eq!(t.established, 3);
    let s = sum_percpu_security(&vec![SecurityEventCounts { ptrace: 2, ..Default::default() }; 3]);
    assert_eq!(s.ptrace, 6);
    let m = sum_percpu_mem(&vec![MemorySnapshot { page_faults_minor: 4, oom_kills_total: 1, ..Default::default() }; 2]);
    assert_eq!((m.page_faults_minor, m.oom_kills_total), (8, 2));
    assert_eq!(sum_percpu_tcp(&vec![]).established, 0);
}

#[test]
fn cpu_rows_are_numbered_by_position() {
    let rows = collect_per_cpu_cores(&vec![CpuStats { irq_ns: 5, cpu_id: 99, ..Default::default() }; 3]);
    assert_eq!(rows.iter().map(|c| c.cpu_id).collect::<Vec<_>>(), vec![0, 1, 2]);
    assert!(rows.iter().all(|c| c.irq_ns == 5));
}

#[test]
fn top_processes_by_cpu_time_stable() {
    let p = |pid: u32, cpu: u64| ProcessStats { pid, cpu_user_ns: cpu, ..Default::default() };
    let out = collect_top_processes(&vec![p(1, 10), p(2, 30), p(3, 10), p(4, 20)]);
    assert_eq!(out.iter().map(|x| x.pid).collect::<Vec<_>>(), vec![2, 4, 1, 3]);
    let many: Vec<ProcessStats> = (0..300).map(|i| p(i, i as u64)).collect();
    let top = collect_top_processes(&many);
    assert_eq!(top.len(), TOP_PROCESS_CAP);
    assert_eq!(top[0].pid, 299);
    assert_eq!(top[TOP_PROCESS_CAP - 1].pid, 300 - TOP_PROCESS_CAP as u32);
}

#[test]
fn top_cgroups_by_traffic() {
    let c = |id: u64, rx: u64, tx: u64| CgroupNetBytes { cgroup_id: id, rx_bytes: rx, tx_bytes: tx, ..Default::default() };
    let out = collect_cgroup_net(&vec![c(1, 10, 10), c(2, 100, 0), c(3, u64::MAX, 5)]);
    assert_eq!(out.iter().map(|x| x.cgroup_id).collect::<Vec<_>>(), vec![3, 2, 1]);
    let many: Vec<CgroupNetBytes> = (0..200).map(|i| c(i, i, 0)).collect();
    assert_eq!(collect_cgroup_net(&many).len(), TOP_CGROUP_CAP);
}

#[test]
fn percentiles_report_bucket_upper_bounds() {
    let h = hist([50, 40, 9, 1, 0, 0, 0, 0], 0);
    // Target ranks as the daemon computes them: ceil(total * p).
    assert_eq!(percentile_for_target(&h, 50), 10_000);
    assert_eq!(percentile_for_target(&h, 95), 1_000_000);
    assert_eq!(percentile_for_target(&h, 100), 10_000_000);
    assert_eq!(percentile_for_target(&h, 101), u64::MAX);
    assert_eq!(percentile_for_target(&SchedHistogram::default(), 1), 0);
}
