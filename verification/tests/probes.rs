use agl_health::bpf_map::BpfHashMap;
use agl_health::events::ProcessEventKind;
use agl_health::metrics::{CpuStats, EventDropCounts, MemorySnapshot, SchedHistogram};
use agl_health::probes::{
    bucket_of, drop_network, drop_process, drop_security, handle_mm_fault, irq_entry,
    irq_handler_exit, oom_kill_process, softirq_exit, update_histogram, TaskMaps,
    PROCESS_MAP_ENTRIES,
};

fn comm(name: &[u8]) -> [u8; 16] {
    let mut c = [0u8; 16];
    c[..name.len()].copy_from_slice(name);
    c
}

#[test]
fn drop_counters_count_per_ring() {
    let mut d = EventDropCounts::default();
    drop_process(&mut d);
    drop_process(&mut d);
    drop_security(&mut d);
    drop_network(&mut d);
    assert_eq!((d.process, d.security, d.network), (2, 1, 1));
    let mut full = EventDropCounts { process: u64::MAX, security: 0, network: 0 };
    drop_process(&mut full);
    assert_eq!(full.process, 0);
}

#[test]
fn histogram_buckets_are_log_spaced() {
    assert_eq!(bucket_of(0), 0);
    assert_eq!(bucket_of(9_999), 0);
    assert_eq!(bucket_of(10_000), 1);
    assert_eq!(bucket_of(999_999), 2);
    assert_eq!(bucket_of(5_000_000), 3);
    assert_eq!(bucket_of(99_999_999), 4);
    assert_eq!(bucket_of(100_000_000), 5);
    assert_eq!(bucket_of(9_999_999_999), 6);
    assert_eq!(bucket_of(u64::MAX), 7);

    let mut h = SchedHistogram::default();
    update_histogram(&mut h, 50_000);
    update_histogram(&mut h, 20_000_000_000);
    update_histogram(&mut h, 10);
    assert_eq!(h.buckets, [1, 1, 0, 0, 0, 0, 0, 1]);
    assert_eq!(h.total_count, 3);
    assert_eq!(h.total_latency_ns, 20_000_050_010);
    assert_eq!(h.max_latency_ns, 20_000_000_000);
}

#[test]
fn context_switch_accounting() {
    let mut maps = TaskMaps::new();
    let mut hist = SchedHistogram::default();
    // Task 7 wakes at t=1000 and is switched in at t=6000 (5 us wait).
    maps.sched_wakeup(7, 1_000);
    maps.sched_switch(&mut hist, 0, [0; 16], 0, 7, comm(b"worker"), 6_000);
    assert_eq!(hist.total_count, 1);
    assert_eq!(hist.buckets[0], 1);
    assert_eq!(maps.wakeup_times.get(7), None);
    assert_eq!(maps.oncpu_since.get(7), Some(6_000));
    let p = maps.process_stats.get(7).unwrap();
    assert_eq!(p.pid, 7);
    assert_eq!(&p.comm[..6], b"worker");
    // Task 7 is preempted (still runnable) at t=16000: 10 us of CPU.
    maps.sched_switch(&mut hist, 7, comm(b"worker"), 0, 9, comm(b"other"), 16_000);
    let p = maps.process_stats.get(7).unwrap();
    assert_eq!(p.cpu_user_ns, 10_000);
    assert_eq!(p.involuntary_ctx_sw, 1);
    assert_eq!(p.voluntary_ctx_sw, 0);
    assert_eq!(maps.oncpu_since.get(7), None);
    assert_eq!(maps.oncpu_since.get(9), Some(16_000));
    // Task 9 blocks (state 1) at t=20000.
    maps.sched_switch(&mut hist, 9, comm(b"other"), 1, 0, [0; 16], 20_000);
    let q = maps.process_stats.get(9).unwrap();
    assert_eq!(q.cpu_user_ns, 4_000);
    assert_eq!(q.voluntary_ctx_sw, 1);
    // Switching to the idle task records nothing for pid 0.
    assert_eq!(maps.process_stats.get(0).map(|p| p.pid), None);
    assert_eq!(hist.total_count, 1);
}

#[test]
fn lifecycle_exec_fork_exit() {
    let mut maps = TaskMaps::new();
    let fork = maps.on_fork(100, 200, 1000, 5_000, comm(b"sh"));
    assert_eq!(fork.kind, ProcessEventKind::Fork.code());
    assert_eq!((fork.pid, fork.ppid, fork.uid), (200, 100, 1000));
    assert_eq!(maps.fetch_ppid(200), 100);
    assert_eq!(maps.process_stats.get(200).unwrap().start_time_ns, 5_000);

    let exec = maps.on_exec(200, 1000, 6_000, comm(b"ls"));
    assert_eq!(exec.kind, ProcessEventKind::Exec.code());
    assert_eq!(exec.ppid, 100);
    assert_eq!(&exec.comm[..2], b"ls");
    assert!(exec.filename.iter().all(|&b| b == 0));

    // A non-leader thread exits: no event, thread entries dropped.
    maps.on_do_exit(200, 0xFFFF_FFFF_0000_0003);
    maps.sched_wakeup(201, 1);
    assert!(maps.on_exit(200, 201, 1000, 7_000, comm(b"ls")).is_none());
    assert_eq!(maps.wakeup_times.get(201), None);
    assert_eq!(maps.exit_codes.get(200), None);

    // The leader exits with the stashed (low 32 bits of the) code.
    maps.on_do_exit(200, 0xFFFF_FFFF_0000_0003);
    let exit = maps.on_exit(200, 200, 1000, 8_000, comm(b"ls")).unwrap();
    assert_eq!(exit.kind, ProcessEventKind::Exit.code());
    assert_eq!(exit.exit_code, 3);
    assert_eq!(exit.ppid, 100);
    assert_eq!(maps.process_stats.get(200).map(|p| p.pid), None);
    assert_eq!(maps.fetch_ppid(200), 0);
}

#[test]
fn exec_keeps_accumulated_counters() {
    let mut maps = TaskMaps::new();
    maps.vfs_read(5, 100);
    maps.vfs_write(5, 40);
    maps.vfs_read(5, 0);
    maps.record_exec(5, 33, 9, comm(b"new"));
    let p = maps.process_stats.get(5).unwrap();
    assert_eq!((p.read_bytes, p.write_bytes, p.uid, p.start_time_ns), (100, 40, 33, 9));
    assert_eq!(maps.take_exit_code(5), 0);
}

#[test]
fn full_table_rejects_new_keys_but_updates_present_ones() {
    let mut m: BpfHashMap<u32, u64> = BpfHashMap::with_max_entries(2);
    assert!(m.insert(1, 10));
    assert!(m.insert(2, 20));
    assert!(!m.insert(3, 30));
    assert_eq!(m.get(3), None);
    assert!(m.insert(1, 11));
    assert_eq!(m.get(1), Some(11));
    assert_eq!(m.len(), 2);
    m.remove(2);
    assert!(m.insert(3, 30));
    assert_eq!(m.len(), 2);

    let mut maps = TaskMaps::new();
    for pid in 0..PROCESS_MAP_ENTRIES as u32 {
        assert!(maps.upsert(pid + 1).is_some());
    }
    assert!(maps.upsert(999_999).is_none());
    maps.record_exec(999_999, 1, 1, comm(b"x"));
    assert_eq!(maps.process_stats.get(999_999).map(|p| p.pid), None);
    assert_eq!(maps.process_stats.len(), PROCESS_MAP_ENTRIES);
}

#[test]
fn interrupt_time_is_charged_once() {
    let mut slot = 0u64;
    let mut cpu = CpuStats::default();
    irq_handler_exit(&mut slot, &mut cpu, 500);
    assert_eq!(cpu.irq_ns, 0);
    irq_entry(&mut slot, 1_000);
    irq_handler_exit(&mut slot, &mut cpu, 1_250);
    assert_eq!(cpu.irq_ns, 250);
    assert_eq!(slot, 0);
    irq_handler_exit(&mut slot, &mut cpu, 9_000);
    assert_eq!(cpu.irq_ns, 250);
    let mut soft = 0u64;
    irq_entry(&mut soft, 100);
    softirq_exit(&mut soft, &mut cpu, 50);
    assert_eq!(cpu.softirq_ns, 0);
    assert_eq!(soft, 0);
}

#[test]
fn page_faults_count_only_user_faults() {
    let mut mem = MemorySnapshot::default();
    handle_mm_fault(&mut mem, 0x01);
    handle_mm_fault(&mut mem, 0x40 | 0x01);
    oom_kill_process(&mut mem);
    assert_eq!(mem.page_faults_minor, 1);
    assert_eq!(mem.oom_kills_total, 1);
}
