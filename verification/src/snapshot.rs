//! The daemon's metric snapshot: the single record every API route reads,
//! refreshed by two independent writers. The kernel-map aggregator owns
//! the scheduler, TCP, interface, block, process, CPU, security and cgroup
//! data and three memory counters; the `/proc` tier owns the remaining
//! memory facts and the load averages. Each writer replaces only its own
//! fields, so their updates commute.

use std::collections::HashMap;

use vstd::prelude::*;

use crate::aggregate::{
    collect_cgroup_net, collect_per_cpu_cores, collect_top_processes, is_top_n, iface_total,
    mem_total, process_cpu_key, security_total, sum_percpu_iface, sum_percpu_mem,
    sum_percpu_security, sum_percpu_tcp, tcp_total, cgroup_traffic_key, SchedSnapshot,
    TOP_CGROUP_CAP, TOP_PROCESS_CAP,
};
use crate::metrics::{
    BlockStats, CgroupNetBytes, CpuStats, MemorySnapshot, NetIfaceStats, ProcessStats,
    SchedHistogram, SecurityEventCounts, TcpStateSnapshot,
};
use crate::procfs::{PidStatusFacts, ProcMemFacts};

verus! {

broadcast use vstd::std_specs::hash::group_hash_axioms;

/// System load averages, each held as the bit pattern of its IEEE-754
/// double (`f64::to_bits`).
#[derive(Copy, Clone, Debug, Default, PartialEq, Eq, Structural)]
pub struct LoadSnapshot {
    pub load_1_bits: u64,
    pub load_5_bits: u64,
    pub load_15_bits: u64,
}

/// Full metric snapshot refreshed by the aggregator and the `/proc` tier.
#[derive(Clone, Debug)]
pub struct MetricSnapshot {
    /// Wall-clock nanoseconds since the UNIX epoch of the last aggregator
    /// tick; 0 before the first one.
    pub timestamp_ns: u64,
    pub memory: MemorySnapshot,
    pub sched: SchedSnapshot,
    pub tcp: TcpStateSnapshot,
    pub load: LoadSnapshot,
    /// One entry per online CPU core.
    pub cpu_cores: Vec<CpuStats>,
    /// One entry per network interface.
    pub net_ifaces: Vec<NetIfaceStats>,
    /// One entry per block device seen.
    pub block: Vec<BlockStats>,
    /// Top processes by on-CPU time, descending.
    pub top_processes: Vec<ProcessStats>,
    pub security: SecurityEventCounts,
    /// Top cgroups by rx + tx bytes, descending.
    pub cgroup_net_top: Vec<CgroupNetBytes>,
    /// Per-CPU scheduler histograms with percentiles.
    pub sched_per_cpu: Vec<SchedSnapshot>,
}

/// The kernel-map portion of a snapshot produced by one aggregator tick.
#[derive(Clone, Debug)]
pub struct BpfSample {
    pub timestamp_ns: u64,
    pub sched: SchedSnapshot,
    pub tcp: TcpStateSnapshot,
    pub net_ifaces: Vec<NetIfaceStats>,
    pub block: Vec<BlockStats>,
    pub top_processes: Vec<ProcessStats>,
    pub cpu_cores: Vec<CpuStats>,
    pub security: SecurityEventCounts,
    pub cgroup_net_top: Vec<CgroupNetBytes>,
    pub page_faults_minor: u64,
    pub page_faults_major: u64,
    pub oom_kills_total: u64,
}

/// `s` after the `/proc` tier wrote `facts` and `load`.
pub open spec fn proc_applied(s: MetricSnapshot, facts: ProcMemFacts, load: LoadSnapshot) -> MetricSnapshot {
    MetricSnapshot {
        memory: MemorySnapshot {
            total_bytes: facts.total_bytes,
            free_bytes: facts.free_bytes,
            cached_bytes: facts.cached_bytes,
            buffered_bytes: facts.buffered_bytes,
            slab_bytes: facts.slab_bytes,
            swap_used_bytes: facts.swap_used_bytes,
            swap_free_bytes: facts.swap_free_bytes,
            psi_some_pct_x100: facts.psi_some_pct_x100,
            psi_full_pct_x100: facts.psi_full_pct_x100,
            ..s.memory
        },
        load,
        ..s
    }
}

/// `s` after the aggregator wrote `b`.
pub open spec fn bpf_applied(s: MetricSnapshot, b: BpfSample) -> MetricSnapshot {
    MetricSnapshot {
        timestamp_ns: b.timestamp_ns,
        sched: b.sched,
        tcp: b.tcp,
        net_ifaces: b.net_ifaces,
        block: b.block,
        top_processes: b.top_processes,
        cpu_cores: b.cpu_cores,
        security: b.security,
        cgroup_net_top: b.cgroup_net_top,
        memory: MemorySnapshot {
            page_faults_minor: b.page_faults_minor,
            page_faults_major: b.page_faults_major,
            oom_kills_total: b.oom_kills_total,
            ..s.memory
        },
        ..s
    }
}

/// The memory record takes each field from its one source, whatever the
/// order of the two writers: totals, cache, slab, swap and pressure from
/// the `/proc` tier, page faults and OOM kills from the aggregator.
pub proof fn lemma_memory_field_sources(s: MetricSnapshot, facts: ProcMemFacts, load: LoadSnapshot, b: BpfSample)
    ensures
        ({
            let m = proc_applied(bpf_applied(s, b), facts, load).memory;
            &&& m.total_bytes == facts.total_bytes && m.free_bytes == facts.free_bytes
            &&& m.cached_bytes == facts.cached_bytes && m.buffered_bytes == facts.buffered_bytes
            &&& m.slab_bytes == facts.slab_bytes
            &&& m.swap_used_bytes == facts.swap_used_bytes && m.swap_free_bytes == facts.swap_free_bytes
            &&& m.psi_some_pct_x100 == facts.psi_some_pct_x100
            &&& m.psi_full_pct_x100 == facts.psi_full_pct_x100
            &&& m.page_faults_minor == b.page_faults_minor
            &&& m.page_faults_major == b.page_faults_major
            &&& m.oom_kills_total == b.oom_kills_total
            &&& proc_applied(bpf_applied(s, b), facts, load).load == load
        }),
{
}

impl MetricSnapshot {
    /// The "no data yet" snapshot: every counter zero, every list empty.
    pub fn empty() -> (s: Self)
        ensures
            s.timestamp_ns == 0,
            s.memory == MemorySnapshot::spec_zeroed(),
            s.sched.histogram.is_zeroed(),
            s.sched.p50_ns == 0 && s.sched.p95_ns == 0 && s.sched.p99_ns == 0,
            s.tcp == TcpStateSnapshot::spec_zeroed(),
            s.load == (LoadSnapshot { load_1_bits: 0, load_5_bits: 0, load_15_bits: 0 }),
            s.cpu_cores@.len() == 0,
            s.net_ifaces@.len() == 0,
            s.block@.len() == 0,
            s.top_processes@.len() == 0,
            s.security == SecurityEventCounts::spec_zeroed(),
            s.cgroup_net_top@.len() == 0,
            s.sched_per_cpu@.len() == 0,
    {
        MetricSnapshot {
            timestamp_ns: 0,
            memory: MemorySnapshot::zeroed(),
            sched: SchedSnapshot { histogram: SchedHistogram::zeroed(), p50_ns: 0, p95_ns: 0, p99_ns: 0 },
            tcp: TcpStateSnapshot::zeroed(),
            load: LoadSnapshot { load_1_bits: 0, load_5_bits: 0, load_15_bits: 0 },
            cpu_cores: Vec::new(),
            net_ifaces: Vec::new(),
            block: Vec::new(),
            top_processes: Vec::new(),
            security: SecurityEventCounts::zeroed(),
            cgroup_net_top: Vec::new(),
            sched_per_cpu: Vec::new(),
        }
    }

    /// Write the `/proc`-sourced memory facts and load averages, leaving
    /// every aggregator-owned field as it was.
    pub fn apply_proc_tier(&mut self, facts: &ProcMemFacts, load: LoadSnapshot)
        ensures
            *final(self) == proc_applied(*old(self), *facts, load),
    {
        self.memory.total_bytes = facts.total_bytes;
        self.memory.free_bytes = facts.free_bytes;
        self.memory.cached_bytes = facts.cached_bytes;
        self.memory.buffered_bytes = facts.buffered_bytes;
        self.memory.slab_bytes = facts.slab_bytes;
        self.memory.swap_used_bytes = facts.swap_used_bytes;
        self.memory.swap_free_bytes = facts.swap_free_bytes;
        self.memory.psi_some_pct_x100 = facts.psi_some_pct_x100;
        self.memory.psi_full_pct_x100 = facts.psi_full_pct_x100;
        self.load = load;
    }

    /// Write one aggregator tick, leaving every `/proc`-owned field as it
    /// was.
    pub fn apply_bpf_sample(&mut self, sample: BpfSample)
        ensures
            *final(self) == bpf_applied(*old(self), sample),
    {
        self.timestamp_ns = sample.timestamp_ns;
        self.sched = sample.sched;
        self.tcp = sample.tcp;
        self.net_ifaces = sample.net_ifaces;
        self.block = sample.block;
        self.top_processes = sample.top_processes;
        self.cpu_cores = sample.cpu_cores;
        self.security = sample.security;
        self.cgroup_net_top = sample.cgroup_net_top;
        self.memory.page_faults_minor = sample.page_faults_minor;
        self.memory.page_faults_major = sample.page_faults_major;
        self.memory.oom_kills_total = sample.oom_kills_total;
    }
}

/// The two writers never overwrite each other: applying a `/proc` tier
/// update and an aggregator tick gives the same snapshot in either order.
pub proof fn lemma_tier_updates_commute(s: MetricSnapshot, facts: ProcMemFacts, load: LoadSnapshot, b: BpfSample)
    ensures
        proc_applied(bpf_applied(s, b), facts, load) == bpf_applied(proc_applied(s, facts, load), b),
{
}

/// Assemble one aggregator tick from the per-CPU and per-key map contents
/// read from the kernel: per-CPU records are summed, the interface total
/// becomes the single interface row, processes and cgroups become their
/// top lists and CPU rows are numbered by position.
pub fn collect_sample(
    timestamp_ns: u64,
    sched: SchedSnapshot,
    tcp_percpu: &Vec<TcpStateSnapshot>,
    iface_percpu: &Vec<NetIfaceStats>,
    mem_percpu: &Vec<MemorySnapshot>,
    block: Vec<BlockStats>,
    processes: &Vec<ProcessStats>,
    cpu_percpu: &Vec<CpuStats>,
    security_percpu: &Vec<SecurityEventCounts>,
    cgroups: &Vec<CgroupNetBytes>,
) -> (b: BpfSample)
    ensures
        b.timestamp_ns == timestamp_ns,
        b.sched == sched,
        b.tcp == tcp_total(tcp_percpu@),
        b.net_ifaces@ == seq![iface_total(iface_percpu@)],
        b.block == block,
        is_top_n(processes@, processes@.map_values(|p: ProcessStats| process_cpu_key(p)), TOP_PROCESS_CAP as int, b.top_processes@),
        b.cpu_cores.len() == cpu_percpu.len(),
        forall|i: int| 0 <= i < cpu_percpu.len() ==> #[trigger] b.cpu_cores@[i] == (CpuStats { cpu_id: i as u32, ..cpu_percpu@[i] }),
        b.security == security_total(security_percpu@),
        is_top_n(cgroups@, cgroups@.map_values(|e: CgroupNetBytes| cgroup_traffic_key(e)), TOP_CGROUP_CAP as int, b.cgroup_net_top@),
        b.page_faults_minor == mem_total(mem_percpu@).page_faults_minor,
        b.page_faults_major == mem_total(mem_percpu@).page_faults_major,
        b.oom_kills_total == mem_total(mem_percpu@).oom_kills_total,
{
    let tcp = sum_percpu_tcp(tcp_percpu);
    let iface = sum_percpu_iface(iface_percpu);
    let memory = sum_percpu_mem(mem_percpu);
    let top_processes = collect_top_processes(processes);
    let cpu_cores = collect_per_cpu_cores(cpu_percpu);
    let security = sum_percpu_security(security_percpu);
    let cgroup_net_top = collect_cgroup_net(cgroups);
    let mut net_ifaces: Vec<NetIfaceStats> = Vec::new();
    net_ifaces.push(iface);
    assert(net_ifaces@ =~= seq![iface_total(iface_percpu@)]);
    BpfSample {
        timestamp_ns,
        sched,
        tcp,
        net_ifaces,
        block,
        top_processes,
        cpu_cores,
        security,
        cgroup_net_top,
        page_faults_minor: memory.page_faults_minor,
        page_faults_major: memory.page_faults_major,
        oom_kills_total: memory.oom_kills_total,
    }
}

// ----- API views -----

/// Default number of processes returned when no limit is given.
pub const DEFAULT_PROCESS_LIMIT: usize = 100;

/// Default number of cgroups returned when no limit is given.
pub const DEFAULT_CGROUP_LIMIT: usize = 50;

/// Maximum number of top processes supplemented from `/proc` per tick.
pub const MAX_PID_SUPPLEMENTS: usize = 100;

/// `p` with the `/proc` supplements of `f` (resident and virtual size,
/// thread count) written over it, when there are any.
pub open spec fn with_pid_facts(p: ProcessStats, f: Option<PidStatusFacts>) -> ProcessStats {
    match f {
        Some(facts) => ProcessStats {
            mem_rss_bytes: facts.mem_rss_bytes,
            mem_vms_bytes: facts.mem_vms_bytes,
            thread_count: facts.thread_count,
            ..p
        },
        None => p,
    }
}

/// Number of rows kept for `len` available rows and an optional limit.
pub open spec fn limited_len(len: int, limit: Option<usize>, default: usize) -> int {
    let l = match limit {
        Some(l) => l as int,
        None => default as int,
    };
    if len > l { l } else { len }
}

/// The first `limit` (default 100) top processes, each with its cached
/// `/proc/<pid>/status` supplements applied.
pub fn process_rows(top: &Vec<ProcessStats>, limit: Option<usize>, facts: &HashMap<u32, PidStatusFacts>) -> (out: Vec<ProcessStats>)
    requires
        vstd::std_specs::hash::obeys_key_model::<u32>(),
    ensures
        out.len() == limited_len(top.len() as int, limit, DEFAULT_PROCESS_LIMIT),
        forall|i: int| 0 <= i < out.len() ==> #[trigger] out@[i] == with_pid_facts(top@[i], if facts@.contains_key(top@[i].pid) { Some(facts@[top@[i].pid]) } else { None }),
{
    let lim = match limit {
        Some(l) => l,
        None => DEFAULT_PROCESS_LIMIT,
    };
    let n = if top.len() > lim { lim } else { top.len() };
    let mut out: Vec<ProcessStats> = Vec::with_capacity(n);
    let mut i: usize = 0;
    while i < n
        invariant
            n <= top.len(),
            i <= n,
            out.len() == i,
            vstd::std_specs::hash::obeys_key_model::<u32>(),
            forall|k: int| 0 <= k < i ==> #[trigger] out@[k] == with_pid_facts(top@[k], if facts@.contains_key(top@[k].pid) { Some(facts@[top@[k].pid]) } else { None }),
        decreases n - i,
    {
        let mut row = top[i];
        match facts.get(&row.pid) {
            Some(f) => {
                row.mem_rss_bytes = f.mem_rss_bytes;
                row.mem_vms_bytes = f.mem_vms_bytes;
                row.thread_count = f.thread_count;
            },
            None => {},
        }
        out.push(row);
        i = i + 1;
    }
    out
}

/// The first `limit` (default 50) entries of the cgroup traffic list.
pub fn cgroup_rows(top: &Vec<CgroupNetBytes>, limit: Option<usize>) -> (out: Vec<CgroupNetBytes>)
    ensures
        out@ == top@.take(limited_len(top.len() as int, limit, DEFAULT_CGROUP_LIMIT)),
{
    let lim = match limit {
        Some(l) => l,
        None => DEFAULT_CGROUP_LIMIT,
    };
    let mut out = top.clone();
    if out.len() > lim {
        out.truncate(lim);
    }
    assert(out@ =~= top@.take(limited_len(top.len() as int, limit, DEFAULT_CGROUP_LIMIT)));
    out
}

/// The pids of the first `MAX_PID_SUPPLEMENTS` top processes, whose
/// `/proc/<pid>/status` the `/proc` tier reads each tick.
pub fn supplement_pids(top: &Vec<ProcessStats>) -> (out: Vec<u32>)
    ensures
        out.len() == if top.len() > MAX_PID_SUPPLEMENTS { MAX_PID_SUPPLEMENTS as int } else { top.len() as int },
        forall|i: int| 0 <= i < out.len() ==> #[trigger] out@[i] == top@[i].pid,
{
    let n = if top.len() > MAX_PID_SUPPLEMENTS { MAX_PID_SUPPLEMENTS } else { top.len() };
    let mut out: Vec<u32> = Vec::with_capacity(n);
    let mut i: usize = 0;
    while i < n
        invariant
            n <= top.len(),
            i <= n,
            out.len() == i,
            forall|k: int| 0 <= k < i ==> #[trigger] out@[k] == top@[k].pid,
        decreases n - i,
    {
        out.push(top[i].pid);
        i = i + 1;
    }
    out
}

} // verus!
