//! The fixed-size metric snapshot published through POSIX shared memory.
//!
//! The segment starts with a 64-byte header carrying a magic number, the
//! schema version, a seqlock sequence counter (odd while a write is in
//! progress), the wall-clock time of the snapshot and the snapshot size;
//! the payload follows at offset 64. Every collection is a fixed-capacity
//! row array paired with a count of valid rows; rows past the count are
//! zero.

use std::collections::HashMap;

use vstd::prelude::*;

use crate::aggregate::SchedSnapshot;
use crate::metrics::{
    BlockStats, CpuStats, MemorySnapshot, NetIfaceStats, ProcessStats, SchedHistogram,
    SecurityEventCounts, TcpStateSnapshot,
};
use crate::procfs::PidStatusFacts;
use crate::snapshot::{with_pid_facts, MetricSnapshot};
use crate::{V3_MAX_BLOCK_DEVS, V3_MAX_CPU_CORES, V3_MAX_NET_IFACES, V3_MAX_PROCESSES};

verus! {

broadcast use vstd::std_specs::hash::group_hash_axioms;

/// Magic number at offset 0 of the segment: ASCII "AGL_HELT".
pub const SHM_MAGIC: u64 = 0x4147_4C5F_4845_4C54;

/// Current schema version; bumped on any breaking layout change.
pub const SHM_VERSION: u32 = 1;

/// Size in bytes of the snapshot, header included.
pub const SNAPSHOT_SIZE: usize = 70552;

/// Byte offset of the seqlock sequence counter.
pub const SEQ_OFFSET: usize = 16;


/// The 64-byte segment header.
#[derive(Copy, Clone, Debug)]
pub struct ShmHeader {
    pub magic: u64,
    pub version: u32,
    pub _pad0: u32,
    /// Seqlock counter: even when stable, odd while a write is in progress.
    pub sequence: u64,
    /// Wall-clock nanoseconds since the UNIX epoch of the snapshot.
    pub timestamp_ns_wall: u64,
    /// Size of the whole snapshot, for reader-side sanity checks.
    pub snapshot_size: u32,
    pub _pad1: u32,
    pub _reserved: [u8; 24],
}


/// Whether every byte of `r` is zero.
pub open spec fn all_zero_bytes(r: Seq<u8>) -> bool {
    forall|i: int| 0 <= i < r.len() ==> r[i] == 0u8
}

impl ShmHeader {
    /// A fresh header: magic, version and size set, sequence 0 (stable),
    /// timestamp 0, padding and reserved bytes zero.
    pub open spec fn is_fresh(self) -> bool {
        &&& self.magic == SHM_MAGIC
        &&& self.version == SHM_VERSION
        &&& self._pad0 == 0
        &&& self.sequence == 0
        &&& self.timestamp_ns_wall == 0
        &&& self.snapshot_size == SNAPSHOT_SIZE as u32
        &&& self._pad1 == 0
        &&& all_zero_bytes(self._reserved@)
    }

    /// A header ready to be written into shared memory.
    pub fn new() -> (h: Self)
        ensures
            h.is_fresh(),
    {
        ShmHeader {
            magic: SHM_MAGIC,
            version: SHM_VERSION,
            _pad0: 0,
            sequence: 0,
            timestamp_ns_wall: 0,
            snapshot_size: SNAPSHOT_SIZE as u32,
            _pad1: 0,
            _reserved: [0u8; 24],
        }
    }
}

/// Scheduler histogram plus pre-computed percentiles, fixed layout.
#[derive(Copy, Clone, Debug, Default)]
pub struct SchedSnapshotFixed {
    pub histogram: SchedHistogram,
    pub p50_ns: u64,
    pub p95_ns: u64,
    pub p99_ns: u64,
}


/// Load averages, each the bit pattern of an IEEE-754 double.
#[derive(Copy, Clone, Debug, Default)]
pub struct LoadSnapshotFixed {
    pub load_1_bits: u64,
    pub load_5_bits: u64,
    pub load_15_bits: u64,
}


/// One CPU's utilisation sourced from `/proc/stat` (nanoseconds per
/// class over the last interval).
#[derive(Copy, Clone, Debug, Default)]
pub struct CpuUtilDelta {
    pub cpu_id: u32,
    pub user_ns: u64,
    pub system_ns: u64,
    pub iowait_ns: u64,
    pub idle_ns: u64,
}

/// The snapshot written into the shared-memory segment. Each row vector
/// has exactly its layout capacity (`wf`); rows at or past the matching
/// count are zero.
#[derive(Clone, Debug)]
pub struct MetricSnapshotV3 {
    pub header: ShmHeader,
    pub memory: MemorySnapshot,
    pub load: LoadSnapshotFixed,
    pub sched: SchedSnapshotFixed,
    pub tcp: TcpStateSnapshot,
    pub security: SecurityEventCounts,
    pub cpu_core_count: u32,
    pub _pad_cpu: u32,
    pub cpu_cores: Vec<CpuStats>,
    pub net_iface_count: u32,
    pub _pad_net: u32,
    pub net_ifaces: Vec<NetIfaceStats>,
    pub block_dev_count: u32,
    pub _pad_blk: u32,
    pub block_devs: Vec<BlockStats>,
    pub process_count: u32,
    pub _pad_proc: u32,
    pub top_processes: Vec<ProcessStats>,
    pub sched_cpu_count: u32,
    pub _pad_sched_cpu: u32,
    pub sched_per_cpu: Vec<SchedSnapshotFixed>,
}

/// The all-zero fixed scheduler snapshot.
pub open spec fn sched_fixed_zeroed(s: SchedSnapshotFixed) -> bool {
    s.histogram.is_zeroed() && s.p50_ns == 0 && s.p95_ns == 0 && s.p99_ns == 0
}

impl MetricSnapshotV3 {
    /// Every row array has its layout capacity.
    pub open spec fn wf(&self) -> bool {
        &&& self.cpu_cores@.len() == V3_MAX_CPU_CORES
        &&& self.net_ifaces@.len() == V3_MAX_NET_IFACES
        &&& self.block_devs@.len() == V3_MAX_BLOCK_DEVS
        &&& self.top_processes@.len() == V3_MAX_PROCESSES
        &&& self.sched_per_cpu@.len() == V3_MAX_CPU_CORES
    }
}

impl MetricSnapshotV3 {
    /// Whether every row array has its layout capacity.
    pub fn is_well_formed(&self) -> (r: bool)
        ensures
            r == self.wf(),
    {
        self.cpu_cores.len() == V3_MAX_CPU_CORES && self.net_ifaces.len() == V3_MAX_NET_IFACES
            && self.block_devs.len() == V3_MAX_BLOCK_DEVS && self.top_processes.len()
            == V3_MAX_PROCESSES && self.sched_per_cpu.len() == V3_MAX_CPU_CORES
    }
}

fn zero_sched_fixed() -> (s: SchedSnapshotFixed)
    ensures
        sched_fixed_zeroed(s),
{
    SchedSnapshotFixed { histogram: SchedHistogram::zeroed(), p50_ns: 0, p95_ns: 0, p99_ns: 0 }
}

fn zero_header() -> (h: ShmHeader)
    ensures
        h.magic == 0 && h.version == 0 && h._pad0 == 0 && h.sequence == 0,
        h.timestamp_ns_wall == 0 && h.snapshot_size == 0 && h._pad1 == 0,
        all_zero_bytes(h._reserved@),
{
    ShmHeader {
        magic: 0,
        version: 0,
        _pad0: 0,
        sequence: 0,
        timestamp_ns_wall: 0,
        snapshot_size: 0,
        _pad1: 0,
        _reserved: [0u8; 24],
    }
}

/// A vector of `n` copies of `x`.
fn filled<T: Copy>(x: T, n: usize) -> (v: Vec<T>)
    ensures
        v@.len() == n,
        forall|i: int| 0 <= i < n ==> #[trigger] v@[i] == x,
{
    let mut v: Vec<T> = Vec::with_capacity(n);
    let mut i: usize = 0;
    while i < n
        invariant
            i <= n,
            v@.len() == i,
            forall|k: int| 0 <= k < i ==> #[trigger] v@[k] == x,
        decreases n - i,
    {
        v.push(x);
        i = i + 1;
    }
    v
}

impl MetricSnapshotV3 {
    /// Whether every field, row and count is zero.
    pub open spec fn is_zeroed(&self) -> bool {
        &&& self.wf()
        &&& self.header.magic == 0 && self.header.version == 0 && self.header._pad0 == 0
        &&& self.header.sequence == 0 && self.header.timestamp_ns_wall == 0
        &&& self.header.snapshot_size == 0 && self.header._pad1 == 0
        &&& all_zero_bytes(self.header._reserved@)
        &&& self.memory == MemorySnapshot::spec_zeroed()
        &&& self.load == (LoadSnapshotFixed { load_1_bits: 0, load_5_bits: 0, load_15_bits: 0 })
        &&& sched_fixed_zeroed(self.sched)
        &&& self.tcp == TcpStateSnapshot::spec_zeroed()
        &&& self.security == SecurityEventCounts::spec_zeroed()
        &&& self.cpu_core_count == 0 && self._pad_cpu == 0
        &&& self.net_iface_count == 0 && self._pad_net == 0
        &&& self.block_dev_count == 0 && self._pad_blk == 0
        &&& self.process_count == 0 && self._pad_proc == 0
        &&& self.sched_cpu_count == 0 && self._pad_sched_cpu == 0
        &&& forall|i: int| 0 <= i < V3_MAX_CPU_CORES ==> #[trigger] self.cpu_cores@[i] == CpuStats::spec_zeroed()
        &&& forall|i: int| 0 <= i < V3_MAX_NET_IFACES ==> #[trigger] self.net_ifaces@[i] == NetIfaceStats::spec_zeroed()
        &&& forall|i: int| 0 <= i < V3_MAX_BLOCK_DEVS ==> #[trigger] self.block_devs@[i] == BlockStats::spec_zeroed()
        &&& forall|i: int| 0 <= i < V3_MAX_PROCESSES ==> (#[trigger] self.top_processes@[i]).is_zeroed()
        &&& forall|i: int| 0 <= i < V3_MAX_CPU_CORES ==> sched_fixed_zeroed(#[trigger] self.sched_per_cpu@[i])
    }

    /// The all-zero snapshot: the initial write buffer and the reader's
    /// state before its first successful read.
    pub fn zeroed() -> (s: Self)
        ensures
            s.is_zeroed(),
    {
        MetricSnapshotV3 {
            header: zero_header(),
            memory: MemorySnapshot::zeroed(),
            load: LoadSnapshotFixed { load_1_bits: 0, load_5_bits: 0, load_15_bits: 0 },
            sched: zero_sched_fixed(),
            tcp: TcpStateSnapshot::zeroed(),
            security: SecurityEventCounts::zeroed(),
            cpu_core_count: 0,
            _pad_cpu: 0,
            cpu_cores: filled(CpuStats::zeroed(), V3_MAX_CPU_CORES),
            net_iface_count: 0,
            _pad_net: 0,
            net_ifaces: filled(NetIfaceStats::zeroed(), V3_MAX_NET_IFACES),
            block_dev_count: 0,
            _pad_blk: 0,
            block_devs: filled(BlockStats::zeroed(), V3_MAX_BLOCK_DEVS),
            process_count: 0,
            _pad_proc: 0,
            top_processes: filled(ProcessStats::zeroed(), V3_MAX_PROCESSES),
            sched_cpu_count: 0,
            _pad_sched_cpu: 0,
            sched_per_cpu: filled(zero_sched_fixed(), V3_MAX_CPU_CORES),
        }
    }
}

/// `min(n, cap)`.
pub open spec fn capped(n: int, cap: int) -> int {
    if n < cap { n } else { cap }
}

/// The fixed form of a scheduler snapshot.
pub open spec fn sched_fixed_of(s: SchedSnapshot) -> SchedSnapshotFixed {
    SchedSnapshotFixed { histogram: s.histogram, p50_ns: s.p50_ns, p95_ns: s.p95_ns, p99_ns: s.p99_ns }
}

/// Number of CPU rows published: the kernel rows if there are any, else
/// the `/proc/stat` rows, capped at `V3_MAX_CPU_CORES`.
pub open spec fn published_cpu_count(v1: MetricSnapshot, cpu_util: Seq<CpuUtilDelta>) -> int {
    let n = capped(v1.cpu_cores@.len() as int, V3_MAX_CPU_CORES as int);
    if n > 0 { n } else { capped(cpu_util.len() as int, V3_MAX_CPU_CORES as int) }
}

/// CPU row `i` of the published snapshot: the kernel row (or zeros) with
/// the `/proc/stat` user, system, iowait and idle times and id written
/// over it when a `/proc/stat` row exists for `i`.
pub open spec fn published_cpu_row(v1: MetricSnapshot, cpu_util: Seq<CpuUtilDelta>, i: int) -> CpuStats {
    let base = if i < v1.cpu_cores@.len() && i < V3_MAX_CPU_CORES { v1.cpu_cores@[i] } else { CpuStats::spec_zeroed() };
    if i < cpu_util.len() && i < published_cpu_count(v1, cpu_util) {
        let cu = cpu_util[i];
        CpuStats {
            cpu_id: cu.cpu_id,
            user_ns: cu.user_ns,
            system_ns: cu.system_ns,
            iowait_ns: cu.iowait_ns,
            idle_ns: cu.idle_ns,
            ..base
        }
    } else {
        base
    }
}

/// `v3` is the shared-memory form of `v1` at wall time `now_ns`: header
/// fresh but for the timestamp, gauges copied, each row array holding the
/// first rows of the matching list (capped at its capacity) with the
/// count set, process rows carrying their `/proc` supplements, CPU rows as
/// in `published_cpu_row`, and every other row zero.
pub open spec fn is_v3_of(
    v3: MetricSnapshotV3,
    v1: MetricSnapshot,
    facts: Map<u32, PidStatusFacts>,
    cpu_util: Seq<CpuUtilDelta>,
    now_ns: u64,
) -> bool {
    let n_net = capped(v1.net_ifaces@.len() as int, V3_MAX_NET_IFACES as int);
    let n_blk = capped(v1.block@.len() as int, V3_MAX_BLOCK_DEVS as int);
    let n_proc = capped(v1.top_processes@.len() as int, V3_MAX_PROCESSES as int);
    let n_sched = capped(v1.sched_per_cpu@.len() as int, V3_MAX_CPU_CORES as int);
    &&& v3.wf()
    &&& v3.header == ShmHeader { timestamp_ns_wall: now_ns, ..v3.header }
    &&& (ShmHeader { timestamp_ns_wall: 0, ..v3.header }).is_fresh()
    &&& v3.memory == v1.memory
    &&& v3.load == (LoadSnapshotFixed {
        load_1_bits: v1.load.load_1_bits,
        load_5_bits: v1.load.load_5_bits,
        load_15_bits: v1.load.load_15_bits,
    })
    &&& v3.sched == sched_fixed_of(v1.sched)
    &&& v3.tcp == v1.tcp
    &&& v3.security == v1.security
    &&& v3.cpu_core_count == published_cpu_count(v1, cpu_util)
    &&& forall|i: int| 0 <= i < V3_MAX_CPU_CORES ==> #[trigger] v3.cpu_cores@[i] == published_cpu_row(v1, cpu_util, i)
    &&& v3.net_iface_count == n_net
    &&& forall|i: int| 0 <= i < V3_MAX_NET_IFACES ==> #[trigger] v3.net_ifaces@[i] == if i < n_net { v1.net_ifaces@[i] } else { NetIfaceStats::spec_zeroed() }
    &&& v3.block_dev_count == n_blk
    &&& forall|i: int| 0 <= i < V3_MAX_BLOCK_DEVS ==> #[trigger] v3.block_devs@[i] == if i < n_blk { v1.block@[i] } else { BlockStats::spec_zeroed() }
    &&& v3.process_count == n_proc
    &&& forall|i: int| 0 <= i < n_proc ==> #[trigger] v3.top_processes@[i] == with_pid_facts(
        v1.top_processes@[i],
        if facts.contains_key(v1.top_processes@[i].pid) { Some(facts[v1.top_processes@[i].pid]) } else { None },
    )
    &&& forall|i: int| n_proc <= i < V3_MAX_PROCESSES ==> (#[trigger] v3.top_processes@[i]).is_zeroed()
    &&& v3.sched_cpu_count == n_sched
    &&& forall|i: int| 0 <= i < n_sched ==> #[trigger] v3.sched_per_cpu@[i] == sched_fixed_of(v1.sched_per_cpu@[i])
    &&& forall|i: int| n_sched <= i < V3_MAX_CPU_CORES ==> sched_fixed_zeroed(#[trigger] v3.sched_per_cpu@[i])
    &&& v3._pad_cpu == 0 && v3._pad_net == 0 && v3._pad_blk == 0 && v3._pad_proc == 0 && v3._pad_sched_cpu == 0
}

/// The first `min(src.len(), cap)` elements of `src`, padded with `zero`
/// to length `cap`.
fn first_rows<T: Copy>(src: &Vec<T>, cap: usize, zero: T) -> (out: Vec<T>)
    ensures
        out@.len() == cap,
        forall|i: int| 0 <= i < cap ==> #[trigger] out@[i] == if i < capped(src@.len() as int, cap as int) { src@[i] } else { zero },
{
    let n = if src.len() < cap { src.len() } else { cap };
    let mut out = filled(zero, cap);
    let mut i: usize = 0;
    while i < n
        invariant
            n == capped(src@.len() as int, cap as int),
            i <= n,
            out@.len() == cap,
            forall|k: int| 0 <= k < i ==> #[trigger] out@[k] == src@[k],
            forall|k: int| i <= k < cap ==> #[trigger] out@[k] == zero,
        decreases n - i,
    {
        out.set(i, src[i]);
        i = i + 1;
    }
    out
}

/// In the published snapshot, every CPU row that has a `/proc/stat` row
/// carries that row's id and its user, system, iowait and idle times,
/// while the kernel-sourced irq, softirq and context-switch counters come
/// from the kernel row of that CPU (zero when the kernel reported none).
/// A CPU row without a `/proc/stat` row is the kernel row (or zero).
pub proof fn lemma_cpu_rows_carry_proc_stat(
    v3: MetricSnapshotV3,
    v1: MetricSnapshot,
    facts: Map<u32, PidStatusFacts>,
    cpu_util: Seq<CpuUtilDelta>,
    now_ns: u64,
    i: int,
)
    requires
        is_v3_of(v3, v1, facts, cpu_util, now_ns),
        0 <= i < V3_MAX_CPU_CORES,
    ensures
        ({
            let row = v3.cpu_cores@[i];
            let has_kernel_row = i < v1.cpu_cores@.len();
            &&& i < cpu_util.len() && i < v3.cpu_core_count ==> {
                &&& row.cpu_id == cpu_util[i].cpu_id
                &&& row.user_ns == cpu_util[i].user_ns
                &&& row.system_ns == cpu_util[i].system_ns
                &&& row.iowait_ns == cpu_util[i].iowait_ns
                &&& row.idle_ns == cpu_util[i].idle_ns
            }
            &&& has_kernel_row ==> {
                &&& row.irq_ns == v1.cpu_cores@[i].irq_ns
                &&& row.softirq_ns == v1.cpu_cores@[i].softirq_ns
                &&& row.ctx_switches == v1.cpu_cores@[i].ctx_switches
            }
            &&& !has_kernel_row ==> row.irq_ns == 0 && row.softirq_ns == 0 && row.ctx_switches == 0
            &&& !(i < cpu_util.len() && i < v3.cpu_core_count) ==> row == (if has_kernel_row {
                v1.cpu_cores@[i]
            } else {
                CpuStats::spec_zeroed()
            })
        }),
{
    assert(v3.cpu_cores@[i] == published_cpu_row(v1, cpu_util, i));
}

/// In the published snapshot, each process row below the count is the
/// matching row of the top list with the resident size, virtual size and
/// thread count replaced by the `/proc/<pid>/status` facts of its pid when
/// there are any; every other field is the top list's.
pub proof fn lemma_process_rows_carry_pid_facts(
    v3: MetricSnapshotV3,
    v1: MetricSnapshot,
    facts: Map<u32, PidStatusFacts>,
    cpu_util: Seq<CpuUtilDelta>,
    now_ns: u64,
    i: int,
)
    requires
        is_v3_of(v3, v1, facts, cpu_util, now_ns),
        0 <= i < v3.process_count,
    ensures
        ({
            let row = v3.top_processes@[i];
            let p = v1.top_processes@[i];
            &&& facts.contains_key(p.pid) ==> {
                &&& row.mem_rss_bytes == facts[p.pid].mem_rss_bytes
                &&& row.mem_vms_bytes == facts[p.pid].mem_vms_bytes
                &&& row.thread_count == facts[p.pid].thread_count
            }
            &&& !facts.contains_key(p.pid) ==> row.mem_rss_bytes == p.mem_rss_bytes
                && row.mem_vms_bytes == p.mem_vms_bytes && row.thread_count == p.thread_count
            &&& row.pid == p.pid && row.ppid == p.ppid && row.uid == p.uid && row.comm == p.comm
            &&& row.cpu_user_ns == p.cpu_user_ns && row.cpu_system_ns == p.cpu_system_ns
            &&& row.voluntary_ctx_sw == p.voluntary_ctx_sw
            &&& row.involuntary_ctx_sw == p.involuntary_ctx_sw
            &&& row.read_bytes == p.read_bytes && row.write_bytes == p.write_bytes
            &&& row.page_faults_minor == p.page_faults_minor
            &&& row.page_faults_major == p.page_faults_major
            &&& row.start_time_ns == p.start_time_ns && row.open_fds == p.open_fds
        }),
{
    assert(v3.top_processes@[i] == with_pid_facts(
        v1.top_processes@[i],
        if facts.contains_key(v1.top_processes@[i].pid) {
            Some(facts[v1.top_processes@[i].pid])
        } else {
            None
        },
    ));
}

/// In the published snapshot the scheduler record carries the histogram
/// and the p50, p95 and p99 estimates of the daemon snapshot, each in its
/// own field, and the per-CPU scheduler rows below the count carry those
/// of each CPU.
pub proof fn lemma_sched_percentiles_carried(
    v3: MetricSnapshotV3,
    v1: MetricSnapshot,
    facts: Map<u32, PidStatusFacts>,
    cpu_util: Seq<CpuUtilDelta>,
    now_ns: u64,
    i: int,
)
    requires
        is_v3_of(v3, v1, facts, cpu_util, now_ns),
    ensures
        v3.sched.histogram == v1.sched.histogram,
        v3.sched.p50_ns == v1.sched.p50_ns,
        v3.sched.p95_ns == v1.sched.p95_ns,
        v3.sched.p99_ns == v1.sched.p99_ns,
        0 <= i < v3.sched_cpu_count ==> {
            &&& v3.sched_per_cpu@[i].histogram == v1.sched_per_cpu@[i].histogram
            &&& v3.sched_per_cpu@[i].p50_ns == v1.sched_per_cpu@[i].p50_ns
            &&& v3.sched_per_cpu@[i].p95_ns == v1.sched_per_cpu@[i].p95_ns
            &&& v3.sched_per_cpu@[i].p99_ns == v1.sched_per_cpu@[i].p99_ns
        },
{
    if 0 <= i < v3.sched_cpu_count {
        assert(v3.sched_per_cpu@[i] == sched_fixed_of(v1.sched_per_cpu@[i]));
    }
}

/// The published CPU rows (see `published_cpu_row`).
fn cpu_rows(v1: &MetricSnapshot, cpu_util: &Vec<CpuUtilDelta>) -> (out: Vec<CpuStats>)
    ensures
        out@.len() == V3_MAX_CPU_CORES,
        forall|i: int| 0 <= i < V3_MAX_CPU_CORES ==> #[trigger] out@[i] == published_cpu_row(*v1, cpu_util@, i),
{
    let mut out = first_rows(&v1.cpu_cores, V3_MAX_CPU_CORES, CpuStats::zeroed());
    let n_cpu = if v1.cpu_cores.len() < V3_MAX_CPU_CORES { v1.cpu_cores.len() } else { V3_MAX_CPU_CORES };
    let cpu_count = if n_cpu > 0 {
        n_cpu
    } else if cpu_util.len() < V3_MAX_CPU_CORES {
        cpu_util.len()
    } else {
        V3_MAX_CPU_CORES
    };
    let mut j: usize = 0;
    while j < cpu_util.len() && j < cpu_count
        invariant
            cpu_count == published_cpu_count(*v1, cpu_util@),
            cpu_count <= V3_MAX_CPU_CORES,
            out@.len() == V3_MAX_CPU_CORES,
            forall|k: int| 0 <= k < j ==> #[trigger] out@[k] == published_cpu_row(*v1, cpu_util@, k),
            forall|k: int| j <= k < V3_MAX_CPU_CORES ==> #[trigger] out@[k] == (if k < v1.cpu_cores@.len() && k < V3_MAX_CPU_CORES { v1.cpu_cores@[k] } else { CpuStats::spec_zeroed() }),
        decreases cpu_util.len() - j,
    {
        let cu = cpu_util[j];
        let mut row = out[j];
        row.cpu_id = cu.cpu_id;
        row.user_ns = cu.user_ns;
        row.system_ns = cu.system_ns;
        row.iowait_ns = cu.iowait_ns;
        row.idle_ns = cu.idle_ns;
        out.set(j, row);
        j = j + 1;
    }
    out
}

/// The published process rows: the first rows of the top list with their
/// `/proc` supplements, zero-padded.
fn process_rows_v3(v1: &MetricSnapshot, facts: &HashMap<u32, PidStatusFacts>) -> (out: Vec<ProcessStats>)
    requires
        vstd::std_specs::hash::obeys_key_model::<u32>(),
    ensures
        out@.len() == V3_MAX_PROCESSES,
        forall|i: int| 0 <= i < capped(v1.top_processes@.len() as int, V3_MAX_PROCESSES as int) ==> #[trigger] out@[i] == with_pid_facts(
            v1.top_processes@[i],
            if facts@.contains_key(v1.top_processes@[i].pid) { Some(facts@[v1.top_processes@[i].pid]) } else { None },
        ),
        forall|i: int| capped(v1.top_processes@.len() as int, V3_MAX_PROCESSES as int) <= i < V3_MAX_PROCESSES ==> (#[trigger] out@[i]).is_zeroed(),
{
    let zero = ProcessStats::zeroed();
    let mut out = filled(zero, V3_MAX_PROCESSES);
    let n_proc = if v1.top_processes.len() < V3_MAX_PROCESSES { v1.top_processes.len() } else { V3_MAX_PROCESSES };
    let mut i: usize = 0;
    while i < n_proc
        invariant
            n_proc == capped(v1.top_processes@.len() as int, V3_MAX_PROCESSES as int),
            i <= n_proc,
            zero.is_zeroed(),
            vstd::std_specs::hash::obeys_key_model::<u32>(),
            out@.len() == V3_MAX_PROCESSES,
            forall|k: int| 0 <= k < i ==> #[trigger] out@[k] == with_pid_facts(
                v1.top_processes@[k],
                if facts@.contains_key(v1.top_processes@[k].pid) { Some(facts@[v1.top_processes@[k].pid]) } else { None },
            ),
            forall|k: int| i <= k < V3_MAX_PROCESSES ==> #[trigger] out@[k] == zero,
        decreases n_proc - i,
    {
        let mut row = v1.top_processes[i];
        match facts.get(&row.pid) {
            Some(f) => {
                row.mem_rss_bytes = f.mem_rss_bytes;
                row.mem_vms_bytes = f.mem_vms_bytes;
                row.thread_count = f.thread_count;
            },
            None => {},
        }
        out.set(i, row);
        i = i + 1;
    }
    out
}

/// The published per-CPU scheduler rows, zero-padded.
fn sched_rows(v1: &MetricSnapshot) -> (out: Vec<SchedSnapshotFixed>)
    ensures
        out@.len() == V3_MAX_CPU_CORES,
        forall|i: int| 0 <= i < capped(v1.sched_per_cpu@.len() as int, V3_MAX_CPU_CORES as int) ==> #[trigger] out@[i] == sched_fixed_of(v1.sched_per_cpu@[i]),
        forall|i: int| capped(v1.sched_per_cpu@.len() as int, V3_MAX_CPU_CORES as int) <= i < V3_MAX_CPU_CORES ==> sched_fixed_zeroed(#[trigger] out@[i]),
{
    let zero = zero_sched_fixed();
    let mut out = filled(zero, V3_MAX_CPU_CORES);
    let n_sched = if v1.sched_per_cpu.len() < V3_MAX_CPU_CORES { v1.sched_per_cpu.len() } else { V3_MAX_CPU_CORES };
    let mut i: usize = 0;
    while i < n_sched
        invariant
            n_sched == capped(v1.sched_per_cpu@.len() as int, V3_MAX_CPU_CORES as int),
            i <= n_sched,
            sched_fixed_zeroed(zero),
            out@.len() == V3_MAX_CPU_CORES,
            forall|k: int| 0 <= k < i ==> #[trigger] out@[k] == sched_fixed_of(v1.sched_per_cpu@[k]),
            forall|k: int| i <= k < V3_MAX_CPU_CORES ==> #[trigger] out@[k] == zero,
        decreases n_sched - i,
    {
        let s = v1.sched_per_cpu[i];
        out.set(i, SchedSnapshotFixed { histogram: s.histogram, p50_ns: s.p50_ns, p95_ns: s.p95_ns, p99_ns: s.p99_ns });
        i = i + 1;
    }
    out
}

/// Convert the daemon snapshot into the fixed shared-memory snapshot at
/// wall time `now_ns`, overlaying the `/proc` process supplements and the
/// `/proc/stat` CPU times. Rows beyond a capacity are dropped (the list
/// order decides which rows survive).
pub fn build_v3(
    v1: &MetricSnapshot,
    facts: &HashMap<u32, PidStatusFacts>,
    cpu_util: &Vec<CpuUtilDelta>,
    now_ns: u64,
) -> (v3: MetricSnapshotV3)
    requires
        vstd::std_specs::hash::obeys_key_model::<u32>(),
    ensures
        is_v3_of(v3, *v1, facts@, cpu_util@, now_ns),
{
    let mut header = ShmHeader::new();
    header.timestamp_ns_wall = now_ns;
    let n_cpu = if v1.cpu_cores.len() < V3_MAX_CPU_CORES { v1.cpu_cores.len() } else { V3_MAX_CPU_CORES };
    let cpu_count = if n_cpu > 0 {
        n_cpu
    } else if cpu_util.len() < V3_MAX_CPU_CORES {
        cpu_util.len()
    } else {
        V3_MAX_CPU_CORES
    };
    let n_net = if v1.net_ifaces.len() < V3_MAX_NET_IFACES { v1.net_ifaces.len() } else { V3_MAX_NET_IFACES };
    let n_blk = if v1.block.len() < V3_MAX_BLOCK_DEVS { v1.block.len() } else { V3_MAX_BLOCK_DEVS };
    let n_proc = if v1.top_processes.len() < V3_MAX_PROCESSES { v1.top_processes.len() } else { V3_MAX_PROCESSES };
    let n_sched = if v1.sched_per_cpu.len() < V3_MAX_CPU_CORES { v1.sched_per_cpu.len() } else { V3_MAX_CPU_CORES };
    MetricSnapshotV3 {
        header,
        memory: v1.memory,
        load: LoadSnapshotFixed {
            load_1_bits: v1.load.load_1_bits,
            load_5_bits: v1.load.load_5_bits,
            load_15_bits: v1.load.load_15_bits,
        },
        sched: SchedSnapshotFixed {
            histogram: v1.sched.histogram,
            p50_ns: v1.sched.p50_ns,
            p95_ns: v1.sched.p95_ns,
            p99_ns: v1.sched.p99_ns,
        },
        tcp: v1.tcp,
        security: v1.security,
        cpu_core_count: cpu_count as u32,
        _pad_cpu: 0,
        cpu_cores: cpu_rows(v1, cpu_util),
        net_iface_count: n_net as u32,
        _pad_net: 0,
        net_ifaces: first_rows(&v1.net_ifaces, V3_MAX_NET_IFACES, NetIfaceStats::zeroed()),
        block_dev_count: n_blk as u32,
        _pad_blk: 0,
        block_devs: first_rows(&v1.block, V3_MAX_BLOCK_DEVS, BlockStats::zeroed()),
        process_count: n_proc as u32,
        _pad_proc: 0,
        top_processes: process_rows_v3(v1, facts),
        sched_cpu_count: n_sched as u32,
        _pad_sched_cpu: 0,
        sched_per_cpu: sched_rows(v1),
    }
}

impl Default for ShmHeader {
    /// The header of a freshly created segment, as `new` gives it.
    fn default() -> (h: Self)
        ensures
            h.is_fresh(),
    {
        ShmHeader::new()
    }
}

impl Default for MetricSnapshotV3 {
    /// The all-zero snapshot, as `zeroed` gives it.
    fn default() -> (s: Self)
        ensures
            s.is_zeroed(),
    {
        MetricSnapshotV3::zeroed()
    }
}

} // verus!
