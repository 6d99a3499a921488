//! Once-per-second aggregation of the kernel's per-CPU and per-key maps
//! into the published metric records.
//!
//! Per-CPU counters are summed with wrapping arithmetic (the kernel side
//! counts with wrapping adds too), the latency maximum is the maximum over
//! CPUs, and keyed maps become "top N" lists sorted by a descending key.

use vstd::prelude::*;

use crate::metrics::{
    CgroupNetBytes, CpuStats, MemorySnapshot, NetIfaceStats, ProcessStats, SchedHistogram,
    SecurityEventCounts, TcpStateSnapshot,
};
use crate::probes::spec_bucket_of;
use crate::sort::{is_stable_desc_sort, stable_sort_desc};
use crate::SCHED_HIST_BUCKETS;

verus! {

/// Maximum number of cgroups kept in the per-cgroup traffic list.
pub const TOP_CGROUP_CAP: usize = 128;

/// Maximum number of processes kept after sorting by CPU time.
pub const TOP_PROCESS_CAP: usize = 256;

/// Upper bound (nanoseconds) reported for each scheduler latency bucket;
/// the last bucket is unbounded and reported as `u64::MAX`.
pub open spec fn bucket_bound_ns(i: int) -> u64 {
    if i == 0 {
        10_000
    } else if i == 1 {
        100_000
    } else if i == 2 {
        1_000_000
    } else if i == 3 {
        10_000_000
    } else if i == 4 {
        100_000_000
    } else if i == 5 {
        1_000_000_000
    } else if i == 6 {
        10_000_000_000
    } else {
        u64::MAX
    }
}

/// Scheduler latency histogram with pre-computed percentiles.
#[derive(Copy, Clone, Debug, Default)]
pub struct SchedSnapshot {
    pub histogram: SchedHistogram,
    pub p50_ns: u64,
    pub p95_ns: u64,
    pub p99_ns: u64,
}

// ----- wrapping sums over per-CPU samples -----

/// Sum of `s` modulo 2^64, folded with wrapping additions.
pub open spec fn wrapping_total(s: Seq<u64>) -> u64
    decreases s.len(),
{
    if s.len() == 0 {
        0
    } else {
        wrapping_total(s.drop_last()).wrapping_add(s.last())
    }
}

/// Exact arithmetic sum of `s`.
pub open spec fn exact_total(s: Seq<u64>) -> nat
    decreases s.len(),
{
    if s.len() == 0 {
        0
    } else {
        exact_total(s.drop_last()) + s.last() as nat
    }
}

/// Largest element of `s`, or 0 for an empty sequence.
pub open spec fn seq_max(s: Seq<u64>) -> u64
    decreases s.len(),
{
    if s.len() == 0 {
        0
    } else {
        let m = seq_max(s.drop_last());
        if s.last() > m { s.last() } else { m }
    }
}

/// Sum of bucket `b` over the per-CPU histograms, modulo 2^64.
pub open spec fn bucket_total(s: Seq<SchedHistogram>, b: int) -> u64
    decreases s.len(),
{
    if s.len() == 0 {
        0
    } else {
        bucket_total(s.drop_last(), b).wrapping_add(s.last().buckets[b])
    }
}

/// Per-CPU histograms projected to one bucket.
pub open spec fn bucket_column(s: Seq<SchedHistogram>, b: int) -> Seq<u64> {
    Seq::new(s.len(), |i: int| s[i].buckets[b])
}

/// Per-CPU histograms projected to their event counts.
pub open spec fn count_column(s: Seq<SchedHistogram>) -> Seq<u64> {
    Seq::new(s.len(), |i: int| s[i].total_count)
}

/// Per-CPU histograms projected to their summed latencies.
pub open spec fn latency_column(s: Seq<SchedHistogram>) -> Seq<u64> {
    Seq::new(s.len(), |i: int| s[i].total_latency_ns)
}

/// Per-CPU histograms projected to their maximum latencies.
pub open spec fn max_column(s: Seq<SchedHistogram>) -> Seq<u64> {
    Seq::new(s.len(), |i: int| s[i].max_latency_ns)
}

/// `new` is `acc` with `v` folded in: buckets, count and summed latency
/// added with wrap-around, maximum latency the larger of the two.
pub open spec fn sched_merged(acc: SchedHistogram, v: SchedHistogram, new: SchedHistogram) -> bool {
    &&& forall|b: int| 0 <= b < SCHED_HIST_BUCKETS ==> #[trigger] new.buckets[b] == acc.buckets[b].wrapping_add(v.buckets[b])
    &&& new.total_count == acc.total_count.wrapping_add(v.total_count)
    &&& new.total_latency_ns == acc.total_latency_ns.wrapping_add(v.total_latency_ns)
    &&& new.max_latency_ns == if v.max_latency_ns > acc.max_latency_ns { v.max_latency_ns } else { acc.max_latency_ns }
}

/// Field-wise wrapping sum of two TCP counter records.
pub open spec fn tcp_merged(a: TcpStateSnapshot, s: TcpStateSnapshot) -> TcpStateSnapshot {
    TcpStateSnapshot {
        established: a.established.wrapping_add(s.established),
        syn_sent: a.syn_sent.wrapping_add(s.syn_sent),
        syn_recv: a.syn_recv.wrapping_add(s.syn_recv),
        fin_wait1: a.fin_wait1.wrapping_add(s.fin_wait1),
        fin_wait2: a.fin_wait2.wrapping_add(s.fin_wait2),
        time_wait: a.time_wait.wrapping_add(s.time_wait),
        close_wait: a.close_wait.wrapping_add(s.close_wait),
        listen: a.listen.wrapping_add(s.listen),
        listen_overflows: a.listen_overflows.wrapping_add(s.listen_overflows),
        retransmits: a.retransmits.wrapping_add(s.retransmits),
        resets_in: a.resets_in.wrapping_add(s.resets_in),
        resets_out: a.resets_out.wrapping_add(s.resets_out),
    }
}

/// Field-wise wrapping sum of two interface counter records; the interface
/// index is taken from `s`.
pub open spec fn iface_merged(a: NetIfaceStats, s: NetIfaceStats) -> NetIfaceStats {
    NetIfaceStats {
        iface_idx: s.iface_idx,
        _pad: a._pad,
        rx_bytes: a.rx_bytes.wrapping_add(s.rx_bytes),
        tx_bytes: a.tx_bytes.wrapping_add(s.tx_bytes),
        rx_packets: a.rx_packets.wrapping_add(s.rx_packets),
        tx_packets: a.tx_packets.wrapping_add(s.tx_packets),
        rx_drops: a.rx_drops.wrapping_add(s.rx_drops),
        tx_drops: a.tx_drops.wrapping_add(s.tx_drops),
        rx_errors: a.rx_errors.wrapping_add(s.rx_errors),
        tx_errors: a.tx_errors.wrapping_add(s.tx_errors),
    }
}

/// Field-wise wrapping sum of two security counter records.
pub open spec fn security_merged(a: SecurityEventCounts, s: SecurityEventCounts) -> SecurityEventCounts {
    SecurityEventCounts {
        ptrace: a.ptrace.wrapping_add(s.ptrace),
        memfd_create: a.memfd_create.wrapping_add(s.memfd_create),
        prctl: a.prctl.wrapping_add(s.prctl),
        setuid: a.setuid.wrapping_add(s.setuid),
        exec_anomaly: a.exec_anomaly.wrapping_add(s.exec_anomaly),
        capability_use: a.capability_use.wrapping_add(s.capability_use),
    }
}

/// `a` with the three kernel-sourced memory counters of `s` added (with
/// wrap-around); the `/proc`-sourced fields of `a` are kept.
pub open spec fn mem_merged(a: MemorySnapshot, s: MemorySnapshot) -> MemorySnapshot {
    MemorySnapshot {
        page_faults_minor: a.page_faults_minor.wrapping_add(s.page_faults_minor),
        page_faults_major: a.page_faults_major.wrapping_add(s.page_faults_major),
        oom_kills_total: a.oom_kills_total.wrapping_add(s.oom_kills_total),
        ..a
    }
}

/// Fold of `tcp_merged` over per-CPU samples, starting from zero.
pub open spec fn tcp_total(s: Seq<TcpStateSnapshot>) -> TcpStateSnapshot
    decreases s.len(),
{
    if s.len() == 0 {
        TcpStateSnapshot {
            established: 0, syn_sent: 0, syn_recv: 0, fin_wait1: 0, fin_wait2: 0, time_wait: 0,
            close_wait: 0, listen: 0, listen_overflows: 0, retransmits: 0, resets_in: 0,
            resets_out: 0,
        }
    } else {
        tcp_merged(tcp_total(s.drop_last()), s.last())
    }
}

/// Fold of `iface_merged` over per-CPU samples, starting from zero.
pub open spec fn iface_total(s: Seq<NetIfaceStats>) -> NetIfaceStats
    decreases s.len(),
{
    if s.len() == 0 {
        NetIfaceStats {
            iface_idx: 0, _pad: 0, rx_bytes: 0, tx_bytes: 0, rx_packets: 0, tx_packets: 0,
            rx_drops: 0, tx_drops: 0, rx_errors: 0, tx_errors: 0,
        }
    } else {
        iface_merged(iface_total(s.drop_last()), s.last())
    }
}

/// Fold of `security_merged` over per-CPU samples, starting from zero.
pub open spec fn security_total(s: Seq<SecurityEventCounts>) -> SecurityEventCounts
    decreases s.len(),
{
    if s.len() == 0 {
        SecurityEventCounts {
            ptrace: 0, memfd_create: 0, prctl: 0, setuid: 0, exec_anomaly: 0, capability_use: 0,
        }
    } else {
        security_merged(security_total(s.drop_last()), s.last())
    }
}

/// Fold of `mem_merged` over per-CPU samples, starting from zero.
pub open spec fn mem_total(s: Seq<MemorySnapshot>) -> MemorySnapshot
    decreases s.len(),
{
    if s.len() == 0 {
        MemorySnapshot {
            total_bytes: 0, free_bytes: 0, cached_bytes: 0, buffered_bytes: 0, slab_bytes: 0,
            swap_used_bytes: 0, swap_free_bytes: 0, page_faults_minor: 0, page_faults_major: 0,
            psi_some_pct_x100: 0, psi_full_pct_x100: 0, oom_kills_total: 0,
        }
    } else {
        mem_merged(mem_total(s.drop_last()), s.last())
    }
}

/// Each TCP counter of the per-CPU total is the sum of that counter over the
/// CPUs, modulo 2^64.
pub proof fn lemma_tcp_total_is_column_sums(s: Seq<TcpStateSnapshot>)
    ensures
        tcp_total(s).established == wrapping_total(Seq::new(s.len(), |i: int| s[i].established)),
        tcp_total(s).syn_sent == wrapping_total(Seq::new(s.len(), |i: int| s[i].syn_sent)),
        tcp_total(s).syn_recv == wrapping_total(Seq::new(s.len(), |i: int| s[i].syn_recv)),
        tcp_total(s).fin_wait1 == wrapping_total(Seq::new(s.len(), |i: int| s[i].fin_wait1)),
        tcp_total(s).fin_wait2 == wrapping_total(Seq::new(s.len(), |i: int| s[i].fin_wait2)),
        tcp_total(s).time_wait == wrapping_total(Seq::new(s.len(), |i: int| s[i].time_wait)),
        tcp_total(s).close_wait == wrapping_total(Seq::new(s.len(), |i: int| s[i].close_wait)),
        tcp_total(s).listen == wrapping_total(Seq::new(s.len(), |i: int| s[i].listen)),
        tcp_total(s).listen_overflows == wrapping_total(Seq::new(s.len(), |i: int| s[i].listen_overflows)),
        tcp_total(s).retransmits == wrapping_total(Seq::new(s.len(), |i: int| s[i].retransmits)),
        tcp_total(s).resets_in == wrapping_total(Seq::new(s.len(), |i: int| s[i].resets_in)),
        tcp_total(s).resets_out == wrapping_total(Seq::new(s.len(), |i: int| s[i].resets_out)),
    decreases s.len(),
{
    if s.len() > 0 {
        let t = s.drop_last();
        lemma_tcp_total_is_column_sums(t);
        assert(Seq::new(s.len(), |i: int| s[i].established).drop_last() =~= Seq::new(t.len(), |i: int| t[i].established));
        assert(Seq::new(s.len(), |i: int| s[i].syn_sent).drop_last() =~= Seq::new(t.len(), |i: int| t[i].syn_sent));
        assert(Seq::new(s.len(), |i: int| s[i].syn_recv).drop_last() =~= Seq::new(t.len(), |i: int| t[i].syn_recv));
        assert(Seq::new(s.len(), |i: int| s[i].fin_wait1).drop_last() =~= Seq::new(t.len(), |i: int| t[i].fin_wait1));
        assert(Seq::new(s.len(), |i: int| s[i].fin_wait2).drop_last() =~= Seq::new(t.len(), |i: int| t[i].fin_wait2));
        assert(Seq::new(s.len(), |i: int| s[i].time_wait).drop_last() =~= Seq::new(t.len(), |i: int| t[i].time_wait));
        assert(Seq::new(s.len(), |i: int| s[i].close_wait).drop_last() =~= Seq::new(t.len(), |i: int| t[i].close_wait));
        assert(Seq::new(s.len(), |i: int| s[i].listen).drop_last() =~= Seq::new(t.len(), |i: int| t[i].listen));
        assert(Seq::new(s.len(), |i: int| s[i].listen_overflows).drop_last() =~= Seq::new(t.len(), |i: int| t[i].listen_overflows));
        assert(Seq::new(s.len(), |i: int| s[i].retransmits).drop_last() =~= Seq::new(t.len(), |i: int| t[i].retransmits));
        assert(Seq::new(s.len(), |i: int| s[i].resets_in).drop_last() =~= Seq::new(t.len(), |i: int| t[i].resets_in));
        assert(Seq::new(s.len(), |i: int| s[i].resets_out).drop_last() =~= Seq::new(t.len(), |i: int| t[i].resets_out));
    }
}

/// Each security counter of the per-CPU total is the sum of that counter over the
/// CPUs, modulo 2^64.
pub proof fn lemma_security_total_is_column_sums(s: Seq<SecurityEventCounts>)
    ensures
        security_total(s).ptrace == wrapping_total(Seq::new(s.len(), |i: int| s[i].ptrace)),
        security_total(s).memfd_create == wrapping_total(Seq::new(s.len(), |i: int| s[i].memfd_create)),
        security_total(s).prctl == wrapping_total(Seq::new(s.len(), |i: int| s[i].prctl)),
        security_total(s).setuid == wrapping_total(Seq::new(s.len(), |i: int| s[i].setuid)),
        security_total(s).exec_anomaly == wrapping_total(Seq::new(s.len(), |i: int| s[i].exec_anomaly)),
        security_total(s).capability_use == wrapping_total(Seq::new(s.len(), |i: int| s[i].capability_use)),
    decreases s.len(),
{
    if s.len() > 0 {
        let t = s.drop_last();
        lemma_security_total_is_column_sums(t);
        assert(Seq::new(s.len(), |i: int| s[i].ptrace).drop_last() =~= Seq::new(t.len(), |i: int| t[i].ptrace));
        assert(Seq::new(s.len(), |i: int| s[i].memfd_create).drop_last() =~= Seq::new(t.len(), |i: int| t[i].memfd_create));
        assert(Seq::new(s.len(), |i: int| s[i].prctl).drop_last() =~= Seq::new(t.len(), |i: int| t[i].prctl));
        assert(Seq::new(s.len(), |i: int| s[i].setuid).drop_last() =~= Seq::new(t.len(), |i: int| t[i].setuid));
        assert(Seq::new(s.len(), |i: int| s[i].exec_anomaly).drop_last() =~= Seq::new(t.len(), |i: int| t[i].exec_anomaly));
        assert(Seq::new(s.len(), |i: int| s[i].capability_use).drop_last() =~= Seq::new(t.len(), |i: int| t[i].capability_use));
    }
}

/// Each interface counter of the per-CPU total is the sum of that counter over the
/// CPUs, modulo 2^64. The interface index is the last CPU's.
pub proof fn lemma_iface_total_is_column_sums(s: Seq<NetIfaceStats>)
    ensures
        iface_total(s).rx_bytes == wrapping_total(Seq::new(s.len(), |i: int| s[i].rx_bytes)),
        iface_total(s).tx_bytes == wrapping_total(Seq::new(s.len(), |i: int| s[i].tx_bytes)),
        iface_total(s).rx_packets == wrapping_total(Seq::new(s.len(), |i: int| s[i].rx_packets)),
        iface_total(s).tx_packets == wrapping_total(Seq::new(s.len(), |i: int| s[i].tx_packets)),
        iface_total(s).rx_drops == wrapping_total(Seq::new(s.len(), |i: int| s[i].rx_drops)),
        iface_total(s).tx_drops == wrapping_total(Seq::new(s.len(), |i: int| s[i].tx_drops)),
        iface_total(s).rx_errors == wrapping_total(Seq::new(s.len(), |i: int| s[i].rx_errors)),
        iface_total(s).tx_errors == wrapping_total(Seq::new(s.len(), |i: int| s[i].tx_errors)),
        iface_total(s).iface_idx == if s.len() == 0 { 0 } else { s.last().iface_idx },
        iface_total(s)._pad == 0,
    decreases s.len(),
{
    if s.len() > 0 {
        let t = s.drop_last();
        lemma_iface_total_is_column_sums(t);
        assert(Seq::new(s.len(), |i: int| s[i].rx_bytes).drop_last() =~= Seq::new(t.len(), |i: int| t[i].rx_bytes));
        assert(Seq::new(s.len(), |i: int| s[i].tx_bytes).drop_last() =~= Seq::new(t.len(), |i: int| t[i].tx_bytes));
        assert(Seq::new(s.len(), |i: int| s[i].rx_packets).drop_last() =~= Seq::new(t.len(), |i: int| t[i].rx_packets));
        assert(Seq::new(s.len(), |i: int| s[i].tx_packets).drop_last() =~= Seq::new(t.len(), |i: int| t[i].tx_packets));
        assert(Seq::new(s.len(), |i: int| s[i].rx_drops).drop_last() =~= Seq::new(t.len(), |i: int| t[i].rx_drops));
        assert(Seq::new(s.len(), |i: int| s[i].tx_drops).drop_last() =~= Seq::new(t.len(), |i: int| t[i].tx_drops));
        assert(Seq::new(s.len(), |i: int| s[i].rx_errors).drop_last() =~= Seq::new(t.len(), |i: int| t[i].rx_errors));
        assert(Seq::new(s.len(), |i: int| s[i].tx_errors).drop_last() =~= Seq::new(t.len(), |i: int| t[i].tx_errors));
    }
}

/// Each kernel-sourced memory counter of the per-CPU total is the sum of that counter over the
/// CPUs, modulo 2^64. The `/proc`-sourced fields stay zero.
pub proof fn lemma_mem_total_is_column_sums(s: Seq<MemorySnapshot>)
    ensures
        mem_total(s).page_faults_minor == wrapping_total(Seq::new(s.len(), |i: int| s[i].page_faults_minor)),
        mem_total(s).page_faults_major == wrapping_total(Seq::new(s.len(), |i: int| s[i].page_faults_major)),
        mem_total(s).oom_kills_total == wrapping_total(Seq::new(s.len(), |i: int| s[i].oom_kills_total)),
        mem_total(s).total_bytes == 0,
        mem_total(s).free_bytes == 0,
        mem_total(s).cached_bytes == 0,
        mem_total(s).buffered_bytes == 0,
        mem_total(s).slab_bytes == 0,
        mem_total(s).swap_used_bytes == 0,
        mem_total(s).swap_free_bytes == 0,
        mem_total(s).psi_some_pct_x100 == 0,
        mem_total(s).psi_full_pct_x100 == 0,
    decreases s.len(),
{
    if s.len() > 0 {
        let t = s.drop_last();
        lemma_mem_total_is_column_sums(t);
        assert(Seq::new(s.len(), |i: int| s[i].page_faults_minor).drop_last() =~= Seq::new(t.len(), |i: int| t[i].page_faults_minor));
        assert(Seq::new(s.len(), |i: int| s[i].page_faults_major).drop_last() =~= Seq::new(t.len(), |i: int| t[i].page_faults_major));
        assert(Seq::new(s.len(), |i: int| s[i].oom_kills_total).drop_last() =~= Seq::new(t.len(), |i: int| t[i].oom_kills_total));
    }
}

/// Fold one CPU's scheduler histogram into the accumulator.
pub fn merge_sched(acc: &mut SchedHistogram, v: &SchedHistogram)
    ensures
        sched_merged(*old(acc), *v, *final(acc)),
{
    let mut i: usize = 0;
    while i < SCHED_HIST_BUCKETS
        invariant
            i <= SCHED_HIST_BUCKETS,
            forall|b: int| 0 <= b < i ==> #[trigger] acc.buckets[b] == old(acc).buckets[b].wrapping_add(v.buckets[b]),
            forall|b: int| i <= b < SCHED_HIST_BUCKETS ==> #[trigger] acc.buckets[b] == old(acc).buckets[b],
            acc.total_count == old(acc).total_count,
            acc.total_latency_ns == old(acc).total_latency_ns,
            acc.max_latency_ns == old(acc).max_latency_ns,
        decreases SCHED_HIST_BUCKETS - i,
    {
        acc.buckets[i] = acc.buckets[i].wrapping_add(v.buckets[i]);
        i = i + 1;
    }
    acc.total_count = acc.total_count.wrapping_add(v.total_count);
    acc.total_latency_ns = acc.total_latency_ns.wrapping_add(v.total_latency_ns);
    if v.max_latency_ns > acc.max_latency_ns {
        acc.max_latency_ns = v.max_latency_ns;
    }
}

/// Fold one CPU's TCP counters into the accumulator.
pub fn merge_tcp(acc: &mut TcpStateSnapshot, v: &TcpStateSnapshot)
    ensures
        *final(acc) == tcp_merged(*old(acc), *v),
{
    acc.established = acc.established.wrapping_add(v.established);
    acc.syn_sent = acc.syn_sent.wrapping_add(v.syn_sent);
    acc.syn_recv = acc.syn_recv.wrapping_add(v.syn_recv);
    acc.fin_wait1 = acc.fin_wait1.wrapping_add(v.fin_wait1);
    acc.fin_wait2 = acc.fin_wait2.wrapping_add(v.fin_wait2);
    acc.time_wait = acc.time_wait.wrapping_add(v.time_wait);
    acc.close_wait = acc.close_wait.wrapping_add(v.close_wait);
    acc.listen = acc.listen.wrapping_add(v.listen);
    acc.listen_overflows = acc.listen_overflows.wrapping_add(v.listen_overflows);
    acc.retransmits = acc.retransmits.wrapping_add(v.retransmits);
    acc.resets_in = acc.resets_in.wrapping_add(v.resets_in);
    acc.resets_out = acc.resets_out.wrapping_add(v.resets_out);
}

/// Fold one CPU's interface counters into the accumulator.
pub fn merge_iface(acc: &mut NetIfaceStats, v: &NetIfaceStats)
    ensures
        *final(acc) == iface_merged(*old(acc), *v),
{
    acc.iface_idx = v.iface_idx;
    acc.rx_bytes = acc.rx_bytes.wrapping_add(v.rx_bytes);
    acc.tx_bytes = acc.tx_bytes.wrapping_add(v.tx_bytes);
    acc.rx_packets = acc.rx_packets.wrapping_add(v.rx_packets);
    acc.tx_packets = acc.tx_packets.wrapping_add(v.tx_packets);
    acc.rx_drops = acc.rx_drops.wrapping_add(v.rx_drops);
    acc.tx_drops = acc.tx_drops.wrapping_add(v.tx_drops);
    acc.rx_errors = acc.rx_errors.wrapping_add(v.rx_errors);
    acc.tx_errors = acc.tx_errors.wrapping_add(v.tx_errors);
}

/// Fold one CPU's security counters into the accumulator.
pub fn merge_security(acc: &mut SecurityEventCounts, v: &SecurityEventCounts)
    ensures
        *final(acc) == security_merged(*old(acc), *v),
{
    acc.ptrace = acc.ptrace.wrapping_add(v.ptrace);
    acc.memfd_create = acc.memfd_create.wrapping_add(v.memfd_create);
    acc.prctl = acc.prctl.wrapping_add(v.prctl);
    acc.setuid = acc.setuid.wrapping_add(v.setuid);
    acc.exec_anomaly = acc.exec_anomaly.wrapping_add(v.exec_anomaly);
    acc.capability_use = acc.capability_use.wrapping_add(v.capability_use);
}

/// Fold one CPU's kernel-sourced memory counters into the accumulator.
pub fn merge_mem(acc: &mut MemorySnapshot, v: &MemorySnapshot)
    ensures
        *final(acc) == mem_merged(*old(acc), *v),
{
    acc.page_faults_minor = acc.page_faults_minor.wrapping_add(v.page_faults_minor);
    acc.page_faults_major = acc.page_faults_major.wrapping_add(v.page_faults_major);
    acc.oom_kills_total = acc.oom_kills_total.wrapping_add(v.oom_kills_total);
}


/// Sum one scheduler histogram per CPU into the system-wide histogram.
pub fn sum_percpu_sched(values: &Vec<SchedHistogram>) -> (r: SchedHistogram)
    ensures
        forall|b: int| 0 <= b < SCHED_HIST_BUCKETS ==> #[trigger] r.buckets[b] == bucket_total(values@, b),
        r.total_count == wrapping_total(count_column(values@)),
        r.total_latency_ns == wrapping_total(latency_column(values@)),
        r.max_latency_ns == seq_max(max_column(values@)),
{
    let mut acc = SchedHistogram::zeroed();
    let mut i: usize = 0;
    while i < values.len()
        invariant
            i <= values.len(),
            forall|b: int| 0 <= b < SCHED_HIST_BUCKETS ==> #[trigger] acc.buckets[b] == bucket_total(values@.subrange(0, i as int), b),
            acc.total_count == wrapping_total(count_column(values@.subrange(0, i as int))),
            acc.total_latency_ns == wrapping_total(latency_column(values@.subrange(0, i as int))),
            acc.max_latency_ns == seq_max(max_column(values@.subrange(0, i as int))),
        decreases values.len() - i,
    {
        let ghost pre = values@.subrange(0, i as int);
        let ghost post = values@.subrange(0, i + 1);
        assert(post.drop_last() =~= pre);
        assert(count_column(post).drop_last() =~= count_column(pre));
        assert(latency_column(post).drop_last() =~= latency_column(pre));
        assert(max_column(post).drop_last() =~= max_column(pre));
        merge_sched(&mut acc, &values[i]);
        i = i + 1;
    }
    assert(values@.subrange(0, i as int) =~= values@);
    acc
}

/// Sum one TCP counter record per CPU.
pub fn sum_percpu_tcp(values: &Vec<TcpStateSnapshot>) -> (r: TcpStateSnapshot)
    ensures
        r == tcp_total(values@),
        r.established == wrapping_total(Seq::new(values@.len(), |i: int| values@[i].established)),
        r.syn_sent == wrapping_total(Seq::new(values@.len(), |i: int| values@[i].syn_sent)),
        r.syn_recv == wrapping_total(Seq::new(values@.len(), |i: int| values@[i].syn_recv)),
        r.fin_wait1 == wrapping_total(Seq::new(values@.len(), |i: int| values@[i].fin_wait1)),
        r.fin_wait2 == wrapping_total(Seq::new(values@.len(), |i: int| values@[i].fin_wait2)),
        r.time_wait == wrapping_total(Seq::new(values@.len(), |i: int| values@[i].time_wait)),
        r.close_wait == wrapping_total(Seq::new(values@.len(), |i: int| values@[i].close_wait)),
        r.listen == wrapping_total(Seq::new(values@.len(), |i: int| values@[i].listen)),
        r.listen_overflows == wrapping_total(Seq::new(values@.len(), |i: int| values@[i].listen_overflows)),
        r.retransmits == wrapping_total(Seq::new(values@.len(), |i: int| values@[i].retransmits)),
        r.resets_in == wrapping_total(Seq::new(values@.len(), |i: int| values@[i].resets_in)),
        r.resets_out == wrapping_total(Seq::new(values@.len(), |i: int| values@[i].resets_out)),
{
    let mut acc = TcpStateSnapshot::zeroed();
    let mut i: usize = 0;
    while i < values.len()
        invariant
            i <= values.len(),
            acc == tcp_total(values@.subrange(0, i as int)),
        decreases values.len() - i,
    {
        assert(values@.subrange(0, i + 1).drop_last() =~= values@.subrange(0, i as int));
        merge_tcp(&mut acc, &values[i]);
        i = i + 1;
    }
    assert(values@.subrange(0, i as int) =~= values@);
    proof {
        lemma_tcp_total_is_column_sums(values@);
    }
    acc
}

/// Sum one interface counter record per CPU.
pub fn sum_percpu_iface(values: &Vec<NetIfaceStats>) -> (r: NetIfaceStats)
    ensures
        r == iface_total(values@),
        r.rx_bytes == wrapping_total(Seq::new(values@.len(), |i: int| values@[i].rx_bytes)),
        r.tx_bytes == wrapping_total(Seq::new(values@.len(), |i: int| values@[i].tx_bytes)),
        r.rx_packets == wrapping_total(Seq::new(values@.len(), |i: int| values@[i].rx_packets)),
        r.tx_packets == wrapping_total(Seq::new(values@.len(), |i: int| values@[i].tx_packets)),
        r.rx_drops == wrapping_total(Seq::new(values@.len(), |i: int| values@[i].rx_drops)),
        r.tx_drops == wrapping_total(Seq::new(values@.len(), |i: int| values@[i].tx_drops)),
        r.rx_errors == wrapping_total(Seq::new(values@.len(), |i: int| values@[i].rx_errors)),
        r.tx_errors == wrapping_total(Seq::new(values@.len(), |i: int| values@[i].tx_errors)),
        r.iface_idx == if values@.len() == 0 { 0 } else { values@.last().iface_idx },
        r._pad == 0,
{
    let mut acc = NetIfaceStats::zeroed();
    let mut i: usize = 0;
    while i < values.len()
        invariant
            i <= values.len(),
            acc == iface_total(values@.subrange(0, i as int)),
        decreases values.len() - i,
    {
        assert(values@.subrange(0, i + 1).drop_last() =~= values@.subrange(0, i as int));
        merge_iface(&mut acc, &values[i]);
        i = i + 1;
    }
    assert(values@.subrange(0, i as int) =~= values@);
    proof {
        lemma_iface_total_is_column_sums(values@);
    }
    acc
}

/// Sum one security counter record per CPU.
pub fn sum_percpu_security(values: &Vec<SecurityEventCounts>) -> (r: SecurityEventCounts)
    ensures
        r == security_total(values@),
        r.ptrace == wrapping_total(Seq::new(values@.len(), |i: int| values@[i].ptrace)),
        r.memfd_create == wrapping_total(Seq::new(values@.len(), |i: int| values@[i].memfd_create)),
        r.prctl == wrapping_total(Seq::new(values@.len(), |i: int| values@[i].prctl)),
        r.setuid == wrapping_total(Seq::new(values@.len(), |i: int| values@[i].setuid)),
        r.exec_anomaly == wrapping_total(Seq::new(values@.len(), |i: int| values@[i].exec_anomaly)),
        r.capability_use == wrapping_total(Seq::new(values@.len(), |i: int| values@[i].capability_use)),
{
    let mut acc = SecurityEventCounts::zeroed();
    let mut i: usize = 0;
    while i < values.len()
        invariant
            i <= values.len(),
            acc == security_total(values@.subrange(0, i as int)),
        decreases values.len() - i,
    {
        assert(values@.subrange(0, i + 1).drop_last() =~= values@.subrange(0, i as int));
        merge_security(&mut acc, &values[i]);
        i = i + 1;
    }
    assert(values@.subrange(0, i as int) =~= values@);
    proof {
        lemma_security_total_is_column_sums(values@);
    }
    acc
}

/// Sum the kernel-sourced memory counters of one record per CPU.
pub fn sum_percpu_mem(values: &Vec<MemorySnapshot>) -> (r: MemorySnapshot)
    ensures
        r == mem_total(values@),
        r.page_faults_minor == wrapping_total(Seq::new(values@.len(), |i: int| values@[i].page_faults_minor)),
        r.page_faults_major == wrapping_total(Seq::new(values@.len(), |i: int| values@[i].page_faults_major)),
        r.oom_kills_total == wrapping_total(Seq::new(values@.len(), |i: int| values@[i].oom_kills_total)),
        r.total_bytes == 0,
        r.free_bytes == 0,
        r.cached_bytes == 0,
        r.buffered_bytes == 0,
        r.slab_bytes == 0,
        r.swap_used_bytes == 0,
        r.swap_free_bytes == 0,
        r.psi_some_pct_x100 == 0,
        r.psi_full_pct_x100 == 0,
{
    let mut acc = MemorySnapshot::zeroed();
    let mut i: usize = 0;
    while i < values.len()
        invariant
            i <= values.len(),
            acc == mem_total(values@.subrange(0, i as int)),
        decreases values.len() - i,
    {
        assert(values@.subrange(0, i + 1).drop_last() =~= values@.subrange(0, i as int));
        merge_mem(&mut acc, &values[i]);
        i = i + 1;
    }
    assert(values@.subrange(0, i as int) =~= values@);
    proof {
        lemma_mem_total_is_column_sums(values@);
    }
    acc
}

/// One `CpuStats` per online CPU, numbered by position.
pub fn collect_per_cpu_cores(values: &Vec<CpuStats>) -> (out: Vec<CpuStats>)
    ensures
        out.len() == values.len(),
        forall|i: int| 0 <= i < values.len() ==> #[trigger] out@[i] == (CpuStats { cpu_id: i as u32, ..values@[i] }),
{
    let mut out: Vec<CpuStats> = Vec::with_capacity(values.len());
    let mut i: usize = 0;
    while i < values.len()
        invariant
            i <= values.len(),
            out.len() == i,
            forall|k: int| 0 <= k < i ==> #[trigger] out@[k] == (CpuStats { cpu_id: k as u32, ..values@[k] }),
        decreases values.len() - i,
    {
        let mut s = values[i];
        s.cpu_id = i as u32;
        out.push(s);
        i = i + 1;
    }
    out
}

/// Sort key of a cgroup in the published traffic list: total bytes,
/// saturating at `u64::MAX`.
pub open spec fn cgroup_traffic_key(e: CgroupNetBytes) -> u64 {
    e.rx_bytes.saturating_add(e.tx_bytes)
}

/// Sort key of a process in the published top list: on-CPU time.
pub open spec fn process_cpu_key(p: ProcessStats) -> u64 {
    p.cpu_user_ns
}

/// `out` is the first `cap` entries (or all, if fewer) of the stable
/// descending ordering of `input` by `keys`.
pub open spec fn is_top_n<T>(input: Seq<T>, keys: Seq<u64>, cap: int, out: Seq<T>) -> bool {
    exists|sorted: Seq<T>|
        is_stable_desc_sort(input, keys, sorted) && out == sorted.take(
            if input.len() < cap { input.len() as int } else { cap },
        )
}

/// The cgroups with the most traffic (`rx + tx`, descending, input
/// order among ties), at most `TOP_CGROUP_CAP` of them.
pub fn collect_cgroup_net(entries: &Vec<CgroupNetBytes>) -> (out: Vec<CgroupNetBytes>)
    ensures
        is_top_n(entries@, entries@.map_values(|e: CgroupNetBytes| cgroup_traffic_key(e)), TOP_CGROUP_CAP as int, out@),
{
    let mut keys: Vec<u64> = Vec::with_capacity(entries.len());
    let mut i: usize = 0;
    while i < entries.len()
        invariant
            i <= entries.len(),
            keys.len() == i,
            forall|k: int| 0 <= k < i ==> #[trigger] keys@[k] == cgroup_traffic_key(entries@[k]),
        decreases entries.len() - i,
    {
        keys.push(entries[i].rx_bytes.saturating_add(entries[i].tx_bytes));
        i = i + 1;
    }
    assert(keys@ =~= entries@.map_values(|e: CgroupNetBytes| cgroup_traffic_key(e)));
    let mut out = stable_sort_desc(entries, &keys);
    let ghost sorted = out@;
    out.truncate(TOP_CGROUP_CAP);
    proof {
        let cap = if entries@.len() < TOP_CGROUP_CAP { entries@.len() as int } else { TOP_CGROUP_CAP as int };
        let perm = choose|perm: Seq<int>| crate::sort::stable_desc_perm(entries@, keys@, sorted, perm);
        assert(sorted.len() == entries@.len());
        assert(out@ =~= sorted.take(cap));
    }
    out
}

/// The processes with the most on-CPU time (descending, input order
/// among ties), at most `TOP_PROCESS_CAP` of them.
pub fn collect_top_processes(entries: &Vec<ProcessStats>) -> (out: Vec<ProcessStats>)
    ensures
        is_top_n(entries@, entries@.map_values(|p: ProcessStats| process_cpu_key(p)), TOP_PROCESS_CAP as int, out@),
{
    let mut keys: Vec<u64> = Vec::with_capacity(entries.len());
    let mut i: usize = 0;
    while i < entries.len()
        invariant
            i <= entries.len(),
            keys.len() == i,
            forall|k: int| 0 <= k < i ==> #[trigger] keys@[k] == process_cpu_key(entries@[k]),
        decreases entries.len() - i,
    {
        keys.push(entries[i].cpu_user_ns);
        i = i + 1;
    }
    assert(keys@ =~= entries@.map_values(|p: ProcessStats| process_cpu_key(p)));
    let mut out = stable_sort_desc(entries, &keys);
    let ghost sorted = out@;
    out.truncate(TOP_PROCESS_CAP);
    proof {
        let cap = if entries@.len() < TOP_PROCESS_CAP { entries@.len() as int } else { TOP_PROCESS_CAP as int };
        let perm = choose|perm: Seq<int>| crate::sort::stable_desc_perm(entries@, keys@, sorted, perm);
        assert(sorted.len() == entries@.len());
        assert(out@ =~= sorted.take(cap));
    }
    out
}

// ----- percentiles -----

/// Number of events in buckets `0..=i`, saturating at `u64::MAX`.
pub open spec fn cumulative_count(h: SchedHistogram, i: int) -> u64
    decreases i + 1,
{
    if i < 0 {
        0
    } else {
        cumulative_count(h, i - 1).saturating_add(h.buckets[i])
    }
}

/// The bound reported for a latency bucket is the upper edge of that
/// bucket in the kernel's bucketing: a wait is counted in bucket `i`
/// exactly when it lies at or above the previous bucket's bound and below
/// bucket `i`'s (the last bucket has no upper edge and reports `u64::MAX`).
/// A percentile reported as bucket `i`'s bound is therefore never below a
/// wait counted in that bucket.
pub proof fn lemma_bucket_bound_is_upper_edge(i: int, ns: u64)
    requires
        0 <= i < SCHED_HIST_BUCKETS,
    ensures
        i < 7 ==> (spec_bucket_of(ns) == i <==> (i == 0 || bucket_bound_ns(i - 1) <= ns)
            && ns < bucket_bound_ns(i)),
        i == 7 ==> (spec_bucket_of(ns) == i <==> bucket_bound_ns(6) <= ns),
        spec_bucket_of(ns) == i ==> ns <= bucket_bound_ns(i),
        i < 7 ==> spec_bucket_of(bucket_bound_ns(i)) == i + 1,
{
}

/// Upper bound (ns) of the first bucket whose cumulative count reaches
/// `target`: the conservative percentile estimate for that target rank.
/// An empty histogram reports 0, and a target no bucket reaches reports
/// `u64::MAX`.
pub fn percentile_for_target(h: &SchedHistogram, target: u64) -> (r: u64)
    ensures
        h.total_count == 0 ==> r == 0,
        h.total_count != 0 && (exists|i: int| 0 <= i < SCHED_HIST_BUCKETS && cumulative_count(*h, i) >= target) ==> exists|i: int|
            0 <= i < SCHED_HIST_BUCKETS && cumulative_count(*h, i) >= target && (forall|j: int|
                0 <= j < i ==> cumulative_count(*h, j) < target) && r == bucket_bound_ns(i),
        h.total_count != 0 && !(exists|i: int| 0 <= i < SCHED_HIST_BUCKETS && cumulative_count(*h, i) >= target) ==> r == u64::MAX,
{
    if h.total_count == 0 {
        return 0;
    }
    let bounds: [u64; 8] = [
        10_000,
        100_000,
        1_000_000,
        10_000_000,
        100_000_000,
        1_000_000_000,
        10_000_000_000,
        u64::MAX,
    ];
    let mut cum: u64 = 0;
    let mut i: usize = 0;
    while i < SCHED_HIST_BUCKETS
        invariant
            i <= SCHED_HIST_BUCKETS,
            h.total_count != 0,
            cum == cumulative_count(*h, i - 1),
            forall|j: int| 0 <= j < i ==> cumulative_count(*h, j) < target,
            forall|k: int| 0 <= k < 8 ==> #[trigger] bounds[k] == bucket_bound_ns(k),
        decreases SCHED_HIST_BUCKETS - i,
    {
        cum = cum.saturating_add(h.buckets[i]);
        if cum >= target {
            assert(cumulative_count(*h, i as int) >= target);
            return bounds[i];
        }
        i = i + 1;
    }
    u64::MAX
}

// ----- laws -----

/// A wrapping fold equals the exact sum reduced modulo 2^64.
pub proof fn lemma_wrapping_total_is_sum_mod(s: Seq<u64>)
    ensures
        wrapping_total(s) as int == exact_total(s) as int % 0x1_0000_0000_0000_0000,
    decreases s.len(),
{
    if s.len() > 0 {
        lemma_wrapping_total_is_sum_mod(s.drop_last());
        let m: int = 0x1_0000_0000_0000_0000;
        vstd::arithmetic::div_mod::lemma_add_mod_noop(exact_total(s.drop_last()) as int, s.last() as int, m);
        vstd::arithmetic::div_mod::lemma_small_mod(s.last() as nat, m as nat);
        vstd::arithmetic::div_mod::lemma_mod_twice(exact_total(s.drop_last()) as int, m);
    }
}

/// A bucket's fold over per-CPU histograms is the wrapping total of that
/// bucket's column.
proof fn lemma_bucket_total_is_column_total(s: Seq<SchedHistogram>, b: int)
    ensures
        bucket_total(s, b) == wrapping_total(bucket_column(s, b)),
    decreases s.len(),
{
    if s.len() > 0 {
        lemma_bucket_total_is_column_total(s.drop_last(), b);
        assert(bucket_column(s, b).drop_last() =~= bucket_column(s.drop_last(), b));
    }
}

/// Summing per-CPU scheduler histograms is exact modulo 2^64: every bucket,
/// the event count and the summed latency of the result equal the
/// arithmetic sums over CPUs reduced modulo 2^64, and the maximum latency
/// is at least every CPU's maximum.
pub proof fn lemma_percpu_sched_sum_is_exact_mod_2_64(values: Seq<SchedHistogram>)
    ensures
        forall|b: int| 0 <= b < SCHED_HIST_BUCKETS ==> #[trigger] bucket_total(values, b) as int
            == exact_total(bucket_column(values, b)) as int % 0x1_0000_0000_0000_0000,
        wrapping_total(count_column(values)) as int == exact_total(count_column(values)) as int % 0x1_0000_0000_0000_0000,
        wrapping_total(latency_column(values)) as int == exact_total(latency_column(values)) as int % 0x1_0000_0000_0000_0000,
        forall|i: int| 0 <= i < values.len() ==> #[trigger] values[i].max_latency_ns <= seq_max(max_column(values)),
{
    assert forall|b: int| 0 <= b < SCHED_HIST_BUCKETS implies #[trigger] bucket_total(values, b) as int
        == exact_total(bucket_column(values, b)) as int % 0x1_0000_0000_0000_0000 by {
        lemma_bucket_total_is_column_total(values, b);
        lemma_wrapping_total_is_sum_mod(bucket_column(values, b));
    }
    lemma_wrapping_total_is_sum_mod(count_column(values));
    lemma_wrapping_total_is_sum_mod(latency_column(values));
    lemma_seq_max_bounds(max_column(values));
    assert forall|i: int| 0 <= i < values.len() implies #[trigger] values[i].max_latency_ns <= seq_max(max_column(values)) by {
        assert(max_column(values)[i] == values[i].max_latency_ns);
    }
}

/// Every element is at most `seq_max`.
proof fn lemma_seq_max_bounds(s: Seq<u64>)
    ensures
        forall|i: int| 0 <= i < s.len() ==> s[i] <= seq_max(s),
    decreases s.len(),
{
    if s.len() > 0 {
        lemma_seq_max_bounds(s.drop_last());
        assert forall|i: int| 0 <= i < s.len() implies s[i] <= seq_max(s) by {
            if i < s.len() - 1 {
                assert(s[i] == s.drop_last()[i]);
            }
        }
    }
}

} // verus!
