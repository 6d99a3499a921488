//! Per-event state updates of the kernel probes for processes, the
//! scheduler, interrupts, page faults and file I/O.
//!
//! Each function takes the tables and per-CPU records the probe touches,
//! plus the values the probe obtains from the kernel (pids, the current
//! `comm`, the monotonic clock), and performs the probe's update.
//! Counters wrap on overflow, as the kernel side counts.

use vstd::prelude::*;
use vstd::std_specs::hash::obeys_key_model;

use crate::bpf_map::BpfHashMap;
use crate::events::{ProcessEvent, ProcessEventKind};
use crate::metrics::{CpuStats, EventDropCounts, MemorySnapshot, ProcessStats, SchedHistogram};
use crate::{COMM_LEN, FILENAME_LEN, SCHED_HIST_BUCKETS};

verus! {

broadcast use vstd::std_specs::hash::group_hash_axioms;

/// Entries of the per-process tables.
pub const PROCESS_MAP_ENTRIES: usize = 4096;

/// Entries of the wakeup-time table.
pub const WAKEUP_MAP_ENTRIES: usize = 10240;

// ----- ring-buffer drop counters -----

/// Record a dropped process-event ring entry.
pub fn drop_process(d: &mut EventDropCounts)
    ensures
        *final(d) == (EventDropCounts { process: old(d).process.wrapping_add(1), ..*old(d) }),
{
    d.process = d.process.wrapping_add(1);
}

/// Record a dropped security-event ring entry.
pub fn drop_security(d: &mut EventDropCounts)
    ensures
        *final(d) == (EventDropCounts { security: old(d).security.wrapping_add(1), ..*old(d) }),
{
    d.security = d.security.wrapping_add(1);
}

/// Record a dropped network-event ring entry.
pub fn drop_network(d: &mut EventDropCounts)
    ensures
        *final(d) == (EventDropCounts { network: old(d).network.wrapping_add(1), ..*old(d) }),
{
    d.network = d.network.wrapping_add(1);
}

// ----- bounded-table updates, as specifications over contents -----

/// `m` after inserting `k -> v` into a table of capacity `cap`: updated
/// when `k` is present or there is room, unchanged otherwise.
pub open spec fn bounded_insert<K, V>(m: Map<K, V>, cap: nat, k: K, v: V) -> Map<K, V> {
    if m.contains_key(k) || m.len() < cap {
        m.insert(k, v)
    } else {
        m
    }
}

/// The statistics entry of `pid` that an update starts from: the present
/// one, or a zeroed one when there is room for it; `None` when the table
/// is full.
pub open spec fn process_slot(m: Map<u32, ProcessStats>, cap: nat, pid: u32) -> Option<
    ProcessStats,
> {
    if m.contains_key(pid) {
        Some(m[pid])
    } else if m.len() < cap {
        Some(ProcessStats::spec_zeroed())
    } else {
        None
    }
}

/// The statistics table after updating the entry of `pid` with `f`,
/// creating it zeroed first when absent; unchanged when the table is full.
pub open spec fn process_update(
    m: Map<u32, ProcessStats>,
    cap: nat,
    pid: u32,
    f: spec_fn(ProcessStats) -> ProcessStats,
) -> Map<u32, ProcessStats> {
    match process_slot(m, cap, pid) {
        Some(e) => m.insert(pid, f(e)),
        None => m,
    }
}

/// The per-task tables shared by the lifecycle, scheduler and file I/O
/// probes.
pub struct TaskMaps {
    /// Accumulated statistics per process (thread-group id).
    pub process_stats: BpfHashMap<u32, ProcessStats>,
    /// Time each running task was put on a CPU, per task id.
    pub oncpu_since: BpfHashMap<u32, u64>,
    /// Exit code stashed at `do_exit`, per thread-group id.
    pub exit_codes: BpfHashMap<u32, i32>,
    /// Time each runnable task was woken, per task id.
    pub wakeup_times: BpfHashMap<u32, u64>,
}

impl TaskMaps {
    /// Empty tables with the kernel-side capacities.
    pub fn new() -> (m: Self)
        ensures
            m.process_stats.contents() == Map::<u32, ProcessStats>::empty(),
            m.oncpu_since.contents() == Map::<u32, u64>::empty(),
            m.exit_codes.contents() == Map::<u32, i32>::empty(),
            m.wakeup_times.contents() == Map::<u32, u64>::empty(),
            m.process_stats.capacity() == PROCESS_MAP_ENTRIES,
            m.oncpu_since.capacity() == PROCESS_MAP_ENTRIES,
            m.exit_codes.capacity() == PROCESS_MAP_ENTRIES,
            m.wakeup_times.capacity() == WAKEUP_MAP_ENTRIES,
    {
        TaskMaps {
            process_stats: BpfHashMap::with_max_entries(PROCESS_MAP_ENTRIES),
            oncpu_since: BpfHashMap::with_max_entries(PROCESS_MAP_ENTRIES),
            exit_codes: BpfHashMap::with_max_entries(PROCESS_MAP_ENTRIES),
            wakeup_times: BpfHashMap::with_max_entries(WAKEUP_MAP_ENTRIES),
        }
    }

    /// Ensure a statistics entry exists for `pid`, creating a zeroed one
    /// if needed. Returns the entry, or `None` when the table is full.
    pub fn upsert(&mut self, pid: u32) -> (r: Option<ProcessStats>)
        ensures
            r == process_slot(
                old(self).process_stats.contents(),
                old(self).process_stats.capacity(),
                pid,
            ),
            final(self).process_stats.contents() == (match r {
                Some(e) => old(self).process_stats.contents().insert(pid, e),
                None => old(self).process_stats.contents(),
            }),
            final(self).process_stats.capacity() == old(self).process_stats.capacity(),
            final(self).oncpu_since == old(self).oncpu_since,
            final(self).exit_codes == old(self).exit_codes,
            final(self).wakeup_times == old(self).wakeup_times,
    {
        match self.process_stats.get(pid) {
            Some(e) => {
                proof {
                    assert(old(self).process_stats.contents().insert(pid, e) =~= old(
                        self,
                    ).process_stats.contents());
                }
                Some(e)
            },
            None => {
                let z = ProcessStats::zeroed();
                if self.process_stats.insert(pid, z) {
                    Some(z)
                } else {
                    None
                }
            },
        }
    }

    /// Apply an update already computed from the slot returned by `upsert`.
    fn store(&mut self, pid: u32, e: ProcessStats)
        requires
            old(self).process_stats.contents().contains_key(pid),
        ensures
            final(self).process_stats.contents() == old(self).process_stats.contents().insert(
                pid,
                e,
            ),
            final(self).process_stats.capacity() == old(self).process_stats.capacity(),
            final(self).oncpu_since == old(self).oncpu_since,
            final(self).exit_codes == old(self).exit_codes,
            final(self).wakeup_times == old(self).wakeup_times,
    {
        let _ = self.process_stats.insert(pid, e);
    }

    /// An `exec` (or the child side of a `fork`): write the identity
    /// fields of `pid`, keeping its accumulated counters.
    pub fn record_exec(&mut self, pid: u32, uid: u32, now: u64, comm: [u8; COMM_LEN])
        ensures
            final(self).process_stats.contents() == process_update(
                old(self).process_stats.contents(),
                old(self).process_stats.capacity(),
                pid,
                |e: ProcessStats| ProcessStats { pid, uid, start_time_ns: now, comm, ..e },
            ),
            final(self).process_stats.capacity() == old(self).process_stats.capacity(),
            final(self).oncpu_since == old(self).oncpu_since,
            final(self).exit_codes == old(self).exit_codes,
            final(self).wakeup_times == old(self).wakeup_times,
    {
        if let Some(e) = self.upsert(pid) {
            let updated = ProcessStats { pid, uid, start_time_ns: now, comm, ..e };
            self.store(pid, updated);
        }
    }

    /// A process exit: forget its statistics, on-CPU time and exit code.
    pub fn record_exit(&mut self, pid: u32)
        ensures
            final(self).process_stats.contents() == old(self).process_stats.contents().remove(pid),
            final(self).oncpu_since.contents() == old(self).oncpu_since.contents().remove(pid),
            final(self).exit_codes.contents() == old(self).exit_codes.contents().remove(pid),
            final(self).wakeup_times == old(self).wakeup_times,
            final(self).process_stats.capacity() == old(self).process_stats.capacity(),
            final(self).oncpu_since.capacity() == old(self).oncpu_since.capacity(),
            final(self).exit_codes.capacity() == old(self).exit_codes.capacity(),
    {
        self.process_stats.remove(pid);
        self.oncpu_since.remove(pid);
        self.exit_codes.remove(pid);
    }

    /// A thread exit: forget the per-thread scheduler entries.
    pub fn record_thread_exit(&mut self, tid: u32)
        ensures
            final(self).oncpu_since.contents() == old(self).oncpu_since.contents().remove(tid),
            final(self).wakeup_times.contents() == old(self).wakeup_times.contents().remove(tid),
            final(self).process_stats == old(self).process_stats,
            final(self).exit_codes == old(self).exit_codes,
            final(self).oncpu_since.capacity() == old(self).oncpu_since.capacity(),
            final(self).wakeup_times.capacity() == old(self).wakeup_times.capacity(),
    {
        self.oncpu_since.remove(tid);
        self.wakeup_times.remove(tid);
    }

    /// Record the parent of `pid` (at `fork`).
    pub fn set_ppid(&mut self, pid: u32, ppid: u32)
        ensures
            final(self).process_stats.contents() == process_update(
                old(self).process_stats.contents(),
                old(self).process_stats.capacity(),
                pid,
                |e: ProcessStats| ProcessStats { pid, ppid, ..e },
            ),
            final(self).process_stats.capacity() == old(self).process_stats.capacity(),
            final(self).oncpu_since == old(self).oncpu_since,
            final(self).exit_codes == old(self).exit_codes,
            final(self).wakeup_times == old(self).wakeup_times,
    {
        if let Some(e) = self.upsert(pid) {
            let updated = ProcessStats { pid, ppid, ..e };
            self.store(pid, updated);
        }
    }

    /// The recorded parent of `pid`, or 0 when `pid` is unknown.
    pub fn fetch_ppid(&self, pid: u32) -> (ppid: u32)
        ensures
            ppid == (if self.process_stats.contents().contains_key(pid) {
                self.process_stats.contents()[pid].ppid
            } else {
                0
            }),
    {
        match self.process_stats.get(pid) {
            Some(e) => e.ppid,
            None => 0,
        }
    }

    /// Stash the exit code of `pid` (at `do_exit`); the last write wins.
    pub fn stash_exit_code(&mut self, pid: u32, code: i32)
        ensures
            final(self).exit_codes.contents() == bounded_insert(
                old(self).exit_codes.contents(),
                old(self).exit_codes.capacity(),
                pid,
                code,
            ),
            final(self).exit_codes.capacity() == old(self).exit_codes.capacity(),
            final(self).process_stats == old(self).process_stats,
            final(self).oncpu_since == old(self).oncpu_since,
            final(self).wakeup_times == old(self).wakeup_times,
    {
        let _ = self.exit_codes.insert(pid, code);
    }

    /// Take the stashed exit code of `pid` (0 when none) and forget it.
    pub fn take_exit_code(&mut self, pid: u32) -> (code: i32)
        ensures
            code == (if old(self).exit_codes.contents().contains_key(pid) {
                old(self).exit_codes.contents()[pid]
            } else {
                0
            }),
            final(self).exit_codes.contents() == old(self).exit_codes.contents().remove(pid),
            final(self).exit_codes.capacity() == old(self).exit_codes.capacity(),
            final(self).process_stats == old(self).process_stats,
            final(self).oncpu_since == old(self).oncpu_since,
            final(self).wakeup_times == old(self).wakeup_times,
    {
        let code = match self.exit_codes.get(pid) {
            Some(c) => c,
            None => 0,
        };
        self.exit_codes.remove(pid);
        code
    }
}

} // verus!

verus! {

// ----- scheduler -----

/// Histogram bucket of a runqueue wait: log-spaced upper bounds of 10 µs,
/// 100 µs, 1 ms, 10 ms, 100 ms, 1 s and 10 s, then everything longer.
pub open spec fn spec_bucket_of(ns: u64) -> int {
    if ns < 10_000 {
        0
    } else if ns < 100_000 {
        1
    } else if ns < 1_000_000 {
        2
    } else if ns < 10_000_000 {
        3
    } else if ns < 100_000_000 {
        4
    } else if ns < 1_000_000_000 {
        5
    } else if ns < 10_000_000_000 {
        6
    } else {
        7
    }
}

/// Histogram bucket of a runqueue wait of `ns` nanoseconds.
pub fn bucket_of(ns: u64) -> (b: usize)
    ensures
        b == spec_bucket_of(ns),
        b < SCHED_HIST_BUCKETS,
{
    if ns < 10_000 {
        0
    } else if ns < 100_000 {
        1
    } else if ns < 1_000_000 {
        2
    } else if ns < 10_000_000 {
        3
    } else if ns < 100_000_000 {
        4
    } else if ns < 1_000_000_000 {
        5
    } else if ns < 10_000_000_000 {
        6
    } else {
        7
    }
}

/// `new` is `old` with one wait of `delta` nanoseconds recorded.
pub open spec fn histogram_recorded(old: SchedHistogram, new: SchedHistogram, delta: u64) -> bool {
    let b = spec_bucket_of(delta);
    &&& new.buckets@ == old.buckets@.update(b, old.buckets[b].wrapping_add(1))
    &&& new.total_count == old.total_count.wrapping_add(1)
    &&& new.total_latency_ns == old.total_latency_ns.wrapping_add(delta)
    &&& new.max_latency_ns == (if delta > old.max_latency_ns {
        delta
    } else {
        old.max_latency_ns
    })
}

/// Recording a wait counts it once, in the bucket whose latency range
/// holds it: that bucket, the event count and the summed latency each grow
/// by the wait's share (modulo 2^64), every other bucket is unchanged, and
/// the maximum becomes the larger of the old maximum and the wait.
pub proof fn lemma_histogram_records_one_wait(old: SchedHistogram, new: SchedHistogram, delta: u64, b: int)
    requires
        histogram_recorded(old, new, delta),
        0 <= b < SCHED_HIST_BUCKETS,
    ensures
        new.buckets[b] as int == (if (b == 0 || crate::aggregate::bucket_bound_ns(b - 1) <= delta)
            && (b == 7 || delta < crate::aggregate::bucket_bound_ns(b)) {
            (old.buckets[b] + 1) % 0x1_0000_0000_0000_0000
        } else {
            old.buckets[b] as int
        }),
        new.total_count as int == (old.total_count + 1) % 0x1_0000_0000_0000_0000,
        new.total_latency_ns as int == (old.total_latency_ns + delta) % 0x1_0000_0000_0000_0000,
        new.max_latency_ns >= old.max_latency_ns,
        new.max_latency_ns >= delta,
        new.max_latency_ns == old.max_latency_ns || new.max_latency_ns == delta,
{
    assert(new.buckets[b] == new.buckets@[b]);
    assert(old.buckets[b] == old.buckets@[b]);
    crate::aggregate::lemma_bucket_bound_is_upper_edge(b, delta);
}

/// Charging a slice to a process adds the slice to its CPU time (modulo
/// 2^64) and counts one context switch: involuntary when the task was
/// still runnable (`prev_state == 0`), voluntary otherwise. Identity and
/// every other counter are kept.
pub proof fn lemma_charge_counts_one_switch(e: ProcessStats, pid: u32, comm: [u8; COMM_LEN], slice: u64, prev_state: u32)
    ensures
        ({
            let c = charged(e, pid, comm, slice, prev_state);
            &&& c.pid == pid && c.comm == comm
            &&& c.cpu_user_ns as int == (e.cpu_user_ns + slice) % 0x1_0000_0000_0000_0000
            &&& prev_state == 0 ==> c.involuntary_ctx_sw as int == (e.involuntary_ctx_sw + 1)
                % 0x1_0000_0000_0000_0000 && c.voluntary_ctx_sw == e.voluntary_ctx_sw
            &&& prev_state != 0 ==> c.voluntary_ctx_sw as int == (e.voluntary_ctx_sw + 1)
                % 0x1_0000_0000_0000_0000 && c.involuntary_ctx_sw == e.involuntary_ctx_sw
            &&& c.cpu_system_ns == e.cpu_system_ns && c.ppid == e.ppid && c.uid == e.uid
            &&& c.thread_count == e.thread_count && c.mem_rss_bytes == e.mem_rss_bytes
            &&& c.mem_vms_bytes == e.mem_vms_bytes && c.read_bytes == e.read_bytes
            &&& c.write_bytes == e.write_bytes && c.page_faults_minor == e.page_faults_minor
            &&& c.page_faults_major == e.page_faults_major && c.start_time_ns == e.start_time_ns
            &&& c.open_fds == e.open_fds
        }),
{
}

/// Record one runqueue wait of `delta` nanoseconds.
pub fn update_histogram(h: &mut SchedHistogram, delta: u64)
    ensures
        histogram_recorded(*old(h), *final(h), delta),
{
    let idx = bucket_of(delta);
    h.buckets[idx] = h.buckets[idx].wrapping_add(1);
    h.total_count = h.total_count.wrapping_add(1);
    h.total_latency_ns = h.total_latency_ns.wrapping_add(delta);
    if delta > h.max_latency_ns {
        h.max_latency_ns = delta;
    }
}

/// A process's statistics after it ran for `slice` nanoseconds and was
/// switched out: the slice is charged as CPU time and the switch counted as
/// involuntary when the task was still runnable (`prev_state == 0`),
/// voluntary otherwise.
pub open spec fn charged(
    e: ProcessStats,
    pid: u32,
    comm: [u8; COMM_LEN],
    slice: u64,
    prev_state: u32,
) -> ProcessStats {
    ProcessStats {
        pid,
        comm,
        cpu_user_ns: e.cpu_user_ns.wrapping_add(slice),
        involuntary_ctx_sw: if prev_state == 0 {
            e.involuntary_ctx_sw.wrapping_add(1)
        } else {
            e.involuntary_ctx_sw
        },
        voluntary_ctx_sw: if prev_state == 0 {
            e.voluntary_ctx_sw
        } else {
            e.voluntary_ctx_sw.wrapping_add(1)
        },
        ..e
    }
}

impl TaskMaps {
    /// A task became runnable: remember when.
    pub fn sched_wakeup(&mut self, pid: u32, now: u64)
        ensures
            final(self).wakeup_times.contents() == bounded_insert(
                old(self).wakeup_times.contents(),
                old(self).wakeup_times.capacity(),
                pid,
                now,
            ),
            final(self).wakeup_times.capacity() == old(self).wakeup_times.capacity(),
            final(self).process_stats == old(self).process_stats,
            final(self).oncpu_since == old(self).oncpu_since,
            final(self).exit_codes == old(self).exit_codes,
    {
        let _ = self.wakeup_times.insert(pid, now);
    }

    /// A context switch from `prev_pid` to `next_pid` at time `now`:
    /// (1) the wait of `next_pid` since its wakeup goes into the histogram,
    /// (2) the time `prev_pid` spent on the CPU is charged to it, with a
    /// voluntary or involuntary switch counted, and (3) `next_pid` is
    /// marked on-CPU. Pid 0 (the idle task) is never accounted.
    pub fn sched_switch(
        &mut self,
        hist: &mut SchedHistogram,
        prev_pid: u32,
        prev_comm: [u8; COMM_LEN],
        prev_state: u32,
        next_pid: u32,
        next_comm: [u8; COMM_LEN],
        now: u64,
    )
        ensures
            ({
                let woke = next_pid != 0 && old(self).wakeup_times.contents().contains_key(
                    next_pid,
                );
                let ran = prev_pid != 0 && old(self).oncpu_since.contents().contains_key(prev_pid);
                let cap = old(self).process_stats.capacity();
                let ps1 = if ran {
                    process_update(
                        old(self).process_stats.contents(),
                        cap,
                        prev_pid,
                        |e: ProcessStats|
                            charged(
                                e,
                                prev_pid,
                                prev_comm,
                                now.saturating_sub(old(self).oncpu_since.contents()[prev_pid]),
                                prev_state,
                            ),
                    )
                } else {
                    old(self).process_stats.contents()
                };
                let on1 = if ran {
                    old(self).oncpu_since.contents().remove(prev_pid)
                } else {
                    old(self).oncpu_since.contents()
                };
                &&& if woke {
                    &&& histogram_recorded(
                        *old(hist),
                        *final(hist),
                        now.saturating_sub(old(self).wakeup_times.contents()[next_pid]),
                    )
                    &&& final(self).wakeup_times.contents() == old(
                        self,
                    ).wakeup_times.contents().remove(next_pid)
                } else {
                    &&& *final(hist) == *old(hist)
                    &&& final(self).wakeup_times.contents() == old(self).wakeup_times.contents()
                }
                &&& final(self).process_stats.contents() == if next_pid != 0 {
                    process_update(
                        ps1,
                        cap,
                        next_pid,
                        |e: ProcessStats| ProcessStats { pid: next_pid, comm: next_comm, ..e },
                    )
                } else {
                    ps1
                }
                &&& final(self).oncpu_since.contents() == if next_pid != 0 {
                    bounded_insert(on1, old(self).oncpu_since.capacity(), next_pid, now)
                } else {
                    on1
                }
            }),
            final(self).process_stats.capacity() == old(self).process_stats.capacity(),
            final(self).oncpu_since.capacity() == old(self).oncpu_since.capacity(),
            final(self).wakeup_times.capacity() == old(self).wakeup_times.capacity(),
            final(self).exit_codes == old(self).exit_codes,
    {
        let ghost old_hist = *hist;
        let ghost ps0 = self.process_stats.contents();
        let ghost on0 = self.oncpu_since.contents();
        let ghost wk0 = self.wakeup_times.contents();
        let ghost cap = self.process_stats.capacity();
        // (1) runqueue wait of the incoming task
        if next_pid != 0 {
            if let Some(woke_at) = self.wakeup_times.get(next_pid) {
                let delta = now.saturating_sub(woke_at);
                self.wakeup_times.remove(next_pid);
                update_histogram(hist, delta);
            }
        }
        // (2) CPU slice of the outgoing task
        let ghost ran = prev_pid != 0 && on0.contains_key(prev_pid);
        let ghost fcharge = |e: ProcessStats|
            charged(e, prev_pid, prev_comm, now.saturating_sub(on0[prev_pid]), prev_state);
        if prev_pid != 0 {
            if let Some(on_at) = self.oncpu_since.get(prev_pid) {
                let slice = now.saturating_sub(on_at);
                self.oncpu_since.remove(prev_pid);
                if let Some(e) = self.upsert(prev_pid) {
                    let mut p = e;
                    p.pid = prev_pid;
                    p.comm = prev_comm;
                    p.cpu_user_ns = p.cpu_user_ns.wrapping_add(slice);
                    if prev_state == 0 {
                        p.involuntary_ctx_sw = p.involuntary_ctx_sw.wrapping_add(1);
                    } else {
                        p.voluntary_ctx_sw = p.voluntary_ctx_sw.wrapping_add(1);
                    }
                    assert(p == fcharge(e));
                    self.store(prev_pid, p);
                }
            }
        }
        let ghost ps1 = if ran {
            process_update(ps0, cap, prev_pid, fcharge)
        } else {
            ps0
        };
        assert(self.process_stats.contents() == ps1);
        // (3) the incoming task is now on the CPU
        let ghost fnext = |e: ProcessStats| ProcessStats { pid: next_pid, comm: next_comm, ..e };
        if next_pid != 0 {
            if let Some(e) = self.upsert(next_pid) {
                let p = ProcessStats { pid: next_pid, comm: next_comm, ..e };
                assert(p == fnext(e));
                self.store(next_pid, p);
            }
            assert(self.process_stats.contents() == process_update(ps1, cap, next_pid, fnext));
            let _ = self.oncpu_since.insert(next_pid, now);
        }
    }
}

} // verus!

verus! {

// ----- process lifecycle -----

/// The process event a lifecycle probe emits.
pub open spec fn process_event(
    kind: ProcessEventKind,
    pid: u32,
    ppid: u32,
    uid: u32,
    exit_code: i32,
    now: u64,
    comm: [u8; COMM_LEN],
) -> ProcessEvent {
    ProcessEvent {
        kind: kind.spec_code(),
        pid,
        ppid,
        uid,
        exit_code,
        _pad: 0,
        timestamp_ns: now,
        comm,
        filename: vstd::array::spec_array_fill_for_copy_type::<u8, FILENAME_LEN>(0),
    }
}

/// Build a zero-initialised process event with the given fields.
pub fn build_process_event(
    kind: ProcessEventKind,
    pid: u32,
    ppid: u32,
    uid: u32,
    exit_code: i32,
    now: u64,
    comm: [u8; COMM_LEN],
) -> (e: ProcessEvent)
    ensures
        e == process_event(kind, pid, ppid, uid, exit_code, now, comm),
{
    ProcessEvent {
        kind: kind.code(),
        pid,
        ppid,
        uid,
        exit_code,
        _pad: 0,
        timestamp_ns: now,
        comm,
        filename: [0u8; FILENAME_LEN],
    }
}

impl TaskMaps {
    /// `sched_process_exec`: record the new image of `pid` and report it
    /// with the known parent.
    pub fn on_exec(&mut self, pid: u32, uid: u32, now: u64, comm: [u8; COMM_LEN]) -> (ev:
        ProcessEvent)
        ensures
            final(self).process_stats.contents() == process_update(
                old(self).process_stats.contents(),
                old(self).process_stats.capacity(),
                pid,
                |e: ProcessStats| ProcessStats { pid, uid, start_time_ns: now, comm, ..e },
            ),
            ev == process_event(
                ProcessEventKind::Exec,
                pid,
                (if final(self).process_stats.contents().contains_key(pid) {
                    final(self).process_stats.contents()[pid].ppid
                } else {
                    0
                }),
                uid,
                0,
                now,
                comm,
            ),
            final(self).process_stats.capacity() == old(self).process_stats.capacity(),
            final(self).oncpu_since == old(self).oncpu_since,
            final(self).exit_codes == old(self).exit_codes,
            final(self).wakeup_times == old(self).wakeup_times,
    {
        self.record_exec(pid, uid, now, comm);
        let ppid = self.fetch_ppid(pid);
        build_process_event(ProcessEventKind::Exec, pid, ppid, uid, 0, now, comm)
    }

    /// `sched_process_exit` for thread `tid` of process `pid`: the stashed
    /// exit code is taken; when the leader exits the process is reported
    /// and forgotten; the thread's scheduler entries are always dropped.
    pub fn on_exit(&mut self, pid: u32, tid: u32, uid: u32, now: u64, comm: [u8; COMM_LEN]) -> (ev:
        Option<ProcessEvent>)
        ensures
            ({
                let ppid = if old(self).process_stats.contents().contains_key(pid) {
                    old(self).process_stats.contents()[pid].ppid
                } else {
                    0
                };
                let code = if old(self).exit_codes.contents().contains_key(pid) {
                    old(self).exit_codes.contents()[pid]
                } else {
                    0
                };
                let leader = tid == pid;
                &&& ev == (if leader {
                    Some(process_event(ProcessEventKind::Exit, pid, ppid, uid, code, now, comm))
                } else {
                    None
                })
                &&& final(self).process_stats.contents() == (if leader {
                    old(self).process_stats.contents().remove(pid)
                } else {
                    old(self).process_stats.contents()
                })
                &&& final(self).exit_codes.contents() == old(self).exit_codes.contents().remove(
                    pid,
                )
                &&& final(self).oncpu_since.contents() == (if leader {
                    old(self).oncpu_since.contents().remove(pid).remove(tid)
                } else {
                    old(self).oncpu_since.contents().remove(tid)
                })
                &&& final(self).wakeup_times.contents() == old(
                    self,
                ).wakeup_times.contents().remove(tid)
            }),
            final(self).process_stats.capacity() == old(self).process_stats.capacity(),
            final(self).oncpu_since.capacity() == old(self).oncpu_since.capacity(),
            final(self).exit_codes.capacity() == old(self).exit_codes.capacity(),
            final(self).wakeup_times.capacity() == old(self).wakeup_times.capacity(),
    {
        let ppid = self.fetch_ppid(pid);
        let exit_code = self.take_exit_code(pid);
        let mut ev: Option<ProcessEvent> = None;
        if tid == pid {
            ev = Some(build_process_event(ProcessEventKind::Exit, pid, ppid, uid, exit_code, now, comm));
            self.record_exit(pid);
            assert(self.exit_codes.contents() =~= old(self).exit_codes.contents().remove(pid));
        }
        self.record_thread_exit(tid);
        ev
    }

    /// `sched_process_fork`: report the child with its parent, then record
    /// the child's identity and parent.
    pub fn on_fork(
        &mut self,
        parent_pid: u32,
        child_pid: u32,
        uid: u32,
        now: u64,
        comm: [u8; COMM_LEN],
    ) -> (ev: ProcessEvent)
        ensures
            ev == process_event(ProcessEventKind::Fork, child_pid, parent_pid, uid, 0, now, comm),
            final(self).process_stats.contents() == process_update(
                process_update(
                    old(self).process_stats.contents(),
                    old(self).process_stats.capacity(),
                    child_pid,
                    |e: ProcessStats|
                        ProcessStats { pid: child_pid, uid, start_time_ns: now, comm, ..e },
                ),
                old(self).process_stats.capacity(),
                child_pid,
                |e: ProcessStats| ProcessStats { pid: child_pid, ppid: parent_pid, ..e },
            ),
            final(self).process_stats.capacity() == old(self).process_stats.capacity(),
            final(self).oncpu_since == old(self).oncpu_since,
            final(self).exit_codes == old(self).exit_codes,
            final(self).wakeup_times == old(self).wakeup_times,
    {
        let ev = build_process_event(ProcessEventKind::Fork, child_pid, parent_pid, uid, 0, now, comm);
        self.record_exec(child_pid, uid, now, comm);
        self.set_ppid(child_pid, parent_pid);
        ev
    }

    /// `do_exit`: stash the low 32 bits of the exit code of `pid`.
    pub fn on_do_exit(&mut self, pid: u32, code: u64)
        ensures
            final(self).exit_codes.contents() == bounded_insert(
                old(self).exit_codes.contents(),
                old(self).exit_codes.capacity(),
                pid,
                code as i32,
            ),
            final(self).exit_codes.capacity() == old(self).exit_codes.capacity(),
            final(self).process_stats == old(self).process_stats,
            final(self).oncpu_since == old(self).oncpu_since,
            final(self).wakeup_times == old(self).wakeup_times,
    {
        self.stash_exit_code(pid, code as i32);
    }

    /// `vfs_read`: charge `count` requested bytes to `pid`.
    pub fn vfs_read(&mut self, pid: u32, count: usize)
        ensures
            final(self).process_stats.contents() == (if count == 0 {
                old(self).process_stats.contents()
            } else {
                process_update(
                    old(self).process_stats.contents(),
                    old(self).process_stats.capacity(),
                    pid,
                    |e: ProcessStats|
                        ProcessStats { pid, read_bytes: e.read_bytes.wrapping_add(count as u64), ..e },
                )
            }),
            final(self).process_stats.capacity() == old(self).process_stats.capacity(),
            final(self).oncpu_since == old(self).oncpu_since,
            final(self).exit_codes == old(self).exit_codes,
            final(self).wakeup_times == old(self).wakeup_times,
    {
        if count == 0 {
            return;
        }
        if let Some(e) = self.upsert(pid) {
            let p = ProcessStats { pid, read_bytes: e.read_bytes.wrapping_add(count as u64), ..e };
            self.store(pid, p);
        }
    }

    /// `vfs_write`: charge `count` requested bytes to `pid`.
    pub fn vfs_write(&mut self, pid: u32, count: usize)
        ensures
            final(self).process_stats.contents() == (if count == 0 {
                old(self).process_stats.contents()
            } else {
                process_update(
                    old(self).process_stats.contents(),
                    old(self).process_stats.capacity(),
                    pid,
                    |e: ProcessStats|
                        ProcessStats { pid, write_bytes: e.write_bytes.wrapping_add(count as u64), ..e },
                )
            }),
            final(self).process_stats.capacity() == old(self).process_stats.capacity(),
            final(self).oncpu_since == old(self).oncpu_since,
            final(self).exit_codes == old(self).exit_codes,
            final(self).wakeup_times == old(self).wakeup_times,
    {
        if count == 0 {
            return;
        }
        if let Some(e) = self.upsert(pid) {
            let p = ProcessStats { pid, write_bytes: e.write_bytes.wrapping_add(count as u64), ..e };
            self.store(pid, p);
        }
    }
}

// ----- interrupts -----

/// `irq_handler_entry` / `softirq_entry`: remember when the handler
/// started on this CPU.
pub fn irq_entry(entry_ts: &mut u64, now: u64)
    ensures
        *final(entry_ts) == now,
{
    *entry_ts = now;
}

/// `irq_handler_exit`: charge the handler's run time to this CPU's IRQ
/// time and clear the entry slot. Without a recorded entry (slot 0) nothing
/// is charged.
pub fn irq_handler_exit(entry_ts: &mut u64, cpu: &mut CpuStats, now: u64)
    ensures
        *old(entry_ts) == 0 ==> *final(entry_ts) == 0 && *final(cpu) == *old(cpu),
        *old(entry_ts) != 0 ==> *final(entry_ts) == 0 && *final(cpu) == (CpuStats {
            irq_ns: old(cpu).irq_ns.wrapping_add(now.saturating_sub(*old(entry_ts))),
            ..*old(cpu)
        }),
{
    let entry = *entry_ts;
    if entry == 0 {
        return;
    }
    *entry_ts = 0;
    let delta = now.saturating_sub(entry);
    cpu.irq_ns = cpu.irq_ns.wrapping_add(delta);
}

/// `softirq_exit`: charge the softirq's run time to this CPU's softirq
/// time and clear the entry slot. Without a recorded entry (slot 0) nothing
/// is charged.
pub fn softirq_exit(entry_ts: &mut u64, cpu: &mut CpuStats, now: u64)
    ensures
        *old(entry_ts) == 0 ==> *final(entry_ts) == 0 && *final(cpu) == *old(cpu),
        *old(entry_ts) != 0 ==> *final(entry_ts) == 0 && *final(cpu) == (CpuStats {
            softirq_ns: old(cpu).softirq_ns.wrapping_add(now.saturating_sub(*old(entry_ts))),
            ..*old(cpu)
        }),
{
    let entry = *entry_ts;
    if entry == 0 {
        return;
    }
    *entry_ts = 0;
    let delta = now.saturating_sub(entry);
    cpu.softirq_ns = cpu.softirq_ns.wrapping_add(delta);
}

// ----- memory -----

/// The fault-flags bit set for faults raised by user space.
pub const FAULT_FLAG_USER: u32 = 0x40;

/// `handle_mm_fault`: count user-space page faults.
pub fn handle_mm_fault(mem: &mut MemorySnapshot, flags: u32)
    ensures
        *final(mem) == (if flags & FAULT_FLAG_USER == 0 {
            *old(mem)
        } else {
            MemorySnapshot {
                page_faults_minor: old(mem).page_faults_minor.wrapping_add(1),
                ..*old(mem)
            }
        }),
{
    if flags & FAULT_FLAG_USER == 0 {
        return;
    }
    mem.page_faults_minor = mem.page_faults_minor.wrapping_add(1);
}

/// `oom_kill_process`: count one OOM-killer victim.
pub fn oom_kill_process(mem: &mut MemorySnapshot)
    ensures
        *final(mem) == (MemorySnapshot {
            oom_kills_total: old(mem).oom_kills_total.wrapping_add(1),
            ..*old(mem)
        }),
{
    mem.oom_kills_total = mem.oom_kills_total.wrapping_add(1);
}

} // verus!
