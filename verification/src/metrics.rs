//! Aggregated metric records. High-frequency counters live in per-CPU
//! kernel maps; the daemon sums them once per second into these records.

use vstd::prelude::*;

use crate::{COMM_LEN, SCHED_HIST_BUCKETS};

verus! {

/// Per-CPU accumulated time (nanoseconds) in each scheduling class, plus
/// the context-switch count.
#[derive(Copy, Clone, Debug, Default)]
pub struct CpuStats {
    pub cpu_id: u32,
    /// Alignment padding of the C layout.
    pub _pad: u32,
    pub user_ns: u64,
    pub system_ns: u64,
    pub iowait_ns: u64,
    pub irq_ns: u64,
    pub softirq_ns: u64,
    pub idle_ns: u64,
    pub ctx_switches: u64,
}

/// Per-process accumulated statistics.
#[derive(Copy, Clone, Debug, Default)]
pub struct ProcessStats {
    pub pid: u32,
    pub ppid: u32,
    pub uid: u32,
    pub thread_count: u32,
    pub cpu_user_ns: u64,
    pub cpu_system_ns: u64,
    pub mem_rss_bytes: u64,
    pub mem_vms_bytes: u64,
    pub voluntary_ctx_sw: u64,
    pub involuntary_ctx_sw: u64,
    pub read_bytes: u64,
    pub write_bytes: u64,
    pub page_faults_minor: u64,
    pub page_faults_major: u64,
    pub start_time_ns: u64,
    pub open_fds: u32,
    /// Alignment padding of the C layout.
    pub _pad: u32,
    pub comm: [u8; COMM_LEN],
}

/// Per-block-device I/O statistics.
#[derive(Copy, Clone, Debug, Default)]
pub struct BlockStats {
    pub device_major: u32,
    pub device_minor: u32,
    pub reads_completed: u64,
    pub writes_completed: u64,
    pub read_bytes: u64,
    pub write_bytes: u64,
    pub read_latency_ns: u64,
    pub write_latency_ns: u64,
    pub io_inflight: u64,
    pub io_ticks_ms: u64,
}

/// Per-network-interface byte/packet counters.
#[derive(Copy, Clone, Debug, Default)]
pub struct NetIfaceStats {
    pub iface_idx: u32,
    /// Alignment padding of the C layout.
    pub _pad: u32,
    pub rx_bytes: u64,
    pub tx_bytes: u64,
    pub rx_packets: u64,
    pub tx_packets: u64,
    pub rx_drops: u64,
    pub tx_drops: u64,
    pub rx_errors: u64,
    pub tx_errors: u64,
}

/// System-wide TCP state machine counters.
#[derive(Copy, Clone, Debug, Default)]
pub struct TcpStateSnapshot {
    pub established: u64,
    pub syn_sent: u64,
    pub syn_recv: u64,
    pub fin_wait1: u64,
    pub fin_wait2: u64,
    pub time_wait: u64,
    pub close_wait: u64,
    pub listen: u64,
    pub listen_overflows: u64,
    pub retransmits: u64,
    pub resets_in: u64,
    pub resets_out: u64,
}

/// Runqueue-wait latency histogram; buckets are log-spaced (see
/// `SCHED_HIST_BUCKETS`).
#[derive(Copy, Clone, Debug, Default)]
pub struct SchedHistogram {
    pub buckets: [u64; SCHED_HIST_BUCKETS],
    pub total_count: u64,
    pub total_latency_ns: u64,
    pub max_latency_ns: u64,
}

/// Memory pressure and faulting snapshot.
#[derive(Copy, Clone, Debug, Default)]
pub struct MemorySnapshot {
    pub total_bytes: u64,
    pub free_bytes: u64,
    pub cached_bytes: u64,
    pub buffered_bytes: u64,
    pub slab_bytes: u64,
    pub swap_used_bytes: u64,
    pub swap_free_bytes: u64,
    pub page_faults_minor: u64,
    pub page_faults_major: u64,
    pub psi_some_pct_x100: u32,
    pub psi_full_pct_x100: u32,
    pub oom_kills_total: u64,
}

/// Per-cgroup network byte and packet counters. The `*_internet_bytes`
/// fields are the subset of traffic whose remote address is neither
/// private, loopback nor link-local.
#[derive(Copy, Clone, Debug, Default)]
pub struct CgroupNetBytes {
    pub cgroup_id: u64,
    pub rx_bytes: u64,
    pub tx_bytes: u64,
    pub rx_packets: u64,
    pub tx_packets: u64,
    pub rx_internet_bytes: u64,
    pub tx_internet_bytes: u64,
}

/// Ring-buffer events dropped because the buffer was full.
#[derive(Copy, Clone, Debug, Default)]
pub struct EventDropCounts {
    pub process: u64,
    pub security: u64,
    pub network: u64,
}

/// Cumulative counts of security-relevant syscalls and anomalies.
#[derive(Copy, Clone, Debug, Default)]
pub struct SecurityEventCounts {
    pub ptrace: u64,
    pub memfd_create: u64,
    pub prctl: u64,
    pub setuid: u64,
    pub exec_anomaly: u64,
    pub capability_use: u64,
}

impl CpuStats {
    /// The all-zero record.
    pub open spec fn spec_zeroed() -> Self {
        CpuStats {
                cpu_id: 0, _pad: 0, user_ns: 0, system_ns: 0, iowait_ns: 0, irq_ns: 0,
                softirq_ns: 0, idle_ns: 0, ctx_switches: 0,
            }
    }

    /// The all-zero record.
    pub fn zeroed() -> (r: Self)
        ensures
            r == Self::spec_zeroed(),
    {
        CpuStats {
            cpu_id: 0, _pad: 0, user_ns: 0, system_ns: 0, iowait_ns: 0, irq_ns: 0,
            softirq_ns: 0, idle_ns: 0, ctx_switches: 0,
        }
    }
}

impl ProcessStats {
    /// Whether every counter and identity field is zero.
    pub open spec fn is_zeroed(self) -> bool {
        &&& self.pid == 0 && self.ppid == 0 && self.uid == 0 && self.thread_count == 0
        &&& self.cpu_user_ns == 0 && self.cpu_system_ns == 0
        &&& self.mem_rss_bytes == 0 && self.mem_vms_bytes == 0
        &&& self.voluntary_ctx_sw == 0 && self.involuntary_ctx_sw == 0
        &&& self.read_bytes == 0 && self.write_bytes == 0
        &&& self.page_faults_minor == 0 && self.page_faults_major == 0
        &&& self.start_time_ns == 0 && self.open_fds == 0 && self._pad == 0
        &&& forall|i: int| 0 <= i < COMM_LEN ==> self.comm[i] == 0u8
    }

    /// The all-zero record.
    pub open spec fn spec_zeroed() -> Self {
        ProcessStats {
            pid: 0, ppid: 0, uid: 0, thread_count: 0, cpu_user_ns: 0, cpu_system_ns: 0,
            mem_rss_bytes: 0, mem_vms_bytes: 0, voluntary_ctx_sw: 0, involuntary_ctx_sw: 0,
            read_bytes: 0, write_bytes: 0, page_faults_minor: 0, page_faults_major: 0,
            start_time_ns: 0, open_fds: 0, _pad: 0,
            comm: vstd::array::spec_array_fill_for_copy_type::<u8, COMM_LEN>(0),
        }
    }

    /// The all-zero record.
    pub fn zeroed() -> (r: Self)
        ensures
            r.is_zeroed(),
            r == Self::spec_zeroed(),
    {
        ProcessStats {
            pid: 0, ppid: 0, uid: 0, thread_count: 0, cpu_user_ns: 0, cpu_system_ns: 0,
            mem_rss_bytes: 0, mem_vms_bytes: 0, voluntary_ctx_sw: 0, involuntary_ctx_sw: 0,
            read_bytes: 0, write_bytes: 0, page_faults_minor: 0, page_faults_major: 0,
            start_time_ns: 0, open_fds: 0, _pad: 0, comm: [0u8; 16],
        }
    }
}

impl BlockStats {
    /// The all-zero record.
    pub open spec fn spec_zeroed() -> Self {
        BlockStats {
                device_major: 0, device_minor: 0, reads_completed: 0, writes_completed: 0,
                read_bytes: 0, write_bytes: 0, read_latency_ns: 0, write_latency_ns: 0,
                io_inflight: 0, io_ticks_ms: 0,
            }
    }

    /// The all-zero record.
    pub fn zeroed() -> (r: Self)
        ensures
            r == Self::spec_zeroed(),
    {
        BlockStats {
            device_major: 0, device_minor: 0, reads_completed: 0, writes_completed: 0,
            read_bytes: 0, write_bytes: 0, read_latency_ns: 0, write_latency_ns: 0,
            io_inflight: 0, io_ticks_ms: 0,
        }
    }
}

impl NetIfaceStats {
    /// The all-zero record.
    pub open spec fn spec_zeroed() -> Self {
        NetIfaceStats {
                iface_idx: 0, _pad: 0, rx_bytes: 0, tx_bytes: 0, rx_packets: 0, tx_packets: 0,
                rx_drops: 0, tx_drops: 0, rx_errors: 0, tx_errors: 0,
            }
    }

    /// The all-zero record.
    pub fn zeroed() -> (r: Self)
        ensures
            r == Self::spec_zeroed(),
    {
        NetIfaceStats {
            iface_idx: 0, _pad: 0, rx_bytes: 0, tx_bytes: 0, rx_packets: 0, tx_packets: 0,
            rx_drops: 0, tx_drops: 0, rx_errors: 0, tx_errors: 0,
        }
    }
}

impl TcpStateSnapshot {
    /// The all-zero record.
    pub open spec fn spec_zeroed() -> Self {
        TcpStateSnapshot {
                established: 0, syn_sent: 0, syn_recv: 0, fin_wait1: 0, fin_wait2: 0,
                time_wait: 0, close_wait: 0, listen: 0, listen_overflows: 0, retransmits: 0,
                resets_in: 0, resets_out: 0,
            }
    }

    /// The all-zero record.
    pub fn zeroed() -> (r: Self)
        ensures
            r == Self::spec_zeroed(),
    {
        TcpStateSnapshot {
            established: 0, syn_sent: 0, syn_recv: 0, fin_wait1: 0, fin_wait2: 0,
            time_wait: 0, close_wait: 0, listen: 0, listen_overflows: 0, retransmits: 0,
            resets_in: 0, resets_out: 0,
        }
    }
}

impl SchedHistogram {
    /// Whether every bucket and total is zero.
    pub open spec fn is_zeroed(self) -> bool {
        &&& forall|i: int| 0 <= i < SCHED_HIST_BUCKETS ==> self.buckets[i] == 0u64
        &&& self.total_count == 0 && self.total_latency_ns == 0 && self.max_latency_ns == 0
    }

    /// The all-zero histogram.
    pub fn zeroed() -> (r: Self)
        ensures
            r.is_zeroed(),
    {
        SchedHistogram { buckets: [0u64; 8], total_count: 0, total_latency_ns: 0, max_latency_ns: 0 }
    }
}

impl MemorySnapshot {
    /// The all-zero record.
    pub open spec fn spec_zeroed() -> Self {
        MemorySnapshot {
                total_bytes: 0, free_bytes: 0, cached_bytes: 0, buffered_bytes: 0, slab_bytes: 0,
                swap_used_bytes: 0, swap_free_bytes: 0, page_faults_minor: 0,
                page_faults_major: 0, psi_some_pct_x100: 0, psi_full_pct_x100: 0,
                oom_kills_total: 0,
            }
    }

    /// The all-zero record.
    pub fn zeroed() -> (r: Self)
        ensures
            r == Self::spec_zeroed(),
    {
        MemorySnapshot {
            total_bytes: 0, free_bytes: 0, cached_bytes: 0, buffered_bytes: 0, slab_bytes: 0,
            swap_used_bytes: 0, swap_free_bytes: 0, page_faults_minor: 0, page_faults_major: 0,
            psi_some_pct_x100: 0, psi_full_pct_x100: 0, oom_kills_total: 0,
        }
    }
}

impl CgroupNetBytes {
    /// The all-zero record.
    pub open spec fn spec_zeroed() -> Self {
        CgroupNetBytes {
                cgroup_id: 0, rx_bytes: 0, tx_bytes: 0, rx_packets: 0, tx_packets: 0,
                rx_internet_bytes: 0, tx_internet_bytes: 0,
            }
    }

    /// The all-zero record.
    pub fn zeroed() -> (r: Self)
        ensures
            r == Self::spec_zeroed(),
    {
        CgroupNetBytes {
            cgroup_id: 0, rx_bytes: 0, tx_bytes: 0, rx_packets: 0, tx_packets: 0,
            rx_internet_bytes: 0, tx_internet_bytes: 0,
        }
    }
}

impl EventDropCounts {
    /// The all-zero record.
    pub open spec fn spec_zeroed() -> Self {
        EventDropCounts { process: 0, security: 0, network: 0 }
    }

    /// The all-zero record.
    pub fn zeroed() -> (r: Self)
        ensures
            r == Self::spec_zeroed(),
    {
        EventDropCounts { process: 0, security: 0, network: 0 }
    }
}

impl SecurityEventCounts {
    /// The all-zero record.
    pub open spec fn spec_zeroed() -> Self {
        SecurityEventCounts {
                ptrace: 0, memfd_create: 0, prctl: 0, setuid: 0, exec_anomaly: 0,
                capability_use: 0,
            }
    }

    /// The all-zero record.
    pub fn zeroed() -> (r: Self)
        ensures
            r == Self::spec_zeroed(),
    {
        SecurityEventCounts {
            ptrace: 0, memfd_create: 0, prctl: 0, setuid: 0, exec_anomaly: 0, capability_use: 0,
        }
    }
}

} // verus!
