//! Verified core of the AGL system-health observability stack: the shared
//! kernel/userspace record types, the fixed shared-memory snapshot layout,
//! the `/proc` text parsers, metric aggregation, the rolling bandwidth
//! window, the wire-event model and the per-event decisions of the kernel
//! probes.

use vstd::prelude::*;

pub mod events;
pub mod metrics;
pub mod sort;
pub mod bandwidth;
pub mod aggregate;
pub mod text;
pub mod procfs;
pub mod wire;
pub mod snapshot;
pub mod layout;
pub mod le_bytes;
pub mod segment;
pub mod time_base;
pub mod bpf_map;
pub mod probes;
pub mod netprobes;
pub mod loader;
pub mod build_plan;
pub mod cgroups;

verus! {

/// Fixed length of a task `comm` field (TASK_COMM_LEN in the kernel).
pub const COMM_LEN: usize = 16;

/// Fixed length of the filename field used in process/file events.
pub const FILENAME_LEN: usize = 256;

/// Number of buckets in the scheduler latency histogram.
/// Buckets are log-spaced: <10us, <100us, <1ms, <10ms, <100ms, <1s, <10s, >=10s.
pub const SCHED_HIST_BUCKETS: usize = 8;

/// Capacity of the per-core rows in the shared-memory snapshot.
pub const V3_MAX_CPU_CORES: usize = 16;

/// Capacity of the per-process rows in the shared-memory snapshot.
pub const V3_MAX_PROCESSES: usize = 512;

/// Capacity of the block-device rows in the shared-memory snapshot.
pub const V3_MAX_BLOCK_DEVS: usize = 16;

/// Capacity of the network-interface rows in the shared-memory snapshot.
pub const V3_MAX_NET_IFACES: usize = 8;

} // verus!
