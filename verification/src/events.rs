//! Event records streamed from the kernel probes to the daemon through
//! ring buffers. Every record holds only fixed-size integer fields and
//! byte arrays, so it crosses the kernel/userspace boundary unchanged.

use vstd::prelude::*;

use crate::{COMM_LEN, FILENAME_LEN};

verus! {

/// Process lifecycle event kind.
#[derive(Copy, Clone, Debug, PartialEq, Eq, Structural)]
pub enum ProcessEventKind {
    Exec,
    Exit,
    Fork,
}

impl ProcessEventKind {
    /// The numeric code stored in `ProcessEvent::kind`.
    pub open spec fn spec_code(self) -> u32 {
        match self {
            ProcessEventKind::Exec => 0,
            ProcessEventKind::Exit => 1,
            ProcessEventKind::Fork => 2,
        }
    }

    /// The numeric code stored in `ProcessEvent::kind`.
    pub fn code(self) -> (c: u32)
        ensures
            c == self.spec_code(),
    {
        match self {
            ProcessEventKind::Exec => 0,
            ProcessEventKind::Exit => 1,
            ProcessEventKind::Fork => 2,
        }
    }
}

/// `sched:sched_process_{exec,exit,fork}` event.
#[derive(Copy, Clone, Debug)]
pub struct ProcessEvent {
    pub kind: u32,
    pub pid: u32,
    pub ppid: u32,
    pub uid: u32,
    pub exit_code: i32,
    /// Alignment padding of the C layout.
    pub _pad: u32,
    pub timestamp_ns: u64,
    pub comm: [u8; COMM_LEN],
    pub filename: [u8; FILENAME_LEN],
}

/// Network event kind.
#[derive(Copy, Clone, Debug, PartialEq, Eq, Structural)]
pub enum NetEventKind {
    SkbDrop,
    TcpRetransmit,
    TcpReset,
    TcpStateChange,
}

impl NetEventKind {
    /// The numeric code stored in `NetEvent::kind`.
    pub open spec fn spec_code(self) -> u32 {
        match self {
            NetEventKind::SkbDrop => 0,
            NetEventKind::TcpRetransmit => 1,
            NetEventKind::TcpReset => 2,
            NetEventKind::TcpStateChange => 3,
        }
    }

    /// The numeric code stored in `NetEvent::kind`.
    pub fn code(self) -> (c: u32)
        ensures
            c == self.spec_code(),
    {
        match self {
            NetEventKind::SkbDrop => 0,
            NetEventKind::TcpRetransmit => 1,
            NetEventKind::TcpReset => 2,
            NetEventKind::TcpStateChange => 3,
        }
    }
}

/// Network event from `skb:kfree_skb`, `tcp:tcp_retransmit_skb`,
/// `sock:inet_sock_set_state` and similar. Addresses are 16-byte fields
/// holding IPv4 (low 4 bytes) or IPv6.
#[derive(Copy, Clone, Debug)]
pub struct NetEvent {
    pub kind: u32,
    pub family: u16,
    pub sport: u16,
    pub dport: u16,
    pub drop_reason: u16,
    pub old_state: u8,
    pub new_state: u8,
    /// Alignment padding of the C layout.
    pub _pad: [u8; 2],
    pub saddr: [u8; 16],
    pub daddr: [u8; 16],
    pub timestamp_ns: u64,
}

/// Scheduler event kind.
#[derive(Copy, Clone, Debug, PartialEq, Eq, Structural)]
pub enum SchedEventKind {
    Wakeup,
    Switch,
    Migrate,
    ThrottleWait,
}

/// Low-frequency scheduler events.
#[derive(Copy, Clone, Debug)]
pub struct SchedEvent {
    pub kind: u32,
    pub pid: u32,
    pub prio: i32,
    pub cpu: u32,
    pub timestamp_ns: u64,
    pub comm: [u8; COMM_LEN],
}

/// File I/O event kind.
#[derive(Copy, Clone, Debug, PartialEq, Eq, Structural)]
pub enum FileEventKind {
    Open,
    Read,
    Write,
    Fsync,
    Unlink,
    Rename,
}

/// File I/O event.
#[derive(Copy, Clone, Debug)]
pub struct FileEvent {
    pub kind: u32,
    pub pid: u32,
    pub bytes: i64,
    pub timestamp_ns: u64,
    pub comm: [u8; COMM_LEN],
    pub filename: [u8; FILENAME_LEN],
}

/// Security event kind.
#[derive(Copy, Clone, Debug, PartialEq, Eq, Structural)]
pub enum SecurityEventKind {
    Ptrace,
    MemfdCreate,
    Prctl,
    Setuid,
    ExecAnomaly,
    CapabilityUse,
}

impl SecurityEventKind {
    /// The numeric code stored in `SecurityEvent::kind`.
    pub open spec fn spec_code(self) -> u32 {
        match self {
            SecurityEventKind::Ptrace => 0,
            SecurityEventKind::MemfdCreate => 1,
            SecurityEventKind::Prctl => 2,
            SecurityEventKind::Setuid => 3,
            SecurityEventKind::ExecAnomaly => 4,
            SecurityEventKind::CapabilityUse => 5,
        }
    }

    /// The numeric code stored in `SecurityEvent::kind`.
    pub fn code(self) -> (c: u32)
        ensures
            c == self.spec_code(),
    {
        match self {
            SecurityEventKind::Ptrace => 0,
            SecurityEventKind::MemfdCreate => 1,
            SecurityEventKind::Prctl => 2,
            SecurityEventKind::Setuid => 3,
            SecurityEventKind::ExecAnomaly => 4,
            SecurityEventKind::CapabilityUse => 5,
        }
    }
}

/// Severity attached to a security event.
#[derive(Copy, Clone, Debug, PartialEq, Eq, Structural)]
pub enum SecuritySeverity {
    Info,
    Warn,
    Critical,
}

impl SecuritySeverity {
    /// The numeric code stored in `SecurityEvent::severity`.
    pub open spec fn spec_code(self) -> u8 {
        match self {
            SecuritySeverity::Info => 0,
            SecuritySeverity::Warn => 1,
            SecuritySeverity::Critical => 2,
        }
    }

    /// The numeric code stored in `SecurityEvent::severity`.
    pub fn code(self) -> (c: u8)
        ensures
            c == self.spec_code(),
    {
        match self {
            SecuritySeverity::Info => 0,
            SecuritySeverity::Warn => 1,
            SecuritySeverity::Critical => 2,
        }
    }
}

/// A security-relevant syscall observed by the kernel probes.
#[derive(Copy, Clone, Debug)]
pub struct SecurityEvent {
    pub kind: u32,
    pub pid: u32,
    pub ppid: u32,
    pub uid: u32,
    pub severity: u8,
    /// Alignment padding of the C layout.
    pub _pad: [u8; 7],
    pub arg: u64,
    pub timestamp_ns: u64,
    pub comm: [u8; COMM_LEN],
    pub filename: [u8; FILENAME_LEN],
}

} // verus!
