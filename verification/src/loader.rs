//! What the daemon loads from the kernel-probe object and in which order,
//! and the record of what was attached.
//!
//! Programs are attached group by group: plain tracepoints, BTF
//! tracepoints (only when the kernel exposes BTF), kprobes, then the
//! cgroup socket-buffer programs. A program that fails to load or attach
//! is skipped; the rest still load. Ring buffers are then handed to their
//! drain tasks, and the polled maps to the aggregator.

use vstd::prelude::*;

verus! {

/// Bytes with the alignment the object loader needs.
#[derive(Copy, Clone, Debug)]
pub struct Aligned<Bytes>(pub Bytes);

/// One attach step of the load sequence.
#[derive(Copy, Clone, Debug)]
pub enum AttachStep {
    /// A tracepoint program attached to `category:event`.
    TracePoint { program: &'static str, category: &'static str, event: &'static str },
    /// A BTF-typed tracepoint program (needs kernel BTF).
    BtfTracePoint { program: &'static str },
    /// A kprobe on kernel function `symbol`.
    KProbe { program: &'static str, symbol: &'static str },
    /// A cgroup socket-buffer program on the root cgroup, for `ingress`
    /// or `egress` traffic.
    CgroupSkb { program: &'static str, direction: &'static str },
}

impl AttachStep {
    /// Name of the program the step attaches.
    pub open spec fn spec_program(self) -> &'static str {
        match self {
            AttachStep::TracePoint { program, .. } => program,
            AttachStep::BtfTracePoint { program } => program,
            AttachStep::KProbe { program, .. } => program,
            AttachStep::CgroupSkb { program, .. } => program,
        }
    }

    /// Name of the program the step attaches.
    pub fn program(&self) -> (p: &'static str)
        ensures
            p == self.spec_program(),
    {
        match self {
            AttachStep::TracePoint { program, .. } => program,
            AttachStep::BtfTracePoint { program } => program,
            AttachStep::KProbe { program, .. } => program,
            AttachStep::CgroupSkb { program, .. } => program,
        }
    }
}

/// Plain tracepoints: network counters, interrupt timing and the
/// per-syscall security hooks.
pub open spec fn tracepoint_steps() -> Seq<AttachStep> {
    seq![
        AttachStep::TracePoint { program: "netif_receive_skb", category: "net", event: "netif_receive_skb" },
        AttachStep::TracePoint { program: "net_dev_xmit", category: "net", event: "net_dev_xmit" },
        AttachStep::TracePoint { program: "tcp_retransmit_skb", category: "tcp", event: "tcp_retransmit_skb" },
        AttachStep::TracePoint { program: "irq_handler_entry", category: "irq", event: "irq_handler_entry" },
        AttachStep::TracePoint { program: "irq_handler_exit", category: "irq", event: "irq_handler_exit" },
        AttachStep::TracePoint { program: "softirq_entry", category: "irq", event: "softirq_entry" },
        AttachStep::TracePoint { program: "softirq_exit", category: "irq", event: "softirq_exit" },
        AttachStep::TracePoint { program: "sys_enter_ptrace", category: "syscalls", event: "sys_enter_ptrace" },
        AttachStep::TracePoint { program: "sys_enter_memfd_create", category: "syscalls", event: "sys_enter_memfd_create" },
        AttachStep::TracePoint { program: "sys_enter_setuid", category: "syscalls", event: "sys_enter_setuid" },
        AttachStep::TracePoint { program: "sys_enter_prctl", category: "syscalls", event: "sys_enter_prctl" },
    ]
}

/// BTF tracepoints: process lifecycle, scheduler, TCP state, packet drops
/// and block completions.
pub open spec fn btf_steps() -> Seq<AttachStep> {
    seq![
        AttachStep::BtfTracePoint { program: "sched_process_exec" },
        AttachStep::BtfTracePoint { program: "sched_process_exit" },
        AttachStep::BtfTracePoint { program: "sched_process_fork" },
        AttachStep::BtfTracePoint { program: "sched_wakeup" },
        AttachStep::BtfTracePoint { program: "sched_switch" },
        AttachStep::BtfTracePoint { program: "inet_sock_set_state" },
        AttachStep::BtfTracePoint { program: "kfree_skb" },
        AttachStep::BtfTracePoint { program: "block_rq_complete" },
    ]
}

/// Kprobes: page faults, OOM kills, exit codes and file I/O.
pub open spec fn kprobe_steps() -> Seq<AttachStep> {
    seq![
        AttachStep::KProbe { program: "handle_mm_fault", symbol: "handle_mm_fault" },
        AttachStep::KProbe { program: "oom_kill_process", symbol: "oom_kill_process" },
        AttachStep::KProbe { program: "do_exit", symbol: "do_exit" },
        AttachStep::KProbe { program: "vfs_read", symbol: "vfs_read" },
        AttachStep::KProbe { program: "vfs_write", symbol: "vfs_write" },
    ]
}

/// Cgroup socket-buffer programs for per-cgroup traffic.
pub open spec fn cgroup_skb_steps() -> Seq<AttachStep> {
    seq![
        AttachStep::CgroupSkb { program: "cgroup_skb_ingress", direction: "ingress" },
        AttachStep::CgroupSkb { program: "cgroup_skb_egress", direction: "egress" },
    ]
}

/// The whole attach sequence; the BTF group only when kernel BTF is
/// available.
pub open spec fn spec_attach_plan(btf_available: bool) -> Seq<AttachStep> {
    tracepoint_steps() + (if btf_available {
        btf_steps()
    } else {
        Seq::empty()
    }) + kprobe_steps() + cgroup_skb_steps()
}

fn push_all(out: &mut Vec<AttachStep>, steps: Vec<AttachStep>)
    ensures
        final(out)@ == old(out)@ + steps@,
{
    let mut steps = steps;
    out.append(&mut steps);
}

/// The attach sequence for a kernel with or without BTF.
pub fn attach_plan(btf_available: bool) -> (plan: Vec<AttachStep>)
    ensures
        plan@ == spec_attach_plan(btf_available),
{
    let mut plan: Vec<AttachStep> = vec![
        AttachStep::TracePoint { program: "netif_receive_skb", category: "net", event: "netif_receive_skb" },
        AttachStep::TracePoint { program: "net_dev_xmit", category: "net", event: "net_dev_xmit" },
        AttachStep::TracePoint { program: "tcp_retransmit_skb", category: "tcp", event: "tcp_retransmit_skb" },
        AttachStep::TracePoint { program: "irq_handler_entry", category: "irq", event: "irq_handler_entry" },
        AttachStep::TracePoint { program: "irq_handler_exit", category: "irq", event: "irq_handler_exit" },
        AttachStep::TracePoint { program: "softirq_entry", category: "irq", event: "softirq_entry" },
        AttachStep::TracePoint { program: "softirq_exit", category: "irq", event: "softirq_exit" },
        AttachStep::TracePoint { program: "sys_enter_ptrace", category: "syscalls", event: "sys_enter_ptrace" },
        AttachStep::TracePoint { program: "sys_enter_memfd_create", category: "syscalls", event: "sys_enter_memfd_create" },
        AttachStep::TracePoint { program: "sys_enter_setuid", category: "syscalls", event: "sys_enter_setuid" },
        AttachStep::TracePoint { program: "sys_enter_prctl", category: "syscalls", event: "sys_enter_prctl" },
    ];
    assert(plan@ == tracepoint_steps());
    if btf_available {
        push_all(
            &mut plan,
            vec![
                AttachStep::BtfTracePoint { program: "sched_process_exec" },
                AttachStep::BtfTracePoint { program: "sched_process_exit" },
                AttachStep::BtfTracePoint { program: "sched_process_fork" },
                AttachStep::BtfTracePoint { program: "sched_wakeup" },
                AttachStep::BtfTracePoint { program: "sched_switch" },
                AttachStep::BtfTracePoint { program: "inet_sock_set_state" },
                AttachStep::BtfTracePoint { program: "kfree_skb" },
                AttachStep::BtfTracePoint { program: "block_rq_complete" },
            ],
        );
    } else {
        assert(plan@ == tracepoint_steps() + Seq::<AttachStep>::empty());
    }
    push_all(
        &mut plan,
        vec![
            AttachStep::KProbe { program: "handle_mm_fault", symbol: "handle_mm_fault" },
            AttachStep::KProbe { program: "oom_kill_process", symbol: "oom_kill_process" },
            AttachStep::KProbe { program: "do_exit", symbol: "do_exit" },
            AttachStep::KProbe { program: "vfs_read", symbol: "vfs_read" },
            AttachStep::KProbe { program: "vfs_write", symbol: "vfs_write" },
        ],
    );
    push_all(
        &mut plan,
        vec![
            AttachStep::CgroupSkb { program: "cgroup_skb_ingress", direction: "ingress" },
            AttachStep::CgroupSkb { program: "cgroup_skb_egress", direction: "egress" },
        ],
    );
    plan
}

/// The event ring buffers, each drained by its own task.
pub open spec fn spec_ring_buffers() -> Seq<&'static str> {
    seq!["PROCESS_EVENTS", "NET_EVENTS", "SECURITY_EVENTS"]
}

/// Names of the event ring buffers.
pub fn ring_buffers() -> (r: Vec<&'static str>)
    ensures
        r@ == spec_ring_buffers(),
{
    vec!["PROCESS_EVENTS", "NET_EVENTS", "SECURITY_EVENTS"]
}

/// The maps the aggregator polls once per second.
pub open spec fn spec_polled_maps() -> Seq<&'static str> {
    seq![
        "SCHED_HISTOGRAM",
        "NET_IFACE_STATS",
        "TCP_STATE",
        "MEMORY_STATS",
        "BLOCK_STATS",
        "PROCESS_STATS",
        "CPU_STATS",
        "SECURITY_COUNTS",
        "NET_CGROUP_STATS",
        "EVENT_DROPS",
    ]
}

/// The task that drains a ring buffer.
#[derive(Copy, Clone, Debug, PartialEq, Eq, Structural)]
pub enum RingDrainer {
    Process,
    Network,
    Security,
}

/// The drain task for a ring buffer, by map name; `None` for a map no
/// drain task is registered for.
pub fn drainer_for(name: &str) -> (d: Option<RingDrainer>)
    ensures
        d == (if name@ == "PROCESS_EVENTS"@ {
            Some(RingDrainer::Process)
        } else if name@ == "NET_EVENTS"@ {
            Some(RingDrainer::Network)
        } else if name@ == "SECURITY_EVENTS"@ {
            Some(RingDrainer::Security)
        } else {
            None
        }),
{
    if str_eq(name, "PROCESS_EVENTS") {
        Some(RingDrainer::Process)
    } else if str_eq(name, "NET_EVENTS") {
        Some(RingDrainer::Network)
    } else if str_eq(name, "SECURITY_EVENTS") {
        Some(RingDrainer::Security)
    } else {
        None
    }
}

/// Character-wise equality of two strings.
fn str_eq(a: &str, b: &str) -> (r: bool)
    ensures
        r == (a@ == b@),
{
    let av = crate::text::str_chars(a);
    let bv = crate::text::str_chars(b);
    if av.len() != bv.len() {
        assert(a@.len() != b@.len());
        return false;
    }
    let mut i: usize = 0;
    while i < av.len()
        invariant
            i <= av@.len(),
            av@ == a@,
            bv@ == b@,
            av@.len() == bv@.len(),
            forall|k: int| 0 <= k < i ==> a@[k] == b@[k],
        decreases av@.len() - i,
    {
        if av[i] != bv[i] {
            return false;
        }
        i = i + 1;
    }
    assert(a@ =~= b@);
    true
}

/// What the loader managed to attach and open, reported by the health
/// endpoint.
#[derive(Clone, Debug)]
pub struct LoadSummary {
    pub programs: Vec<&'static str>,
    pub maps: Vec<&'static str>,
}

impl Default for LoadSummary {
    fn default() -> (s: Self)
        ensures
            s.programs@ == Seq::<&'static str>::empty(),
            s.maps@ == Seq::<&'static str>::empty(),
    {
        LoadSummary { programs: Vec::new(), maps: Vec::new() }
    }
}

impl LoadSummary {
    /// Record the outcome of an attach step: the program is listed only
    /// when it loaded and attached.
    pub fn record_attach(&mut self, step: AttachStep, attached: bool)
        ensures
            final(self).programs@ == if attached {
                old(self).programs@.push(step.spec_program())
            } else {
                old(self).programs@
            },
            final(self).maps@ == old(self).maps@,
    {
        if attached {
            self.programs.push(step.program());
        }
    }

    /// Record a ring buffer handed to its drain task.
    pub fn record_ring(&mut self, name: &'static str)
        ensures
            final(self).maps@ == old(self).maps@.push(name),
            final(self).programs@ == old(self).programs@,
    {
        self.maps.push(name);
    }

    /// Record the polled maps handed to the aggregator.
    pub fn record_polled_maps(&mut self)
        ensures
            final(self).maps@ == old(self).maps@ + spec_polled_maps(),
            final(self).programs@ == old(self).programs@,
    {
        let mut polled: Vec<&'static str> = vec![
            "SCHED_HISTOGRAM",
            "NET_IFACE_STATS",
            "TCP_STATE",
            "MEMORY_STATS",
            "BLOCK_STATS",
            "PROCESS_STATS",
            "CPU_STATS",
            "SECURITY_COUNTS",
            "NET_CGROUP_STATS",
            "EVENT_DROPS",
        ];
        self.maps.append(&mut polled);
    }
}

} // verus!
