use agl_health::build_plan::{
    cargo_env_overrides, daemon_binary_components, daemon_build_args, ebpf_build_args,
    vmlinux_types, BuildOpts, Profile,
};
use agl_health::cgroups::{cgroup_display_name, descend_allowed, MAX_DEPTH};
use agl_health::loader::{attach_plan, drainer_for, ring_buffers, AttachStep, LoadSummary, RingDrainer};

#[test]
fn attach_plan_order_and_btf_gate() {
    let with_btf = attach_plan(true);
    let without = attach_plan(false);
    assert_eq!(with_btf.len(), 11 + 8 + 5 + 2);
    assert_eq!(without.len(), 11 + 5 + 2);
    assert_eq!(with_btf[0].program(), "netif_receive_skb");
    assert_eq!(with_btf[11].program(), "sched_process_exec");
    assert_eq!(without[11].program(), "handle_mm_fault");
    assert!(matches!(
        without[10],
        AttachStep::TracePoint { program: "sys_enter_prctl", category: "syscalls", event: "sys_enter_prctl" }
    ));
    assert!(matches!(
        without[without.len() - 1],
        AttachStep::CgroupSkb { program: "cgroup_skb_egress", direction: "egress" }
    ));
    assert!(without.iter().all(|s| !matches!(s, AttachStep::BtfTracePoint { .. })));
}

#[test]
fn load_summary_records_what_attached() {
    let mut s = LoadSummary::default();
    let plan = attach_plan(false);
    s.record_attach(plan[0], true);
    s.record_attach(plan[1], false);
    s.record_attach(plan[2], true);
    for name in ring_buffers() {
        s.record_ring(name);
    }
    s.record_polled_maps();
    assert_eq!(s.programs, vec!["netif_receive_skb", "tcp_retransmit_skb"]);
    assert_eq!(s.maps.len(), 3 + 10);
    assert_eq!(s.maps[3], "SCHED_HISTOGRAM");
    assert_eq!(s.maps[12], "EVENT_DROPS");
}

#[test]
fn ring_buffer_drainers() {
    assert_eq!(drainer_for("PROCESS_EVENTS"), Some(RingDrainer::Process));
    assert_eq!(drainer_for("NET_EVENTS"), Some(RingDrainer::Network));
    assert_eq!(drainer_for("SECURITY_EVENTS"), Some(RingDrainer::Security));
    assert_eq!(drainer_for("OTHER_EVENTS"), None);
    assert_eq!(drainer_for("NET_EVENT"), None);
}

#[test]
fn build_commands() {
    let debug = BuildOpts { profile: Profile::Debug, target: None, kernel_5_4: false };
    assert_eq!(Profile::Debug.as_str(), "debug");
    assert_eq!(Profile::Release.cargo_flag(), Some("--release"));
    assert_eq!(Profile::Debug.cargo_flag(), None);
    assert_eq!(
        ebpf_build_args(&debug),
        vec!["build", "-Z", "build-std=core", "--target", "bpfel-unknown-none", "--release"]
    );
    assert_eq!(daemon_build_args(&debug), vec!["build", "-p", "agl-health-daemon", "--features", "ebpf"]);
    let cross = BuildOpts {
        profile: Profile::Release,
        target: Some("aarch64-unknown-linux-gnu".to_string()),
        kernel_5_4: true,
    };
    assert_eq!(
        ebpf_build_args(&cross),
        vec!["build", "-Z", "build-std=core", "--target", "bpfel-unknown-none", "--release", "--features", "kernel-5-4"]
    );
    assert_eq!(
        daemon_build_args(&cross),
        vec![
            "build",
            "-p",
            "agl-health-daemon",
            "--release",
            "--target",
            "aarch64-unknown-linux-gnu",
            "--features",
            "ebpf,kernel-5-4"
        ]
    );
    assert_eq!(
        daemon_binary_components(&cross),
        vec!["target", "aarch64-unknown-linux-gnu", "release", "agl-health-daemon"]
    );
    assert_eq!(daemon_binary_components(&debug), vec!["target", "debug", "agl-health-daemon"]);
    assert_eq!(cargo_env_overrides().len(), 9);
    assert_eq!(vmlinux_types(), vec!["task_struct", "sock", "sock_common", "inet_sock"]);
}

#[test]
fn cgroup_names() {
    assert_eq!(cgroup_display_name(""), "(root)");
    assert_eq!(cgroup_display_name("system.slice/dbus.service"), "system.slice/dbus.service");
    assert!(descend_allowed(0));
    assert!(descend_allowed(MAX_DEPTH));
    assert!(!descend_allowed(MAX_DEPTH + 1));
}
