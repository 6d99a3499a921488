use agl_health::events::{NetEvent, ProcessEvent, SecurityEvent};
use agl_health::wire::{
    net_kind_name, process_kind_name, security_kind_name, security_signal, severity_name,
    trim_cstr, EventFilter, StreamQuery, WireEvent,
};

fn comm(name: &[u8]) -> [u8; 16] {
    let mut c = [0u8; 16];
    c[..name.len()].copy_from_slice(name);
    c
}

fn process_event() -> ProcessEvent {
    let mut filename = [0u8; 256];
    filename[..7].copy_from_slice(b"/bin/ls");
    ProcessEvent {
        kind: 0,
        pid: 42,
        ppid: 1,
        uid: 1000,
        exit_code: 0,
        _pad: 0,
        timestamp_ns: 5,
        comm: comm(b"ls"),
        filename,
    }
}

fn security_event() -> SecurityEvent {
    SecurityEvent {
        kind: 3,
        pid: 7,
        ppid: 1,
        uid: 0,
        severity: 2,
        _pad: [0; 7],
        arg: 1000,
        timestamp_ns: 9,
        comm: comm(b"su"),
        filename: [0; 256],
    }
}

fn net_event() -> NetEvent {
    NetEvent {
        kind: 0,
        family: 2,
        sport: 1,
        dport: 2,
        drop_reason: 5,
        old_state: 0,
        new_state: 0,
        _pad: [0; 2],
        saddr: [0; 16],
        daddr: [0; 16],
        timestamp_ns: 3,
    }
}

#[test]
fn kind_names() {
    assert_eq!(process_kind_name(0), "Exec");
    assert_eq!(process_kind_name(9), "Unknown");
    assert_eq!(net_kind_name(0), "SkbDrop");
    assert_eq!(security_kind_name(3), "Setuid");
    assert_eq!(severity_name(2), "critical");
    assert_eq!(severity_name(3), "unknown");
}

#[test]
fn cstrings_are_cut_at_nul_and_decoded_lossily() {
    assert_eq!(trim_cstr(b"bash\0\0garbage"), "bash");
    assert_eq!(trim_cstr(b"full-length-name"), "full-length-name");
    assert_eq!(trim_cstr(b""), "");
    assert_eq!(trim_cstr(b"a\xffb\0"), "a\u{FFFD}b");
    assert_eq!(trim_cstr(b"\0abc"), "");
    assert!(!trim_cstr(b"\xff\xfe\x01").contains('\0'));
}

#[test]
fn wire_events_from_kernel_records() {
    let p = WireEvent::from_process(&process_event());
    assert_eq!(p.subsystem(), "process");
    assert_eq!(p.pid(), Some(42));
    match &p {
        WireEvent::Process { kind, comm, filename, .. } => {
            assert_eq!(*kind, "Exec");
            assert_eq!(comm, "ls");
            assert_eq!(filename, "/bin/ls");
        }
        _ => panic!("expected a process event"),
    }
    let n = WireEvent::from_net(&net_event());
    assert_eq!(n.subsystem(), "network");
    assert_eq!(n.pid(), None);
    let s = WireEvent::from_security(&security_event());
    assert_eq!(s.subsystem(), "security");
    let sig = security_signal(&s).unwrap();
    assert_eq!((sig.pid, sig.kind, sig.severity, sig.uid, sig.arg), (7, "Setuid", "critical", 0, 1000));
    assert_eq!(sig.comm, "su");
    assert!(security_signal(&p).is_none());
}

#[test]
fn stream_filter() {
    let p = WireEvent::from_process(&process_event());
    let n = WireEvent::from_net(&net_event());
    let s = WireEvent::from_security(&security_event());
    let all = EventFilter::from(StreamQuery { subsystem: None, pid: None });
    assert!(all.matches(&p) && all.matches(&n) && all.matches(&s));
    let some = EventFilter::from(StreamQuery { subsystem: Some(" security , ,process".to_string()), pid: None });
    assert!(some.matches(&p) && some.matches(&s) && !some.matches(&n));
    let by_pid = EventFilter::from(StreamQuery { subsystem: None, pid: Some(42) });
    assert!(by_pid.matches(&p) && !by_pid.matches(&s) && !by_pid.matches(&n));
    let none = EventFilter::from(StreamQuery { subsystem: Some("".to_string()), pid: None });
    assert!(!none.matches(&p));
}
