use agl_health::bpf_map::BpfHashMap;
use agl_health::events::{NetEventKind, SecurityEventKind, SecuritySeverity};
use agl_health::metrics::{BlockStats, CgroupNetBytes, NetIfaceStats, SecurityEventCounts, TcpStateSnapshot};
use agl_health::netprobes::{
    account_cgroup, block_rq_complete, block_rq_complete_raw, build_security_event,
    classify_internet, classify_sock_internet, dev_key, is_ipv4_local, is_ipv6_local, kfree_skb,
    net_dev_xmit, netif_receive_skb, on_security_syscall, rate_limited, raw_syscall, request_op,
    tcp_cleanup_rbuf, tcp_retransmit_skb, tcp_sendmsg, update_tcp_state, Direction, EmitGate,
    WatchedSyscall, BLOCK_MAP_ENTRIES, NET_CGROUP_MAP_ENTRIES,
};

#[test]
fn interface_and_tcp_counters() {
    let mut s = NetIfaceStats::default();
    netif_receive_skb(&mut s, 1500);
    net_dev_xmit(&mut s, 100, 0);
    net_dev_xmit(&mut s, 100, -5);
    assert_eq!((s.rx_bytes, s.rx_packets), (1500, 1));
    assert_eq!((s.tx_bytes, s.tx_packets, s.tx_errors), (100, 1, 1));

    let mut t = TcpStateSnapshot::default();
    for st in [1, 2, 3, 4, 5, 6, 7, 8, 9, 10, 11, -1] {
        update_tcp_state(&mut t, st);
    }
    tcp_retransmit_skb(&mut t);
    assert_eq!(
        (t.established, t.syn_sent, t.syn_recv, t.fin_wait1, t.fin_wait2, t.time_wait),
        (1, 1, 1, 1, 1, 1)
    );
    assert_eq!((t.close_wait, t.listen, t.retransmits, t.listen_overflows), (1, 1, 1, 0));
}

#[test]
fn skb_drops_report_real_drops_only() {
    assert!(kfree_skb(0, 1).is_none());
    assert!(kfree_skb(1, 1).is_none());
    let ev = kfree_skb(0x1_0005, 77).unwrap();
    assert_eq!(ev.kind, NetEventKind::SkbDrop.code());
    assert_eq!(ev.drop_reason, 5);
    assert_eq!(ev.timestamp_ns, 77);
    assert_eq!(ev.saddr, [0; 16]);
}

#[test]
fn ipv4_local_ranges() {
    for ip in [[10, 1, 2, 3], [172, 16, 0, 1], [172, 31, 255, 255], [192, 168, 1, 1], [127, 0, 0, 1], [169, 254, 9, 9], [0, 0, 0, 0], [255, 255, 255, 255]] {
        assert!(is_ipv4_local(ip), "{ip:?}");
    }
    for ip in [[8, 8, 8, 8], [172, 32, 0, 1], [172, 15, 0, 1], [192, 169, 0, 1], [1, 1, 1, 1]] {
        assert!(!is_ipv4_local(ip), "{ip:?}");
    }
}

#[test]
fn ipv6_local_ranges() {
    let mut loopback = [0u8; 16];
    loopback[15] = 1;
    assert!(is_ipv6_local(loopback));
    assert!(is_ipv6_local([0u8; 16]));
    let mut ll = [0u8; 16];
    ll[0] = 0xfe;
    ll[1] = 0x80;
    assert!(is_ipv6_local(ll));
    let mut ula = [0u8; 16];
    ula[0] = 0xfd;
    assert!(is_ipv6_local(ula));
    let mut public = [0u8; 16];
    public[0] = 0x20;
    public[1] = 0x01;
    assert!(!is_ipv6_local(public));
    let mut not_ll = [0u8; 16];
    not_ll[0] = 0xfe;
    not_ll[1] = 0xc0;
    assert!(!is_ipv6_local(not_ll));
}

#[test]
fn packet_classification() {
    let mut v4 = [0u8; 20];
    v4[0] = 0x45;
    v4[12..16].copy_from_slice(&[8, 8, 8, 8]); // source
    v4[16..20].copy_from_slice(&[192, 168, 0, 2]); // destination
    assert!(classify_internet(Direction::Rx, &v4));
    assert!(!classify_internet(Direction::Tx, &v4));
    assert!(!classify_internet(Direction::Tx, &v4[..19]));
    let mut v6 = [0u8; 40];
    v6[0] = 0x60;
    v6[8] = 0x20; // public source
    v6[24] = 0xfd; // unique-local destination
    assert!(classify_internet(Direction::Rx, &v6));
    assert!(!classify_internet(Direction::Tx, &v6));
    assert!(!classify_internet(Direction::Rx, &[]));
    assert!(!classify_internet(Direction::Rx, &[0x10; 40]));
    assert!(classify_sock_internet(2, [1, 1, 1, 1]));
    assert!(!classify_sock_internet(2, [10, 0, 0, 1]));
    assert!(!classify_sock_internet(10, [1, 1, 1, 1]));
}

#[test]
fn cgroup_traffic_accounting() {
    let mut t: BpfHashMap<u64, CgroupNetBytes> = BpfHashMap::with_max_entries(NET_CGROUP_MAP_ENTRIES);
    account_cgroup(&mut t, 0, Direction::Rx, 100, true);
    assert_eq!(t.len(), 0);
    account_cgroup(&mut t, 7, Direction::Rx, 100, true);
    account_cgroup(&mut t, 7, Direction::Tx, 50, false);
    account_cgroup(&mut t, 7, Direction::Rx, 10, false);
    let c = t.get(7).unwrap();
    assert_eq!(c.cgroup_id, 7);
    assert_eq!((c.rx_bytes, c.rx_packets, c.rx_internet_bytes), (110, 2, 100));
    assert_eq!((c.tx_bytes, c.tx_packets, c.tx_internet_bytes), (50, 1, 0));

    let pid_tgid = (1234u64 << 32) | 1240;
    tcp_sendmsg(&mut t, pid_tgid, 0, true);
    assert_eq!(t.get(1234).map(|c| c.tx_bytes), None);
    tcp_sendmsg(&mut t, pid_tgid, 300, true);
    tcp_cleanup_rbuf(&mut t, pid_tgid, -1, true);
    tcp_cleanup_rbuf(&mut t, pid_tgid, 20, false);
    tcp_sendmsg(&mut t, 55, 300, true); // pid 0: skipped
    let p = t.get(1234).unwrap();
    assert_eq!((p.tx_bytes, p.tx_internet_bytes, p.rx_bytes, p.rx_internet_bytes), (300, 300, 20, 0));
    assert_eq!(t.get(0).map(|c| c.tx_bytes), None);
}

#[test]
fn block_request_accounting() {
    assert_eq!(request_op(0), Some(true));
    assert_eq!(request_op(0x801), Some(false));
    assert_eq!(request_op(3), None);
    assert_eq!(dev_key(8, 1), (8u64 << 32) | 1);
    assert_eq!(dev_key(-1, -1), u64::MAX);

    let mut t: BpfHashMap<u64, BlockStats> = BpfHashMap::with_max_entries(BLOCK_MAP_ENTRIES);
    block_rq_complete(&mut t, 0, 8, 0, 4096);
    block_rq_complete(&mut t, 1, 8, 0, 512);
    block_rq_complete(&mut t, 2, 8, 0, 512);
    let s = t.get(8u64 << 32).unwrap();
    assert_eq!((s.device_major, s.device_minor), (8, 0));
    assert_eq!((s.reads_completed, s.read_bytes, s.writes_completed, s.write_bytes), (1, 4096, 1, 512));

    // Raw record: dev = 179 << 20 | 2, 8 sectors written.
    block_rq_complete_raw(&mut t, (179 << 20) | 2, 8, b'W');
    block_rq_complete_raw(&mut t, (179 << 20) | 2, 8, b'D');
    block_rq_complete_raw(&mut t, (179 << 20) | 2, u32::MAX, b'R');
    let r = t.get((179u64 << 32) | 2).unwrap();
    assert_eq!((r.device_major, r.device_minor), (179, 2));
    assert_eq!((r.writes_completed, r.write_bytes), (1, 4096));
    assert_eq!((r.reads_completed, r.read_bytes), (1, u32::MAX as u64));
}

#[test]
fn security_counts_every_call_and_rate_limits_reports() {
    let mut counts = SecurityEventCounts::default();
    let mut gate = EmitGate::new();
    let t0 = 1_000_000_000;
    let first = on_security_syscall(&mut counts, &mut gate, WatchedSyscall::Ptrace, 16, 0, t0);
    assert_eq!(first.map(|n| (n.kind, n.severity, n.arg)), Some((SecurityEventKind::Ptrace, SecuritySeverity::Warn, 16)));
    // Within 50 ms: counted, not reported.
    assert!(on_security_syscall(&mut counts, &mut gate, WatchedSyscall::Ptrace, 16, 0, t0 + 49_999_999).is_none());
    // A different kind has its own slot.
    assert!(on_security_syscall(&mut counts, &mut gate, WatchedSyscall::Setuid, 0, 0, t0 + 1).is_some());
    // After the interval the next report goes through.
    assert!(on_security_syscall(&mut counts, &mut gate, WatchedSyscall::Ptrace, 16, 0, t0 + 50_000_000).is_some());
    assert_eq!((counts.ptrace, counts.setuid), (3, 1));

    // prctl: counted always, reported only for PR_SET_DUMPABLE with 0.
    assert!(on_security_syscall(&mut counts, &mut gate, WatchedSyscall::Prctl, 15, 0, t0).is_none());
    assert!(on_security_syscall(&mut counts, &mut gate, WatchedSyscall::Prctl, 4, 1, t0).is_none());
    let n = on_security_syscall(&mut counts, &mut gate, WatchedSyscall::Prctl, 4, 0, t0).unwrap();
    assert_eq!((n.kind, n.arg), (SecurityEventKind::Prctl, 4));
    assert_eq!(counts.prctl, 3);
    let m = on_security_syscall(&mut counts, &mut gate, WatchedSyscall::MemfdCreate, 99, 0, t0).unwrap();
    assert_eq!(m.arg, 0);

    let ev = build_security_event(n, 10, 1, 1000, 5, [b'a'; 16]);
    assert_eq!(ev.kind, SecurityEventKind::Prctl.code());
    assert_eq!(ev.severity, SecuritySeverity::Warn.code());
    assert_eq!((ev.pid, ev.ppid, ev.uid, ev.arg, ev.timestamp_ns), (10, 1, 1000, 4, 5));
}

#[test]
fn rate_limit_gate() {
    let mut g = EmitGate::new();
    assert!(rate_limited(&mut g, 5, 10));
    assert!(!rate_limited(&mut g, 5, 60_000_000));
    assert_eq!(g.last_ns[1], 60_000_000);
    assert!(rate_limited(&mut g, 1, 60_000_001));
}

#[test]
fn raw_syscall_numbers() {
    assert_eq!(raw_syscall(117), Some(WatchedSyscall::Ptrace));
    assert_eq!(raw_syscall(279), Some(WatchedSyscall::MemfdCreate));
    assert_eq!(raw_syscall(146), Some(WatchedSyscall::Setuid));
    assert_eq!(raw_syscall(167), Some(WatchedSyscall::Prctl));
    assert_eq!(raw_syscall(1), None);
}
