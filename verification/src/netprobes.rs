//! Per-event state updates of the kernel probes for network devices, TCP,
//! per-cgroup traffic, block I/O and security-relevant syscalls.
//!
//! As in `probes`, each function takes the tables and per-CPU records the
//! probe touches plus the values read from the kernel, and counters wrap.

use vstd::prelude::*;

use crate::bpf_map::BpfHashMap;
use crate::events::{NetEvent, NetEventKind, SecurityEvent, SecurityEventKind, SecuritySeverity};
use crate::metrics::{
    BlockStats, CgroupNetBytes, NetIfaceStats, SecurityEventCounts, TcpStateSnapshot,
};
use crate::probes::bounded_insert;
use crate::{COMM_LEN, FILENAME_LEN};

verus! {

broadcast use vstd::std_specs::hash::group_hash_axioms;

// ----- network devices and TCP -----

/// `netif_receive_skb`: one received packet of `len` bytes.
pub fn netif_receive_skb(stats: &mut NetIfaceStats, len: u32)
    ensures
        *final(stats) == (NetIfaceStats {
            rx_bytes: old(stats).rx_bytes.wrapping_add(len as u64),
            rx_packets: old(stats).rx_packets.wrapping_add(1),
            ..*old(stats)
        }),
{
    stats.rx_bytes = stats.rx_bytes.wrapping_add(len as u64);
    stats.rx_packets = stats.rx_packets.wrapping_add(1);
}

/// `net_dev_xmit`: a packet of `len` bytes handed to the driver with
/// result `rc`; a nonzero result counts as a transmit error.
pub fn net_dev_xmit(stats: &mut NetIfaceStats, len: u32, rc: i32)
    ensures
        *final(stats) == (if rc == 0 {
            NetIfaceStats {
                tx_bytes: old(stats).tx_bytes.wrapping_add(len as u64),
                tx_packets: old(stats).tx_packets.wrapping_add(1),
                ..*old(stats)
            }
        } else {
            NetIfaceStats { tx_errors: old(stats).tx_errors.wrapping_add(1), ..*old(stats) }
        }),
{
    if rc == 0 {
        stats.tx_bytes = stats.tx_bytes.wrapping_add(len as u64);
        stats.tx_packets = stats.tx_packets.wrapping_add(1);
    } else {
        stats.tx_errors = stats.tx_errors.wrapping_add(1);
    }
}

/// `tcp_retransmit_skb`: one retransmission.
pub fn tcp_retransmit_skb(tcp: &mut TcpStateSnapshot)
    ensures
        *final(tcp) == (TcpStateSnapshot {
            retransmits: old(tcp).retransmits.wrapping_add(1),
            ..*old(tcp)
        }),
{
    tcp.retransmits = tcp.retransmits.wrapping_add(1);
}

/// The TCP counters after a socket entered kernel TCP state `newstate`.
/// Entries into ESTABLISHED (1), SYN_SENT (2), SYN_RECV (3), FIN_WAIT1 (4),
/// FIN_WAIT2 (5), TIME_WAIT (6), CLOSE_WAIT (8) and LISTEN (10) are
/// counted; other states are not.
pub open spec fn tcp_state_counted(t: TcpStateSnapshot, newstate: i32) -> TcpStateSnapshot {
    if newstate == 1 {
        TcpStateSnapshot { established: t.established.wrapping_add(1), ..t }
    } else if newstate == 2 {
        TcpStateSnapshot { syn_sent: t.syn_sent.wrapping_add(1), ..t }
    } else if newstate == 3 {
        TcpStateSnapshot { syn_recv: t.syn_recv.wrapping_add(1), ..t }
    } else if newstate == 4 {
        TcpStateSnapshot { fin_wait1: t.fin_wait1.wrapping_add(1), ..t }
    } else if newstate == 5 {
        TcpStateSnapshot { fin_wait2: t.fin_wait2.wrapping_add(1), ..t }
    } else if newstate == 6 {
        TcpStateSnapshot { time_wait: t.time_wait.wrapping_add(1), ..t }
    } else if newstate == 8 {
        TcpStateSnapshot { close_wait: t.close_wait.wrapping_add(1), ..t }
    } else if newstate == 10 {
        TcpStateSnapshot { listen: t.listen.wrapping_add(1), ..t }
    } else {
        t
    }
}

/// A state change counts one entry into the new state, by the kernel's
/// TCP state numbers: 1 established, 2 SYN sent, 3 SYN received, 4 and 5
/// FIN-wait 1 and 2, 6 time-wait, 8 close-wait, 10 listen. Exactly that
/// counter grows by one (modulo 2^64); entries into any other state, and
/// the overflow, retransmit and reset counters, are left as they were.
pub proof fn lemma_tcp_state_counts_one_entry(t: TcpStateSnapshot, newstate: i32)
    ensures
        tcp_state_counted(t, newstate).established as int == if newstate == 1 {
            (t.established + 1) % 0x1_0000_0000_0000_0000
        } else {
            t.established as int
        },
        tcp_state_counted(t, newstate).syn_sent as int == if newstate == 2 {
            (t.syn_sent + 1) % 0x1_0000_0000_0000_0000
        } else {
            t.syn_sent as int
        },
        tcp_state_counted(t, newstate).syn_recv as int == if newstate == 3 {
            (t.syn_recv + 1) % 0x1_0000_0000_0000_0000
        } else {
            t.syn_recv as int
        },
        tcp_state_counted(t, newstate).fin_wait1 as int == if newstate == 4 {
            (t.fin_wait1 + 1) % 0x1_0000_0000_0000_0000
        } else {
            t.fin_wait1 as int
        },
        tcp_state_counted(t, newstate).fin_wait2 as int == if newstate == 5 {
            (t.fin_wait2 + 1) % 0x1_0000_0000_0000_0000
        } else {
            t.fin_wait2 as int
        },
        tcp_state_counted(t, newstate).time_wait as int == if newstate == 6 {
            (t.time_wait + 1) % 0x1_0000_0000_0000_0000
        } else {
            t.time_wait as int
        },
        tcp_state_counted(t, newstate).close_wait as int == if newstate == 8 {
            (t.close_wait + 1) % 0x1_0000_0000_0000_0000
        } else {
            t.close_wait as int
        },
        tcp_state_counted(t, newstate).listen as int == if newstate == 10 {
            (t.listen + 1) % 0x1_0000_0000_0000_0000
        } else {
            t.listen as int
        },
        tcp_state_counted(t, newstate).listen_overflows == t.listen_overflows,
        tcp_state_counted(t, newstate).retransmits == t.retransmits,
        tcp_state_counted(t, newstate).resets_in == t.resets_in,
        tcp_state_counted(t, newstate).resets_out == t.resets_out,
{
}

/// `inet_sock_set_state`: count the entry into `newstate`.
pub fn update_tcp_state(tcp: &mut TcpStateSnapshot, newstate: i32)
    ensures
        *final(tcp) == tcp_state_counted(*old(tcp), newstate),
{
    match newstate {
        1 => tcp.established = tcp.established.wrapping_add(1),
        2 => tcp.syn_sent = tcp.syn_sent.wrapping_add(1),
        3 => tcp.syn_recv = tcp.syn_recv.wrapping_add(1),
        4 => tcp.fin_wait1 = tcp.fin_wait1.wrapping_add(1),
        5 => tcp.fin_wait2 = tcp.fin_wait2.wrapping_add(1),
        6 => tcp.time_wait = tcp.time_wait.wrapping_add(1),
        8 => tcp.close_wait = tcp.close_wait.wrapping_add(1),
        10 => tcp.listen = tcp.listen.wrapping_add(1),
        _ => {},
    }
}

/// The packet-drop event: everything zero but the kind, the reason and
/// the time.
pub open spec fn skb_drop_event(drop_reason: u16, now: u64) -> NetEvent {
    NetEvent {
        kind: NetEventKind::SkbDrop.spec_code(),
        family: 0,
        sport: 0,
        dport: 0,
        drop_reason,
        old_state: 0,
        new_state: 0,
        _pad: vstd::array::spec_array_fill_for_copy_type::<u8, 2>(0),
        saddr: vstd::array::spec_array_fill_for_copy_type::<u8, 16>(0),
        daddr: vstd::array::spec_array_fill_for_copy_type::<u8, 16>(0),
        timestamp_ns: now,
    }
}

/// Build the packet-drop event for `drop_reason` at time `now`.
pub fn build_skb_drop_event(drop_reason: u16, now: u64) -> (e: NetEvent)
    ensures
        e == skb_drop_event(drop_reason, now),
{
    NetEvent {
        kind: NetEventKind::SkbDrop.code(),
        family: 0,
        sport: 0,
        dport: 0,
        drop_reason,
        old_state: 0,
        new_state: 0,
        _pad: [0u8; 2],
        saddr: [0u8; 16],
        daddr: [0u8; 16],
        timestamp_ns: now,
    }
}

/// `kfree_skb` with a drop reason: only real drops (reason 2 and up; 0 and
/// 1 mean "not dropped" and "not specified") are reported, with the reason
/// truncated to 16 bits.
pub fn kfree_skb(reason: u32, now: u64) -> (ev: Option<NetEvent>)
    ensures
        ev == (if reason < 2 {
            None
        } else {
            Some(skb_drop_event(reason as u16, now))
        }),
{
    if reason < 2 {
        None
    } else {
        Some(build_skb_drop_event(reason as u16, now))
    }
}

// ----- per-cgroup traffic -----

/// Entries of the per-cgroup traffic table.
pub const NET_CGROUP_MAP_ENTRIES: usize = 1024;

/// Direction of a packet relative to the local host.
#[derive(Copy, Clone, Debug, PartialEq, Eq, Structural)]
pub enum Direction {
    Rx,
    Tx,
}

/// Counters after one packet of `len` bytes in direction `dir`; the
/// internet counter grows only for packets whose remote end is public.
pub open spec fn packet_counted(c: CgroupNetBytes, dir: Direction, len: u64, internet: bool) -> CgroupNetBytes {
    match dir {
        Direction::Rx => CgroupNetBytes {
            rx_bytes: c.rx_bytes.wrapping_add(len),
            rx_packets: c.rx_packets.wrapping_add(1),
            rx_internet_bytes: if internet {
                c.rx_internet_bytes.wrapping_add(len)
            } else {
                c.rx_internet_bytes
            },
            ..c
        },
        Direction::Tx => CgroupNetBytes {
            tx_bytes: c.tx_bytes.wrapping_add(len),
            tx_packets: c.tx_packets.wrapping_add(1),
            tx_internet_bytes: if internet {
                c.tx_internet_bytes.wrapping_add(len)
            } else {
                c.tx_internet_bytes
            },
            ..c
        },
    }
}

/// A packet adds its length to the byte counter of its direction and one
/// to that direction's packet counter (modulo 2^64), and its length to the
/// internet byte counter of that direction exactly when it is internet
/// traffic; the other direction and the cgroup id are untouched.
pub proof fn lemma_packet_counted_fields(c: CgroupNetBytes, dir: Direction, len: u64, internet: bool)
    ensures
        ({
            let n = packet_counted(c, dir, len, internet);
            &&& n.cgroup_id == c.cgroup_id
            &&& dir == Direction::Rx ==> {
                &&& n.rx_bytes as int == (c.rx_bytes + len) % 0x1_0000_0000_0000_0000
                &&& n.rx_packets as int == (c.rx_packets + 1) % 0x1_0000_0000_0000_0000
                &&& n.rx_internet_bytes as int == if internet {
                    (c.rx_internet_bytes + len) % 0x1_0000_0000_0000_0000
                } else {
                    c.rx_internet_bytes as int
                }
                &&& n.tx_bytes == c.tx_bytes && n.tx_packets == c.tx_packets
                &&& n.tx_internet_bytes == c.tx_internet_bytes
            }
            &&& dir == Direction::Tx ==> {
                &&& n.tx_bytes as int == (c.tx_bytes + len) % 0x1_0000_0000_0000_0000
                &&& n.tx_packets as int == (c.tx_packets + 1) % 0x1_0000_0000_0000_0000
                &&& n.tx_internet_bytes as int == if internet {
                    (c.tx_internet_bytes + len) % 0x1_0000_0000_0000_0000
                } else {
                    c.tx_internet_bytes as int
                }
                &&& n.rx_bytes == c.rx_bytes && n.rx_packets == c.rx_packets
                &&& n.rx_internet_bytes == c.rx_internet_bytes
            }
        }),
{
}

/// The traffic table after one packet accounted to `key`: an existing
/// entry is updated; otherwise a fresh entry with this packet alone is
/// added if there is room.
pub open spec fn traffic_accounted(
    m: Map<u64, CgroupNetBytes>,
    cap: nat,
    key: u64,
    dir: Direction,
    len: u64,
    internet: bool,
) -> Map<u64, CgroupNetBytes> {
    if m.contains_key(key) {
        m.insert(key, packet_counted(m[key], dir, len, internet))
    } else {
        bounded_insert(
            m,
            cap,
            key,
            packet_counted(
                CgroupNetBytes { cgroup_id: key, ..CgroupNetBytes::spec_zeroed() },
                dir,
                len,
                internet,
            ),
        )
    }
}

fn account_bytes(
    table: &mut BpfHashMap<u64, CgroupNetBytes>,
    key: u64,
    dir: Direction,
    len: u64,
    internet: bool,
)
    ensures
        final(table).contents() == traffic_accounted(
            old(table).contents(),
            old(table).capacity(),
            key,
            dir,
            len,
            internet,
        ),
        final(table).capacity() == old(table).capacity(),
{
    let mut c = match table.get(key) {
        Some(c) => c,
        None => {
            let mut fresh = CgroupNetBytes::zeroed();
            fresh.cgroup_id = key;
            fresh
        },
    };
    match dir {
        Direction::Rx => {
            c.rx_bytes = c.rx_bytes.wrapping_add(len);
            c.rx_packets = c.rx_packets.wrapping_add(1);
            if internet {
                c.rx_internet_bytes = c.rx_internet_bytes.wrapping_add(len);
            }
        },
        Direction::Tx => {
            c.tx_bytes = c.tx_bytes.wrapping_add(len);
            c.tx_packets = c.tx_packets.wrapping_add(1);
            if internet {
                c.tx_internet_bytes = c.tx_internet_bytes.wrapping_add(len);
            }
        },
    }
    let _ = table.insert(key, c);
}

/// `cgroup_skb` ingress/egress: account a packet of `len` bytes to the
/// cgroup `cgid` of the current task. Cgroup 0 (no cgroup) is skipped.
pub fn account_cgroup(
    table: &mut BpfHashMap<u64, CgroupNetBytes>,
    cgid: u64,
    dir: Direction,
    len: u64,
    internet: bool,
)
    ensures
        final(table).contents() == (if cgid == 0 {
            old(table).contents()
        } else {
            traffic_accounted(old(table).contents(), old(table).capacity(), cgid, dir, len, internet)
        }),
        final(table).capacity() == old(table).capacity(),
{
    if cgid == 0 {
        return;
    }
    account_bytes(table, cgid, dir, len, internet);
}

/// Account `len` bytes of TCP payload to process `pid` (the per-process
/// fallback that keys the traffic table by pid).
pub fn account_pid(
    table: &mut BpfHashMap<u64, CgroupNetBytes>,
    pid: u64,
    len: u64,
    is_rx: bool,
    internet: bool,
)
    ensures
        final(table).contents() == traffic_accounted(
            old(table).contents(),
            old(table).capacity(),
            pid,
            if is_rx {
                Direction::Rx
            } else {
                Direction::Tx
            },
            len,
            internet,
        ),
        final(table).capacity() == old(table).capacity(),
{
    let dir = if is_rx {
        Direction::Rx
    } else {
        Direction::Tx
    };
    account_bytes(table, pid, dir, len, internet);
}

/// `tcp_sendmsg`: account `len` sent bytes to the process of `pid_tgid`
/// (pid in the upper 32 bits). Empty sends and pid 0 are skipped.
pub fn tcp_sendmsg(table: &mut BpfHashMap<u64, CgroupNetBytes>, pid_tgid: u64, len: u64, internet: bool)
    ensures
        final(table).contents() == (if len == 0 || pid_tgid / 0x1_0000_0000 == 0 {
            old(table).contents()
        } else {
            traffic_accounted(
                old(table).contents(),
                old(table).capacity(),
                pid_tgid / 0x1_0000_0000,
                Direction::Tx,
                len,
                internet,
            )
        }),
        final(table).capacity() == old(table).capacity(),
{
    if len == 0 {
        return;
    }
    let pid = pid_tgid >> 32;
    assert(pid_tgid >> 32 == pid_tgid / 0x1_0000_0000) by (bit_vector);
    if pid == 0 {
        return;
    }
    account_pid(table, pid, len, false, internet);
}

/// `tcp_cleanup_rbuf`: account `copied` received bytes to the process of
/// `pid_tgid`. Nonpositive counts and pid 0 are skipped.
pub fn tcp_cleanup_rbuf(
    table: &mut BpfHashMap<u64, CgroupNetBytes>,
    pid_tgid: u64,
    copied: i32,
    internet: bool,
)
    ensures
        final(table).contents() == (if copied <= 0 || pid_tgid / 0x1_0000_0000 == 0 {
            old(table).contents()
        } else {
            traffic_accounted(
                old(table).contents(),
                old(table).capacity(),
                pid_tgid / 0x1_0000_0000,
                Direction::Rx,
                copied as u64,
                internet,
            )
        }),
        final(table).capacity() == old(table).capacity(),
{
    if copied <= 0 {
        return;
    }
    let pid = pid_tgid >> 32;
    assert(pid_tgid >> 32 == pid_tgid / 0x1_0000_0000) by (bit_vector);
    if pid == 0 {
        return;
    }
    account_pid(table, pid, copied as u64, true, internet);
}

// ----- address classification -----

/// Private, loopback, link-local, unspecified and broadcast IPv4 ranges:
/// 10/8, 172.16/12, 192.168/16, 127/8, 169.254/16, 0/8 and 255/8.
pub open spec fn spec_is_ipv4_local(ip: Seq<u8>) -> bool {
    let a = ip[0];
    let b = ip[1];
    ||| a == 10
    ||| (a == 172 && 16 <= b < 32)
    ||| (a == 192 && b == 168)
    ||| a == 127
    ||| (a == 169 && b == 254)
    ||| a == 0
    ||| a == 255
}

/// Whether an IPv4 address is local rather than on the internet.
pub fn is_ipv4_local(ip: [u8; 4]) -> (r: bool)
    ensures
        r == spec_is_ipv4_local(ip@),
{
    let a = ip[0];
    let b = ip[1];
    assert((b & 0xF0) == 16 <==> 16 <= b < 32) by (bit_vector);
    a == 10 || (a == 172 && (b & 0xF0) == 16) || (a == 192 && b == 168) || a == 127 || (a == 169
        && b == 254) || a == 0 || a == 255
}

/// Loopback (::1), link-local (fe80::/10), unique-local (fc00::/7) and
/// unspecified (::) IPv6 addresses.
pub open spec fn spec_is_ipv6_local(ip: Seq<u8>) -> bool {
    let zero_prefix = forall|i: int| 0 <= i < 15 ==> ip[i] == 0;
    ||| (zero_prefix && ip[15] == 1)
    ||| (ip[0] == 0xfe && 0x80 <= ip[1] < 0xc0)
    ||| (ip[0] == 0xfc || ip[0] == 0xfd)
    ||| (zero_prefix && ip[15] == 0)
}

/// Whether an IPv6 address is local rather than on the internet.
pub fn is_ipv6_local(ip: [u8; 16]) -> (r: bool)
    ensures
        r == spec_is_ipv6_local(ip@),
{
    let mut zero_prefix = true;
    let mut i: usize = 0;
    while i < 15
        invariant
            i <= 15,
            zero_prefix == (forall|k: int| 0 <= k < i ==> ip@[k] == 0),
        decreases 15 - i,
    {
        if ip[i] != 0 {
            zero_prefix = false;
        }
        i = i + 1;
    }
    let b0 = ip[0];
    let b1 = ip[1];
    assert((b1 & 0xc0) == 0x80 <==> 0x80 <= b1 < 0xc0) by (bit_vector);
    assert((b0 & 0xfe) == 0xfc <==> (b0 == 0xfc || b0 == 0xfd)) by (bit_vector);
    let is_loopback = zero_prefix && ip[15] == 1;
    let is_link_local = b0 == 0xfe && (b1 & 0xc0) == 0x80;
    let is_ula = (b0 & 0xfe) == 0xfc;
    let is_unspecified = zero_prefix && ip[15] == 0;
    is_loopback || is_link_local || is_ula || is_unspecified
}

/// Whether a packet whose network header starts with `p` has a public
/// remote end: the source address of a received packet, the destination of
/// a sent one. A header too short to hold the address, or a version other
/// than 4 or 6, counts as local.
pub open spec fn spec_packet_is_internet(dir: Direction, p: Seq<u8>) -> bool {
    if p.len() < 1 {
        false
    } else if p[0] / 16 == 4 {
        let off: int = if dir == Direction::Rx { 12 } else { 16 };
        off + 4 <= p.len() && !spec_is_ipv4_local(p.subrange(off, off + 4))
    } else if p[0] / 16 == 6 {
        let off: int = if dir == Direction::Rx { 8 } else { 24 };
        off + 16 <= p.len() && !spec_is_ipv6_local(p.subrange(off, off + 16))
    } else {
        false
    }
}

/// Classify a packet from the first bytes of its network header.
pub fn classify_internet(dir: Direction, p: &[u8]) -> (r: bool)
    ensures
        r == spec_packet_is_internet(dir, p@),
{
    let n = p.len();
    if n < 1 {
        return false;
    }
    let first = p[0];
    let version = first >> 4;
    assert(first >> 4 == first / 16) by (bit_vector);
    if version == 4 {
        let off: usize = match dir {
            Direction::Rx => 12,
            Direction::Tx => 16,
        };
        if off + 4 > n {
            return false;
        }
        let ip: [u8; 4] = [p[off], p[off + 1], p[off + 2], p[off + 3]];
        assert(ip@ =~= p@.subrange(off as int, off + 4));
        !is_ipv4_local(ip)
    } else if version == 6 {
        let off: usize = match dir {
            Direction::Rx => 8,
            Direction::Tx => 24,
        };
        if off + 16 > n {
            return false;
        }
        let mut ip = [0u8; 16];
        let mut i: usize = 0;
        while i < 16
            invariant
                i <= 16,
                off + 16 <= n,
                n == p@.len(),
                forall|k: int| 0 <= k < i ==> ip@[k] == p@[off + k],
            decreases 16 - i,
        {
            ip[i] = p[off + i];
            i = i + 1;
        }
        assert(ip@ =~= p@.subrange(off as int, off + 16));
        !is_ipv6_local(ip)
    } else {
        false
    }
}

/// Socket-based classification: an IPv4 (family 2) socket whose remote
/// address bytes `daddr` are public. Other families count as local.
pub fn classify_sock_internet(family: u16, daddr: [u8; 4]) -> (r: bool)
    ensures
        r == (family == 2 && !spec_is_ipv4_local(daddr@)),
{
    if family != 2 {
        return false;
    }
    !is_ipv4_local(daddr)
}

} // verus!

verus! {

// ----- block I/O -----

/// Entries of the per-device block I/O table.
pub const BLOCK_MAP_ENTRIES: usize = 32;

/// Device statistics after one completed request of `nr_bytes` bytes.
pub open spec fn io_counted(s: BlockStats, is_read: bool, nr_bytes: u32) -> BlockStats {
    if is_read {
        BlockStats {
            reads_completed: s.reads_completed.wrapping_add(1),
            read_bytes: s.read_bytes.wrapping_add(nr_bytes as u64),
            ..s
        }
    } else {
        BlockStats {
            writes_completed: s.writes_completed.wrapping_add(1),
            write_bytes: s.write_bytes.wrapping_add(nr_bytes as u64),
            ..s
        }
    }
}

/// A completed request adds one to the completed count and its size to
/// the byte count of its direction (modulo 2^64); the other direction, the
/// device numbers, latencies, in-flight count and busy time are untouched.
pub proof fn lemma_io_counted_fields(s: BlockStats, is_read: bool, nr_bytes: u32)
    ensures
        ({
            let n = io_counted(s, is_read, nr_bytes);
            &&& n.device_major == s.device_major && n.device_minor == s.device_minor
            &&& n.read_latency_ns == s.read_latency_ns && n.write_latency_ns == s.write_latency_ns
            &&& n.io_inflight == s.io_inflight && n.io_ticks_ms == s.io_ticks_ms
            &&& is_read ==> {
                &&& n.reads_completed as int == (s.reads_completed + 1) % 0x1_0000_0000_0000_0000
                &&& n.read_bytes as int == (s.read_bytes + nr_bytes) % 0x1_0000_0000_0000_0000
                &&& n.writes_completed == s.writes_completed && n.write_bytes == s.write_bytes
            }
            &&& !is_read ==> {
                &&& n.writes_completed as int == (s.writes_completed + 1) % 0x1_0000_0000_0000_0000
                &&& n.write_bytes as int == (s.write_bytes + nr_bytes) % 0x1_0000_0000_0000_0000
                &&& n.reads_completed == s.reads_completed && n.read_bytes == s.read_bytes
            }
        }),
{
}

/// The device table after one completed request on device `key`: an
/// existing entry is updated; otherwise a fresh entry for `major:minor`
/// holding this request alone is added if there is room.
pub open spec fn block_accounted(
    m: Map<u64, BlockStats>,
    cap: nat,
    key: u64,
    major: u32,
    minor: u32,
    is_read: bool,
    nr_bytes: u32,
) -> Map<u64, BlockStats> {
    if m.contains_key(key) {
        m.insert(key, io_counted(m[key], is_read, nr_bytes))
    } else {
        bounded_insert(
            m,
            cap,
            key,
            io_counted(
                BlockStats { device_major: major, device_minor: minor, ..BlockStats::spec_zeroed() },
                is_read,
                nr_bytes,
            ),
        )
    }
}

/// Account one completed read or write request to device `dev_key`.
pub fn update_block_stats(
    table: &mut BpfHashMap<u64, BlockStats>,
    dev_key: u64,
    major: u32,
    minor: u32,
    is_read: bool,
    nr_bytes: u32,
)
    ensures
        final(table).contents() == block_accounted(
            old(table).contents(),
            old(table).capacity(),
            dev_key,
            major,
            minor,
            is_read,
            nr_bytes,
        ),
        final(table).capacity() == old(table).capacity(),
{
    let mut s = match table.get(dev_key) {
        Some(s) => s,
        None => {
            let mut fresh = BlockStats::zeroed();
            fresh.device_major = major;
            fresh.device_minor = minor;
            fresh
        },
    };
    if is_read {
        s.reads_completed = s.reads_completed.wrapping_add(1);
        s.read_bytes = s.read_bytes.wrapping_add(nr_bytes as u64);
    } else {
        s.writes_completed = s.writes_completed.wrapping_add(1);
        s.write_bytes = s.write_bytes.wrapping_add(nr_bytes as u64);
    }
    let _ = table.insert(dev_key, s);
}

/// The operation of a block request from its `cmd_flags`: `Some(true)`
/// for a read (op 0), `Some(false)` for a write (op 1), `None` otherwise.
pub fn request_op(cmd_flags: u32) -> (r: Option<bool>)
    ensures
        r == (if cmd_flags % 256 == 0 {
            Some(true)
        } else if cmd_flags % 256 == 1 {
            Some(false)
        } else {
            None
        }),
{
    let op = cmd_flags & 0xFF;
    assert(cmd_flags & 0xFF == cmd_flags % 256) by (bit_vector);
    if op == 0 {
        Some(true)
    } else if op == 1 {
        Some(false)
    } else {
        None
    }
}

/// Table key of a device: the major number in the upper 32 bits, the
/// minor in the lower 32 (each as its 32-bit pattern).
pub open spec fn spec_dev_key(major: u32, minor: u32) -> u64 {
    (major as u64 * 0x1_0000_0000 + minor as u64) as u64
}

/// Table key of the device `major:minor` read from a `gendisk`.
pub fn dev_key(major: i32, minor: i32) -> (k: u64)
    ensures
        k == spec_dev_key(major as u32, minor as u32),
{
    let k = ((major as u64) << 32) | (minor as u64 & 0xFFFF_FFFF);
    assert(((major as u64) << 32) | (minor as u64 & 0xFFFF_FFFF) == ((major as u32) as u64)
        * 0x1_0000_0000 + ((minor as u32) as u64)) by (bit_vector);
    k
}

/// `block_rq_complete` once the request's flags and disk numbers are read:
/// reads and writes are accounted to their device, other operations are
/// ignored.
pub fn block_rq_complete(
    table: &mut BpfHashMap<u64, BlockStats>,
    cmd_flags: u32,
    major: i32,
    minor: i32,
    nr_bytes: u32,
)
    ensures
        final(table).contents() == (if cmd_flags % 256 == 0 || cmd_flags % 256 == 1 {
            block_accounted(
                old(table).contents(),
                old(table).capacity(),
                spec_dev_key(major as u32, minor as u32),
                major as u32,
                minor as u32,
                cmd_flags % 256 == 0,
                nr_bytes,
            )
        } else {
            old(table).contents()
        }),
        final(table).capacity() == old(table).capacity(),
{
    match request_op(cmd_flags) {
        None => {},
        Some(is_read) => {
            let key = dev_key(major, minor);
            update_block_stats(table, key, major as u32, minor as u32, is_read, nr_bytes);
        },
    }
}

/// Bytes of `nr_sector` 512-byte sectors, saturated to `u32::MAX`.
pub open spec fn sectors_bytes(nr_sector: u32) -> u32 {
    if nr_sector * 512 > u32::MAX {
        u32::MAX
    } else {
        (nr_sector * 512) as u32
    }
}

/// `block_rq_complete` from the raw tracepoint record: the device number
/// `dev` encodes `major << 20 | minor`, `rwbs0` is the first operation
/// letter (`R` read, `W` write; others are ignored), `nr_sector` the size.
pub fn block_rq_complete_raw(
    table: &mut BpfHashMap<u64, BlockStats>,
    dev: u32,
    nr_sector: u32,
    rwbs0: u8,
)
    ensures
        final(table).contents() == (if rwbs0 == 82 || rwbs0 == 87 {
            block_accounted(
                old(table).contents(),
                old(table).capacity(),
                spec_dev_key(dev / 0x10_0000, dev % 0x10_0000),
                dev / 0x10_0000,
                dev % 0x10_0000,
                rwbs0 == 82,
                sectors_bytes(nr_sector),
            )
        } else {
            old(table).contents()
        }),
        final(table).capacity() == old(table).capacity(),
{
    let major = dev >> 20;
    let minor = dev & 0xF_FFFF;
    assert(dev >> 20 == dev / 0x10_0000 && dev & 0xF_FFFF == dev % 0x10_0000) by (bit_vector);
    let is_read = rwbs0 == 82;  // 'R'
    let is_write = rwbs0 == 87;  // 'W'
    if !is_read && !is_write {
        return;
    }
    let bytes = (nr_sector as u64) * 512;
    let nr_bytes: u32 = if bytes > u32::MAX as u64 {
        u32::MAX
    } else {
        bytes as u32
    };
    let key = ((major as u64) << 32) | (minor as u64);
    assert(((major as u64) << 32) | (minor as u64) == (major as u64) * 0x1_0000_0000 + (
    minor as u64)) by (bit_vector)
        requires
            minor < 0x10_0000,
    ;
    update_block_stats(table, key, major, minor, is_read, nr_bytes);
}

// ----- security-relevant syscalls -----

/// Minimum spacing of reported events of one kind on one CPU; the
/// counters are exact regardless.
pub const EMIT_MIN_INTERVAL_NS: u64 = 50_000_000;

/// `prctl` option that changes the dumpable flag.
pub const PR_SET_DUMPABLE: u64 = 4;

/// Per-CPU time of the last reported event of each watched syscall.
#[derive(Copy, Clone, Debug)]
pub struct EmitGate {
    pub last_ns: [u64; 4],
}

impl EmitGate {
    /// A gate that has reported nothing yet.
    pub fn new() -> (g: Self)
        ensures
            forall|i: int| 0 <= i < 4 ==> g.last_ns[i] == 0,
    {
        EmitGate { last_ns: [0u64; 4] }
    }
}

/// Whether a report in `slot` (taken modulo 4) at `now` is suppressed
/// because the previous one was less than `EMIT_MIN_INTERVAL_NS` earlier.
/// A report that goes through records `now` for its slot.
pub fn rate_limited(gate: &mut EmitGate, slot: usize, now: u64) -> (limited: bool)
    ensures
        limited == (now.saturating_sub(old(gate).last_ns[(slot % 4) as int]) < EMIT_MIN_INTERVAL_NS),
        limited ==> *final(gate) == *old(gate),
        !limited ==> final(gate).last_ns@ == old(gate).last_ns@.update((slot % 4) as int, now),
{
    let s = slot & 3;
    assert(slot & 3 == slot % 4) by (bit_vector);
    if now.saturating_sub(gate.last_ns[s]) < EMIT_MIN_INTERVAL_NS {
        return true;
    }
    gate.last_ns[s] = now;
    false
}

/// Two reports of one kind on one CPU are at least
/// `EMIT_MIN_INTERVAL_NS` apart: once a report in `slot` went through at
/// `t1` (recording `t1`), every attempt in that slot before
/// `t1 + EMIT_MIN_INTERVAL_NS` is suppressed.
pub proof fn lemma_reports_spaced(after: EmitGate, slot: int, t1: u64, t2: u64)
    requires
        0 <= slot < 4,
        after.last_ns[slot] == t1,
        t1 <= t2,
        t2 - t1 < EMIT_MIN_INTERVAL_NS,
    ensures
        t2.saturating_sub(after.last_ns[slot]) < EMIT_MIN_INTERVAL_NS,
{
}

/// The syscalls the security probes watch.
#[derive(Copy, Clone, Debug, PartialEq, Eq, Structural)]
pub enum WatchedSyscall {
    Ptrace,
    MemfdCreate,
    Setuid,
    Prctl,
}

/// The syscall behind a raw syscall number on arm64, where only the raw
/// syscall tracepoint is available.
pub fn raw_syscall(nr: u64) -> (r: Option<WatchedSyscall>)
    ensures
        r == (if nr == 117 {
            Some(WatchedSyscall::Ptrace)
        } else if nr == 279 {
            Some(WatchedSyscall::MemfdCreate)
        } else if nr == 146 {
            Some(WatchedSyscall::Setuid)
        } else if nr == 167 {
            Some(WatchedSyscall::Prctl)
        } else {
            None
        }),
{
    match nr {
        117 => Some(WatchedSyscall::Ptrace),
        279 => Some(WatchedSyscall::MemfdCreate),
        146 => Some(WatchedSyscall::Setuid),
        167 => Some(WatchedSyscall::Prctl),
        _ => None,
    }
}

/// What a security probe reports about a syscall.
#[derive(Copy, Clone, Debug, PartialEq, Eq, Structural)]
pub struct SecurityNotice {
    pub kind: SecurityEventKind,
    pub severity: SecuritySeverity,
    /// The request of `ptrace`, the new uid of `setuid`, the option of
    /// `prctl`, 0 for `memfd_create`.
    pub arg: u64,
}

/// The counters after one call of `call`.
pub open spec fn syscall_counted(c: SecurityEventCounts, call: WatchedSyscall) -> SecurityEventCounts {
    match call {
        WatchedSyscall::Ptrace => SecurityEventCounts { ptrace: c.ptrace.wrapping_add(1), ..c },
        WatchedSyscall::MemfdCreate => SecurityEventCounts {
            memfd_create: c.memfd_create.wrapping_add(1),
            ..c
        },
        WatchedSyscall::Setuid => SecurityEventCounts { setuid: c.setuid.wrapping_add(1), ..c },
        WatchedSyscall::Prctl => SecurityEventCounts { prctl: c.prctl.wrapping_add(1), ..c },
    }
}

/// The report a call is eligible for, with its rate-limit slot: every
/// `ptrace`, `memfd_create` and `setuid`, but only the `prctl` that clears
/// the dumpable flag (`PR_SET_DUMPABLE`, 0).
pub open spec fn syscall_candidate(call: WatchedSyscall, arg0: u64, arg1: u64) -> Option<(SecurityNotice, int)> {
    match call {
        WatchedSyscall::Ptrace => Some(
            (
                SecurityNotice {
                    kind: SecurityEventKind::Ptrace,
                    severity: SecuritySeverity::Warn,
                    arg: arg0,
                },
                0,
            ),
        ),
        WatchedSyscall::MemfdCreate => Some(
            (
                SecurityNotice {
                    kind: SecurityEventKind::MemfdCreate,
                    severity: SecuritySeverity::Warn,
                    arg: 0,
                },
                1,
            ),
        ),
        WatchedSyscall::Setuid => Some(
            (
                SecurityNotice {
                    kind: SecurityEventKind::Setuid,
                    severity: SecuritySeverity::Warn,
                    arg: arg0,
                },
                2,
            ),
        ),
        WatchedSyscall::Prctl => if arg0 == PR_SET_DUMPABLE && arg1 == 0 {
            Some(
                (
                    SecurityNotice {
                        kind: SecurityEventKind::Prctl,
                        severity: SecuritySeverity::Warn,
                        arg: arg0,
                    },
                    3,
                ),
            )
        } else {
            None
        },
    }
}

/// A watched syscall entry with its first two arguments: count it, and
/// decide whether to report it (eligible and not rate-limited).
pub fn on_security_syscall(
    counts: &mut SecurityEventCounts,
    gate: &mut EmitGate,
    call: WatchedSyscall,
    arg0: u64,
    arg1: u64,
    now: u64,
) -> (notice: Option<SecurityNotice>)
    ensures
        *final(counts) == syscall_counted(*old(counts), call),
        match syscall_candidate(call, arg0, arg1) {
            None => notice.is_none() && *final(gate) == *old(gate),
            Some((n, slot)) => {
                let limited = now.saturating_sub(old(gate).last_ns[slot]) < EMIT_MIN_INTERVAL_NS;
                &&& notice == (if limited {
                    None
                } else {
                    Some(n)
                })
                &&& limited ==> *final(gate) == *old(gate)
                &&& !limited ==> final(gate).last_ns@ == old(gate).last_ns@.update(slot, now)
            },
        },
{
    let (candidate, slot): (Option<SecurityNotice>, usize) = match call {
        WatchedSyscall::Ptrace => {
            counts.ptrace = counts.ptrace.wrapping_add(1);
            (
                Some(
                    SecurityNotice {
                        kind: SecurityEventKind::Ptrace,
                        severity: SecuritySeverity::Warn,
                        arg: arg0,
                    },
                ),
                0,
            )
        },
        WatchedSyscall::MemfdCreate => {
            counts.memfd_create = counts.memfd_create.wrapping_add(1);
            (
                Some(
                    SecurityNotice {
                        kind: SecurityEventKind::MemfdCreate,
                        severity: SecuritySeverity::Warn,
                        arg: 0,
                    },
                ),
                1,
            )
        },
        WatchedSyscall::Setuid => {
            counts.setuid = counts.setuid.wrapping_add(1);
            (
                Some(
                    SecurityNotice {
                        kind: SecurityEventKind::Setuid,
                        severity: SecuritySeverity::Warn,
                        arg: arg0,
                    },
                ),
                2,
            )
        },
        WatchedSyscall::Prctl => {
            counts.prctl = counts.prctl.wrapping_add(1);
            if arg0 == PR_SET_DUMPABLE && arg1 == 0 {
                (
                    Some(
                        SecurityNotice {
                            kind: SecurityEventKind::Prctl,
                            severity: SecuritySeverity::Warn,
                            arg: arg0,
                        },
                    ),
                    3,
                )
            } else {
                (None, 3)
            }
        },
    };
    match candidate {
        None => None,
        Some(n) => {
            if rate_limited(gate, slot, now) {
                None
            } else {
                Some(n)
            }
        },
    }
}

/// The security event reported for `n` by process `pid` (parent `ppid`,
/// user `uid`, command `comm`) at `now`.
pub open spec fn security_event(
    n: SecurityNotice,
    pid: u32,
    ppid: u32,
    uid: u32,
    now: u64,
    comm: [u8; COMM_LEN],
) -> SecurityEvent {
    SecurityEvent {
        kind: n.kind.spec_code(),
        pid,
        ppid,
        uid,
        severity: n.severity.spec_code(),
        _pad: vstd::array::spec_array_fill_for_copy_type::<u8, 7>(0),
        arg: n.arg,
        timestamp_ns: now,
        comm,
        filename: vstd::array::spec_array_fill_for_copy_type::<u8, FILENAME_LEN>(0),
    }
}

/// Build the zero-initialised security event for a report.
pub fn build_security_event(
    n: SecurityNotice,
    pid: u32,
    ppid: u32,
    uid: u32,
    now: u64,
    comm: [u8; COMM_LEN],
) -> (e: SecurityEvent)
    ensures
        e == security_event(n, pid, ppid, uid, now, comm),
{
    SecurityEvent {
        kind: n.kind.code(),
        pid,
        ppid,
        uid,
        severity: n.severity.code(),
        _pad: [0u8; 7],
        arg: n.arg,
        timestamp_ns: now,
        comm,
        filename: [0u8; FILENAME_LEN],
    }
}

} // verus!
