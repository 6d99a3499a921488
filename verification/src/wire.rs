//! Events as published to clients: kernel records with the numeric kinds
//! replaced by names and the NUL-padded byte strings decoded, plus the
//! subscriber-side filter of the live event stream.

use vstd::prelude::*;

use crate::events::{NetEvent, ProcessEvent, SecurityEvent};
use crate::procfs::chars_match;
use crate::segment::ShmPod;
use crate::time_base::TimeBase;
use crate::text::{
    char_is_ws, first_index_of, is_ws, lossy_string, str_chars, sub_chars, utf8_lossy, ws_prefix_len,
};

verus! {

broadcast use vstd::string::group_string_axioms;

/// A single event ready for transmission, tagged by subsystem.
#[derive(Clone, Debug)]
pub enum WireEvent {
    Process {
        kind: &'static str,
        timestamp_ns: u64,
        pid: u32,
        ppid: u32,
        uid: u32,
        exit_code: i32,
        comm: String,
        filename: String,
    },
    Network {
        kind: &'static str,
        timestamp_ns: u64,
        family: u16,
        sport: u16,
        dport: u16,
        drop_reason: u16,
        old_state: u8,
        new_state: u8,
        saddr: [u8; 16],
        daddr: [u8; 16],
    },
    Security {
        kind: &'static str,
        severity: &'static str,
        timestamp_ns: u64,
        pid: u32,
        ppid: u32,
        uid: u32,
        /// Raw syscall argument: the `ptrace` request, the new uid of
        /// `setuid`, the `prctl` option, and so on.
        arg: u64,
        comm: String,
        filename: String,
    },
}

// ----- names -----

/// Name of a process event kind code.
pub open spec fn process_kind_label(k: u32) -> Seq<char> {
    if k == 0 {
        "Exec"@
    } else if k == 1 {
        "Exit"@
    } else if k == 2 {
        "Fork"@
    } else {
        "Unknown"@
    }
}

/// Name of a network event kind code.
pub open spec fn net_kind_label(k: u32) -> Seq<char> {
    if k == 0 {
        "SkbDrop"@
    } else if k == 1 {
        "TcpRetransmit"@
    } else if k == 2 {
        "TcpReset"@
    } else if k == 3 {
        "TcpStateChange"@
    } else {
        "Unknown"@
    }
}

/// Name of a security event kind code.
pub open spec fn security_kind_label(k: u32) -> Seq<char> {
    if k == 0 {
        "Ptrace"@
    } else if k == 1 {
        "MemfdCreate"@
    } else if k == 2 {
        "Prctl"@
    } else if k == 3 {
        "Setuid"@
    } else if k == 4 {
        "ExecAnomaly"@
    } else if k == 5 {
        "CapabilityUse"@
    } else {
        "Unknown"@
    }
}

/// Name of a security severity code.
pub open spec fn severity_label(s: u8) -> Seq<char> {
    if s == 0 {
        "info"@
    } else if s == 1 {
        "warn"@
    } else if s == 2 {
        "critical"@
    } else {
        "unknown"@
    }
}

/// Name of a process event kind code.
pub fn process_kind_name(k: u32) -> (r: &'static str)
    ensures
        r@ == process_kind_label(k),
{
    match k {
        0 => "Exec",
        1 => "Exit",
        2 => "Fork",
        _ => "Unknown",
    }
}

/// Name of a network event kind code.
pub fn net_kind_name(k: u32) -> (r: &'static str)
    ensures
        r@ == net_kind_label(k),
{
    match k {
        0 => "SkbDrop",
        1 => "TcpRetransmit",
        2 => "TcpReset",
        3 => "TcpStateChange",
        _ => "Unknown",
    }
}

/// Name of a security event kind code.
pub fn security_kind_name(k: u32) -> (r: &'static str)
    ensures
        r@ == security_kind_label(k),
{
    match k {
        0 => "Ptrace",
        1 => "MemfdCreate",
        2 => "Prctl",
        3 => "Setuid",
        4 => "ExecAnomaly",
        5 => "CapabilityUse",
        _ => "Unknown",
    }
}

/// Name of a security severity code.
pub fn severity_name(s: u8) -> (r: &'static str)
    ensures
        r@ == severity_label(s),
{
    match s {
        0 => "info",
        1 => "warn",
        2 => "critical",
        _ => "unknown",
    }
}

// ----- NUL-terminated byte strings -----

/// Position of the first NUL byte, or the length when there is none.
pub open spec fn first_nul(b: Seq<u8>) -> int
    decreases b.len(),
{
    if b.len() == 0 {
        0
    } else if b[0] == 0 {
        0
    } else {
        1 + first_nul(b.drop_first())
    }
}

/// The bytes of a zero-padded kernel string before its first NUL.
pub open spec fn cstr_prefix(b: Seq<u8>) -> Seq<u8> {
    b.take(first_nul(b))
}

/// `t` is the text of the zero-padded kernel string `b`: the lossy UTF-8
/// decoding of its bytes before the first NUL, which is their exact
/// decoding when they are valid UTF-8, and which holds no NUL.
pub open spec fn is_cstr_text(t: Seq<char>, b: Seq<u8>) -> bool {
    &&& t == utf8_lossy(cstr_prefix(b))
    &&& vstd::utf8::valid_utf8(cstr_prefix(b)) ==> t == vstd::utf8::decode_utf8(cstr_prefix(b))
    &&& forall|j: int| 0 <= j < t.len() ==> t[j] != '\0'
}

proof fn lemma_first_nul(b: Seq<u8>)
    ensures
        0 <= first_nul(b) <= b.len(),
        forall|k: int| 0 <= k < first_nul(b) ==> b[k] != 0,
        first_nul(b) < b.len() ==> b[first_nul(b)] == 0,
    decreases b.len(),
{
    if b.len() > 0 && b[0] != 0 {
        lemma_first_nul(b.drop_first());
        assert forall|k: int| 0 <= k < first_nul(b) implies b[k] != 0 by {
            if k > 0 {
                assert(b[k] == b.drop_first()[k - 1]);
            }
        }
    }
}

/// Decode a zero-padded kernel string: cut at the first NUL and decode
/// the rest as (lossy) UTF-8.
pub fn trim_cstr(bytes: &[u8]) -> (s: String)
    ensures
        is_cstr_text(s@, bytes@),
{
    let mut prefix: Vec<u8> = Vec::new();
    let mut i: usize = 0;
    while i < bytes.len() && bytes[i] != 0
        invariant
            i <= bytes@.len(),
            prefix@ == bytes@.take(i as int),
            forall|k: int| 0 <= k < i ==> bytes@[k] != 0,
        decreases bytes@.len() - i,
    {
        prefix.push(bytes[i]);
        assert(prefix@ =~= bytes@.take(i + 1));
        i = i + 1;
    }
    proof {
        lemma_first_nul(bytes@);
        let f = first_nul(bytes@);
        if f < i {
            assert(bytes@[f] == 0);
        }
        if i < bytes@.len() && i < f {
            assert(bytes@[i as int] != 0);
        }
    }
    lossy_string(prefix.as_slice())
}

// ----- construction from kernel records -----

/// `w` is the wire form of process record `ev`.
pub open spec fn is_wire_process(w: WireEvent, ev: ProcessEvent) -> bool {
    match w {
        WireEvent::Process { kind, timestamp_ns, pid, ppid, uid, exit_code, comm, filename } => {
            &&& kind@ == process_kind_label(ev.kind)
            &&& timestamp_ns == ev.timestamp_ns
            &&& pid == ev.pid
            &&& ppid == ev.ppid
            &&& uid == ev.uid
            &&& exit_code == ev.exit_code
            &&& is_cstr_text(comm@, ev.comm@)
            &&& is_cstr_text(filename@, ev.filename@)
        },
        _ => false,
    }
}

/// `w` is the wire form of network record `ev`.
pub open spec fn is_wire_net(w: WireEvent, ev: NetEvent) -> bool {
    match w {
        WireEvent::Network {
            kind,
            timestamp_ns,
            family,
            sport,
            dport,
            drop_reason,
            old_state,
            new_state,
            saddr,
            daddr,
        } => {
            &&& kind@ == net_kind_label(ev.kind)
            &&& timestamp_ns == ev.timestamp_ns
            &&& family == ev.family
            &&& sport == ev.sport
            &&& dport == ev.dport
            &&& drop_reason == ev.drop_reason
            &&& old_state == ev.old_state
            &&& new_state == ev.new_state
            &&& saddr == ev.saddr
            &&& daddr == ev.daddr
        },
        _ => false,
    }
}

/// `w` is the wire form of security record `ev`.
pub open spec fn is_wire_security(w: WireEvent, ev: SecurityEvent) -> bool {
    match w {
        WireEvent::Security { kind, severity, timestamp_ns, pid, ppid, uid, arg, comm, filename } => {
            &&& kind@ == security_kind_label(ev.kind)
            &&& severity@ == severity_label(ev.severity)
            &&& timestamp_ns == ev.timestamp_ns
            &&& pid == ev.pid
            &&& ppid == ev.ppid
            &&& uid == ev.uid
            &&& arg == ev.arg
            &&& is_cstr_text(comm@, ev.comm@)
            &&& is_cstr_text(filename@, ev.filename@)
        },
        _ => false,
    }
}

impl WireEvent {
    /// The wire form of a process lifecycle event.
    pub fn from_process(ev: &ProcessEvent) -> (w: WireEvent)
        ensures
            is_wire_process(w, *ev),
    {
        WireEvent::Process {
            kind: process_kind_name(ev.kind),
            timestamp_ns: ev.timestamp_ns,
            pid: ev.pid,
            ppid: ev.ppid,
            uid: ev.uid,
            exit_code: ev.exit_code,
            comm: trim_cstr(vstd::array::array_as_slice(&ev.comm)),
            filename: trim_cstr(vstd::array::array_as_slice(&ev.filename)),
        }
    }

    /// The wire form of a network event.
    pub fn from_net(ev: &NetEvent) -> (w: WireEvent)
        ensures
            is_wire_net(w, *ev),
    {
        WireEvent::Network {
            kind: net_kind_name(ev.kind),
            timestamp_ns: ev.timestamp_ns,
            family: ev.family,
            sport: ev.sport,
            dport: ev.dport,
            drop_reason: ev.drop_reason,
            old_state: ev.old_state,
            new_state: ev.new_state,
            saddr: ev.saddr,
            daddr: ev.daddr,
        }
    }

    /// The wire form of a security event.
    pub fn from_security(ev: &SecurityEvent) -> (w: WireEvent)
        ensures
            is_wire_security(w, *ev),
    {
        WireEvent::Security {
            kind: security_kind_name(ev.kind),
            severity: severity_name(ev.severity),
            timestamp_ns: ev.timestamp_ns,
            pid: ev.pid,
            ppid: ev.ppid,
            uid: ev.uid,
            arg: ev.arg,
            comm: trim_cstr(vstd::array::array_as_slice(&ev.comm)),
            filename: trim_cstr(vstd::array::array_as_slice(&ev.filename)),
        }
    }

    /// Subsystem tag of the event.
    pub open spec fn subsystem_label(&self) -> Seq<char> {
        match self {
            WireEvent::Process { .. } => "process"@,
            WireEvent::Network { .. } => "network"@,
            WireEvent::Security { .. } => "security"@,
        }
    }

    /// Pid the event concerns; network events carry none.
    pub open spec fn pid_of(&self) -> Option<u32> {
        match self {
            WireEvent::Process { pid, .. } => Some(*pid),
            WireEvent::Network { .. } => None,
            WireEvent::Security { pid, .. } => Some(*pid),
        }
    }

    /// Wire-format subsystem tag, also used for server-side filtering.
    pub fn subsystem(&self) -> (r: &'static str)
        ensures
            r@ == self.subsystem_label(),
    {
        match self {
            WireEvent::Process { .. } => "process",
            WireEvent::Network { .. } => "network",
            WireEvent::Security { .. } => "security",
        }
    }

    /// The pid this event is associated with, if any.
    pub fn pid(&self) -> (r: Option<u32>)
        ensures
            r == self.pid_of(),
    {
        match self {
            WireEvent::Process { pid, .. } => Some(*pid),
            WireEvent::Network { .. } => None,
            WireEvent::Security { pid, .. } => Some(*pid),
        }
    }
}


// ----- ring-buffer entries -----

/// The wire event of a process ring entry: `None` when the entry is too
/// short to hold a record; otherwise the record it starts with, its
/// monotonic timestamp converted to wall-clock time under `tb`.
pub fn process_ring_entry(entry: &[u8], tb: &TimeBase) -> (w: Option<WireEvent>)
    ensures
        w is None <==> entry@.len() < ProcessEvent::pod_size(),
        w matches Some(w) ==> ({
            let ev = ProcessEvent::pod_from(entry@.subrange(0, ProcessEvent::pod_size() as int));
            is_wire_process(w, ProcessEvent { timestamp_ns: tb.wall_of(ev.timestamp_ns) as u64, ..ev })
        }),
{
    if entry.len() < ProcessEvent::byte_size() {
        return None;
    }
    let mut ev = ProcessEvent::read_le(entry, 0);
    ev.timestamp_ns = tb.to_wall_ns(ev.timestamp_ns);
    Some(WireEvent::from_process(&ev))
}

/// The wire event of a network ring entry (see `process_ring_entry`).
pub fn net_ring_entry(entry: &[u8], tb: &TimeBase) -> (w: Option<WireEvent>)
    ensures
        w is None <==> entry@.len() < NetEvent::pod_size(),
        w matches Some(w) ==> ({
            let ev = NetEvent::pod_from(entry@.subrange(0, NetEvent::pod_size() as int));
            is_wire_net(w, NetEvent { timestamp_ns: tb.wall_of(ev.timestamp_ns) as u64, ..ev })
        }),
{
    if entry.len() < NetEvent::byte_size() {
        return None;
    }
    let mut ev = NetEvent::read_le(entry, 0);
    ev.timestamp_ns = tb.to_wall_ns(ev.timestamp_ns);
    Some(WireEvent::from_net(&ev))
}

/// The wire event of a security ring entry (see `process_ring_entry`).
pub fn security_ring_entry(entry: &[u8], tb: &TimeBase) -> (w: Option<WireEvent>)
    ensures
        w is None <==> entry@.len() < SecurityEvent::pod_size(),
        w matches Some(w) ==> ({
            let ev = SecurityEvent::pod_from(entry@.subrange(0, SecurityEvent::pod_size() as int));
            is_wire_security(w, SecurityEvent { timestamp_ns: tb.wall_of(ev.timestamp_ns) as u64, ..ev })
        }),
{
    if entry.len() < SecurityEvent::byte_size() {
        return None;
    }
    let mut ev = SecurityEvent::read_le(entry, 0);
    ev.timestamp_ns = tb.to_wall_ns(ev.timestamp_ns);
    Some(WireEvent::from_security(&ev))
}

// ----- D-Bus security signal -----

/// Arguments of the `SecurityEvent` D-Bus signal.
#[derive(Clone, Debug)]
pub struct SecuritySignal {
    pub pid: u32,
    pub kind: &'static str,
    pub severity: &'static str,
    pub comm: String,
    pub uid: u32,
    pub timestamp_ns: u64,
    pub arg: u64,
}

/// The D-Bus signal for a security event; other subsystems publish none.
pub fn security_signal(ev: &WireEvent) -> (r: Option<SecuritySignal>)
    ensures
        match *ev {
            WireEvent::Security { kind, severity, timestamp_ns, pid, uid, arg, comm, .. } => r == Some(
                SecuritySignal { pid, kind, severity, comm, uid, timestamp_ns, arg },
            ),
            _ => r is None,
        },
{
    match ev {
        WireEvent::Security { kind, severity, pid, uid, comm, timestamp_ns, arg, .. } => Some(
            SecuritySignal {
                pid: *pid,
                kind: *kind,
                severity: *severity,
                comm: comm.clone(),
                uid: *uid,
                timestamp_ns: *timestamp_ns,
                arg: *arg,
            },
        ),
        _ => None,
    }
}

// ----- event stream filter -----

/// Query of the event stream: a comma-separated subsystem list and a pid,
/// both optional.
#[derive(Clone, Debug, Default)]
pub struct StreamQuery {
    pub subsystem: Option<String>,
    pub pid: Option<u32>,
}

/// The pieces of `s` between commas, as `str::split(',')` yields them
/// (an empty string gives one empty piece).
pub open spec fn split_commas(s: Seq<char>) -> Seq<Seq<char>>
    decreases s.len(),
{
    let i = first_index_of(s, ',');
    if i < 0 || i >= s.len() {
        seq![s]
    } else {
        seq![s.take(i)] + split_commas(s.skip(i + 1))
    }
}

/// Number of trailing whitespace characters of `s`.
pub open spec fn ws_suffix_len(s: Seq<char>) -> int
    decreases s.len(),
{
    if s.len() == 0 {
        0
    } else if is_ws(s.last()) {
        1 + ws_suffix_len(s.drop_last())
    } else {
        0
    }
}

/// `s` without leading and trailing whitespace (`str::trim`).
pub open spec fn trim_ws(s: Seq<char>) -> Seq<char> {
    let a = ws_prefix_len(s);
    if a >= s.len() {
        Seq::empty()
    } else {
        s.subrange(a, s.len() - ws_suffix_len(s))
    }
}

/// The non-empty trimmed pieces, in order.
pub open spec fn nonempty_trimmed(ps: Seq<Seq<char>>) -> Seq<Seq<char>>
    decreases ps.len(),
{
    if ps.len() == 0 {
        Seq::empty()
    } else {
        let rest = nonempty_trimmed(ps.drop_last());
        let t = trim_ws(ps.last());
        if t.len() > 0 { rest.push(t) } else { rest }
    }
}

/// Subsystem names requested by a `subsystem=` query value.
pub open spec fn subsystem_list(s: Seq<char>) -> Seq<Seq<char>> {
    nonempty_trimmed(split_commas(s))
}

/// Whether an event with subsystem `sub` and pid `pid` passes a filter
/// with the given subsystem list and pid: the subsystem must be listed
/// (when a list is given) and the event must carry the requested pid
/// (when one is given).
pub open spec fn filter_accepts(subs: Option<Seq<Seq<char>>>, want_pid: Option<u32>, sub: Seq<char>, pid: Option<u32>) -> bool {
    &&& match subs {
        Some(list) => exists|i: int| 0 <= i < list.len() && list[i] == sub,
        None => true,
    }
    &&& match want_pid {
        Some(p) => pid == Some(p),
        None => true,
    }
}

proof fn lemma_ws_suffix_len(s: Seq<char>)
    ensures
        0 <= ws_suffix_len(s) <= s.len(),
        forall|k: int| s.len() - ws_suffix_len(s) <= k < s.len() ==> is_ws(#[trigger] s[k]),
        ws_suffix_len(s) < s.len() ==> !is_ws(s[s.len() - ws_suffix_len(s) - 1]),
    decreases s.len(),
{
    if s.len() > 0 && is_ws(s.last()) {
        lemma_ws_suffix_len(s.drop_last());
        assert forall|k: int| s.len() - ws_suffix_len(s) <= k < s.len() implies is_ws(#[trigger] s[k]) by {
            if k < s.len() - 1 {
                assert(s[k] == s.drop_last()[k]);
            }
        }
        if ws_suffix_len(s) < s.len() {
            assert(s[s.len() - ws_suffix_len(s) - 1] == s.drop_last()[s.drop_last().len() - ws_suffix_len(s.drop_last()) - 1]);
        }
    }
}

/// `s[start..end]` trimmed of surrounding whitespace.
fn trimmed_segment(s: &Vec<char>, start: usize, end: usize) -> (r: Vec<char>)
    requires
        start <= end <= s.len(),
    ensures
        r@ == trim_ws(s@.subrange(start as int, end as int)),
{
    let ghost seg = s@.subrange(start as int, end as int);
    let mut a = start;
    while a < end && char_is_ws(s[a])
        invariant
            start <= a <= end,
            end <= s.len(),
            forall|k: int| start <= k < a ==> is_ws(s@[k]),
        decreases end - a,
    {
        a = a + 1;
    }
    proof {
        crate::text::lemma_ws_prefix_len(seg);
        let w = ws_prefix_len(seg);
        if w < a - start {
            assert(seg[w] == s@[start + w]);
        }
        if a < end && a - start < w {
            assert(seg[a - start] == s@[a as int]);
        }
        assert(w == a - start);
    }
    if a == end {
        return Vec::new();
    }
    let mut b = end;
    while b > a && char_is_ws(s[b - 1])
        invariant
            a < end,
            a <= b <= end,
            end <= s.len(),
            forall|k: int| b <= k < end ==> is_ws(s@[k]),
        decreases b,
    {
        b = b - 1;
    }
    proof {
        lemma_ws_suffix_len(seg);
        let w = ws_suffix_len(seg);
        assert(seg[a - start] == s@[a as int]);
        assert(!is_ws(seg[a - start]));
        if w > end - b {
            assert(seg[seg.len() - (end - b) - 1] == s@[b - 1]);
        }
        if w < end - b {
            assert(seg[seg.len() - w - 1] == s@[end - w - 1]);
        }
        assert(w == end - b);
    }
    let r = sub_chars(s, a, b);
    assert(r@ =~= trim_ws(seg));
    r
}

/// Split a subsystem query value at commas, trim each piece and drop the
/// empty ones.
fn parse_subsystem_list(q: &str) -> (out: Vec<Vec<char>>)
    ensures
        out.len() == subsystem_list(q@).len(),
        forall|i: int| 0 <= i < out.len() ==> #[trigger] out@[i]@ == subsystem_list(q@)[i],
{
    let s = str_chars(q);
    let ghost pieces = split_commas(s@);
    let mut out: Vec<Vec<char>> = Vec::new();
    let mut pos: usize = 0;
    let ghost mut k: int = 0;
    let n = s.len();
    assert(s@.skip(0) =~= s@);
    loop
        invariant
            n == s.len(),
            s@ == q@,
            pos <= n,
            0 <= k <= pieces.len(),
            pieces == split_commas(s@),
            split_commas(s@.skip(pos as int)) == pieces.skip(k),
            out.len() == nonempty_trimmed(pieces.take(k)).len(),
            forall|i: int| 0 <= i < out.len() ==> #[trigger] out@[i]@ == nonempty_trimmed(pieces.take(k))[i],
        decreases n - pos,
    {
        let ghost rest = s@.skip(pos as int);
        let mut e = pos;
        while e < n && s[e] != ','
            invariant
                pos <= e <= n,
                n == s.len(),
                forall|j: int| pos <= j < e ==> s@[j] != ',',
            decreases n - e,
        {
            e = e + 1;
        }
        proof {
            crate::text::lemma_first_index_of(rest, ',');
            let f = first_index_of(rest, ',');
            if f < e - pos {
                assert(rest[f] == s@[pos + f]);
            }
            if e < n && e - pos < f {
                assert(rest[e - pos] == s@[e as int]);
            }
            assert(f == e - pos);
            assert(pieces.skip(k).len() > 0);
            assert(pieces[k] == pieces.skip(k)[0]);
            assert(rest.take(f) =~= s@.subrange(pos as int, e as int));
            assert(pieces.take(k + 1).drop_last() =~= pieces.take(k));
        }
        let piece = trimmed_segment(&s, pos, e);
        let ghost before = out@;
        if piece.len() > 0 {
            out.push(piece);
        }
        proof {
            assert(pieces.take(k + 1).last() == pieces[k]);
            assert forall|i: int| 0 <= i < out.len() implies #[trigger] out@[i]@ == nonempty_trimmed(pieces.take(k + 1))[i] by {
                if i < before.len() {
                    assert(out@[i] == before[i]);
                }
            }
        }
        if e == n {
            proof {
                assert(split_commas(rest) == seq![rest]);
                assert(pieces.skip(k).len() == 1);
                assert(pieces.take(k + 1) =~= pieces);
            }
            return out;
        }
        proof {
            let f = e - pos;
            assert(rest.skip(f + 1) =~= s@.skip(e + 1));
            assert(pieces.skip(k).drop_first() =~= pieces.skip(k + 1));
            k = k + 1;
        }
        pos = e + 1;
    }
}

/// Server-side filter of the live event stream.
pub struct EventFilter {
    subsystems: Option<Vec<Vec<char>>>,
    pid: Option<u32>,
}

impl EventFilter {
    /// The subsystem names accepted, or `None` for all.
    pub closed spec fn subsystems_view(&self) -> Option<Seq<Seq<char>>> {
        match &self.subsystems {
            Some(v) => Some(Seq::new(v.len() as nat, |i: int| v@[i]@)),
            None => None,
        }
    }

    /// The pid required, or `None` for any.
    pub closed spec fn pid_view(&self) -> Option<u32> {
        self.pid
    }

    /// The filter a stream query asks for.
    pub fn from(q: StreamQuery) -> (f: EventFilter)
        ensures
            f.subsystems_view() == match q.subsystem {
                Some(s) => Some(subsystem_list(s@)),
                None => None::<Seq<Seq<char>>>,
            },
            f.pid_view() == q.pid,
    {
        let subsystems = match &q.subsystem {
            Some(s) => {
                let list = parse_subsystem_list(s.as_str());
                Some(list)
            },
            None => None,
        };
        let f = EventFilter { subsystems, pid: q.pid };
        proof {
            if let Some(s) = q.subsystem {
                assert(f.subsystems_view()->0 =~= subsystem_list(s@));
            }
        }
        f
    }

    /// Whether `ev` passes the filter.
    pub fn matches(&self, ev: &WireEvent) -> (r: bool)
        ensures
            r == filter_accepts(self.subsystems_view(), self.pid_view(), ev.subsystem_label(), ev.pid_of()),
    {
        if let Some(subs) = &self.subsystems {
            let name = ev.subsystem();
            let mut found = false;
            let mut i: usize = 0;
            while i < subs.len()
                invariant
                    i <= subs.len(),
                    found == exists|j: int| 0 <= j < i && subs@[j]@ == name@,
                decreases subs.len() - i,
            {
                if chars_match(&subs[i], name) {
                    found = true;
                }
                i = i + 1;
            }
            if !found {
                proof {
                    let list = self.subsystems_view()->0;
                    assert forall|j: int| 0 <= j < list.len() implies list[j] != ev.subsystem_label() by {
                        assert(list[j] == subs@[j]@);
                    }
                }
                return false;
            }
            proof {
                let list = self.subsystems_view()->0;
                let j = choose|j: int| 0 <= j < i && subs@[j]@ == name@;
                assert(list[j] == subs@[j]@);
            }
        }
        if let Some(pid) = self.pid {
            match ev.pid() {
                Some(p) => {
                    if p != pid {
                        return false;
                    }
                },
                None => {
                    return false;
                },
            }
        }
        true
    }
}

} // verus!
