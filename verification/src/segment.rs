//! Byte image of the shared-memory segment.
//!
//! Every record of the snapshot has a fixed C layout (little-endian
//! integers, explicit padding fields, fixed arrays). [`ShmPod`] gives each
//! record type its byte image and the inverse reading; the snapshot image
//! is the concatenation of its parts at the documented offsets.

use vstd::bytes::{u32_to_le_bytes, u64_to_le_bytes};
use vstd::prelude::*;

use crate::events::{NetEvent, ProcessEvent, SecurityEvent};
use crate::le_bytes::{
    le16, le32, le64, lemma_read_u16, lemma_read_u32, lemma_read_u64, push_u16, push_u32,
    push_u64, read_u16, read_u32, read_u64, u16_at, u32_at, u64_at,
};

use crate::layout::{
    LoadSnapshotFixed, MetricSnapshotV3, SchedSnapshotFixed, ShmHeader, SEQ_OFFSET, SHM_MAGIC,
    SHM_VERSION, SNAPSHOT_SIZE,
};
use crate::text::{
    all_ascii, ascii_chars, ascii_string, decimal_bytes, lemma_decimal_ascii,
    lemma_padded_decimal_ascii, padded_decimal_bytes, push_decimal, push_padded_decimal,
};
use crate::{V3_MAX_BLOCK_DEVS, V3_MAX_CPU_CORES, V3_MAX_NET_IFACES, V3_MAX_PROCESSES};
use crate::metrics::{
    BlockStats, CgroupNetBytes, CpuStats, EventDropCounts, MemorySnapshot, NetIfaceStats,
    ProcessStats, SchedHistogram, SecurityEventCounts, TcpStateSnapshot,
};

verus! {

// ----- fixed arrays -----

/// The byte array whose contents are `s`.
pub open spec fn byte_array<const N: usize>(s: Seq<u8>) -> [u8; N] {
    choose|a: [u8; N]| a@ == s
}

proof fn lemma_byte_array<const N: usize>(a: [u8; N])
    ensures
        byte_array::<N>(a@) == a,
{
    let c = byte_array::<N>(a@);
    assert(c@ == a@);
    assert(c =~= a);
}

fn push_bytes(v: &mut Vec<u8>, s: &[u8])
    ensures
        final(v)@ == old(v)@ + s@,
{
    let ghost start = v@;
    let mut i: usize = 0;
    while i < s.len()
        invariant
            i <= s@.len(),
            v@ == start + s@.take(i as int),
        decreases s@.len() - i,
    {
        v.push(s[i]);
        assert(s@.take(i + 1) =~= s@.take(i as int).push(s@[i as int]));
        i = i + 1;
    }
    assert(s@.take(s@.len() as int) =~= s@);
}

fn read_byte_array<const N: usize>(b: &[u8], at: usize) -> (a: [u8; N])
    requires
        at + N <= b@.len(),
    ensures
        a == byte_array::<N>(b@.subrange(at as int, at + N)),
{
    let n = b.len();
    let mut a = [0u8; N];
    let mut i: usize = 0;
    while i < N
        invariant
            i <= N,
            at + N <= b@.len(),
            n == b@.len(),
            a@.len() == N,
            forall|k: int| 0 <= k < i ==> a@[k] == b@[at + k],
        decreases N - i,
    {
        a[i] = b[at + i];
        i = i + 1;
    }
    proof {
        assert(a@ =~= b@.subrange(at as int, at + N));
        lemma_byte_array(a);
    }
    a
}

/// Bytes of eight `u64`s in order.
pub open spec fn u64x8_bytes(a: [u64; 8]) -> Seq<u8> {
    le64(a[0]) + le64(a[1]) + le64(a[2]) + le64(a[3]) + le64(a[4]) + le64(a[5]) + le64(a[6])
        + le64(a[7])
}

/// The eight `u64`s stored at offsets 0, 8, .., 56 of `b`.
pub open spec fn u64x8_seq(b: Seq<u8>) -> Seq<u64> {
    seq![
        u64_at(b, 0),
        u64_at(b, 8),
        u64_at(b, 16),
        u64_at(b, 24),
        u64_at(b, 32),
        u64_at(b, 40),
        u64_at(b, 48),
        u64_at(b, 56),
    ]
}

/// The array of the eight `u64`s stored at the start of `b`.
pub open spec fn u64x8_from(b: Seq<u8>) -> [u64; 8] {
    choose|a: [u64; 8]| a@ == u64x8_seq(b)
}

proof fn lemma_u64x8_unique(b: Seq<u8>, r: [u64; 8])
    requires
        r@ == u64x8_seq(b),
    ensures
        u64x8_from(b) == r,
{
    let c = u64x8_from(b);
    assert(c@ == r@);
    assert(c =~= r);
}

proof fn lemma_u64x8(a: [u64; 8])
    ensures
        u64x8_bytes(a).len() == 64,
        u64x8_from(u64x8_bytes(a)) == a,
        a@ == u64x8_seq(u64x8_bytes(a)),
{
    let b = u64x8_bytes(a);
    let e = Seq::<u8>::empty();
    assert(b =~= e + le64(a[0]) + b.subrange(8, 64));
    lemma_read_u64(e, a[0], b.subrange(8, 64));
    assert(b =~= b.subrange(0, 8) + le64(a[1]) + b.subrange(16, 64));
    lemma_read_u64(b.subrange(0, 8), a[1], b.subrange(16, 64));
    assert(b =~= b.subrange(0, 16) + le64(a[2]) + b.subrange(24, 64));
    lemma_read_u64(b.subrange(0, 16), a[2], b.subrange(24, 64));
    assert(b =~= b.subrange(0, 24) + le64(a[3]) + b.subrange(32, 64));
    lemma_read_u64(b.subrange(0, 24), a[3], b.subrange(32, 64));
    assert(b =~= b.subrange(0, 32) + le64(a[4]) + b.subrange(40, 64));
    lemma_read_u64(b.subrange(0, 32), a[4], b.subrange(40, 64));
    assert(b =~= b.subrange(0, 40) + le64(a[5]) + b.subrange(48, 64));
    lemma_read_u64(b.subrange(0, 40), a[5], b.subrange(48, 64));
    assert(b =~= b.subrange(0, 48) + le64(a[6]) + b.subrange(56, 64));
    lemma_read_u64(b.subrange(0, 48), a[6], b.subrange(56, 64));
    assert(b =~= b.subrange(0, 56) + le64(a[7]) + e);
    lemma_read_u64(b.subrange(0, 56), a[7], e);
    assert(a@ =~= u64x8_seq(b));
    lemma_u64x8_unique(b, a);
}

fn push_u64x8(v: &mut Vec<u8>, a: &[u64; 8])
    ensures
        final(v)@ == old(v)@ + u64x8_bytes(*a),
{
    let ghost start = v@;
    push_u64(v, a[0]);
    push_u64(v, a[1]);
    push_u64(v, a[2]);
    push_u64(v, a[3]);
    push_u64(v, a[4]);
    push_u64(v, a[5]);
    push_u64(v, a[6]);
    push_u64(v, a[7]);
    assert(v@ =~= start + u64x8_bytes(*a));
}

fn read_u64x8(b: &[u8], at: usize) -> (r: [u64; 8])
    requires
        at + 64 <= b@.len(),
    ensures
        r == u64x8_from(b@.subrange(at as int, at + 64)),
{
    let _n = b.len();
    let r = [
        read_u64(b, at),
        read_u64(b, at + 8),
        read_u64(b, at + 16),
        read_u64(b, at + 24),
        read_u64(b, at + 32),
        read_u64(b, at + 40),
        read_u64(b, at + 48),
        read_u64(b, at + 56),
    ];
    proof {
        let w = b@.subrange(at as int, at + 64);
        assert(r@ =~= u64x8_seq(w));
        lemma_u64x8_unique(w, r);
    }
    r
}

/// Records that may be read back from raw bytes shared with the kernel
/// probes or with snapshot readers.
pub trait Sealed {}

/// The plain-old-data records of the shared-memory snapshot, the kernel
/// maps and the ring buffers: a fixed C layout of little-endian integers
/// and fixed arrays.
pub trait ShmPod: Copy + Sized + Sealed {
    /// Size in bytes of the C layout.
    spec fn pod_size() -> nat;

    /// The C layout of the value.
    spec fn pod_bytes(self) -> Seq<u8>;

    /// The value whose C layout is the first `pod_size()` bytes of `b`.
    spec fn pod_from(b: Seq<u8>) -> Self;

    /// The layout has the stated size and reads back as the value.
    proof fn lemma_pod_roundtrip(self)
        ensures
            self.pod_bytes().len() == Self::pod_size(),
            Self::pod_from(self.pod_bytes()) == self,
    ;

    fn byte_size() -> (n: usize)
        ensures
            n == Self::pod_size(),
    ;

    /// Append the C layout of the value.
    fn write_le(&self, out: &mut Vec<u8>)
        ensures
            final(out)@ == old(out)@ + self.pod_bytes(),
    ;

    /// Read a value from its C layout at byte offset `at`.
    fn read_le(b: &[u8], at: usize) -> (r: Self)
        requires
            at + Self::pod_size() <= b@.len(),
        ensures
            r == Self::pod_from(b@.subrange(at as int, at + Self::pod_size())),
    ;
}

broadcast use crate::le_bytes::group_layout_bytes;

// ----- CpuStats: 64 bytes -----

impl Sealed for CpuStats {}

impl ShmPod for CpuStats {
    open spec fn pod_size() -> nat {
        64
    }

    open spec fn pod_bytes(self) -> Seq<u8> {
        le32(self.cpu_id) + le32(self._pad) + le64(self.user_ns) + le64(self.system_ns) + le64(
            self.iowait_ns,
        ) + le64(self.irq_ns) + le64(self.softirq_ns) + le64(self.idle_ns) + le64(
            self.ctx_switches,
        )
    }

    open spec fn pod_from(b: Seq<u8>) -> Self {
        CpuStats {
            cpu_id: u32_at(b, 0),
            _pad: u32_at(b, 4),
            user_ns: u64_at(b, 8),
            system_ns: u64_at(b, 16),
            iowait_ns: u64_at(b, 24),
            irq_ns: u64_at(b, 32),
            softirq_ns: u64_at(b, 40),
            idle_ns: u64_at(b, 48),
            ctx_switches: u64_at(b, 56),
        }
    }

    proof fn lemma_pod_roundtrip(self) {
        let b = self.pod_bytes();
        let p1 = le32(self.cpu_id);
        let p2 = p1 + le32(self._pad);
        let p3 = p2 + le64(self.user_ns);
        let p4 = p3 + le64(self.system_ns);
        let p5 = p4 + le64(self.iowait_ns);
        let p6 = p5 + le64(self.irq_ns);
        let p7 = p6 + le64(self.softirq_ns);
        let p8 = p7 + le64(self.idle_ns);
        lemma_read_u32(Seq::empty(), self.cpu_id, b.subrange(4, 64));
        assert(b =~= Seq::empty() + le32(self.cpu_id) + b.subrange(4, 64));
        lemma_read_u32(p1, self._pad, b.subrange(8, 64));
        assert(b =~= p1 + le32(self._pad) + b.subrange(8, 64));
        lemma_read_u64(p2, self.user_ns, b.subrange(16, 64));
        assert(b =~= p2 + le64(self.user_ns) + b.subrange(16, 64));
        lemma_read_u64(p3, self.system_ns, b.subrange(24, 64));
        assert(b =~= p3 + le64(self.system_ns) + b.subrange(24, 64));
        lemma_read_u64(p4, self.iowait_ns, b.subrange(32, 64));
        assert(b =~= p4 + le64(self.iowait_ns) + b.subrange(32, 64));
        lemma_read_u64(p5, self.irq_ns, b.subrange(40, 64));
        assert(b =~= p5 + le64(self.irq_ns) + b.subrange(40, 64));
        lemma_read_u64(p6, self.softirq_ns, b.subrange(48, 64));
        assert(b =~= p6 + le64(self.softirq_ns) + b.subrange(48, 64));
        lemma_read_u64(p7, self.idle_ns, b.subrange(56, 64));
        assert(b =~= p7 + le64(self.idle_ns) + b.subrange(56, 64));
        lemma_read_u64(p8, self.ctx_switches, Seq::empty());
        assert(b =~= p8 + le64(self.ctx_switches) + Seq::empty());
    }

    fn byte_size() -> (n: usize) {
        64
    }

    fn write_le(&self, out: &mut Vec<u8>) {
        let mut v = u32_to_le_bytes(self.cpu_id);
        push_u32(&mut v, self._pad);
        push_u64(&mut v, self.user_ns);
        push_u64(&mut v, self.system_ns);
        push_u64(&mut v, self.iowait_ns);
        push_u64(&mut v, self.irq_ns);
        push_u64(&mut v, self.softirq_ns);
        push_u64(&mut v, self.idle_ns);
        push_u64(&mut v, self.ctx_switches);
        out.append(&mut v);
    }

    fn read_le(b: &[u8], at: usize) -> (r: Self) {
        let _n = b.len();
        CpuStats {
            cpu_id: read_u32(b, at),
            _pad: read_u32(b, at + 4),
            user_ns: read_u64(b, at + 8),
            system_ns: read_u64(b, at + 16),
            iowait_ns: read_u64(b, at + 24),
            irq_ns: read_u64(b, at + 32),
            softirq_ns: read_u64(b, at + 40),
            idle_ns: read_u64(b, at + 48),
            ctx_switches: read_u64(b, at + 56),
        }
    }
}

// ----- ShmHeader: 64 bytes -----
impl Sealed for ShmHeader {}
impl ShmPod for ShmHeader {
    open spec fn pod_size() -> nat {
        64
    }

    open spec fn pod_bytes(self) -> Seq<u8> {
        le64(self.magic)
            + le32(self.version)
            + le32(self._pad0)
            + le64(self.sequence)
            + le64(self.timestamp_ns_wall)
            + le32(self.snapshot_size)
            + le32(self._pad1)
            + self._reserved@
    }

    open spec fn pod_from(b: Seq<u8>) -> Self {
        ShmHeader {
            magic: u64_at(b, 0),
            version: u32_at(b, 8),
            _pad0: u32_at(b, 12),
            sequence: u64_at(b, 16),
            timestamp_ns_wall: u64_at(b, 24),
            snapshot_size: u32_at(b, 32),
            _pad1: u32_at(b, 36),
            _reserved: byte_array(b.subrange(40, 64)),
        }
    }

    proof fn lemma_pod_roundtrip(self) {
        let b = self.pod_bytes();
        assert(b =~= Seq::<u8>::empty() + le64(self.magic) + b.subrange(8, 64));
        lemma_read_u64(Seq::<u8>::empty(), self.magic, b.subrange(8, 64));
        assert(b =~= (le64(self.magic)) + le32(self.version) + b.subrange(12, 64));
        lemma_read_u32((le64(self.magic)), self.version, b.subrange(12, 64));
        assert(b =~= (le64(self.magic) + le32(self.version)) + le32(self._pad0) + b.subrange(16, 64));
        lemma_read_u32((le64(self.magic) + le32(self.version)), self._pad0, b.subrange(16, 64));
        assert(b =~= (le64(self.magic) + le32(self.version) + le32(self._pad0)) + le64(self.sequence) + b.subrange(24, 64));
        lemma_read_u64((le64(self.magic) + le32(self.version) + le32(self._pad0)), self.sequence, b.subrange(24, 64));
        assert(b =~= (le64(self.magic) + le32(self.version) + le32(self._pad0) + le64(self.sequence)) + le64(self.timestamp_ns_wall) + b.subrange(32, 64));
        lemma_read_u64((le64(self.magic) + le32(self.version) + le32(self._pad0) + le64(self.sequence)), self.timestamp_ns_wall, b.subrange(32, 64));
        assert(b =~= (le64(self.magic) + le32(self.version) + le32(self._pad0) + le64(self.sequence) + le64(self.timestamp_ns_wall)) + le32(self.snapshot_size) + b.subrange(36, 64));
        lemma_read_u32((le64(self.magic) + le32(self.version) + le32(self._pad0) + le64(self.sequence) + le64(self.timestamp_ns_wall)), self.snapshot_size, b.subrange(36, 64));
        assert(b =~= (le64(self.magic) + le32(self.version) + le32(self._pad0) + le64(self.sequence) + le64(self.timestamp_ns_wall) + le32(self.snapshot_size)) + le32(self._pad1) + b.subrange(40, 64));
        lemma_read_u32((le64(self.magic) + le32(self.version) + le32(self._pad0) + le64(self.sequence) + le64(self.timestamp_ns_wall) + le32(self.snapshot_size)), self._pad1, b.subrange(40, 64));
        assert(b.subrange(40, 64) =~= self._reserved@);
        lemma_byte_array(self._reserved);
    }

    fn byte_size() -> (n: usize) {
        64
    }

    fn write_le(&self, out: &mut Vec<u8>) {
        let mut v = u64_to_le_bytes(self.magic);
        push_u32(&mut v, self.version);
        push_u32(&mut v, self._pad0);
        push_u64(&mut v, self.sequence);
        push_u64(&mut v, self.timestamp_ns_wall);
        push_u32(&mut v, self.snapshot_size);
        push_u32(&mut v, self._pad1);
        push_bytes(&mut v, &self._reserved);
        out.append(&mut v);
    }

    fn read_le(b: &[u8], at: usize) -> (r: Self) {
        let _n = b.len();
        let _reserved: [u8; 24] = read_byte_array(b, at + 40);
        proof {
            assert(b@.subrange(at as int, at + 64).subrange(40, 64) =~= b@.subrange(at + 40, at + 64));
        }
        ShmHeader {
            magic: read_u64(b, at),
            version: read_u32(b, at + 8),
            _pad0: read_u32(b, at + 12),
            sequence: read_u64(b, at + 16),
            timestamp_ns_wall: read_u64(b, at + 24),
            snapshot_size: read_u32(b, at + 32),
            _pad1: read_u32(b, at + 36),
            _reserved,
        }
    }
}

// ----- MemorySnapshot: 88 bytes -----
impl Sealed for MemorySnapshot {}
impl ShmPod for MemorySnapshot {
    open spec fn pod_size() -> nat {
        88
    }

    open spec fn pod_bytes(self) -> Seq<u8> {
        le64(self.total_bytes)
            + le64(self.free_bytes)
            + le64(self.cached_bytes)
            + le64(self.buffered_bytes)
            + le64(self.slab_bytes)
            + le64(self.swap_used_bytes)
            + le64(self.swap_free_bytes)
            + le64(self.page_faults_minor)
            + le64(self.page_faults_major)
            + le32(self.psi_some_pct_x100)
            + le32(self.psi_full_pct_x100)
            + le64(self.oom_kills_total)
    }

    open spec fn pod_from(b: Seq<u8>) -> Self {
        MemorySnapshot {
            total_bytes: u64_at(b, 0),
            free_bytes: u64_at(b, 8),
            cached_bytes: u64_at(b, 16),
            buffered_bytes: u64_at(b, 24),
            slab_bytes: u64_at(b, 32),
            swap_used_bytes: u64_at(b, 40),
            swap_free_bytes: u64_at(b, 48),
            page_faults_minor: u64_at(b, 56),
            page_faults_major: u64_at(b, 64),
            psi_some_pct_x100: u32_at(b, 72),
            psi_full_pct_x100: u32_at(b, 76),
            oom_kills_total: u64_at(b, 80),
        }
    }

    proof fn lemma_pod_roundtrip(self) {
        let b = self.pod_bytes();
        assert(b =~= Seq::<u8>::empty() + le64(self.total_bytes) + b.subrange(8, 88));
        lemma_read_u64(Seq::<u8>::empty(), self.total_bytes, b.subrange(8, 88));
        assert(b =~= (le64(self.total_bytes)) + le64(self.free_bytes) + b.subrange(16, 88));
        lemma_read_u64((le64(self.total_bytes)), self.free_bytes, b.subrange(16, 88));
        assert(b =~= (le64(self.total_bytes) + le64(self.free_bytes)) + le64(self.cached_bytes) + b.subrange(24, 88));
        lemma_read_u64((le64(self.total_bytes) + le64(self.free_bytes)), self.cached_bytes, b.subrange(24, 88));
        assert(b =~= (le64(self.total_bytes) + le64(self.free_bytes) + le64(self.cached_bytes)) + le64(self.buffered_bytes) + b.subrange(32, 88));
        lemma_read_u64((le64(self.total_bytes) + le64(self.free_bytes) + le64(self.cached_bytes)), self.buffered_bytes, b.subrange(32, 88));
        assert(b =~= (le64(self.total_bytes) + le64(self.free_bytes) + le64(self.cached_bytes) + le64(self.buffered_bytes)) + le64(self.slab_bytes) + b.subrange(40, 88));
        lemma_read_u64((le64(self.total_bytes) + le64(self.free_bytes) + le64(self.cached_bytes) + le64(self.buffered_bytes)), self.slab_bytes, b.subrange(40, 88));
        assert(b =~= (le64(self.total_bytes) + le64(self.free_bytes) + le64(self.cached_bytes) + le64(self.buffered_bytes) + le64(self.slab_bytes)) + le64(self.swap_used_bytes) + b.subrange(48, 88));
        lemma_read_u64((le64(self.total_bytes) + le64(self.free_bytes) + le64(self.cached_bytes) + le64(self.buffered_bytes) + le64(self.slab_bytes)), self.swap_used_bytes, b.subrange(48, 88));
        assert(b =~= (le64(self.total_bytes) + le64(self.free_bytes) + le64(self.cached_bytes) + le64(self.buffered_bytes) + le64(self.slab_bytes) + le64(self.swap_used_bytes)) + le64(self.swap_free_bytes) + b.subrange(56, 88));
        lemma_read_u64((le64(self.total_bytes) + le64(self.free_bytes) + le64(self.cached_bytes) + le64(self.buffered_bytes) + le64(self.slab_bytes) + le64(self.swap_used_bytes)), self.swap_free_bytes, b.subrange(56, 88));
        assert(b =~= (le64(self.total_bytes) + le64(self.free_bytes) + le64(self.cached_bytes) + le64(self.buffered_bytes) + le64(self.slab_bytes) + le64(self.swap_used_bytes) + le64(self.swap_free_bytes)) + le64(self.page_faults_minor) + b.subrange(64, 88));
        lemma_read_u64((le64(self.total_bytes) + le64(self.free_bytes) + le64(self.cached_bytes) + le64(self.buffered_bytes) + le64(self.slab_bytes) + le64(self.swap_used_bytes) + le64(self.swap_free_bytes)), self.page_faults_minor, b.subrange(64, 88));
        assert(b =~= (le64(self.total_bytes) + le64(self.free_bytes) + le64(self.cached_bytes) + le64(self.buffered_bytes) + le64(self.slab_bytes) + le64(self.swap_used_bytes) + le64(self.swap_free_bytes) + le64(self.page_faults_minor)) + le64(self.page_faults_major) + b.subrange(72, 88));
        lemma_read_u64((le64(self.total_bytes) + le64(self.free_bytes) + le64(self.cached_bytes) + le64(self.buffered_bytes) + le64(self.slab_bytes) + le64(self.swap_used_bytes) + le64(self.swap_free_bytes) + le64(self.page_faults_minor)), self.page_faults_major, b.subrange(72, 88));
        assert(b =~= (le64(self.total_bytes) + le64(self.free_bytes) + le64(self.cached_bytes) + le64(self.buffered_bytes) + le64(self.slab_bytes) + le64(self.swap_used_bytes) + le64(self.swap_free_bytes) + le64(self.page_faults_minor) + le64(self.page_faults_major)) + le32(self.psi_some_pct_x100) + b.subrange(76, 88));
        lemma_read_u32((le64(self.total_bytes) + le64(self.free_bytes) + le64(self.cached_bytes) + le64(self.buffered_bytes) + le64(self.slab_bytes) + le64(self.swap_used_bytes) + le64(self.swap_free_bytes) + le64(self.page_faults_minor) + le64(self.page_faults_major)), self.psi_some_pct_x100, b.subrange(76, 88));
        assert(b =~= (le64(self.total_bytes) + le64(self.free_bytes) + le64(self.cached_bytes) + le64(self.buffered_bytes) + le64(self.slab_bytes) + le64(self.swap_used_bytes) + le64(self.swap_free_bytes) + le64(self.page_faults_minor) + le64(self.page_faults_major) + le32(self.psi_some_pct_x100)) + le32(self.psi_full_pct_x100) + b.subrange(80, 88));
        lemma_read_u32((le64(self.total_bytes) + le64(self.free_bytes) + le64(self.cached_bytes) + le64(self.buffered_bytes) + le64(self.slab_bytes) + le64(self.swap_used_bytes) + le64(self.swap_free_bytes) + le64(self.page_faults_minor) + le64(self.page_faults_major) + le32(self.psi_some_pct_x100)), self.psi_full_pct_x100, b.subrange(80, 88));
        assert(b =~= (le64(self.total_bytes) + le64(self.free_bytes) + le64(self.cached_bytes) + le64(self.buffered_bytes) + le64(self.slab_bytes) + le64(self.swap_used_bytes) + le64(self.swap_free_bytes) + le64(self.page_faults_minor) + le64(self.page_faults_major) + le32(self.psi_some_pct_x100) + le32(self.psi_full_pct_x100)) + le64(self.oom_kills_total) + b.subrange(88, 88));
        lemma_read_u64((le64(self.total_bytes) + le64(self.free_bytes) + le64(self.cached_bytes) + le64(self.buffered_bytes) + le64(self.slab_bytes) + le64(self.swap_used_bytes) + le64(self.swap_free_bytes) + le64(self.page_faults_minor) + le64(self.page_faults_major) + le32(self.psi_some_pct_x100) + le32(self.psi_full_pct_x100)), self.oom_kills_total, b.subrange(88, 88));
    }

    fn byte_size() -> (n: usize) {
        88
    }

    fn write_le(&self, out: &mut Vec<u8>) {
        let mut v = u64_to_le_bytes(self.total_bytes);
        push_u64(&mut v, self.free_bytes);
        push_u64(&mut v, self.cached_bytes);
        push_u64(&mut v, self.buffered_bytes);
        push_u64(&mut v, self.slab_bytes);
        push_u64(&mut v, self.swap_used_bytes);
        push_u64(&mut v, self.swap_free_bytes);
        push_u64(&mut v, self.page_faults_minor);
        push_u64(&mut v, self.page_faults_major);
        push_u32(&mut v, self.psi_some_pct_x100);
        push_u32(&mut v, self.psi_full_pct_x100);
        push_u64(&mut v, self.oom_kills_total);
        out.append(&mut v);
    }

    fn read_le(b: &[u8], at: usize) -> (r: Self) {
        let _n = b.len();
        MemorySnapshot {
            total_bytes: read_u64(b, at),
            free_bytes: read_u64(b, at + 8),
            cached_bytes: read_u64(b, at + 16),
            buffered_bytes: read_u64(b, at + 24),
            slab_bytes: read_u64(b, at + 32),
            swap_used_bytes: read_u64(b, at + 40),
            swap_free_bytes: read_u64(b, at + 48),
            page_faults_minor: read_u64(b, at + 56),
            page_faults_major: read_u64(b, at + 64),
            psi_some_pct_x100: read_u32(b, at + 72),
            psi_full_pct_x100: read_u32(b, at + 76),
            oom_kills_total: read_u64(b, at + 80),
        }
    }
}

// ----- LoadSnapshotFixed: 24 bytes -----
impl Sealed for LoadSnapshotFixed {}
impl ShmPod for LoadSnapshotFixed {
    open spec fn pod_size() -> nat {
        24
    }

    open spec fn pod_bytes(self) -> Seq<u8> {
        le64(self.load_1_bits)
            + le64(self.load_5_bits)
            + le64(self.load_15_bits)
    }

    open spec fn pod_from(b: Seq<u8>) -> Self {
        LoadSnapshotFixed {
            load_1_bits: u64_at(b, 0),
            load_5_bits: u64_at(b, 8),
            load_15_bits: u64_at(b, 16),
        }
    }

    proof fn lemma_pod_roundtrip(self) {
        let b = self.pod_bytes();
        assert(b =~= Seq::<u8>::empty() + le64(self.load_1_bits) + b.subrange(8, 24));
        lemma_read_u64(Seq::<u8>::empty(), self.load_1_bits, b.subrange(8, 24));
        assert(b =~= (le64(self.load_1_bits)) + le64(self.load_5_bits) + b.subrange(16, 24));
        lemma_read_u64((le64(self.load_1_bits)), self.load_5_bits, b.subrange(16, 24));
        assert(b =~= (le64(self.load_1_bits) + le64(self.load_5_bits)) + le64(self.load_15_bits) + b.subrange(24, 24));
        lemma_read_u64((le64(self.load_1_bits) + le64(self.load_5_bits)), self.load_15_bits, b.subrange(24, 24));
    }

    fn byte_size() -> (n: usize) {
        24
    }

    fn write_le(&self, out: &mut Vec<u8>) {
        let mut v = u64_to_le_bytes(self.load_1_bits);
        push_u64(&mut v, self.load_5_bits);
        push_u64(&mut v, self.load_15_bits);
        out.append(&mut v);
    }

    fn read_le(b: &[u8], at: usize) -> (r: Self) {
        let _n = b.len();
        LoadSnapshotFixed {
            load_1_bits: read_u64(b, at),
            load_5_bits: read_u64(b, at + 8),
            load_15_bits: read_u64(b, at + 16),
        }
    }
}

// ----- SchedHistogram: 88 bytes -----
impl Sealed for SchedHistogram {}
impl ShmPod for SchedHistogram {
    open spec fn pod_size() -> nat {
        88
    }

    open spec fn pod_bytes(self) -> Seq<u8> {
        u64x8_bytes(self.buckets)
            + le64(self.total_count)
            + le64(self.total_latency_ns)
            + le64(self.max_latency_ns)
    }

    open spec fn pod_from(b: Seq<u8>) -> Self {
        SchedHistogram {
            buckets: u64x8_from(b.subrange(0, 64)),
            total_count: u64_at(b, 64),
            total_latency_ns: u64_at(b, 72),
            max_latency_ns: u64_at(b, 80),
        }
    }

    proof fn lemma_pod_roundtrip(self) {
        let b = self.pod_bytes();
        assert(b.subrange(0, 64) =~= u64x8_bytes(self.buckets));
        lemma_u64x8(self.buckets);
        assert(b =~= (u64x8_bytes(self.buckets)) + le64(self.total_count) + b.subrange(72, 88));
        lemma_read_u64((u64x8_bytes(self.buckets)), self.total_count, b.subrange(72, 88));
        assert(b =~= (u64x8_bytes(self.buckets) + le64(self.total_count)) + le64(self.total_latency_ns) + b.subrange(80, 88));
        lemma_read_u64((u64x8_bytes(self.buckets) + le64(self.total_count)), self.total_latency_ns, b.subrange(80, 88));
        assert(b =~= (u64x8_bytes(self.buckets) + le64(self.total_count) + le64(self.total_latency_ns)) + le64(self.max_latency_ns) + b.subrange(88, 88));
        lemma_read_u64((u64x8_bytes(self.buckets) + le64(self.total_count) + le64(self.total_latency_ns)), self.max_latency_ns, b.subrange(88, 88));
    }

    fn byte_size() -> (n: usize) {
        88
    }

    fn write_le(&self, out: &mut Vec<u8>) {
        let mut v: Vec<u8> = Vec::new();
        push_u64x8(&mut v, &self.buckets);
        push_u64(&mut v, self.total_count);
        push_u64(&mut v, self.total_latency_ns);
        push_u64(&mut v, self.max_latency_ns);
        proof {
            assert(v@ =~= u64x8_bytes(self.buckets) + le64(self.total_count) + le64(self.total_latency_ns) + le64(self.max_latency_ns));
        }
        out.append(&mut v);
    }

    fn read_le(b: &[u8], at: usize) -> (r: Self) {
        let _n = b.len();
        let buckets = read_u64x8(b, at + 0);
        proof {
            assert(b@.subrange(at as int, at + 88).subrange(0, 64) =~= b@.subrange(at + 0, at + 64));
        }
        SchedHistogram {
            buckets,
            total_count: read_u64(b, at + 64),
            total_latency_ns: read_u64(b, at + 72),
            max_latency_ns: read_u64(b, at + 80),
        }
    }
}

// ----- SchedSnapshotFixed: 112 bytes -----
impl Sealed for SchedSnapshotFixed {}
impl ShmPod for SchedSnapshotFixed {
    open spec fn pod_size() -> nat {
        112
    }

    open spec fn pod_bytes(self) -> Seq<u8> {
        self.histogram.pod_bytes()
            + le64(self.p50_ns)
            + le64(self.p95_ns)
            + le64(self.p99_ns)
    }

    open spec fn pod_from(b: Seq<u8>) -> Self {
        SchedSnapshotFixed {
            histogram: SchedHistogram::pod_from(b.subrange(0, 88)),
            p50_ns: u64_at(b, 88),
            p95_ns: u64_at(b, 96),
            p99_ns: u64_at(b, 104),
        }
    }

    proof fn lemma_pod_roundtrip(self) {
        let b = self.pod_bytes();
        assert(b.subrange(0, 88) =~= self.histogram.pod_bytes());
        self.histogram.lemma_pod_roundtrip();
        assert(b =~= (self.histogram.pod_bytes()) + le64(self.p50_ns) + b.subrange(96, 112));
        lemma_read_u64((self.histogram.pod_bytes()), self.p50_ns, b.subrange(96, 112));
        assert(b =~= (self.histogram.pod_bytes() + le64(self.p50_ns)) + le64(self.p95_ns) + b.subrange(104, 112));
        lemma_read_u64((self.histogram.pod_bytes() + le64(self.p50_ns)), self.p95_ns, b.subrange(104, 112));
        assert(b =~= (self.histogram.pod_bytes() + le64(self.p50_ns) + le64(self.p95_ns)) + le64(self.p99_ns) + b.subrange(112, 112));
        lemma_read_u64((self.histogram.pod_bytes() + le64(self.p50_ns) + le64(self.p95_ns)), self.p99_ns, b.subrange(112, 112));
    }

    fn byte_size() -> (n: usize) {
        112
    }

    fn write_le(&self, out: &mut Vec<u8>) {
        let mut v: Vec<u8> = Vec::new();
        self.histogram.write_le(&mut v);
        push_u64(&mut v, self.p50_ns);
        push_u64(&mut v, self.p95_ns);
        push_u64(&mut v, self.p99_ns);
        proof {
            assert(v@ =~= self.histogram.pod_bytes() + le64(self.p50_ns) + le64(self.p95_ns) + le64(self.p99_ns));
        }
        out.append(&mut v);
    }

    fn read_le(b: &[u8], at: usize) -> (r: Self) {
        let _n = b.len();
        let histogram = SchedHistogram::read_le(b, at + 0);
        proof {
            assert(b@.subrange(at as int, at + 112).subrange(0, 88) =~= b@.subrange(at + 0, at + 88));
        }
        SchedSnapshotFixed {
            histogram,
            p50_ns: read_u64(b, at + 88),
            p95_ns: read_u64(b, at + 96),
            p99_ns: read_u64(b, at + 104),
        }
    }
}

// ----- TcpStateSnapshot: 96 bytes -----
impl Sealed for TcpStateSnapshot {}
impl ShmPod for TcpStateSnapshot {
    open spec fn pod_size() -> nat {
        96
    }

    open spec fn pod_bytes(self) -> Seq<u8> {
        le64(self.established)
            + le64(self.syn_sent)
            + le64(self.syn_recv)
            + le64(self.fin_wait1)
            + le64(self.fin_wait2)
            + le64(self.time_wait)
            + le64(self.close_wait)
            + le64(self.listen)
            + le64(self.listen_overflows)
            + le64(self.retransmits)
            + le64(self.resets_in)
            + le64(self.resets_out)
    }

    open spec fn pod_from(b: Seq<u8>) -> Self {
        TcpStateSnapshot {
            established: u64_at(b, 0),
            syn_sent: u64_at(b, 8),
            syn_recv: u64_at(b, 16),
            fin_wait1: u64_at(b, 24),
            fin_wait2: u64_at(b, 32),
            time_wait: u64_at(b, 40),
            close_wait: u64_at(b, 48),
            listen: u64_at(b, 56),
            listen_overflows: u64_at(b, 64),
            retransmits: u64_at(b, 72),
            resets_in: u64_at(b, 80),
            resets_out: u64_at(b, 88),
        }
    }

    proof fn lemma_pod_roundtrip(self) {
        let b = self.pod_bytes();
        assert(b =~= Seq::<u8>::empty() + le64(self.established) + b.subrange(8, 96));
        lemma_read_u64(Seq::<u8>::empty(), self.established, b.subrange(8, 96));
        assert(b =~= (le64(self.established)) + le64(self.syn_sent) + b.subrange(16, 96));
        lemma_read_u64((le64(self.established)), self.syn_sent, b.subrange(16, 96));
        assert(b =~= (le64(self.established) + le64(self.syn_sent)) + le64(self.syn_recv) + b.subrange(24, 96));
        lemma_read_u64((le64(self.established) + le64(self.syn_sent)), self.syn_recv, b.subrange(24, 96));
        assert(b =~= (le64(self.established) + le64(self.syn_sent) + le64(self.syn_recv)) + le64(self.fin_wait1) + b.subrange(32, 96));
        lemma_read_u64((le64(self.established) + le64(self.syn_sent) + le64(self.syn_recv)), self.fin_wait1, b.subrange(32, 96));
        assert(b =~= (le64(self.established) + le64(self.syn_sent) + le64(self.syn_recv) + le64(self.fin_wait1)) + le64(self.fin_wait2) + b.subrange(40, 96));
        lemma_read_u64((le64(self.established) + le64(self.syn_sent) + le64(self.syn_recv) + le64(self.fin_wait1)), self.fin_wait2, b.subrange(40, 96));
        assert(b =~= (le64(self.established) + le64(self.syn_sent) + le64(self.syn_recv) + le64(self.fin_wait1) + le64(self.fin_wait2)) + le64(self.time_wait) + b.subrange(48, 96));
        lemma_read_u64((le64(self.established) + le64(self.syn_sent) + le64(self.syn_recv) + le64(self.fin_wait1) + le64(self.fin_wait2)), self.time_wait, b.subrange(48, 96));
        assert(b =~= (le64(self.established) + le64(self.syn_sent) + le64(self.syn_recv) + le64(self.fin_wait1) + le64(self.fin_wait2) + le64(self.time_wait)) + le64(self.close_wait) + b.subrange(56, 96));
        lemma_read_u64((le64(self.established) + le64(self.syn_sent) + le64(self.syn_recv) + le64(self.fin_wait1) + le64(self.fin_wait2) + le64(self.time_wait)), self.close_wait, b.subrange(56, 96));
        assert(b =~= (le64(self.established) + le64(self.syn_sent) + le64(self.syn_recv) + le64(self.fin_wait1) + le64(self.fin_wait2) + le64(self.time_wait) + le64(self.close_wait)) + le64(self.listen) + b.subrange(64, 96));
        lemma_read_u64((le64(self.established) + le64(self.syn_sent) + le64(self.syn_recv) + le64(self.fin_wait1) + le64(self.fin_wait2) + le64(self.time_wait) + le64(self.close_wait)), self.listen, b.subrange(64, 96));
        assert(b =~= (le64(self.established) + le64(self.syn_sent) + le64(self.syn_recv) + le64(self.fin_wait1) + le64(self.fin_wait2) + le64(self.time_wait) + le64(self.close_wait) + le64(self.listen)) + le64(self.listen_overflows) + b.subrange(72, 96));
        lemma_read_u64((le64(self.established) + le64(self.syn_sent) + le64(self.syn_recv) + le64(self.fin_wait1) + le64(self.fin_wait2) + le64(self.time_wait) + le64(self.close_wait) + le64(self.listen)), self.listen_overflows, b.subrange(72, 96));
        assert(b =~= (le64(self.established) + le64(self.syn_sent) + le64(self.syn_recv) + le64(self.fin_wait1) + le64(self.fin_wait2) + le64(self.time_wait) + le64(self.close_wait) + le64(self.listen) + le64(self.listen_overflows)) + le64(self.retransmits) + b.subrange(80, 96));
        lemma_read_u64((le64(self.established) + le64(self.syn_sent) + le64(self.syn_recv) + le64(self.fin_wait1) + le64(self.fin_wait2) + le64(self.time_wait) + le64(self.close_wait) + le64(self.listen) + le64(self.listen_overflows)), self.retransmits, b.subrange(80, 96));
        assert(b =~= (le64(self.established) + le64(self.syn_sent) + le64(self.syn_recv) + le64(self.fin_wait1) + le64(self.fin_wait2) + le64(self.time_wait) + le64(self.close_wait) + le64(self.listen) + le64(self.listen_overflows) + le64(self.retransmits)) + le64(self.resets_in) + b.subrange(88, 96));
        lemma_read_u64((le64(self.established) + le64(self.syn_sent) + le64(self.syn_recv) + le64(self.fin_wait1) + le64(self.fin_wait2) + le64(self.time_wait) + le64(self.close_wait) + le64(self.listen) + le64(self.listen_overflows) + le64(self.retransmits)), self.resets_in, b.subrange(88, 96));
        assert(b =~= (le64(self.established) + le64(self.syn_sent) + le64(self.syn_recv) + le64(self.fin_wait1) + le64(self.fin_wait2) + le64(self.time_wait) + le64(self.close_wait) + le64(self.listen) + le64(self.listen_overflows) + le64(self.retransmits) + le64(self.resets_in)) + le64(self.resets_out) + b.subrange(96, 96));
        lemma_read_u64((le64(self.established) + le64(self.syn_sent) + le64(self.syn_recv) + le64(self.fin_wait1) + le64(self.fin_wait2) + le64(self.time_wait) + le64(self.close_wait) + le64(self.listen) + le64(self.listen_overflows) + le64(self.retransmits) + le64(self.resets_in)), self.resets_out, b.subrange(96, 96));
    }

    fn byte_size() -> (n: usize) {
        96
    }

    fn write_le(&self, out: &mut Vec<u8>) {
        let mut v = u64_to_le_bytes(self.established);
        push_u64(&mut v, self.syn_sent);
        push_u64(&mut v, self.syn_recv);
        push_u64(&mut v, self.fin_wait1);
        push_u64(&mut v, self.fin_wait2);
        push_u64(&mut v, self.time_wait);
        push_u64(&mut v, self.close_wait);
        push_u64(&mut v, self.listen);
        push_u64(&mut v, self.listen_overflows);
        push_u64(&mut v, self.retransmits);
        push_u64(&mut v, self.resets_in);
        push_u64(&mut v, self.resets_out);
        out.append(&mut v);
    }

    fn read_le(b: &[u8], at: usize) -> (r: Self) {
        let _n = b.len();
        TcpStateSnapshot {
            established: read_u64(b, at),
            syn_sent: read_u64(b, at + 8),
            syn_recv: read_u64(b, at + 16),
            fin_wait1: read_u64(b, at + 24),
            fin_wait2: read_u64(b, at + 32),
            time_wait: read_u64(b, at + 40),
            close_wait: read_u64(b, at + 48),
            listen: read_u64(b, at + 56),
            listen_overflows: read_u64(b, at + 64),
            retransmits: read_u64(b, at + 72),
            resets_in: read_u64(b, at + 80),
            resets_out: read_u64(b, at + 88),
        }
    }
}

// ----- SecurityEventCounts: 48 bytes -----
impl Sealed for SecurityEventCounts {}
impl ShmPod for SecurityEventCounts {
    open spec fn pod_size() -> nat {
        48
    }

    open spec fn pod_bytes(self) -> Seq<u8> {
        le64(self.ptrace)
            + le64(self.memfd_create)
            + le64(self.prctl)
            + le64(self.setuid)
            + le64(self.exec_anomaly)
            + le64(self.capability_use)
    }

    open spec fn pod_from(b: Seq<u8>) -> Self {
        SecurityEventCounts {
            ptrace: u64_at(b, 0),
            memfd_create: u64_at(b, 8),
            prctl: u64_at(b, 16),
            setuid: u64_at(b, 24),
            exec_anomaly: u64_at(b, 32),
            capability_use: u64_at(b, 40),
        }
    }

    proof fn lemma_pod_roundtrip(self) {
        let b = self.pod_bytes();
        assert(b =~= Seq::<u8>::empty() + le64(self.ptrace) + b.subrange(8, 48));
        lemma_read_u64(Seq::<u8>::empty(), self.ptrace, b.subrange(8, 48));
        assert(b =~= (le64(self.ptrace)) + le64(self.memfd_create) + b.subrange(16, 48));
        lemma_read_u64((le64(self.ptrace)), self.memfd_create, b.subrange(16, 48));
        assert(b =~= (le64(self.ptrace) + le64(self.memfd_create)) + le64(self.prctl) + b.subrange(24, 48));
        lemma_read_u64((le64(self.ptrace) + le64(self.memfd_create)), self.prctl, b.subrange(24, 48));
        assert(b =~= (le64(self.ptrace) + le64(self.memfd_create) + le64(self.prctl)) + le64(self.setuid) + b.subrange(32, 48));
        lemma_read_u64((le64(self.ptrace) + le64(self.memfd_create) + le64(self.prctl)), self.setuid, b.subrange(32, 48));
        assert(b =~= (le64(self.ptrace) + le64(self.memfd_create) + le64(self.prctl) + le64(self.setuid)) + le64(self.exec_anomaly) + b.subrange(40, 48));
        lemma_read_u64((le64(self.ptrace) + le64(self.memfd_create) + le64(self.prctl) + le64(self.setuid)), self.exec_anomaly, b.subrange(40, 48));
        assert(b =~= (le64(self.ptrace) + le64(self.memfd_create) + le64(self.prctl) + le64(self.setuid) + le64(self.exec_anomaly)) + le64(self.capability_use) + b.subrange(48, 48));
        lemma_read_u64((le64(self.ptrace) + le64(self.memfd_create) + le64(self.prctl) + le64(self.setuid) + le64(self.exec_anomaly)), self.capability_use, b.subrange(48, 48));
    }

    fn byte_size() -> (n: usize) {
        48
    }

    fn write_le(&self, out: &mut Vec<u8>) {
        let mut v = u64_to_le_bytes(self.ptrace);
        push_u64(&mut v, self.memfd_create);
        push_u64(&mut v, self.prctl);
        push_u64(&mut v, self.setuid);
        push_u64(&mut v, self.exec_anomaly);
        push_u64(&mut v, self.capability_use);
        out.append(&mut v);
    }

    fn read_le(b: &[u8], at: usize) -> (r: Self) {
        let _n = b.len();
        SecurityEventCounts {
            ptrace: read_u64(b, at),
            memfd_create: read_u64(b, at + 8),
            prctl: read_u64(b, at + 16),
            setuid: read_u64(b, at + 24),
            exec_anomaly: read_u64(b, at + 32),
            capability_use: read_u64(b, at + 40),
        }
    }
}

// ----- NetIfaceStats: 72 bytes -----
impl Sealed for NetIfaceStats {}
impl ShmPod for NetIfaceStats {
    open spec fn pod_size() -> nat {
        72
    }

    open spec fn pod_bytes(self) -> Seq<u8> {
        le32(self.iface_idx)
            + le32(self._pad)
            + le64(self.rx_bytes)
            + le64(self.tx_bytes)
            + le64(self.rx_packets)
            + le64(self.tx_packets)
            + le64(self.rx_drops)
            + le64(self.tx_drops)
            + le64(self.rx_errors)
            + le64(self.tx_errors)
    }

    open spec fn pod_from(b: Seq<u8>) -> Self {
        NetIfaceStats {
            iface_idx: u32_at(b, 0),
            _pad: u32_at(b, 4),
            rx_bytes: u64_at(b, 8),
            tx_bytes: u64_at(b, 16),
            rx_packets: u64_at(b, 24),
            tx_packets: u64_at(b, 32),
            rx_drops: u64_at(b, 40),
            tx_drops: u64_at(b, 48),
            rx_errors: u64_at(b, 56),
            tx_errors: u64_at(b, 64),
        }
    }

    proof fn lemma_pod_roundtrip(self) {
        let b = self.pod_bytes();
        assert(b =~= Seq::<u8>::empty() + le32(self.iface_idx) + b.subrange(4, 72));
        lemma_read_u32(Seq::<u8>::empty(), self.iface_idx, b.subrange(4, 72));
        assert(b =~= (le32(self.iface_idx)) + le32(self._pad) + b.subrange(8, 72));
        lemma_read_u32((le32(self.iface_idx)), self._pad, b.subrange(8, 72));
        assert(b =~= (le32(self.iface_idx) + le32(self._pad)) + le64(self.rx_bytes) + b.subrange(16, 72));
        lemma_read_u64((le32(self.iface_idx) + le32(self._pad)), self.rx_bytes, b.subrange(16, 72));
        assert(b =~= (le32(self.iface_idx) + le32(self._pad) + le64(self.rx_bytes)) + le64(self.tx_bytes) + b.subrange(24, 72));
        lemma_read_u64((le32(self.iface_idx) + le32(self._pad) + le64(self.rx_bytes)), self.tx_bytes, b.subrange(24, 72));
        assert(b =~= (le32(self.iface_idx) + le32(self._pad) + le64(self.rx_bytes) + le64(self.tx_bytes)) + le64(self.rx_packets) + b.subrange(32, 72));
        lemma_read_u64((le32(self.iface_idx) + le32(self._pad) + le64(self.rx_bytes) + le64(self.tx_bytes)), self.rx_packets, b.subrange(32, 72));
        assert(b =~= (le32(self.iface_idx) + le32(self._pad) + le64(self.rx_bytes) + le64(self.tx_bytes) + le64(self.rx_packets)) + le64(self.tx_packets) + b.subrange(40, 72));
        lemma_read_u64((le32(self.iface_idx) + le32(self._pad) + le64(self.rx_bytes) + le64(self.tx_bytes) + le64(self.rx_packets)), self.tx_packets, b.subrange(40, 72));
        assert(b =~= (le32(self.iface_idx) + le32(self._pad) + le64(self.rx_bytes) + le64(self.tx_bytes) + le64(self.rx_packets) + le64(self.tx_packets)) + le64(self.rx_drops) + b.subrange(48, 72));
        lemma_read_u64((le32(self.iface_idx) + le32(self._pad) + le64(self.rx_bytes) + le64(self.tx_bytes) + le64(self.rx_packets) + le64(self.tx_packets)), self.rx_drops, b.subrange(48, 72));
        assert(b =~= (le32(self.iface_idx) + le32(self._pad) + le64(self.rx_bytes) + le64(self.tx_bytes) + le64(self.rx_packets) + le64(self.tx_packets) + le64(self.rx_drops)) + le64(self.tx_drops) + b.subrange(56, 72));
        lemma_read_u64((le32(self.iface_idx) + le32(self._pad) + le64(self.rx_bytes) + le64(self.tx_bytes) + le64(self.rx_packets) + le64(self.tx_packets) + le64(self.rx_drops)), self.tx_drops, b.subrange(56, 72));
        assert(b =~= (le32(self.iface_idx) + le32(self._pad) + le64(self.rx_bytes) + le64(self.tx_bytes) + le64(self.rx_packets) + le64(self.tx_packets) + le64(self.rx_drops) + le64(self.tx_drops)) + le64(self.rx_errors) + b.subrange(64, 72));
        lemma_read_u64((le32(self.iface_idx) + le32(self._pad) + le64(self.rx_bytes) + le64(self.tx_bytes) + le64(self.rx_packets) + le64(self.tx_packets) + le64(self.rx_drops) + le64(self.tx_drops)), self.rx_errors, b.subrange(64, 72));
        assert(b =~= (le32(self.iface_idx) + le32(self._pad) + le64(self.rx_bytes) + le64(self.tx_bytes) + le64(self.rx_packets) + le64(self.tx_packets) + le64(self.rx_drops) + le64(self.tx_drops) + le64(self.rx_errors)) + le64(self.tx_errors) + b.subrange(72, 72));
        lemma_read_u64((le32(self.iface_idx) + le32(self._pad) + le64(self.rx_bytes) + le64(self.tx_bytes) + le64(self.rx_packets) + le64(self.tx_packets) + le64(self.rx_drops) + le64(self.tx_drops) + le64(self.rx_errors)), self.tx_errors, b.subrange(72, 72));
    }

    fn byte_size() -> (n: usize) {
        72
    }

    fn write_le(&self, out: &mut Vec<u8>) {
        let mut v = u32_to_le_bytes(self.iface_idx);
        push_u32(&mut v, self._pad);
        push_u64(&mut v, self.rx_bytes);
        push_u64(&mut v, self.tx_bytes);
        push_u64(&mut v, self.rx_packets);
        push_u64(&mut v, self.tx_packets);
        push_u64(&mut v, self.rx_drops);
        push_u64(&mut v, self.tx_drops);
        push_u64(&mut v, self.rx_errors);
        push_u64(&mut v, self.tx_errors);
        out.append(&mut v);
    }

    fn read_le(b: &[u8], at: usize) -> (r: Self) {
        let _n = b.len();
        NetIfaceStats {
            iface_idx: read_u32(b, at),
            _pad: read_u32(b, at + 4),
            rx_bytes: read_u64(b, at + 8),
            tx_bytes: read_u64(b, at + 16),
            rx_packets: read_u64(b, at + 24),
            tx_packets: read_u64(b, at + 32),
            rx_drops: read_u64(b, at + 40),
            tx_drops: read_u64(b, at + 48),
            rx_errors: read_u64(b, at + 56),
            tx_errors: read_u64(b, at + 64),
        }
    }
}

// ----- BlockStats: 72 bytes -----
impl Sealed for BlockStats {}
impl ShmPod for BlockStats {
    open spec fn pod_size() -> nat {
        72
    }

    open spec fn pod_bytes(self) -> Seq<u8> {
        le32(self.device_major)
            + le32(self.device_minor)
            + le64(self.reads_completed)
            + le64(self.writes_completed)
            + le64(self.read_bytes)
            + le64(self.write_bytes)
            + le64(self.read_latency_ns)
            + le64(self.write_latency_ns)
            + le64(self.io_inflight)
            + le64(self.io_ticks_ms)
    }

    open spec fn pod_from(b: Seq<u8>) -> Self {
        BlockStats {
            device_major: u32_at(b, 0),
            device_minor: u32_at(b, 4),
            reads_completed: u64_at(b, 8),
            writes_completed: u64_at(b, 16),
            read_bytes: u64_at(b, 24),
            write_bytes: u64_at(b, 32),
            read_latency_ns: u64_at(b, 40),
            write_latency_ns: u64_at(b, 48),
            io_inflight: u64_at(b, 56),
            io_ticks_ms: u64_at(b, 64),
        }
    }

    proof fn lemma_pod_roundtrip(self) {
        let b = self.pod_bytes();
        assert(b =~= Seq::<u8>::empty() + le32(self.device_major) + b.subrange(4, 72));
        lemma_read_u32(Seq::<u8>::empty(), self.device_major, b.subrange(4, 72));
        assert(b =~= (le32(self.device_major)) + le32(self.device_minor) + b.subrange(8, 72));
        lemma_read_u32((le32(self.device_major)), self.device_minor, b.subrange(8, 72));
        assert(b =~= (le32(self.device_major) + le32(self.device_minor)) + le64(self.reads_completed) + b.subrange(16, 72));
        lemma_read_u64((le32(self.device_major) + le32(self.device_minor)), self.reads_completed, b.subrange(16, 72));
        assert(b =~= (le32(self.device_major) + le32(self.device_minor) + le64(self.reads_completed)) + le64(self.writes_completed) + b.subrange(24, 72));
        lemma_read_u64((le32(self.device_major) + le32(self.device_minor) + le64(self.reads_completed)), self.writes_completed, b.subrange(24, 72));
        assert(b =~= (le32(self.device_major) + le32(self.device_minor) + le64(self.reads_completed) + le64(self.writes_completed)) + le64(self.read_bytes) + b.subrange(32, 72));
        lemma_read_u64((le32(self.device_major) + le32(self.device_minor) + le64(self.reads_completed) + le64(self.writes_completed)), self.read_bytes, b.subrange(32, 72));
        assert(b =~= (le32(self.device_major) + le32(self.device_minor) + le64(self.reads_completed) + le64(self.writes_completed) + le64(self.read_bytes)) + le64(self.write_bytes) + b.subrange(40, 72));
        lemma_read_u64((le32(self.device_major) + le32(self.device_minor) + le64(self.reads_completed) + le64(self.writes_completed) + le64(self.read_bytes)), self.write_bytes, b.subrange(40, 72));
        assert(b =~= (le32(self.device_major) + le32(self.device_minor) + le64(self.reads_completed) + le64(self.writes_completed) + le64(self.read_bytes) + le64(self.write_bytes)) + le64(self.read_latency_ns) + b.subrange(48, 72));
        lemma_read_u64((le32(self.device_major) + le32(self.device_minor) + le64(self.reads_completed) + le64(self.writes_completed) + le64(self.read_bytes) + le64(self.write_bytes)), self.read_latency_ns, b.subrange(48, 72));
        assert(b =~= (le32(self.device_major) + le32(self.device_minor) + le64(self.reads_completed) + le64(self.writes_completed) + le64(self.read_bytes) + le64(self.write_bytes) + le64(self.read_latency_ns)) + le64(self.write_latency_ns) + b.subrange(56, 72));
        lemma_read_u64((le32(self.device_major) + le32(self.device_minor) + le64(self.reads_completed) + le64(self.writes_completed) + le64(self.read_bytes) + le64(self.write_bytes) + le64(self.read_latency_ns)), self.write_latency_ns, b.subrange(56, 72));
        assert(b =~= (le32(self.device_major) + le32(self.device_minor) + le64(self.reads_completed) + le64(self.writes_completed) + le64(self.read_bytes) + le64(self.write_bytes) + le64(self.read_latency_ns) + le64(self.write_latency_ns)) + le64(self.io_inflight) + b.subrange(64, 72));
        lemma_read_u64((le32(self.device_major) + le32(self.device_minor) + le64(self.reads_completed) + le64(self.writes_completed) + le64(self.read_bytes) + le64(self.write_bytes) + le64(self.read_latency_ns) + le64(self.write_latency_ns)), self.io_inflight, b.subrange(64, 72));
        assert(b =~= (le32(self.device_major) + le32(self.device_minor) + le64(self.reads_completed) + le64(self.writes_completed) + le64(self.read_bytes) + le64(self.write_bytes) + le64(self.read_latency_ns) + le64(self.write_latency_ns) + le64(self.io_inflight)) + le64(self.io_ticks_ms) + b.subrange(72, 72));
        lemma_read_u64((le32(self.device_major) + le32(self.device_minor) + le64(self.reads_completed) + le64(self.writes_completed) + le64(self.read_bytes) + le64(self.write_bytes) + le64(self.read_latency_ns) + le64(self.write_latency_ns) + le64(self.io_inflight)), self.io_ticks_ms, b.subrange(72, 72));
    }

    fn byte_size() -> (n: usize) {
        72
    }

    fn write_le(&self, out: &mut Vec<u8>) {
        let mut v = u32_to_le_bytes(self.device_major);
        push_u32(&mut v, self.device_minor);
        push_u64(&mut v, self.reads_completed);
        push_u64(&mut v, self.writes_completed);
        push_u64(&mut v, self.read_bytes);
        push_u64(&mut v, self.write_bytes);
        push_u64(&mut v, self.read_latency_ns);
        push_u64(&mut v, self.write_latency_ns);
        push_u64(&mut v, self.io_inflight);
        push_u64(&mut v, self.io_ticks_ms);
        out.append(&mut v);
    }

    fn read_le(b: &[u8], at: usize) -> (r: Self) {
        let _n = b.len();
        BlockStats {
            device_major: read_u32(b, at),
            device_minor: read_u32(b, at + 4),
            reads_completed: read_u64(b, at + 8),
            writes_completed: read_u64(b, at + 16),
            read_bytes: read_u64(b, at + 24),
            write_bytes: read_u64(b, at + 32),
            read_latency_ns: read_u64(b, at + 40),
            write_latency_ns: read_u64(b, at + 48),
            io_inflight: read_u64(b, at + 56),
            io_ticks_ms: read_u64(b, at + 64),
        }
    }
}

// ----- ProcessStats: 128 bytes -----
impl Sealed for ProcessStats {}
impl ShmPod for ProcessStats {
    open spec fn pod_size() -> nat {
        128
    }

    open spec fn pod_bytes(self) -> Seq<u8> {
        le32(self.pid)
            + le32(self.ppid)
            + le32(self.uid)
            + le32(self.thread_count)
            + le64(self.cpu_user_ns)
            + le64(self.cpu_system_ns)
            + le64(self.mem_rss_bytes)
            + le64(self.mem_vms_bytes)
            + le64(self.voluntary_ctx_sw)
            + le64(self.involuntary_ctx_sw)
            + le64(self.read_bytes)
            + le64(self.write_bytes)
            + le64(self.page_faults_minor)
            + le64(self.page_faults_major)
            + le64(self.start_time_ns)
            + le32(self.open_fds)
            + le32(self._pad)
            + self.comm@
    }

    open spec fn pod_from(b: Seq<u8>) -> Self {
        ProcessStats {
            pid: u32_at(b, 0),
            ppid: u32_at(b, 4),
            uid: u32_at(b, 8),
            thread_count: u32_at(b, 12),
            cpu_user_ns: u64_at(b, 16),
            cpu_system_ns: u64_at(b, 24),
            mem_rss_bytes: u64_at(b, 32),
            mem_vms_bytes: u64_at(b, 40),
            voluntary_ctx_sw: u64_at(b, 48),
            involuntary_ctx_sw: u64_at(b, 56),
            read_bytes: u64_at(b, 64),
            write_bytes: u64_at(b, 72),
            page_faults_minor: u64_at(b, 80),
            page_faults_major: u64_at(b, 88),
            start_time_ns: u64_at(b, 96),
            open_fds: u32_at(b, 104),
            _pad: u32_at(b, 108),
            comm: byte_array(b.subrange(112, 128)),
        }
    }

    proof fn lemma_pod_roundtrip(self) {
        let b = self.pod_bytes();
        assert(b =~= Seq::<u8>::empty() + le32(self.pid) + b.subrange(4, 128));
        lemma_read_u32(Seq::<u8>::empty(), self.pid, b.subrange(4, 128));
        assert(b =~= (le32(self.pid)) + le32(self.ppid) + b.subrange(8, 128));
        lemma_read_u32((le32(self.pid)), self.ppid, b.subrange(8, 128));
        assert(b =~= (le32(self.pid) + le32(self.ppid)) + le32(self.uid) + b.subrange(12, 128));
        lemma_read_u32((le32(self.pid) + le32(self.ppid)), self.uid, b.subrange(12, 128));
        assert(b =~= (le32(self.pid) + le32(self.ppid) + le32(self.uid)) + le32(self.thread_count) + b.subrange(16, 128));
        lemma_read_u32((le32(self.pid) + le32(self.ppid) + le32(self.uid)), self.thread_count, b.subrange(16, 128));
        assert(b =~= (le32(self.pid) + le32(self.ppid) + le32(self.uid) + le32(self.thread_count)) + le64(self.cpu_user_ns) + b.subrange(24, 128));
        lemma_read_u64((le32(self.pid) + le32(self.ppid) + le32(self.uid) + le32(self.thread_count)), self.cpu_user_ns, b.subrange(24, 128));
        assert(b =~= (le32(self.pid) + le32(self.ppid) + le32(self.uid) + le32(self.thread_count) + le64(self.cpu_user_ns)) + le64(self.cpu_system_ns) + b.subrange(32, 128));
        lemma_read_u64((le32(self.pid) + le32(self.ppid) + le32(self.uid) + le32(self.thread_count) + le64(self.cpu_user_ns)), self.cpu_system_ns, b.subrange(32, 128));
        assert(b =~= (le32(self.pid) + le32(self.ppid) + le32(self.uid) + le32(self.thread_count) + le64(self.cpu_user_ns) + le64(self.cpu_system_ns)) + le64(self.mem_rss_bytes) + b.subrange(40, 128));
        lemma_read_u64((le32(self.pid) + le32(self.ppid) + le32(self.uid) + le32(self.thread_count) + le64(self.cpu_user_ns) + le64(self.cpu_system_ns)), self.mem_rss_bytes, b.subrange(40, 128));
        assert(b =~= (le32(self.pid) + le32(self.ppid) + le32(self.uid) + le32(self.thread_count) + le64(self.cpu_user_ns) + le64(self.cpu_system_ns) + le64(self.mem_rss_bytes)) + le64(self.mem_vms_bytes) + b.subrange(48, 128));
        lemma_read_u64((le32(self.pid) + le32(self.ppid) + le32(self.uid) + le32(self.thread_count) + le64(self.cpu_user_ns) + le64(self.cpu_system_ns) + le64(self.mem_rss_bytes)), self.mem_vms_bytes, b.subrange(48, 128));
        assert(b =~= (le32(self.pid) + le32(self.ppid) + le32(self.uid) + le32(self.thread_count) + le64(self.cpu_user_ns) + le64(self.cpu_system_ns) + le64(self.mem_rss_bytes) + le64(self.mem_vms_bytes)) + le64(self.voluntary_ctx_sw) + b.subrange(56, 128));
        lemma_read_u64((le32(self.pid) + le32(self.ppid) + le32(self.uid) + le32(self.thread_count) + le64(self.cpu_user_ns) + le64(self.cpu_system_ns) + le64(self.mem_rss_bytes) + le64(self.mem_vms_bytes)), self.voluntary_ctx_sw, b.subrange(56, 128));
        assert(b =~= (le32(self.pid) + le32(self.ppid) + le32(self.uid) + le32(self.thread_count) + le64(self.cpu_user_ns) + le64(self.cpu_system_ns) + le64(self.mem_rss_bytes) + le64(self.mem_vms_bytes) + le64(self.voluntary_ctx_sw)) + le64(self.involuntary_ctx_sw) + b.subrange(64, 128));
        lemma_read_u64((le32(self.pid) + le32(self.ppid) + le32(self.uid) + le32(self.thread_count) + le64(self.cpu_user_ns) + le64(self.cpu_system_ns) + le64(self.mem_rss_bytes) + le64(self.mem_vms_bytes) + le64(self.voluntary_ctx_sw)), self.involuntary_ctx_sw, b.subrange(64, 128));
        assert(b =~= (le32(self.pid) + le32(self.ppid) + le32(self.uid) + le32(self.thread_count) + le64(self.cpu_user_ns) + le64(self.cpu_system_ns) + le64(self.mem_rss_bytes) + le64(self.mem_vms_bytes) + le64(self.voluntary_ctx_sw) + le64(self.involuntary_ctx_sw)) + le64(self.read_bytes) + b.subrange(72, 128));
        lemma_read_u64((le32(self.pid) + le32(self.ppid) + le32(self.uid) + le32(self.thread_count) + le64(self.cpu_user_ns) + le64(self.cpu_system_ns) + le64(self.mem_rss_bytes) + le64(self.mem_vms_bytes) + le64(self.voluntary_ctx_sw) + le64(self.involuntary_ctx_sw)), self.read_bytes, b.subrange(72, 128));
        assert(b =~= (le32(self.pid) + le32(self.ppid) + le32(self.uid) + le32(self.thread_count) + le64(self.cpu_user_ns) + le64(self.cpu_system_ns) + le64(self.mem_rss_bytes) + le64(self.mem_vms_bytes) + le64(self.voluntary_ctx_sw) + le64(self.involuntary_ctx_sw) + le64(self.read_bytes)) + le64(self.write_bytes) + b.subrange(80, 128));
        lemma_read_u64((le32(self.pid) + le32(self.ppid) + le32(self.uid) + le32(self.thread_count) + le64(self.cpu_user_ns) + le64(self.cpu_system_ns) + le64(self.mem_rss_bytes) + le64(self.mem_vms_bytes) + le64(self.voluntary_ctx_sw) + le64(self.involuntary_ctx_sw) + le64(self.read_bytes)), self.write_bytes, b.subrange(80, 128));
        assert(b =~= (le32(self.pid) + le32(self.ppid) + le32(self.uid) + le32(self.thread_count) + le64(self.cpu_user_ns) + le64(self.cpu_system_ns) + le64(self.mem_rss_bytes) + le64(self.mem_vms_bytes) + le64(self.voluntary_ctx_sw) + le64(self.involuntary_ctx_sw) + le64(self.read_bytes) + le64(self.write_bytes)) + le64(self.page_faults_minor) + b.subrange(88, 128));
        lemma_read_u64((le32(self.pid) + le32(self.ppid) + le32(self.uid) + le32(self.thread_count) + le64(self.cpu_user_ns) + le64(self.cpu_system_ns) + le64(self.mem_rss_bytes) + le64(self.mem_vms_bytes) + le64(self.voluntary_ctx_sw) + le64(self.involuntary_ctx_sw) + le64(self.read_bytes) + le64(self.write_bytes)), self.page_faults_minor, b.subrange(88, 128));
        assert(b =~= (le32(self.pid) + le32(self.ppid) + le32(self.uid) + le32(self.thread_count) + le64(self.cpu_user_ns) + le64(self.cpu_system_ns) + le64(self.mem_rss_bytes) + le64(self.mem_vms_bytes) + le64(self.voluntary_ctx_sw) + le64(self.involuntary_ctx_sw) + le64(self.read_bytes) + le64(self.write_bytes) + le64(self.page_faults_minor)) + le64(self.page_faults_major) + b.subrange(96, 128));
        lemma_read_u64((le32(self.pid) + le32(self.ppid) + le32(self.uid) + le32(self.thread_count) + le64(self.cpu_user_ns) + le64(self.cpu_system_ns) + le64(self.mem_rss_bytes) + le64(self.mem_vms_bytes) + le64(self.voluntary_ctx_sw) + le64(self.involuntary_ctx_sw) + le64(self.read_bytes) + le64(self.write_bytes) + le64(self.page_faults_minor)), self.page_faults_major, b.subrange(96, 128));
        assert(b =~= (le32(self.pid) + le32(self.ppid) + le32(self.uid) + le32(self.thread_count) + le64(self.cpu_user_ns) + le64(self.cpu_system_ns) + le64(self.mem_rss_bytes) + le64(self.mem_vms_bytes) + le64(self.voluntary_ctx_sw) + le64(self.involuntary_ctx_sw) + le64(self.read_bytes) + le64(self.write_bytes) + le64(self.page_faults_minor) + le64(self.page_faults_major)) + le64(self.start_time_ns) + b.subrange(104, 128));
        lemma_read_u64((le32(self.pid) + le32(self.ppid) + le32(self.uid) + le32(self.thread_count) + le64(self.cpu_user_ns) + le64(self.cpu_system_ns) + le64(self.mem_rss_bytes) + le64(self.mem_vms_bytes) + le64(self.voluntary_ctx_sw) + le64(self.involuntary_ctx_sw) + le64(self.read_bytes) + le64(self.write_bytes) + le64(self.page_faults_minor) + le64(self.page_faults_major)), self.start_time_ns, b.subrange(104, 128));
        assert(b =~= (le32(self.pid) + le32(self.ppid) + le32(self.uid) + le32(self.thread_count) + le64(self.cpu_user_ns) + le64(self.cpu_system_ns) + le64(self.mem_rss_bytes) + le64(self.mem_vms_bytes) + le64(self.voluntary_ctx_sw) + le64(self.involuntary_ctx_sw) + le64(self.read_bytes) + le64(self.write_bytes) + le64(self.page_faults_minor) + le64(self.page_faults_major) + le64(self.start_time_ns)) + le32(self.open_fds) + b.subrange(108, 128));
        lemma_read_u32((le32(self.pid) + le32(self.ppid) + le32(self.uid) + le32(self.thread_count) + le64(self.cpu_user_ns) + le64(self.cpu_system_ns) + le64(self.mem_rss_bytes) + le64(self.mem_vms_bytes) + le64(self.voluntary_ctx_sw) + le64(self.involuntary_ctx_sw) + le64(self.read_bytes) + le64(self.write_bytes) + le64(self.page_faults_minor) + le64(self.page_faults_major) + le64(self.start_time_ns)), self.open_fds, b.subrange(108, 128));
        assert(b =~= (le32(self.pid) + le32(self.ppid) + le32(self.uid) + le32(self.thread_count) + le64(self.cpu_user_ns) + le64(self.cpu_system_ns) + le64(self.mem_rss_bytes) + le64(self.mem_vms_bytes) + le64(self.voluntary_ctx_sw) + le64(self.involuntary_ctx_sw) + le64(self.read_bytes) + le64(self.write_bytes) + le64(self.page_faults_minor) + le64(self.page_faults_major) + le64(self.start_time_ns) + le32(self.open_fds)) + le32(self._pad) + b.subrange(112, 128));
        lemma_read_u32((le32(self.pid) + le32(self.ppid) + le32(self.uid) + le32(self.thread_count) + le64(self.cpu_user_ns) + le64(self.cpu_system_ns) + le64(self.mem_rss_bytes) + le64(self.mem_vms_bytes) + le64(self.voluntary_ctx_sw) + le64(self.involuntary_ctx_sw) + le64(self.read_bytes) + le64(self.write_bytes) + le64(self.page_faults_minor) + le64(self.page_faults_major) + le64(self.start_time_ns) + le32(self.open_fds)), self._pad, b.subrange(112, 128));
        assert(b.subrange(112, 128) =~= self.comm@);
        lemma_byte_array(self.comm);
    }

    fn byte_size() -> (n: usize) {
        128
    }

    fn write_le(&self, out: &mut Vec<u8>) {
        let mut v = u32_to_le_bytes(self.pid);
        push_u32(&mut v, self.ppid);
        push_u32(&mut v, self.uid);
        push_u32(&mut v, self.thread_count);
        push_u64(&mut v, self.cpu_user_ns);
        push_u64(&mut v, self.cpu_system_ns);
        push_u64(&mut v, self.mem_rss_bytes);
        push_u64(&mut v, self.mem_vms_bytes);
        push_u64(&mut v, self.voluntary_ctx_sw);
        push_u64(&mut v, self.involuntary_ctx_sw);
        push_u64(&mut v, self.read_bytes);
        push_u64(&mut v, self.write_bytes);
        push_u64(&mut v, self.page_faults_minor);
        push_u64(&mut v, self.page_faults_major);
        push_u64(&mut v, self.start_time_ns);
        push_u32(&mut v, self.open_fds);
        push_u32(&mut v, self._pad);
        push_bytes(&mut v, &self.comm);
        out.append(&mut v);
    }

    fn read_le(b: &[u8], at: usize) -> (r: Self) {
        let _n = b.len();
        let comm: [u8; 16] = read_byte_array(b, at + 112);
        proof {
            assert(b@.subrange(at as int, at + 128).subrange(112, 128) =~= b@.subrange(at + 112, at + 128));
        }
        ProcessStats {
            pid: read_u32(b, at),
            ppid: read_u32(b, at + 4),
            uid: read_u32(b, at + 8),
            thread_count: read_u32(b, at + 12),
            cpu_user_ns: read_u64(b, at + 16),
            cpu_system_ns: read_u64(b, at + 24),
            mem_rss_bytes: read_u64(b, at + 32),
            mem_vms_bytes: read_u64(b, at + 40),
            voluntary_ctx_sw: read_u64(b, at + 48),
            involuntary_ctx_sw: read_u64(b, at + 56),
            read_bytes: read_u64(b, at + 64),
            write_bytes: read_u64(b, at + 72),
            page_faults_minor: read_u64(b, at + 80),
            page_faults_major: read_u64(b, at + 88),
            start_time_ns: read_u64(b, at + 96),
            open_fds: read_u32(b, at + 104),
            _pad: read_u32(b, at + 108),
            comm,
        }
    }
}


// ----- CgroupNetBytes: 56 bytes -----
impl Sealed for CgroupNetBytes {}
impl ShmPod for CgroupNetBytes {
    open spec fn pod_size() -> nat {
        56
    }

    open spec fn pod_bytes(self) -> Seq<u8> {
        le64(self.cgroup_id)
            + le64(self.rx_bytes)
            + le64(self.tx_bytes)
            + le64(self.rx_packets)
            + le64(self.tx_packets)
            + le64(self.rx_internet_bytes)
            + le64(self.tx_internet_bytes)
    }

    open spec fn pod_from(b: Seq<u8>) -> Self {
        CgroupNetBytes {
            cgroup_id: u64_at(b, 0),
            rx_bytes: u64_at(b, 8),
            tx_bytes: u64_at(b, 16),
            rx_packets: u64_at(b, 24),
            tx_packets: u64_at(b, 32),
            rx_internet_bytes: u64_at(b, 40),
            tx_internet_bytes: u64_at(b, 48),
        }
    }

    proof fn lemma_pod_roundtrip(self) {
        let b = self.pod_bytes();
        assert(b =~= Seq::<u8>::empty() + le64(self.cgroup_id) + b.subrange(8, 56));
        lemma_read_u64(Seq::<u8>::empty(), self.cgroup_id, b.subrange(8, 56));
        assert(b =~= (le64(self.cgroup_id)) + le64(self.rx_bytes) + b.subrange(16, 56));
        lemma_read_u64((le64(self.cgroup_id)), self.rx_bytes, b.subrange(16, 56));
        assert(b =~= (le64(self.cgroup_id) + le64(self.rx_bytes)) + le64(self.tx_bytes) + b.subrange(24, 56));
        lemma_read_u64((le64(self.cgroup_id) + le64(self.rx_bytes)), self.tx_bytes, b.subrange(24, 56));
        assert(b =~= (le64(self.cgroup_id) + le64(self.rx_bytes) + le64(self.tx_bytes)) + le64(self.rx_packets) + b.subrange(32, 56));
        lemma_read_u64((le64(self.cgroup_id) + le64(self.rx_bytes) + le64(self.tx_bytes)), self.rx_packets, b.subrange(32, 56));
        assert(b =~= (le64(self.cgroup_id) + le64(self.rx_bytes) + le64(self.tx_bytes) + le64(self.rx_packets)) + le64(self.tx_packets) + b.subrange(40, 56));
        lemma_read_u64((le64(self.cgroup_id) + le64(self.rx_bytes) + le64(self.tx_bytes) + le64(self.rx_packets)), self.tx_packets, b.subrange(40, 56));
        assert(b =~= (le64(self.cgroup_id) + le64(self.rx_bytes) + le64(self.tx_bytes) + le64(self.rx_packets) + le64(self.tx_packets)) + le64(self.rx_internet_bytes) + b.subrange(48, 56));
        lemma_read_u64((le64(self.cgroup_id) + le64(self.rx_bytes) + le64(self.tx_bytes) + le64(self.rx_packets) + le64(self.tx_packets)), self.rx_internet_bytes, b.subrange(48, 56));
        assert(b =~= (le64(self.cgroup_id) + le64(self.rx_bytes) + le64(self.tx_bytes) + le64(self.rx_packets) + le64(self.tx_packets) + le64(self.rx_internet_bytes)) + le64(self.tx_internet_bytes) + b.subrange(56, 56));
        lemma_read_u64((le64(self.cgroup_id) + le64(self.rx_bytes) + le64(self.tx_bytes) + le64(self.rx_packets) + le64(self.tx_packets) + le64(self.rx_internet_bytes)), self.tx_internet_bytes, b.subrange(56, 56));
    }

    fn byte_size() -> (n: usize) {
        56
    }

    fn write_le(&self, out: &mut Vec<u8>) {
        let mut v = u64_to_le_bytes(self.cgroup_id);
        push_u64(&mut v, self.rx_bytes);
        push_u64(&mut v, self.tx_bytes);
        push_u64(&mut v, self.rx_packets);
        push_u64(&mut v, self.tx_packets);
        push_u64(&mut v, self.rx_internet_bytes);
        push_u64(&mut v, self.tx_internet_bytes);
        out.append(&mut v);
    }

    fn read_le(b: &[u8], at: usize) -> (r: Self) {
        let _n = b.len();
        CgroupNetBytes {
            cgroup_id: read_u64(b, at),
            rx_bytes: read_u64(b, at + 8),
            tx_bytes: read_u64(b, at + 16),
            rx_packets: read_u64(b, at + 24),
            tx_packets: read_u64(b, at + 32),
            rx_internet_bytes: read_u64(b, at + 40),
            tx_internet_bytes: read_u64(b, at + 48),
        }
    }
}

// ----- EventDropCounts: 24 bytes -----
impl Sealed for EventDropCounts {}
impl ShmPod for EventDropCounts {
    open spec fn pod_size() -> nat {
        24
    }

    open spec fn pod_bytes(self) -> Seq<u8> {
        le64(self.process)
            + le64(self.security)
            + le64(self.network)
    }

    open spec fn pod_from(b: Seq<u8>) -> Self {
        EventDropCounts {
            process: u64_at(b, 0),
            security: u64_at(b, 8),
            network: u64_at(b, 16),
        }
    }

    proof fn lemma_pod_roundtrip(self) {
        let b = self.pod_bytes();
        assert(b =~= Seq::<u8>::empty() + le64(self.process) + b.subrange(8, 24));
        lemma_read_u64(Seq::<u8>::empty(), self.process, b.subrange(8, 24));
        assert(b =~= (le64(self.process)) + le64(self.security) + b.subrange(16, 24));
        lemma_read_u64((le64(self.process)), self.security, b.subrange(16, 24));
        assert(b =~= (le64(self.process) + le64(self.security)) + le64(self.network) + b.subrange(24, 24));
        lemma_read_u64((le64(self.process) + le64(self.security)), self.network, b.subrange(24, 24));
    }

    fn byte_size() -> (n: usize) {
        24
    }

    fn write_le(&self, out: &mut Vec<u8>) {
        let mut v = u64_to_le_bytes(self.process);
        push_u64(&mut v, self.security);
        push_u64(&mut v, self.network);
        out.append(&mut v);
    }

    fn read_le(b: &[u8], at: usize) -> (r: Self) {
        let _n = b.len();
        EventDropCounts {
            process: read_u64(b, at),
            security: read_u64(b, at + 8),
            network: read_u64(b, at + 16),
        }
    }
}


} // verus!

verus! {

// ----- kernel event records (ring-buffer entries) -----

// ----- ProcessEvent: 304 bytes -----
impl Sealed for ProcessEvent {}
impl ShmPod for ProcessEvent {
    open spec fn pod_size() -> nat {
        304
    }

    open spec fn pod_bytes(self) -> Seq<u8> {
        le32(self.kind)
            + le32(self.pid)
            + le32(self.ppid)
            + le32(self.uid)
            + le32(self.exit_code as u32)
            + le32(self._pad)
            + le64(self.timestamp_ns)
            + self.comm@
            + self.filename@
    }

    open spec fn pod_from(b: Seq<u8>) -> Self {
        ProcessEvent {
            kind: u32_at(b, 0),
            pid: u32_at(b, 4),
            ppid: u32_at(b, 8),
            uid: u32_at(b, 12),
            exit_code: u32_at(b, 16) as i32,
            _pad: u32_at(b, 20),
            timestamp_ns: u64_at(b, 24),
            comm: byte_array(b.subrange(32, 48)),
            filename: byte_array(b.subrange(48, 304)),
        }
    }

    proof fn lemma_pod_roundtrip(self) {
        let b = self.pod_bytes();
        assert(b =~= Seq::<u8>::empty() + le32(self.kind) + b.subrange(4, 304));
        lemma_read_u32(Seq::<u8>::empty(), self.kind, b.subrange(4, 304));
        assert(b =~= (le32(self.kind)) + le32(self.pid) + b.subrange(8, 304));
        lemma_read_u32((le32(self.kind)), self.pid, b.subrange(8, 304));
        assert(b =~= (le32(self.kind) + le32(self.pid)) + le32(self.ppid) + b.subrange(12, 304));
        lemma_read_u32((le32(self.kind) + le32(self.pid)), self.ppid, b.subrange(12, 304));
        assert(b =~= (le32(self.kind) + le32(self.pid) + le32(self.ppid)) + le32(self.uid) + b.subrange(16, 304));
        lemma_read_u32((le32(self.kind) + le32(self.pid) + le32(self.ppid)), self.uid, b.subrange(16, 304));
        assert(b =~= (le32(self.kind) + le32(self.pid) + le32(self.ppid) + le32(self.uid)) + le32(self.exit_code as u32) + b.subrange(20, 304));
        lemma_read_u32((le32(self.kind) + le32(self.pid) + le32(self.ppid) + le32(self.uid)), self.exit_code as u32, b.subrange(20, 304));
        let exit_code_v = self.exit_code;
        assert((exit_code_v as u32) as i32 == exit_code_v) by (bit_vector);
        assert(b =~= (le32(self.kind) + le32(self.pid) + le32(self.ppid) + le32(self.uid) + le32(self.exit_code as u32)) + le32(self._pad) + b.subrange(24, 304));
        lemma_read_u32((le32(self.kind) + le32(self.pid) + le32(self.ppid) + le32(self.uid) + le32(self.exit_code as u32)), self._pad, b.subrange(24, 304));
        assert(b =~= (le32(self.kind) + le32(self.pid) + le32(self.ppid) + le32(self.uid) + le32(self.exit_code as u32) + le32(self._pad)) + le64(self.timestamp_ns) + b.subrange(32, 304));
        lemma_read_u64((le32(self.kind) + le32(self.pid) + le32(self.ppid) + le32(self.uid) + le32(self.exit_code as u32) + le32(self._pad)), self.timestamp_ns, b.subrange(32, 304));
        assert(b.subrange(32, 48) =~= self.comm@);
        lemma_byte_array(self.comm);
        assert(b.subrange(48, 304) =~= self.filename@);
        lemma_byte_array(self.filename);
    }

    fn byte_size() -> (n: usize) {
        304
    }

    fn write_le(&self, out: &mut Vec<u8>) {
        let mut v = u32_to_le_bytes(self.kind);
        push_u32(&mut v, self.pid);
        push_u32(&mut v, self.ppid);
        push_u32(&mut v, self.uid);
        push_u32(&mut v, self.exit_code as u32);
        push_u32(&mut v, self._pad);
        push_u64(&mut v, self.timestamp_ns);
        push_bytes(&mut v, &self.comm);
        push_bytes(&mut v, &self.filename);
        out.append(&mut v);
    }

    fn read_le(b: &[u8], at: usize) -> (r: Self) {
        let _n = b.len();
        let comm: [u8; 16] = read_byte_array(b, at + 32);
        let filename: [u8; 256] = read_byte_array(b, at + 48);
        proof {
            assert(b@.subrange(at as int, at + 304).subrange(32, 48) =~= b@.subrange(at + 32, at + 48));
        }
        proof {
            assert(b@.subrange(at as int, at + 304).subrange(48, 304) =~= b@.subrange(at + 48, at + 304));
        }
        ProcessEvent {
            kind: read_u32(b, at),
            pid: read_u32(b, at + 4),
            ppid: read_u32(b, at + 8),
            uid: read_u32(b, at + 12),
            exit_code: read_u32(b, at + 16) as i32,
            _pad: read_u32(b, at + 20),
            timestamp_ns: read_u64(b, at + 24),
            comm,
            filename,
        }
    }
}

// ----- NetEvent: 56 bytes -----
impl Sealed for NetEvent {}
impl ShmPod for NetEvent {
    open spec fn pod_size() -> nat {
        56
    }

    open spec fn pod_bytes(self) -> Seq<u8> {
        le32(self.kind)
            + le16(self.family)
            + le16(self.sport)
            + le16(self.dport)
            + le16(self.drop_reason)
            + seq![self.old_state]
            + seq![self.new_state]
            + self._pad@
            + self.saddr@
            + self.daddr@
            + le64(self.timestamp_ns)
    }

    open spec fn pod_from(b: Seq<u8>) -> Self {
        NetEvent {
            kind: u32_at(b, 0),
            family: u16_at(b, 4),
            sport: u16_at(b, 6),
            dport: u16_at(b, 8),
            drop_reason: u16_at(b, 10),
            old_state: b[12],
            new_state: b[13],
            _pad: byte_array(b.subrange(14, 16)),
            saddr: byte_array(b.subrange(16, 32)),
            daddr: byte_array(b.subrange(32, 48)),
            timestamp_ns: u64_at(b, 48),
        }
    }

    proof fn lemma_pod_roundtrip(self) {
        let b = self.pod_bytes();
        assert(b =~= Seq::<u8>::empty() + le32(self.kind) + b.subrange(4, 56));
        lemma_read_u32(Seq::<u8>::empty(), self.kind, b.subrange(4, 56));
        assert(b =~= (le32(self.kind)) + le16(self.family) + b.subrange(6, 56));
        lemma_read_u16((le32(self.kind)), self.family, b.subrange(6, 56));
        assert(b =~= (le32(self.kind) + le16(self.family)) + le16(self.sport) + b.subrange(8, 56));
        lemma_read_u16((le32(self.kind) + le16(self.family)), self.sport, b.subrange(8, 56));
        assert(b =~= (le32(self.kind) + le16(self.family) + le16(self.sport)) + le16(self.dport) + b.subrange(10, 56));
        lemma_read_u16((le32(self.kind) + le16(self.family) + le16(self.sport)), self.dport, b.subrange(10, 56));
        assert(b =~= (le32(self.kind) + le16(self.family) + le16(self.sport) + le16(self.dport)) + le16(self.drop_reason) + b.subrange(12, 56));
        lemma_read_u16((le32(self.kind) + le16(self.family) + le16(self.sport) + le16(self.dport)), self.drop_reason, b.subrange(12, 56));
        assert(b =~= (le32(self.kind) + le16(self.family) + le16(self.sport) + le16(self.dport) + le16(self.drop_reason)) + seq![self.old_state] + b.subrange(13, 56));
        assert(b =~= (le32(self.kind) + le16(self.family) + le16(self.sport) + le16(self.dport) + le16(self.drop_reason) + seq![self.old_state]) + seq![self.new_state] + b.subrange(14, 56));
        assert(b.subrange(14, 16) =~= self._pad@);
        lemma_byte_array(self._pad);
        assert(b.subrange(16, 32) =~= self.saddr@);
        lemma_byte_array(self.saddr);
        assert(b.subrange(32, 48) =~= self.daddr@);
        lemma_byte_array(self.daddr);
        assert(b =~= (le32(self.kind) + le16(self.family) + le16(self.sport) + le16(self.dport) + le16(self.drop_reason) + seq![self.old_state] + seq![self.new_state] + self._pad@ + self.saddr@ + self.daddr@) + le64(self.timestamp_ns) + b.subrange(56, 56));
        lemma_read_u64((le32(self.kind) + le16(self.family) + le16(self.sport) + le16(self.dport) + le16(self.drop_reason) + seq![self.old_state] + seq![self.new_state] + self._pad@ + self.saddr@ + self.daddr@), self.timestamp_ns, b.subrange(56, 56));
    }

    fn byte_size() -> (n: usize) {
        56
    }

    fn write_le(&self, out: &mut Vec<u8>) {
        let mut v = u32_to_le_bytes(self.kind);
        push_u16(&mut v, self.family);
        push_u16(&mut v, self.sport);
        push_u16(&mut v, self.dport);
        push_u16(&mut v, self.drop_reason);
        v.push(self.old_state);
        v.push(self.new_state);
        push_bytes(&mut v, &self._pad);
        push_bytes(&mut v, &self.saddr);
        push_bytes(&mut v, &self.daddr);
        push_u64(&mut v, self.timestamp_ns);
        proof {
            assert(v@ =~= le32(self.kind) + le16(self.family) + le16(self.sport) + le16(self.dport) + le16(self.drop_reason) + seq![self.old_state] + seq![self.new_state] + self._pad@ + self.saddr@ + self.daddr@ + le64(self.timestamp_ns));
        }
        out.append(&mut v);
    }

    fn read_le(b: &[u8], at: usize) -> (r: Self) {
        let _n = b.len();
        let _pad: [u8; 2] = read_byte_array(b, at + 14);
        let saddr: [u8; 16] = read_byte_array(b, at + 16);
        let daddr: [u8; 16] = read_byte_array(b, at + 32);
        proof {
            assert(b@.subrange(at as int, at + 56).subrange(14, 16) =~= b@.subrange(at + 14, at + 16));
        }
        proof {
            assert(b@.subrange(at as int, at + 56).subrange(16, 32) =~= b@.subrange(at + 16, at + 32));
        }
        proof {
            assert(b@.subrange(at as int, at + 56).subrange(32, 48) =~= b@.subrange(at + 32, at + 48));
        }
        NetEvent {
            kind: read_u32(b, at),
            family: read_u16(b, at + 4),
            sport: read_u16(b, at + 6),
            dport: read_u16(b, at + 8),
            drop_reason: read_u16(b, at + 10),
            old_state: b[at + 12],
            new_state: b[at + 13],
            _pad,
            saddr,
            daddr,
            timestamp_ns: read_u64(b, at + 48),
        }
    }
}

// ----- SecurityEvent: 312 bytes -----
impl Sealed for SecurityEvent {}
impl ShmPod for SecurityEvent {
    open spec fn pod_size() -> nat {
        312
    }

    open spec fn pod_bytes(self) -> Seq<u8> {
        le32(self.kind)
            + le32(self.pid)
            + le32(self.ppid)
            + le32(self.uid)
            + seq![self.severity]
            + self._pad@
            + le64(self.arg)
            + le64(self.timestamp_ns)
            + self.comm@
            + self.filename@
    }

    open spec fn pod_from(b: Seq<u8>) -> Self {
        SecurityEvent {
            kind: u32_at(b, 0),
            pid: u32_at(b, 4),
            ppid: u32_at(b, 8),
            uid: u32_at(b, 12),
            severity: b[16],
            _pad: byte_array(b.subrange(17, 24)),
            arg: u64_at(b, 24),
            timestamp_ns: u64_at(b, 32),
            comm: byte_array(b.subrange(40, 56)),
            filename: byte_array(b.subrange(56, 312)),
        }
    }

    proof fn lemma_pod_roundtrip(self) {
        let b = self.pod_bytes();
        assert(b =~= Seq::<u8>::empty() + le32(self.kind) + b.subrange(4, 312));
        lemma_read_u32(Seq::<u8>::empty(), self.kind, b.subrange(4, 312));
        assert(b =~= (le32(self.kind)) + le32(self.pid) + b.subrange(8, 312));
        lemma_read_u32((le32(self.kind)), self.pid, b.subrange(8, 312));
        assert(b =~= (le32(self.kind) + le32(self.pid)) + le32(self.ppid) + b.subrange(12, 312));
        lemma_read_u32((le32(self.kind) + le32(self.pid)), self.ppid, b.subrange(12, 312));
        assert(b =~= (le32(self.kind) + le32(self.pid) + le32(self.ppid)) + le32(self.uid) + b.subrange(16, 312));
        lemma_read_u32((le32(self.kind) + le32(self.pid) + le32(self.ppid)), self.uid, b.subrange(16, 312));
        assert(b =~= (le32(self.kind) + le32(self.pid) + le32(self.ppid) + le32(self.uid)) + seq![self.severity] + b.subrange(17, 312));
        assert(b.subrange(17, 24) =~= self._pad@);
        lemma_byte_array(self._pad);
        assert(b =~= (le32(self.kind) + le32(self.pid) + le32(self.ppid) + le32(self.uid) + seq![self.severity] + self._pad@) + le64(self.arg) + b.subrange(32, 312));
        lemma_read_u64((le32(self.kind) + le32(self.pid) + le32(self.ppid) + le32(self.uid) + seq![self.severity] + self._pad@), self.arg, b.subrange(32, 312));
        assert(b =~= (le32(self.kind) + le32(self.pid) + le32(self.ppid) + le32(self.uid) + seq![self.severity] + self._pad@ + le64(self.arg)) + le64(self.timestamp_ns) + b.subrange(40, 312));
        lemma_read_u64((le32(self.kind) + le32(self.pid) + le32(self.ppid) + le32(self.uid) + seq![self.severity] + self._pad@ + le64(self.arg)), self.timestamp_ns, b.subrange(40, 312));
        assert(b.subrange(40, 56) =~= self.comm@);
        lemma_byte_array(self.comm);
        assert(b.subrange(56, 312) =~= self.filename@);
        lemma_byte_array(self.filename);
    }

    fn byte_size() -> (n: usize) {
        312
    }

    fn write_le(&self, out: &mut Vec<u8>) {
        let mut v = u32_to_le_bytes(self.kind);
        push_u32(&mut v, self.pid);
        push_u32(&mut v, self.ppid);
        push_u32(&mut v, self.uid);
        v.push(self.severity);
        push_bytes(&mut v, &self._pad);
        push_u64(&mut v, self.arg);
        push_u64(&mut v, self.timestamp_ns);
        push_bytes(&mut v, &self.comm);
        push_bytes(&mut v, &self.filename);
        proof {
            assert(v@ =~= le32(self.kind) + le32(self.pid) + le32(self.ppid) + le32(self.uid) + seq![self.severity] + self._pad@ + le64(self.arg) + le64(self.timestamp_ns) + self.comm@ + self.filename@);
        }
        out.append(&mut v);
    }

    fn read_le(b: &[u8], at: usize) -> (r: Self) {
        let _n = b.len();
        let _pad: [u8; 7] = read_byte_array(b, at + 17);
        let comm: [u8; 16] = read_byte_array(b, at + 40);
        let filename: [u8; 256] = read_byte_array(b, at + 56);
        proof {
            assert(b@.subrange(at as int, at + 312).subrange(17, 24) =~= b@.subrange(at + 17, at + 24));
        }
        proof {
            assert(b@.subrange(at as int, at + 312).subrange(40, 56) =~= b@.subrange(at + 40, at + 56));
        }
        proof {
            assert(b@.subrange(at as int, at + 312).subrange(56, 312) =~= b@.subrange(at + 56, at + 312));
        }
        SecurityEvent {
            kind: read_u32(b, at),
            pid: read_u32(b, at + 4),
            ppid: read_u32(b, at + 8),
            uid: read_u32(b, at + 12),
            severity: b[at + 16],
            _pad,
            arg: read_u64(b, at + 24),
            timestamp_ns: read_u64(b, at + 32),
            comm,
            filename,
        }
    }
}


} // verus!

verus! {

// ----- row arrays -----

/// The layouts of `rows` laid back to back.
pub open spec fn rows_bytes<T: ShmPod>(rows: Seq<T>) -> Seq<u8>
    decreases rows.len(),
{
    if rows.len() == 0 {
        Seq::empty()
    } else {
        rows_bytes(rows.drop_last()) + rows.last().pod_bytes()
    }
}

/// The `n` rows laid back to back at the start of `b`.
pub open spec fn rows_from<T: ShmPod>(b: Seq<u8>, n: nat) -> Seq<T> {
    Seq::new(n, |i: int| T::pod_from(b.subrange(i * T::pod_size(), (i + 1) * T::pod_size())))
}

#[verifier::spinoff_prover]
proof fn lemma_rows<T: ShmPod>(rows: Seq<T>)
    ensures
        rows_bytes(rows).len() == rows.len() * T::pod_size(),
        forall|i: int|
            #![trigger rows[i]]
            0 <= i < rows.len() ==> rows_bytes(rows).subrange(
                i * T::pod_size(),
                (i + 1) * T::pod_size(),
            ) == rows[i].pod_bytes(),
    decreases rows.len(),
{
    let k = T::pod_size() as int;
    if rows.len() > 0 {
        let n = rows.len() as int;
        let init = rows.drop_last();
        lemma_rows(init);
        rows.last().lemma_pod_roundtrip();
        let r0 = rows_bytes(init);
        let l = rows.last().pod_bytes();
        assert((n - 1) * k + k == n * k) by (nonlinear_arith);
        assert(rows_bytes(rows) == r0 + l);
        assert(rows_bytes(rows).len() == n * k);
        assert forall|i: int| 0 <= i < n implies rows_bytes(rows).subrange(i * k, (i + 1) * k)
            == #[trigger] rows[i].pod_bytes() by {
            assert((i + 1) * k == i * k + k) by (nonlinear_arith);
            if i < n - 1 {
                assert((i + 1) * k <= (n - 1) * k) by (nonlinear_arith)
                    requires
                        i + 1 <= n - 1,
                        k >= 0,
                ;
                assert(0 <= i * k) by (nonlinear_arith)
                    requires
                        i >= 0,
                        k >= 0,
                ;
                assert(init[i] == rows[i]);
                assert(rows_bytes(rows).subrange(i * k, (i + 1) * k) =~= r0.subrange(
                    i * k,
                    (i + 1) * k,
                ));
            } else {
                assert(rows_bytes(rows).subrange(i * k, (i + 1) * k) =~= l);
            }
        }
    } else {
        assert(rows.len() == 0);
        assert(0 * k == 0) by (nonlinear_arith);
    }
}

proof fn lemma_rows_roundtrip<T: ShmPod>(rows: Seq<T>)
    ensures
        rows_bytes(rows).len() == rows.len() * T::pod_size(),
        rows_from::<T>(rows_bytes(rows), rows.len()) == rows,
{
    lemma_rows(rows);
    assert forall|i: int| 0 <= i < rows.len() implies #[trigger] rows_from::<T>(
        rows_bytes(rows),
        rows.len(),
    )[i] == rows[i] by {
        rows[i].lemma_pod_roundtrip();
    }
    assert(rows_from::<T>(rows_bytes(rows), rows.len()) =~= rows);
}

fn write_rows<T: ShmPod>(out: &mut Vec<u8>, rows: &Vec<T>)
    ensures
        final(out)@ == old(out)@ + rows_bytes(rows@),
{
    let ghost start = out@;
    let mut i: usize = 0;
    while i < rows.len()
        invariant
            i <= rows@.len(),
            out@ == start + rows_bytes(rows@.take(i as int)),
        decreases rows@.len() - i,
    {
        let ghost before = out@;
        rows[i].write_le(out);
        proof {
            assert(rows@.take(i + 1).drop_last() =~= rows@.take(i as int));
            assert(out@ =~= start + rows_bytes(rows@.take(i + 1)));
        }
        i = i + 1;
    }
    assert(rows@.take(rows@.len() as int) =~= rows@);
}

fn read_rows<T: ShmPod>(b: &[u8], at: usize, n: usize) -> (rows: Vec<T>)
    requires
        at + n * T::pod_size() <= b@.len(),
    ensures
        rows@ == rows_from::<T>(b@.subrange(at as int, at + n * T::pod_size()), n as nat),
{
    let blen = b.len();
    let k = T::byte_size();
    let ghost w = b@.subrange(at as int, at + n * T::pod_size());
    let mut rows: Vec<T> = Vec::new();
    let mut i: usize = 0;
    let mut pos: usize = at;
    while i < n
        invariant
            i <= n,
            blen == b@.len(),
            k == T::pod_size(),
            at + n * k <= b@.len(),
            pos == at + i * k,
            w == b@.subrange(at as int, at + n * k),
            rows@ == rows_from::<T>(w, n as nat).take(i as int),
        decreases n - i,
    {
        proof {
            assert((i + 1) * k <= n * k) by (nonlinear_arith)
                requires
                    i + 1 <= n,
            ;
            assert((i + 1) * k == i * k + k) by (nonlinear_arith);
        }
        let r = T::read_le(b, pos);
        proof {
            assert(0 <= i * k) by (nonlinear_arith);
            assert(w.subrange(i * k, (i + 1) * k) =~= b@.subrange(pos as int, pos + k));
        }
        rows.push(r);
        pos = pos + k;
        i = i + 1;
        proof {
            assert(rows@ =~= rows_from::<T>(w, n as nat).take(i as int));
        }
    }
    assert(rows@ =~= rows_from::<T>(w, n as nat));
    rows
}

} // verus!

verus! {

// ----- the whole snapshot -----

/// The byte image of a snapshot: the header, the system-wide records,
/// then each row array preceded by its count and a padding word.
pub open spec fn snapshot_bytes(s: MetricSnapshotV3) -> Seq<u8> {
    s.header.pod_bytes() + s.memory.pod_bytes() + s.load.pod_bytes() + s.sched.pod_bytes()
        + s.tcp.pod_bytes() + s.security.pod_bytes() + le32(s.cpu_core_count) + le32(s._pad_cpu)
        + rows_bytes(s.cpu_cores@) + le32(s.net_iface_count) + le32(s._pad_net) + rows_bytes(
        s.net_ifaces@,
    ) + le32(s.block_dev_count) + le32(s._pad_blk) + rows_bytes(s.block_devs@) + le32(
        s.process_count,
    ) + le32(s._pad_proc) + rows_bytes(s.top_processes@) + le32(s.sched_cpu_count) + le32(
        s._pad_sched_cpu,
    ) + rows_bytes(s.sched_per_cpu@)
}

/// `s` is the snapshot stored in the first `SNAPSHOT_SIZE` bytes of `b`.
pub open spec fn snapshot_decodes(b: Seq<u8>, s: MetricSnapshotV3) -> bool {
    &&& s.header == ShmHeader::pod_from(b.subrange(0, 64))
    &&& s.memory == MemorySnapshot::pod_from(b.subrange(64, 152))
    &&& s.load == LoadSnapshotFixed::pod_from(b.subrange(152, 176))
    &&& s.sched == SchedSnapshotFixed::pod_from(b.subrange(176, 288))
    &&& s.tcp == TcpStateSnapshot::pod_from(b.subrange(288, 384))
    &&& s.security == SecurityEventCounts::pod_from(b.subrange(384, 432))
    &&& s.cpu_core_count == u32_at(b, 432)
    &&& s._pad_cpu == u32_at(b, 436)
    &&& s.cpu_cores@ == rows_from::<CpuStats>(b.subrange(440, 1464), 16)
    &&& s.net_iface_count == u32_at(b, 1464)
    &&& s._pad_net == u32_at(b, 1468)
    &&& s.net_ifaces@ == rows_from::<NetIfaceStats>(b.subrange(1472, 2048), 8)
    &&& s.block_dev_count == u32_at(b, 2048)
    &&& s._pad_blk == u32_at(b, 2052)
    &&& s.block_devs@ == rows_from::<BlockStats>(b.subrange(2056, 3208), 16)
    &&& s.process_count == u32_at(b, 3208)
    &&& s._pad_proc == u32_at(b, 3212)
    &&& s.top_processes@ == rows_from::<ProcessStats>(b.subrange(3216, 68752), 512)
    &&& s.sched_cpu_count == u32_at(b, 68752)
    &&& s._pad_sched_cpu == u32_at(b, 68756)
    &&& s.sched_per_cpu@ == rows_from::<SchedSnapshotFixed>(b.subrange(68760, 70552), 16)
}

/// Two snapshots hold the same header, records, counts and rows.
pub open spec fn same_snapshot(a: MetricSnapshotV3, b: MetricSnapshotV3) -> bool {
    &&& a.header == b.header
    &&& a.memory == b.memory
    &&& a.load == b.load
    &&& a.sched == b.sched
    &&& a.tcp == b.tcp
    &&& a.security == b.security
    &&& a.cpu_core_count == b.cpu_core_count && a._pad_cpu == b._pad_cpu
    &&& a.cpu_cores@ == b.cpu_cores@
    &&& a.net_iface_count == b.net_iface_count && a._pad_net == b._pad_net
    &&& a.net_ifaces@ == b.net_ifaces@
    &&& a.block_dev_count == b.block_dev_count && a._pad_blk == b._pad_blk
    &&& a.block_devs@ == b.block_devs@
    &&& a.process_count == b.process_count && a._pad_proc == b._pad_proc
    &&& a.top_processes@ == b.top_processes@
    &&& a.sched_cpu_count == b.sched_cpu_count && a._pad_sched_cpu == b._pad_sched_cpu
    &&& a.sched_per_cpu@ == b.sched_per_cpu@
}

// ----- field offsets of each record -----

/// The C layout of `ShmHeader`: 64 bytes, each field at its declared offset
/// in declaration order.
pub proof fn lemma_shm_header_layout(r: ShmHeader)
    ensures
        r.pod_bytes().len() == 64,
        u64_at(r.pod_bytes(), 0) == r.magic,
        u32_at(r.pod_bytes(), 8) == r.version,
        u32_at(r.pod_bytes(), 12) == r._pad0,
        u64_at(r.pod_bytes(), 16) == r.sequence,
        u64_at(r.pod_bytes(), 24) == r.timestamp_ns_wall,
        u32_at(r.pod_bytes(), 32) == r.snapshot_size,
        u32_at(r.pod_bytes(), 36) == r._pad1,
        r.pod_bytes().subrange(40, 64) == r._reserved@,
{
    let b = r.pod_bytes();
    r.lemma_pod_roundtrip();
    assert(b.subrange(40, 64) =~= r._reserved@);
}

/// The C layout of `MemorySnapshot`: 88 bytes, each field at its declared offset
/// in declaration order.
pub proof fn lemma_memory_snapshot_layout(r: MemorySnapshot)
    ensures
        r.pod_bytes().len() == 88,
        u64_at(r.pod_bytes(), 0) == r.total_bytes,
        u64_at(r.pod_bytes(), 8) == r.free_bytes,
        u64_at(r.pod_bytes(), 16) == r.cached_bytes,
        u64_at(r.pod_bytes(), 24) == r.buffered_bytes,
        u64_at(r.pod_bytes(), 32) == r.slab_bytes,
        u64_at(r.pod_bytes(), 40) == r.swap_used_bytes,
        u64_at(r.pod_bytes(), 48) == r.swap_free_bytes,
        u64_at(r.pod_bytes(), 56) == r.page_faults_minor,
        u64_at(r.pod_bytes(), 64) == r.page_faults_major,
        u32_at(r.pod_bytes(), 72) == r.psi_some_pct_x100,
        u32_at(r.pod_bytes(), 76) == r.psi_full_pct_x100,
        u64_at(r.pod_bytes(), 80) == r.oom_kills_total,
{
    let b = r.pod_bytes();
    r.lemma_pod_roundtrip();
}

/// The C layout of `LoadSnapshotFixed`: 24 bytes, each field at its declared offset
/// in declaration order.
pub proof fn lemma_load_snapshot_fixed_layout(r: LoadSnapshotFixed)
    ensures
        r.pod_bytes().len() == 24,
        u64_at(r.pod_bytes(), 0) == r.load_1_bits,
        u64_at(r.pod_bytes(), 8) == r.load_5_bits,
        u64_at(r.pod_bytes(), 16) == r.load_15_bits,
{
    let b = r.pod_bytes();
    r.lemma_pod_roundtrip();
}

/// The C layout of `SchedHistogram`: 88 bytes, each field at its declared offset
/// in declaration order.
pub proof fn lemma_sched_histogram_layout(r: SchedHistogram)
    ensures
        r.pod_bytes().len() == 88,
        u64_at(r.pod_bytes(), 0) == r.buckets[0],
        u64_at(r.pod_bytes(), 8) == r.buckets[1],
        u64_at(r.pod_bytes(), 16) == r.buckets[2],
        u64_at(r.pod_bytes(), 24) == r.buckets[3],
        u64_at(r.pod_bytes(), 32) == r.buckets[4],
        u64_at(r.pod_bytes(), 40) == r.buckets[5],
        u64_at(r.pod_bytes(), 48) == r.buckets[6],
        u64_at(r.pod_bytes(), 56) == r.buckets[7],
        u64_at(r.pod_bytes(), 64) == r.total_count,
        u64_at(r.pod_bytes(), 72) == r.total_latency_ns,
        u64_at(r.pod_bytes(), 80) == r.max_latency_ns,
{
    let b = r.pod_bytes();
    r.lemma_pod_roundtrip();
    assert(b.subrange(0, 64) =~= u64x8_bytes(r.buckets));
    lemma_u64x8(r.buckets);
    crate::le_bytes::lemma_u64_at_window(b, 0, 64, 0);
    crate::le_bytes::lemma_u64_at_window(b, 0, 64, 8);
    crate::le_bytes::lemma_u64_at_window(b, 0, 64, 16);
    crate::le_bytes::lemma_u64_at_window(b, 0, 64, 24);
    crate::le_bytes::lemma_u64_at_window(b, 0, 64, 32);
    crate::le_bytes::lemma_u64_at_window(b, 0, 64, 40);
    crate::le_bytes::lemma_u64_at_window(b, 0, 64, 48);
    crate::le_bytes::lemma_u64_at_window(b, 0, 64, 56);
}

/// The C layout of `SchedSnapshotFixed`: 112 bytes, each field at its declared offset
/// in declaration order.
pub proof fn lemma_sched_snapshot_fixed_layout(r: SchedSnapshotFixed)
    ensures
        r.pod_bytes().len() == 112,
        r.pod_bytes().subrange(0, 88) == r.histogram.pod_bytes(),
        u64_at(r.pod_bytes(), 88) == r.p50_ns,
        u64_at(r.pod_bytes(), 96) == r.p95_ns,
        u64_at(r.pod_bytes(), 104) == r.p99_ns,
{
    let b = r.pod_bytes();
    r.lemma_pod_roundtrip();
    r.histogram.lemma_pod_roundtrip();
    assert(b.subrange(0, 88) =~= r.histogram.pod_bytes());
}

/// The C layout of `TcpStateSnapshot`: 96 bytes, each field at its declared offset
/// in declaration order.
pub proof fn lemma_tcp_state_snapshot_layout(r: TcpStateSnapshot)
    ensures
        r.pod_bytes().len() == 96,
        u64_at(r.pod_bytes(), 0) == r.established,
        u64_at(r.pod_bytes(), 8) == r.syn_sent,
        u64_at(r.pod_bytes(), 16) == r.syn_recv,
        u64_at(r.pod_bytes(), 24) == r.fin_wait1,
        u64_at(r.pod_bytes(), 32) == r.fin_wait2,
        u64_at(r.pod_bytes(), 40) == r.time_wait,
        u64_at(r.pod_bytes(), 48) == r.close_wait,
        u64_at(r.pod_bytes(), 56) == r.listen,
        u64_at(r.pod_bytes(), 64) == r.listen_overflows,
        u64_at(r.pod_bytes(), 72) == r.retransmits,
        u64_at(r.pod_bytes(), 80) == r.resets_in,
        u64_at(r.pod_bytes(), 88) == r.resets_out,
{
    let b = r.pod_bytes();
    r.lemma_pod_roundtrip();
}

/// The C layout of `SecurityEventCounts`: 48 bytes, each field at its declared offset
/// in declaration order.
pub proof fn lemma_security_event_counts_layout(r: SecurityEventCounts)
    ensures
        r.pod_bytes().len() == 48,
        u64_at(r.pod_bytes(), 0) == r.ptrace,
        u64_at(r.pod_bytes(), 8) == r.memfd_create,
        u64_at(r.pod_bytes(), 16) == r.prctl,
        u64_at(r.pod_bytes(), 24) == r.setuid,
        u64_at(r.pod_bytes(), 32) == r.exec_anomaly,
        u64_at(r.pod_bytes(), 40) == r.capability_use,
{
    let b = r.pod_bytes();
    r.lemma_pod_roundtrip();
}

/// The C layout of `CpuStats`: 64 bytes, each field at its declared offset
/// in declaration order.
pub proof fn lemma_cpu_stats_layout(r: CpuStats)
    ensures
        r.pod_bytes().len() == 64,
        u32_at(r.pod_bytes(), 0) == r.cpu_id,
        u32_at(r.pod_bytes(), 4) == r._pad,
        u64_at(r.pod_bytes(), 8) == r.user_ns,
        u64_at(r.pod_bytes(), 16) == r.system_ns,
        u64_at(r.pod_bytes(), 24) == r.iowait_ns,
        u64_at(r.pod_bytes(), 32) == r.irq_ns,
        u64_at(r.pod_bytes(), 40) == r.softirq_ns,
        u64_at(r.pod_bytes(), 48) == r.idle_ns,
        u64_at(r.pod_bytes(), 56) == r.ctx_switches,
{
    let b = r.pod_bytes();
    r.lemma_pod_roundtrip();
}

/// The C layout of `NetIfaceStats`: 72 bytes, each field at its declared offset
/// in declaration order.
pub proof fn lemma_net_iface_stats_layout(r: NetIfaceStats)
    ensures
        r.pod_bytes().len() == 72,
        u32_at(r.pod_bytes(), 0) == r.iface_idx,
        u32_at(r.pod_bytes(), 4) == r._pad,
        u64_at(r.pod_bytes(), 8) == r.rx_bytes,
        u64_at(r.pod_bytes(), 16) == r.tx_bytes,
        u64_at(r.pod_bytes(), 24) == r.rx_packets,
        u64_at(r.pod_bytes(), 32) == r.tx_packets,
        u64_at(r.pod_bytes(), 40) == r.rx_drops,
        u64_at(r.pod_bytes(), 48) == r.tx_drops,
        u64_at(r.pod_bytes(), 56) == r.rx_errors,
        u64_at(r.pod_bytes(), 64) == r.tx_errors,
{
    let b = r.pod_bytes();
    r.lemma_pod_roundtrip();
}

/// The C layout of `BlockStats`: 72 bytes, each field at its declared offset
/// in declaration order.
pub proof fn lemma_block_stats_layout(r: BlockStats)
    ensures
        r.pod_bytes().len() == 72,
        u32_at(r.pod_bytes(), 0) == r.device_major,
        u32_at(r.pod_bytes(), 4) == r.device_minor,
        u64_at(r.pod_bytes(), 8) == r.reads_completed,
        u64_at(r.pod_bytes(), 16) == r.writes_completed,
        u64_at(r.pod_bytes(), 24) == r.read_bytes,
        u64_at(r.pod_bytes(), 32) == r.write_bytes,
        u64_at(r.pod_bytes(), 40) == r.read_latency_ns,
        u64_at(r.pod_bytes(), 48) == r.write_latency_ns,
        u64_at(r.pod_bytes(), 56) == r.io_inflight,
        u64_at(r.pod_bytes(), 64) == r.io_ticks_ms,
{
    let b = r.pod_bytes();
    r.lemma_pod_roundtrip();
}

/// The C layout of `ProcessStats`: 128 bytes, each field at its declared offset
/// in declaration order.
pub proof fn lemma_process_stats_layout(r: ProcessStats)
    ensures
        r.pod_bytes().len() == 128,
        u32_at(r.pod_bytes(), 0) == r.pid,
        u32_at(r.pod_bytes(), 4) == r.ppid,
        u32_at(r.pod_bytes(), 8) == r.uid,
        u32_at(r.pod_bytes(), 12) == r.thread_count,
        u64_at(r.pod_bytes(), 16) == r.cpu_user_ns,
        u64_at(r.pod_bytes(), 24) == r.cpu_system_ns,
        u64_at(r.pod_bytes(), 32) == r.mem_rss_bytes,
        u64_at(r.pod_bytes(), 40) == r.mem_vms_bytes,
        u64_at(r.pod_bytes(), 48) == r.voluntary_ctx_sw,
        u64_at(r.pod_bytes(), 56) == r.involuntary_ctx_sw,
        u64_at(r.pod_bytes(), 64) == r.read_bytes,
        u64_at(r.pod_bytes(), 72) == r.write_bytes,
        u64_at(r.pod_bytes(), 80) == r.page_faults_minor,
        u64_at(r.pod_bytes(), 88) == r.page_faults_major,
        u64_at(r.pod_bytes(), 96) == r.start_time_ns,
        u32_at(r.pod_bytes(), 104) == r.open_fds,
        u32_at(r.pod_bytes(), 108) == r._pad,
        r.pod_bytes().subrange(112, 128) == r.comm@,
{
    let b = r.pod_bytes();
    r.lemma_pod_roundtrip();
    assert(b.subrange(112, 128) =~= r.comm@);
}

/// The C layout of `CgroupNetBytes`: 56 bytes, each field at its declared offset
/// in declaration order.
pub proof fn lemma_cgroup_net_bytes_layout(r: CgroupNetBytes)
    ensures
        r.pod_bytes().len() == 56,
        u64_at(r.pod_bytes(), 0) == r.cgroup_id,
        u64_at(r.pod_bytes(), 8) == r.rx_bytes,
        u64_at(r.pod_bytes(), 16) == r.tx_bytes,
        u64_at(r.pod_bytes(), 24) == r.rx_packets,
        u64_at(r.pod_bytes(), 32) == r.tx_packets,
        u64_at(r.pod_bytes(), 40) == r.rx_internet_bytes,
        u64_at(r.pod_bytes(), 48) == r.tx_internet_bytes,
{
    let b = r.pod_bytes();
    r.lemma_pod_roundtrip();
}

/// The C layout of `EventDropCounts`: 24 bytes, each field at its declared offset
/// in declaration order.
pub proof fn lemma_event_drop_counts_layout(r: EventDropCounts)
    ensures
        r.pod_bytes().len() == 24,
        u64_at(r.pod_bytes(), 0) == r.process,
        u64_at(r.pod_bytes(), 8) == r.security,
        u64_at(r.pod_bytes(), 16) == r.network,
{
    let b = r.pod_bytes();
    r.lemma_pod_roundtrip();
}

/// The C layout of `ProcessEvent`: 304 bytes, each field at its declared offset
/// in declaration order.
pub proof fn lemma_process_event_layout(r: ProcessEvent)
    ensures
        r.pod_bytes().len() == 304,
        u32_at(r.pod_bytes(), 0) == r.kind,
        u32_at(r.pod_bytes(), 4) == r.pid,
        u32_at(r.pod_bytes(), 8) == r.ppid,
        u32_at(r.pod_bytes(), 12) == r.uid,
        u32_at(r.pod_bytes(), 16) as i32 == r.exit_code,
        u32_at(r.pod_bytes(), 20) == r._pad,
        u64_at(r.pod_bytes(), 24) == r.timestamp_ns,
        r.pod_bytes().subrange(32, 48) == r.comm@,
        r.pod_bytes().subrange(48, 304) == r.filename@,
{
    let b = r.pod_bytes();
    r.lemma_pod_roundtrip();
    assert(b.subrange(32, 48) =~= r.comm@);
    assert(b.subrange(48, 304) =~= r.filename@);
}

/// The C layout of `NetEvent`: 56 bytes, each field at its declared offset
/// in declaration order.
pub proof fn lemma_net_event_layout(r: NetEvent)
    ensures
        r.pod_bytes().len() == 56,
        u32_at(r.pod_bytes(), 0) == r.kind,
        u16_at(r.pod_bytes(), 4) == r.family,
        u16_at(r.pod_bytes(), 6) == r.sport,
        u16_at(r.pod_bytes(), 8) == r.dport,
        u16_at(r.pod_bytes(), 10) == r.drop_reason,
        r.pod_bytes()[12] == r.old_state,
        r.pod_bytes()[13] == r.new_state,
        r.pod_bytes().subrange(14, 16) == r._pad@,
        r.pod_bytes().subrange(16, 32) == r.saddr@,
        r.pod_bytes().subrange(32, 48) == r.daddr@,
        u64_at(r.pod_bytes(), 48) == r.timestamp_ns,
{
    let b = r.pod_bytes();
    r.lemma_pod_roundtrip();
    assert(b.subrange(14, 16) =~= r._pad@);
    assert(b.subrange(16, 32) =~= r.saddr@);
    assert(b.subrange(32, 48) =~= r.daddr@);
}

/// The C layout of `SecurityEvent`: 312 bytes, each field at its declared offset
/// in declaration order.
pub proof fn lemma_security_event_layout(r: SecurityEvent)
    ensures
        r.pod_bytes().len() == 312,
        u32_at(r.pod_bytes(), 0) == r.kind,
        u32_at(r.pod_bytes(), 4) == r.pid,
        u32_at(r.pod_bytes(), 8) == r.ppid,
        u32_at(r.pod_bytes(), 12) == r.uid,
        r.pod_bytes()[16] == r.severity,
        r.pod_bytes().subrange(17, 24) == r._pad@,
        u64_at(r.pod_bytes(), 24) == r.arg,
        u64_at(r.pod_bytes(), 32) == r.timestamp_ns,
        r.pod_bytes().subrange(40, 56) == r.comm@,
        r.pod_bytes().subrange(56, 312) == r.filename@,
{
    let b = r.pod_bytes();
    r.lemma_pod_roundtrip();
    assert(b.subrange(17, 24) =~= r._pad@);
    assert(b.subrange(40, 56) =~= r.comm@);
    assert(b.subrange(56, 312) =~= r.filename@);
}


/// The image of a well-formed snapshot is `SNAPSHOT_SIZE` bytes long and
/// decodes to that snapshot.
pub proof fn lemma_snapshot_image(s: MetricSnapshotV3)
    requires
        s.wf(),
    ensures
        snapshot_bytes(s).len() == SNAPSHOT_SIZE,
        snapshot_decodes(snapshot_bytes(s), s),
{
    let b = snapshot_bytes(s);
    s.header.lemma_pod_roundtrip();
    s.memory.lemma_pod_roundtrip();
    s.load.lemma_pod_roundtrip();
    s.sched.lemma_pod_roundtrip();
    s.tcp.lemma_pod_roundtrip();
    s.security.lemma_pod_roundtrip();
    lemma_rows_roundtrip(s.cpu_cores@);
    lemma_rows_roundtrip(s.net_ifaces@);
    lemma_rows_roundtrip(s.block_devs@);
    lemma_rows_roundtrip(s.top_processes@);
    lemma_rows_roundtrip(s.sched_per_cpu@);
    assert(b.subrange(0, 64) =~= s.header.pod_bytes());
    assert(b.subrange(64, 152) =~= s.memory.pod_bytes());
    assert(b.subrange(152, 176) =~= s.load.pod_bytes());
    assert(b.subrange(176, 288) =~= s.sched.pod_bytes());
    assert(b.subrange(288, 384) =~= s.tcp.pod_bytes());
    assert(b.subrange(384, 432) =~= s.security.pod_bytes());
    assert(b.subrange(432, 436) =~= le32(s.cpu_core_count));
    assert(b.subrange(436, 440) =~= le32(s._pad_cpu));
    assert(b.subrange(440, 1464) =~= rows_bytes(s.cpu_cores@));
    assert(b.subrange(1464, 1468) =~= le32(s.net_iface_count));
    assert(b.subrange(1468, 1472) =~= le32(s._pad_net));
    assert(b.subrange(1472, 2048) =~= rows_bytes(s.net_ifaces@));
    assert(b.subrange(2048, 2052) =~= le32(s.block_dev_count));
    assert(b.subrange(2052, 2056) =~= le32(s._pad_blk));
    assert(b.subrange(2056, 3208) =~= rows_bytes(s.block_devs@));
    assert(b.subrange(3208, 3212) =~= le32(s.process_count));
    assert(b.subrange(3212, 3216) =~= le32(s._pad_proc));
    assert(b.subrange(3216, 68752) =~= rows_bytes(s.top_processes@));
    assert(b.subrange(68752, 68756) =~= le32(s.sched_cpu_count));
    assert(b.subrange(68756, 68760) =~= le32(s._pad_sched_cpu));
    assert(b.subrange(68760, 70552) =~= rows_bytes(s.sched_per_cpu@));
}

/// A reader decodes from a published image exactly the snapshot that was
/// published.
pub proof fn lemma_decode_of_encode(s: MetricSnapshotV3, r: MetricSnapshotV3)
    requires
        s.wf(),
        snapshot_decodes(snapshot_bytes(s), r),
    ensures
        same_snapshot(r, s),
{
    lemma_snapshot_image(s);
}

impl MetricSnapshotV3 {
    /// The byte image written into the shared-memory segment.
    pub fn encode(&self) -> (b: Vec<u8>)
        requires
            self.wf(),
        ensures
            b@ == snapshot_bytes(*self),
            b@.len() == SNAPSHOT_SIZE,
    {
        let mut v: Vec<u8> = Vec::with_capacity(SNAPSHOT_SIZE);
        self.header.write_le(&mut v);
        self.memory.write_le(&mut v);
        self.load.write_le(&mut v);
        self.sched.write_le(&mut v);
        self.tcp.write_le(&mut v);
        self.security.write_le(&mut v);
        push_u32(&mut v, self.cpu_core_count);
        push_u32(&mut v, self._pad_cpu);
        write_rows(&mut v, &self.cpu_cores);
        push_u32(&mut v, self.net_iface_count);
        push_u32(&mut v, self._pad_net);
        write_rows(&mut v, &self.net_ifaces);
        push_u32(&mut v, self.block_dev_count);
        push_u32(&mut v, self._pad_blk);
        write_rows(&mut v, &self.block_devs);
        push_u32(&mut v, self.process_count);
        push_u32(&mut v, self._pad_proc);
        write_rows(&mut v, &self.top_processes);
        push_u32(&mut v, self.sched_cpu_count);
        push_u32(&mut v, self._pad_sched_cpu);
        write_rows(&mut v, &self.sched_per_cpu);
        proof {
            assert(v@ =~= snapshot_bytes(*self));
            lemma_snapshot_image(*self);
        }
        v
    }

    /// Read a snapshot back from the first `SNAPSHOT_SIZE` bytes of a
    /// segment image; `None` when the image is shorter than that.
    pub fn decode(b: &[u8]) -> (r: Option<MetricSnapshotV3>)
        ensures
            r is None <==> b@.len() < SNAPSHOT_SIZE,
            r matches Some(s) ==> s.wf() && snapshot_decodes(b@, s),
    {
        if b.len() < SNAPSHOT_SIZE {
            return None;
        }
        let header = ShmHeader::read_le(b, 0);
        let memory = MemorySnapshot::read_le(b, 64);
        let load = LoadSnapshotFixed::read_le(b, 152);
        let sched = SchedSnapshotFixed::read_le(b, 176);
        let tcp = TcpStateSnapshot::read_le(b, 288);
        let security = SecurityEventCounts::read_le(b, 384);
        let cpu_cores: Vec<CpuStats> = read_rows(b, 440, V3_MAX_CPU_CORES);
        let net_ifaces: Vec<NetIfaceStats> = read_rows(b, 1472, V3_MAX_NET_IFACES);
        let block_devs: Vec<BlockStats> = read_rows(b, 2056, V3_MAX_BLOCK_DEVS);
        let top_processes: Vec<ProcessStats> = read_rows(b, 3216, V3_MAX_PROCESSES);
        let sched_per_cpu: Vec<SchedSnapshotFixed> = read_rows(b, 68760, V3_MAX_CPU_CORES);
        Some(
            MetricSnapshotV3 {
                header,
                memory,
                load,
                sched,
                tcp,
                security,
                cpu_core_count: read_u32(b, 432),
                _pad_cpu: read_u32(b, 436),
                cpu_cores,
                net_iface_count: read_u32(b, 1464),
                _pad_net: read_u32(b, 1468),
                net_ifaces,
                block_dev_count: read_u32(b, 2048),
                _pad_blk: read_u32(b, 2052),
                block_devs,
                process_count: read_u32(b, 3208),
                _pad_proc: read_u32(b, 3212),
                top_processes,
                sched_cpu_count: read_u32(b, 68752),
                _pad_sched_cpu: read_u32(b, 68756),
                sched_per_cpu,
            },
        )
    }
}

} // verus!

verus! {

// ----- the seqlock counter -----

/// The image with the eight sequence-counter bytes at `SEQ_OFFSET`
/// replaced by `seq`.
pub open spec fn with_sequence_bytes(b: Seq<u8>, seq: u64) -> Seq<u8> {
    b.subrange(0, SEQ_OFFSET as int) + le64(seq) + b.subrange(SEQ_OFFSET + 8, b.len() as int)
}

/// The snapshot with its header's sequence counter set to `seq`.
pub open spec fn with_sequence(s: MetricSnapshotV3, seq: u64) -> MetricSnapshotV3 {
    MetricSnapshotV3 { header: ShmHeader { sequence: seq, ..s.header }, ..s }
}

/// The image of a well-formed snapshot places each part at its C layout
/// offset: the header at 0, memory at 64, load at 152, scheduler at 176,
/// TCP at 288, the security counters at 384 (the six `u64`s `ptrace`,
/// `memfd_create`, `prctl`, `setuid`, `exec_anomaly`, `capability_use` in
/// that order), then each count with its rows: CPU rows of 64 bytes from
/// 440, interface rows of 72 bytes from 1472, block rows of 72 bytes from
/// 2056, process rows of 128 bytes from 3216 and per-CPU scheduler rows of
/// 112 bytes from 68760.
#[verifier::rlimit(40)]
pub proof fn lemma_snapshot_layout(s: MetricSnapshotV3)
    requires
        s.wf(),
    ensures
        ({
            let b = snapshot_bytes(s);
            &&& b.len() == 70552
            &&& b.subrange(0, 64) == s.header.pod_bytes()
            &&& b.subrange(64, 152) == s.memory.pod_bytes()
            &&& b.subrange(152, 176) == s.load.pod_bytes()
            &&& b.subrange(176, 288) == s.sched.pod_bytes()
            &&& b.subrange(288, 384) == s.tcp.pod_bytes()
            &&& b.subrange(384, 432) == s.security.pod_bytes()
            &&& u64_at(b, 384) == s.security.ptrace
            &&& u64_at(b, 392) == s.security.memfd_create
            &&& u64_at(b, 400) == s.security.prctl
            &&& u64_at(b, 408) == s.security.setuid
            &&& u64_at(b, 416) == s.security.exec_anomaly
            &&& u64_at(b, 424) == s.security.capability_use
            &&& u32_at(b, 432) == s.cpu_core_count
            &&& u32_at(b, 1464) == s.net_iface_count
            &&& u32_at(b, 2048) == s.block_dev_count
            &&& u32_at(b, 3208) == s.process_count
            &&& u32_at(b, 68752) == s.sched_cpu_count
            &&& forall|i: int| 0 <= i < 16 ==> b.subrange(440 + 64 * i, 504 + 64 * i)
                == (#[trigger] s.cpu_cores@[i]).pod_bytes()
            &&& forall|i: int| 0 <= i < 8 ==> b.subrange(1472 + 72 * i, 1544 + 72 * i)
                == (#[trigger] s.net_ifaces@[i]).pod_bytes()
            &&& forall|i: int| 0 <= i < 16 ==> b.subrange(2056 + 72 * i, 2128 + 72 * i)
                == (#[trigger] s.block_devs@[i]).pod_bytes()
            &&& forall|i: int| 0 <= i < 512 ==> b.subrange(3216 + 128 * i, 3344 + 128 * i)
                == (#[trigger] s.top_processes@[i]).pod_bytes()
            &&& forall|i: int| 0 <= i < 16 ==> b.subrange(68760 + 112 * i, 68872 + 112 * i)
                == (#[trigger] s.sched_per_cpu@[i]).pod_bytes()
        }),
{
    let b = snapshot_bytes(s);
    lemma_snapshot_image(s);
    s.header.lemma_pod_roundtrip();
    s.memory.lemma_pod_roundtrip();
    s.load.lemma_pod_roundtrip();
    s.sched.lemma_pod_roundtrip();
    s.tcp.lemma_pod_roundtrip();
    s.security.lemma_pod_roundtrip();
    lemma_rows(s.cpu_cores@);
    lemma_rows(s.net_ifaces@);
    lemma_rows(s.block_devs@);
    lemma_rows(s.top_processes@);
    lemma_rows(s.sched_per_cpu@);
    assert(b.subrange(0, 64) =~= s.header.pod_bytes());
    assert(b.subrange(64, 152) =~= s.memory.pod_bytes());
    assert(b.subrange(152, 176) =~= s.load.pod_bytes());
    assert(b.subrange(176, 288) =~= s.sched.pod_bytes());
    assert(b.subrange(288, 384) =~= s.tcp.pod_bytes());
    assert(b.subrange(384, 432) =~= s.security.pod_bytes());
    lemma_security_event_counts_layout(s.security);
    crate::le_bytes::lemma_u64_at_window(b, 384, 48, 0);
    crate::le_bytes::lemma_u64_at_window(b, 384, 48, 8);
    crate::le_bytes::lemma_u64_at_window(b, 384, 48, 16);
    crate::le_bytes::lemma_u64_at_window(b, 384, 48, 24);
    crate::le_bytes::lemma_u64_at_window(b, 384, 48, 32);
    crate::le_bytes::lemma_u64_at_window(b, 384, 48, 40);
    let cpu = b.subrange(440, 1464);
    assert(cpu =~= rows_bytes(s.cpu_cores@));
    assert forall|i: int| 0 <= i < 16 implies b.subrange(440 + 64 * i, 504 + 64 * i)
        == (#[trigger] s.cpu_cores@[i]).pod_bytes() by {
        assert(b.subrange(440 + 64 * i, 504 + 64 * i) =~= cpu.subrange(i * 64, (i + 1) * 64));
    }
    let net = b.subrange(1472, 2048);
    assert(net =~= rows_bytes(s.net_ifaces@));
    assert forall|i: int| 0 <= i < 8 implies b.subrange(1472 + 72 * i, 1544 + 72 * i)
        == (#[trigger] s.net_ifaces@[i]).pod_bytes() by {
        assert(b.subrange(1472 + 72 * i, 1544 + 72 * i) =~= net.subrange(i * 72, (i + 1) * 72));
    }
    let blk = b.subrange(2056, 3208);
    assert(blk =~= rows_bytes(s.block_devs@));
    assert forall|i: int| 0 <= i < 16 implies b.subrange(2056 + 72 * i, 2128 + 72 * i)
        == (#[trigger] s.block_devs@[i]).pod_bytes() by {
        assert(b.subrange(2056 + 72 * i, 2128 + 72 * i) =~= blk.subrange(i * 72, (i + 1) * 72));
    }
    let procs = b.subrange(3216, 68752);
    assert(procs =~= rows_bytes(s.top_processes@));
    assert forall|i: int| 0 <= i < 512 implies b.subrange(3216 + 128 * i, 3344 + 128 * i)
        == (#[trigger] s.top_processes@[i]).pod_bytes() by {
        assert(b.subrange(3216 + 128 * i, 3344 + 128 * i) =~= procs.subrange(i * 128, (i + 1) * 128));
    }
    let sch = b.subrange(68760, 70552);
    assert(sch =~= rows_bytes(s.sched_per_cpu@));
    assert forall|i: int| 0 <= i < 16 implies b.subrange(68760 + 112 * i, 68872 + 112 * i)
        == (#[trigger] s.sched_per_cpu@[i]).pod_bytes() by {
        assert(b.subrange(68760 + 112 * i, 68872 + 112 * i) =~= sch.subrange(i * 112, (i + 1) * 112));
    }
}

/// The sequence counter of a snapshot occupies bytes `SEQ_OFFSET ..
/// SEQ_OFFSET + 8` of its image, which is how the writer can publish the
/// body and the counter separately.
#[verifier::spinoff_prover]
#[verifier::rlimit(60)]
pub proof fn lemma_sequence_field(s: MetricSnapshotV3, seq: u64)
    requires
        s.wf(),
    ensures
        snapshot_bytes(s).subrange(SEQ_OFFSET as int, SEQ_OFFSET + 8) == le64(s.header.sequence),
        u64_at(snapshot_bytes(s), SEQ_OFFSET as int) == s.header.sequence,
        snapshot_bytes(with_sequence(s, seq)) == with_sequence_bytes(snapshot_bytes(s), seq),
{
    let b = snapshot_bytes(s);
    let h = s.header;
    lemma_snapshot_image(s);
    lemma_snapshot_image(with_sequence(s, seq));
    let pre = le64(h.magic) + le32(h.version) + le32(h._pad0);
    assert(h.pod_bytes() =~= pre + le64(h.sequence) + h.pod_bytes().subrange(24, 64));
    assert(b.subrange(SEQ_OFFSET as int, SEQ_OFFSET + 8) =~= le64(h.sequence));
    lemma_read_u64(pre, h.sequence, h.pod_bytes().subrange(24, 64));
    assert(u64_at(b, 16) == u64_at(h.pod_bytes(), 16));
    let h2 = with_sequence(s, seq).header;
    assert(h2.pod_bytes() =~= pre + le64(seq) + h.pod_bytes().subrange(24, 64));
    assert(snapshot_bytes(with_sequence(s, seq)) =~= with_sequence_bytes(b, seq));
}

/// What a reader decodes from an image whose counter was stamped after
/// the body was written is the published snapshot carrying that counter.
pub proof fn lemma_read_published(s: MetricSnapshotV3, seq: u64, r: MetricSnapshotV3)
    requires
        s.wf(),
        snapshot_decodes(with_sequence_bytes(snapshot_bytes(s), seq), r),
    ensures
        same_snapshot(r, with_sequence(s, seq)),
        r.header.sequence == seq,
{
    lemma_sequence_field(s, seq);
    lemma_snapshot_image(with_sequence(s, seq));
}

/// Overwrite the sequence counter inside a segment image.
pub fn stamp_sequence(image: &mut Vec<u8>, seq: u64)
    requires
        old(image)@.len() >= SEQ_OFFSET + 8,
    ensures
        final(image)@ == with_sequence_bytes(old(image)@, seq),
{
    let bytes = u64_to_le_bytes(seq);
    let mut i: usize = 0;
    while i < 8
        invariant
            i <= 8,
            bytes@ == le64(seq),
            old(image)@.len() >= SEQ_OFFSET + 8,
            image@.len() == old(image)@.len(),
            forall|k: int|
                0 <= k < image@.len() ==> #[trigger] image@[k] == if SEQ_OFFSET <= k < SEQ_OFFSET
                    + i {
                    bytes@[k - SEQ_OFFSET]
                } else {
                    old(image)@[k]
                },
        decreases 8 - i,
    {
        image.set(SEQ_OFFSET + i, bytes[i]);
        i = i + 1;
    }
    assert(image@ =~= with_sequence_bytes(old(image)@, seq));
}

/// Writer side of the seqlock: the counter last stored into the segment.
/// It is odd exactly while a write is in progress.
#[derive(Copy, Clone, Debug)]
pub struct SeqlockWriter {
    pub local_seq: u64,
}

impl SeqlockWriter {
    /// A writer over a freshly initialised segment (counter 0: stable, empty).
    pub fn new() -> (w: Self)
        ensures
            w.local_seq == 0,
    {
        SeqlockWriter { local_seq: 0 }
    }

    /// Mark a write as in progress; returns the counter to store before
    /// the body is copied.
    pub fn begin_write(&mut self) -> (seq: u64)
        ensures
            seq == old(self).local_seq.wrapping_add(1),
            final(self).local_seq == seq,
    {
        self.local_seq = self.local_seq.wrapping_add(1);
        self.local_seq
    }

    /// Mark the write as complete; returns the counter to store after the
    /// body is copied.
    pub fn end_write(&mut self) -> (seq: u64)
        ensures
            seq == old(self).local_seq.wrapping_add(1),
            final(self).local_seq == seq,
    {
        self.local_seq = self.local_seq.wrapping_add(1);
        self.local_seq
    }
}

/// The counter is odd while a write is in progress and even between
/// writes: starting from a stable (even) counter, `begin_write` yields an
/// odd value and the following `end_write` an even one, two past the start
/// (modulo 2^64).
pub proof fn lemma_seqlock_parity(start: u64)
    requires
        start % 2 == 0,
    ensures
        start.wrapping_add(1) % 2 == 1,
        start.wrapping_add(1).wrapping_add(1) % 2 == 0,
        start.wrapping_add(1).wrapping_add(1) as int == (start + 2) % 0x1_0000_0000_0000_0000,
{
}

/// Attempts a reader makes before giving up on a segment that never
/// settles.
pub const READ_RETRY_BUDGET: usize = 1024;

/// Attempts after which a never-published (counter 0) segment is accepted
/// as it is.
pub const EMPTY_SEGMENT_PATIENCE: usize = 4;

/// Whether a reader that loaded counter `seq1` should copy the segment:
/// only when no write is in progress.
pub fn seqlock_should_copy(seq1: u64) -> (copy: bool)
    ensures
        copy <==> seq1 % 2 == 0,
{
    assert(seq1 & 1 == 0 <==> seq1 % 2 == 0) by (bit_vector);
    seq1 & 1 == 0
}

/// Whether a copy made between loads `seq1` and `seq2` on attempt
/// `attempt` is accepted: the counter did not change during the copy, and
/// it is either nonzero (a published snapshot) or zero on an attempt past
/// the patience threshold (a segment that was never published).
pub fn seqlock_accepts(attempt: usize, seq1: u64, seq2: u64) -> (ok: bool)
    ensures
        ok <==> seq1 == seq2 && (seq1 != 0 || attempt > EMPTY_SEGMENT_PATIENCE),
{
    seq1 == seq2 && (seq1 != 0 || attempt > EMPTY_SEGMENT_PATIENCE)
}

/// An accepted copy was made while the counter was even and unchanged: no
/// write overlapped it.
pub proof fn lemma_accepted_copy_is_stable(attempt: usize, seq1: u64, seq2: u64)
    requires
        seq1 % 2 == 0,
        seq1 == seq2 && (seq1 != 0 || attempt > EMPTY_SEGMENT_PATIENCE),
    ensures
        seq1 == seq2,
        seq2 % 2 == 0,
{
}

// ----- header checks -----

/// Why a segment image is not a usable snapshot.
#[derive(Copy, Clone, Debug, PartialEq, Eq, Structural)]
pub enum SegmentError {
    /// The segment holds fewer bytes than a snapshot.
    TooShort { len: usize },
    /// The header's magic number is not `SHM_MAGIC`.
    BadMagic { found: u64 },
    /// The header's schema version is not `SHM_VERSION`.
    BadVersion { found: u32 },
    /// The header's size field is not `SNAPSHOT_SIZE`.
    BadSize { found: u32 },
    /// The seqlock never settled within the retry budget.
    RetryBudgetExhausted,
}

/// The verdict on a header: the first of magic, version and size that is
/// wrong, in that order.
pub open spec fn header_verdict(h: ShmHeader) -> Result<(), SegmentError> {
    if h.magic != SHM_MAGIC {
        Err(SegmentError::BadMagic { found: h.magic })
    } else if h.version != SHM_VERSION {
        Err(SegmentError::BadVersion { found: h.version })
    } else if h.snapshot_size != SNAPSHOT_SIZE {
        Err(SegmentError::BadSize { found: h.snapshot_size })
    } else {
        Ok(())
    }
}

impl ShmHeader {
    /// Check that a header read from a segment belongs to this schema.
    pub fn validate(&self) -> (r: Result<(), SegmentError>)
        ensures
            r == header_verdict(*self),
    {
        if self.magic != SHM_MAGIC {
            Err(SegmentError::BadMagic { found: self.magic })
        } else if self.version != SHM_VERSION {
            Err(SegmentError::BadVersion { found: self.version })
        } else if self.snapshot_size as usize != SNAPSHOT_SIZE {
            Err(SegmentError::BadSize { found: self.snapshot_size })
        } else {
            Ok(())
        }
    }
}

/// Decode and check a segment image as a reader does: too short an image,
/// then a foreign header, are errors; otherwise the decoded snapshot.
pub fn read_segment(b: &[u8]) -> (r: Result<MetricSnapshotV3, SegmentError>)
    ensures
        b@.len() < SNAPSHOT_SIZE ==> r == Err::<MetricSnapshotV3, SegmentError>(
            SegmentError::TooShort { len: b@.len() as usize },
        ),
        b@.len() >= SNAPSHOT_SIZE ==> match r {
            Ok(s) => s.wf() && snapshot_decodes(b@, s) && header_verdict(s.header) == Ok::<
                (),
                SegmentError,
            >(()),
            Err(e) => header_verdict(ShmHeader::pod_from(b@.subrange(0, 64))) == Err::<
                (),
                SegmentError,
            >(e),
        },
{
    match MetricSnapshotV3::decode(b) {
        None => Err(SegmentError::TooShort { len: b.len() }),
        Some(s) => match s.header.validate() {
            Ok(()) => Ok(s),
            Err(e) => Err(e),
        },
    }
}

impl MetricSnapshotV3 {
    /// The segment contents right after creation: a fresh header
    /// (magic, version, size; counter 0) and every other byte zero.
    pub open spec fn is_initial(&self) -> bool {
        &&& self.header.is_fresh()
        &&& with_header_zeroed(*self).is_zeroed()
    }

    /// The initial segment contents.
    pub fn initial() -> (s: Self)
        ensures
            s.is_initial(),
            s.wf(),
    {
        let mut s = MetricSnapshotV3::zeroed();
        s.header = ShmHeader::new();
        s
    }
}

/// The snapshot with an all-zero header.
pub open spec fn with_header_zeroed(s: MetricSnapshotV3) -> MetricSnapshotV3 {
    MetricSnapshotV3 {
        header: ShmHeader {
            magic: 0,
            version: 0,
            _pad0: 0,
            sequence: 0,
            timestamp_ns_wall: 0,
            snapshot_size: 0,
            _pad1: 0,
            _reserved: s.header._reserved,
        },
        ..s
    }
}

} // verus!

verus! {

// ----- presentation -----

/// `"{secs}s + {subsec:09}ns since epoch"` for a wall-clock timestamp in
/// nanoseconds, as ASCII bytes.
pub open spec fn wall_ns_bytes(ns: u64) -> Seq<u8> {
    decimal_bytes((ns / 1_000_000_000) as nat) + seq![115u8, 32, 43, 32]  // "s + "
     + padded_decimal_bytes((ns % 1_000_000_000) as nat, 9) + seq![
        110u8,
        115,
        32,
        115,
        105,
        110,
        99,
        101,
        32,
        101,
        112,
        111,
        99,
        104,
    ]  // "ns since epoch"

}

/// Human-readable form of a wall-clock timestamp: whole seconds since the
/// UNIX epoch plus the nanoseconds within the second.
pub fn format_wall_ns(ns: u64) -> (s: String)
    ensures
        s@ == ascii_chars(wall_ns_bytes(ns)),
{
    let secs = ns / 1_000_000_000;
    let subsec = ns % 1_000_000_000;
    let mut v: Vec<u8> = Vec::new();
    push_decimal(&mut v, secs);
    let sep: [u8; 4] = [115, 32, 43, 32];
    push_bytes(&mut v, &sep);
    push_padded_decimal(&mut v, subsec, 9);
    let tail: [u8; 14] = [110, 115, 32, 115, 105, 110, 99, 101, 32, 101, 112, 111, 99, 104];
    push_bytes(&mut v, &tail);
    proof {
        assert(v@ =~= wall_ns_bytes(ns));
        lemma_decimal_ascii(secs as nat);
        lemma_padded_decimal_ascii(subsec as nat, 9);
        assert(all_ascii(wall_ns_bytes(ns)));
    }
    ascii_string(v.as_slice())
}

} // verus!
