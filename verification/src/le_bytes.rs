//! Little-endian integer fields inside byte buffers.

use vstd::bytes::{
    spec_u16_from_le_bytes, spec_u16_to_le_bytes, spec_u32_from_le_bytes, spec_u32_to_le_bytes,
    spec_u64_from_le_bytes, spec_u64_to_le_bytes, u16_from_le_bytes, u16_to_le_bytes,
    u32_from_le_bytes, u32_to_le_bytes, u64_from_le_bytes, u64_to_le_bytes,
};
use vstd::prelude::*;
use vstd::slice::slice_subrange;

verus! {

/// Little-endian bytes of a `u64`.
pub open spec fn le64(x: u64) -> Seq<u8> {
    spec_u64_to_le_bytes(x)
}

/// Little-endian bytes of a `u32`.
pub open spec fn le32(x: u32) -> Seq<u8> {
    spec_u32_to_le_bytes(x)
}

/// Little-endian bytes of a `u16`.
pub open spec fn le16(x: u16) -> Seq<u8> {
    spec_u16_to_le_bytes(x)
}

/// The `u16` stored little-endian at byte offset `o` of `b`.
pub open spec fn u16_at(b: Seq<u8>, o: int) -> u16 {
    spec_u16_from_le_bytes(b.subrange(o, o + 2))
}

pub broadcast proof fn lemma_le16(x: u16)
    ensures
        #[trigger] le16(x).len() == 2,
        spec_u16_from_le_bytes(le16(x)) == x,
{
    vstd::bytes::lemma_auto_spec_u16_to_from_le_bytes();
    assert(spec_u16_to_le_bytes(x).len() == 2);
}

pub broadcast proof fn lemma_u16_at_window(b: Seq<u8>, at: int, n: int, o: int)
    requires
        0 <= at,
        at + n <= b.len(),
        0 <= o,
        o + 2 <= n,
    ensures
        #[trigger] u16_at(b.subrange(at, at + n), o) == u16_at(b, at + o),
{
    assert(b.subrange(at, at + n).subrange(o, o + 2) =~= b.subrange(at + o, at + o + 2));
}

pub proof fn lemma_read_u16(pre: Seq<u8>, x: u16, post: Seq<u8>)
    ensures
        u16_at(pre + le16(x) + post, pre.len() as int) == x,
{
    lemma_le16(x);
    assert((pre + le16(x) + post).subrange(pre.len() as int, pre.len() + 2int) =~= le16(x));
}

pub fn push_u16(v: &mut Vec<u8>, x: u16)
    ensures
        final(v)@ == old(v)@ + le16(x),
{
    let mut b = u16_to_le_bytes(x);
    v.append(&mut b);
}

pub fn read_u16(b: &[u8], at: usize) -> (x: u16)
    requires
        at + 2 <= b@.len(),
    ensures
        x == u16_at(b@, at as int),
{
    let _n = b.len();
    u16_from_le_bytes(slice_subrange(b, at, at + 2))
}

/// The `u64` stored little-endian at byte offset `o` of `b`.
pub open spec fn u64_at(b: Seq<u8>, o: int) -> u64 {
    spec_u64_from_le_bytes(b.subrange(o, o + 8))
}

/// The `u32` stored little-endian at byte offset `o` of `b`.
pub open spec fn u32_at(b: Seq<u8>, o: int) -> u32 {
    spec_u32_from_le_bytes(b.subrange(o, o + 4))
}

pub broadcast proof fn lemma_le64(x: u64)
    ensures
        #[trigger] le64(x).len() == 8,
        spec_u64_from_le_bytes(le64(x)) == x,
{
    vstd::bytes::lemma_auto_spec_u64_to_from_le_bytes();
}

pub broadcast proof fn lemma_le32(x: u32)
    ensures
        #[trigger] le32(x).len() == 4,
        spec_u32_from_le_bytes(le32(x)) == x,
{
    vstd::bytes::lemma_auto_spec_u32_to_from_le_bytes();
    assert(spec_u32_to_le_bytes(x).len() == 4);
}

/// Reading a field of a record cut out of a larger buffer is reading
/// the buffer at the sum of the offsets.
pub broadcast proof fn lemma_u64_at_window(b: Seq<u8>, at: int, n: int, o: int)
    requires
        0 <= at,
        at + n <= b.len(),
        0 <= o,
        o + 8 <= n,
    ensures
        #[trigger] u64_at(b.subrange(at, at + n), o) == u64_at(b, at + o),
{
    assert(b.subrange(at, at + n).subrange(o, o + 8) =~= b.subrange(at + o, at + o + 8));
}

pub broadcast proof fn lemma_u32_at_window(b: Seq<u8>, at: int, n: int, o: int)
    requires
        0 <= at,
        at + n <= b.len(),
        0 <= o,
        o + 4 <= n,
    ensures
        #[trigger] u32_at(b.subrange(at, at + n), o) == u32_at(b, at + o),
{
    assert(b.subrange(at, at + n).subrange(o, o + 4) =~= b.subrange(at + o, at + o + 4));
}

/// A value is read back from the bytes written for it.
pub proof fn lemma_read_u64(pre: Seq<u8>, x: u64, post: Seq<u8>)
    ensures
        u64_at(pre + le64(x) + post, pre.len() as int) == x,
{
    lemma_le64(x);
    assert((pre + le64(x) + post).subrange(pre.len() as int, pre.len() + 8int) =~= le64(x));
}

pub proof fn lemma_read_u32(pre: Seq<u8>, x: u32, post: Seq<u8>)
    ensures
        u32_at(pre + le32(x) + post, pre.len() as int) == x,
{
    lemma_le32(x);
    assert((pre + le32(x) + post).subrange(pre.len() as int, pre.len() + 4int) =~= le32(x));
}

pub fn push_u64(v: &mut Vec<u8>, x: u64)
    ensures
        final(v)@ == old(v)@ + le64(x),
{
    let mut b = u64_to_le_bytes(x);
    v.append(&mut b);
}

pub fn push_u32(v: &mut Vec<u8>, x: u32)
    ensures
        final(v)@ == old(v)@ + le32(x),
{
    let mut b = u32_to_le_bytes(x);
    v.append(&mut b);
}

pub fn read_u64(b: &[u8], at: usize) -> (x: u64)
    requires
        at + 8 <= b@.len(),
    ensures
        x == u64_at(b@, at as int),
{
    let _n = b.len();
    u64_from_le_bytes(slice_subrange(b, at, at + 8))
}

pub fn read_u32(b: &[u8], at: usize) -> (x: u32)
    requires
        at + 4 <= b@.len(),
    ensures
        x == u32_at(b@, at as int),
{
    let _n = b.len();
    u32_from_le_bytes(slice_subrange(b, at, at + 4))
}

pub broadcast group group_layout_bytes {
    lemma_le64,
    lemma_le32,
    lemma_le16,
    lemma_u16_at_window,
    lemma_u64_at_window,
    lemma_u32_at_window,
}


} // verus!
