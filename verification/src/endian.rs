//! Fixed-width big-endian byte encoding of the scalar wire types.
//!
//! Every multi-byte integer on the wire is laid out most significant
//! byte first.  For each width there is a spec-level byte layout, a
//! spec-level reassembly function, proof that the two are mutually
//! inverse, and exec functions that write into a caller-supplied
//! buffer and read back from a byte slice.

use vstd::prelude::*;

verus! {

/// Relates a buffer before and after a write of `data` at position `at`:
/// the buffer keeps its length, holds `data` at `at`, and is untouched
/// everywhere else.
pub open spec fn wrote_bytes(pre: Seq<u8>, post: Seq<u8>, at: int, data: Seq<u8>) -> bool {
    &&& post.len() == pre.len()
    &&& post.subrange(at, at + data.len() as int) == data
    &&& forall|i: int|
        0 <= i < pre.len() && !(at <= i < at + data.len()) ==> post[i] == pre[i]
}

// ---------------------------------------------------------------------
// spec-level byte layouts, most significant byte first
// ---------------------------------------------------------------------

pub open spec fn u8_be_bytes(x: u8) -> Seq<u8> {
    seq![x]
}

pub open spec fn u16_be_bytes(x: u16) -> Seq<u8> {
    seq![((x >> 8) & 0xff) as u8, (x & 0xff) as u8]
}

pub open spec fn u32_be_bytes(x: u32) -> Seq<u8> {
    seq![
        ((x >> 24) & 0xff) as u8,
        ((x >> 16) & 0xff) as u8,
        ((x >> 8) & 0xff) as u8,
        (x & 0xff) as u8,
    ]
}

pub open spec fn u64_be_bytes(x: u64) -> Seq<u8> {
    seq![
        ((x >> 56) & 0xff) as u8,
        ((x >> 48) & 0xff) as u8,
        ((x >> 40) & 0xff) as u8,
        ((x >> 32) & 0xff) as u8,
        ((x >> 24) & 0xff) as u8,
        ((x >> 16) & 0xff) as u8,
        ((x >> 8) & 0xff) as u8,
        (x & 0xff) as u8,
    ]
}

pub open spec fn u8_from_be(b: Seq<u8>) -> u8
    recommends
        b.len() == 1,
{
    b[0]
}

pub open spec fn u16_from_be(b: Seq<u8>) -> u16
    recommends
        b.len() == 2,
{
    ((b[0] as u16) << 8) | (b[1] as u16)
}

pub open spec fn u32_from_be(b: Seq<u8>) -> u32
    recommends
        b.len() == 4,
{
    ((b[0] as u32) << 24) | ((b[1] as u32) << 16) | ((b[2] as u32) << 8) | (b[3] as u32)
}

pub open spec fn u64_from_be(b: Seq<u8>) -> u64
    recommends
        b.len() == 8,
{
    ((b[0] as u64) << 56) | ((b[1] as u64) << 48) | ((b[2] as u64) << 40) | ((b[3] as u64) << 32)
        | ((b[4] as u64) << 24) | ((b[5] as u64) << 16) | ((b[6] as u64) << 8) | (b[7] as u64)
}

// The signed widths share the unsigned layouts through a bit cast.

pub open spec fn i8_be_bytes(x: i8) -> Seq<u8> {
    u8_be_bytes(x as u8)
}

pub open spec fn i16_be_bytes(x: i16) -> Seq<u8> {
    u16_be_bytes(x as u16)
}

pub open spec fn i32_be_bytes(x: i32) -> Seq<u8> {
    u32_be_bytes(x as u32)
}

pub open spec fn i64_be_bytes(x: i64) -> Seq<u8> {
    u64_be_bytes(x as u64)
}

pub open spec fn i8_from_be(b: Seq<u8>) -> i8
    recommends
        b.len() == 1,
{
    u8_from_be(b) as i8
}

pub open spec fn i16_from_be(b: Seq<u8>) -> i16
    recommends
        b.len() == 2,
{
    u16_from_be(b) as i16
}

pub open spec fn i32_from_be(b: Seq<u8>) -> i32
    recommends
        b.len() == 4,
{
    u32_from_be(b) as i32
}

pub open spec fn i64_from_be(b: Seq<u8>) -> i64
    recommends
        b.len() == 8,
{
    u64_from_be(b) as i64
}

// ---------------------------------------------------------------------
// reassembling the bytes of a value gives the value back
// ---------------------------------------------------------------------

pub proof fn lemma_u8_be_round_trip(x: u8)
    ensures
        u8_from_be(u8_be_bytes(x)) == x,
{
}

pub proof fn lemma_u16_be_round_trip(x: u16)
    ensures
        u16_from_be(u16_be_bytes(x)) == x,
{
    assert(((((x >> 8) & 0xff) as u8 as u16) << 8) | ((x & 0xff) as u8 as u16) == x)
        by (bit_vector);
}

pub proof fn lemma_u32_be_round_trip(x: u32)
    ensures
        u32_from_be(u32_be_bytes(x)) == x,
{
    assert(((((x >> 24) & 0xff) as u8 as u32) << 24) | ((((x >> 16) & 0xff) as u8 as u32) << 16)
        | ((((x >> 8) & 0xff) as u8 as u32) << 8) | ((x & 0xff) as u8 as u32) == x)
        by (bit_vector);
}

pub proof fn lemma_u64_be_round_trip(x: u64)
    ensures
        u64_from_be(u64_be_bytes(x)) == x,
{
    assert(((((x >> 56) & 0xff) as u8 as u64) << 56) | ((((x >> 48) & 0xff) as u8 as u64) << 48)
        | ((((x >> 40) & 0xff) as u8 as u64) << 40) | ((((x >> 32) & 0xff) as u8 as u64) << 32)
        | ((((x >> 24) & 0xff) as u8 as u64) << 24) | ((((x >> 16) & 0xff) as u8 as u64) << 16)
        | ((((x >> 8) & 0xff) as u8 as u64) << 8) | ((x & 0xff) as u8 as u64) == x)
        by (bit_vector);
}

pub proof fn lemma_i8_be_round_trip(x: i8)
    ensures
        i8_from_be(i8_be_bytes(x)) == x,
{
    assert(x as u8 as i8 == x) by (bit_vector);
}

pub proof fn lemma_i16_be_round_trip(x: i16)
    ensures
        i16_from_be(i16_be_bytes(x)) == x,
{
    lemma_u16_be_round_trip(x as u16);
    assert(x as u16 as i16 == x) by (bit_vector);
}

pub proof fn lemma_i32_be_round_trip(x: i32)
    ensures
        i32_from_be(i32_be_bytes(x)) == x,
{
    lemma_u32_be_round_trip(x as u32);
    assert(x as u32 as i32 == x) by (bit_vector);
}

pub proof fn lemma_i64_be_round_trip(x: i64)
    ensures
        i64_from_be(i64_be_bytes(x)) == x,
{
    lemma_u64_be_round_trip(x as u64);
    assert(x as u64 as i64 == x) by (bit_vector);
}

// ---------------------------------------------------------------------
// exec writers: place the bytes of a value at `offset` in a buffer
// ---------------------------------------------------------------------

pub fn write_u8_be(x: u8, into: &mut Vec<u8>, offset: usize)
    requires
        offset + 1 <= old(into).len(),
    ensures
        wrote_bytes(old(into)@, final(into)@, offset as int, u8_be_bytes(x)),
{
    into[offset] = x;
    assert(into@.subrange(offset as int, offset + 1) =~= u8_be_bytes(x));
}

pub fn write_u16_be(x: u16, into: &mut Vec<u8>, offset: usize)
    requires
        offset + 2 <= old(into).len(),
    ensures
        wrote_bytes(old(into)@, final(into)@, offset as int, u16_be_bytes(x)),
{
    proof {
        assert((x >> 8) & 0xff < 256 && x & 0xff < 256) by (bit_vector);
    }
    into[offset] = ((x >> 8) & 0xff) as u8;
    into[offset + 1] = (x & 0xff) as u8;
    assert(into@.subrange(offset as int, offset + 2) =~= u16_be_bytes(x));
}

pub fn write_u32_be(x: u32, into: &mut Vec<u8>, offset: usize)
    requires
        offset + 4 <= old(into).len(),
    ensures
        wrote_bytes(old(into)@, final(into)@, offset as int, u32_be_bytes(x)),
{
    proof {
        assert((x >> 24) & 0xff < 256 && (x >> 16) & 0xff < 256 && (x >> 8) & 0xff < 256
            && x & 0xff < 256) by (bit_vector);
    }
    into[offset] = ((x >> 24) & 0xff) as u8;
    into[offset + 1] = ((x >> 16) & 0xff) as u8;
    into[offset + 2] = ((x >> 8) & 0xff) as u8;
    into[offset + 3] = (x & 0xff) as u8;
    assert(into@.subrange(offset as int, offset + 4) =~= u32_be_bytes(x));
}

pub fn write_u64_be(x: u64, into: &mut Vec<u8>, offset: usize)
    requires
        offset + 8 <= old(into).len(),
    ensures
        wrote_bytes(old(into)@, final(into)@, offset as int, u64_be_bytes(x)),
{
    proof {
        assert((x >> 56) & 0xff < 256 && (x >> 48) & 0xff < 256 && (x >> 40) & 0xff < 256
            && (x >> 32) & 0xff < 256 && (x >> 24) & 0xff < 256 && (x >> 16) & 0xff < 256
            && (x >> 8) & 0xff < 256 && x & 0xff < 256) by (bit_vector);
    }
    into[offset] = ((x >> 56) & 0xff) as u8;
    into[offset + 1] = ((x >> 48) & 0xff) as u8;
    into[offset + 2] = ((x >> 40) & 0xff) as u8;
    into[offset + 3] = ((x >> 32) & 0xff) as u8;
    into[offset + 4] = ((x >> 24) & 0xff) as u8;
    into[offset + 5] = ((x >> 16) & 0xff) as u8;
    into[offset + 6] = ((x >> 8) & 0xff) as u8;
    into[offset + 7] = (x & 0xff) as u8;
    assert(into@.subrange(offset as int, offset + 8) =~= u64_be_bytes(x));
}

pub fn write_i8_be(x: i8, into: &mut Vec<u8>, offset: usize)
    requires
        offset + 1 <= old(into).len(),
    ensures
        wrote_bytes(old(into)@, final(into)@, offset as int, i8_be_bytes(x)),
{
    write_u8_be(x as u8, into, offset);
}

pub fn write_i16_be(x: i16, into: &mut Vec<u8>, offset: usize)
    requires
        offset + 2 <= old(into).len(),
    ensures
        wrote_bytes(old(into)@, final(into)@, offset as int, i16_be_bytes(x)),
{
    write_u16_be(x as u16, into, offset);
}

pub fn write_i32_be(x: i32, into: &mut Vec<u8>, offset: usize)
    requires
        offset + 4 <= old(into).len(),
    ensures
        wrote_bytes(old(into)@, final(into)@, offset as int, i32_be_bytes(x)),
{
    write_u32_be(x as u32, into, offset);
}

pub fn write_i64_be(x: i64, into: &mut Vec<u8>, offset: usize)
    requires
        offset + 8 <= old(into).len(),
    ensures
        wrote_bytes(old(into)@, final(into)@, offset as int, i64_be_bytes(x)),
{
    write_u64_be(x as u64, into, offset);
}

// ---------------------------------------------------------------------
// exec readers: reassemble a value from `offset` in a byte slice
// ---------------------------------------------------------------------

pub fn read_u8_be(from: &[u8], offset: usize) -> (r: u8)
    requires
        offset + 1 <= from@.len(),
    ensures
        r == u8_from_be(from@.subrange(offset as int, offset + 1)),
{
    from[offset]
}

pub fn read_u16_be(from: &[u8], offset: usize) -> (r: u16)
    requires
        offset + 2 <= from@.len(),
    ensures
        r == u16_from_be(from@.subrange(offset as int, offset + 2)),
{
    ((from[offset] as u16) << 8u16) | (from[offset + 1] as u16)
}

pub fn read_u32_be(from: &[u8], offset: usize) -> (r: u32)
    requires
        offset + 4 <= from@.len(),
    ensures
        r == u32_from_be(from@.subrange(offset as int, offset + 4)),
{
    ((from[offset] as u32) << 24u32) | ((from[offset + 1] as u32) << 16u32)
        | ((from[offset + 2] as u32) << 8u32) | (from[offset + 3] as u32)
}

pub fn read_u64_be(from: &[u8], offset: usize) -> (r: u64)
    requires
        offset + 8 <= from@.len(),
    ensures
        r == u64_from_be(from@.subrange(offset as int, offset + 8)),
{
    ((from[offset] as u64) << 56u64) | ((from[offset + 1] as u64) << 48u64)
        | ((from[offset + 2] as u64) << 40u64) | ((from[offset + 3] as u64) << 32u64)
        | ((from[offset + 4] as u64) << 24u64) | ((from[offset + 5] as u64) << 16u64)
        | ((from[offset + 6] as u64) << 8u64) | (from[offset + 7] as u64)
}

pub fn read_i8_be(from: &[u8], offset: usize) -> (r: i8)
    requires
        offset + 1 <= from@.len(),
    ensures
        r == i8_from_be(from@.subrange(offset as int, offset + 1)),
{
    #[verifier::truncate] (read_u8_be(from, offset) as i8)
}

pub fn read_i16_be(from: &[u8], offset: usize) -> (r: i16)
    requires
        offset + 2 <= from@.len(),
    ensures
        r == i16_from_be(from@.subrange(offset as int, offset + 2)),
{
    #[verifier::truncate] (read_u16_be(from, offset) as i16)
}

pub fn read_i32_be(from: &[u8], offset: usize) -> (r: i32)
    requires
        offset + 4 <= from@.len(),
    ensures
        r == i32_from_be(from@.subrange(offset as int, offset + 4)),
{
    #[verifier::truncate] (read_u32_be(from, offset) as i32)
}

pub fn read_i64_be(from: &[u8], offset: usize) -> (r: i64)
    requires
        offset + 8 <= from@.len(),
    ensures
        r == i64_from_be(from@.subrange(offset as int, offset + 8)),
{
    #[verifier::truncate] (read_u64_be(from, offset) as i64)
}

} // verus!
