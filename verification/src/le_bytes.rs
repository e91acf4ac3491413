//! Little-endian integer layout used by the frame header.

use vstd::prelude::*;

verus! {

/// The four bytes of `x`, least significant first.
pub open spec fn le_u32(x: u32) -> Seq<u8> {
    seq![(x & 0xff) as u8, ((x >> 8) & 0xff) as u8, ((x >> 16) & 0xff) as u8, ((x >> 24) & 0xff) as u8]
}

/// The eight bytes of `x`, least significant first.
pub open spec fn le_u64(x: u64) -> Seq<u8> {
    seq![
        (x & 0xff) as u8, ((x >> 8) & 0xff) as u8, ((x >> 16) & 0xff) as u8, ((x >> 24) & 0xff) as u8,
        ((x >> 32) & 0xff) as u8, ((x >> 40) & 0xff) as u8, ((x >> 48) & 0xff) as u8, ((x >> 56) & 0xff) as u8,
    ]
}

/// The `u32` whose little-endian bytes are `b[at..at + 4]`.
pub open spec fn read_le_u32(b: Seq<u8>, at: int) -> u32 {
    (b[at] as u32) | ((b[at + 1] as u32) << 8u32) | ((b[at + 2] as u32) << 16u32) | ((b[at + 3] as u32) << 24u32)
}

/// The `u64` whose little-endian bytes are `b[at..at + 8]`.
pub open spec fn read_le_u64(b: Seq<u8>, at: int) -> u64 {
    (b[at] as u64) | ((b[at + 1] as u64) << 8u64) | ((b[at + 2] as u64) << 16u64) | ((b[at + 3] as u64) << 24u64)
        | ((b[at + 4] as u64) << 32u64) | ((b[at + 5] as u64) << 40u64) | ((b[at + 6] as u64) << 48u64)
        | ((b[at + 7] as u64) << 56u64)
}

/// Reading back the bytes of a `u32` gives the `u32`.
pub proof fn lemma_le_u32_roundtrip(x: u32, pre: Seq<u8>, post: Seq<u8>)
    ensures
        read_le_u32(pre + le_u32(x) + post, pre.len() as int) == x,
{
    let b = pre + le_u32(x) + post;
    let at = pre.len() as int;
    assert(b[at] == (x & 0xff) as u8);
    assert(b[at + 1] == ((x >> 8) & 0xff) as u8);
    assert(b[at + 2] == ((x >> 16) & 0xff) as u8);
    assert(b[at + 3] == ((x >> 24) & 0xff) as u8);
    let b0 = b[at];
    let b1 = b[at + 1];
    let b2 = b[at + 2];
    let b3 = b[at + 3];
    assert(b0 == (x & 0xff) as u8 && b1 == ((x >> 8) & 0xff) as u8 && b2 == ((x >> 16) & 0xff) as u8
        && b3 == ((x >> 24) & 0xff) as u8 ==> ((b0 as u32) | ((b1 as u32) << 8u32) | ((b2 as u32) << 16u32)
        | ((b3 as u32) << 24u32)) == x) by (bit_vector);
}

/// Reading back the bytes of a `u64` gives the `u64`.
pub proof fn lemma_le_u64_roundtrip(x: u64, pre: Seq<u8>, post: Seq<u8>)
    ensures
        read_le_u64(pre + le_u64(x) + post, pre.len() as int) == x,
{
    let b = pre + le_u64(x) + post;
    let at = pre.len() as int;
    let b0 = b[at];
    let b1 = b[at + 1];
    let b2 = b[at + 2];
    let b3 = b[at + 3];
    let b4 = b[at + 4];
    let b5 = b[at + 5];
    let b6 = b[at + 6];
    let b7 = b[at + 7];
    assert(b0 == (x & 0xff) as u8);
    assert(b1 == ((x >> 8) & 0xff) as u8);
    assert(b2 == ((x >> 16) & 0xff) as u8);
    assert(b3 == ((x >> 24) & 0xff) as u8);
    assert(b4 == ((x >> 32) & 0xff) as u8);
    assert(b5 == ((x >> 40) & 0xff) as u8);
    assert(b6 == ((x >> 48) & 0xff) as u8);
    assert(b7 == ((x >> 56) & 0xff) as u8);
    assert(b0 == (x & 0xff) as u8 && b1 == ((x >> 8) & 0xff) as u8 && b2 == ((x >> 16) & 0xff) as u8
        && b3 == ((x >> 24) & 0xff) as u8 && b4 == ((x >> 32) & 0xff) as u8 && b5 == ((x >> 40) & 0xff) as u8
        && b6 == ((x >> 48) & 0xff) as u8 && b7 == ((x >> 56) & 0xff) as u8 ==> ((b0 as u64) | ((b1 as u64) << 8u64)
        | ((b2 as u64) << 16u64) | ((b3 as u64) << 24u64) | ((b4 as u64) << 32u64) | ((b5 as u64) << 40u64)
        | ((b6 as u64) << 48u64) | ((b7 as u64) << 56u64)) == x) by (bit_vector);
}

/// A `u32` laid out at `b[at..at + 4]` reads back.
pub proof fn lemma_read_le_u32_at(b: Seq<u8>, at: int, x: u32)
    requires
        0 <= at,
        at + 4 <= b.len(),
        b.subrange(at, at + 4) == le_u32(x),
    ensures
        read_le_u32(b, at) == x,
{
    lemma_le_u32_roundtrip(x, b.subrange(0, at), b.subrange(at + 4, b.len() as int));
    assert(b =~= b.subrange(0, at) + le_u32(x) + b.subrange(at + 4, b.len() as int));
}

/// A `u64` laid out at `b[at..at + 8]` reads back.
pub proof fn lemma_read_le_u64_at(b: Seq<u8>, at: int, x: u64)
    requires
        0 <= at,
        at + 8 <= b.len(),
        b.subrange(at, at + 8) == le_u64(x),
    ensures
        read_le_u64(b, at) == x,
{
    lemma_le_u64_roundtrip(x, b.subrange(0, at), b.subrange(at + 8, b.len() as int));
    assert(b =~= b.subrange(0, at) + le_u64(x) + b.subrange(at + 8, b.len() as int));
}

/// Appends the little-endian bytes of `x`.
pub fn put_u32_le(buf: &mut Vec<u8>, x: u32)
    ensures
        final(buf)@ == old(buf)@ + le_u32(x),
{
    buf.push((x & 0xff) as u8);
    buf.push(((x >> 8) & 0xff) as u8);
    buf.push(((x >> 16) & 0xff) as u8);
    buf.push(((x >> 24) & 0xff) as u8);
    assert(buf@ =~= old(buf)@ + le_u32(x));
}

/// Appends the little-endian bytes of `x`.
pub fn put_u64_le(buf: &mut Vec<u8>, x: u64)
    ensures
        final(buf)@ == old(buf)@ + le_u64(x),
{
    buf.push((x & 0xff) as u8);
    buf.push(((x >> 8) & 0xff) as u8);
    buf.push(((x >> 16) & 0xff) as u8);
    buf.push(((x >> 24) & 0xff) as u8);
    buf.push(((x >> 32) & 0xff) as u8);
    buf.push(((x >> 40) & 0xff) as u8);
    buf.push(((x >> 48) & 0xff) as u8);
    buf.push(((x >> 56) & 0xff) as u8);
    assert(buf@ =~= old(buf)@ + le_u64(x));
}

/// Reads the little-endian `u32` at `b[at..at + 4]`.
pub fn get_u32_le(b: &[u8], at: usize) -> (r: u32)
    requires
        at + 4 <= b@.len(),
    ensures
        r == read_le_u32(b@, at as int),
{
    (b[at] as u32) | ((b[at + 1] as u32) << 8u32) | ((b[at + 2] as u32) << 16u32) | ((b[at + 3] as u32) << 24u32)
}

/// Reads the little-endian `u64` at `b[at..at + 8]`.
pub fn get_u64_le(b: &[u8], at: usize) -> (r: u64)
    requires
        at + 8 <= b@.len(),
    ensures
        r == read_le_u64(b@, at as int),
{
    (b[at] as u64) | ((b[at + 1] as u64) << 8u64) | ((b[at + 2] as u64) << 16u64) | ((b[at + 3] as u64) << 24u64)
        | ((b[at + 4] as u64) << 32u64) | ((b[at + 5] as u64) << 40u64) | ((b[at + 6] as u64) << 48u64)
        | ((b[at + 7] as u64) << 56u64)
}

} // verus!
