//! Bytes on the wire: little-endian lengths, and the `bytes` crate's buffer.

use bytes::{Buf, BufMut, BytesMut};
use vstd::prelude::*;

verus! {

/// Trusted: `bytes::BytesMut`, a growable buffer of bytes, carried as an
/// opaque value.
#[verifier::external_type_specification]
#[verifier::external_body]
pub struct ExBytesMut(bytes::BytesMut);

/// The bytes that a buffer holds, first written first.
pub uninterp spec fn buffer_bytes(buf: BytesMut) -> Seq<u8>;

/// The four bytes of `n`, least significant first.
pub open spec fn le_bytes(n: u32) -> Seq<u8> {
    seq![
        (n & 0xff) as u8,
        ((n >> 8) & 0xff) as u8,
        ((n >> 16) & 0xff) as u8,
        ((n >> 24) & 0xff) as u8,
    ]
}

/// The number whose bytes, least significant first, are the first four of `b`.
pub open spec fn le_value(b: Seq<u8>) -> u32
    recommends
        b.len() >= 4,
{
    (b[0] as u32) | ((b[1] as u32) << 8) | ((b[2] as u32) << 16) | ((b[3] as u32) << 24)
}

/// Reading back the four bytes of a number gives the number.
pub proof fn lemma_le_round_trip(n: u32)
    ensures
        le_bytes(n).len() == 4,
        le_value(le_bytes(n)) == n,
{
    let b0 = (n & 0xff) as u8;
    let b1 = ((n >> 8) & 0xff) as u8;
    let b2 = ((n >> 16) & 0xff) as u8;
    let b3 = ((n >> 24) & 0xff) as u8;
    assert(((b0 as u32) | ((b1 as u32) << 8) | ((b2 as u32) << 16) | ((b3 as u32) << 24)) == n)
        by (bit_vector)
        requires
            b0 == (n & 0xff) as u8,
            b1 == ((n >> 8) & 0xff) as u8,
            b2 == ((n >> 16) & 0xff) as u8,
            b3 == ((n >> 24) & 0xff) as u8,
    ;
}

/// Trusted: `BytesMut::new`, an empty buffer.
#[verifier::external_body]
pub(crate) fn buffer_new() -> (out: BytesMut)
    ensures
        buffer_bytes(out) == Seq::<u8>::empty(),
{
    BytesMut::new()
}

/// Trusted: `BufMut::put_u32_le` on a `BytesMut`, which appends the four bytes
/// of `n`, least significant first, growing the buffer as needed. The crate
/// panics once a buffer would pass `isize::MAX` bytes.
#[verifier::external_body]
pub(crate) fn buffer_put_u32_le(buf: &mut BytesMut, n: u32)
    requires
        buffer_bytes(*old(buf)).len() + 4 <= isize::MAX,
    ensures
        buffer_bytes(*final(buf)) == buffer_bytes(*old(buf)) + le_bytes(n),
{
    buf.put_u32_le(n)
}

/// Trusted: `BufMut::put_u8` on a `BytesMut`, which appends the one byte.
#[verifier::external_body]
pub(crate) fn buffer_put_u8(buf: &mut BytesMut, n: u8)
    requires
        buffer_bytes(*old(buf)).len() + 1 <= isize::MAX,
    ensures
        buffer_bytes(*final(buf)) == buffer_bytes(*old(buf)).push(n),
{
    buf.put_u8(n)
}

/// Trusted: `BufMut::put_slice` on a `BytesMut`, which appends the slice.
#[verifier::external_body]
pub(crate) fn buffer_put_slice(buf: &mut BytesMut, src: &[u8])
    requires
        buffer_bytes(*old(buf)).len() + src@.len() <= isize::MAX,
    ensures
        buffer_bytes(*final(buf)) == buffer_bytes(*old(buf)) + src@,
{
    buf.put_slice(src)
}

/// Trusted: `Buf::get_u32_le` on a byte slice, which reads its first four
/// bytes as a number, least significant byte first. The crate panics on a
/// slice of fewer than four bytes.
#[verifier::external_body]
pub(crate) fn read_u32_le(src: &[u8]) -> (out: u32)
    requires
        src@.len() >= 4,
    ensures
        out == le_value(src@),
{
    let mut cursor: &[u8] = src;
    cursor.get_u32_le()
}

} // verus!
