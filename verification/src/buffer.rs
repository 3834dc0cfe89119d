//! The byte buffer of the `bytes` crate, as the codec reads and fills it.
//!
//! `bytes::BytesMut` is an outside type: its contents are named by
//! `bytes_mut_contents`, and each of its operations that the codec uses is
//! given by a wrapper below whose contract states, over that name, what the
//! crate's source does.

use vstd::prelude::*;

use bytes::{Buf, BufMut, BytesMut};

verus! {

/// `bytes::BytesMut`, a growable byte buffer.
#[verifier::external_type_specification]
#[verifier::external_body]
pub struct ExBytesMut(bytes::BytesMut);

/// The bytes that a buffer holds, first to last.
pub uninterp spec fn bytes_mut_contents(b: BytesMut) -> Seq<u8>;

/// The two bytes of a 16-bit number, most significant first.
pub open spec fn be16_bytes(v: u16) -> Seq<u8> {
    seq![(v / 256) as u8, (v % 256) as u8]
}

/// The four bytes of a 32-bit number, most significant first.
pub open spec fn be32_bytes(v: u32) -> Seq<u8> {
    seq![(v / 0x100_0000) as u8, ((v / 0x1_0000) % 256) as u8, ((v / 256) % 256) as u8, (v % 256) as u8]
}

/// The number that the two bytes at `i` of `s` stand for, most significant first.
pub open spec fn be16_at(s: Seq<u8>, i: int) -> int {
    s[i] * 256 + s[i + 1]
}

/// The number that the four bytes at `i` of `s` stand for, most significant first.
pub open spec fn be32_at(s: Seq<u8>, i: int) -> int {
    s[i] * 0x100_0000 + s[i + 1] * 0x1_0000 + s[i + 2] * 256 + s[i + 3]
}

/// The largest size a buffer may reach: `BytesMut` refuses (panics) to grow
/// past `isize::MAX` bytes.
pub open spec fn fits_in_buffer(len: nat) -> bool {
    len <= isize::MAX
}

/// `BytesMut::len`: the number of bytes the buffer holds.
#[verifier::external_body]
pub(crate) fn buf_len(b: &BytesMut) -> (n: usize)
    ensures
        n == bytes_mut_contents(*b).len(),
{
    b.len()
}

/// `<BytesMut as Deref>::deref`: the bytes the buffer holds, as a slice.
#[verifier::external_body]
pub(crate) fn buf_bytes(b: &BytesMut) -> (s: &[u8])
    ensures
        s@ == bytes_mut_contents(*b),
{
    &**b
}

/// `BufMut::put_u8` on `BytesMut`: appends one byte.
#[verifier::external_body]
pub(crate) fn buf_put_u8(b: &mut BytesMut, v: u8)
    requires
        fits_in_buffer(bytes_mut_contents(*old(b)).len() + 1),
    ensures
        bytes_mut_contents(*final(b)) == bytes_mut_contents(*old(b)).push(v),
{
    b.put_u8(v)
}

/// `BufMut::put_u16` on `BytesMut`: appends the two bytes of `v`, most
/// significant first.
#[verifier::external_body]
pub(crate) fn buf_put_u16(b: &mut BytesMut, v: u16)
    requires
        fits_in_buffer(bytes_mut_contents(*old(b)).len() + 2),
    ensures
        bytes_mut_contents(*final(b)) == bytes_mut_contents(*old(b)) + be16_bytes(v),
{
    b.put_u16(v)
}

/// `BufMut::put_u32` on `BytesMut`: appends the four bytes of `v`, most
/// significant first.
#[verifier::external_body]
pub(crate) fn buf_put_u32(b: &mut BytesMut, v: u32)
    requires
        fits_in_buffer(bytes_mut_contents(*old(b)).len() + 4),
    ensures
        bytes_mut_contents(*final(b)) == bytes_mut_contents(*old(b)) + be32_bytes(v),
{
    b.put_u32(v)
}

/// `BufMut::put_slice` on `BytesMut`: appends the bytes of `s`.
#[verifier::external_body]
pub(crate) fn buf_put_slice(b: &mut BytesMut, s: &[u8])
    requires
        fits_in_buffer(bytes_mut_contents(*old(b)).len() + s@.len()),
    ensures
        bytes_mut_contents(*final(b)) == bytes_mut_contents(*old(b)) + s@,
{
    b.put_slice(s)
}

/// `Buf::advance` on `BytesMut`: drops the first `n` bytes. It panics when
/// fewer than `n` bytes are held.
#[verifier::external_body]
pub(crate) fn buf_advance(b: &mut BytesMut, n: usize)
    requires
        n <= bytes_mut_contents(*old(b)).len(),
    ensures
        bytes_mut_contents(*final(b)) == bytes_mut_contents(*old(b)).skip(n as int),
{
    b.advance(n)
}

/// `Buf::get_u8` on `BytesMut`: takes the first byte off the buffer. It
/// panics on an empty buffer.
#[verifier::external_body]
pub(crate) fn buf_get_u8(b: &mut BytesMut) -> (v: u8)
    requires
        bytes_mut_contents(*old(b)).len() >= 1,
    ensures
        v == bytes_mut_contents(*old(b))[0],
        bytes_mut_contents(*final(b)) == bytes_mut_contents(*old(b)).skip(1),
{
    b.get_u8()
}

/// `Buf::get_u32` on `BytesMut`: takes the first four bytes off the buffer
/// and reads them as a number, most significant first. It panics when fewer
/// than four bytes are held.
#[verifier::external_body]
pub(crate) fn buf_get_u32(b: &mut BytesMut) -> (v: u32)
    requires
        bytes_mut_contents(*old(b)).len() >= 4,
    ensures
        v == be32_at(bytes_mut_contents(*old(b)), 0),
        bytes_mut_contents(*final(b)) == bytes_mut_contents(*old(b)).skip(4),
{
    b.get_u32()
}

/// Reading back the two bytes written for a 16-bit number gives the number.
pub proof fn lemma_be16_roundtrip(v: u16)
    ensures
        be16_bytes(v).len() == 2,
        be16_at(be16_bytes(v), 0) == v,
{
    let hi = v / 256;
    let lo = v % 256;
    assert(hi < 256 && lo < 256);
    assert(hi * 256 + lo == v);
}

/// Reading back the four bytes written for a 32-bit number gives the number.
pub proof fn lemma_be32_roundtrip(v: u32)
    ensures
        be32_bytes(v).len() == 4,
        be32_at(be32_bytes(v), 0) == v,
{
    let b0 = v / 0x100_0000;
    let b1 = (v / 0x1_0000) % 256;
    let b2 = (v / 256) % 256;
    let b3 = v % 256;
    assert(b0 < 256);
    assert(b0 * 0x100_0000 + b1 * 0x1_0000 + b2 * 256 + b3 == v) by (nonlinear_arith)
        requires
            b0 == v / 0x100_0000,
            b1 == (v / 0x1_0000) % 256,
            b2 == (v / 256) % 256,
            b3 == v % 256,
    ;
}

} // verus!
