//! The byte buffers of the `bytes` crate, as the protocol code sees them:
//! each `Bytes` and `BytesMut` stands for the sequence of bytes it holds.

use bytes::{Buf, BufMut, Bytes, BytesMut};
use vstd::prelude::*;

verus! {

#[verifier::external_type_specification]
#[verifier::external_body]
pub struct ExBytes(Bytes);

#[verifier::external_type_specification]
#[verifier::external_body]
pub struct ExBytesMut(BytesMut);

/// The bytes that a `Bytes` value holds, in order.
pub uninterp spec fn bytes_view(b: Bytes) -> Seq<u8>;

/// The bytes that a `BytesMut` value holds, in order (its length, not its capacity).
pub uninterp spec fn bytes_mut_view(b: BytesMut) -> Seq<u8>;

/// The largest number of bytes that one buffer can hold: Rust caps every
/// allocation and every slice at `isize::MAX` bytes.
pub open spec fn max_buffer_len() -> int {
    isize::MAX as int
}

/// Big-endian bytes of a `u16`.
pub open spec fn be_u16_bytes(n: u16) -> Seq<u8> {
    seq![(n / 256) as u8, (n % 256) as u8]
}

/// Big-endian bytes of a `u32`.
pub open spec fn be_u32_bytes(n: u32) -> Seq<u8> {
    seq![
        (n / 0x100_0000) as u8,
        ((n / 0x1_0000) % 256) as u8,
        ((n / 256) % 256) as u8,
        (n % 256) as u8,
    ]
}

/// `<Bytes as Clone>::clone`: another handle on the same bytes (the
/// reference count grows; nothing is copied or changed).
pub assume_specification[ <Bytes as Clone>::clone ](b: &Bytes) -> (r: Bytes)
    ensures
        bytes_view(r) == bytes_view(*b),
;

/// `Bytes::new`: an empty buffer.
#[verifier::external_body]
pub(crate) fn bytes_empty() -> (b: Bytes)
    ensures
        bytes_view(b) == Seq::<u8>::empty(),
{
    Bytes::new()
}

/// `impl From<Vec<u8>> for Bytes`: takes over the vector, keeping its bytes.
#[verifier::external_body]
pub(crate) fn bytes_from_vec(v: Vec<u8>) -> (b: Bytes)
    ensures
        bytes_view(b) == v@,
{
    Bytes::from(v)
}

/// `Bytes::copy_from_slice`: a new buffer holding a copy of `data`.
#[verifier::external_body]
pub(crate) fn bytes_copy_from_slice(data: &[u8]) -> (b: Bytes)
    ensures
        bytes_view(b) == data@,
{
    Bytes::copy_from_slice(data)
}

/// `<Bytes as Deref>::deref`: the held bytes as a slice; like every slice it
/// is at most `isize::MAX` bytes long.
#[verifier::external_body]
pub(crate) fn bytes_as_slice(b: &Bytes) -> (s: &[u8])
    ensures
        s@ == bytes_view(*b),
        s@.len() <= max_buffer_len(),
{
    b
}

/// `BytesMut::with_capacity`: an empty buffer (the capacity is only a hint
/// for allocation and is not part of the contents). It panics above
/// `isize::MAX` bytes of capacity, which `requires` rules out.
#[verifier::external_body]
pub(crate) fn bytes_mut_with_capacity(capacity: usize) -> (b: BytesMut)
    requires
        capacity <= max_buffer_len(),
    ensures
        bytes_mut_view(b) == Seq::<u8>::empty(),
{
    BytesMut::with_capacity(capacity)
}

/// `<BytesMut as Deref>::deref`: the held bytes as a slice; like every slice
/// it is at most `isize::MAX` bytes long.
#[verifier::external_body]
pub(crate) fn bytes_mut_as_slice(b: &BytesMut) -> (s: &[u8])
    ensures
        s@ == bytes_mut_view(*b),
        s@.len() <= max_buffer_len(),
{
    b
}

/// `BufMut::put_u8` on `BytesMut`: appends one byte. The buffer grows; it
/// panics only past `isize::MAX` bytes, which `requires` rules out.
#[verifier::external_body]
pub(crate) fn bytes_mut_put_u8(b: &mut BytesMut, n: u8)
    requires
        bytes_mut_view(*old(b)).len() + 1 <= max_buffer_len(),
    ensures
        bytes_mut_view(*final(b)) == bytes_mut_view(*old(b)).push(n),
{
    b.put_u8(n)
}

/// `BufMut::put_u16` on `BytesMut`: appends `n` in big-endian order.
#[verifier::external_body]
pub(crate) fn bytes_mut_put_u16(b: &mut BytesMut, n: u16)
    requires
        bytes_mut_view(*old(b)).len() + 2 <= max_buffer_len(),
    ensures
        bytes_mut_view(*final(b)) == bytes_mut_view(*old(b)) + be_u16_bytes(n),
{
    b.put_u16(n)
}

/// `BufMut::put_u32` on `BytesMut`: appends `n` in big-endian order.
#[verifier::external_body]
pub(crate) fn bytes_mut_put_u32(b: &mut BytesMut, n: u32)
    requires
        bytes_mut_view(*old(b)).len() + 4 <= max_buffer_len(),
    ensures
        bytes_mut_view(*final(b)) == bytes_mut_view(*old(b)) + be_u32_bytes(n),
{
    b.put_u32(n)
}

/// `BufMut::put_slice` on `BytesMut`: appends a copy of `src`.
#[verifier::external_body]
pub(crate) fn bytes_mut_put_slice(b: &mut BytesMut, src: &[u8])
    requires
        bytes_mut_view(*old(b)).len() + src@.len() <= max_buffer_len(),
    ensures
        bytes_mut_view(*final(b)) == bytes_mut_view(*old(b)) + src@,
{
    b.put_slice(src)
}

/// `BytesMut::extend_from_slice`: appends a copy of `src`.
#[verifier::external_body]
pub(crate) fn bytes_mut_extend_from_slice(b: &mut BytesMut, src: &[u8])
    requires
        bytes_mut_view(*old(b)).len() + src@.len() <= max_buffer_len(),
    ensures
        bytes_mut_view(*final(b)) == bytes_mut_view(*old(b)) + src@,
{
    b.extend_from_slice(src)
}

/// `BytesMut::freeze`: the same bytes as an immutable `Bytes`.
#[verifier::external_body]
pub(crate) fn bytes_mut_freeze(b: BytesMut) -> (r: Bytes)
    ensures
        bytes_view(r) == bytes_mut_view(b),
{
    b.freeze()
}

/// `Buf::advance` on `BytesMut`: drops the first `cnt` bytes (it panics
/// when `cnt` exceeds the length, which `requires` rules out).
#[verifier::external_body]
pub(crate) fn bytes_mut_advance(b: &mut BytesMut, cnt: usize)
    requires
        cnt <= bytes_mut_view(*old(b)).len(),
    ensures
        bytes_mut_view(*final(b)) == bytes_mut_view(*old(b)).skip(cnt as int),
{
    b.advance(cnt)
}

/// `BytesMut::split_to`: returns the first `at` bytes and keeps the rest
/// (it panics when `at` exceeds the length, which `requires` rules out).
#[verifier::external_body]
pub(crate) fn bytes_mut_split_to(b: &mut BytesMut, at: usize) -> (head: BytesMut)
    requires
        at <= bytes_mut_view(*old(b)).len(),
    ensures
        bytes_mut_view(head) == bytes_mut_view(*old(b)).take(at as int),
        bytes_mut_view(*final(b)) == bytes_mut_view(*old(b)).skip(at as int),
{
    b.split_to(at)
}

} // verus!
