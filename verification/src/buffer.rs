//! The byte buffer that messages are written to and framed from:
//! `bytes::BytesMut`, reached through contracts that Verus takes on trust.
//!
//! The functions that append grow the buffer as `Vec::push` grows a vector:
//! they fail only where the memory to grow into does.

use vstd::prelude::*;
use bytes::BufMut;
use bytes::BytesMut;

verus! {

/// `bytes::BytesMut`, of which the verifier sees nothing but what the
/// functions below say.
#[verifier::external_type_specification]
#[verifier::external_body]
pub struct ExBytesMut(bytes::BytesMut);

/// The bytes that a buffer holds, first byte first.
pub uninterp spec fn bytes_contents(buffer: BytesMut) -> Seq<u8>;

/// `BytesMut::new`: the buffer it makes holds no bytes.
#[verifier::external_body]
pub(crate) fn new_buffer() -> (buffer: BytesMut)
    ensures
        bytes_contents(buffer) == Seq::<u8>::empty(),
{
    BytesMut::new()
}

/// `BytesMut::len`: the number of bytes held.
#[verifier::external_body]
pub(crate) fn buffer_len(buffer: &BytesMut) -> (len: usize)
    ensures
        len == bytes_contents(*buffer).len(),
{
    buffer.len()
}

/// `Deref` of `BytesMut` to `[u8]`: the slice is the bytes held, in order.
#[verifier::external_body]
pub(crate) fn buffer_bytes(buffer: &BytesMut) -> (bytes: &[u8])
    ensures
        bytes@ == bytes_contents(*buffer),
{
    &buffer[..]
}

/// `BufMut::put_u8` on `BytesMut`: the byte is appended and the bytes
/// already held stay as they were.
#[verifier::external_body]
pub(crate) fn put_u8(buffer: &mut BytesMut, byte: u8)
    ensures
        bytes_contents(*final(buffer)) == bytes_contents(*old(buffer)).push(byte),
{
    buffer.put_u8(byte);
}

/// `BufMut::put_u16` on `BytesMut`: the number is appended as two bytes,
/// the more significant one first.
#[verifier::external_body]
pub(crate) fn put_u16(buffer: &mut BytesMut, number: u16)
    ensures
        bytes_contents(*final(buffer)) == bytes_contents(*old(buffer)).push(
            (number / 256) as u8,
        ).push((number % 256) as u8),
{
    buffer.put_u16(number);
}

/// `BufMut::put_slice` on `BytesMut`: the bytes of the slice are appended in
/// order.
#[verifier::external_body]
pub(crate) fn put_slice(buffer: &mut BytesMut, bytes: &[u8])
    ensures
        bytes_contents(*final(buffer)) == bytes_contents(*old(buffer)) + bytes@,
{
    buffer.put_slice(bytes);
}

/// `BytesMut::split_to`: the first `at` bytes leave the buffer and are
/// returned as a buffer of their own; the rest stay. It panics when `at` is
/// more than the number of bytes held, which `requires` leaves out.
#[verifier::external_body]
pub(crate) fn split_to(buffer: &mut BytesMut, at: usize) -> (head: BytesMut)
    requires
        at <= bytes_contents(*old(buffer)).len(),
    ensures
        bytes_contents(head) == bytes_contents(*old(buffer)).subrange(0, at as int),
        bytes_contents(*final(buffer)) == bytes_contents(*old(buffer)).subrange(
            at as int,
            bytes_contents(*old(buffer)).len() as int,
        ),
{
    buffer.split_to(at)
}

} // verus!
