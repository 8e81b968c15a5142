//! The byte buffer that the codec reads from and writes to.
//!
//! The buffer is `bytes::BytesMut`.  Verus does not look inside it: this
//! module names what it holds and states, for each method that the codec
//! calls, what the method does to that.

use bytes::{Buf, BufMut, BytesMut};
use vstd::prelude::*;

verus! {

#[verifier::external_type_specification]
#[verifier::external_body]
pub struct ExBytesMut(bytes::BytesMut);

/// The bytes that the buffer holds, first to last.
pub uninterp spec fn contents(buf: BytesMut) -> Seq<u8>;

/// The number of bytes in the buffer.
///
/// Trusted: stands for `BytesMut::len`, which returns the number of bytes
/// that the buffer holds.
#[verifier::external_body]
pub(crate) fn buf_len(buf: &BytesMut) -> (n: usize)
    ensures
        n == contents(*buf).len(),
{
    buf.len()
}

/// The bytes of the buffer as a slice.
///
/// Trusted: stands for `<BytesMut as AsRef<[u8]>>::as_ref`, which borrows
/// the bytes that the buffer holds.
#[verifier::external_body]
pub(crate) fn buf_bytes(buf: &BytesMut) -> (bytes: &[u8])
    ensures
        bytes@ == contents(*buf),
{
    buf.as_ref()
}

/// Splits the first `at` bytes off the buffer.
///
/// Trusted: stands for `BytesMut::split_to`.  Afterwards the buffer holds
/// the bytes from `at` on and the result holds the bytes before `at`.  It
/// panics where `at` is greater than the length, which `requires` leaves out.
#[verifier::external_body]
pub(crate) fn buf_split_to(buf: &mut BytesMut, at: usize) -> (head: BytesMut)
    requires
        at <= contents(*old(buf)).len(),
    ensures
        contents(head) == contents(*old(buf)).take(at as int),
        contents(*final(buf)) == contents(*old(buf)).skip(at as int),
{
    buf.split_to(at)
}

/// Drops the first `count` bytes of the buffer.
///
/// Trusted: stands for `<BytesMut as Buf>::advance`, which moves the start of
/// the buffer `count` bytes on.  It panics where `count` is greater than the
/// length, which `requires` leaves out.
#[verifier::external_body]
pub(crate) fn buf_advance(buf: &mut BytesMut, count: usize)
    requires
        count <= contents(*old(buf)).len(),
    ensures
        contents(*final(buf)) == contents(*old(buf)).skip(count as int),
{
    buf.advance(count)
}

/// Makes room for `additional` more bytes.
///
/// Trusted: stands for `BytesMut::reserve`, which changes the capacity and
/// leaves the bytes as they are.  It panics where the new capacity overflows;
/// `requires` keeps the new length within `isize::MAX`, the most that one
/// allocation holds.
#[verifier::external_body]
pub(crate) fn buf_reserve(buf: &mut BytesMut, additional: usize)
    requires
        contents(*old(buf)).len() + additional <= isize::MAX,
    ensures
        contents(*final(buf)) == contents(*old(buf)),
{
    buf.reserve(additional)
}

/// Appends the bytes of `src` to the buffer.
///
/// Trusted: stands for `<BytesMut as BufMut>::put_slice`, which extends the
/// buffer by the slice, growing it as needed.  `requires` keeps the new
/// length within `isize::MAX`, which is what the buffer reports as its
/// remaining room.
#[verifier::external_body]
pub(crate) fn buf_put_slice(buf: &mut BytesMut, src: &[u8])
    requires
        contents(*old(buf)).len() + src@.len() <= isize::MAX,
    ensures
        contents(*final(buf)) == contents(*old(buf)) + src@,
{
    buf.put_slice(src)
}

/// Appends one byte to the buffer.
///
/// Trusted: stands for `<BytesMut as BufMut>::put_u8`, which writes the byte
/// at the end of the buffer.  `requires` keeps the new length within
/// `isize::MAX`.
#[verifier::external_body]
pub(crate) fn buf_put_u8(buf: &mut BytesMut, byte: u8)
    requires
        contents(*old(buf)).len() + 1 <= isize::MAX,
    ensures
        contents(*final(buf)) == contents(*old(buf)).push(byte),
{
    buf.put_u8(byte)
}

} // verus!
