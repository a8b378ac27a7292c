//! What the codec relies on from `bytes::BytesMut`.
//!
//! Nothing in this file is proved: each contract restates what the `bytes`
//! crate does, in terms of the sequence of bytes that a buffer holds.

use bytes::{Buf, BufMut, BytesMut};
use vstd::prelude::*;

verus! {

#[verifier::external_type_specification]
#[verifier::external_body]
pub struct ExBytesMut(bytes::BytesMut);

/// The bytes that a buffer holds, oldest first.
pub uninterp spec fn buf_bytes(buf: BytesMut) -> Seq<u8>;

/// The length up to which a buffer may be appended to. Growing a buffer
/// asks for its length, for no more than `usize::MAX / 32` bytes that it
/// has dropped at its front, and at most for twice that: up to this length
/// the request stays within the `isize::MAX` bytes of one allocation.
pub const MAX_BUFFERED: usize = usize::MAX / 8;

/// `BytesMut::len`: the number of bytes held.
pub assume_specification[ BytesMut::len ](buf: &BytesMut) -> (n: usize)
    ensures
        n == buf_bytes(*buf).len(),
;

/// `BytesMut::split_to`: hands out the first `at` bytes as a buffer of their
/// own and keeps the rest. It panics when `at` exceeds the length.
pub assume_specification[ BytesMut::split_to ](buf: &mut BytesMut, at: usize) -> (head: BytesMut)
    requires
        at <= buf_bytes(*old(buf)).len(),
    ensures
        buf_bytes(head) == buf_bytes(*old(buf)).take(at as int),
        buf_bytes(*final(buf)) == buf_bytes(*old(buf)).skip(at as int),
;

/// `AsRef<[u8]>::as_ref` on a `BytesMut`: the held bytes as a slice.
#[verifier::external_body]
pub(crate) fn as_slice(buf: &BytesMut) -> (bytes: &[u8])
    ensures
        bytes@ == buf_bytes(*buf),
{
    buf.as_ref()
}

/// `Buf::advance` on a `BytesMut`: drops the first `cnt` bytes. It panics
/// when `cnt` exceeds the length.
#[verifier::external_body]
pub(crate) fn advance(buf: &mut BytesMut, cnt: usize)
    requires
        cnt <= buf_bytes(*old(buf)).len(),
    ensures
        buf_bytes(*final(buf)) == buf_bytes(*old(buf)).skip(cnt as int),
{
    buf.advance(cnt)
}

/// `BufMut::put_slice` on a `BytesMut`: appends `src`, growing the buffer as
/// needed. Growing panics when the size asked for passes what one allocation
/// can hold, which `MAX_BUFFERED` rules out.
#[verifier::external_body]
pub(crate) fn put_slice(buf: &mut BytesMut, src: &[u8])
    requires
        buf_bytes(*old(buf)).len() + src@.len() <= MAX_BUFFERED,
    ensures
        buf_bytes(*final(buf)) == buf_bytes(*old(buf)) + src@,
{
    buf.put_slice(src)
}

} // verus!
