//! What this crate takes on trust about the byte buffers of the `bytes` crate.
//!
//! Nothing here is proved. Each item states, over the sequence of bytes that a
//! buffer holds, what the `bytes` source shows the operation to do.

use crate::endian::be_u32;
use bytes::{Buf, Bytes, BytesMut};
use vstd::prelude::*;

verus! {

/// `bytes::BytesMut`, a growable byte buffer. Opaque to the verifier.
#[verifier::external_type_specification]
#[verifier::external_body]
pub struct ExBytesMut(BytesMut);

/// `bytes::Bytes`, an immutable byte buffer. Opaque to the verifier.
#[verifier::external_type_specification]
#[verifier::external_body]
pub struct ExBytes(Bytes);

/// The bytes that a `BytesMut` holds, first to last: what `&buf[..]` shows.
pub uninterp spec fn buffered(buf: BytesMut) -> Seq<u8>;

/// The bytes that a `Bytes` holds, first to last: what `&bytes[..]` shows.
pub uninterp spec fn frozen(bytes: Bytes) -> Seq<u8>;

/// `BytesMut::new`: a buffer that holds no bytes.
pub assume_specification[ BytesMut::new ]() -> (buf: BytesMut)
    ensures
        buffered(buf) == Seq::<u8>::empty(),
;

/// `BytesMut::len`: the number of bytes held.
pub assume_specification[ BytesMut::len ](buf: &BytesMut) -> (n: usize)
    ensures
        n == buffered(*buf).len(),
;

/// `BytesMut::is_empty`: whether no byte is held.
pub assume_specification[ BytesMut::is_empty ](buf: &BytesMut) -> (b: bool)
    ensures
        b == (buffered(*buf).len() == 0),
;

/// `BytesMut::split_to`: hands out the first `at` bytes and keeps the rest.
/// It panics when `at` exceeds the length, which `requires` rules out.
pub assume_specification[ BytesMut::split_to ](buf: &mut BytesMut, at: usize) -> (front: BytesMut)
    requires
        at <= buffered(*old(buf)).len(),
    ensures
        buffered(front) == buffered(*old(buf)).subrange(0, at as int),
        buffered(*final(buf)) == buffered(*old(buf)).subrange(
            at as int,
            buffered(*old(buf)).len() as int,
        ),
;

/// `BytesMut::split_off`: keeps the first `at` bytes and hands out the rest.
/// It panics when `at` exceeds the capacity; the length is never above the
/// capacity, so `requires` rules that out.
pub assume_specification[ BytesMut::split_off ](buf: &mut BytesMut, at: usize) -> (back: BytesMut)
    requires
        at <= buffered(*old(buf)).len(),
    ensures
        buffered(*final(buf)) == buffered(*old(buf)).subrange(0, at as int),
        buffered(back) == buffered(*old(buf)).subrange(
            at as int,
            buffered(*old(buf)).len() as int,
        ),
;

/// `BytesMut::freeze`: the same bytes, no longer mutable.
pub assume_specification[ BytesMut::freeze ](buf: BytesMut) -> (bytes: Bytes)
    ensures
        frozen(bytes) == buffered(buf),
;

/// `Buf::get_u32` on the buffer's bytes: the first four bytes as a big-endian
/// number. The buffer itself is not advanced. The call panics on fewer than
/// four bytes, which `requires` rules out.
#[verifier::external_body]
pub(crate) fn peek_u32(buf: &BytesMut) -> (n: u32)
    requires
        buffered(*buf).len() >= 4,
    ensures
        n == be_u32(buffered(*buf)),
{
    (&buf[..]).get_u32()
}

/// `Buf::advance` on a `BytesMut`: drops the first `cnt` bytes. It panics
/// when `cnt` exceeds the length, which `requires` rules out.
#[verifier::external_body]
pub(crate) fn advance(buf: &mut BytesMut, cnt: usize)
    requires
        cnt <= buffered(*old(buf)).len(),
    ensures
        buffered(*final(buf)) == buffered(*old(buf)).subrange(
            cnt as int,
            buffered(*old(buf)).len() as int,
        ),
{
    buf.advance(cnt)
}

} // verus!
