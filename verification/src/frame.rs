//! Length-prefixed framing.
//!
//! A frame is the length of its payload as a 32-bit big-endian number,
//! followed by the payload. The channel carries frames back to back and cuts
//! them wherever it likes, so a reader collects bytes until a whole frame is
//! there, takes it off the front, and leaves the rest for the next one.

use crate::buffer::{buffered, frozen, peek_u32};
use crate::msgs::{Msg, ServerMsg};
use crate::endian::{be_u32, push_u32_be, u32_be};
use crate::wire::{encoding, serialize};
use bytes::{Bytes, BytesMut};
use vstd::prelude::*;

verus! {

/// Bytes that the length prefix takes.
pub const PREFIX_LEN: usize = 4;

/// The frame that carries `payload`. Meant for payloads of at most
/// `u32::MAX` bytes; no longer one has a frame.
pub open spec fn frame_of(payload: Seq<u8>) -> Seq<u8> {
    u32_be(payload.len() as u32) + payload
}

/// Whether these bytes, sent as one `Data` message, fit a frame.
pub open spec fn fits_frame(bytes: Seq<u8>) -> bool {
    encoding(Msg::Data(bytes)).len() <= u32::MAX
}

/// Whether `buf` starts with a whole frame.
pub open spec fn has_frame(buf: Seq<u8>) -> bool {
    buf.len() >= PREFIX_LEN && buf.len() >= PREFIX_LEN + be_u32(buf)
}

/// The payload of the frame that `buf` starts with.
pub open spec fn first_payload(buf: Seq<u8>) -> Seq<u8> {
    buf.subrange(PREFIX_LEN as int, PREFIX_LEN + be_u32(buf))
}

/// What follows the frame that `buf` starts with.
pub open spec fn after_first(buf: Seq<u8>) -> Seq<u8> {
    buf.subrange(PREFIX_LEN + be_u32(buf), buf.len() as int)
}

/// How many more bytes a reader should make room for when `buf` holds no
/// whole frame yet: a prefix's worth while the prefix is not there, else what
/// the announced frame still lacks, as far as a `usize` can say it.
pub open spec fn wanted(buf: Seq<u8>) -> int {
    if buf.len() < PREFIX_LEN {
        PREFIX_LEN as int
    } else if PREFIX_LEN + be_u32(buf) - buf.len() > usize::MAX {
        usize::MAX as int
    } else {
        PREFIX_LEN + be_u32(buf) - buf.len()
    }
}

/// Outcome of looking for a frame at the front of a buffer.
#[derive(Debug)]
pub enum FrameRead {
    /// A whole frame was there; this is its payload.
    Frame(Bytes),
    /// No whole frame yet; room for this many more bytes is wanted.
    Incomplete(usize),
}

/// Puts `payload` into a frame. A payload of more than `u32::MAX` bytes has
/// no frame, and `None` is returned for it.
pub fn encode_frame(payload: &[u8]) -> (r: Option<Vec<u8>>)
    ensures
        r is Some <==> payload@.len() <= u32::MAX,
        r matches Some(bytes) ==> bytes@ == frame_of(payload@),
{
    let len: usize = payload.len();
    if len > u32::MAX as usize {
        return None;
    }
    let mut out: Vec<u8> = Vec::new();
    push_u32_be(&mut out, len as u32);
    out.extend_from_slice(payload);
    assert(out@ =~= frame_of(payload@));
    Some(out)
}

/// Writes `msg` out and puts it into a frame: the bytes that go on the
/// channel for it. `None` where the written message is too long for a frame.
pub fn frame_msg(msg: &ServerMsg) -> (r: Option<Vec<u8>>)
    ensures
        r is Some <==> encoding(msg@).len() <= u32::MAX,
        r matches Some(bytes) ==> bytes@ == frame_of(encoding(msg@)),
{
    let payload: Vec<u8> = serialize(msg);
    encode_frame(payload.as_slice())
}

/// Takes the frame at the front of `buf`, if a whole one is there, and
/// leaves in `buf` what follows it. Otherwise `buf` stays as it is and the
/// caller is told how much room to make before it reads on.
pub fn read_lengthed_msg(buf: &mut BytesMut) -> (r: FrameRead)
    ensures
        match r {
            FrameRead::Frame(payload) => {
                &&& has_frame(buffered(*old(buf)))
                &&& frozen(payload) == first_payload(buffered(*old(buf)))
                &&& buffered(*final(buf)) == after_first(buffered(*old(buf)))
            },
            FrameRead::Incomplete(room) => {
                &&& !has_frame(buffered(*old(buf)))
                &&& buffered(*final(buf)) == buffered(*old(buf))
                &&& room == wanted(buffered(*old(buf)))
            },
        },
{
    let len: usize = buf.len();
    if len < PREFIX_LEN {
        return FrameRead::Incomplete(PREFIX_LEN);
    }
    let msg_len: u32 = peek_u32(buf);
    let full_frame_len: u64 = PREFIX_LEN as u64 + msg_len as u64;
    if (len as u64) < full_frame_len {
        let lacking: u64 = full_frame_len - len as u64;
        if lacking > usize::MAX as u64 {
            return FrameRead::Incomplete(usize::MAX);
        }
        return FrameRead::Incomplete(lacking as usize);
    }
    let ghost before = buffered(*buf);
    let mut frame: BytesMut = buf.split_to(full_frame_len as usize);
    let payload: BytesMut = frame.split_off(PREFIX_LEN);
    assert(buffered(payload) =~= first_payload(before));
    FrameRead::Frame(payload.freeze())
}

/// The room asked for is the room needed. While the prefix is not whole,
/// that many more bytes make it whole. Once it is, the frame becomes whole
/// exactly when that many more bytes have arrived, as long as a `usize` can
/// say how many are lacking.
pub proof fn lemma_wanted_is_what_lacks(buf: Seq<u8>, more: Seq<u8>)
    requires
        !has_frame(buf),
    ensures
        buf.len() < PREFIX_LEN && more.len() >= wanted(buf) ==> (buf + more).len() >= PREFIX_LEN,
        buf.len() >= PREFIX_LEN && PREFIX_LEN + be_u32(buf) - buf.len() <= usize::MAX ==> (
        has_frame(buf + more) <==> more.len() >= wanted(buf)),
{
    if buf.len() >= PREFIX_LEN {
        let all = buf + more;
        assert(all[0] == buf[0] && all[1] == buf[1] && all[2] == buf[2] && all[3] == buf[3]);
    }
}

} // verus!
