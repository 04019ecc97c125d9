//! The byte layout of a message.
//!
//! A message starts with its variant as a 32-bit number: 0 for `Data`, 1 for
//! `SetDimensions`. `Data` goes on with the count of its bytes as a 64-bit
//! number and then the bytes themselves; `SetDimensions` goes on with rows and
//! columns as 16-bit numbers. Every number is little-endian and of fixed
//! width. A payload is one message and nothing else: what is too short, names
//! no variant, or goes on behind the message is no message.
//!
//! This is the layout that version 1 of the `bincode` crate gives an enum of
//! these two variants when its integers are of fixed width, so a peer that
//! uses that crate with these options understands these bytes.

use crate::endian::{
    le_u16, le_u32, le_u64, lemma_le_u16_reads_back, lemma_le_u32_reads_back,
    lemma_le_u64_reads_back, lemma_u16_le_writes_back, lemma_u32_le_writes_back,
    lemma_u64_le_writes_back, push_u16_le, push_u32_le, push_u64_le, read_u16_le, read_u32_le,
    read_u64_le, u16_le, u32_le, u64_le,
};
use crate::msgs::{Msg, ServerMsg, TermDimensions};
use vstd::prelude::*;
use vstd::slice::slice_subrange;

verus! {

/// Variant number of `Data`.
pub const DATA_VARIANT: u32 = 0;

/// Variant number of `SetDimensions`.
pub const DIMENSIONS_VARIANT: u32 = 1;

/// Bytes that a written `Data` message has before its data: the variant and
/// the count.
pub const DATA_OVERHEAD: usize = 12;

/// Bytes that a written `SetDimensions` message has.
pub const DIMENSIONS_LEN: usize = 8;

/// The bytes that stand for a message.
pub open spec fn encoding(msg: Msg) -> Seq<u8> {
    match msg {
        Msg::Data(bytes) => u32_le(DATA_VARIANT) + u64_le(bytes.len() as u64) + bytes,
        Msg::SetDimensions(dim) => u32_le(DIMENSIONS_VARIANT) + u16_le(dim.rows) + u16_le(
            dim.columns,
        ),
    }
}

/// The message that `payload` is, if it is one.
pub open spec fn decoding(payload: Seq<u8>) -> Option<Msg> {
    if payload.len() >= DATA_OVERHEAD && le_u32(payload, 0) == DATA_VARIANT && le_u64(payload, 4)
        == payload.len() - DATA_OVERHEAD {
        Some(Msg::Data(payload.skip(DATA_OVERHEAD as int)))
    } else if payload.len() == DIMENSIONS_LEN && le_u32(payload, 0) == DIMENSIONS_VARIANT {
        Some(
            Msg::SetDimensions(
                TermDimensions {
                    rows: le_u16(payload, 4) as u16,
                    columns: le_u16(payload, 6) as u16,
                },
            ),
        )
    } else {
        None
    }
}

/// Writes a message out in the wire layout.
pub fn serialize(msg: &ServerMsg) -> (out: Vec<u8>)
    ensures
        out@ == encoding(msg@),
{
    let mut out: Vec<u8> = Vec::new();
    match *msg {
        ServerMsg::Data(bytes) => {
            push_u32_le(&mut out, DATA_VARIANT);
            push_u64_le(&mut out, bytes.len() as u64);
            out.extend_from_slice(bytes);
            assert(out@ =~= encoding(msg@));
        },
        ServerMsg::SetDimensions(dim) => {
            push_u32_le(&mut out, DIMENSIONS_VARIANT);
            push_u16_le(&mut out, dim.rows);
            push_u16_le(&mut out, dim.columns);
            assert(out@ =~= encoding(msg@));
        },
    }
    out
}

/// Reads `payload` as a message. A `Data` message borrows its bytes from
/// `payload`. `None` means that `payload` is no message: it is too short for
/// what it announces, names no variant, or holds more than the message.
pub fn deserialize<'a>(payload: &'a [u8]) -> (r: Option<ServerMsg<'a>>)
    ensures
        match r {
            Some(msg) => decoding(payload@) == Some(msg@),
            None => decoding(payload@) is None,
        },
{
    let len: usize = payload.len();
    if len < 4 {
        return None;
    }
    let variant: u32 = read_u32_le(payload, 0);
    if variant == DATA_VARIANT {
        if len < DATA_OVERHEAD {
            return None;
        }
        let count: u64 = read_u64_le(payload, 4);
        if count != (len - DATA_OVERHEAD) as u64 {
            return None;
        }
        let bytes = slice_subrange(payload, DATA_OVERHEAD, len);
        assert(bytes@ =~= payload@.skip(DATA_OVERHEAD as int));
        Some(ServerMsg::Data(bytes))
    } else if variant == DIMENSIONS_VARIANT {
        if len != DIMENSIONS_LEN {
            return None;
        }
        let rows: u16 = read_u16_le(payload, 4);
        let columns: u16 = read_u16_le(payload, 6);
        Some(ServerMsg::SetDimensions(TermDimensions { rows, columns }))
    } else {
        None
    }
}

/// Reading back what was written gives the message that was written.
pub proof fn lemma_decoding_inverts_encoding(msg: Msg)
    requires
        msg.fits(),
    ensures
        decoding(encoding(msg)) == Some(msg),
{
    let bytes = encoding(msg);
    match msg {
        Msg::Data(data) => {
            let count = data.len() as u64;
            assert(bytes.subrange(0, 4) =~= u32_le(DATA_VARIANT));
            lemma_le_u32_reads_back(bytes, 0, DATA_VARIANT);
            assert(bytes.subrange(4, 12) =~= u64_le(count));
            lemma_le_u64_reads_back(bytes, 4, count);
            assert(bytes.skip(12) =~= data);
        },
        Msg::SetDimensions(dim) => {
            assert(bytes.subrange(0, 4) =~= u32_le(DIMENSIONS_VARIANT));
            lemma_le_u32_reads_back(bytes, 0, DIMENSIONS_VARIANT);
            assert(bytes.subrange(4, 6) =~= u16_le(dim.rows));
            lemma_le_u16_reads_back(bytes, 4, dim.rows);
            assert(bytes.subrange(6, 8) =~= u16_le(dim.columns));
            lemma_le_u16_reads_back(bytes, 6, dim.columns);
        },
    }
}

/// Only what was written reads as a message: a payload that is a message is,
/// byte for byte, that message written out. So the data of a `Data` message
/// is as long as its payload less the twelve bytes in front of the data.
pub proof fn lemma_encoding_inverts_decoding(payload: Seq<u8>)
    requires
        decoding(payload) is Some,
    ensures
        decoding(payload)->0.fits(),
        encoding(decoding(payload)->0) == payload,
        decoding(payload)->0 matches Msg::Data(data) ==> data.len() == payload.len()
            - DATA_OVERHEAD,
{
    let msg = decoding(payload)->0;
    lemma_u32_le_writes_back(payload, 0);
    match msg {
        Msg::Data(data) => {
            lemma_u64_le_writes_back(payload, 4);
            assert(encoding(msg) =~= payload.subrange(0, 4) + payload.subrange(4, 12)
                + payload.skip(12));
            assert(payload.subrange(0, 4) + payload.subrange(4, 12) + payload.skip(12)
                =~= payload);
        },
        Msg::SetDimensions(dim) => {
            lemma_u16_le_writes_back(payload, 4);
            lemma_u16_le_writes_back(payload, 6);
            assert(encoding(msg) =~= payload.subrange(0, 4) + payload.subrange(4, 6)
                + payload.subrange(6, 8));
            assert(payload.subrange(0, 4) + payload.subrange(4, 6) + payload.subrange(6, 8)
                =~= payload);
        },
    }
}

} // verus!
