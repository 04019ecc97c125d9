//! A channel's worth of frames: what a reader gets out of a byte stream that
//! arrives in pieces, and the laws that tie it to what the writer put in.

use crate::endian::{be_u32, lemma_be_u32_reads_back, u32_be};
use crate::frame::{after_first, first_payload, fits_frame, frame_of, has_frame, PREFIX_LEN};
use crate::msgs::Msg;
use crate::wire::{decoding, encoding, lemma_decoding_inverts_encoding};
use vstd::prelude::*;

verus! {

/// The frames of `payloads`, back to back: what a writer puts on the channel.
pub open spec fn frames_of(payloads: Seq<Seq<u8>>) -> Seq<u8>
    decreases payloads.len(),
{
    if payloads.len() == 0 {
        Seq::empty()
    } else {
        frame_of(payloads[0]) + frames_of(payloads.drop_first())
    }
}

/// The pieces of a stream, put together again.
pub open spec fn joined(chunks: Seq<Seq<u8>>) -> Seq<u8>
    decreases chunks.len(),
{
    if chunks.len() == 0 {
        Seq::empty()
    } else {
        chunks[0] + joined(chunks.drop_first())
    }
}

/// The payloads that a reader takes off the front of `buf`, one whole frame
/// after another, until no whole frame is left.
pub open spec fn taken(buf: Seq<u8>) -> Seq<Seq<u8>>
    decreases buf.len(),
{
    if has_frame(buf) {
        seq![first_payload(buf)] + taken(after_first(buf))
    } else {
        Seq::empty()
    }
}

/// What stays in the buffer once every whole frame is taken off its front.
pub open spec fn left(buf: Seq<u8>) -> Seq<u8>
    decreases buf.len(),
{
    if has_frame(buf) {
        left(after_first(buf))
    } else {
        buf
    }
}

/// The payloads that a reader gets whose buffer holds `buf` and to whom
/// `chunks` arrive one by one: it takes every whole frame that is there, then
/// reads the next chunk onto the end of what is left, and so on.
pub open spec fn received(buf: Seq<u8>, chunks: Seq<Seq<u8>>) -> Seq<Seq<u8>>
    decreases chunks.len(),
{
    if chunks.len() == 0 {
        taken(buf)
    } else {
        taken(buf) + received(left(buf) + chunks[0], chunks.drop_first())
    }
}

/// What stays in that reader's buffer after the last chunk.
pub open spec fn remainder(buf: Seq<u8>, chunks: Seq<Seq<u8>>) -> Seq<u8>
    decreases chunks.len(),
{
    if chunks.len() == 0 {
        left(buf)
    } else {
        remainder(left(buf) + chunks[0], chunks.drop_first())
    }
}

/// The payloads of `msgs`, each written out.
pub open spec fn encodings(msgs: Seq<Msg>) -> Seq<Seq<u8>> {
    Seq::new(msgs.len(), |i: int| encoding(msgs[i]))
}

/// The messages that a server acts on when these payloads reach it: each
/// payload that reads as a message, in order. One that does not is dropped.
pub open spec fn accepted(payloads: Seq<Seq<u8>>) -> Seq<Msg>
    decreases payloads.len(),
{
    if payloads.len() == 0 {
        Seq::empty()
    } else {
        match decoding(payloads[0]) {
            Some(msg) => seq![msg] + accepted(payloads.drop_first()),
            None => accepted(payloads.drop_first()),
        }
    }
}

/// The bytes for the shell that `msgs` carry, in order. A size change
/// carries none.
pub open spec fn shell_input(msgs: Seq<Msg>) -> Seq<u8>
    decreases msgs.len(),
{
    if msgs.len() == 0 {
        Seq::empty()
    } else {
        match msgs[0] {
            Msg::Data(bytes) => bytes + shell_input(msgs.drop_first()),
            Msg::SetDimensions(_) => shell_input(msgs.drop_first()),
        }
    }
}

/// One `Data` message for each read of the terminal.
pub open spec fn as_data(reads: Seq<Seq<u8>>) -> Seq<Msg> {
    Seq::new(reads.len(), |i: int| Msg::Data(reads[i]))
}

/// Whether each payload is short enough for a frame.
pub open spec fn all_framable(payloads: Seq<Seq<u8>>) -> bool {
    forall|i: int| 0 <= i < payloads.len() ==> (#[trigger] payloads[i]).len() <= u32::MAX
}

/// Whether each message can be written out and put into a frame.
pub open spec fn all_sendable(msgs: Seq<Msg>) -> bool {
    forall|i: int|
        0 <= i < msgs.len() ==> (#[trigger] msgs[i]).fits() && encoding(msgs[i]).len() <= u32::MAX
}

/// A frame followed by anything: the reader finds the frame, takes exactly
/// its payload, and is left with exactly what followed.
pub proof fn lemma_frame_then_rest(payload: Seq<u8>, rest: Seq<u8>)
    requires
        payload.len() <= u32::MAX,
    ensures
        has_frame(frame_of(payload) + rest),
        first_payload(frame_of(payload) + rest) == payload,
        after_first(frame_of(payload) + rest) == rest,
{
    let buf = frame_of(payload) + rest;
    assert(buf.subrange(0, 4) =~= u32_be(payload.len() as u32));
    lemma_be_u32_reads_back(buf, payload.len() as u32);
    assert(first_payload(buf) =~= payload);
    assert(after_first(buf) =~= rest);
}

/// Bytes that arrive behind a whole frame change neither the frame nor its
/// payload; they only lengthen what follows it.
pub proof fn lemma_more_bytes_keep_first_frame(buf: Seq<u8>, more: Seq<u8>)
    requires
        has_frame(buf),
    ensures
        has_frame(buf + more),
        first_payload(buf + more) == first_payload(buf),
        after_first(buf + more) == after_first(buf) + more,
{
    let all = buf + more;
    assert(all[0] == buf[0] && all[1] == buf[1] && all[2] == buf[2] && all[3] == buf[3]);
    assert(first_payload(all) =~= first_payload(buf));
    assert(after_first(all) =~= after_first(buf) + more);
}

/// Taking frames before more bytes arrive and again after gives what taking
/// them once, with all bytes there, gives.
pub proof fn lemma_taken_in_two_goes(buf: Seq<u8>, more: Seq<u8>)
    ensures
        taken(buf + more) == taken(buf) + taken(left(buf) + more),
        left(buf + more) == left(left(buf) + more),
    decreases buf.len(),
{
    if has_frame(buf) {
        lemma_more_bytes_keep_first_frame(buf, more);
        lemma_taken_in_two_goes(after_first(buf), more);
        assert(taken(buf + more) =~= taken(buf) + taken(left(buf) + more));
    } else {
        assert(taken(buf) + taken(buf + more) =~= taken(buf + more));
    }
}

/// However the stream is cut into chunks, the reader gets what it would get
/// from the whole stream at once.
pub proof fn lemma_chunking_is_invisible(buf: Seq<u8>, chunks: Seq<Seq<u8>>)
    ensures
        received(buf, chunks) == taken(buf + joined(chunks)),
        remainder(buf, chunks) == left(buf + joined(chunks)),
    decreases chunks.len(),
{
    if chunks.len() == 0 {
        assert(buf + joined(chunks) =~= buf);
    } else {
        let rest = chunks.drop_first();
        lemma_chunking_is_invisible(left(buf) + chunks[0], rest);
        lemma_taken_in_two_goes(buf, joined(chunks));
        assert(left(buf) + chunks[0] + joined(rest) =~= left(buf) + joined(chunks));
    }
}

/// From frames back to back the reader takes the payloads that were framed,
/// in order, and nothing is left over.
pub proof fn lemma_taken_from_frames(payloads: Seq<Seq<u8>>)
    requires
        all_framable(payloads),
    ensures
        taken(frames_of(payloads)) == payloads,
        left(frames_of(payloads)) == Seq::<u8>::empty(),
    decreases payloads.len(),
{
    if payloads.len() > 0 {
        let rest = payloads.drop_first();
        assert(all_framable(rest)) by {
            assert forall|i: int| 0 <= i < rest.len() implies (#[trigger] rest[i]).len()
                <= u32::MAX by {
                assert(rest[i] == payloads[i + 1]);
            }
        }
        lemma_frame_then_rest(payloads[0], frames_of(rest));
        lemma_taken_from_frames(rest);
        assert(seq![payloads[0]] + rest =~= payloads);
    }
}

/// Payloads written from messages read back as those messages.
pub proof fn lemma_accepted_from_encodings(msgs: Seq<Msg>)
    requires
        all_sendable(msgs),
    ensures
        accepted(encodings(msgs)) == msgs,
    decreases msgs.len(),
{
    if msgs.len() > 0 {
        let rest = msgs.drop_first();
        assert(all_sendable(rest)) by {
            assert forall|i: int| 0 <= i < rest.len() implies (#[trigger] rest[i]).fits()
                && encoding(rest[i]).len() <= u32::MAX by {
                assert(rest[i] == msgs[i + 1]);
            }
        }
        assert(encodings(msgs).drop_first() =~= encodings(rest));
        lemma_accepted_from_encodings(rest);
        lemma_decoding_inverts_encoding(msgs[0]);
        assert(seq![msgs[0]] + rest =~= msgs);
    }
}

/// Framing round trip. Write any messages out, frame them, put the frames
/// back to back and cut the stream into chunks wherever: a reader that starts
/// with an empty buffer gets the payloads that were framed, they read back
/// as the messages that were sent, in order, and no byte is left over.
pub proof fn lemma_framing_round_trip(msgs: Seq<Msg>, chunks: Seq<Seq<u8>>)
    requires
        all_sendable(msgs),
        joined(chunks) == frames_of(encodings(msgs)),
    ensures
        received(Seq::empty(), chunks) == encodings(msgs),
        accepted(received(Seq::empty(), chunks)) == msgs,
        remainder(Seq::empty(), chunks) == Seq::<u8>::empty(),
{
    let stream = frames_of(encodings(msgs));
    lemma_chunking_is_invisible(Seq::empty(), chunks);
    assert(Seq::<u8>::empty() + joined(chunks) =~= stream);
    lemma_taken_from_frames(encodings(msgs));
    lemma_accepted_from_encodings(msgs);
}

/// Order within a direction. What the terminal reads, read by read, reaches
/// the shell byte for byte and in order, however the channel cuts the stream:
/// the data of the messages that the server accepts, put end to end, is what
/// the terminal read, put end to end.
pub proof fn lemma_input_arrives_in_order(reads: Seq<Seq<u8>>, chunks: Seq<Seq<u8>>)
    requires
        forall|i: int| 0 <= i < reads.len() ==> fits_frame(#[trigger] reads[i]),
        joined(chunks) == frames_of(encodings(as_data(reads))),
    ensures
        shell_input(accepted(received(Seq::empty(), chunks))) == joined(reads),
{
    let msgs = as_data(reads);
    assert(all_sendable(msgs)) by {
        assert forall|i: int| 0 <= i < msgs.len() implies (#[trigger] msgs[i]).fits()
            && encoding(msgs[i]).len() <= u32::MAX by {
            assert(fits_frame(reads[i]));
            assert(encoding(msgs[i]).len() == 12 + reads[i].len());
        }
    }
    lemma_framing_round_trip(msgs, chunks);
    lemma_shell_input_of_data(reads);
}

/// The shell's input in a run of `Data` messages is their data, end to end.
pub proof fn lemma_shell_input_of_data(reads: Seq<Seq<u8>>)
    ensures
        shell_input(as_data(reads)) == joined(reads),
    decreases reads.len(),
{
    if reads.len() > 0 {
        assert(as_data(reads).drop_first() =~= as_data(reads.drop_first()));
        lemma_shell_input_of_data(reads.drop_first());
    }
}

/// Partial-frame resumption. Cut the frame of one message in two at any
/// offset: after the first part alone the reader has no payload, unless the
/// cut is at the very end; after both parts it has the one payload that was
/// framed, which reads back as the message, and no byte is left over.
pub proof fn lemma_split_frame_resumes(msg: Msg, cut: int)
    requires
        msg.fits(),
        encoding(msg).len() <= u32::MAX,
        0 <= cut <= frame_of(encoding(msg)).len(),
    ensures
        cut < frame_of(encoding(msg)).len() ==> taken(frame_of(encoding(msg)).subrange(0, cut))
            == Seq::<Seq<u8>>::empty(),
        received(
            Seq::empty(),
            seq![
                frame_of(encoding(msg)).subrange(0, cut),
                frame_of(encoding(msg)).subrange(cut, frame_of(encoding(msg)).len() as int),
            ],
        ) == seq![encoding(msg)],
        accepted(seq![encoding(msg)]) == seq![msg],
        remainder(
            Seq::empty(),
            seq![
                frame_of(encoding(msg)).subrange(0, cut),
                frame_of(encoding(msg)).subrange(cut, frame_of(encoding(msg)).len() as int),
            ],
        ) == Seq::<u8>::empty(),
{
    let payload = encoding(msg);
    let frame = frame_of(payload);
    let head = frame.subrange(0, cut);
    let tail = frame.subrange(cut, frame.len() as int);
    let chunks = seq![head, tail];
    assert(joined(chunks) =~= frame) by {
        reveal_with_fuel(joined, 3);
        assert(chunks.drop_first() =~= seq![tail]);
        assert(seq![tail].drop_first() =~= Seq::<Seq<u8>>::empty());
    }
    lemma_chunking_is_invisible(Seq::empty(), chunks);
    assert(Seq::<u8>::empty() + frame =~= frame);
    assert(frames_of(seq![payload]) =~= frame) by {
        reveal_with_fuel(frames_of, 2);
        assert(seq![payload].drop_first() =~= Seq::<Seq<u8>>::empty());
    }
    lemma_taken_from_frames(seq![payload]);
    assert(encodings(seq![msg]) =~= seq![payload]);
    lemma_accepted_from_encodings(seq![msg]);
    if cut < frame.len() {
        lemma_frame_then_rest(payload, Seq::empty());
        assert(frame + Seq::<u8>::empty() =~= frame);
        if cut >= PREFIX_LEN {
            assert(be_u32(head) == be_u32(frame));
        }
        assert(!has_frame(head));
    }
}

/// Decode-failure isolation. A frame whose payload reads as no message costs
/// the server that one payload and nothing else: the reader still takes it
/// off whole, so every frame behind it is found where it starts, and the
/// messages in them are accepted as if the bad frame had not been sent.
pub proof fn lemma_bad_payload_is_isolated(before: Seq<Msg>, bad: Seq<u8>, after: Seq<Msg>)
    requires
        all_sendable(before),
        all_sendable(after),
        bad.len() <= u32::MAX,
        decoding(bad) is None,
    ensures
        taken(frames_of(encodings(before) + seq![bad] + encodings(after))) == encodings(before)
            + seq![bad] + encodings(after),
        accepted(encodings(before) + seq![bad] + encodings(after)) == before + after,
{
    let payloads = encodings(before) + seq![bad] + encodings(after);
    assert(all_framable(payloads));
    lemma_taken_from_frames(payloads);
    lemma_accepted_from_encodings(before);
    lemma_accepted_from_encodings(after);
    lemma_accepted_splits(encodings(before), seq![bad] + encodings(after));
    assert((seq![bad] + encodings(after)).drop_first() =~= encodings(after));
    assert(encodings(before) + (seq![bad] + encodings(after)) =~= payloads);
}

/// What a server accepts from one run of payloads and then another is what
/// it accepts from the first, followed by what it accepts from the second.
pub proof fn lemma_accepted_splits(first: Seq<Seq<u8>>, second: Seq<Seq<u8>>)
    ensures
        accepted(first + second) == accepted(first) + accepted(second),
    decreases first.len(),
{
    if first.len() == 0 {
        assert(first + second =~= second);
    } else {
        assert((first + second).drop_first() =~= first.drop_first() + second);
        lemma_accepted_splits(first.drop_first(), second);
    }
}

} // verus!
