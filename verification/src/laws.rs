//! What holds of the wire format, for all frames and all bytes.
//!
//! The laws are stated over [`wire`] and [`scan`], the functions that the
//! contracts of the encoder and of the decoder are stated over: the encoder
//! appends `wire` of its frame, the decoder answers with `scan` of what it
//! holds followed by what its buffer brings.

use crate::wire::{
    check_byte, checksum, first_header, le16, lemma_first_header_holds, lemma_first_header_is,
    lemma_first_nonzero_is, scan, scan_body, scan_frame, wire, wire_head, word, Frame, Scan,
    HEADER, MAX_PAYLOAD,
};
use vstd::prelude::*;

verus! {

/// Whether `frame` is a regular frame whose payload fits the length field.
pub open spec fn regular(frame: Frame) -> bool {
    frame.topic is Some && frame.payload.len() <= MAX_PAYLOAD
}

/// The message check byte of a regular frame.
pub open spec fn message_check(frame: Frame) -> u8 {
    check_byte(le16(frame.topic->0) + frame.payload)
}

/// Whether every byte of `bytes` is zero.
pub open spec fn all_zero(bytes: Seq<u8>) -> bool {
    forall|k: int| 0 <= k < bytes.len() ==> bytes[k] == 0
}

/// Whether no byte of `bytes` is the header byte.
pub open spec fn no_header(bytes: Seq<u8>) -> bool {
    forall|k: int| 0 <= k < bytes.len() ==> bytes[k] != HEADER
}

/// A run of bytes followed by its check byte has the checksum 255.
pub proof fn lemma_check_byte_completes(bytes: Seq<u8>)
    ensures
        checksum(bytes.push(check_byte(bytes))) == 255,
{
    assert(bytes.push(check_byte(bytes)).drop_last() == bytes);
}

/// Two bytes spell the value they were taken from.
pub proof fn lemma_word_of_le16(value: u16)
    ensures
        le16(value).len() == 2,
        word(le16(value)[0], le16(value)[1]) == value,
{
}

/// Checksum correctness: in every regular frame as written, the length bytes
/// with their check byte, and the topic bytes and payload with theirs, each
/// have the checksum 255.
pub proof fn law_written_checks_hold(frame: Frame)
    requires
        regular(frame),
    ensures
        wire(frame).len() == frame.payload.len() + 8,
        checksum(wire(frame).subrange(2, 5)) == 255,
        checksum(wire(frame).subrange(5, wire(frame).len() as int)) == 255,
{
    let topic = frame.topic->0;
    let length = le16(frame.payload.len() as u16);
    let covered = le16(topic) + frame.payload;
    lemma_check_byte_completes(length);
    lemma_check_byte_completes(covered);
    assert(wire(frame).subrange(2, 5) == length.push(check_byte(length)));
    assert(wire(frame).subrange(5, wire(frame).len() as int) == covered.push(check_byte(covered)));
}

/// A regular frame as written, with zero bytes put in before its message
/// check byte, reads as that frame, and what follows it is left over. The
/// one condition is that the check byte is not itself zero: a reader cannot
/// tell a zero check byte from padding.
pub proof fn law_padding_is_skipped(frame: Frame, padding: Seq<u8>, rest: Seq<u8>)
    requires
        regular(frame),
        message_check(frame) != 0,
        all_zero(padding),
    ensures
        scan(
            wire_head(frame.topic->0, frame.payload.len() as u16) + frame.payload + padding + seq![
                message_check(frame),
            ] + rest,
        ) == (Scan::Frame { frame, rest }),
{
    let topic = frame.topic->0;
    let length = le16(frame.payload.len() as u16);
    let covered = le16(topic) + frame.payload;
    let check = message_check(frame);
    let bytes = wire_head(topic, frame.payload.len() as u16) + frame.payload + padding + seq![check]
        + rest;
    let end = 7 + frame.payload.len() as int;
    let at = end + padding.len();
    lemma_first_header_is(bytes, 0, 0);
    assert(bytes.skip(0) == bytes);
    lemma_word_of_le16(frame.payload.len() as u16);
    lemma_word_of_le16(topic);
    lemma_check_byte_completes(length);
    lemma_check_byte_completes(covered);
    assert(bytes.subrange(2, 5) == length.push(check_byte(length)));
    assert(bytes[2] == length[0] && bytes[3] == length[1]);
    assert(bytes[5] == le16(topic)[0] && bytes[6] == le16(topic)[1]);
    assert forall|k: int| end <= k < at implies bytes[k] == 0 by {
        assert(bytes[k] == padding[k - end]);
    }
    assert(bytes[at] == check);
    lemma_first_nonzero_is(bytes, end, at);
    assert(bytes.subrange(5, end) == covered);
    assert(bytes.subrange(7, end) == frame.payload);
    assert(bytes.skip(at + 1) == rest);
    assert(scan_frame(bytes) == scan_body(bytes, end));
}

/// Round trip: a regular frame as written reads as that frame, and what
/// follows it is left over. The one condition is that its message check byte
/// is not zero: a reader skips zero bytes where the check byte stands.
pub proof fn law_round_trip(frame: Frame, rest: Seq<u8>)
    requires
        regular(frame),
        message_check(frame) != 0,
    ensures
        scan(wire(frame) + rest) == (Scan::Frame { frame, rest }),
{
    let padding = Seq::<u8>::empty();
    law_padding_is_skipped(frame, padding, rest);
    assert(wire_head(frame.topic->0, frame.payload.len() as u16) + frame.payload + padding
        == wire_head(frame.topic->0, frame.payload.len() as u16) + frame.payload);
}

/// Bytes without a header byte, put before any bytes, change nothing of what
/// is read.
pub proof fn law_junk_is_dropped(junk: Seq<u8>, bytes: Seq<u8>)
    requires
        no_header(junk),
    ensures
        scan(junk + bytes) == scan(bytes),
{
    let all = junk + bytes;
    lemma_first_header_holds(bytes, 0);
    let at = first_header(bytes, 0);
    assert forall|k: int| 0 <= k < junk.len() + at implies all[k] != HEADER by {
        if k >= junk.len() {
            assert(all[k] == bytes[k - junk.len()]);
        }
    }
    lemma_first_header_is(all, 0, junk.len() + at);
    if at < bytes.len() {
        assert(all.skip(junk.len() + at) == bytes.skip(at));
    }
}

/// Resynchronization: after any bytes without a header byte, a regular frame
/// as written reads as that frame, with all bytes up to its end used up and
/// what follows it left over. As in [`law_round_trip`], its message check
/// byte must not be zero.
pub proof fn law_resynchronization(junk: Seq<u8>, frame: Frame, rest: Seq<u8>)
    requires
        no_header(junk),
        regular(frame),
        message_check(frame) != 0,
    ensures
        scan(junk + wire(frame) + rest) == (Scan::Frame { frame, rest }),
{
    law_round_trip(frame, rest);
    law_junk_is_dropped(junk, wire(frame) + rest);
    assert(junk + wire(frame) + rest == junk + (wire(frame) + rest));
}

/// A reader never makes a raw frame: every frame read has a topic and a
/// payload that fits the length field.
pub proof fn law_frames_read_are_regular(bytes: Seq<u8>)
    ensures
        scan(bytes) matches Scan::Frame { frame, rest } ==> regular(frame),
{
}

} // verus!
