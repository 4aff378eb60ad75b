//! The wire format, as mathematics.
//!
//! A regular frame on the wire is
//!
//! ```text
//! ff fe  len_lo len_hi  len_check  topic_lo topic_hi  payload..  msg_check
//! ```
//!
//! where each check byte brings the bytes it covers to a sum of 255 modulo
//! 256: `len_check` covers the two length bytes, `msg_check` covers the topic
//! bytes and the payload. A raw frame is `ff fe` followed by its bytes as they
//! are; only the encoder knows raw frames.
//!
//! [`wire`] says which bytes a frame is written as, [`scan`] says what a
//! reader makes of a run of bytes. The executable codec is proved against
//! both.

use crate::codec::Error;
use vstd::prelude::*;

verus! {

/// The byte every frame starts with.
pub const HEADER: u8 = 0xff;

/// The byte that names the one protocol version this crate speaks.
pub const PROTOCOL_VERSION_2: u8 = 0xfe;

/// The longest payload a regular frame can carry.
pub const MAX_PAYLOAD: usize = 0xffff;

/// A frame as a value: its topic (`None` for a raw frame) and its payload.
pub struct Frame {
    pub topic: Option<u16>,
    pub payload: Seq<u8>,
}

/// The plain sum of a run of bytes.
pub open spec fn byte_sum(bytes: Seq<u8>) -> int
    decreases bytes.len(),
{
    if bytes.len() == 0 {
        0
    } else {
        byte_sum(bytes.drop_last()) + bytes.last() as int
    }
}

/// The checksum of a run of bytes: their sum modulo 256.
pub open spec fn checksum(bytes: Seq<u8>) -> u8 {
    (byte_sum(bytes) % 256) as u8
}

/// The byte that, added to `bytes`, brings their checksum to 255.
pub open spec fn check_byte(bytes: Seq<u8>) -> u8 {
    (255 - checksum(bytes)) as u8
}

/// A 16-bit value as its two bytes, low byte first.
pub open spec fn le16(value: u16) -> Seq<u8> {
    seq![(value % 256) as u8, (value / 256) as u8]
}

/// The 16-bit value that two bytes spell, low byte first.
pub open spec fn word(lo: u8, hi: u8) -> u16 {
    (lo as int + 256 * (hi as int)) as u16
}

/// The seven bytes before the payload of a regular frame.
pub open spec fn wire_head(topic: u16, payload_len: u16) -> Seq<u8> {
    seq![HEADER, PROTOCOL_VERSION_2] + le16(payload_len) + seq![check_byte(le16(payload_len))]
        + le16(topic)
}

/// The bytes a frame is written as.
pub open spec fn wire(frame: Frame) -> Seq<u8> {
    match frame.topic {
        None => seq![HEADER, PROTOCOL_VERSION_2] + frame.payload,
        Some(topic) => wire_head(topic, frame.payload.len() as u16) + frame.payload + seq![
            check_byte(le16(topic) + frame.payload),
        ],
    }
}

/// The first position at or after `from` that holds the header byte, or the
/// length of `bytes` when there is none.
pub open spec fn first_header(bytes: Seq<u8>, from: int) -> int
    decreases bytes.len() - from,
{
    if from < 0 || from >= bytes.len() {
        bytes.len() as int
    } else if bytes[from] == HEADER {
        from
    } else {
        first_header(bytes, from + 1)
    }
}

/// The first position at or after `from` that holds a byte other than zero,
/// or the length of `bytes` when there is none.
pub open spec fn first_nonzero(bytes: Seq<u8>, from: int) -> int
    decreases bytes.len() - from,
{
    if from < 0 || from >= bytes.len() {
        bytes.len() as int
    } else if bytes[from] != 0 {
        from
    } else {
        first_nonzero(bytes, from + 1)
    }
}

/// What a reader makes of a run of bytes.
pub enum Scan {
    /// No frame and no error yet. All bytes are used up; `held` is what the
    /// reader must keep of them to go on when more bytes come.
    More { held: Seq<u8> },
    /// One frame, and the bytes that follow it.
    Frame { frame: Frame, rest: Seq<u8> },
    /// One error, and the bytes that follow the byte that gave it.
    Fail { error: Error, rest: Seq<u8> },
}

/// What a reader makes of `bytes`.
///
/// Everything before the first header byte is dropped. With no header byte at
/// all, nothing is kept.
pub open spec fn scan(bytes: Seq<u8>) -> Scan {
    let start = first_header(bytes, 0);
    if start >= bytes.len() {
        Scan::More { held: Seq::empty() }
    } else {
        scan_frame(bytes.skip(start))
    }
}

/// What a reader makes of bytes that begin with the header byte.
pub open spec fn scan_frame(bytes: Seq<u8>) -> Scan {
    if bytes.len() < 2 {
        Scan::More { held: bytes }
    } else if bytes[1] != PROTOCOL_VERSION_2 {
        Scan::Fail { error: Error::WrongProtocolVersion(bytes[1]), rest: bytes.skip(2) }
    } else if bytes.len() < 5 {
        Scan::More { held: bytes }
    } else if checksum(bytes.subrange(2, 5)) != 255 {
        Scan::Fail {
            error: Error::InvalidLengthChecksum(checksum(bytes.subrange(2, 5))),
            rest: bytes.skip(5),
        }
    } else if bytes.len() < 7 || bytes.len() < 7 + word(bytes[2], bytes[3]) {
        Scan::More { held: bytes }
    } else {
        scan_body(bytes, 7 + word(bytes[2], bytes[3]))
    }
}

/// What a reader makes of a frame whose payload has come whole and ends
/// before `end`.
///
/// Zero bytes between the payload and the message check byte are skipped:
/// some devices pad there. While only such padding has come, the reader keeps
/// the frame up to the end of the payload and lets the padding go.
pub open spec fn scan_body(bytes: Seq<u8>, end: int) -> Scan {
    let at = first_nonzero(bytes, end);
    if at >= bytes.len() {
        Scan::More { held: bytes.take(end) }
    } else {
        let sum = checksum(bytes.subrange(5, end).push(bytes[at]));
        if sum != 255 {
            Scan::Fail { error: Error::InvalidMessageChecksum(sum), rest: bytes.skip(at + 1) }
        } else {
            Scan::Frame {
                frame: Frame {
                    topic: Some(word(bytes[5], bytes[6])),
                    payload: bytes.subrange(7, end),
                },
                rest: bytes.skip(at + 1),
            }
        }
    }
}

/// The sum of a run of bytes is the sum of its parts.
pub proof fn lemma_byte_sum_concat(left: Seq<u8>, right: Seq<u8>)
    ensures
        byte_sum(left + right) == byte_sum(left) + byte_sum(right),
    decreases right.len(),
{
    if right.len() == 0 {
        assert(left + right == left);
    } else {
        lemma_byte_sum_concat(left, right.drop_last());
        assert((left + right).drop_last() == left + right.drop_last());
    }
}

/// Where the first header byte is, said without recursion: `at` is that
/// place exactly when no byte from `from` up to `at` is the header byte and
/// `at` is the end or holds one.
pub proof fn lemma_first_header_is(bytes: Seq<u8>, from: int, at: int)
    requires
        0 <= from <= at <= bytes.len(),
        forall|k: int| from <= k < at ==> bytes[k] != HEADER,
        at < bytes.len() ==> bytes[at] == HEADER,
    ensures
        first_header(bytes, from) == at,
    decreases at - from,
{
    if from < at {
        lemma_first_header_is(bytes, from + 1, at);
    }
}

/// What holds of the place [`first_header`] gives.
pub proof fn lemma_first_header_holds(bytes: Seq<u8>, from: int)
    requires
        0 <= from <= bytes.len(),
    ensures
        from <= first_header(bytes, from) <= bytes.len(),
        forall|k: int| from <= k < first_header(bytes, from) ==> bytes[k] != HEADER,
        first_header(bytes, from) < bytes.len() ==> bytes[first_header(bytes, from)] == HEADER,
    decreases bytes.len() - from,
{
    if from < bytes.len() && bytes[from] != HEADER {
        lemma_first_header_holds(bytes, from + 1);
    }
}

/// Where the first byte other than zero is, said without recursion.
pub proof fn lemma_first_nonzero_is(bytes: Seq<u8>, from: int, at: int)
    requires
        0 <= from <= at <= bytes.len(),
        forall|k: int| from <= k < at ==> bytes[k] == 0,
        at < bytes.len() ==> bytes[at] != 0,
    ensures
        first_nonzero(bytes, from) == at,
    decreases at - from,
{
    if from < at {
        lemma_first_nonzero_is(bytes, from + 1, at);
    }
}

/// What holds of the place [`first_nonzero`] gives.
pub proof fn lemma_first_nonzero_holds(bytes: Seq<u8>, from: int)
    requires
        0 <= from <= bytes.len(),
    ensures
        from <= first_nonzero(bytes, from) <= bytes.len(),
        forall|k: int| from <= k < first_nonzero(bytes, from) ==> bytes[k] == 0,
        first_nonzero(bytes, from) < bytes.len() ==> bytes[first_nonzero(bytes, from)] != 0,
    decreases bytes.len() - from,
{
    if from < bytes.len() && bytes[from] == 0 {
        lemma_first_nonzero_holds(bytes, from + 1);
    }
}

/// What a reader may hold between two reads: bytes that read as unfinished
/// and that it would hold again, all of them, if it read them once more.
pub open spec fn pending(held: Seq<u8>) -> bool {
    scan(held) == (Scan::More { held })
}

/// Held bytes are nothing at all, or an unfinished frame from its header byte
/// on that is no longer than a whole frame without its check byte.
pub proof fn lemma_pending_shape(held: Seq<u8>)
    requires
        pending(held),
    ensures
        held.len() <= 7 + MAX_PAYLOAD,
        held.len() > 0 ==> held[0] == HEADER && scan_frame(held) == (Scan::More { held }),
        held.len() >= 7 ==> held.len() <= 7 + word(held[2], held[3]),
{
    lemma_first_header_holds(held, 0);
    let start = first_header(held, 0);
    if start < held.len() {
        let bytes = held.skip(start);
        assert(scan(held) == scan_frame(bytes));
        if start > 0 {
            // What is held again is never longer than what was read.
            lemma_scan_frame_keeps_prefix(bytes);
            assert(false);
        }
        assert(bytes == held);
        lemma_scan_frame_keeps_prefix(held);
        if held.len() >= 7 {
            let end = 7 + word(held[2], held[3]) as int;
            if held.len() > end {
                lemma_first_nonzero_holds(held, end);
                assert(held.take(end).len() == end);
            }
        }
    }
}

/// What [`scan_frame`] says to hold is a prefix of what it was given.
pub proof fn lemma_scan_frame_keeps_prefix(bytes: Seq<u8>)
    ensures
        scan_frame(bytes) matches Scan::More { held } ==> held.len() <= bytes.len()
            && held == bytes.take(held.len() as int),
{
    if bytes.len() >= 7 {
        let end = 7 + word(bytes[2], bytes[3]) as int;
        if bytes.len() >= end {
            lemma_first_nonzero_holds(bytes, end);
        }
    }
    assert(bytes.take(bytes.len() as int) == bytes);
}

/// What a reader is told to hold is itself pending.
pub proof fn lemma_scan_more_is_pending(bytes: Seq<u8>)
    ensures
        scan(bytes) matches Scan::More { held } ==> pending(held),
{
    lemma_first_header_holds(bytes, 0);
    let start = first_header(bytes, 0);
    if start >= bytes.len() {
        assert(first_header(Seq::<u8>::empty(), 0) == 0);
    } else {
        lemma_scan_frame_more_is_pending(bytes.skip(start));
    }
}

/// What [`scan_frame`] says to hold, of bytes that begin with the header
/// byte, is itself pending.
pub proof fn lemma_scan_frame_more_is_pending(bytes: Seq<u8>)
    requires
        bytes.len() > 0,
        bytes[0] == HEADER,
    ensures
        scan_frame(bytes) matches Scan::More { held } ==> pending(held) && scan_frame(held) == (
        Scan::More { held }),
{
    if let Scan::More { held } = scan_frame(bytes) {
        lemma_scan_frame_keeps_prefix(bytes);
        if held.len() == bytes.len() {
            assert(held == bytes);
        } else {
            let end = 7 + word(bytes[2], bytes[3]) as int;
            lemma_first_nonzero_holds(bytes, end);
            assert(held == bytes.take(end));
            assert(held.subrange(2, 5) == bytes.subrange(2, 5));
            lemma_first_nonzero_is(held, end, end);
            assert(held.take(end) == held);
        }
        assert(held[0] == HEADER);
        lemma_first_header_is(held, 0, 0);
        assert(held.skip(0) == held);
    }
}

} // verus!
