//! Reading a stream of bytes that comes in pieces.
//!
//! A reader is asked again and again, each time with the bytes that have come
//! since. This module says what all those reads together report, and proves
//! that it does not depend on how the stream was cut into pieces.

use crate::codec::Error;
use crate::laws::{law_round_trip, message_check, regular};
use crate::wire::{
    first_header, first_nonzero, lemma_first_header_holds, lemma_first_header_is,
    lemma_first_nonzero_holds, lemma_first_nonzero_is, scan, scan_body, scan_frame, wire, word,
    Frame, Scan, HEADER,
};
use vstd::prelude::*;

verus! {

/// One thing a reader reports.
pub enum Event {
    /// A frame was read.
    Frame(Frame),
    /// An error was found.
    Fail(Error),
}

/// What a reader has reported, in order, and what it holds.
pub struct Reading {
    pub events: Seq<Event>,
    pub held: Seq<u8>,
}

/// What is left over after a frame or an error is a proper end piece of what
/// was read.
pub proof fn lemma_scan_rest_is_suffix(bytes: Seq<u8>)
    ensures
        scan(bytes) matches Scan::Frame { frame, rest } ==> rest.len() < bytes.len() && rest
            == bytes.skip(bytes.len() - rest.len()),
        scan(bytes) matches Scan::Fail { error, rest } ==> rest.len() < bytes.len() && rest
            == bytes.skip(bytes.len() - rest.len()),
{
    lemma_first_header_holds(bytes, 0);
    let start = first_header(bytes, 0);
    if start < bytes.len() {
        let from = bytes.skip(start);
        if from.len() >= 7 {
            let end = 7 + word(from[2], from[3]) as int;
            if from.len() >= end {
                lemma_first_nonzero_holds(from, end);
                let at = first_nonzero(from, end);
                if at < from.len() {
                    assert(from.skip(at + 1) == bytes.skip(start + at + 1));
                }
            }
        }
        if from.len() >= 2 {
            assert(from.skip(2) == bytes.skip(start + 2));
        }
        if from.len() >= 5 {
            assert(from.skip(5) == bytes.skip(start + 5));
        }
    }
}

/// Everything that a reader which holds nothing reports of `bytes`, read
/// until nothing is left of them, and what it holds then.
pub open spec fn read_all(bytes: Seq<u8>) -> Reading
    decreases bytes.len(),
    via read_all_decreases
{
    match scan(bytes) {
        Scan::More { held } => Reading { events: Seq::empty(), held },
        Scan::Frame { frame, rest } => Reading {
            events: seq![Event::Frame(frame)] + read_all(rest).events,
            held: read_all(rest).held,
        },
        Scan::Fail { error, rest } => Reading {
            events: seq![Event::Fail(error)] + read_all(rest).events,
            held: read_all(rest).held,
        },
    }
}

#[via_fn]
proof fn read_all_decreases(bytes: Seq<u8>) {
    lemma_scan_rest_is_suffix(bytes);
}

/// The bytes of all `pieces`, in order.
pub open spec fn joined(pieces: Seq<Seq<u8>>) -> Seq<u8>
    decreases pieces.len(),
{
    if pieces.len() == 0 {
        Seq::empty()
    } else {
        pieces[0] + joined(pieces.skip(1))
    }
}

/// Everything that a reader which holds `held` reports while `pieces` come
/// one after the other and each is read until nothing is left of it, and
/// what it holds in the end.
pub open spec fn read_pieces(held: Seq<u8>, pieces: Seq<Seq<u8>>) -> Reading
    decreases pieces.len(),
{
    if pieces.len() == 0 {
        Reading { events: Seq::empty(), held }
    } else {
        let first = read_all(held + pieces[0]);
        let others = read_pieces(first.held, pieces.skip(1));
        Reading { events: first.events + others.events, held: others.held }
    }
}

/// A frame or an error, once read, stays what it is whatever bytes come
/// after: they are left over with the rest.
pub proof fn law_what_is_read_stays(bytes: Seq<u8>, more: Seq<u8>)
    ensures
        scan(bytes) matches Scan::Frame { frame, rest } ==> scan(bytes + more) == (Scan::Frame {
            frame,
            rest: rest + more,
        }),
        scan(bytes) matches Scan::Fail { error, rest } ==> scan(bytes + more) == (Scan::Fail {
            error,
            rest: rest + more,
        }),
{
    let all = bytes + more;
    lemma_first_header_holds(bytes, 0);
    let start = first_header(bytes, 0);
    if start < bytes.len() {
        assert forall|k: int| 0 <= k < start implies all[k] != HEADER by {
            assert(all[k] == bytes[k]);
        }
        assert(all[start] == bytes[start]);
        lemma_first_header_is(all, 0, start);
        let from = bytes.skip(start);
        assert(all.skip(start) == from + more);
        lemma_scan_frame_done_stays(from, more);
    }
}

/// [`law_what_is_read_stays`], for bytes that begin with the header byte.
pub proof fn lemma_scan_frame_done_stays(bytes: Seq<u8>, more: Seq<u8>)
    ensures
        scan_frame(bytes) matches Scan::Frame { frame, rest } ==> scan_frame(bytes + more) == (
        Scan::Frame { frame, rest: rest + more }),
        scan_frame(bytes) matches Scan::Fail { error, rest } ==> scan_frame(bytes + more) == (
        Scan::Fail { error, rest: rest + more }),
{
    let all = bytes + more;
    if bytes.len() >= 2 {
        assert(all[1] == bytes[1]);
        assert(all.skip(2) == bytes.skip(2) + more);
    }
    if bytes.len() >= 5 {
        assert(all.subrange(2, 5) == bytes.subrange(2, 5));
        assert(all.skip(5) == bytes.skip(5) + more);
    }
    if bytes.len() >= 7 && scan_frame(bytes) == scan_body(bytes, 7 + word(bytes[2], bytes[3])) {
        assert(all[2] == bytes[2] && all[3] == bytes[3]);
        let end = 7 + word(bytes[2], bytes[3]) as int;
        if bytes.len() >= end {
            lemma_first_nonzero_holds(bytes, end);
            let at = first_nonzero(bytes, end);
            if at < bytes.len() {
                assert forall|k: int| end <= k < at implies all[k] == 0 by {
                    assert(all[k] == bytes[k]);
                }
                assert(all[at] == bytes[at]);
                lemma_first_nonzero_is(all, end, at);
                assert(all.subrange(5, end) == bytes.subrange(5, end));
                assert(all.subrange(7, end) == bytes.subrange(7, end));
                assert(all[5] == bytes[5] && all[6] == bytes[6]);
                assert(all.skip(at + 1) == bytes.skip(at + 1) + more);
                assert(scan_frame(all) == scan_body(all, end));
            }
        }
    }
}

/// What a reader holds stands for all it has read: if `bytes` read as
/// unfinished, then what is to be held of them, followed by any further
/// bytes, reads as `bytes` followed by those further bytes.
pub proof fn law_held_stands_for_read(bytes: Seq<u8>, more: Seq<u8>)
    ensures
        scan(bytes) matches Scan::More { held } ==> scan(held + more) == scan(bytes + more),
{
    if let Scan::More { held } = scan(bytes) {
        let all = bytes + more;
        lemma_first_header_holds(bytes, 0);
        let start = first_header(bytes, 0);
        if start >= bytes.len() {
            // Nothing but junk was read and nothing is held.
            assert(held + more == more);
            lemma_first_header_holds(more, 0);
            let at = first_header(more, 0);
            assert forall|k: int| 0 <= k < bytes.len() + at implies all[k] != HEADER by {
                if k < bytes.len() {
                    assert(all[k] == bytes[k]);
                } else {
                    assert(all[k] == more[k - bytes.len()]);
                }
            }
            lemma_first_header_is(all, 0, bytes.len() + at);
            if at < more.len() {
                assert(all.skip(bytes.len() + at) == more.skip(at));
            }
        } else {
            assert forall|k: int| 0 <= k < start implies all[k] != HEADER by {
                assert(all[k] == bytes[k]);
            }
            assert(all[start] == bytes[start]);
            lemma_first_header_is(all, 0, start);
            let from = bytes.skip(start);
            assert(all.skip(start) == from + more);
            lemma_scan_frame_held_stands(from, more);
            assert(held.len() > 0 && held[0] == HEADER);
            lemma_first_header_is(held + more, 0, 0);
            assert((held + more).skip(0) == held + more);
        }
    }
}

/// [`law_held_stands_for_read`], for bytes that begin with the header byte.
pub proof fn lemma_scan_frame_held_stands(bytes: Seq<u8>, more: Seq<u8>)
    requires
        bytes.len() > 0,
    ensures
        scan_frame(bytes) matches Scan::More { held } ==> held.len() > 0 && held[0] == bytes[0]
            && scan_frame(held + more) == scan_frame(bytes + more),
{
    if let Scan::More { held } = scan_frame(bytes) {
        if bytes.len() >= 7 && bytes.len() >= 7 + word(bytes[2], bytes[3]) {
            // Only padding has come after the payload; it is not held.
            let end = 7 + word(bytes[2], bytes[3]) as int;
            let short = held + more;
            let long = bytes + more;
            lemma_first_nonzero_holds(bytes, end);
            assert(held == bytes.take(end));
            assert(short.subrange(2, 5) == bytes.subrange(2, 5));
            assert(long.subrange(2, 5) == bytes.subrange(2, 5));
            assert(short[1] == bytes[1] && long[1] == bytes[1]);
            assert(short[2] == bytes[2] && short[3] == bytes[3]);
            assert(long[2] == bytes[2] && long[3] == bytes[3]);
            assert(scan_frame(short) == scan_body(short, end));
            assert(scan_frame(long) == scan_body(long, end));
            lemma_first_nonzero_holds(more, 0);
            let at = first_nonzero(more, 0);
            assert forall|k: int| end <= k < end + at implies short[k] == 0 by {
                assert(short[k] == more[k - end]);
            }
            assert forall|k: int| end <= k < bytes.len() + at implies long[k] == 0 by {
                if k < bytes.len() {
                    assert(long[k] == bytes[k]);
                } else {
                    assert(long[k] == more[k - bytes.len()]);
                }
            }
            lemma_first_nonzero_is(short, end, end + at);
            lemma_first_nonzero_is(long, end, bytes.len() + at);
            assert(short.take(end) == long.take(end));
            if at < more.len() {
                assert(short[end + at] == more[at]);
                assert(long[bytes.len() + at] == more[at]);
                assert(short.subrange(5, end) == long.subrange(5, end));
                assert(short.subrange(7, end) == long.subrange(7, end));
                assert(short[5] == long[5] && short[6] == long[6]);
                assert(short.skip(end + at + 1) == more.skip(at + 1));
                assert(long.skip(bytes.len() + at + 1) == more.skip(at + 1));
            }
        } else {
            assert(held == bytes);
        }
    }
}

/// Reads that see the same thing first report the same things after.
pub proof fn lemma_read_all_follows_scan(left: Seq<u8>, right: Seq<u8>)
    requires
        scan(left) == scan(right),
    ensures
        read_all(left) == read_all(right),
{
}

/// Reading in two parts: what is read of `bytes` and then, with what is held
/// of them, of `more`, is what is read of the two as one.
pub proof fn law_reading_in_two_parts(bytes: Seq<u8>, more: Seq<u8>)
    ensures
        read_all(bytes + more).events == read_all(bytes).events + read_all(
            read_all(bytes).held + more,
        ).events,
        read_all(bytes + more).held == read_all(read_all(bytes).held + more).held,
    decreases bytes.len(),
{
    let whole = read_all(bytes + more);
    let first = read_all(bytes);
    let second = read_all(first.held + more);
    lemma_scan_rest_is_suffix(bytes);
    law_what_is_read_stays(bytes, more);
    match scan(bytes) {
        Scan::More { held } => {
            law_held_stands_for_read(bytes, more);
            lemma_read_all_follows_scan(held + more, bytes + more);
            assert(first.events + second.events == second.events);
        },
        Scan::Frame { frame, rest } => {
            law_reading_in_two_parts(rest, more);
            let head = seq![Event::Frame(frame)];
            assert(whole.events == head + read_all(rest + more).events);
            assert(head + (read_all(rest).events + second.events) == (head + read_all(
                rest,
            ).events) + second.events);
        },
        Scan::Fail { error, rest } => {
            law_reading_in_two_parts(rest, more);
            let head = seq![Event::Fail(error)];
            assert(whole.events == head + read_all(rest + more).events);
            assert(head + (read_all(rest).events + second.events) == (head + read_all(
                rest,
            ).events) + second.events);
        },
    }
}

/// Incremental feed: however a stream is cut into pieces, a reader that is
/// given the pieces one after the other reports what it would report of the
/// stream in one piece, and holds in the end what it would hold then.
pub proof fn law_pieces_read_as_whole(pieces: Seq<Seq<u8>>)
    ensures
        read_pieces(Seq::empty(), pieces) == read_all(joined(pieces)),
{
    lemma_pieces_read_as_whole_from(Seq::empty(), pieces);
    assert(Seq::<u8>::empty() + joined(pieces) == joined(pieces));
    lemma_first_header_is(Seq::<u8>::empty(), 0, 0);
    assert(Seq::<Event>::empty() + read_all(joined(pieces)).events == read_all(
        joined(pieces),
    ).events);
}

/// [`law_pieces_read_as_whole`], for a reader that holds `bytes` of which it
/// has nothing to report.
pub proof fn lemma_pieces_read_as_whole_from(bytes: Seq<u8>, pieces: Seq<Seq<u8>>)
    ensures
        read_pieces(read_all(bytes).held, pieces).events == read_all(
            read_all(bytes).held + joined(pieces),
        ).events,
        read_pieces(read_all(bytes).held, pieces).held == read_all(
            read_all(bytes).held + joined(pieces),
        ).held,
    decreases pieces.len(),
{
    let held = read_all(bytes).held;
    lemma_read_all_held_is_settled(bytes);
    if pieces.len() == 0 {
        assert(held + joined(pieces) == held);
    } else {
        let first = read_all(held + pieces[0]);
        lemma_pieces_read_as_whole_from(held + pieces[0], pieces.skip(1));
        law_reading_in_two_parts(held + pieces[0], joined(pieces.skip(1)));
        assert(held + pieces[0] + joined(pieces.skip(1)) == held + joined(pieces));
    }
}

/// What a reader holds when nothing is left to read gives nothing further to
/// report, and is held on.
pub proof fn lemma_read_all_held_is_settled(bytes: Seq<u8>)
    ensures
        read_all(read_all(bytes).held) == (Reading {
            events: Seq::empty(),
            held: read_all(bytes).held,
        }),
    decreases bytes.len(),
{
    lemma_scan_rest_is_suffix(bytes);
    match scan(bytes) {
        Scan::More { held } => {
            crate::wire::lemma_scan_more_is_pending(bytes);
        },
        Scan::Frame { frame, rest } => {
            lemma_read_all_held_is_settled(rest);
        },
        Scan::Fail { error, rest } => {
            lemma_read_all_held_is_settled(rest);
        },
    }
}

/// Resynchronization after any bytes: whatever was read before, if the
/// reader holds nothing of it, a regular frame as written is read next as
/// that frame, and nothing is held after it. The reader holds nothing
/// exactly when what was read did not end inside a frame. As in
/// [`law_round_trip`], the message check byte of the frame must not be zero.
pub proof fn law_frame_after_settled_bytes(before: Seq<u8>, frame: Frame)
    requires
        regular(frame),
        message_check(frame) != 0,
        read_all(before).held.len() == 0,
    ensures
        read_all(before + wire(frame)) == (Reading {
            events: read_all(before).events.push(Event::Frame(frame)),
            held: Seq::empty(),
        }),
{
    law_reading_in_two_parts(before, wire(frame));
    law_round_trip(frame, Seq::empty());
    assert(wire(frame) + Seq::<u8>::empty() == wire(frame));
    assert(read_all(before).held + wire(frame) == wire(frame));
    lemma_first_header_is(Seq::<u8>::empty(), 0, 0);
    assert(read_all(Seq::<u8>::empty()).events == Seq::<Event>::empty());
    assert(seq![Event::Frame(frame)] + Seq::<Event>::empty() == seq![Event::Frame(frame)]);
    assert(read_all(before).events + seq![Event::Frame(frame)] == read_all(before).events.push(
        Event::Frame(frame),
    ));
    assert(read_all(before + wire(frame)).held == Seq::<u8>::empty());
}

/// Incremental feed of one frame: a regular frame as written, cut into any
/// pieces and given to a reader that holds nothing, is reported once, as that
/// frame, and nothing is held after the last piece. As in
/// [`law_round_trip`], its message check byte must not be zero.
pub proof fn law_frame_in_pieces(frame: Frame, pieces: Seq<Seq<u8>>)
    requires
        regular(frame),
        message_check(frame) != 0,
        joined(pieces) == wire(frame),
    ensures
        read_pieces(Seq::empty(), pieces) == (Reading {
            events: seq![Event::Frame(frame)],
            held: Seq::empty(),
        }),
{
    law_pieces_read_as_whole(pieces);
    law_round_trip(frame, Seq::empty());
    assert(wire(frame) + Seq::<u8>::empty() == wire(frame));
    lemma_first_header_is(Seq::<u8>::empty(), 0, 0);
    assert(read_all(Seq::<u8>::empty()).events == Seq::<Event>::empty());
    assert(seq![Event::Frame(frame)] + Seq::<Event>::empty() == seq![Event::Frame(frame)]);
}

} // verus!
