//! The frame codec: frames to bytes and bytes to frames.

use crate::buffer::{
    buffer_advance, buffer_bytes, buffer_put_slice, buffer_put_u8, buffered, room_for,
};
use crate::stream::{lemma_scan_rest_is_suffix, read_all, Event};
use crate::text::{decimal, push_decimal};
use crate::wire::{
    byte_sum, checksum, first_header, le16, lemma_byte_sum_concat, lemma_first_header_holds,
    lemma_first_header_is, lemma_first_nonzero_is, lemma_pending_shape,
    lemma_scan_more_is_pending, pending, scan, scan_body, scan_frame, wire, Frame, Scan, HEADER,
    MAX_PAYLOAD, PROTOCOL_VERSION_2,
};
use tokio_util::bytes::BytesMut;
use vstd::prelude::*;
use vstd::slice::slice_subrange;
use vstd::std_specs::convert::FromSpecImpl;
use vstd::string::StringExecFns;

verus! {

/// `std::io::Error`, taken as it is: a value of it is carried from where it
/// arose to the caller, and nothing is said of what is inside.
#[verifier::external_type_specification]
#[verifier::external_body]
pub struct ExIoError(std::io::Error);

/// What can go wrong while frames are read or written.
#[derive(Debug)]
pub enum Error {
    /// The byte after the header byte was not the supported protocol version.
    WrongProtocolVersion(u8),
    /// The length bytes and their check byte sum to this and not to 255.
    InvalidLengthChecksum(u8),
    /// The topic, the payload and their check byte sum to this and not to 255.
    InvalidMessageChecksum(u8),
    /// The transport under the codec failed.
    IoError(std::io::Error),
}

impl From<std::io::Error> for Error {
    fn from(value: std::io::Error) -> (error: Error) {
        Error::IoError(value)
    }
}

impl FromSpecImpl<std::io::Error> for Error {
    open spec fn obeys_from_spec() -> bool {
        true
    }

    open spec fn from_spec(value: std::io::Error) -> Error {
        Error::IoError(value)
    }
}

/// What [`Error::message`] says of an error.
pub open spec fn message_of(error: Error) -> Seq<char> {
    match error {
        Error::WrongProtocolVersion(version) => "wrong protocol version: "@ + decimal(
            version as nat,
        ) + " (expected: "@ + decimal(PROTOCOL_VERSION_2 as nat) + ")"@,
        Error::InvalidLengthChecksum(sum) => "invalid length header checksum: computed "@
            + decimal(sum as nat) + " but expected 255"@,
        Error::InvalidMessageChecksum(sum) => "invalid message checksum: computed "@ + decimal(
            sum as nat,
        ) + " but expected 255"@,
        Error::IoError(_) => "IO error"@,
    }
}

impl Error {
    /// The error in words.
    pub fn message(&self) -> (text: String)
        ensures
            text@ == message_of(*self),
    {
        match self {
            Error::WrongProtocolVersion(version) => {
                let mut text = String::from_str("wrong protocol version: ");
                push_decimal(&mut text, *version);
                text.append(" (expected: ");
                push_decimal(&mut text, PROTOCOL_VERSION_2);
                text.append(")");
                text
            },
            Error::InvalidLengthChecksum(sum) => {
                let mut text = String::from_str("invalid length header checksum: computed ");
                push_decimal(&mut text, *sum);
                text.append(" but expected 255");
                text
            },
            Error::InvalidMessageChecksum(sum) => {
                let mut text = String::from_str("invalid message checksum: computed ");
                push_decimal(&mut text, *sum);
                text.append(" but expected 255");
                text
            },
            Error::IoError(_) => String::from_str("IO error"),
        }
    }
}

/// One message on the serial link.
#[derive(Debug, Clone, PartialEq)]
pub struct RosSerialMsg {
    /// The topic the message belongs to. With `None` the message is raw: its
    /// bytes go out as they are, behind the header and version bytes.
    pub topic: Option<u16>,
    /// The serialized message body.
    pub msg: Vec<u8>,
}

impl View for RosSerialMsg {
    type V = Frame;

    open spec fn view(&self) -> Frame {
        Frame { topic: self.topic, payload: self.msg@ }
    }
}

impl Default for RosSerialMsg {
    /// A raw message without bytes.
    fn default() -> (msg: RosSerialMsg)
        ensures
            msg@ == (Frame { topic: None, payload: Seq::empty() }),
    {
        RosSerialMsg { topic: None, msg: Vec::new() }
    }
}

impl RosSerialMsg {
    /// A regular message carries at most `MAX_PAYLOAD` bytes, since its
    /// length is written in two bytes. A raw message may be of any length.
    pub open spec fn fits(&self) -> bool {
        self.topic is Some ==> self.msg@.len() <= MAX_PAYLOAD
    }
}

/// The checksum of `bytes`: their sum modulo 256.
pub fn calc_checksum(bytes: &[u8]) -> (sum: u8)
    ensures
        sum == checksum(bytes@),
{
    let mut sum: u16 = 0;
    let mut i: usize = 0;
    while i < bytes.len()
        invariant
            i <= bytes.len(),
            sum < 256,
            sum == byte_sum(bytes@.take(i as int)) % 256,
        decreases bytes.len() - i,
    {
        assert(bytes@.take(i + 1).drop_last() == bytes@.take(i as int));
        sum = (sum + bytes[i] as u16) % 256;
        i += 1;
    }
    assert(bytes@.take(i as int) == bytes@);
    sum as u8
}

/// The two bytes of a 16-bit value, low byte first.
fn le16_bytes(value: u16) -> (bytes: Vec<u8>)
    ensures
        bytes@ == le16(value),
{
    let bytes = vec![(value % 256) as u8, (value / 256) as u8];
    assert(bytes@ == le16(value));
    bytes
}

/// One step of reading, in executable form: what [`Scan`] is in mathematics,
/// with the count of bytes taken from the input in place of the bytes left.
enum Step {
    More(Vec<u8>),
    Frame(RosSerialMsg, usize),
    Fail(Error, usize),
}

/// Whether `step` says of `input` what `seen` says.
spec fn step_is(step: Step, seen: Scan, input: Seq<u8>) -> bool {
    match seen {
        Scan::More { held } => step matches Step::More(keep) && keep@ == held,
        Scan::Frame { frame, rest } => step matches Step::Frame(msg, taken) && msg@ == frame
            && taken <= input.len() && rest == input.skip(taken as int),
        Scan::Fail { error, rest } => step matches Step::Fail(found, taken) && found == error
            && taken <= input.len() && rest == input.skip(taken as int),
    }
}

/// Whether `held` and `tail` together hold at least `count` bytes.
fn holds(held: &Vec<u8>, tail: &[u8], count: usize) -> (enough: bool)
    ensures
        enough == (held@.len() + tail@.len() >= count),
{
    if held.len() >= count {
        true
    } else {
        tail.len() >= count - held.len()
    }
}

/// The byte at `index` of `held` followed by `tail`.
fn byte_at(held: &Vec<u8>, tail: &[u8], index: usize) -> (byte: u8)
    requires
        index < held@.len() + tail@.len(),
    ensures
        byte == (held@ + tail@)[index as int],
{
    if index < held.len() {
        held[index]
    } else {
        tail[index - held.len()]
    }
}

/// Appends the first `count` bytes of `tail` to `held`.
fn keep(held: Vec<u8>, tail: &[u8], count: usize) -> (kept: Vec<u8>)
    requires
        count <= tail@.len(),
    ensures
        kept@ == held@ + tail@.take(count as int),
{
    let mut kept = held;
    let mut i: usize = 0;
    while i < count
        invariant
            i <= count <= tail@.len(),
            kept@ == held@ + tail@.take(i as int),
        decreases count - i,
    {
        kept.push(tail[i]);
        i += 1;
        assert(tail@.take(i as int) == tail@.take(i - 1).push(tail@[i - 1]));
    }
    kept
}

/// Where the first header byte of `input` is, or its length.
fn find_header(input: &[u8]) -> (at: usize)
    ensures
        at == first_header(input@, 0),
{
    let mut at: usize = 0;
    while at < input.len() && input[at] != HEADER
        invariant
            at <= input.len(),
            forall|k: int| 0 <= k < at ==> input@[k] != HEADER,
        decreases input.len() - at,
    {
        at += 1;
    }
    proof {
        lemma_first_header_is(input@, 0, at as int);
    }
    at
}

/// Reads what `held` followed by `tail` holds, as bytes that begin with the
/// header byte.
fn read_frame(held: Vec<u8>, tail: &[u8]) -> (step: Step)
    requires
        pending(held@),
        held@.len() + tail@.len() > 0,
        (held@ + tail@)[0] == HEADER,
    ensures
        step_is(step, scan_frame(held@ + tail@), tail@),
{
    let ghost bytes = held@ + tail@;
    proof {
        lemma_pending_shape(held@);
        assert(tail@.take(tail@.len() as int) == tail@);
        assert(held@.len() >= 5 ==> held@.subrange(2, 5) == bytes.subrange(2, 5));
    }
    if !holds(&held, tail, 2) {
        return Step::More(keep(held, tail, tail.len()));
    }
    let version = byte_at(&held, tail, 1);
    if version != PROTOCOL_VERSION_2 {
        let taken = 2 - held.len();
        assert(bytes.skip(2) == tail@.skip(taken as int));
        return Step::Fail(Error::WrongProtocolVersion(version), taken);
    }
    if !holds(&held, tail, 5) {
        return Step::More(keep(held, tail, tail.len()));
    }
    let length_bytes = vec![
        byte_at(&held, tail, 2),
        byte_at(&held, tail, 3),
        byte_at(&held, tail, 4),
    ];
    assert(length_bytes@ == bytes.subrange(2, 5));
    let length_sum = calc_checksum(length_bytes.as_slice());
    if length_sum != 255 {
        let taken = 5 - held.len();
        assert(bytes.skip(5) == tail@.skip(taken as int));
        return Step::Fail(Error::InvalidLengthChecksum(length_sum), taken);
    }
    let end: usize = 7 + (length_bytes[0] as usize + 256 * (length_bytes[1] as usize));
    if !holds(&held, tail, end) {
        return Step::More(keep(held, tail, tail.len()));
    }
    read_body(held, tail, end)
}

/// Reads what `held` followed by `tail` holds, as a frame whose payload has
/// come whole and ends before `end`.
fn read_body(held: Vec<u8>, tail: &[u8], end: usize) -> (step: Step)
    requires
        7 <= end <= held@.len() + tail@.len(),
        held@.len() <= end,
    ensures
        step_is(step, scan_body(held@ + tail@, end as int), tail@),
{
    let ghost bytes = held@ + tail@;
    // What is held ends at or before the end of the payload, so the padding
    // and the check byte are looked for in `tail` alone.
    let first: usize = end - held.len();
    let mut at: usize = first;
    while at < tail.len() && tail[at] == 0
        invariant
            first <= at <= tail@.len(),
            first == end - held@.len(),
            bytes == held@ + tail@,
            forall|k: int| first <= k < at ==> tail@[k] == 0,
        decreases tail.len() - at,
    {
        at += 1;
    }
    proof {
        assert forall|k: int| end <= k < held@.len() + at implies bytes[k] == 0 by {
            assert(bytes[k] == tail@[k - held@.len()]);
        }
        lemma_first_nonzero_is(bytes, end as int, held@.len() + at);
    }
    if at >= tail.len() {
        let kept = keep(held, tail, first);
        assert(kept@ == bytes.take(end as int));
        return Step::More(kept);
    }
    let check = tail[at];
    let topic_bytes = vec![byte_at(&held, tail, 5), byte_at(&held, tail, 6)];
    let mut payload: Vec<u8> = Vec::new();
    let mut i: usize = 7;
    while i < end
        invariant
            7 <= i <= end <= held@.len() + tail@.len(),
            bytes == held@ + tail@,
            payload@ == bytes.subrange(7, i as int),
        decreases end - i,
    {
        payload.push(byte_at(&held, tail, i));
        i += 1;
    }
    let sum = ((calc_checksum(topic_bytes.as_slice()) as u16 + calc_checksum(
        payload.as_slice(),
    ) as u16 + check as u16) % 256) as u8;
    proof {
        let covered = bytes.subrange(5, end as int);
        assert(covered == topic_bytes@ + payload@);
        lemma_byte_sum_concat(topic_bytes@, payload@);
        assert(covered.push(check).drop_last() == covered);
        assert(sum == checksum(covered.push(check)));
        assert(bytes.skip(held@.len() + at + 1) == tail@.skip(at + 1));
    }
    let taken = at + 1;
    if sum != 255 {
        return Step::Fail(Error::InvalidMessageChecksum(sum), taken);
    }
    let topic: u16 = topic_bytes[0] as u16 + 256 * (topic_bytes[1] as u16);
    Step::Frame(RosSerialMsg { topic: Some(topic), msg: payload }, taken)
}

/// Reads what `held` followed by `input` holds.
fn read(held: Vec<u8>, input: &[u8]) -> (step: Step)
    requires
        pending(held@),
    ensures
        step_is(step, scan(held@ + input@), input@),
{
    let ghost bytes = held@ + input@;
    proof {
        lemma_pending_shape(held@);
    }
    if held.len() > 0 {
        proof {
            lemma_first_header_is(bytes, 0, 0);
            assert(bytes.skip(0) == bytes);
        }
        return read_frame(held, input);
    }
    assert(bytes == input@);
    let start = find_header(input);
    if start >= input.len() {
        return Step::More(held);
    }
    proof {
        lemma_first_header_holds(input@, 0);
    }
    let tail = slice_subrange(input, start, input.len());
    assert(tail@ == input@.skip(start as int));
    assert(held@ + tail@ == tail@);
    match read_frame(held, tail) {
        Step::More(kept) => Step::More(kept),
        Step::Frame(msg, taken) => {
            assert(tail@.skip(taken as int) == input@.skip(start + taken));
            Step::Frame(msg, start + taken)
        },
        Step::Fail(error, taken) => {
            assert(tail@.skip(taken as int) == input@.skip(start + taken));
            Step::Fail(error, start + taken)
        },
    }
}

/// Whether a read that saw `seen` gave `got`, left the codec holding `held`
/// and left `left` in the buffer.
pub open spec fn reads_as(
    seen: Scan,
    got: Result<Option<RosSerialMsg>, Error>,
    held: Seq<u8>,
    left: Seq<u8>,
) -> bool {
    match seen {
        Scan::More { held: keep } => got matches Ok(None) && held == keep && left.len() == 0,
        Scan::Frame { frame, rest } => got matches Ok(Some(msg)) && msg@ == frame && held.len()
            == 0 && left == rest,
        Scan::Fail { error, rest } => got matches Err(found) && found == error && held.len() == 0
            && left == rest,
    }
}

/// What a list of results, as [`RosSerialMsgCodec::decode_all`] gives it,
/// reports.
pub open spec fn events_of(results: Seq<Result<RosSerialMsg, Error>>) -> Seq<Event> {
    results.map_values(
        |result: Result<RosSerialMsg, Error>|
            match result {
                Ok(msg) => Event::Frame(msg@),
                Err(error) => Event::Fail(error),
            },
    )
}

/// The codec of the serial link.
///
/// Writing is stateless. Reading is not: bytes of a frame that has begun but
/// not ended are taken out of the caller's buffer and held here until the
/// rest comes.
pub struct RosSerialMsgCodec {
    held: Vec<u8>,
}

impl Default for RosSerialMsgCodec {
    /// A codec that holds nothing.
    fn default() -> (codec: RosSerialMsgCodec)
        ensures
            codec.held().len() == 0,
    {
        RosSerialMsgCodec::new()
    }
}

impl RosSerialMsgCodec {
    /// The bytes of the unfinished frame that the codec holds.
    pub closed spec fn held(&self) -> Seq<u8> {
        self.held@
    }

    #[verifier::type_invariant]
    spec fn holds_pending(self) -> bool {
        pending(self.held@)
    }

    /// A codec that holds nothing.
    pub fn new() -> (codec: Self)
        ensures
            codec.held().len() == 0,
    {
        let held: Vec<u8> = Vec::new();
        proof {
            lemma_first_header_is(held@, 0, 0);
        }
        RosSerialMsgCodec { held }
    }

    /// Reads at most one frame from `src`.
    ///
    /// The bytes read are what the codec holds from earlier reads, followed
    /// by what `src` brings; [`scan`] says what is made of them. On a frame
    /// or an error, `src` keeps the bytes behind it and the codec holds
    /// nothing. Otherwise `src` is left empty, the result is `Ok(None)`, and
    /// the codec holds what the next read needs.
    pub fn decode(&mut self, src: &mut BytesMut) -> (got: Result<Option<RosSerialMsg>, Error>)
        ensures
            reads_as(
                scan(old(self).held() + buffered(*old(src))),
                got,
                final(self).held(),
                buffered(*final(src)),
            ),
    {
        proof {
            use_type_invariant(&*self);
            lemma_scan_more_is_pending(self.held@ + buffered(*src));
            lemma_first_header_is(Seq::<u8>::empty(), 0, 0);
        }
        let mut held: Vec<u8> = Vec::new();
        core::mem::swap(&mut self.held, &mut held);
        let input = buffer_bytes(src);
        let size = input.len();
        match read(held, input) {
            Step::More(kept) => {
                self.held = kept;
                buffer_advance(src, size);
                Ok(None)
            },
            Step::Frame(msg, taken) => {
                buffer_advance(src, taken);
                Ok(Some(msg))
            },
            Step::Fail(error, taken) => {
                buffer_advance(src, taken);
                Err(error)
            },
        }
    }

    /// Reads `src` to its end: every frame and every error that
    /// [`RosSerialMsgCodec::decode`] would give, call after call, in order.
    /// [`read_all`] says which they are. `src` is left empty, and the codec
    /// holds what the next read needs.
    pub fn decode_all(&mut self, src: &mut BytesMut) -> (got: Vec<Result<RosSerialMsg, Error>>)
        ensures
            events_of(got@) == read_all(old(self).held() + buffered(*old(src))).events,
            final(self).held() == read_all(old(self).held() + buffered(*old(src))).held,
            buffered(*final(src)).len() == 0,
    {
        let ghost whole = read_all(self.held() + buffered(*src));
        let mut got: Vec<Result<RosSerialMsg, Error>> = Vec::new();
        assert(events_of(got@) + whole.events == whole.events);
        loop
            invariant_except_break
                events_of(got@) + read_all(self.held() + buffered(*src)).events == whole.events,
                read_all(self.held() + buffered(*src)).held == whole.held,
            ensures
                events_of(got@) == whole.events,
                self.held() == whole.held,
                buffered(*src).len() == 0,
            decreases self.held().len() + buffered(*src).len(),
        {
            let ghost bytes = self.held() + buffered(*src);
            let ghost before = events_of(got@);
            proof {
                lemma_scan_rest_is_suffix(bytes);
            }
            match self.decode(src) {
                Ok(Some(msg)) => {
                    let ghost frame = msg@;
                    got.push(Ok(msg));
                    proof {
                        let rest = self.held() + buffered(*src);
                        assert(rest == buffered(*src));
                        assert(events_of(got@) == before.push(Event::Frame(frame)));
                        assert(before.push(Event::Frame(frame)) + read_all(rest).events == before
                            + (seq![Event::Frame(frame)] + read_all(rest).events));
                    }
                },
                Ok(None) => {
                    assert(before + Seq::<Event>::empty() == before);
                    break ;
                },
                Err(error) => {
                    got.push(Err(error));
                    proof {
                        let rest = self.held() + buffered(*src);
                        assert(rest == buffered(*src));
                        assert(events_of(got@) == before.push(Event::Fail(error)));
                        assert(before.push(Event::Fail(error)) + read_all(rest).events == before
                            + (seq![Event::Fail(error)] + read_all(rest).events));
                    }
                },
            }
        }
        got
    }

    /// Appends the bytes of `item` to `dst` as [`RosSerialMsgCodec::encode`]
    /// does, where that can be done: where the message fits a frame and
    /// `dst` has room for it. Where it cannot, `dst` is left as it is and
    /// the message is handed back.
    pub fn try_encode(&mut self, item: RosSerialMsg, dst: &mut BytesMut) -> (done: Result<
        (),
        RosSerialMsg,
    >)
        ensures
            done is Ok <==> item.fits() && room_for(*old(dst), wire(item@).len()),
            done is Ok ==> buffered(*final(dst)) == buffered(*old(dst)) + wire(item@),
            done matches Err(back) ==> back == item && buffered(*final(dst)) == buffered(
                *old(dst),
            ),
            final(self).held() == old(self).held(),
    {
        let limit: usize = isize::MAX as usize / 4;
        let used = buffer_bytes(dst).len();
        let frame: usize = if item.topic.is_some() {
            8
        } else {
            2
        };
        if item.topic.is_some() && item.msg.len() > MAX_PAYLOAD {
            return Err(item);
        }
        if used > limit || item.msg.len() > limit - used || limit - used - item.msg.len() < frame {
            return Err(item);
        }
        let _ = self.encode(item, dst);
        Ok(())
    }

    /// Appends the bytes of `item` to `dst`.
    ///
    /// A regular message goes out as header, version, length, length check,
    /// topic, payload and message check; a raw message as header, version and
    /// its bytes. Nothing here can fail: the result is always `Ok`. The
    /// message must fit a frame and `dst` must have room for it.
    pub fn encode(&mut self, item: RosSerialMsg, dst: &mut BytesMut) -> (done: Result<(), Error>)
        requires
            item.fits(),
            room_for(*old(dst), wire(item@).len()),
        ensures
            done is Ok,
            buffered(*final(dst)) == buffered(*old(dst)) + wire(item@),
            final(self).held() == old(self).held(),
    {
        buffer_put_u8(dst, HEADER);
        buffer_put_u8(dst, PROTOCOL_VERSION_2);
        match item.topic {
            None => {
                buffer_put_slice(dst, item.msg.as_slice());
            },
            Some(topic) => {
                let length_bytes = le16_bytes(item.msg.len() as u16);
                buffer_put_slice(dst, length_bytes.as_slice());
                let length_checksum = 255 - calc_checksum(length_bytes.as_slice());
                buffer_put_u8(dst, length_checksum);
                let topic_bytes = le16_bytes(topic);
                buffer_put_slice(dst, topic_bytes.as_slice());
                buffer_put_slice(dst, item.msg.as_slice());
                let sum = (calc_checksum(topic_bytes.as_slice()) as u16 + calc_checksum(
                    item.msg.as_slice(),
                ) as u16) % 256;
                proof {
                    lemma_byte_sum_concat(topic_bytes@, item.msg@);
                }
                let msg_checksum = 255 - sum as u8;
                buffer_put_u8(dst, msg_checksum);
            },
        }
        assert(buffered(*dst) == buffered(*old(dst)) + wire(item@));
        Ok(())
    }
}

} // verus!
