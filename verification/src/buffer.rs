//! The byte buffer the codec reads from and writes to.
//!
//! The buffer is `BytesMut` of the `bytes` crate, as `tokio_util` hands it to a
//! codec. Verus cannot look inside it, so this module gives its contents a
//! name and states, for each method the codec calls, what the method does to
//! those contents. Nothing in this module is proved: the contracts below are
//! what the rest of the crate takes on trust.

use tokio_util::bytes::{Buf, BufMut, BytesMut};
use vstd::prelude::*;

verus! {

/// `BytesMut`, taken as it is: a value of it is carried about and handed to
/// the functions below, and nothing is said of what is inside but through
/// [`buffered`].
#[verifier::external_type_specification]
#[verifier::external_body]
pub struct ExBytesMut(BytesMut);

/// The bytes a buffer holds, first unread byte first.
pub uninterp spec fn buffered(buf: BytesMut) -> Seq<u8>;

/// Whether `count` more bytes can be appended to `buf` without fail.
///
/// A `BytesMut` grows as bytes are appended, by asking its allocation to
/// hold at least the new length and up to twice what it held. The request
/// panics when it passes `isize::MAX` bytes. What the allocation holds
/// before it has to grow is less than twice the new length, so no request
/// passes `isize::MAX` while the new length stays within a quarter of it.
pub open spec fn room_for(buf: BytesMut, count: nat) -> bool {
    buffered(buf).len() + count <= isize::MAX / 4
}

/// `<BytesMut as AsRef<[u8]>>::as_ref`: the whole contents as one slice.
#[verifier::external_body]
pub(crate) fn buffer_bytes(buf: &BytesMut) -> (bytes: &[u8])
    ensures
        bytes@ == buffered(*buf),
{
    buf.as_ref()
}

/// `<BytesMut as Buf>::advance`: drops the first `count` bytes and keeps the
/// rest in order. The method panics when asked to drop more than the buffer
/// holds, so that is ruled out.
#[verifier::external_body]
pub(crate) fn buffer_advance(buf: &mut BytesMut, count: usize)
    requires
        count <= buffered(*old(buf)).len(),
    ensures
        buffered(*final(buf)) == buffered(*old(buf)).skip(count as int),
{
    buf.advance(count)
}

/// `<BytesMut as BufMut>::put_u8`: appends one byte. The method panics
/// only when the buffer cannot grow, which [`room_for`] rules out.
#[verifier::external_body]
pub(crate) fn buffer_put_u8(buf: &mut BytesMut, byte: u8)
    requires
        room_for(*old(buf), 1),
    ensures
        buffered(*final(buf)) == buffered(*old(buf)).push(byte),
{
    buf.put_u8(byte)
}

/// `<BytesMut as BufMut>::put_slice`: appends a slice, in order. The method
/// panics only when the buffer cannot grow, which [`room_for`] rules out.
#[verifier::external_body]
pub(crate) fn buffer_put_slice(buf: &mut BytesMut, bytes: &[u8])
    requires
        room_for(*old(buf), bytes@.len()),
    ensures
        buffered(*final(buf)) == buffered(*old(buf)) + bytes@,
{
    buf.put_slice(bytes)
}

} // verus!
