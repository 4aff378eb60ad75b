//! Reading the fields of a serialized ROS message.
//!
//! A message body is its fields one after the other: integers low byte
//! first, a string as its length in four bytes followed by that many bytes of
//! UTF-8. The reading is done by `rosrust`, through its `RosMsg::decode` for
//! each type of field. This module states what those calls return; nothing
//! in it is proved.

use rosrust::RosMsg;
use vstd::prelude::*;
use vstd::utf8::{decode_utf8, valid_utf8};

verus! {

/// The 32-bit value that four bytes spell, low byte first.
pub open spec fn dword(b0: u8, b1: u8, b2: u8, b3: u8) -> u32 {
    (b0 as int + 256 * (b1 as int) + 65536 * (b2 as int) + 16777216 * (b3 as int)) as u32
}

/// The byte that `bytes` begin with, and the bytes after it.
pub open spec fn field_u8(bytes: Seq<u8>) -> Option<(u8, Seq<u8>)> {
    if bytes.len() < 1 {
        None
    } else {
        Some((bytes[0], bytes.skip(1)))
    }
}

/// The 16-bit value that `bytes` begin with, and the bytes after it.
pub open spec fn field_u16(bytes: Seq<u8>) -> Option<(u16, Seq<u8>)> {
    if bytes.len() < 2 {
        None
    } else {
        Some((crate::wire::word(bytes[0], bytes[1]), bytes.skip(2)))
    }
}

/// The 32-bit value that `bytes` begin with, and the bytes after it.
pub open spec fn field_u32(bytes: Seq<u8>) -> Option<(u32, Seq<u8>)> {
    if bytes.len() < 4 {
        None
    } else {
        Some((dword(bytes[0], bytes[1], bytes[2], bytes[3]), bytes.skip(4)))
    }
}

/// The string that `bytes` begin with, and the bytes after it: a length in
/// four bytes, then that many bytes, which must be UTF-8.
pub open spec fn field_string(bytes: Seq<u8>) -> Option<(Seq<char>, Seq<u8>)> {
    match field_u32(bytes) {
        None => None,
        Some((len, body)) => if body.len() < len || !valid_utf8(body.take(len as int)) {
            None
        } else {
            Some((decode_utf8(body.take(len as int)), body.skip(len as int)))
        },
    }
}

/// `<u8 as RosMsg>::decode` on a slice: the first byte and the slice behind
/// it, or an error when the slice is empty.
#[verifier::external_body]
pub(crate) fn read_u8(bytes: &[u8]) -> (read: Result<(u8, &[u8]), std::io::Error>)
    ensures
        match field_u8(bytes@) {
            Some((value, rest)) => read matches Ok(got) && got.0 == value && got.1@ == rest,
            None => read is Err,
        },
{
    let mut rest = bytes;
    match u8::decode(&mut rest) {
        Ok(value) => Ok((value, rest)),
        Err(error) => Err(error),
    }
}

/// `<u16 as RosMsg>::decode` on a slice: the value of the first two bytes,
/// low byte first, and the slice behind them, or an error when the slice is
/// shorter.
#[verifier::external_body]
pub(crate) fn read_u16(bytes: &[u8]) -> (read: Result<(u16, &[u8]), std::io::Error>)
    ensures
        match field_u16(bytes@) {
            Some((value, rest)) => read matches Ok(got) && got.0 == value && got.1@ == rest,
            None => read is Err,
        },
{
    let mut rest = bytes;
    match u16::decode(&mut rest) {
        Ok(value) => Ok((value, rest)),
        Err(error) => Err(error),
    }
}

/// `<u32 as RosMsg>::decode` on a slice: the value of the first four bytes,
/// low byte first, and the slice behind them, or an error when the slice is
/// shorter.
#[verifier::external_body]
pub(crate) fn read_u32(bytes: &[u8]) -> (read: Result<(u32, &[u8]), std::io::Error>)
    ensures
        match field_u32(bytes@) {
            Some((value, rest)) => read matches Ok(got) && got.0 == value && got.1@ == rest,
            None => read is Err,
        },
{
    let mut rest = bytes;
    match u32::decode(&mut rest) {
        Ok(value) => Ok((value, rest)),
        Err(error) => Err(error),
    }
}

/// `<String as RosMsg>::decode` on a slice: it reads a length as
/// [`read_u32`] does, then that many bytes, and makes a `String` of them. It
/// gives an error when the slice ends too early or the bytes are not UTF-8.
#[verifier::external_body]
pub(crate) fn read_string(bytes: &[u8]) -> (read: Result<(String, &[u8]), std::io::Error>)
    ensures
        match field_string(bytes@) {
            Some((value, rest)) => read matches Ok(got) && got.0@ == value && got.1@ == rest,
            None => read is Err,
        },
{
    let mut rest = bytes;
    match String::decode(&mut rest) {
        Ok(value) => Ok((value, rest)),
        Err(error) => Err(error),
    }
}

} // verus!
