//! The messages of the link protocol itself: what a device sends on the
//! control topics and what it is answered.

use crate::rosmsg::{
    dword, field_string, field_u16, field_u32, field_u8, read_string, read_u16, read_u32, read_u8,
};
use vstd::prelude::*;

verus! {

/// A 32-bit value as its four bytes, low byte first.
pub open spec fn le32(value: u32) -> Seq<u8> {
    seq![
        (value % 256) as u8,
        (value / 256 % 256) as u8,
        (value / 65536 % 256) as u8,
        (value / 16777216) as u8,
    ]
}

/// What is written as four bytes reads back as the value it was written
/// from, and what follows the four bytes is left over.
pub proof fn law_le32_reads_back(value: u32, rest: Seq<u8>)
    ensures
        field_u32(le32(value) + rest) == Some((value, rest)),
{
    let bytes = le32(value) + rest;
    assert(bytes.skip(4) == rest);
    assert(dword(bytes[0], bytes[1], bytes[2], bytes[3]) == value);
}

/// Appends the four bytes of `value`, low byte first.
fn push_le32(out: &mut Vec<u8>, value: u32)
    ensures
        final(out)@ == old(out)@ + le32(value),
{
    out.push((value % 256) as u8);
    out.push((value / 256 % 256) as u8);
    out.push((value / 65536 % 256) as u8);
    out.push((value / 16777216) as u8);
    assert(out@ == old(out)@ + le32(value));
}

/// What a device says of one of its publishers or subscribers.
#[derive(Debug, Clone, PartialEq)]
pub struct TopicInfo {
    /// The id the device has given the topic; frames of the topic carry it.
    pub topic_id: u16,
    /// The name of the topic.
    pub topic_name: String,
    /// The type of its messages, as `package/Name`.
    pub message_type: String,
    /// The MD5 sum of that type, in hex.
    pub md5sum: String,
    /// How much room the device has for a message; a hint for queue depths.
    pub buffer_size: u32,
}

/// A [`TopicInfo`] as a value.
pub struct TopicInfoView {
    pub topic_id: u16,
    pub topic_name: Seq<char>,
    pub message_type: Seq<char>,
    pub md5sum: Seq<char>,
    pub buffer_size: u32,
}

impl View for TopicInfo {
    type V = TopicInfoView;

    open spec fn view(&self) -> TopicInfoView {
        TopicInfoView {
            topic_id: self.topic_id,
            topic_name: self.topic_name@,
            message_type: self.message_type@,
            md5sum: self.md5sum@,
            buffer_size: self.buffer_size,
        }
    }
}

/// The topic description that `bytes` begin with: id, name, type, MD5 sum
/// and buffer size, in this order. Bytes behind it are let go.
pub open spec fn topic_info_of(bytes: Seq<u8>) -> Option<TopicInfoView> {
    match field_u16(bytes) {
        None => None,
        Some((topic_id, after_id)) => match field_string(after_id) {
            None => None,
            Some((topic_name, after_name)) => match field_string(after_name) {
                None => None,
                Some((message_type, after_type)) => match field_string(after_type) {
                    None => None,
                    Some((md5sum, after_sum)) => match field_u32(after_sum) {
                        None => None,
                        Some((buffer_size, _)) => Some(
                            TopicInfoView {
                                topic_id,
                                topic_name,
                                message_type,
                                md5sum,
                                buffer_size,
                            },
                        ),
                    },
                },
            },
        },
    }
}

/// The fewest messages that a queue towards the device has room for.
pub const MIN_QUEUE_CAPACITY: usize = 1000;

impl TopicInfo {
    /// How many messages the network side is to queue for the topic: as many
    /// as the device has named as its buffer size.
    pub fn queue_size(&self) -> (size: usize)
        ensures
            size == self.buffer_size,
    {
        self.buffer_size as usize
    }

    /// How many messages from the network may wait for the device on the
    /// topic: the buffer size that the device has named, and never fewer
    /// than [`MIN_QUEUE_CAPACITY`].
    pub fn queue_capacity(&self) -> (capacity: usize)
        ensures
            capacity >= MIN_QUEUE_CAPACITY,
            capacity >= self.buffer_size,
            capacity == MIN_QUEUE_CAPACITY || capacity == self.buffer_size,
    {
        let size = self.buffer_size as usize;
        if size < MIN_QUEUE_CAPACITY {
            MIN_QUEUE_CAPACITY
        } else {
            size
        }
    }

    /// Reads a topic description from the body of a message. It is read
    /// whenever [`topic_info_of`] finds one, and an error is returned
    /// whenever the body ends too early or a string in it is not UTF-8.
    pub fn decode(bytes: &[u8]) -> (read: Result<TopicInfo, std::io::Error>)
        ensures
            match topic_info_of(bytes@) {
                Some(info) => read matches Ok(got) && got@ == info,
                None => read is Err,
            },
    {
        let (topic_id, rest) = match read_u16(bytes) {
            Ok(got) => got,
            Err(error) => return Err(error),
        };
        let (topic_name, rest) = match read_string(rest) {
            Ok(got) => got,
            Err(error) => return Err(error),
        };
        let (message_type, rest) = match read_string(rest) {
            Ok(got) => got,
            Err(error) => return Err(error),
        };
        let (md5sum, rest) = match read_string(rest) {
            Ok(got) => got,
            Err(error) => return Err(error),
        };
        let (buffer_size, _) = match read_u32(rest) {
            Ok(got) => got,
            Err(error) => return Err(error),
        };
        Ok(TopicInfo { topic_id, topic_name, message_type, md5sum, buffer_size })
    }
}

/// A log record as a device sends it.
#[derive(Debug, Clone, PartialEq)]
pub struct Log {
    /// The level, as the device numbers it.
    pub level: u8,
    /// The text.
    pub msg: String,
}

impl Log {
    /// The level of debug records.
    pub const ROSDEBUG: u8 = 0;

    /// The level of informational records.
    pub const INFO: u8 = 1;

    /// The level of warnings.
    pub const WARN: u8 = 2;

    /// The level of errors.
    pub const ERROR: u8 = 3;

    /// The level of fatal errors.
    pub const FATAL: u8 = 4;
}

/// The log record that `bytes` begin with: level, then text. Bytes behind it
/// are let go.
pub open spec fn log_of(bytes: Seq<u8>) -> Option<(u8, Seq<char>)> {
    match field_u8(bytes) {
        None => None,
        Some((level, after_level)) => match field_string(after_level) {
            None => None,
            Some((msg, _)) => Some((level, msg)),
        },
    }
}

impl Log {
    /// Reads a log record from the body of a message. It is read whenever
    /// [`log_of`] finds one, and an error is returned whenever the body ends
    /// too early or the text is not UTF-8.
    pub fn decode(bytes: &[u8]) -> (read: Result<Log, std::io::Error>)
        ensures
            match log_of(bytes@) {
                Some((level, msg)) => read matches Ok(got) && got.level == level && got.msg@
                    == msg,
                None => read is Err,
            },
    {
        let (level, rest) = match read_u8(bytes) {
            Ok(got) => got,
            Err(error) => return Err(error),
        };
        let (msg, _) = match read_string(rest) {
            Ok(got) => got,
            Err(error) => return Err(error),
        };
        Ok(Log { level, msg })
    }
}

/// A request for a parameter as a device sends it.
#[derive(Debug, Clone, PartialEq)]
pub struct RequestParamReq {
    /// The name of the parameter asked for.
    pub name: String,
}

/// The parameter request that `bytes` begin with: the name. Bytes behind it
/// are let go.
pub open spec fn request_param_of(bytes: Seq<u8>) -> Option<Seq<char>> {
    match field_string(bytes) {
        None => None,
        Some((name, _)) => Some(name),
    }
}

impl RequestParamReq {
    /// Reads a parameter request from the body of a message. It is read
    /// whenever [`request_param_of`] finds one, and an error is returned
    /// whenever the body ends too early or the name is not UTF-8.
    pub fn decode(bytes: &[u8]) -> (read: Result<RequestParamReq, std::io::Error>)
        ensures
            match request_param_of(bytes@) {
                Some(name) => read matches Ok(got) && got.name@ == name,
                None => read is Err,
            },
    {
        let (name, _) = match read_string(bytes) {
            Ok(got) => got,
            Err(error) => return Err(error),
        };
        Ok(RequestParamReq { name })
    }
}

/// The body of a parameter response that holds no values: its three lists,
/// of integers, of floats and of strings, each written as the count zero.
pub open spec fn empty_param_response() -> Seq<u8> {
    le32(0) + le32(0) + le32(0)
}

/// The body of a parameter response that holds no values.
pub fn encode_empty_param_response() -> (body: Vec<u8>)
    ensures
        body@ == empty_param_response(),
        body@ == Seq::new(12, |i: int| 0u8),
{
    let mut body: Vec<u8> = Vec::new();
    push_le32(&mut body, 0);
    push_le32(&mut body, 0);
    push_le32(&mut body, 0);
    body
}

/// The body of a time message: seconds, then nanoseconds, each in four
/// bytes, low byte first.
pub open spec fn time_body(sec: u32, nsec: u32) -> Seq<u8> {
    le32(sec) + le32(nsec)
}

/// The body of a time message.
pub fn encode_time(sec: u32, nsec: u32) -> (body: Vec<u8>)
    ensures
        body@ == time_body(sec, nsec),
        body@.len() == 8,
{
    let mut body: Vec<u8> = Vec::new();
    push_le32(&mut body, sec);
    push_le32(&mut body, nsec);
    body
}

} // verus!
