//! A host-side rosserial link.
//!
//! A device on a serial line speaks rosserial: it announces the topics it
//! publishes and subscribes to, sends and receives their messages, asks for
//! the time, sends log records and asks for parameters. This crate holds the
//! two parts of the host side that can be stated exactly: the codec
//! ([`codec`]), which turns bytes into frames and frames into bytes, and the
//! link ([`RosSerial`]), which says for each frame what is to be done with
//! it. To read the serial line, to talk to the network and to read the clock
//! is left to the caller, who does what the link says.

pub mod buffer;
pub mod codec;
pub mod laws;
pub mod messages;
pub mod registry;
pub mod rosmsg;
pub mod stream;
pub mod text;
pub mod wire;

pub use crate::codec::{calc_checksum, RosSerialMsg, RosSerialMsgCodec};
pub use crate::messages::{Log, RequestParamReq, TopicInfo, MIN_QUEUE_CAPACITY};
pub use crate::registry::{TopicEntry, TopicRegistry};

use crate::messages::{
    empty_param_response, encode_empty_param_response, encode_time, log_of, request_param_of,
    time_body, topic_info_of, TopicInfoView,
};
use crate::wire::{Frame, MAX_PAYLOAD};
use vstd::prelude::*;
use vstd::slice::slice_to_vec;
use vstd::std_specs::convert::FromSpecImpl;
use vstd::string::StringExecFns;

verus! {

/// What can go wrong on a link.
#[derive(Debug)]
pub enum Error {
    /// The codec found an error in the bytes.
    CodecError(codec::Error),
    /// The transport failed, or the body of a control message could not be
    /// read.
    IoError(std::io::Error),
    /// The network side failed; the text says how.
    RosError(String),
    /// The parameter of this name was not found.
    RosParamNotFound(String),
}

impl From<codec::Error> for Error {
    fn from(e: codec::Error) -> (error: Error) {
        Error::CodecError(e)
    }
}

impl FromSpecImpl<codec::Error> for Error {
    open spec fn obeys_from_spec() -> bool {
        true
    }

    open spec fn from_spec(e: codec::Error) -> Error {
        Error::CodecError(e)
    }
}

impl From<std::io::Error> for Error {
    fn from(e: std::io::Error) -> (error: Error) {
        Error::IoError(e)
    }
}

impl FromSpecImpl<std::io::Error> for Error {
    open spec fn obeys_from_spec() -> bool {
        true
    }

    open spec fn from_spec(e: std::io::Error) -> Error {
        Error::IoError(e)
    }
}

/// What [`Error::message`] says of an error.
pub open spec fn message_of(error: Error) -> Seq<char> {
    match error {
        Error::CodecError(_) => "the codec encountered an error"@,
        Error::IoError(_) => "IO error"@,
        Error::RosError(_) => "ROS error"@,
        Error::RosParamNotFound(name) => "The ROS parameter "@ + name@ + " was not found"@,
    }
}

impl Error {
    /// The error in words.
    pub fn message(&self) -> (text: String)
        ensures
            text@ == message_of(*self),
    {
        match self {
            Error::CodecError(_) => String::from_str("the codec encountered an error"),
            Error::IoError(_) => String::from_str("IO error"),
            Error::RosError(_) => String::from_str("ROS error"),
            Error::RosParamNotFound(name) => {
                let mut text = String::from_str("The ROS parameter ");
                text.append(name.as_str());
                text.append(" was not found");
                text
            },
        }
    }
}

/// The topic id on which a device announces a publisher.
pub const ID_PUBLISHER: u16 = 0;

/// The topic id on which a device announces a subscriber.
pub const ID_SUBSCRIBER: u16 = 1;

/// The topic id on which a device announces a service server. The two roles
/// of a service are announced on this id plus [`ID_PUBLISHER`] and plus
/// [`ID_SUBSCRIBER`].
pub const ID_SERVICE_SERVER: u16 = 2;

/// The topic id on which a device announces a service client; its two roles
/// as for [`ID_SERVICE_SERVER`].
pub const ID_SERVICE_CLIENT: u16 = 4;

/// The topic id on which a device asks for a parameter.
pub const ID_PARAMETER_REQUEST: u16 = 6;

/// The topic id on which a device sends log records.
pub const ID_LOG: u16 = 7;

/// The topic id on which a device asks for the time.
pub const ID_TIME: u16 = 10;

/// A topic id that is set aside; frames on it are let go.
pub const ID_TX_STOP: u16 = 11;

/// The message definition under which a publisher is announced to the
/// network: the link passes message bodies on as they are and knows no
/// definition.
pub const MSG_DEFINITION: &'static str = "*";

/// How grave a log record is.
#[derive(Debug, Clone, Copy, PartialEq, Eq)]
pub enum Severity {
    Debug,
    Info,
    Warn,
    Error,
    Fatal,
}

/// A part of a service that a device may announce. None is supported.
#[derive(Debug, Clone, Copy, PartialEq, Eq)]
pub enum ServiceRole {
    ServerPublisher,
    ServerSubscriber,
    ClientPublisher,
    ClientSubscriber,
}

/// What is to be done with a frame that has come from the device.
#[derive(Debug, Clone, PartialEq)]
pub enum Action {
    /// Read the clock and send what [`RosSerial::handle_time_request`] makes
    /// of it.
    ReplyTime,
    /// Write `msg` to the log, as a record of this severity.
    Log { severity: Severity, msg: String },
    /// The device sent a log record of a level that is not known. Report
    /// that as an error; the link goes on.
    UnknownLogLevel { level: u8, msg: String },
    /// Announce the topic to the network as one that the device publishes,
    /// then register the handle.
    SetupPublisher(TopicInfo),
    /// Subscribe to the topic on the network for the device, then register
    /// the handle.
    SetupSubscriber(TopicInfo),
    /// Send this frame to the device.
    Send(RosSerialMsg),
    /// Pass `payload` on to the publisher registered under `topic_id`.
    Publish { topic_id: u16, payload: Vec<u8> },
    /// No publisher is registered under `topic_id`. Warn, and send `probe`
    /// to the device so that it announces its topics again.
    RequestTopics { topic_id: u16, probe: RosSerialMsg },
    /// The device announced a part of a service. Warn; nothing else is done.
    Unsupported(ServiceRole),
    /// Nothing is to be done.
    Ignore,
}

/// An [`Action`] as a value.
pub enum ActionView {
    ReplyTime,
    Log { severity: Severity, msg: Seq<char> },
    UnknownLogLevel { level: u8, msg: Seq<char> },
    SetupPublisher(TopicInfoView),
    SetupSubscriber(TopicInfoView),
    Send(Frame),
    Publish { topic_id: u16, payload: Seq<u8> },
    RequestTopics { topic_id: u16, probe: Frame },
    Unsupported(ServiceRole),
    Ignore,
}

impl View for Action {
    type V = ActionView;

    open spec fn view(&self) -> ActionView {
        match *self {
            Action::ReplyTime => ActionView::ReplyTime,
            Action::Log { severity, msg } => ActionView::Log { severity, msg: msg@ },
            Action::UnknownLogLevel { level, msg } => ActionView::UnknownLogLevel {
                level,
                msg: msg@,
            },
            Action::SetupPublisher(info) => ActionView::SetupPublisher(info@),
            Action::SetupSubscriber(info) => ActionView::SetupSubscriber(info@),
            Action::Send(msg) => ActionView::Send(msg@),
            Action::Publish { topic_id, payload } => ActionView::Publish {
                topic_id,
                payload: payload@,
            },
            Action::RequestTopics { topic_id, probe } => ActionView::RequestTopics {
                topic_id,
                probe: probe@,
            },
            Action::Unsupported(role) => ActionView::Unsupported(role),
            Action::Ignore => ActionView::Ignore,
        }
    }
}

/// The six bytes that ask a device to announce its topics.
pub open spec fn probe_bytes() -> Seq<u8> {
    seq![0x00u8, 0x00u8, 0xffu8, 0x00u8, 0x00u8, 0xffu8]
}

/// The frame that asks a device to announce its topics: a raw frame of the
/// probe bytes.
pub open spec fn probe_frame() -> Frame {
    Frame { topic: None, payload: probe_bytes() }
}

/// The severity that a device means by `level`, if it is a level that is
/// known.
pub open spec fn severity_of(level: u8) -> Option<Severity> {
    if level == Log::ROSDEBUG {
        Some(Severity::Debug)
    } else if level == Log::INFO {
        Some(Severity::Info)
    } else if level == Log::WARN {
        Some(Severity::Warn)
    } else if level == Log::ERROR {
        Some(Severity::Error)
    } else if level == Log::FATAL {
        Some(Severity::Fatal)
    } else {
        None
    }
}

/// The part of a service that is announced on `topic_id`, if it is one.
pub open spec fn service_role_of(topic_id: u16) -> Option<ServiceRole> {
    if topic_id == ID_SERVICE_SERVER + ID_PUBLISHER {
        Some(ServiceRole::ServerPublisher)
    } else if topic_id == ID_SERVICE_SERVER + ID_SUBSCRIBER {
        Some(ServiceRole::ServerSubscriber)
    } else if topic_id == ID_SERVICE_CLIENT + ID_PUBLISHER {
        Some(ServiceRole::ClientPublisher)
    } else if topic_id == ID_SERVICE_CLIENT + ID_SUBSCRIBER {
        Some(ServiceRole::ClientSubscriber)
    } else {
        None
    }
}

/// What is to be done with a log record that has come in `body`; `None`
/// when no record can be read from it.
pub open spec fn log_action(body: Seq<u8>) -> Option<ActionView> {
    match log_of(body) {
        None => None,
        Some((level, msg)) => match severity_of(level) {
            Some(severity) => Some(ActionView::Log { severity, msg }),
            None => Some(ActionView::UnknownLogLevel { level, msg }),
        },
    }
}

/// The answer to a request for a parameter that has come in `body`: a
/// response without values, on the topic of the request; `None` when no
/// request can be read from `body`.
pub open spec fn parameter_response(body: Seq<u8>) -> Option<Frame> {
    match request_param_of(body) {
        None => None,
        Some(_) => Some(
            Frame { topic: Some(ID_PARAMETER_REQUEST), payload: empty_param_response() },
        ),
    }
}

/// What is to be done with `frame`, given the ids under which publishers are
/// registered; `None` when the frame is on a control topic and its body
/// cannot be read.
pub open spec fn action_for(published: Set<u16>, frame: Frame) -> Option<ActionView> {
    match frame.topic {
        None => Some(ActionView::Ignore),
        Some(topic_id) => if topic_id == ID_TIME {
            Some(ActionView::ReplyTime)
        } else if topic_id == ID_LOG {
            log_action(frame.payload)
        } else if topic_id == ID_PUBLISHER {
            match topic_info_of(frame.payload) {
                Some(info) => Some(ActionView::SetupPublisher(info)),
                None => None,
            }
        } else if topic_id == ID_SUBSCRIBER {
            match topic_info_of(frame.payload) {
                Some(info) => Some(ActionView::SetupSubscriber(info)),
                None => None,
            }
        } else if topic_id == ID_PARAMETER_REQUEST {
            match parameter_response(frame.payload) {
                Some(response) => Some(ActionView::Send(response)),
                None => None,
            }
        } else if service_role_of(topic_id) is Some {
            Some(ActionView::Unsupported(service_role_of(topic_id)->0))
        } else if topic_id == ID_TX_STOP {
            Some(ActionView::Ignore)
        } else if published.contains(topic_id) {
            Some(ActionView::Publish { topic_id, payload: frame.payload })
        } else {
            Some(ActionView::RequestTopics { topic_id, probe: probe_frame() })
        },
    }
}

/// Whether `got` is what `wanted` asks for: the action it names, or an
/// [`Error::IoError`] when it names none.
pub open spec fn answers(got: Result<Action, Error>, wanted: Option<ActionView>) -> bool {
    match wanted {
        Some(action) => got matches Ok(done) && done@ == action,
        None => got matches Err(Error::IoError(_)),
    }
}

/// The host side of a rosserial link, without its transport.
///
/// `P` is the handle through which messages of a topic go out to the
/// network, `S` the handle of the queue through which messages of a topic
/// come in from it.
/// The link keeps both in its [`TopicRegistry`] and never looks inside them.
pub struct RosSerial<P, S> {
    registry: TopicRegistry<P, S>,
}

impl<P, S> RosSerial<P, S> {
    /// The topics that the device has announced and that were registered.
    pub closed spec fn topics(&self) -> TopicRegistry<P, S> {
        self.registry
    }

    /// Opens a link. Nothing is registered yet, and the frame returned with
    /// the link is the first to send: it asks the device to announce its
    /// topics.
    pub fn new() -> (opened: (Self, RosSerialMsg))
        ensures
            opened.0.topics().publishers() == Map::<u16, TopicEntry<P>>::empty(),
            opened.0.topics().subscribers() == Map::<u16, TopicEntry<S>>::empty(),
            opened.1@ == probe_frame(),
    {
        (RosSerial { registry: TopicRegistry::new() }, Self::request_topics())
    }

    /// Registers the handle of a topic that the device publishes, once the
    /// topic is announced to the network. An earlier entry under the same id
    /// is replaced.
    pub fn register_publisher(&mut self, info: TopicInfo, handle: P)
        ensures
            final(self).topics().publishers() == old(self).topics().publishers().insert(
                info.topic_id,
                TopicEntry { info, handle },
            ),
            final(self).topics().subscribers() == old(self).topics().subscribers(),
    {
        self.registry.register_publisher(info, handle);
    }

    /// Registers the handle of a topic that the device subscribes to, once
    /// the topic is subscribed to on the network. An earlier entry under the
    /// same id is replaced.
    pub fn register_subscriber(&mut self, info: TopicInfo, handle: S)
        ensures
            final(self).topics().subscribers() == old(self).topics().subscribers().insert(
                info.topic_id,
                TopicEntry { info, handle },
            ),
            final(self).topics().publishers() == old(self).topics().publishers(),
    {
        self.registry.register_subscriber(info, handle);
    }

    /// Ends the setup of a publisher, with what the network side made of it.
    /// A handle is registered as by [`RosSerial::register_publisher`]. When
    /// the network side failed, nothing is registered, the link goes on as it
    /// was, and the error is handed back to be logged.
    pub fn finish_publisher_setup(
        &mut self,
        info: TopicInfo,
        created: Result<P, Error>,
    ) -> (failed: Option<Error>)
        ensures
            match created {
                Ok(handle) => failed is None && final(self).topics().publishers() == old(
                    self,
                ).topics().publishers().insert(info.topic_id, TopicEntry { info, handle }),
                Err(error) => failed == Some(error) && final(self).topics().publishers() == old(
                    self,
                ).topics().publishers(),
            },
            final(self).topics().subscribers() == old(self).topics().subscribers(),
    {
        match created {
            Ok(handle) => {
                self.registry.register_publisher(info, handle);
                None
            },
            Err(error) => Some(error),
        }
    }

    /// Ends the setup of a subscriber, with what the network side made of
    /// it. A handle is registered as by [`RosSerial::register_subscriber`].
    /// When the network side failed, nothing is registered, the link goes on
    /// as it was, and the error is handed back to be logged.
    pub fn finish_subscriber_setup(
        &mut self,
        info: TopicInfo,
        created: Result<S, Error>,
    ) -> (failed: Option<Error>)
        ensures
            match created {
                Ok(handle) => failed is None && final(self).topics().subscribers() == old(
                    self,
                ).topics().subscribers().insert(info.topic_id, TopicEntry { info, handle }),
                Err(error) => failed == Some(error) && final(self).topics().subscribers() == old(
                    self,
                ).topics().subscribers(),
            },
            final(self).topics().publishers() == old(self).topics().publishers(),
    {
        match created {
            Ok(handle) => {
                self.registry.register_subscriber(info, handle);
                None
            },
            Err(error) => Some(error),
        }
    }

    /// The publisher registered under `topic_id`, if there is one.
    pub fn publisher(&self, topic_id: u16) -> (found: Option<&TopicEntry<P>>)
        ensures
            match found {
                Some(entry) => self.topics().publishers().contains_key(topic_id) && *entry
                    == self.topics().publishers()[topic_id],
                None => !self.topics().publishers().contains_key(topic_id),
            },
    {
        self.registry.lookup_publisher(topic_id)
    }

    /// The subscriber registered under `topic_id`, if there is one.
    pub fn subscriber(&self, topic_id: u16) -> (found: Option<&TopicEntry<S>>)
        ensures
            match found {
                Some(entry) => self.topics().subscribers().contains_key(topic_id) && *entry
                    == self.topics().subscribers()[topic_id],
                None => !self.topics().subscribers().contains_key(topic_id),
            },
    {
        self.registry.lookup_subscriber(topic_id)
    }

    /// Makes the frame that carries a message from the network to the
    /// device: a regular frame on `topic_id`. There is a frame exactly when
    /// a subscriber is registered under `topic_id` and the message fits a
    /// frame; otherwise the message is to be dropped, and the drop logged.
    pub fn forward_to_device(&self, topic_id: u16, payload: Vec<u8>) -> (made: Option<
        RosSerialMsg,
    >)
        ensures
            made is Some <==> self.topics().subscribers().contains_key(topic_id) && payload@.len()
                <= MAX_PAYLOAD,
            made matches Some(msg) ==> msg@ == (Frame {
                topic: Some(topic_id),
                payload: payload@,
            }) && msg.fits(),
    {
        if self.registry.lookup_subscriber(topic_id).is_some() && payload.len() <= MAX_PAYLOAD {
            Some(RosSerialMsg { topic: Some(topic_id), msg: payload })
        } else {
            None
        }
    }

    /// Closes the link: every entry is removed and every handle let go.
    pub fn close(&mut self)
        ensures
            final(self).topics().publishers() == Map::<u16, TopicEntry<P>>::empty(),
            final(self).topics().subscribers() == Map::<u16, TopicEntry<S>>::empty(),
    {
        self.registry.reset();
    }

    /// Says what is to be done with a frame that has come from the device.
    ///
    /// [`action_for`] gives the rule. The link itself is not changed: where
    /// the action is to set up a topic, the caller does so on the network
    /// and then registers the handle.
    pub fn handle_msg(&self, msg: RosSerialMsg) -> (got: Result<Action, Error>)
        ensures
            answers(got, action_for(self.topics().publishers().dom(), msg@)),
    {
        let topic_id = match msg.topic {
            Some(topic_id) => topic_id,
            None => return Ok(Action::Ignore),
        };
        if topic_id == ID_TIME {
            Ok(Action::ReplyTime)
        } else if topic_id == ID_LOG {
            Self::handle_logging_request(&msg)
        } else if topic_id == ID_PUBLISHER {
            match Self::setup_publisher(&msg) {
                Ok(info) => Ok(Action::SetupPublisher(info)),
                Err(error) => Err(error),
            }
        } else if topic_id == ID_SUBSCRIBER {
            match Self::setup_subscriber(&msg) {
                Ok(info) => Ok(Action::SetupSubscriber(info)),
                Err(error) => Err(error),
            }
        } else if topic_id == ID_PARAMETER_REQUEST {
            match Self::handle_parameter_request(&msg) {
                Ok(response) => Ok(Action::Send(response)),
                Err(error) => Err(error),
            }
        } else if topic_id == ID_SERVICE_SERVER + ID_PUBLISHER {
            Ok(Action::Unsupported(ServiceRole::ServerPublisher))
        } else if topic_id == ID_SERVICE_SERVER + ID_SUBSCRIBER {
            Ok(Action::Unsupported(ServiceRole::ServerSubscriber))
        } else if topic_id == ID_SERVICE_CLIENT + ID_PUBLISHER {
            Ok(Action::Unsupported(ServiceRole::ClientPublisher))
        } else if topic_id == ID_SERVICE_CLIENT + ID_SUBSCRIBER {
            Ok(Action::Unsupported(ServiceRole::ClientSubscriber))
        } else if topic_id == ID_TX_STOP {
            Ok(Action::Ignore)
        } else if self.registry.lookup_publisher(topic_id).is_some() {
            Ok(Action::Publish { topic_id, payload: msg.msg })
        } else {
            Ok(Action::RequestTopics { topic_id, probe: Self::request_topics() })
        }
    }

    /// The answer to a request for the time: a frame on the time topic whose
    /// body is the time given, seconds and nanoseconds.
    pub fn handle_time_request(sec: u32, nsec: u32) -> (response: RosSerialMsg)
        ensures
            response@ == (Frame { topic: Some(ID_TIME), payload: time_body(sec, nsec) }),
            response.fits(),
    {
        RosSerialMsg { topic: Some(ID_TIME), msg: encode_time(sec, nsec) }
    }

    /// Says what is to be done with a log record: to log it at the severity
    /// that its level means, or to report a level that is not known.
    pub fn handle_logging_request(msg: &RosSerialMsg) -> (got: Result<Action, Error>)
        ensures
            answers(got, log_action(msg.msg@)),
    {
        let record = match Log::decode(msg.msg.as_slice()) {
            Ok(record) => record,
            Err(error) => return Err(Error::IoError(error)),
        };
        let severity = if record.level == Log::ROSDEBUG {
            Severity::Debug
        } else if record.level == Log::INFO {
            Severity::Info
        } else if record.level == Log::WARN {
            Severity::Warn
        } else if record.level == Log::ERROR {
            Severity::Error
        } else if record.level == Log::FATAL {
            Severity::Fatal
        } else {
            return Ok(Action::UnknownLogLevel { level: record.level, msg: record.msg });
        };
        Ok(Action::Log { severity, msg: record.msg })
    }

    /// Reads the description of a topic that the device publishes.
    pub fn setup_publisher(msg: &RosSerialMsg) -> (got: Result<TopicInfo, Error>)
        ensures
            match topic_info_of(msg.msg@) {
                Some(info) => got matches Ok(read) && read@ == info,
                None => got matches Err(Error::IoError(_)),
            },
    {
        match TopicInfo::decode(msg.msg.as_slice()) {
            Ok(info) => Ok(info),
            Err(error) => Err(Error::IoError(error)),
        }
    }

    /// Reads the description of a topic that the device subscribes to.
    pub fn setup_subscriber(msg: &RosSerialMsg) -> (got: Result<TopicInfo, Error>)
        ensures
            match topic_info_of(msg.msg@) {
                Some(info) => got matches Ok(read) && read@ == info,
                None => got matches Err(Error::IoError(_)),
            },
    {
        match TopicInfo::decode(msg.msg.as_slice()) {
            Ok(info) => Ok(info),
            Err(error) => Err(Error::IoError(error)),
        }
    }

    /// Answers a request for a parameter: with a response that holds no
    /// values, on the topic of the request.
    pub fn handle_parameter_request(msg: &RosSerialMsg) -> (got: Result<RosSerialMsg, Error>)
        ensures
            match parameter_response(msg.msg@) {
                Some(response) => got matches Ok(made) && made@ == response && made.fits(),
                None => got matches Err(Error::IoError(_)),
            },
    {
        match RequestParamReq::decode(msg.msg.as_slice()) {
            Ok(_) => Ok(
                RosSerialMsg {
                    topic: Some(ID_PARAMETER_REQUEST),
                    msg: encode_empty_param_response(),
                },
            ),
            Err(error) => Err(Error::IoError(error)),
        }
    }

    /// A raw frame of `data`.
    fn send_raw(data: &[u8]) -> (raw: RosSerialMsg)
        ensures
            raw@ == (Frame { topic: None, payload: data@ }),
            raw.fits(),
    {
        RosSerialMsg { topic: None, msg: slice_to_vec(data) }
    }

    /// The frame that asks the device to announce its topics.
    pub fn request_topics() -> (probe: RosSerialMsg)
        ensures
            probe@ == probe_frame(),
            probe.fits(),
    {
        let data: Vec<u8> = vec![0x00, 0x00, 0xff, 0x00, 0x00, 0xff];
        assert(data@ == probe_bytes());
        Self::send_raw(data.as_slice())
    }
}

} // verus!
