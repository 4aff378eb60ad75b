use rosserial_rs::{
    Action, Error, Log, RosSerial, RosSerialMsg, RosSerialMsgCodec, ServiceRole, Severity,
    TopicInfo, ID_LOG, ID_PARAMETER_REQUEST, ID_PUBLISHER, ID_SUBSCRIBER, ID_TIME, ID_TX_STOP,
    MIN_QUEUE_CAPACITY, MSG_DEFINITION,
};
use tokio_util::bytes::BytesMut;

type Link = RosSerial<&'static str, &'static str>;

fn string_field(text: &str) -> Vec<u8> {
    let mut bytes = (text.len() as u32).to_le_bytes().to_vec();
    bytes.extend_from_slice(text.as_bytes());
    bytes
}

fn topic_info_body(info: &TopicInfo) -> Vec<u8> {
    let mut bytes = info.topic_id.to_le_bytes().to_vec();
    bytes.extend_from_slice(&string_field(&info.topic_name));
    bytes.extend_from_slice(&string_field(&info.message_type));
    bytes.extend_from_slice(&string_field(&info.md5sum));
    bytes.extend_from_slice(&info.buffer_size.to_le_bytes());
    bytes
}

fn chatter() -> TopicInfo {
    TopicInfo {
        topic_id: 101,
        topic_name: "/chatter".to_string(),
        message_type: "std_msgs/String".to_string(),
        md5sum: "992ce8a1687cec8c8bd883ec73ca41d1".to_string(),
        buffer_size: 512,
    }
}

fn frame(topic: u16, payload: &[u8]) -> RosSerialMsg {
    RosSerialMsg { topic: Some(topic), msg: payload.to_vec() }
}

fn probe() -> RosSerialMsg {
    RosSerialMsg { topic: None, msg: vec![0x00, 0x00, 0xff, 0x00, 0x00, 0xff] }
}

fn on_the_wire(msg: RosSerialMsg) -> Vec<u8> {
    let mut codec = RosSerialMsgCodec::new();
    let mut out = BytesMut::new();
    assert!(codec.encode(msg, &mut out).is_ok());
    out.to_vec()
}

/// Sends `msg` through the codec, as the device would, and hands what is
/// read to the link.
fn feed(link: &Link, msg: RosSerialMsg) -> Result<Action, Error> {
    let mut codec = RosSerialMsgCodec::new();
    let mut buffer = BytesMut::from(&on_the_wire(msg)[..]);
    let read = codec.decode(&mut buffer).unwrap().unwrap();
    link.handle_msg(read)
}

#[test]
fn negotiation_probe() {
    let (_link, first): (Link, RosSerialMsg) = RosSerial::new();
    assert_eq!(first, probe());
    assert_eq!(on_the_wire(first), vec![0xff, 0xfe, 0x00, 0x00, 0xff, 0x00, 0x00, 0xff]);
    assert_eq!(Link::request_topics(), probe());
}

#[test]
fn time_round_trip() {
    let (link, _) = Link::new();
    let mut codec = RosSerialMsgCodec::new();
    let mut buffer = BytesMut::from(&[0xffu8, 0xfe, 0x00, 0x00, 0xff, 0x0a, 0x00, 0xf5][..]);
    let request = codec.decode(&mut buffer).unwrap().unwrap();
    assert_eq!(request, frame(10, &[]));
    assert_eq!(link.handle_msg(request).unwrap(), Action::ReplyTime);

    let response = Link::handle_time_request(1_700_000_000, 123_456_789);
    assert_eq!(response.topic, Some(ID_TIME));
    assert_eq!(response.msg.len(), 8);
    assert_eq!(&response.msg[..4], &1_700_000_000u32.to_le_bytes()[..]);
    assert_eq!(&response.msg[4..], &123_456_789u32.to_le_bytes()[..]);

    let mut buffer = BytesMut::from(&on_the_wire(response.clone())[..]);
    assert_eq!(codec.decode(&mut buffer).unwrap(), Some(response));
}

#[test]
fn publisher_setup_then_data() {
    let (mut link, _) = Link::new();
    let setup = feed(&link, frame(ID_PUBLISHER, &topic_info_body(&chatter()))).unwrap();
    let info = match setup {
        Action::SetupPublisher(info) => info,
        other => panic!("expected a publisher to set up, got {:?}", other),
    };
    assert_eq!(info, chatter());
    assert_eq!(info.topic_name, "/chatter");
    assert_eq!(info.message_type, "std_msgs/String");
    assert_eq!(MSG_DEFINITION, "*");
    link.register_publisher(info, "the /chatter publisher");

    let payload = [5u8, 0, 0, 0, b'h', b'e', b'l', b'l', b'o'];
    match feed(&link, frame(101, &payload)).unwrap() {
        Action::Publish { topic_id, payload: passed } => {
            assert_eq!(topic_id, 101);
            assert_eq!(passed, payload.to_vec());
            let entry = link.publisher(topic_id).unwrap();
            assert_eq!(entry.handle, "the /chatter publisher");
            assert_eq!(entry.info.topic_name, "/chatter");
        },
        other => panic!("expected a message to publish, got {:?}", other),
    }
}

#[test]
fn subscriber_setup_then_data_for_the_device() {
    let (mut link, _) = Link::new();
    let mut listened = chatter();
    listened.topic_id = 120;
    let setup = feed(&link, frame(ID_SUBSCRIBER, &topic_info_body(&listened))).unwrap();
    assert_eq!(setup, Action::SetupSubscriber(listened.clone()));
    assert_eq!(MIN_QUEUE_CAPACITY, 1000);
    assert_eq!(listened.queue_capacity(), 1000);

    assert_eq!(link.forward_to_device(120, vec![1, 2]), None);
    link.register_subscriber(listened, "the queue");
    assert_eq!(link.subscriber(120).unwrap().handle, "the queue");
    assert_eq!(link.forward_to_device(120, vec![1, 2]), Some(frame(120, &[1, 2])));
    assert_eq!(link.forward_to_device(121, vec![1, 2]), None);
    assert_eq!(link.forward_to_device(120, vec![0; 65535]), Some(frame(120, &[0; 65535])));
    assert_eq!(link.forward_to_device(120, vec![0; 65536]), None);
    // A subscriber is no publisher: frames on its id from the device find none.
    assert!(link.publisher(120).is_none());
}

#[test]
fn unknown_topic_id() {
    let (link, _) = Link::new();
    match feed(&link, frame(202, &[1, 2, 3])).unwrap() {
        Action::RequestTopics { topic_id, probe: again } => {
            assert_eq!(topic_id, 202);
            assert_eq!(again, probe());
            assert_eq!(
                on_the_wire(again),
                vec![0xff, 0xfe, 0x00, 0x00, 0xff, 0x00, 0x00, 0xff]
            );
        },
        other => panic!("expected a request for topics, got {:?}", other),
    }
}

#[test]
fn corrupt_frame_then_valid_frame() {
    let (mut link, _) = Link::new();
    link.register_publisher(chatter(), "publisher");
    let valid = frame(101, &[1, 2, 3]);
    let mut buffer = BytesMut::from(
        &[0xffu8, 0xfe, 0x05, 0x00, 0xf9, 0x00, 0x00, 0x01, 0x02, 0x03, 0x04, 0x05, 0xf0][..],
    );
    buffer.extend_from_slice(&on_the_wire(valid.clone()));
    let mut codec = RosSerialMsgCodec::new();
    let error = Error::from(codec.decode(&mut buffer).unwrap_err());
    assert!(matches!(
        error,
        Error::CodecError(rosserial_rs::codec::Error::InvalidLengthChecksum(254))
    ));
    let read = codec.decode(&mut buffer).unwrap().unwrap();
    assert_eq!(read, valid);
    assert_eq!(
        link.handle_msg(read).unwrap(),
        Action::Publish { topic_id: 101, payload: vec![1, 2, 3] }
    );
}

#[test]
fn log_forwarding() {
    let (link, _) = Link::new();
    let mut body = vec![Log::WARN];
    body.extend_from_slice(&string_field("battery low"));
    assert_eq!(
        feed(&link, frame(ID_LOG, &body)).unwrap(),
        Action::Log { severity: Severity::Warn, msg: "battery low".to_string() }
    );
}

#[test]
fn every_log_level_has_its_severity() {
    for (level, severity) in [
        (Log::ROSDEBUG, Severity::Debug),
        (Log::INFO, Severity::Info),
        (Log::WARN, Severity::Warn),
        (Log::ERROR, Severity::Error),
        (Log::FATAL, Severity::Fatal),
    ] {
        let mut body = vec![level];
        body.extend_from_slice(&string_field("text"));
        assert_eq!(
            Link::handle_logging_request(&frame(ID_LOG, &body)).unwrap(),
            Action::Log { severity, msg: "text".to_string() }
        );
    }
}

#[test]
fn an_unknown_log_level_is_reported_and_the_link_goes_on() {
    let (link, _) = Link::new();
    for level in [5u8, 17, 255] {
        let mut body = vec![level];
        body.extend_from_slice(&string_field("what"));
        assert_eq!(
            link.handle_msg(frame(ID_LOG, &body)).unwrap(),
            Action::UnknownLogLevel { level, msg: "what".to_string() }
        );
    }
}

#[test]
fn a_parameter_request_is_answered_without_values() {
    let (link, _) = Link::new();
    let request = frame(ID_PARAMETER_REQUEST, &string_field("~baud"));
    let response = frame(ID_PARAMETER_REQUEST, &[0; 12]);
    assert_eq!(link.handle_msg(request.clone()).unwrap(), Action::Send(response.clone()));
    assert_eq!(Link::handle_parameter_request(&request).unwrap(), response);
    assert_eq!(response.topic, Some(6));
}

#[test]
fn service_announcements_are_not_supported() {
    let (link, _) = Link::new();
    for (topic, role) in [
        (2u16, ServiceRole::ServerPublisher),
        (3, ServiceRole::ServerSubscriber),
        (4, ServiceRole::ClientPublisher),
        (5, ServiceRole::ClientSubscriber),
    ] {
        let body = topic_info_body(&chatter());
        assert_eq!(link.handle_msg(frame(topic, &body)).unwrap(), Action::Unsupported(role));
        assert_eq!(link.handle_msg(frame(topic, &[])).unwrap(), Action::Unsupported(role));
    }
}

#[test]
fn tx_stop_and_raw_frames_are_let_go() {
    let (mut link, _) = Link::new();
    assert_eq!(link.handle_msg(frame(ID_TX_STOP, &[1])).unwrap(), Action::Ignore);
    assert_eq!(link.handle_msg(probe()).unwrap(), Action::Ignore);
    // Not even a publisher registered under the id changes that.
    let mut odd = chatter();
    odd.topic_id = ID_TX_STOP;
    link.register_publisher(odd, "publisher");
    assert_eq!(link.handle_msg(frame(ID_TX_STOP, &[1])).unwrap(), Action::Ignore);
}

#[test]
fn control_topics_are_not_data_topics() {
    let (mut link, _) = Link::new();
    for id in [8u16, 9, 12, 99, 100, 65535] {
        assert!(matches!(
            link.handle_msg(frame(id, &[])).unwrap(),
            Action::RequestTopics { topic_id, .. } if topic_id == id
        ));
    }
    let mut odd = chatter();
    odd.topic_id = 9;
    link.register_publisher(odd, "publisher");
    assert_eq!(
        link.handle_msg(frame(9, &[4])).unwrap(),
        Action::Publish { topic_id: 9, payload: vec![4] }
    );
}

#[test]
fn a_control_body_that_cannot_be_read_is_an_io_error() {
    let (link, _) = Link::new();
    let body = topic_info_body(&chatter());
    for topic in [ID_PUBLISHER, ID_SUBSCRIBER] {
        let error = link.handle_msg(frame(topic, &body[..body.len() - 1])).unwrap_err();
        assert!(matches!(error, Error::IoError(_)));
        assert_eq!(error.message(), "IO error");
    }
    assert!(matches!(Link::setup_publisher(&frame(0, &[1])), Err(Error::IoError(_))));
    assert!(matches!(Link::setup_subscriber(&frame(1, &[1])), Err(Error::IoError(_))));
    assert!(matches!(link.handle_msg(frame(ID_LOG, &[])), Err(Error::IoError(_))));
    assert!(matches!(
        link.handle_msg(frame(ID_PARAMETER_REQUEST, &[9, 0, 0, 0, b'a'])),
        Err(Error::IoError(_))
    ));
    assert_eq!(Link::setup_publisher(&frame(0, &body)).unwrap(), chatter());
    assert_eq!(Link::setup_subscriber(&frame(1, &body)).unwrap(), chatter());
}

#[test]
fn a_readvertisement_replaces_the_entry() {
    let (mut link, _) = Link::new();
    link.register_publisher(chatter(), "first");
    let mut renamed = chatter();
    renamed.topic_name = "/talk".to_string();
    link.register_publisher(renamed, "second");
    let entry = link.publisher(101).unwrap();
    assert_eq!(entry.handle, "second");
    assert_eq!(entry.info.topic_name, "/talk");
}

#[test]
fn close_forgets_every_topic() {
    let (mut link, _) = Link::new();
    link.register_publisher(chatter(), "publisher");
    let mut listened = chatter();
    listened.topic_id = 120;
    link.register_subscriber(listened, "queue");
    link.close();
    assert!(link.publisher(101).is_none());
    assert!(link.subscriber(120).is_none());
    assert!(matches!(
        link.handle_msg(frame(101, &[1])).unwrap(),
        Action::RequestTopics { topic_id: 101, .. }
    ));
    assert_eq!(link.forward_to_device(120, vec![1]), None);
}

#[test]
fn link_errors_in_words() {
    let codec = rosserial_rs::codec::Error::InvalidMessageChecksum(3);
    assert_eq!(Error::from(codec).message(), "the codec encountered an error");
    let io = std::io::Error::new(std::io::ErrorKind::Other, "gone");
    assert_eq!(Error::from(io).message(), "IO error");
    assert_eq!(Error::RosError("no master".to_string()).message(), "ROS error");
    assert_eq!(
        Error::RosParamNotFound("~baud".to_string()).message(),
        "The ROS parameter ~baud was not found"
    );
}

#[test]
fn a_failed_setup_installs_nothing_and_the_link_goes_on() {
    let (mut link, _) = Link::new();
    link.register_publisher(chatter(), "first");

    let failed = link.finish_publisher_setup(
        chatter(),
        Err(Error::RosError("no master".to_string())),
    );
    assert!(matches!(failed, Some(Error::RosError(text)) if text == "no master"));
    assert_eq!(link.publisher(101).unwrap().handle, "first");

    let mut other = chatter();
    other.topic_id = 102;
    let failed =
        link.finish_publisher_setup(other, Err(Error::RosError("no master".to_string())));
    assert!(failed.is_some());
    assert!(link.publisher(102).is_none());
    assert!(matches!(
        link.handle_msg(frame(102, &[1])).unwrap(),
        Action::RequestTopics { topic_id: 102, .. }
    ));

    let mut listened = chatter();
    listened.topic_id = 120;
    let failed = link.finish_subscriber_setup(
        listened.clone(),
        Err(Error::RosError("no master".to_string())),
    );
    assert!(failed.is_some());
    assert!(link.subscriber(120).is_none());

    assert!(link.finish_publisher_setup(chatter(), Ok("second")).is_none());
    assert_eq!(link.publisher(101).unwrap().handle, "second");
    assert!(link.finish_subscriber_setup(listened, Ok("queue")).is_none());
    assert_eq!(link.subscriber(120).unwrap().handle, "queue");
}
