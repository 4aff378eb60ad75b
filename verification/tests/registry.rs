use rosserial_rs::{TopicInfo, TopicRegistry};

fn info(id: u16, name: &str) -> TopicInfo {
    TopicInfo {
        topic_id: id,
        topic_name: name.to_string(),
        message_type: "std_msgs/String".to_string(),
        md5sum: "992ce8a1687cec8c8bd883ec73ca41d1".to_string(),
        buffer_size: 512,
    }
}

#[test]
fn a_new_registry_has_no_entries() {
    let registry: TopicRegistry<u32, u32> = TopicRegistry::new();
    assert!(registry.lookup_publisher(101).is_none());
    assert!(registry.lookup_subscriber(101).is_none());
}

#[test]
fn publishers_and_subscribers_are_kept_apart() {
    let mut registry: TopicRegistry<&str, &str> = TopicRegistry::new();
    registry.register_publisher(info(101, "/out"), "publisher");
    registry.register_subscriber(info(102, "/in"), "queue");

    let publisher = registry.lookup_publisher(101).unwrap();
    assert_eq!(publisher.info, info(101, "/out"));
    assert_eq!(publisher.handle, "publisher");
    assert!(registry.lookup_publisher(102).is_none());

    let subscriber = registry.lookup_subscriber(102).unwrap();
    assert_eq!(subscriber.info, info(102, "/in"));
    assert_eq!(subscriber.handle, "queue");
    assert!(registry.lookup_subscriber(101).is_none());
}

#[test]
fn registration_is_idempotent() {
    let mut once: TopicRegistry<u32, u32> = TopicRegistry::new();
    once.register_publisher(info(100, "/other"), 1);
    once.register_publisher(info(101, "/chatter"), 2);

    let mut twice: TopicRegistry<u32, u32> = TopicRegistry::new();
    twice.register_publisher(info(100, "/other"), 1);
    twice.register_publisher(info(101, "/chatter"), 2);
    twice.register_publisher(info(101, "/chatter"), 3);

    for id in [99u16, 100, 101, 102] {
        let left = once.lookup_publisher(id).map(|entry| entry.info.clone());
        let right = twice.lookup_publisher(id).map(|entry| entry.info.clone());
        assert_eq!(left, right);
    }
}

#[test]
fn a_second_registration_replaces_the_first() {
    let mut registry: TopicRegistry<u32, u32> = TopicRegistry::new();
    registry.register_publisher(info(101, "/old"), 1);
    registry.register_publisher(info(101, "/new"), 2);
    let entry = registry.lookup_publisher(101).unwrap();
    assert_eq!(entry.info.topic_name, "/new");
    assert_eq!(entry.handle, 2);

    registry.register_subscriber(info(7, "/old"), 1);
    registry.register_subscriber(info(7, "/new"), 2);
    let entry = registry.lookup_subscriber(7).unwrap();
    assert_eq!(entry.info.topic_name, "/new");
    assert_eq!(entry.handle, 2);
}

#[test]
fn reset_removes_every_entry() {
    let mut registry: TopicRegistry<u32, u32> = TopicRegistry::new();
    registry.register_publisher(info(101, "/out"), 1);
    registry.register_subscriber(info(102, "/in"), 2);
    registry.reset();
    assert!(registry.lookup_publisher(101).is_none());
    assert!(registry.lookup_subscriber(102).is_none());
}
