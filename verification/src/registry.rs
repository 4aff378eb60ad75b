//! The topics a device has announced, by id.
//!
//! Publishers and subscribers are kept apart. Each entry holds what the
//! device said of the topic and the handle that the network side gave for it;
//! the registry owns the handles and lets them go when an entry is replaced
//! or the registry is reset.

use crate::messages::{TopicInfo, TopicInfoView};
use std::collections::HashMap;
use vstd::prelude::*;

verus! {

broadcast use vstd::std_specs::hash::group_hash_axioms;

/// One announced topic: what the device said of it, and the handle that
/// serves it. For a topic that the device publishes, messages go out to the
/// network through the handle; for a topic that the device subscribes to,
/// the handle is the end of the queue through which messages come in.
pub struct TopicEntry<H> {
    pub info: TopicInfo,
    pub handle: H,
}

/// The registry of announced topics.
pub struct TopicRegistry<P, S> {
    publishers: HashMap<u16, TopicEntry<P>>,
    subscribers: HashMap<u16, TopicEntry<S>>,
}

/// Where messages of each topic id go: the description that stands under
/// the id, whatever handle serves it.
pub open spec fn routing<H>(entries: Map<u16, TopicEntry<H>>) -> Map<u16, TopicInfoView> {
    entries.map_values(|entry: TopicEntry<H>| entry.info@)
}

/// Idempotent registration: to register a description a second time, with
/// another handle or with the same, leaves every id routed as after the
/// first time. This holds of publishers and of subscribers alike.
pub proof fn law_registration_is_idempotent<H>(
    entries: Map<u16, TopicEntry<H>>,
    info: TopicInfo,
    first: H,
    second: H,
)
    ensures
        routing(
            entries.insert(info.topic_id, TopicEntry { info, handle: first }).insert(
                info.topic_id,
                TopicEntry { info, handle: second },
            ),
        ) == routing(entries.insert(info.topic_id, TopicEntry { info, handle: first })),
        entries.insert(info.topic_id, TopicEntry { info, handle: first }).insert(
            info.topic_id,
            TopicEntry { info, handle: first },
        ) == entries.insert(info.topic_id, TopicEntry { info, handle: first }),
{
    let once = entries.insert(info.topic_id, TopicEntry { info, handle: first });
    let twice = once.insert(info.topic_id, TopicEntry { info, handle: second });
    assert(routing(twice) =~= routing(once));
    assert(once.insert(info.topic_id, TopicEntry { info, handle: first }) =~= once);
}

/// A registration changes the routing of the id that it names and of no
/// other.
pub proof fn law_registration_is_local<H>(
    entries: Map<u16, TopicEntry<H>>,
    info: TopicInfo,
    handle: H,
)
    ensures
        routing(entries.insert(info.topic_id, TopicEntry { info, handle })) == routing(
            entries,
        ).insert(info.topic_id, info@),
{
    assert(routing(entries.insert(info.topic_id, TopicEntry { info, handle })) =~= routing(
        entries,
    ).insert(info.topic_id, info@));
}

impl<P, S> TopicRegistry<P, S> {
    /// The publishers, by topic id.
    pub closed spec fn publishers(&self) -> Map<u16, TopicEntry<P>> {
        self.publishers@
    }

    /// The subscribers, by topic id.
    pub closed spec fn subscribers(&self) -> Map<u16, TopicEntry<S>> {
        self.subscribers@
    }

    /// A registry without entries.
    pub fn new() -> (registry: Self)
        ensures
            registry.publishers() == Map::<u16, TopicEntry<P>>::empty(),
            registry.subscribers() == Map::<u16, TopicEntry<S>>::empty(),
    {
        TopicRegistry { publishers: HashMap::new(), subscribers: HashMap::new() }
    }

    /// Puts a publisher under the id that `info` names. An entry that stood
    /// there is replaced and its handle let go.
    pub fn register_publisher(&mut self, info: TopicInfo, handle: P)
        ensures
            final(self).publishers() == old(self).publishers().insert(
                info.topic_id,
                TopicEntry { info, handle },
            ),
            final(self).subscribers() == old(self).subscribers(),
    {
        let _ = self.publishers.insert(info.topic_id, TopicEntry { info, handle });
    }

    /// Puts a subscriber under the id that `info` names. An entry that stood
    /// there is replaced and its handle let go.
    pub fn register_subscriber(&mut self, info: TopicInfo, handle: S)
        ensures
            final(self).subscribers() == old(self).subscribers().insert(
                info.topic_id,
                TopicEntry { info, handle },
            ),
            final(self).publishers() == old(self).publishers(),
    {
        let _ = self.subscribers.insert(info.topic_id, TopicEntry { info, handle });
    }

    /// The publisher under `topic_id`, if there is one.
    pub fn lookup_publisher(&self, topic_id: u16) -> (found: Option<&TopicEntry<P>>)
        ensures
            match found {
                Some(entry) => self.publishers().contains_key(topic_id) && *entry
                    == self.publishers()[topic_id],
                None => !self.publishers().contains_key(topic_id),
            },
    {
        self.publishers.get(&topic_id)
    }

    /// The subscriber under `topic_id`, if there is one.
    pub fn lookup_subscriber(&self, topic_id: u16) -> (found: Option<&TopicEntry<S>>)
        ensures
            match found {
                Some(entry) => self.subscribers().contains_key(topic_id) && *entry
                    == self.subscribers()[topic_id],
                None => !self.subscribers().contains_key(topic_id),
            },
    {
        self.subscribers.get(&topic_id)
    }

    /// Removes every entry and lets every handle go.
    pub fn reset(&mut self)
        ensures
            final(self).publishers() == Map::<u16, TopicEntry<P>>::empty(),
            final(self).subscribers() == Map::<u16, TopicEntry<S>>::empty(),
    {
        self.publishers.clear();
        self.subscribers.clear();
    }
}

} // verus!
