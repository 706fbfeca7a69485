//! The concurrent maps in which users and topics are handed around.
//!
//! The maps are `DashMap`s, so that a listing can be shared between
//! requests once it is built. Verus does not look inside them: what a map
//! holds has a name here, and the few operations that the bridge needs are
//! stated over that name.

use vstd::prelude::*;
use dashmap::DashMap;
use crate::topic::{Topic, TopicView};
use crate::user::{MqttUser, MqttUserView};

verus! {

/// `dashmap::DashMap`, a hash map that can be read and written through a
/// shared reference. Nothing is known of what is inside one but what the
/// functions below say.
#[verifier::external_type_specification]
#[verifier::external_body]
#[verifier::reject_recursive_types(K)]
#[verifier::reject_recursive_types(V)]
#[verifier::reject_recursive_types(S)]
pub struct ExDashMap<K, V, S>(DashMap<K, V, S>);

/// The users that a map holds, each under its key.
pub uninterp spec fn user_map_contents(map: DashMap<String, MqttUser>) -> Map<
    Seq<char>,
    MqttUserView,
>;

/// The topics that a map holds, each under its key.
pub uninterp spec fn topic_map_contents(map: DashMap<String, Topic>) -> Map<Seq<char>, TopicView>;

/// The contents of a map that holds no topic.
pub open spec fn no_topics() -> Map<Seq<char>, TopicView> {
    Map::empty()
}

/// The keys and values of a run of map entries.
pub open spec fn entry_views(entries: Seq<(String, MqttUser)>) -> Seq<(Seq<char>, MqttUserView)> {
    entries.map_values(|entry: (String, MqttUser)| (entry.0@, entry.1@))
}

/// Whether `entries` lists what `contents` holds: every entry of the map
/// once, under its key, and nothing else.
pub open spec fn is_enumeration_of(
    entries: Seq<(Seq<char>, MqttUserView)>,
    contents: Map<Seq<char>, MqttUserView>,
) -> bool {
    &&& forall|i: int|
        0 <= i < entries.len() ==> contents.contains_pair(
            (#[trigger] entries[i]).0,
            entries[i].1,
        )
    &&& forall|i: int, j: int|
        0 <= i < j < entries.len() ==> (#[trigger] entries[i]).0 != (#[trigger] entries[j]).0
    &&& forall|key: Seq<char>| #[trigger]
        contents.contains_key(key) ==> exists|i: int|
            0 <= i < entries.len() && (#[trigger] entries[i]).0 == key
}

/// `DashMap::into_iter`, gathered into a vector: the owning iterator walks
/// the shards of the map and yields each entry once. In which sequence the
/// entries come is not fixed, so nothing is claimed of it.
#[verifier::external_body]
pub(crate) fn user_map_entries(users: DashMap<String, MqttUser>) -> (entries: Vec<
    (String, MqttUser),
>)
    ensures
        is_enumeration_of(entry_views(entries@), user_map_contents(users)),
{
    users.into_iter().collect()
}

/// `DashMap::with_capacity`: a map that holds nothing and has room for
/// `capacity` entries before it grows. The capacity is rounded up to a
/// multiple of the number of shards, which is kept from overflowing by the
/// bound on it.
#[verifier::external_body]
pub(crate) fn topic_map_with_capacity(capacity: usize) -> (topics: DashMap<String, Topic>)
    requires
        capacity <= 0xFFFF,
    ensures
        topic_map_contents(topics) == no_topics(),
{
    DashMap::with_capacity(capacity)
}

/// `DashMap::insert`: puts `topic` under `key`, in place of what the map
/// held under that key before, and leaves every other entry alone.
#[verifier::external_body]
pub(crate) fn topic_map_insert(topics: &mut DashMap<String, Topic>, key: String, topic: Topic)
    ensures
        topic_map_contents(*final(topics)) == topic_map_contents(*old(topics)).insert(
            key@,
            topic@,
        ),
{
    topics.insert(key, topic);
}

} // verus!
