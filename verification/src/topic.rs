//! Topics, and the directory that keeps them in the placement service.
//!
//! The placement service is the source of truth for the topics of a
//! cluster. The directory neither calls it nor decodes what it sends: for
//! each operation it builds the request that is to be sent, and it says
//! what the operation yields once the reply is there. A reply to a listing
//! reaches it as one entry for each serialized topic, decoded or marked as
//! undecodable.

use vstd::prelude::*;
use vstd::string::StringExecFns;
use dashmap::DashMap;
use crate::error::RobustMQError;
use crate::maps::{topic_map_contents, topic_map_insert, topic_map_with_capacity};

verus! {

/// A topic of a cluster. Its name tells it apart from every other topic of
/// the cluster; its content is the encoded form in which the placement
/// service keeps it.
#[derive(Clone, Debug, PartialEq, Eq)]
pub struct Topic {
    pub topic_name: String,
    pub content: Vec<u8>,
}

/// The mathematical content of a [`Topic`].
pub struct TopicView {
    pub topic_name: Seq<char>,
    pub content: Seq<u8>,
}

impl View for Topic {
    type V = TopicView;

    open spec fn view(&self) -> TopicView {
        TopicView { topic_name: self.topic_name@, content: self.content@ }
    }
}

impl Topic {
    /// A topic of the given name and content.
    pub fn new(topic_name: String, content: Vec<u8>) -> (topic: Topic)
        ensures
            topic@ == (TopicView { topic_name: topic_name@, content: content@ }),
    {
        Topic { topic_name, content }
    }
}

/// Asks the placement service to create a topic.
#[derive(Clone, Debug, PartialEq, Eq)]
pub struct CreateTopicRequest {
    pub cluster_name: String,
    pub topic_name: String,
    pub content: Vec<u8>,
}

/// The mathematical content of a [`CreateTopicRequest`].
pub struct CreateTopicRequestView {
    pub cluster_name: Seq<char>,
    pub topic_name: Seq<char>,
    pub content: Seq<u8>,
}

impl View for CreateTopicRequest {
    type V = CreateTopicRequestView;

    open spec fn view(&self) -> CreateTopicRequestView {
        CreateTopicRequestView {
            cluster_name: self.cluster_name@,
            topic_name: self.topic_name@,
            content: self.content@,
        }
    }
}

/// Asks the placement service to delete a topic.
#[derive(Clone, Debug, PartialEq, Eq)]
pub struct DeleteTopicRequest {
    pub cluster_name: String,
    pub topic_name: String,
}

/// The mathematical content of a [`DeleteTopicRequest`].
pub struct DeleteTopicRequestView {
    pub cluster_name: Seq<char>,
    pub topic_name: Seq<char>,
}

impl View for DeleteTopicRequest {
    type V = DeleteTopicRequestView;

    open spec fn view(&self) -> DeleteTopicRequestView {
        DeleteTopicRequestView { cluster_name: self.cluster_name@, topic_name: self.topic_name@ }
    }
}

/// Asks the placement service for the topics of a cluster: for the one of
/// the given name, or for all of them where the name is empty.
#[derive(Clone, Debug, PartialEq, Eq)]
pub struct ListTopicRequest {
    pub cluster_name: String,
    pub topic_name: String,
}

/// The mathematical content of a [`ListTopicRequest`].
pub struct ListTopicRequestView {
    pub cluster_name: Seq<char>,
    pub topic_name: Seq<char>,
}

impl View for ListTopicRequest {
    type V = ListTopicRequestView;

    open spec fn view(&self) -> ListTopicRequestView {
        ListTopicRequestView { cluster_name: self.cluster_name@, topic_name: self.topic_name@ }
    }
}

/// One serialized topic of a reply, as far as it could be decoded: the
/// topic, or the message of the decoder that refused it.
pub type TopicEntry = Result<Topic, String>;

/// What the placement service answered to a listing: its entries, or the
/// error of the call.
pub type ListTopicReply = Result<Vec<TopicEntry>, RobustMQError>;

/// The text that stands before the message of a remote failure in the
/// error of a mutation.
pub const REMOTE_FAILURE_PREFIX: &'static str = "save user config error, error messsage:";

/// The number of entries for which a fresh listing has room before it
/// grows.
pub const LISTING_CAPACITY: usize = 2;

/// The message of the error of a mutation whose remote call failed with
/// `message`.
pub open spec fn remote_failure(message: Seq<char>) -> Seq<char> {
    REMOTE_FAILURE_PREFIX@ + message
}

/// The topic of an entry, where it could be decoded.
pub open spec fn decoded(entry: TopicEntry) -> Option<TopicView> {
    match entry {
        Ok(topic) => Some(topic@),
        Err(_) => None,
    }
}

/// The topics of the entries, position by position.
pub open spec fn decoded_entries(entries: Seq<TopicEntry>) -> Seq<Option<TopicView>> {
    entries.map_values(|entry: TopicEntry| decoded(entry))
}

/// The map that a listing builds from the entries of a reply: each decoded
/// topic under its name, a later one in place of an earlier one of the
/// same name, and nothing for an entry that could not be decoded.
pub open spec fn listed_topics(entries: Seq<Option<TopicView>>) -> Map<Seq<char>, TopicView>
    decreases entries.len(),
{
    if entries.len() == 0 {
        Map::empty()
    } else {
        let before = listed_topics(entries.drop_last());
        match entries.last() {
            Some(topic) => before.insert(topic.topic_name, topic),
            None => before,
        }
    }
}

/// Whether `outcome` is what a mutation yields on `reply`: success where
/// the remote call went through, an error that carries the remote message
/// where it did not.
pub open spec fn is_mutation_outcome(
    reply: Result<(), RobustMQError>,
    outcome: Result<(), RobustMQError>,
) -> bool {
    match reply {
        Ok(_) => outcome is Ok,
        Err(e) => outcome matches Err(wrapped) && wrapped.message() == remote_failure(
            e.message(),
        ),
    }
}

/// Whether `found` is what a lookup yields on `reply`. A failed call is
/// handed on. A reply without entries means that there is no such topic,
/// which is no error. Of a reply with entries the first one counts: its
/// topic is the result, and if it could not be decoded the lookup fails
/// with the message of the decoder.
pub open spec fn is_lookup_of(
    reply: ListTopicReply,
    found: Result<Option<Topic>, RobustMQError>,
) -> bool {
    match reply {
        Ok(entries) => if entries@.len() == 0 {
            found matches Ok(None)
        } else {
            match entries@[0] {
                Ok(topic) => found matches Ok(Some(first)) && first == topic,
                Err(message) => found matches Err(e) && e.message() == message@,
            }
        },
        Err(e) => found matches Err(handed_on) && handed_on == e,
    }
}

/// The error of a mutation whose remote call failed with `e`.
fn wrap_remote_failure(e: RobustMQError) -> (wrapped: RobustMQError)
    ensures
        wrapped.message() == remote_failure(e.message()),
{
    let message = e.to_string();
    RobustMQError::CommonError(String::from_str(REMOTE_FAILURE_PREFIX).concat(message.as_str()))
}

/// The directory of topics of one cluster.
///
/// A directory is made for one operation, from the name of the cluster
/// and the address of the placement service as the configuration gives
/// them at that moment, so that a change of the configuration is seen by
/// the next operation.
pub struct TopicStorage {
    cluster_name: String,
    placement_addr: String,
}

impl TopicStorage {
    /// The name of the cluster, for contracts.
    pub closed spec fn spec_cluster_name(&self) -> Seq<char> {
        self.cluster_name@
    }

    /// The address of the placement service, for contracts.
    pub closed spec fn spec_placement_addr(&self) -> Seq<char> {
        self.placement_addr@
    }

    /// A directory for the topics of the cluster `cluster_name`, kept by
    /// the placement service at `placement_addr`.
    pub fn new(cluster_name: String, placement_addr: String) -> (storage: Self)
        ensures
            storage.spec_cluster_name() == cluster_name@,
            storage.spec_placement_addr() == placement_addr@,
    {
        TopicStorage { cluster_name, placement_addr }
    }

    /// The name of the cluster.
    pub fn cluster_name(&self) -> (name: &String)
        ensures
            name@ == self.spec_cluster_name(),
    {
        &self.cluster_name
    }

    /// The address of the placement service, to which the requests go.
    pub fn placement_addr(&self) -> (addr: &String)
        ensures
            addr@ == self.spec_placement_addr(),
    {
        &self.placement_addr
    }

    /// The request that creates the topic `topic_name` with the encoded
    /// form `content` in the cluster of this directory.
    pub fn save_topic_request(&self, topic_name: String, content: Vec<u8>) -> (request:
        CreateTopicRequest)
        ensures
            request@ == (CreateTopicRequestView {
                cluster_name: self.spec_cluster_name(),
                topic_name: topic_name@,
                content: content@,
            }),
    {
        CreateTopicRequest { cluster_name: self.cluster_name.clone(), topic_name, content }
    }

    /// What saving a topic yields, once the placement service has answered
    /// the request. Whether a second creation of a topic goes through is
    /// for the placement service to say.
    pub fn save_topic(&self, reply: Result<(), RobustMQError>) -> (outcome: Result<
        (),
        RobustMQError,
    >)
        ensures
            is_mutation_outcome(reply, outcome),
    {
        match reply {
            Ok(_) => Ok(()),
            Err(e) => Err(wrap_remote_failure(e)),
        }
    }

    /// The request that deletes the topic `topic_name` from the cluster of
    /// this directory. Whether there is such a topic is not looked up
    /// first.
    pub fn delete_topic_request(&self, topic_name: String) -> (request: DeleteTopicRequest)
        ensures
            request@ == (DeleteTopicRequestView {
                cluster_name: self.spec_cluster_name(),
                topic_name: topic_name@,
            }),
    {
        DeleteTopicRequest { cluster_name: self.cluster_name.clone(), topic_name }
    }

    /// What deleting a topic yields, once the placement service has
    /// answered the request.
    pub fn delete_topic(&self, reply: Result<(), RobustMQError>) -> (outcome: Result<
        (),
        RobustMQError,
    >)
        ensures
            is_mutation_outcome(reply, outcome),
    {
        match reply {
            Ok(_) => Ok(()),
            Err(e) => Err(wrap_remote_failure(e)),
        }
    }

    /// The request for all topics of the cluster of this directory: a
    /// listing under the empty name.
    pub fn topic_list_request(&self) -> (request: ListTopicRequest)
        ensures
            request@ == (ListTopicRequestView {
                cluster_name: self.spec_cluster_name(),
                topic_name: Seq::empty(),
            }),
    {
        ListTopicRequest { cluster_name: self.cluster_name.clone(), topic_name: String::new() }
    }

    /// The topics of the cluster by name, once the placement service has
    /// answered the request for all of them.
    ///
    /// An entry that could not be decoded is left out and the rest is
    /// listed all the same: one bad entry does not cost the listing. A
    /// failed call is handed on.
    pub fn topic_list(&self, reply: ListTopicReply) -> (listing: Result<
        DashMap<String, Topic>,
        RobustMQError,
    >)
        ensures
            match reply {
                Ok(entries) => listing matches Ok(topics) && topic_map_contents(topics)
                    == listed_topics(decoded_entries(entries@)),
                Err(e) => listing matches Err(handed_on) && handed_on == e,
            },
    {
        let entries = match reply {
            Ok(entries) => entries,
            Err(e) => {
                return Err(e);
            },
        };
        let ghost all = entries@;
        let mut topics = topic_map_with_capacity(LISTING_CAPACITY);
        for entry in it: entries
            invariant
                it.seq() == all,
                topic_map_contents(topics) == listed_topics(
                    decoded_entries(all.take(it.index() as int)),
                ),
        {
            proof {
                let seen = decoded_entries(all.take(it.index() as int));
                let next = decoded_entries(all.take(it.index() + 1));
                assert(next.drop_last() =~= seen);
            }
            match entry {
                Ok(topic) => {
                    let key = topic.topic_name.clone();
                    topic_map_insert(&mut topics, key, topic);
                },
                Err(_) => {},
            }
        }
        proof {
            assert(all.take(all.len() as int) =~= all);
        }
        Ok(topics)
    }

    /// The request for the topic `topic_name` of the cluster of this
    /// directory.
    pub fn get_topic_request(&self, topic_name: String) -> (request: ListTopicRequest)
        ensures
            request@ == (ListTopicRequestView {
                cluster_name: self.spec_cluster_name(),
                topic_name: topic_name@,
            }),
    {
        ListTopicRequest { cluster_name: self.cluster_name.clone(), topic_name }
    }

    /// The topic that was asked for, once the placement service has
    /// answered the request for it.
    ///
    /// Unlike a listing, a lookup does not pass over an entry that could
    /// not be decoded: that entry is all there is to show, and to drop it
    /// would look as if there were no such topic.
    pub fn get_topic(&self, reply: ListTopicReply) -> (found: Result<Option<Topic>, RobustMQError>)
        ensures
            is_lookup_of(reply, found),
    {
        let mut entries = match reply {
            Ok(entries) => entries,
            Err(e) => {
                return Err(e);
            },
        };
        if entries.len() == 0 {
            return Ok(None);
        }
        match entries.swap_remove(0) {
            Ok(topic) => Ok(Some(topic)),
            Err(message) => Err(RobustMQError::CommonError(message)),
        }
    }
}

/// The number of entries that could be decoded.
pub open spec fn decoded_count(entries: Seq<Option<TopicView>>) -> nat
    decreases entries.len(),
{
    if entries.len() == 0 {
        0
    } else {
        let before = decoded_count(entries.drop_last());
        if entries.last() is Some {
            before + 1
        } else {
            before
        }
    }
}

/// Whether the entry at position `i` is a decoded topic of the name `name`.
pub open spec fn is_topic_named(entries: Seq<Option<TopicView>>, i: int, name: Seq<char>) -> bool {
    &&& 0 <= i < entries.len()
    &&& entries[i] matches Some(topic) && topic.topic_name == name
}

/// Whether no entry after position `i` is a decoded topic of the name
/// `name`.
pub open spec fn is_last_named(entries: Seq<Option<TopicView>>, i: int, name: Seq<char>) -> bool {
    forall|j: int| i < j < entries.len() ==> !is_topic_named(entries, j, name)
}

/// There are no more decoded entries than entries, and fewer where an
/// entry could not be decoded.
pub proof fn lemma_decoded_count_bounds(entries: Seq<Option<TopicView>>)
    ensures
        decoded_count(entries) <= entries.len(),
        (exists|i: int| 0 <= i < entries.len() && #[trigger] entries[i] is None)
            ==> decoded_count(entries) <= entries.len() - 1,
    decreases entries.len(),
{
    if entries.len() > 0 {
        let before = entries.drop_last();
        lemma_decoded_count_bounds(before);
        if exists|i: int| 0 <= i < entries.len() && #[trigger] entries[i] is None {
            let i = choose|i: int| 0 <= i < entries.len() && #[trigger] entries[i] is None;
            if i < before.len() {
                assert(before[i] is None);
            }
        }
    }
}

/// A listing leaves out what could not be decoded and does not fail for
/// it: of `N` entries a listing holds at most as many topics as could be
/// decoded, so at most `N - 1` where one entry is malformed.
pub proof fn lemma_listing_leaves_out_malformed(entries: Seq<Option<TopicView>>)
    ensures
        listed_topics(entries).dom().finite(),
        listed_topics(entries).len() <= decoded_count(entries) <= entries.len(),
        (exists|i: int| 0 <= i < entries.len() && #[trigger] entries[i] is None) ==> listed_topics(
            entries,
        ).len() <= entries.len() - 1,
    decreases entries.len(),
{
    lemma_decoded_count_bounds(entries);
    if entries.len() > 0 {
        lemma_listing_leaves_out_malformed(entries.drop_last());
    }
}

/// A listing holds the decoded topics and nothing else: a name is listed
/// if and only if an entry is a decoded topic of that name, and it is
/// listed with the last such entry.
pub proof fn lemma_listing_holds_decoded_topics(
    entries: Seq<Option<TopicView>>,
    name: Seq<char>,
)
    ensures
        listed_topics(entries).contains_key(name) <==> exists|i: int|
            is_topic_named(entries, i, name),
        forall|i: int|
            is_topic_named(entries, i, name) && is_last_named(entries, i, name) ==> listed_topics(
                entries,
            )[name] == #[trigger] entries[i].unwrap(),
    decreases entries.len(),
{
    if entries.len() > 0 {
        let before = entries.drop_last();
        let last = entries.len() - 1;
        lemma_listing_holds_decoded_topics(before, name);
        if listed_topics(entries).contains_key(name) && !is_topic_named(entries, last, name) {
            let i = choose|i: int| is_topic_named(before, i, name);
            assert(is_topic_named(entries, i, name));
        }
        if exists|i: int| is_topic_named(entries, i, name) {
            let i = choose|i: int| is_topic_named(entries, i, name);
            if i < last {
                assert(is_topic_named(before, i, name));
            }
        }
        assert forall|i: int|
            is_topic_named(entries, i, name) && is_last_named(
                entries,
                i,
                name,
            ) implies listed_topics(entries)[name] == #[trigger] entries[i].unwrap() by {
            if i < last {
                assert(is_topic_named(before, i, name));
                assert forall|j: int| i < j < before.len() implies !is_topic_named(
                    before,
                    j,
                    name,
                ) by {
                    assert(!is_topic_named(entries, j, name));
                }
            }
        }
    }
}

/// The topic that the placement service keeps for a request to create
/// one, if it keeps what the request carries.
pub open spec fn kept_topic(request: CreateTopicRequestView) -> TopicView {
    TopicView { topic_name: request.topic_name, content: request.content }
}

/// A topic that was saved is found again. Where the placement service
/// answers a lookup with the topic that it keeps for the request of a
/// save, the lookup yields a topic with the name and the content that were
/// saved. What the service makes of a save is its own affair.
pub proof fn lemma_saved_topic_is_found(
    storage: TopicStorage,
    topic_name: Seq<char>,
    content: Seq<u8>,
    request: CreateTopicRequest,
    entries: Vec<TopicEntry>,
    found: Result<Option<Topic>, RobustMQError>,
)
    requires
        request@ == (CreateTopicRequestView {
            cluster_name: storage.spec_cluster_name(),
            topic_name,
            content,
        }),
        entries@.len() > 0,
        entries@[0] matches Ok(first) && first@ == kept_topic(request@),
        is_lookup_of(Ok(entries), found),
    ensures
        found matches Ok(Some(topic)) && topic@ == (TopicView { topic_name, content }),
{
}

} // verus!
