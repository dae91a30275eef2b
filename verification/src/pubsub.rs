//! Flood publish/subscribe: every message goes to every connected peer that
//! has subscribed to one of its topics, once.

use vstd::prelude::*;
use std::collections::hash_map::DefaultHasher;
use std::collections::VecDeque;
use cuckoofilter::{CuckooError, CuckooFilter};
use smallvec::SmallVec;
use crate::block::{push_blob, push_digest, spec_blob, spec_digests_bytes, digests_bytes, copy_bytes};
use crate::digest::Digest;

verus! {

/// `cuckoofilter::CuckooFilter`: an approximate set.
#[verifier::external_type_specification]
#[verifier::external_body]
#[verifier::reject_recursive_types(H)]
pub struct ExCuckooFilter<H>(CuckooFilter<H>);

/// `cuckoofilter::CuckooError`: the filter is full.
#[verifier::external_type_specification]
#[verifier::external_body]
pub struct ExCuckooError(CuckooError);

/// A list of topics: a `smallvec::SmallVec` that keeps up to eight
/// digests in place.
#[verifier::external_body]
pub struct TopicList {
    inner: SmallVec<[Digest; 8]>,
}

/// The topics of this node: a `smallvec::SmallVec` that keeps up to
/// sixteen topics in place.
#[verifier::external_body]
pub struct OwnTopics {
    inner: SmallVec<[Topic; 16]>,
}

/// The byte strings of which the filter says that it holds them.
pub uninterp spec fn filter_reports(f: CuckooFilter<DefaultHasher>) -> Set<Seq<u8>>;

/// The digests that the list holds, in order.
pub uninterp spec fn list_items(l: TopicList) -> Seq<Digest>;

/// The digests of the topics that the list holds, in order.
pub uninterp spec fn own_topics(l: OwnTopics) -> Seq<Digest>;

/// `SmallVec::new`: an empty list of topics.
#[verifier::external_body]
pub(crate) fn topics_new() -> (l: OwnTopics)
    ensures
        own_topics(l) == Seq::<Digest>::empty(),
{
    OwnTopics { inner: SmallVec::new() }
}

/// `SmallVec::len`: the number of topics.
#[verifier::external_body]
pub(crate) fn topics_len(l: &OwnTopics) -> (n: usize)
    ensures
        n == own_topics(*l).len(),
{
    l.inner.len()
}

/// Indexing a `SmallVec`: the digest of the topic at a place. The outside
/// code panics past the end.
#[verifier::external_body]
pub(crate) fn topics_hash(l: &OwnTopics, i: usize) -> (d: Digest)
    requires
        i < own_topics(*l).len(),
    ensures
        d == own_topics(*l)[i as int],
{
    l.inner[i].hash
}

/// `SmallVec::push`: the topic stands behind the others.
#[verifier::external_body]
pub(crate) fn topics_push(l: &mut OwnTopics, topic: Topic)
    ensures
        own_topics(*final(l)) == own_topics(*old(l)).push(topic.hash),
{
    l.inner.push(topic)
}

/// `CuckooFilter::new`: a filter that reports nothing.
#[verifier::external_body]
pub(crate) fn filter_new() -> (f: CuckooFilter<DefaultHasher>)
    ensures
        filter_reports(f) == Set::<Seq<u8>>::empty(),
{
    CuckooFilter::new()
}

/// `CuckooFilter::test_and_add` on a byte string. `Ok(false)`: the filter
/// reported the string already, and is as it was. `Ok(true)`: it did not
/// report the string, and now reports it beside all that it reported.
/// `Err`: it did not report the string; the filter was full, so that one
/// of its items has been dropped for the new one, and nothing is claimed
/// of what it reports now.
#[verifier::external_body]
pub(crate) fn filter_test_and_add(f: &mut CuckooFilter<DefaultHasher>, item: &[u8]) -> (r: Result<
    bool,
    CuckooError,
>)
    ensures
        r == Ok::<bool, CuckooError>(false) <==> filter_reports(*old(f)).contains(item@),
        r == Ok::<bool, CuckooError>(false) ==> filter_reports(*final(f)) == filter_reports(*old(f)),
        r == Ok::<bool, CuckooError>(true) ==> filter_reports(*old(f)).subset_of(
            filter_reports(*final(f)),
        ) && filter_reports(*final(f)).contains(item@),
{
    f.test_and_add(item)
}

/// `SmallVec::new`: an empty list.
#[verifier::external_body]
pub(crate) fn list_new() -> (l: TopicList)
    ensures
        list_items(l) == Seq::<Digest>::empty(),
{
    TopicList { inner: SmallVec::new() }
}

/// `SmallVec::len`: the number of items.
#[verifier::external_body]
pub(crate) fn list_len(l: &TopicList) -> (n: usize)
    ensures
        n == list_items(*l).len(),
{
    l.inner.len()
}

/// Indexing a `SmallVec`: the item at a place. The outside code panics
/// past the end.
#[verifier::external_body]
pub(crate) fn list_get(l: &TopicList, i: usize) -> (d: Digest)
    requires
        i < list_items(*l).len(),
    ensures
        d == list_items(*l)[i as int],
{
    l.inner[i]
}

/// `SmallVec::push`: the item stands behind the others.
#[verifier::external_body]
pub(crate) fn list_push(l: &mut TopicList, d: Digest)
    ensures
        list_items(*final(l)) == list_items(*old(l)).push(d),
{
    l.inner.push(d)
}

/// `SmallVec::remove`: the item at a place leaves and the items behind it
/// move up. The outside code panics past the end.
#[verifier::external_body]
pub(crate) fn list_remove(l: &mut TopicList, i: usize) -> (d: Digest)
    requires
        i < list_items(*old(l)).len(),
    ensures
        d == list_items(*old(l))[i as int],
        list_items(*final(l)) == list_items(*old(l)).remove(i as int),
{
    l.inner.remove(i)
}

/// `CuckooFilter::add` on a byte string. `Ok`: the filter reports the
/// string beside all that it reported. `Err`: the filter was full, so that
/// one of its items has been dropped for the new one, and nothing is
/// claimed of what it reports now.
#[verifier::external_body]
pub(crate) fn filter_add(f: &mut CuckooFilter<DefaultHasher>, item: &[u8]) -> (r: Result<
    (),
    CuckooError,
>)
    ensures
        r is Ok ==> filter_reports(*old(f)).subset_of(filter_reports(*final(f))) && filter_reports(
            *final(f),
        ).contains(item@),
{
    f.add(item)
}

/// `rand::random` for an array of 20 bytes: 20 bytes of which nothing is
/// claimed but their number.
#[verifier::external_body]
pub(crate) fn random_bytes_20() -> (r: Vec<u8>)
    ensures
        r@.len() == 20,
{
    rand::random::<[u8; 20]>().to_vec()
}

/// The name of a peer.
#[derive(Clone, Copy, Debug, PartialEq, Eq, Structural)]
pub struct PeerId {
    pub id: Digest,
}

/// A topic: its name, and the digest of the name, by which peers speak of it.
#[derive(Debug)]
pub struct Topic {
    pub descriptor: Vec<u8>,
    pub hash: Digest,
}

impl Topic {
    /// The topic of a name.
    pub fn new(descriptor: Vec<u8>) -> (r: Topic)
        ensures
            r.descriptor@ == descriptor@,
            r.hash == Digest::spec_digest(descriptor@),
    {
        let hash = Digest::digest(descriptor.as_slice());
        Topic { descriptor, hash }
    }

    /// The digest by which peers speak of the topic.
    pub fn hash(&self) -> (r: Digest)
        ensures
            r == self.hash,
    {
        self.hash
    }
}

/// Whether a peer takes up a topic or gives it up.
#[derive(Clone, Copy, Debug, PartialEq, Eq, Structural)]
pub enum FloodsubSubscriptionAction {
    Subscribe,
    Unsubscribe,
}

/// What a peer says of one topic.
#[derive(Clone, Copy, Debug, PartialEq, Eq, Structural)]
pub struct FloodsubSubscription {
    pub action: FloodsubSubscriptionAction,
    pub topic: Digest,
}

/// A published message.
#[derive(Debug)]
pub struct FloodsubMessage {
    /// The peer that published the message.
    pub source: PeerId,
    pub data: Vec<u8>,
    /// What tells the messages of one source apart.
    pub sequence_number: Vec<u8>,
    pub topics: Vec<Digest>,
}

/// What a message says.
pub struct MessageView {
    pub source: PeerId,
    pub data: Seq<u8>,
    pub sequence_number: Seq<u8>,
    pub topics: Seq<Digest>,
}

impl View for FloodsubMessage {
    type V = MessageView;

    open spec fn view(&self) -> MessageView {
        MessageView {
            source: self.source,
            data: self.data@,
            sequence_number: self.sequence_number@,
            topics: self.topics@,
        }
    }
}

/// What a list of messages says.
pub open spec fn spec_messages(ms: Seq<FloodsubMessage>) -> Seq<MessageView> {
    Seq::new(ms.len(), |i: int| ms[i]@)
}

/// What goes over the wire between two peers: messages and subscriptions.
#[derive(Debug)]
pub struct FloodsubRpc {
    pub messages: Vec<FloodsubMessage>,
    pub subscriptions: Vec<FloodsubSubscription>,
}

/// What a packet says.
pub struct RpcView {
    pub messages: Seq<MessageView>,
    pub subscriptions: Seq<FloodsubSubscription>,
}

impl View for FloodsubRpc {
    type V = RpcView;

    open spec fn view(&self) -> RpcView {
        RpcView { messages: spec_messages(self.messages@), subscriptions: self.subscriptions@ }
    }
}

/// Event that can happen on the floodsub behaviour.
#[derive(Debug)]
pub enum FloodsubEvent {
    /// A message has been received.
    Message(FloodsubMessage),
    /// A remote subscribed to a topic.
    Subscribed { peer_id: PeerId, topic: Digest },
    /// A remote unsubscribed from a topic.
    Unsubscribed { peer_id: PeerId, topic: Digest },
    /// The protocol is enabled for substreams from the peer.
    EnabledIncoming { peer_id: PeerId },
    /// The protocol is enabled for substreams to the peer.
    EnabledOutgoing { peer_id: PeerId },
    /// The protocol is disabled for the peer.
    Disabled { peer_id: PeerId },
}

/// Event passed to the protocol handler.
#[derive(Debug)]
pub enum FloodsubSendEvent {
    /// Enable pubsub substreams from peer.
    EnableIncoming,
    /// Enable pubsub substreams to peer.
    EnableOutgoing,
    /// Disable floodsub with peer, and close all existing substreams.
    Disable,
    /// Publish message.
    Publish(FloodsubRpc),
}

/// Event received from the handler.
#[derive(Debug)]
pub enum FloodsubRecvEvent {
    EnabledIncoming,
    EnabledOutgoing,
    Disabled,
    Message(FloodsubRpc),
}

/// What the behaviour asks of the swarm.
#[derive(Debug)]
pub enum Command {
    /// Hand the event to the user.
    GenerateEvent(FloodsubEvent),
    /// Hand the event to the handler of the peer.
    SendEvent { peer_id: PeerId, event: FloodsubSendEvent },
}

/// What a command says.
pub enum CommandView {
    Message(MessageView),
    Subscribed { peer_id: PeerId, topic: Digest },
    Unsubscribed { peer_id: PeerId, topic: Digest },
    EnabledIncoming { peer_id: PeerId },
    EnabledOutgoing { peer_id: PeerId },
    Disabled { peer_id: PeerId },
    EnableIncoming { peer_id: PeerId },
    EnableOutgoing { peer_id: PeerId },
    Disable { peer_id: PeerId },
    Publish { peer_id: PeerId, rpc: RpcView },
}

impl View for Command {
    type V = CommandView;

    open spec fn view(&self) -> CommandView {
        match self {
            Command::GenerateEvent(e) => match e {
                FloodsubEvent::Message(m) => CommandView::Message(m@),
                FloodsubEvent::Subscribed { peer_id, topic } => CommandView::Subscribed {
                    peer_id: *peer_id,
                    topic: *topic,
                },
                FloodsubEvent::Unsubscribed { peer_id, topic } => CommandView::Unsubscribed {
                    peer_id: *peer_id,
                    topic: *topic,
                },
                FloodsubEvent::EnabledIncoming { peer_id } => CommandView::EnabledIncoming {
                    peer_id: *peer_id,
                },
                FloodsubEvent::EnabledOutgoing { peer_id } => CommandView::EnabledOutgoing {
                    peer_id: *peer_id,
                },
                FloodsubEvent::Disabled { peer_id } => CommandView::Disabled { peer_id: *peer_id },
            },
            Command::SendEvent { peer_id, event } => match event {
                FloodsubSendEvent::EnableIncoming => CommandView::EnableIncoming { peer_id: *peer_id },
                FloodsubSendEvent::EnableOutgoing => CommandView::EnableOutgoing { peer_id: *peer_id },
                FloodsubSendEvent::Disable => CommandView::Disable { peer_id: *peer_id },
                FloodsubSendEvent::Publish(rpc) => CommandView::Publish { peer_id: *peer_id, rpc: rpc@ },
            },
        }
    }
}

/// What a queue of commands says.
pub open spec fn spec_commands(cs: Seq<Command>) -> Seq<CommandView> {
    Seq::new(cs.len(), |i: int| cs[i]@)
}

/// A connected peer and the topics that it has subscribed to.
pub struct PeerEntry {
    pub peer_id: PeerId,
    pub topics: TopicList,
}

/// What the behaviour keeps, as the contracts speak of it.
pub struct FloodsubModel {
    /// The commands that wait to be polled.
    pub events: Seq<CommandView>,
    pub local_peer_id: PeerId,
    /// The connected peers, each with its topics.
    pub peers: Seq<(PeerId, Seq<Digest>)>,
    /// The topics that this node has subscribed to.
    pub topics: Seq<Digest>,
}

/// The flood publish/subscribe behaviour of one node.
pub struct Floodsub {
    /// Events that need to be yielded to the outside when polling.
    pub events: VecDeque<Command>,
    /// Peer id of the local node. Used for the source of the messages that we publish.
    pub local_peer_id: PeerId,
    /// The peers the network is connected to, and the topics that they are subscribed to.
    pub connected_peers: Vec<PeerEntry>,
    /// The topics we are subscribed to.
    pub subscribed_topics: OwnTopics,
    /// The messages that we have seen, so that none is dispatched twice.
    pub received: CuckooFilter<DefaultHasher>,
}

/// The peers with their topics.
pub open spec fn spec_peers(ps: Seq<PeerEntry>) -> Seq<(PeerId, Seq<Digest>)> {
    Seq::new(ps.len(), |i: int| (ps[i].peer_id, list_items(ps[i].topics)))
}

impl View for Floodsub {
    type V = FloodsubModel;

    open spec fn view(&self) -> FloodsubModel {
        FloodsubModel {
            events: spec_commands(self.events@),
            local_peer_id: self.local_peer_id,
            peers: spec_peers(self.connected_peers@),
            topics: own_topics(self.subscribed_topics),
        }
    }
}

/// Whether two lists of topics have a topic in common.
pub open spec fn spec_intersect(a: Seq<Digest>, b: Seq<Digest>) -> bool {
    exists|i: int| 0 <= i < a.len() && b.contains(#[trigger] a[i])
}

/// The packet that tells of one subscription.
pub open spec fn spec_subscribe_rpc(topic: Digest) -> RpcView {
    RpcView {
        messages: Seq::empty(),
        subscriptions: seq![
            FloodsubSubscription { action: FloodsubSubscriptionAction::Subscribe, topic },
        ],
    }
}

/// The packet that carries one message.
pub open spec fn spec_message_rpc(m: MessageView) -> RpcView {
    RpcView { messages: seq![m], subscriptions: Seq::empty() }
}

/// The commands that tell each of the peers of a subscription.
pub open spec fn spec_announce(peers: Seq<(PeerId, Seq<Digest>)>, topic: Digest) -> Seq<CommandView> {
    Seq::new(
        peers.len(),
        |i: int| CommandView::Publish { peer_id: peers[i].0, rpc: spec_subscribe_rpc(topic) },
    )
}

/// The commands that tell one peer of each of the topics.
pub open spec fn spec_tell(peer_id: PeerId, topics: Seq<Digest>) -> Seq<CommandView> {
    Seq::new(
        topics.len(),
        |i: int| CommandView::Publish { peer_id, rpc: spec_subscribe_rpc(topics[i]) },
    )
}

/// The commands that send a message to the peers that have subscribed to
/// one of its topics, the peer `except` left out.
pub open spec fn spec_flood(
    peers: Seq<(PeerId, Seq<Digest>)>,
    m: MessageView,
    except: Option<PeerId>,
) -> Seq<CommandView>
    decreases peers.len(),
{
    if peers.len() == 0 {
        Seq::empty()
    } else {
        let rest = spec_flood(peers.drop_last(), m, except);
        let p = peers.last();
        if except != Some(p.0) && spec_intersect(p.1, m.topics) {
            rest.push(CommandView::Publish { peer_id: p.0, rpc: spec_message_rpc(m) })
        } else {
            rest
        }
    }
}

/// Whether the peer is connected.
pub open spec fn spec_connected(peers: Seq<(PeerId, Seq<Digest>)>, peer_id: PeerId) -> bool {
    exists|i: int| 0 <= i < peers.len() && (#[trigger] peers[i]).0 == peer_id
}

/// Whether no peer stands twice among the connected ones.
pub open spec fn spec_peers_distinct(peers: Seq<(PeerId, Seq<Digest>)>) -> bool {
    forall|i: int, j: int|
        0 <= i < peers.len() && 0 <= j < peers.len() && i != j ==> (#[trigger] peers[i]).0 != (
        #[trigger] peers[j]).0
}

impl FloodsubModel {
    /// The state after a subscription of this node to a topic, and whether
    /// the topic is new: a new topic is told to every peer.
    pub open spec fn subscribe(self, topic: Digest) -> (FloodsubModel, bool) {
        if self.topics.contains(topic) {
            (self, false)
        } else {
            (
                FloodsubModel {
                    events: self.events + spec_announce(self.peers, topic),
                    topics: self.topics.push(topic),
                    ..self
                },
                true,
            )
        }
    }

    /// The state after this node has published a message: where the node
    /// has subscribed to one of its topics, the message goes to every peer
    /// that has done so too.
    pub open spec fn publish(self, m: MessageView) -> FloodsubModel {
        if !spec_intersect(self.topics, m.topics) {
            self
        } else {
            FloodsubModel { events: self.events + spec_flood(self.peers, m, None), ..self }
        }
    }

    /// The state after substreams to a peer have been asked for: a
    /// connected peer is told so, and is told of every topic of this node.
    pub open spec fn enable_outgoing(self, peer_id: PeerId) -> FloodsubModel {
        if !spec_connected(self.peers, peer_id) {
            self
        } else {
            FloodsubModel {
                events: self.events.push(CommandView::EnableOutgoing { peer_id }) + spec_tell(
                    peer_id,
                    self.topics,
                ),
                ..self
            }
        }
    }

    /// The state after substreams from a peer have been asked for.
    pub open spec fn enable_incoming(self, peer_id: PeerId) -> FloodsubModel {
        if !spec_connected(self.peers, peer_id) {
            self
        } else {
            FloodsubModel {
                events: self.events.push(CommandView::EnableIncoming { peer_id }),
                ..self
            }
        }
    }

    /// The state after the protocol has been switched off for a peer.
    pub open spec fn disable(self, peer_id: PeerId) -> FloodsubModel {
        FloodsubModel { events: self.events.push(CommandView::Disable { peer_id }), ..self }
    }

    /// The state after a peer has connected: it has no topics yet.
    pub open spec fn connected(self, peer_id: PeerId) -> FloodsubModel {
        FloodsubModel {
            peers: if spec_connected(self.peers, peer_id) {
                self.peers.update(spec_peer_place(self.peers, peer_id), (peer_id, Seq::empty()))
            } else {
                self.peers.push((peer_id, Seq::empty()))
            },
            ..self
        }
    }

    /// The state after a peer has disconnected.
    pub open spec fn disconnected(self, peer_id: PeerId) -> FloodsubModel {
        FloodsubModel {
            peers: if spec_connected(self.peers, peer_id) {
                self.peers.remove(spec_peer_place(self.peers, peer_id))
            } else {
                self.peers
            },
            ..self
        }
    }
}

/// The place of a connected peer.
pub open spec fn spec_peer_place(peers: Seq<(PeerId, Seq<Digest>)>, peer_id: PeerId) -> int {
    choose|i: int| 0 <= i < peers.len() && (#[trigger] peers[i]).0 == peer_id
}

/// Whether the list holds the digest.
pub fn list_contains(l: &TopicList, d: &Digest) -> (r: bool)
    ensures
        r == list_items(*l).contains(*d),
{
    let mut i: usize = 0;
    let n = list_len(l);
    while i < n
        invariant
            0 <= i <= n == list_items(*l).len(),
            forall|k: int| 0 <= k < i ==> list_items(*l)[k] != *d,
        decreases n - i,
    {
        if list_get(l, i) == *d {
            return true;
        }
        i = i + 1;
    }
    false
}

/// The place of the first item of the list that is the digest.
pub fn list_position(l: &TopicList, d: &Digest) -> (r: Option<usize>)
    ensures
        r matches Some(p) ==> p < list_items(*l).len() && p == spec_first(list_items(*l), *d),
        r is None ==> spec_first(list_items(*l), *d) == -1,
{
    let mut i: usize = 0;
    let n = list_len(l);
    while i < n
        invariant
            0 <= i <= n == list_items(*l).len(),
            forall|k: int| 0 <= k < i ==> list_items(*l)[k] != *d,
        decreases n - i,
    {
        if list_get(l, i) == *d {
            proof {
                lemma_first_place(list_items(*l), *d, i as int);
            }
            return Some(i);
        }
        i = i + 1;
    }
    proof {
        lemma_first_absent(list_items(*l), *d);
    }
    None
}

/// Where a digest stands at a place of a list and at no place before it,
/// it is found at that place.
pub proof fn lemma_first_place(s: Seq<Digest>, d: Digest, i: int)
    requires
        0 <= i < s.len(),
        s[i] == d,
        forall|k: int| 0 <= k < i ==> s[k] != d,
    ensures
        spec_first(s, d) == i,
    decreases s.len(),
{
    if s.len() > 0 && i < s.len() - 1 {
        assert(s.drop_last()[i] == s[i]);
        lemma_first_place(s.drop_last(), d, i);
    } else {
        assert forall|k: int| 0 <= k < s.drop_last().len() implies s.drop_last()[k] != d by {
            assert(s.drop_last()[k] == s[k]);
        }
        lemma_first_absent(s.drop_last(), d);
    }
}

/// A digest that stands nowhere in a list is not found.
pub proof fn lemma_first_absent(s: Seq<Digest>, d: Digest)
    requires
        forall|k: int| 0 <= k < s.len() ==> s[k] != d,
    ensures
        spec_first(s, d) == -1,
    decreases s.len(),
{
    if s.len() > 0 {
        assert forall|k: int| 0 <= k < s.drop_last().len() implies s.drop_last()[k] != d by {
            assert(s.drop_last()[k] == s[k]);
        }
        lemma_first_absent(s.drop_last(), d);
        assert(s.last() == s[s.len() - 1]);
    }
}

/// The first place of a digest in a list; -1 where it stands nowhere.
pub open spec fn spec_first(s: Seq<Digest>, d: Digest) -> int
    decreases s.len(),
{
    if s.len() == 0 {
        -1
    } else if spec_first(s.drop_last(), d) >= 0 {
        spec_first(s.drop_last(), d)
    } else if s.last() == d {
        s.len() - 1
    } else {
        -1
    }
}

/// What publishing a message gave: the sequence number that was drawn for
/// the message, and whether the filter has taken note of the message.
#[derive(Debug)]
pub struct Published {
    pub sequence_number: Vec<u8>,
    pub noted: bool,
}

/// What the filter of seen messages answers when it is asked of a
/// message and told to note it.
#[derive(Clone, Copy, Debug, PartialEq, Eq, Structural)]
pub enum FilterAnswer {
    /// The filter reported the message already.
    Known,
    /// The filter did not report the message, and has noted it.
    Added,
    /// The filter did not report the message; it was full, and has dropped
    /// another message for this one.
    Full,
}

/// What the filter said of the messages of a packet: of each message
/// whether it was new, and whether the filter was full at one of them.
#[derive(Debug)]
pub struct Dispatch {
    pub fresh: Vec<bool>,
    pub overflowed: bool,
}

/// The message that this node makes of topics and data.
pub open spec fn spec_own_message(
    source: PeerId,
    topics: Seq<Digest>,
    data: Seq<u8>,
    sequence_number: Seq<u8>,
) -> MessageView {
    MessageView { source, data, sequence_number, topics }
}

/// What holds between the filter before and after the messages of a
/// packet, where it was never full: it reports what it reported, and
/// every message of the packet; a message that came out as new was not
/// reported before; and a message that was reported before, or that came
/// out as new earlier in the packet, does not come out as new.
pub open spec fn spec_filtered(
    before: Set<Seq<u8>>,
    after: Set<Seq<u8>>,
    msgs: Seq<MessageView>,
    fresh: Seq<bool>,
) -> bool {
    &&& before.subset_of(after)
    &&& forall|k: int| 0 <= k < msgs.len() ==> after.contains(spec_message_key(#[trigger] msgs[k]))
    &&& forall|k: int|
        0 <= k < msgs.len() && k < fresh.len() && #[trigger] fresh[k] ==> after.contains(
            spec_message_key(msgs[k]),
        ) && !before.contains(spec_message_key(msgs[k]))
    &&& forall|j: int, k: int|
        0 <= j < k < msgs.len() && k < fresh.len() && #[trigger] fresh[j] && spec_message_key(msgs[j])
            == spec_message_key(msgs[k]) ==> !#[trigger] fresh[k]
}

/// Whether a list of topics and the topics of a message have a topic in
/// common.
pub fn intersect_list(l: &TopicList, topics: &Vec<Digest>) -> (r: bool)
    ensures
        r == spec_intersect(list_items(*l), topics@),
{
    let n = list_len(l);
    let mut i: usize = 0;
    while i < n
        invariant
            0 <= i <= n == list_items(*l).len(),
            forall|k: int| 0 <= k < i ==> !topics@.contains(#[trigger] list_items(*l)[k]),
        decreases n - i,
    {
        let t = list_get(l, i);
        if crate::escrow::contains_digest(topics, &t) {
            return true;
        }
        i = i + 1;
    }
    false
}

/// Whether the topics of this node and the topics of a message have a
/// topic in common.
pub fn intersect_topics(ts: &OwnTopics, topics: &Vec<Digest>) -> (r: bool)
    ensures
        r == spec_intersect(own_topics(*ts), topics@),
{
    let n = topics_len(ts);
    let mut i: usize = 0;
    while i < n
        invariant
            0 <= i <= n == own_topics(*ts).len(),
            forall|k: int| 0 <= k < i ==> !topics@.contains(#[trigger] own_topics(*ts)[k]),
        decreases n - i,
    {
        let h = topics_hash(ts, i);
        if crate::escrow::contains_digest(topics, &h) {
            return true;
        }
        i = i + 1;
    }
    false
}

/// A copy of a list of digests.
pub fn copy_digests(v: &Vec<Digest>) -> (r: Vec<Digest>)
    ensures
        r@ == v@,
{
    let mut out: Vec<Digest> = Vec::new();
    let mut i: usize = 0;
    while i < v.len()
        invariant
            0 <= i <= v.len(),
            out@ == v@.take(i as int),
        decreases v.len() - i,
    {
        out.push(v[i]);
        assert(v@.take(i + 1) =~= v@.take(i as int).push(v@[i as int]));
        i = i + 1;
    }
    assert(v@.take(i as int) =~= v@);
    out
}

/// The bytes under which the filter keeps a message: the source, and
/// behind their lengths the sequence number, the data and the topics.
pub open spec fn spec_message_key(m: MessageView) -> Seq<u8> {
    m.source.id.spec_bytes() + spec_blob(m.sequence_number) + spec_blob(m.data) + spec_blob(
        spec_digests_bytes(m.topics),
    )
}

impl FloodsubMessage {
    /// A copy of the message: it says the same.
    pub fn duplicate(&self) -> (r: FloodsubMessage)
        ensures
            r@ == self@,
    {
        FloodsubMessage {
            source: self.source,
            data: copy_bytes(&self.data),
            sequence_number: copy_bytes(&self.sequence_number),
            topics: copy_digests(&self.topics),
        }
    }

    /// The bytes under which the filter keeps the message.
    pub fn key(&self) -> (r: Vec<u8>)
        ensures
            r@ == spec_message_key(self@),
    {
        let mut buf: Vec<u8> = Vec::new();
        push_digest(&mut buf, &self.source.id);
        push_blob(&mut buf, &self.sequence_number);
        push_blob(&mut buf, &self.data);
        let t = digests_bytes(&self.topics);
        push_blob(&mut buf, &t);
        assert(buf@ =~= spec_message_key(self@));
        buf
    }
}

impl Floodsub {
    /// What holds of every behaviour: no peer stands twice among the
    /// connected ones.
    pub open spec fn wf(&self) -> bool {
        spec_peers_distinct(self@.peers)
    }

    /// Creates a `Floodsub`.
    pub fn new(local_peer_id: PeerId) -> (r: Floodsub)
        ensures
            r.wf(),
            r@.events.len() == 0,
            r@.peers.len() == 0,
            r@.topics.len() == 0,
            r@.local_peer_id == local_peer_id,
            filter_reports(r.received) == Set::<Seq<u8>>::empty(),
    {
        Floodsub {
            events: VecDeque::new(),
            local_peer_id,
            connected_peers: Vec::new(),
            subscribed_topics: topics_new(),
            received: filter_new(),
        }
    }

    /// The place of a connected peer.
    #[verifier::loop_isolation(false)]
    pub fn peer_place(&self, peer_id: &PeerId) -> (r: Option<usize>)
        requires
            self.wf(),
        ensures
            r is Some <==> spec_connected(self@.peers, *peer_id),
            r matches Some(i) ==> i < self@.peers.len() && i == spec_peer_place(self@.peers, *peer_id),
    {
        let mut i: usize = 0;
        while i < self.connected_peers.len()
            invariant
                0 <= i <= self.connected_peers@.len(),
                forall|k: int| 0 <= k < i ==> (#[trigger] self@.peers[k]).0 != *peer_id,
            decreases self.connected_peers@.len() - i,
        {
            if self.connected_peers[i].peer_id == *peer_id {
                proof {
                    assert(self@.peers[i as int].0 == *peer_id);
                    let c = spec_peer_place(self@.peers, *peer_id);
                    assert(self@.peers[c].0 == *peer_id);
                }
                return Some(i);
            }
            assert(self@.peers[i as int].0 == self.connected_peers@[i as int].peer_id);
            i = i + 1;
        }
        None
    }

    /// Puts a command at the end of the queue.
    fn push(&mut self, c: Command)
        ensures
            final(self)@ == (FloodsubModel { events: old(self)@.events.push(c@), ..old(self)@ }),
            final(self).received == old(self).received,
            final(self).connected_peers == old(self).connected_peers,
    {
        self.events.push_back(c);
        assert(spec_commands(self.events@) =~= spec_commands(old(self).events@).push(c@));
    }

    /// The digests of the topics that this node has subscribed to, in the
    /// order in which it did.
    pub fn topics(&self) -> (r: Vec<Digest>)
        ensures
            r@ == self@.topics,
    {
        let n = topics_len(&self.subscribed_topics);
        let mut out: Vec<Digest> = Vec::new();
        let mut i: usize = 0;
        while i < n
            invariant
                0 <= i <= n == self@.topics.len(),
                out@ == self@.topics.take(i as int),
            decreases n - i,
        {
            out.push(topics_hash(&self.subscribed_topics, i));
            assert(self@.topics.take(i + 1) =~= self@.topics.take(i as int).push(
                self@.topics[i as int],
            ));
            i = i + 1;
        }
        assert(self@.topics.take(i as int) =~= self@.topics);
        out
    }

    /// Subscribes to a topic.
    ///
    /// Returns true if the subscription worked. Returns false if we were already subscribed.
    #[verifier::loop_isolation(false)]
    pub fn subscribe(&mut self, topic: Topic) -> (r: bool)
        requires
            old(self).wf(),
        ensures
            final(self).wf(),
            final(self)@ == old(self)@.subscribe(topic.hash).0,
            r == old(self)@.subscribe(topic.hash).1,
            final(self).received == old(self).received,
    {
        let h = topic.hash;
        let count = topics_len(&self.subscribed_topics);
        let mut k: usize = 0;
        while k < count
            invariant
                0 <= k <= count == self@.topics.len(),
                forall|j: int| 0 <= j < k ==> self@.topics[j] != h,
            decreases count - k,
        {
            if topics_hash(&self.subscribed_topics, k) == h {
                assert(self@.topics[k as int] == h);
                return false;
            }
            k = k + 1;
        }
        let ghost peers = self@.peers;
        let ghost before = self@;
        let mut i: usize = 0;
        while i < self.connected_peers.len()
            invariant
                0 <= i <= self.connected_peers@.len(),
                self@.peers == peers,
                peers == before.peers,
                self@ == (FloodsubModel {
                    events: before.events + spec_announce(peers, h).take(i as int),
                    ..before
                }),
                self.received == old(self).received,
            decreases self.connected_peers@.len() - i,
        {
            let peer_id = self.connected_peers[i].peer_id;
            let sub = FloodsubSubscription { action: FloodsubSubscriptionAction::Subscribe, topic: h };
            let mut subscriptions: Vec<FloodsubSubscription> = Vec::new();
            subscriptions.push(sub);
            let rpc = FloodsubRpc { messages: Vec::new(), subscriptions };
            proof {
                assert(rpc@.messages =~= Seq::<MessageView>::empty());
                assert(rpc@.subscriptions =~= seq![sub]);
                assert(peers[i as int].0 == peer_id);
            }
            let ghost ev = self@.events;
            self.push(Command::SendEvent { peer_id, event: FloodsubSendEvent::Publish(rpc) });
            proof {
                assert(spec_announce(peers, h).take(i + 1) =~= spec_announce(peers, h).take(
                    i as int,
                ).push(spec_announce(peers, h)[i as int]));
                assert(self@.events =~= before.events + spec_announce(peers, h).take(i + 1));
            }
            i = i + 1;
        }
        proof {
            assert(spec_announce(peers, h).take(i as int) =~= spec_announce(peers, h));
        }
        let ghost topics = self@.topics;
        topics_push(&mut self.subscribed_topics, topic);
        proof {
            assert(self@.topics =~= topics.push(h));
        }
        true
    }

    /// Publishes a message that this node has made: where the node has
    /// subscribed to one of its topics, the filter takes note of the
    /// message and the message goes to every peer that has subscribed to
    /// one of its topics.
    /// Says whether the filter has taken note: not where the node has not
    /// subscribed, nor where the filter is full.
    #[verifier::loop_isolation(false)]
    pub fn publish_message(&mut self, message: FloodsubMessage) -> (noted: bool)
        requires
            old(self).wf(),
        ensures
            final(self).wf(),
            final(self)@ == old(self)@.publish(message@),
            !spec_intersect(old(self)@.topics, message@.topics) ==> !noted && final(self).received
                == old(self).received,
            noted ==> filter_reports(old(self).received).subset_of(filter_reports(final(self).received))
                && filter_reports(final(self).received).contains(spec_message_key(message@)),
    {
        if !intersect_topics(&self.subscribed_topics, &message.topics) {
            return false;
        }
        let key = message.key();
        let noted = filter_add(&mut self.received, key.as_slice()).is_ok();
        let ghost noted_filter = self.received;
        let ghost before = self@;
        let ghost peers = before.peers;
        let ghost m = message@;
        let mut i: usize = 0;
        proof {
            assert(peers.take(0) =~= Seq::<(PeerId, Seq<Digest>)>::empty());
            assert(before.events + Seq::<CommandView>::empty() =~= before.events);
        }
        while i < self.connected_peers.len()
            invariant
                0 <= i <= self.connected_peers@.len(),
                self@.peers == peers,
                peers == before.peers,
                m == message@,
                self.received == noted_filter,
                self@ == (FloodsubModel {
                    events: before.events + spec_flood(peers.take(i as int), m, None),
                    ..before
                }),
            decreases self.connected_peers@.len() - i,
        {
            proof {
                assert(peers.take(i + 1).drop_last() =~= peers.take(i as int));
                assert(peers.take(i + 1).last() == peers[i as int]);
                assert(peers[i as int] == (
                    self.connected_peers@[i as int].peer_id,
                    list_items(self.connected_peers@[i as int].topics),
                ));
            }
            if intersect_list(&self.connected_peers[i].topics, &message.topics) {
                let peer_id = self.connected_peers[i].peer_id;
                let copy = message.duplicate();
                let mut messages: Vec<FloodsubMessage> = Vec::new();
                messages.push(copy);
                let rpc = FloodsubRpc { subscriptions: Vec::new(), messages };
                proof {
                    assert(rpc@.messages =~= seq![m]);
                    assert(rpc@.subscriptions =~= Seq::<FloodsubSubscription>::empty());
                }
                self.push(Command::SendEvent { peer_id, event: FloodsubSendEvent::Publish(rpc) });
                proof {
                    assert(self@.events =~= before.events + spec_flood(peers.take(i + 1), m, None));
                }
            }
            i = i + 1;
        }
        proof {
            assert(peers.take(i as int) =~= peers);
        }
        noted
    }

    /// Publishes a message with multiple topics to the network, under a
    /// sequence number drawn at random, which is returned.
    ///
    /// > **Note**: Doesn't do anything if we're not subscribed to any of the topics.
    pub fn publish_many(&mut self, topics: Vec<Digest>, data: Vec<u8>) -> (r: Published)
        requires
            old(self).wf(),
        ensures
            final(self).wf(),
            r.sequence_number@.len() == 20,
            final(self)@ == old(self)@.publish(
                spec_own_message(old(self)@.local_peer_id, topics@, data@, r.sequence_number@),
            ),
            !spec_intersect(old(self)@.topics, topics@) ==> !r.noted && final(self).received == old(self).received,
            r.noted ==> filter_reports(old(self).received).subset_of(
                filter_reports(final(self).received),
            ) && filter_reports(final(self).received).contains(
                spec_message_key(
                    spec_own_message(old(self)@.local_peer_id, topics@, data@, r.sequence_number@),
                ),
            ),
    {
        // If the sequence numbers are predictable, then an attacker could flood the network
        // with packets with the predetermined sequence numbers and absorb our legitimate
        // messages. We therefore use a random number.
        let sequence_number = random_bytes_20();
        let copy = copy_bytes(&sequence_number);
        let message = FloodsubMessage { source: self.local_peer_id, data, sequence_number, topics };
        let noted = self.publish_message(message);
        Published { sequence_number: copy, noted }
    }

    /// Publishes a message to the network.
    ///
    /// > **Note**: Doesn't do anything if we're not subscribed to the topic.
    pub fn publish(&mut self, topic: Digest, data: Vec<u8>) -> (r: Published)
        requires
            old(self).wf(),
        ensures
            final(self).wf(),
            r.sequence_number@.len() == 20,
            final(self)@ == old(self)@.publish(
                spec_own_message(old(self)@.local_peer_id, seq![topic], data@, r.sequence_number@),
            ),
            !spec_intersect(old(self)@.topics, seq![topic]) ==> !r.noted && final(self).received
                == old(self).received,
            r.noted ==> filter_reports(old(self).received).subset_of(
                filter_reports(final(self).received),
            ) && filter_reports(final(self).received).contains(
                spec_message_key(
                    spec_own_message(
                        old(self)@.local_peer_id,
                        seq![topic],
                        data@,
                        r.sequence_number@,
                    ),
                ),
            ),
    {
        let mut topics: Vec<Digest> = Vec::new();
        topics.push(topic);
        assert(topics@ =~= seq![topic]);
        self.publish_many(topics, data)
    }

    /// Asks for substreams to a peer, and tells the peer of our topics.
    #[verifier::loop_isolation(false)]
    pub fn enable_outgoing(&mut self, peer_id: &PeerId)
        requires
            old(self).wf(),
        ensures
            final(self).wf(),
            final(self)@ == old(self)@.enable_outgoing(*peer_id),
            final(self).received == old(self).received,
    {
        if self.peer_place(peer_id).is_none() {
            return ;
        }
        let ghost before = self@;
        self.push(
            Command::SendEvent { peer_id: *peer_id, event: FloodsubSendEvent::EnableOutgoing },
        );
        let ghost start = self@.events;
        let ghost topics = before.topics;
        // We need to send our subscriptions to the newly-enabled node.
        let mut i: usize = 0;
        proof {
            assert(start + spec_tell(*peer_id, topics).take(0) =~= start);
        }
        let count = topics_len(&self.subscribed_topics);
        while i < count
            invariant
                0 <= i <= count == topics.len(),
                topics == before.topics,
                self@.topics == topics,
                self@ == (FloodsubModel {
                    events: start + spec_tell(*peer_id, topics).take(i as int),
                    ..before
                }),
                self.received == old(self).received,
            decreases count - i,
        {
            let h = topics_hash(&self.subscribed_topics, i);
            let sub = FloodsubSubscription { action: FloodsubSubscriptionAction::Subscribe, topic: h };
            let mut subscriptions: Vec<FloodsubSubscription> = Vec::new();
            subscriptions.push(sub);
            let rpc = FloodsubRpc { messages: Vec::new(), subscriptions };
            proof {
                assert(rpc@.messages =~= Seq::<MessageView>::empty());
                assert(rpc@.subscriptions =~= seq![sub]);
                assert(topics[i as int] == h);
            }
            self.push(
                Command::SendEvent { peer_id: *peer_id, event: FloodsubSendEvent::Publish(rpc) },
            );
            proof {
                let t = spec_tell(*peer_id, topics);
                assert(t.take(i + 1) =~= t.take(i as int).push(t[i as int]));
                assert(self@.events =~= start + t.take(i + 1));
            }
            i = i + 1;
        }
        proof {
            let t = spec_tell(*peer_id, topics);
            assert(t.take(i as int) =~= t);
        }
    }

    /// Asks for substreams from a peer.
    pub fn enable_incoming(&mut self, peer_id: &PeerId)
        requires
            old(self).wf(),
        ensures
            final(self).wf(),
            final(self)@ == old(self)@.enable_incoming(*peer_id),
            final(self).received == old(self).received,
    {
        if self.peer_place(peer_id).is_none() {
            return ;
        }
        self.push(
            Command::SendEvent { peer_id: *peer_id, event: FloodsubSendEvent::EnableIncoming },
        );
    }

    /// Switches the protocol off for a peer.
    pub fn disable(&mut self, peer_id: &PeerId)
        requires
            old(self).wf(),
        ensures
            final(self).wf(),
            final(self)@ == old(self)@.disable(*peer_id),
            final(self).received == old(self).received,
    {
        self.push(Command::SendEvent { peer_id: *peer_id, event: FloodsubSendEvent::Disable });
    }

    /// Takes note of a peer that has connected.
    pub fn inject_connected(&mut self, id: PeerId)
        requires
            old(self).wf(),
        ensures
            final(self).wf(),
            final(self)@ == old(self)@.connected(id),
            final(self).received == old(self).received,
    {
        let ghost peers = self@.peers;
        match self.peer_place(&id) {
            Some(i) => {
                self.connected_peers[i] = PeerEntry { peer_id: id, topics: list_new() };
                proof {
                    assert(self@.peers =~= peers.update(i as int, (id, Seq::<Digest>::empty())));
                    assert(self@.events =~= old(self)@.events);
                    assert(self@.topics =~= old(self)@.topics);
                }
            },
            None => {
                self.connected_peers.push(PeerEntry { peer_id: id, topics: list_new() });
                proof {
                    assert(self@.peers =~= peers.push((id, Seq::<Digest>::empty())));
                    assert(self@.events =~= old(self)@.events);
                    assert(self@.topics =~= old(self)@.topics);
                }
            },
        }
    }

    /// Takes note of a peer that has disconnected.
    pub fn inject_disconnected(&mut self, id: &PeerId)
        requires
            old(self).wf(),
        ensures
            final(self).wf(),
            final(self)@ == old(self)@.disconnected(*id),
            final(self).received == old(self).received,
    {
        let ghost peers = self@.peers;
        match self.peer_place(id) {
            Some(i) => {
                let _ = self.connected_peers.remove(i);
                proof {
                    assert(self@.peers =~= peers.remove(i as int));
                    assert(self@.events =~= old(self)@.events);
                    assert(self@.topics =~= old(self)@.topics);
                }
            },
            None => {},
        }
    }

    /// Hands out the command that has waited longest.
    pub fn poll(&mut self) -> (r: Option<Command>)
        ensures
            old(self)@.events.len() == 0 ==> r is None && final(self)@ == old(self)@,
            old(self)@.events.len() > 0 ==> r is Some && r->0@ == old(self)@.events[0] && final(self)@ == (FloodsubModel { events: old(self)@.events.drop_first(), ..old(self)@ }),
            final(self).received == old(self).received,
            final(self).connected_peers == old(self).connected_peers,
    {
        let r = self.events.pop_front();
        proof {
            if old(self)@.events.len() > 0 {
                assert(spec_commands(self.events@) =~= spec_commands(
                    old(self).events@,
                ).drop_first());
            } else {
                assert(spec_commands(self.events@) =~= spec_commands(old(self).events@));
            }
        }
        r
    }
}

/// What an event from a handler says.
pub enum RecvView {
    EnabledIncoming,
    EnabledOutgoing,
    Disabled,
    Message(RpcView),
}

impl View for FloodsubRecvEvent {
    type V = RecvView;

    open spec fn view(&self) -> RecvView {
        match self {
            FloodsubRecvEvent::EnabledIncoming => RecvView::EnabledIncoming,
            FloodsubRecvEvent::EnabledOutgoing => RecvView::EnabledOutgoing,
            FloodsubRecvEvent::Disabled => RecvView::Disabled,
            FloodsubRecvEvent::Message(rpc) => RecvView::Message(rpc@),
        }
    }
}

/// The messages gathered for one peer.
pub struct Parcel {
    pub peer_id: PeerId,
    pub rpc: FloodsubRpc,
}

/// What the parcels say: for each peer its messages.
pub open spec fn spec_parcels(ps: Seq<Parcel>) -> Seq<(PeerId, Seq<MessageView>)> {
    Seq::new(ps.len(), |i: int| (ps[i].peer_id, spec_messages(ps[i].rpc.messages@)))
}

/// Whether a parcel is there for the peer.
pub open spec fn spec_has_parcel(ps: Seq<(PeerId, Seq<MessageView>)>, peer_id: PeerId) -> bool {
    exists|i: int| 0 <= i < ps.len() && (#[trigger] ps[i]).0 == peer_id
}

/// The place of the parcel for the peer.
pub open spec fn spec_parcel_place(ps: Seq<(PeerId, Seq<MessageView>)>, peer_id: PeerId) -> int {
    choose|i: int| 0 <= i < ps.len() && (#[trigger] ps[i]).0 == peer_id
}

/// Whether no peer has two parcels.
pub open spec fn spec_parcels_distinct(ps: Seq<(PeerId, Seq<MessageView>)>) -> bool {
    forall|i: int, j: int|
        0 <= i < ps.len() && 0 <= j < ps.len() && i != j ==> (#[trigger] ps[i]).0 != (
        #[trigger] ps[j]).0
}

/// The parcels after a message has been put in for a peer: into the parcel
/// of the peer, or into a new one behind the others.
pub open spec fn spec_pack(ps: Seq<(PeerId, Seq<MessageView>)>, peer_id: PeerId, m: MessageView) -> Seq<
    (PeerId, Seq<MessageView>),
> {
    if spec_has_parcel(ps, peer_id) {
        let i = spec_parcel_place(ps, peer_id);
        ps.update(i, (peer_id, ps[i].1.push(m)))
    } else {
        ps.push((peer_id, seq![m]))
    }
}

/// The parcels after a message has been put in for every peer but its
/// sender that has subscribed to one of its topics.
pub open spec fn spec_route(
    ps: Seq<(PeerId, Seq<MessageView>)>,
    peers: Seq<(PeerId, Seq<Digest>)>,
    source: PeerId,
    m: MessageView,
) -> Seq<(PeerId, Seq<MessageView>)>
    decreases peers.len(),
{
    if peers.len() == 0 {
        ps
    } else {
        let rest = spec_route(ps, peers.drop_last(), source, m);
        let p = peers.last();
        if p.0 != source && spec_intersect(p.1, m.topics) {
            spec_pack(rest, p.0, m)
        } else {
            rest
        }
    }
}

/// The commands that send the parcels.
pub open spec fn spec_send(ps: Seq<(PeerId, Seq<MessageView>)>) -> Seq<CommandView> {
    Seq::new(
        ps.len(),
        |i: int|
            CommandView::Publish {
                peer_id: ps[i].0,
                rpc: RpcView { messages: ps[i].1, subscriptions: Seq::empty() },
            },
    )
}

/// The topics of a peer after it has said something of one topic: a topic
/// taken up stands behind the others, once; a topic given up leaves its
/// first place.
pub open spec fn spec_topics_after(topics: Seq<Digest>, sub: FloodsubSubscription) -> Seq<Digest> {
    match sub.action {
        FloodsubSubscriptionAction::Subscribe => if topics.contains(sub.topic) {
            topics
        } else {
            topics.push(sub.topic)
        },
        FloodsubSubscriptionAction::Unsubscribe => if spec_first(topics, sub.topic) >= 0 {
            topics.remove(spec_first(topics, sub.topic))
        } else {
            topics
        },
    }
}

/// The event that tells the user of what a peer said of one topic.
pub open spec fn spec_told(source: PeerId, sub: FloodsubSubscription) -> CommandView {
    match sub.action {
        FloodsubSubscriptionAction::Subscribe => CommandView::Subscribed {
            peer_id: source,
            topic: sub.topic,
        },
        FloodsubSubscriptionAction::Unsubscribe => CommandView::Unsubscribed {
            peer_id: source,
            topic: sub.topic,
        },
    }
}

impl FloodsubModel {
    /// The state after a connected peer has said something of its topics.
    pub open spec fn subscriptions(self, source: PeerId, subs: Seq<FloodsubSubscription>) -> FloodsubModel
        decreases subs.len(),
    {
        if subs.len() == 0 {
            self
        } else {
            let s = self.subscriptions(source, subs.drop_last());
            let i = spec_peer_place(s.peers, source);
            FloodsubModel {
                peers: s.peers.update(i, (source, spec_topics_after(s.peers[i].1, subs.last()))),
                events: s.events.push(spec_told(source, subs.last())),
                ..s
            }
        }
    }

    /// The events for the user and the parcels for the peers after the
    /// messages of a packet: a message that the filter has seen before is
    /// dropped; a new one goes to the user, where this node has subscribed
    /// to one of its topics, and into the parcels of the peers that have.
    pub open spec fn dispatch(
        self,
        source: PeerId,
        messages: Seq<MessageView>,
        fresh: Seq<bool>,
    ) -> (Seq<CommandView>, Seq<(PeerId, Seq<MessageView>)>)
        decreases messages.len(),
    {
        if messages.len() == 0 {
            (self.events, Seq::empty())
        } else {
            let (events, parcels) = self.dispatch(source, messages.drop_last(), fresh);
            let m = messages.last();
            if !(messages.len() <= fresh.len() && fresh[messages.len() - 1]) {
                (events, parcels)
            } else {
                (
                    if spec_intersect(self.topics, m.topics) {
                        events.push(CommandView::Message(m))
                    } else {
                        events
                    },
                    spec_route(parcels, self.peers, source, m),
                )
            }
        }
    }

    /// The state after an event from the handler of a peer. `fresh` says
    /// of each message of a packet whether the filter had not seen it.
    pub open spec fn node_event(self, source: PeerId, event: RecvView, fresh: Seq<bool>) -> FloodsubModel {
        match event {
            RecvView::EnabledIncoming => FloodsubModel {
                events: self.events.push(CommandView::EnabledIncoming { peer_id: source }),
                ..self
            },
            RecvView::EnabledOutgoing => FloodsubModel {
                events: self.events.push(CommandView::EnabledOutgoing { peer_id: source }),
                ..self
            },
            RecvView::Disabled => FloodsubModel {
                events: self.events.push(CommandView::Disabled { peer_id: source }),
                ..self
            },
            RecvView::Message(rpc) => {
                let s = self.subscriptions(source, rpc.subscriptions);
                let (events, parcels) = s.dispatch(source, rpc.messages, fresh);
                FloodsubModel { events: events + spec_send(parcels), ..s }
            },
        }
    }
}

/// What a peer says of its topics leaves the connected peers who they are.
pub proof fn lemma_subscriptions_keep(
    m: FloodsubModel,
    source: PeerId,
    subs: Seq<FloodsubSubscription>,
)
    requires
        spec_peers_distinct(m.peers),
        spec_connected(m.peers, source),
    ensures
        spec_peers_distinct(m.subscriptions(source, subs).peers),
        spec_connected(m.subscriptions(source, subs).peers, source),
        m.subscriptions(source, subs).peers.len() == m.peers.len(),
        m.subscriptions(source, subs).topics == m.topics,
        m.subscriptions(source, subs).local_peer_id == m.local_peer_id,
        forall|k: int|
            0 <= k < m.peers.len() ==> (#[trigger] m.subscriptions(source, subs).peers[k]).0
                == m.peers[k].0,
    decreases subs.len(),
{
    if subs.len() > 0 {
        lemma_subscriptions_keep(m, source, subs.drop_last());
        let s = m.subscriptions(source, subs.drop_last());
        let i = spec_peer_place(s.peers, source);
        assert(s.peers[i].0 == source);
        let t = m.subscriptions(source, subs);
        assert(t.peers[i].0 == source);
    }
}

/// Putting a message in leaves no peer with two parcels.
pub proof fn lemma_pack_keeps(ps: Seq<(PeerId, Seq<MessageView>)>, peer_id: PeerId, m: MessageView)
    requires
        spec_parcels_distinct(ps),
    ensures
        spec_parcels_distinct(spec_pack(ps, peer_id, m)),
{
    if spec_has_parcel(ps, peer_id) {
        let i = spec_parcel_place(ps, peer_id);
        assert(ps[i].0 == peer_id);
    }
}

impl Floodsub {
    /// Takes what a connected peer says of one topic.
    #[verifier::loop_isolation(false)]
    fn apply_subscription(&mut self, source: PeerId, i: usize, sub: FloodsubSubscription)
        requires
            old(self).wf(),
            i < old(self)@.peers.len(),
            i == spec_peer_place(old(self)@.peers, source),
            old(self)@.peers[i as int].0 == source,
        ensures
            final(self).wf(),
            final(self)@ == (FloodsubModel {
                peers: old(self)@.peers.update(
                    i as int,
                    (source, spec_topics_after(old(self)@.peers[i as int].1, sub)),
                ),
                events: old(self)@.events.push(spec_told(source, sub)),
                ..old(self)@
            }),
            final(self).received == old(self).received,
    {
        let ghost peers = self@.peers;
        let mut entry = self.connected_peers.remove(i);
        assert(entry.peer_id == source);
        assert(list_items(entry.topics) == peers[i as int].1);
        let event = match sub.action {
            FloodsubSubscriptionAction::Subscribe => {
                if !list_contains(&entry.topics, &sub.topic) {
                    list_push(&mut entry.topics, sub.topic);
                }
                FloodsubEvent::Subscribed { peer_id: source, topic: sub.topic }
            },
            FloodsubSubscriptionAction::Unsubscribe => {
                match list_position(&entry.topics, &sub.topic) {
                    Some(pos) => {
                        let _ = list_remove(&mut entry.topics, pos);
                    },
                    None => {},
                }
                FloodsubEvent::Unsubscribed { peer_id: source, topic: sub.topic }
            },
        };
        self.connected_peers.insert(i, entry);
        proof {
            assert(self@.peers =~= peers.update(
                i as int,
                (source, spec_topics_after(peers[i as int].1, sub)),
            ));
            assert(self@.events =~= old(self)@.events);
            assert(self@.topics =~= old(self)@.topics);
        }
        self.push(Command::GenerateEvent(event));
    }

    /// Puts a copy of a message into the parcel of a peer.
    #[verifier::loop_isolation(false)]
    fn pack(parcels: &mut Vec<Parcel>, peer_id: PeerId, message: &FloodsubMessage)
        requires
            spec_parcels_distinct(spec_parcels(old(parcels)@)),
        ensures
            spec_parcels(final(parcels)@) == spec_pack(spec_parcels(old(parcels)@), peer_id, message@),
            spec_parcels_distinct(spec_parcels(final(parcels)@)),
    {
        let ghost ps = spec_parcels(parcels@);
        proof {
            lemma_pack_keeps(ps, peer_id, message@);
        }
        let mut j: usize = 0;
        while j < parcels.len()
            invariant
                0 <= j <= parcels@.len(),
                parcels@ == old(parcels)@,
                forall|k: int| 0 <= k < j ==> (#[trigger] ps[k]).0 != peer_id,
            decreases parcels@.len() - j,
        {
            if parcels[j].peer_id == peer_id {
                proof {
                    assert(ps[j as int].0 == peer_id);
                    let c = spec_parcel_place(ps, peer_id);
                    assert(ps[c].0 == peer_id);
                    assert(c == j);
                }
                let mut parcel = parcels.remove(j);
                let ghost before = spec_messages(parcel.rpc.messages@);
                parcel.rpc.messages.push(message.duplicate());
                proof {
                    assert(spec_messages(parcel.rpc.messages@) =~= before.push(message@));
                }
                parcels.insert(j, parcel);
                proof {
                    assert(spec_parcels(parcels@) =~= ps.update(
                        j as int,
                        (peer_id, ps[j as int].1.push(message@)),
                    ));
                }
                return ;
            }
            assert(ps[j as int].0 == parcels@[j as int].peer_id);
            j = j + 1;
        }
        let mut messages: Vec<FloodsubMessage> = Vec::new();
        messages.push(message.duplicate());
        proof {
            assert(spec_messages(messages@) =~= seq![message@]);
        }
        parcels.push(Parcel { peer_id, rpc: FloodsubRpc { subscriptions: Vec::new(), messages } });
        proof {
            assert(!spec_has_parcel(ps, peer_id));
            assert(spec_parcels(parcels@) =~= ps.push((peer_id, seq![message@])));
        }
    }

    /// Puts a message into the parcels of the peers that take it.
    #[verifier::loop_isolation(false)]
    fn route(&self, parcels: &mut Vec<Parcel>, source: PeerId, message: &FloodsubMessage)
        requires
            spec_parcels_distinct(spec_parcels(old(parcels)@)),
        ensures
            spec_parcels(final(parcels)@) == spec_route(
                spec_parcels(old(parcels)@),
                self@.peers,
                source,
                message@,
            ),
            spec_parcels_distinct(spec_parcels(final(parcels)@)),
    {
        let ghost peers = self@.peers;
        let ghost start = spec_parcels(parcels@);
        let mut i: usize = 0;
        proof {
            assert(peers.take(0) =~= Seq::<(PeerId, Seq<Digest>)>::empty());
        }
        while i < self.connected_peers.len()
            invariant
                0 <= i <= self.connected_peers@.len(),
                spec_parcels_distinct(spec_parcels(parcels@)),
                spec_parcels(parcels@) == spec_route(start, peers.take(i as int), source, message@),
            decreases self.connected_peers@.len() - i,
        {
            proof {
                assert(peers.take(i + 1).drop_last() =~= peers.take(i as int));
                assert(peers.take(i + 1).last() == peers[i as int]);
                assert(peers[i as int] == (
                    self.connected_peers@[i as int].peer_id,
                    list_items(self.connected_peers@[i as int].topics),
                ));
            }
            let peer_id = self.connected_peers[i].peer_id;
            if peer_id != source && intersect_list(&self.connected_peers[i].topics, &message.topics) {
                Floodsub::pack(parcels, peer_id, message);
            }
            i = i + 1;
        }
        proof {
            assert(peers.take(i as int) =~= peers);
        }
    }

    /// Takes one message of a packet with the answer of the filter. A
    /// message that the filter reported already is dropped. Any other is
    /// new, whether the filter was full or not: it goes to the user, where
    /// this node has subscribed to one of its topics, and into the parcels
    /// of the peers that have, the sender left out. Says whether the
    /// message was new.
    pub fn take_message(
        &mut self,
        parcels: &mut Vec<Parcel>,
        source: PeerId,
        message: &FloodsubMessage,
        answer: FilterAnswer,
    ) -> (fresh: bool)
        requires
            old(self).wf(),
            spec_parcels_distinct(spec_parcels(old(parcels)@)),
        ensures
            final(self).wf(),
            fresh == (answer != FilterAnswer::Known),
            final(self).received == old(self).received,
            final(self)@ == (FloodsubModel {
                events: if fresh && spec_intersect(old(self)@.topics, message@.topics) {
                    old(self)@.events.push(CommandView::Message(message@))
                } else {
                    old(self)@.events
                },
                ..old(self)@
            }),
            spec_parcels(final(parcels)@) == if fresh {
                spec_route(spec_parcels(old(parcels)@), old(self)@.peers, source, message@)
            } else {
                spec_parcels(old(parcels)@)
            },
            spec_parcels_distinct(spec_parcels(final(parcels)@)),
    {
        let fresh = match answer {
            FilterAnswer::Known => false,
            FilterAnswer::Added => true,
            FilterAnswer::Full => true,
        };
        if fresh {
            // Add the message to be dispatched to the user.
            if intersect_topics(&self.subscribed_topics, &message.topics) {
                let event = FloodsubEvent::Message(message.duplicate());
                self.push(Command::GenerateEvent(event));
            }
            // Propagate the message to everyone else who is subscribed to any of the topics.
            self.route(parcels, source, message);
        }
        fresh
    }

    /// Takes an event from the handler of a peer: what the peer says of
    /// its topics is noted and told to the user; the messages that the
    /// filter has not seen go to the user, where this node has subscribed
    /// to one of their topics, and on to the peers that have, the sender
    /// left out, one packet for each peer. Says of each message whether
    /// the filter had not seen it, and whether the filter was full. The
    /// first message is new if and only if the filter did not report it
    /// before the call; those behind it are asked of the filter as the
    /// messages before them have left it.
    #[verifier::loop_isolation(false)]
    pub fn inject_node_event(&mut self, propagation_source: PeerId, event: FloodsubRecvEvent) -> (r:
        Dispatch)
        requires
            old(self).wf(),
            event matches FloodsubRecvEvent::Message(rpc) ==> rpc.subscriptions@.len() > 0
                ==> spec_connected(old(self)@.peers, propagation_source),
        ensures
            final(self).wf(),
            final(self)@ == old(self)@.node_event(propagation_source, event@, r.fresh@),
            event matches FloodsubRecvEvent::Message(rpc) ==> {
                &&& r.fresh@.len() == rpc.messages@.len()
                &&& rpc.messages@.len() > 0 ==> r.fresh@[0] == !filter_reports(
                    old(self).received,
                ).contains(spec_message_key(rpc.messages@[0]@))
                &&& rpc.messages@.len() == 0 ==> !r.overflowed && final(self).received == old(self).received
                &&& !r.overflowed ==> spec_filtered(
                    filter_reports(old(self).received),
                    filter_reports(final(self).received),
                    spec_messages(rpc.messages@),
                    r.fresh@,
                )
            },
            !(event is Message) ==> r.fresh@.len() == 0 && !r.overflowed && final(self).received
                == old(self).received,
    {
        let source = propagation_source;
        let mut fresh: Vec<bool> = Vec::new();
        let mut overflowed = false;
        let rpc = match event {
            FloodsubRecvEvent::EnabledIncoming => {
                self.push(Command::GenerateEvent(FloodsubEvent::EnabledIncoming { peer_id: source }));
                return Dispatch { fresh, overflowed };
            },
            FloodsubRecvEvent::EnabledOutgoing => {
                self.push(Command::GenerateEvent(FloodsubEvent::EnabledOutgoing { peer_id: source }));
                return Dispatch { fresh, overflowed };
            },
            FloodsubRecvEvent::Disabled => {
                self.push(Command::GenerateEvent(FloodsubEvent::Disabled { peer_id: source }));
                return Dispatch { fresh, overflowed };
            },
            FloodsubRecvEvent::Message(rpc) => rpc,
        };
        let ghost reports0 = filter_reports(self.received);
        let ghost start = self@;
        let ghost subs = rpc.subscriptions@;
        let ghost msgs = spec_messages(rpc.messages@);
        // Update connected peers topics
        let mut k: usize = 0;
        proof {
            assert(subs.take(0) =~= Seq::<FloodsubSubscription>::empty());
        }
        while k < rpc.subscriptions.len()
            invariant
                0 <= k <= subs.len(),
                self.wf(),
                self@ == start.subscriptions(source, subs.take(k as int)),
                self.received == old(self).received,
            decreases subs.len() - k,
        {
            proof {
                lemma_subscriptions_keep(start, source, subs.take(k as int));
                assert(subs.take(k + 1).drop_last() =~= subs.take(k as int));
                assert(subs.take(k + 1).last() == subs[k as int]);
            }
            let i = self.peer_place(&source).unwrap();
            assert(self@.peers[i as int].0 == source);
            self.apply_subscription(source, i, rpc.subscriptions[k]);
            k = k + 1;
        }
        proof {
            assert(subs.take(k as int) =~= subs);
        }
        let ghost after = self@;
        // List of messages we're going to propagate on the network.
        let mut parcels: Vec<Parcel> = Vec::new();
        let mut n: usize = 0;
        proof {
            assert(msgs.take(0) =~= Seq::<MessageView>::empty());
            assert(spec_parcels(parcels@) =~= Seq::<(PeerId, Seq<MessageView>)>::empty());
        }
        while n < rpc.messages.len()
            invariant
                0 <= n <= msgs.len(),
                fresh@.len() == n,
                self.wf(),
                spec_parcels_distinct(spec_parcels(parcels@)),
                self@ == (FloodsubModel {
                    events: after.dispatch(source, msgs.take(n as int), fresh@).0,
                    ..after
                }),
                spec_parcels(parcels@) == after.dispatch(source, msgs.take(n as int), fresh@).1,
                !overflowed ==> spec_filtered(
                    reports0,
                    filter_reports(self.received),
                    msgs.take(n as int),
                    fresh@,
                ),
                n == 0 ==> !overflowed && self.received == old(self).received,
                n > 0 ==> fresh@[0] == !reports0.contains(spec_message_key(msgs[0])),
            decreases msgs.len() - n,
        {
            let message = &rpc.messages[n];
            let ghost fresh_before = fresh@;
            let ghost reports_before = filter_reports(self.received);
            proof {
                assert(msgs.take(n + 1).drop_last() =~= msgs.take(n as int));
                assert(msgs.take(n + 1).last() == message@);
            }
            // Use `self.received` to skip the messages that we have already received in the past.
            // Note that this can false positive.
            let key = message.key();
            let answer = match filter_test_and_add(&mut self.received, key.as_slice()) {
                Ok(false) => FilterAnswer::Known,
                Ok(true) => FilterAnswer::Added,
                Err(_) => {
                    overflowed = true;
                    FilterAnswer::Full
                },
            };
            let is_fresh = self.take_message(&mut parcels, source, message, answer);
            fresh.push(is_fresh);
            proof {
                lemma_dispatch_prefix(after, source, msgs.take(n as int), fresh_before, fresh@);
                assert(is_fresh == !reports_before.contains(spec_message_key(message@)));
                if !overflowed {
                    let now = filter_reports(self.received);
                    let ms = msgs.take(n + 1);
                    assert forall|k: int| 0 <= k < ms.len() implies now.contains(
                        spec_message_key(#[trigger] ms[k]),
                    ) by {
                        if k < n {
                            assert(ms[k] == msgs.take(n as int)[k]);
                            assert(reports_before.contains(spec_message_key(ms[k])));
                        }
                    }
                    assert forall|k: int|
                        0 <= k < ms.len() && k < fresh@.len() && #[trigger] fresh@[k] implies now.contains(
                        spec_message_key(ms[k]),
                    ) && !reports0.contains(spec_message_key(ms[k])) by {
                        if k < n {
                            assert(fresh_before[k]);
                            assert(ms[k] == msgs.take(n as int)[k]);
                            assert(reports_before.contains(spec_message_key(ms[k])));
                        }
                    }
                    assert forall|j: int, k: int|
                        0 <= j < k < ms.len() && k < fresh@.len() && #[trigger] fresh@[j]
                            && spec_message_key(ms[j]) == spec_message_key(ms[k]) implies !#[trigger] fresh@[k] by {
                        assert(fresh_before[j]);
                        assert(ms[j] == msgs.take(n as int)[j]);
                        if k < n {
                            assert(ms[k] == msgs.take(n as int)[k]);
                            assert(fresh@[k] == fresh_before[k]);
                        } else {
                            assert(reports_before.contains(spec_message_key(ms[j])));
                        }
                    }
                }
            }
            n = n + 1;
        }
        proof {
            assert(msgs.take(n as int) =~= msgs);
        }
        let ghost sent = spec_parcels(parcels@);
        let ghost base = self@.events;
        let ghost filter_after = self.received;
        let mut j: usize = 0;
        let total = parcels.len();
        proof {
            assert(base + spec_send(sent).take(0) =~= base);
            assert(parcels@.skip(0) =~= parcels@);
        }
        while j < total
            invariant
                0 <= j <= total == sent.len(),
                self.wf(),
                spec_parcels(parcels@) == sent.skip(j as int),
                self.received == filter_after,
                self@ == (FloodsubModel { events: base + spec_send(sent).take(j as int), ..after }),
            decreases total - j,
        {
            let ghost rest = parcels@;
            let parcel = parcels.remove(0);
            proof {
                assert(spec_parcels(rest)[0] == sent[j as int]);
                assert(parcels@ == rest.remove(0));
                assert forall|k: int| 0 <= k < parcels@.len() implies spec_parcels(parcels@)[k]
                    == sent.skip(j + 1)[k] by {
                    assert(parcels@[k] == rest[k + 1]);
                    assert(spec_parcels(rest)[k + 1] == sent.skip(j as int)[k + 1]);
                }
                assert(spec_parcels(parcels@) =~= sent.skip(j + 1));
                assert(parcel.rpc@.messages == sent[j as int].1);
            }
            let mut rpc_out = parcel.rpc;
            rpc_out.subscriptions = Vec::new();
            proof {
                assert(rpc_out@.subscriptions =~= Seq::<FloodsubSubscription>::empty());
            }
            self.push(
                Command::SendEvent {
                    peer_id: parcel.peer_id,
                    event: FloodsubSendEvent::Publish(rpc_out),
                },
            );
            proof {
                let t = spec_send(sent);
                assert(t.take(j + 1) =~= t.take(j as int).push(t[j as int]));
                assert(self@.events =~= base + t.take(j + 1));
            }
            j = j + 1;
        }
        proof {
            assert(spec_send(sent).take(j as int) =~= spec_send(sent));
        }
        Dispatch { fresh, overflowed }
    }
}

/// What the first messages of a packet do depends on what the filter said
/// of them alone.
pub proof fn lemma_dispatch_prefix(
    m: FloodsubModel,
    source: PeerId,
    messages: Seq<MessageView>,
    a: Seq<bool>,
    b: Seq<bool>,
)
    requires
        messages.len() <= a.len() <= b.len(),
        forall|i: int| 0 <= i < messages.len() ==> a[i] == b[i],
    ensures
        m.dispatch(source, messages, a) == m.dispatch(source, messages, b),
    decreases messages.len(),
{
    if messages.len() > 0 {
        lemma_dispatch_prefix(m, source, messages.drop_last(), a, b);
    }
}

} // verus!
