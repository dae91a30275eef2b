//! The message broker: it keeps, for each topic, the consumers that have
//! subscribed, and says who gets an incoming message.

use vstd::prelude::*;
use crate::digest::Digest;
use crate::pubsub::Topic;

verus! {

/// The name of a consumer: the channel that leads to it.
pub type ConsumerId = u64;

/// The consumers of one topic, in the order in which they subscribed.
#[derive(Debug)]
pub struct TopicConsumers {
    pub topic: Digest,
    pub consumers: Vec<ConsumerId>,
}

/// What a client asks of the broker.
#[derive(Debug)]
pub enum PubsubMessage {
    /// Messages of the topic are to go to the consumer.
    Subscribe { topic: Vec<u8>, handler: ConsumerId },
    /// The data are to go out under the topic.
    Publish { topic: Vec<u8>, data: Vec<u8> },
}

/// What comes to the broker: the request of a client, or a message from
/// the network.
#[derive(Debug)]
pub enum BrokerMessage {
    Pubsub(PubsubMessage),
    Input { topics: Vec<Digest>, data: Vec<u8> },
}

/// What the broker does about a message.
#[derive(Debug)]
pub enum BrokerAction {
    /// Subscribe to the topic on the network.
    Subscribe { topic: Topic },
    /// Publish the data under the topic on the network.
    Publish { topic: Topic, data: Vec<u8> },
    /// Hand the data to each of the consumers.
    Deliver { consumers: Vec<ConsumerId>, data: Vec<u8> },
}

/// The handle with which clients speak to the broker: it makes the
/// requests that go to the broker.
#[derive(Clone, Copy, Debug)]
pub struct BrokerHandler {}

impl BrokerHandler {
    /// The request to get the messages of a topic through the channel
    /// `handler`.
    pub fn subscribe(&self, topic: &Vec<u8>, handler: ConsumerId) -> (r: PubsubMessage)
        ensures
            r matches PubsubMessage::Subscribe { topic: t, handler: c } && t@ == topic@ && c
                == handler,
    {
        PubsubMessage::Subscribe { topic: crate::block::copy_bytes(topic), handler }
    }

    /// The request to publish a message under a topic.
    pub fn publish(&self, topic: &Vec<u8>, data: Vec<u8>) -> (r: PubsubMessage)
        ensures
            r matches PubsubMessage::Publish { topic: t, data: d } && t@ == topic@ && d == data,
    {
        PubsubMessage::Publish { topic: crate::block::copy_bytes(topic), data }
    }
}

/// Manages subscriptions to topics.
#[derive(Debug)]
pub struct Broker {
    pub consumers: Vec<TopicConsumers>,
}

/// The consumers of a topic among the entries: those of the first entry
/// for the topic, none where no entry is for it.
pub open spec fn spec_consumers_of(entries: Seq<TopicConsumers>, topic: Digest) -> Seq<ConsumerId>
    decreases entries.len(),
{
    if entries.len() == 0 {
        Seq::empty()
    } else if entries[0].topic == topic {
        entries[0].consumers@
    } else {
        spec_consumers_of(entries.drop_first(), topic)
    }
}

/// The consumers that get a message: those of its first topic, then those
/// of its second, and so on.
pub open spec fn spec_receivers(entries: Seq<TopicConsumers>, topics: Seq<Digest>) -> Seq<ConsumerId>
    decreases topics.len(),
{
    if topics.len() == 0 {
        Seq::empty()
    } else {
        spec_receivers(entries, topics.drop_last()) + spec_consumers_of(entries, topics.last())
    }
}

/// Whether no topic has two entries.
pub open spec fn spec_topics_distinct(entries: Seq<TopicConsumers>) -> bool {
    forall|i: int, j: int|
        0 <= i < entries.len() && 0 <= j < entries.len() && i != j ==> (#[trigger] entries[i]).topic
            != (#[trigger] entries[j]).topic
}

impl Broker {
    /// What holds of every broker: no topic has two entries.
    pub open spec fn wf(&self) -> bool {
        spec_topics_distinct(self.consumers@)
    }

    /// The consumers of a topic.
    pub open spec fn spec_of(&self, topic: Digest) -> Seq<ConsumerId> {
        spec_consumers_of(self.consumers@, topic)
    }

    /// A broker without consumers.
    pub fn new() -> (r: Broker)
        ensures
            r.wf(),
            forall|t: Digest| r.spec_of(t).len() == 0,
    {
        Broker { consumers: Vec::new() }
    }

    /// The place of the entry of a topic.
    #[verifier::loop_isolation(false)]
    pub fn position(&self, topic: &Digest) -> (r: Option<usize>)
        ensures
            r matches Some(i) ==> i < self.consumers@.len() && self.consumers@[i as int].topic == *topic
                && self.spec_of(*topic) == self.consumers@[i as int].consumers@,
            r is None ==> self.spec_of(*topic).len() == 0 && forall|k: int|
                0 <= k < self.consumers@.len() ==> (#[trigger] self.consumers@[k]).topic != *topic,
    {
        let mut i: usize = 0;
        proof {
            assert(self.consumers@.skip(0) =~= self.consumers@);
        }
        while i < self.consumers.len()
            invariant
                0 <= i <= self.consumers@.len(),
                self.spec_of(*topic) == spec_consumers_of(self.consumers@.skip(i as int), *topic),
                forall|k: int| 0 <= k < i ==> (#[trigger] self.consumers@[k]).topic != *topic,
            decreases self.consumers@.len() - i,
        {
            proof {
                assert(self.consumers@.skip(i as int)[0] == self.consumers@[i as int]);
                assert(self.consumers@.skip(i as int).drop_first() =~= self.consumers@.skip(i + 1));
            }
            if self.consumers[i].topic == *topic {
                return Some(i);
            }
            i = i + 1;
        }
        None
    }

    /// Takes the subscription of a consumer to a topic: the consumer
    /// stands behind those that have subscribed to the topic before.
    pub fn subscribe(&mut self, topic: Digest, handler: ConsumerId)
        requires
            old(self).wf(),
        ensures
            final(self).wf(),
            final(self).spec_of(topic) == old(self).spec_of(topic).push(handler),
            forall|t: Digest| t != topic ==> final(self).spec_of(t) == old(self).spec_of(t),
    {
        let ghost before = self.consumers@;
        match self.position(&topic) {
            Some(i) => {
                let mut entry = self.consumers.remove(i);
                entry.consumers.push(handler);
                self.consumers.insert(i, entry);
                proof {
                    let after = self.consumers@;
                    assert(after.len() == before.len());
                    assert forall|k: int| 0 <= k < after.len() implies (#[trigger] after[k]).topic
                        == before[k].topic && (k != i ==> after[k] == before[k]) by {}
                    assert forall|t: Digest| true implies #[trigger] spec_consumers_of(after, t) == (
                    if t == topic {
                        spec_consumers_of(before, t).push(handler)
                    } else {
                        spec_consumers_of(before, t)
                    }) by {
                        lemma_consumers_update(before, after, i as int, t, 0);
                        assert(before.skip(0) =~= before);
                        assert(after.skip(0) =~= after);
                    }
                }
            },
            None => {
                let mut consumers: Vec<ConsumerId> = Vec::new();
                consumers.push(handler);
                self.consumers.push(TopicConsumers { topic, consumers });
                proof {
                    let after = self.consumers@;
                    assert(after[before.len() as int].consumers@ =~= Seq::<ConsumerId>::empty().push(
                        handler,
                    ));
                    assert forall|t: Digest| true implies #[trigger] spec_consumers_of(after, t) == (
                    if t == topic {
                        spec_consumers_of(before, t).push(handler)
                    } else {
                        spec_consumers_of(before, t)
                    }) by {
                        lemma_consumers_push(before, after, t, 0);
                        assert(before.skip(0) =~= before);
                        assert(after.skip(0) =~= after);
                    }
                }
            },
        }
    }

    /// Takes one message and says what is to be done: a subscription is
    /// noted and passed on to the network; a message of a client goes out
    /// to the network; a message from the network goes to the consumers of
    /// its topics.
    pub fn poll(&mut self, message: BrokerMessage) -> (r: BrokerAction)
        requires
            old(self).wf(),
        ensures
            final(self).wf(),
            match message {
                BrokerMessage::Pubsub(PubsubMessage::Subscribe { topic, handler }) => {
                    let h = Digest::spec_digest(topic@);
                    &&& r matches BrokerAction::Subscribe { topic: t } && t.descriptor@ == topic@
                        && t.hash == h
                    &&& final(self).spec_of(h) == old(self).spec_of(h).push(handler)
                    &&& forall|x: Digest| x != h ==> final(self).spec_of(x) == old(self).spec_of(x)
                },
                BrokerMessage::Pubsub(PubsubMessage::Publish { topic, data }) => {
                    &&& r matches BrokerAction::Publish { topic: t, data: d } && t.descriptor@
                        == topic@ && t.hash == Digest::spec_digest(topic@) && d == data
                    &&& final(self).consumers@ == old(self).consumers@
                },
                BrokerMessage::Input { topics, data } => {
                    &&& r matches BrokerAction::Deliver { consumers, data: d } && consumers@
                        == spec_receivers(old(self).consumers@, topics@) && d == data
                    &&& final(self).consumers@ == old(self).consumers@
                },
            },
    {
        match message {
            BrokerMessage::Pubsub(PubsubMessage::Subscribe { topic, handler }) => {
                let new_topic = Topic::new(topic);
                self.subscribe(new_topic.hash, handler);
                BrokerAction::Subscribe { topic: new_topic }
            },
            BrokerMessage::Pubsub(PubsubMessage::Publish { topic, data }) => BrokerAction::Publish {
                topic: Topic::new(topic),
                data,
            },
            BrokerMessage::Input { topics, data } => BrokerAction::Deliver {
                consumers: self.receivers(&topics),
                data,
            },
        }
    }

    /// Drops a consumer whose channel is closed from a topic.
    pub fn drop_consumer(&mut self, topic: &Digest, handler: ConsumerId)
        requires
            old(self).wf(),
        ensures
            final(self).wf(),
            final(self).spec_of(*topic) == old(self).spec_of(*topic).filter(
                |h: ConsumerId| h != handler,
            ),
            forall|t: Digest| t != *topic ==> final(self).spec_of(t) == old(self).spec_of(t),
    {
        let ghost before = self.consumers@;
        match self.position(topic) {
            Some(i) => {
                let mut entry = self.consumers.remove(i);
                let ghost was = entry.consumers@;
                entry.consumers = without(&entry.consumers, handler);
                self.consumers.insert(i, entry);
                proof {
                    let after = self.consumers@;
                    assert forall|k: int| 0 <= k < after.len() implies (#[trigger] after[k]).topic
                        == before[k].topic && (k != i ==> after[k] == before[k]) by {}
                    assert forall|t: Digest| true implies #[trigger] spec_consumers_of(after, t) == (
                    if t == *topic {
                        after[i as int].consumers@
                    } else {
                        spec_consumers_of(before, t)
                    }) by {
                        lemma_consumers_update(before, after, i as int, t, 0);
                        assert(before.skip(0) =~= before);
                        assert(after.skip(0) =~= after);
                    }
                }
            },
            None => {
                assert(Seq::<ConsumerId>::empty().filter(|h: ConsumerId| h != handler)
                    =~= Seq::<ConsumerId>::empty());
            },
        }
    }

    /// The consumers that get a message with the topics: those of each of
    /// its topics in turn, in the order in which they subscribed.
    pub fn receivers(&self, topics: &Vec<Digest>) -> (r: Vec<ConsumerId>)
        ensures
            r@ == spec_receivers(self.consumers@, topics@),
    {
        let mut out: Vec<ConsumerId> = Vec::new();
        let mut t: usize = 0;
        proof {
            assert(topics@.take(0) =~= Seq::<Digest>::empty());
        }
        while t < topics.len()
            invariant
                0 <= t <= topics.len(),
                out@ == spec_receivers(self.consumers@, topics@.take(t as int)),
            decreases topics.len() - t,
        {
            proof {
                assert(topics@.take(t + 1).drop_last() =~= topics@.take(t as int));
                assert(topics@.take(t + 1).last() == topics@[t as int]);
            }
            let ghost base = out@;
            match self.position(&topics[t]) {
                Some(i) => {
                    let list = &self.consumers[i].consumers;
                    let mut k: usize = 0;
                    while k < list.len()
                        invariant
                            0 <= k <= list.len(),
                            out@ == base + list@.take(k as int),
                        decreases list.len() - k,
                    {
                        out.push(list[k]);
                        assert(list@.take(k + 1) =~= list@.take(k as int).push(list@[k as int]));
                        k = k + 1;
                    }
                    assert(list@.take(k as int) =~= list@);
                },
                None => {
                    assert(self.spec_of(topics@[t as int]) =~= Seq::<ConsumerId>::empty());
                    assert(base + Seq::<ConsumerId>::empty() =~= base);
                },
            }
            t = t + 1;
        }
        proof {
            assert(topics@.take(t as int) =~= topics@);
        }
        out
    }
}

/// The list without a consumer.
pub fn without(list: &Vec<ConsumerId>, handler: ConsumerId) -> (r: Vec<ConsumerId>)
    ensures
        r@ == list@.filter(|h: ConsumerId| h != handler),
{
    let mut out: Vec<ConsumerId> = Vec::new();
    let mut k: usize = 0;
    let ghost pred = |h: ConsumerId| h != handler;
    proof {
        assert(list@.take(0) =~= Seq::<ConsumerId>::empty());
        assert(list@.take(0).filter(pred) =~= Seq::<ConsumerId>::empty());
    }
    while k < list.len()
        invariant
            0 <= k <= list.len(),
            pred == (|h: ConsumerId| h != handler),
            out@ == list@.take(k as int).filter(pred),
        decreases list.len() - k,
    {
        proof {
            assert(list@.take(k + 1) =~= list@.take(k as int).push(list@[k as int]));
            list@.take(k as int).lemma_filter_push(list@[k as int], pred);
        }
        if list[k] != handler {
            out.push(list[k]);
        }
        k = k + 1;
    }
    proof {
        assert(list@.take(k as int) =~= list@);
    }
    out
}

/// Where one entry has changed its consumers, the consumers of its topic
/// are the new ones and those of the other topics are as they were.
pub proof fn lemma_consumers_update(
    before: Seq<TopicConsumers>,
    after: Seq<TopicConsumers>,
    i: int,
    t: Digest,
    from: int,
)
    requires
        0 <= i < before.len(),
        0 <= from <= before.len(),
        after.len() == before.len(),
        spec_topics_distinct(before),
        forall|k: int|
            0 <= k < after.len() ==> (#[trigger] after[k]).topic == before[k].topic && (k != i
                ==> after[k] == before[k]),
    ensures
        spec_consumers_of(after.skip(from), t) == if t == before[i].topic && from <= i {
            after[i].consumers@
        } else {
            spec_consumers_of(before.skip(from), t)
        },
    decreases before.len() - from,
{
    if from < before.len() {
        assert(after.skip(from)[0] == after[from]);
        assert(before.skip(from)[0] == before[from]);
        assert(after.skip(from).drop_first() =~= after.skip(from + 1));
        assert(before.skip(from).drop_first() =~= before.skip(from + 1));
        lemma_consumers_update(before, after, i, t, from + 1);
        if from != i {
            assert(before[from].topic != before[i].topic);
        }
    }
}

/// Where an entry for a new topic stands behind the others, the consumers
/// of its topic are its own and those of the other topics are as they were.
pub proof fn lemma_consumers_push(
    before: Seq<TopicConsumers>,
    after: Seq<TopicConsumers>,
    t: Digest,
    from: int,
)
    requires
        0 <= from <= before.len(),
        after.len() == before.len() + 1,
        forall|k: int| 0 <= k < before.len() ==> after[k] == before[k],
        forall|k: int| 0 <= k < before.len() ==> (#[trigger] before[k]).topic != after.last().topic,
    ensures
        spec_consumers_of(after.skip(from), t) == if t == after.last().topic {
            after.last().consumers@
        } else {
            spec_consumers_of(before.skip(from), t)
        },
    decreases before.len() - from,
{
    assert(after.skip(from)[0] == after[from]);
    assert(after.skip(from).drop_first() =~= after.skip(from + 1));
    if from < before.len() {
        assert(before.skip(from)[0] == before[from]);
        assert(before.skip(from).drop_first() =~= before.skip(from + 1));
        lemma_consumers_push(before, after, t, from + 1);
    } else {
        assert(after.skip(from + 1) =~= Seq::<TopicConsumers>::empty());
        assert(before.skip(from) =~= Seq::<TopicConsumers>::empty());
    }
}

} // verus!
