use stegos::broker::{Broker, BrokerAction, BrokerHandler, BrokerMessage, PubsubMessage};
use stegos::digest::{Digest, PublicKey};
use stegos::generator::{
    Generator, GeneratorAction, GeneratorState, WalletEvent, WalletNotification, WalletResponse,
};
use stegos::pubsub::{
    Command, FilterAnswer, Floodsub, FloodsubEvent, FloodsubMessage, FloodsubRecvEvent,
    FloodsubRpc, FloodsubSendEvent, FloodsubSubscription, FloodsubSubscriptionAction, Parcel,
    PeerId, Topic,
};
use stegos::settings::{
    chain_of, concat3, holds, load_configuration, log_level, merge, resolve_pool, Chain, Config,
    ConfigError, GeneralConfig, LogLevel, Overrides,
};
use stegos::txpool::{
    random_digest, PoolJoin, PoolNotification, TransactionPoolService, MAX_PARTICIPANTS,
    MIN_PARTICIPANTS,
};

fn digest(n: u64) -> Digest {
    Digest { w0: n, w1: 0, w2: 0, w3: 0 }
}

fn peer(n: u64) -> PeerId {
    PeerId { id: digest(n) }
}

fn topic(name: &str) -> Topic {
    Topic::new(name.as_bytes().to_vec())
}

fn drain(f: &mut Floodsub) -> Vec<Command> {
    let mut out = Vec::new();
    while let Some(c) = f.poll() {
        out.push(c);
    }
    out
}

fn subscribe_rpc(rpc: &FloodsubRpc) -> Digest {
    assert!(rpc.messages.is_empty());
    assert_eq!(rpc.subscriptions.len(), 1);
    assert_eq!(rpc.subscriptions[0].action, FloodsubSubscriptionAction::Subscribe);
    rpc.subscriptions[0].topic
}

fn sent(c: &Command) -> (PeerId, &FloodsubSendEvent) {
    match c {
        Command::SendEvent { peer_id, event } => (*peer_id, event),
        other => panic!("{:?}", other),
    }
}

fn message(source: u64, seq: u8, topics: &[Digest], data: &[u8]) -> FloodsubMessage {
    FloodsubMessage {
        source: peer(source),
        data: data.to_vec(),
        sequence_number: vec![seq],
        topics: topics.to_vec(),
    }
}

fn subscription(action: FloodsubSubscriptionAction, t: Digest) -> FloodsubSubscription {
    FloodsubSubscription { action, topic: t }
}

#[test]
fn topic_hash_is_digest_of_name() {
    let t = topic("consensus");
    assert_eq!(t.hash(), Digest::digest(b"consensus"));
    assert_ne!(t.hash(), topic("tx").hash());
}

#[test]
fn subscribe_tells_every_peer_once() {
    let mut f = Floodsub::new(peer(0));
    f.inject_connected(peer(1));
    f.inject_connected(peer(2));
    let t = topic("tx");
    assert!(f.subscribe(topic("tx")));
    let cmds = drain(&mut f);
    assert_eq!(cmds.len(), 2);
    for (i, c) in cmds.iter().enumerate() {
        let (to, event) = sent(c);
        assert_eq!(to, peer(i as u64 + 1));
        match event {
            FloodsubSendEvent::Publish(rpc) => assert_eq!(subscribe_rpc(rpc), t.hash()),
            other => panic!("{:?}", other),
        }
    }
    // Returns false if we were already subscribed.
    assert!(!f.subscribe(topic("tx")));
    assert!(drain(&mut f).is_empty());
    assert_eq!(f.topics(), vec![topic("tx").hash()]);
}

#[test]
fn enable_and_disable() {
    let mut f = Floodsub::new(peer(0));
    f.subscribe(topic("a"));
    f.subscribe(topic("b"));
    // A peer that is not connected is not spoken to.
    f.enable_outgoing(&peer(1));
    f.enable_incoming(&peer(1));
    assert!(drain(&mut f).is_empty());
    f.inject_connected(peer(1));
    f.enable_outgoing(&peer(1));
    let cmds = drain(&mut f);
    assert_eq!(cmds.len(), 3);
    assert!(matches!(sent(&cmds[0]), (p, FloodsubSendEvent::EnableOutgoing) if p == peer(1)));
    match sent(&cmds[1]).1 {
        FloodsubSendEvent::Publish(rpc) => assert_eq!(subscribe_rpc(rpc), topic("a").hash()),
        other => panic!("{:?}", other),
    }
    match sent(&cmds[2]).1 {
        FloodsubSendEvent::Publish(rpc) => assert_eq!(subscribe_rpc(rpc), topic("b").hash()),
        other => panic!("{:?}", other),
    }
    f.enable_incoming(&peer(1));
    f.disable(&peer(9));
    let cmds = drain(&mut f);
    assert!(matches!(sent(&cmds[0]), (p, FloodsubSendEvent::EnableIncoming) if p == peer(1)));
    assert!(matches!(sent(&cmds[1]), (p, FloodsubSendEvent::Disable) if p == peer(9)));
    f.inject_disconnected(&peer(1));
    f.inject_disconnected(&peer(1));
    f.enable_incoming(&peer(1));
    assert!(drain(&mut f).is_empty());
}

#[test]
fn publish_goes_to_subscribed_peers() {
    let mut f = Floodsub::new(peer(0));
    let (a, b) = (topic("a").hash(), topic("b").hash());
    for p in 1..=3 {
        f.inject_connected(peer(p));
    }
    // Peer 1 takes up a, peer 2 takes up b, peer 3 nothing.
    let rpc = |subs| FloodsubRecvEvent::Message(FloodsubRpc { messages: vec![], subscriptions: subs });
    f.inject_node_event(peer(1), rpc(vec![subscription(FloodsubSubscriptionAction::Subscribe, a)]));
    f.inject_node_event(peer(2), rpc(vec![subscription(FloodsubSubscriptionAction::Subscribe, b)]));
    let cmds = drain(&mut f);
    assert_eq!(cmds.len(), 2);
    assert!(matches!(&cmds[0], Command::GenerateEvent(FloodsubEvent::Subscribed { peer_id, topic }) if *peer_id == peer(1) && *topic == a));

    // Doesn't do anything if we're not subscribed to the topic.
    assert!(!f.publish(a, vec![1, 2]).noted);
    assert!(drain(&mut f).is_empty());
    assert!(!f.publish_many(vec![a, b], vec![1, 2]).noted);
    assert!(drain(&mut f).is_empty());

    f.subscribe(topic("a"));
    drain(&mut f);
    let published = f.publish(a, vec![1, 2]);
    assert!(published.noted);
    let seq = published.sequence_number;
    assert_eq!(seq.len(), 20);
    let cmds = drain(&mut f);
    assert_eq!(cmds.len(), 1);
    let (to, event) = sent(&cmds[0]);
    assert_eq!(to, peer(1));
    match event {
        FloodsubSendEvent::Publish(rpc) => {
            assert!(rpc.subscriptions.is_empty());
            assert_eq!(rpc.messages.len(), 1);
            let m = &rpc.messages[0];
            assert_eq!((m.source, &m.data, &m.sequence_number), (peer(0), &vec![1, 2], &seq));
            assert_eq!(m.topics, vec![a]);
        }
        other => panic!("{:?}", other),
    }
    // A message of many topics goes once to each peer that has one of them.
    let seq2 = f.publish_many(vec![b, a], vec![3]).sequence_number;
    assert_ne!(seq, seq2);
    let cmds = drain(&mut f);
    assert_eq!(cmds.iter().map(|c| sent(c).0).collect::<Vec<_>>(), vec![peer(1), peer(2)]);
}

#[test]
fn a_message_is_taken_as_the_filter_answers() {
    let mut f = Floodsub::new(peer(0));
    let (a, b) = (topic("a").hash(), topic("b").hash());
    for p in 1..=3 {
        f.inject_connected(peer(p));
    }
    let rpc = |subs| FloodsubRecvEvent::Message(FloodsubRpc { messages: vec![], subscriptions: subs });
    f.inject_node_event(peer(1), rpc(vec![subscription(FloodsubSubscriptionAction::Subscribe, a)]));
    f.inject_node_event(peer(2), rpc(vec![subscription(FloodsubSubscriptionAction::Subscribe, a)]));
    f.inject_node_event(peer(3), rpc(vec![subscription(FloodsubSubscriptionAction::Subscribe, b)]));
    f.subscribe(topic("b"));
    drain(&mut f);

    let on_a = message(9, 1, &[a], &[1]);
    let on_b = message(9, 2, &[b], &[2]);
    let mut parcels: Vec<Parcel> = Vec::new();
    // A message that the filter knows is dropped.
    assert!(!f.take_message(&mut parcels, peer(1), &on_a, FilterAnswer::Known));
    assert!(parcels.is_empty());
    assert!(drain(&mut f).is_empty());
    // A new one goes into the parcels of the peers that take it, the sender left out.
    assert!(f.take_message(&mut parcels, peer(1), &on_a, FilterAnswer::Added));
    assert_eq!(parcels.iter().map(|p| p.peer_id).collect::<Vec<_>>(), vec![peer(2)]);
    // This node has not subscribed to its topic: the user does not see it.
    assert!(drain(&mut f).is_empty());
    // A full filter does not hold a new message back.
    assert!(f.take_message(&mut parcels, peer(1), &on_b, FilterAnswer::Full));
    assert_eq!(parcels.iter().map(|p| p.peer_id).collect::<Vec<_>>(), vec![peer(2), peer(3)]);
    let cmds = drain(&mut f);
    assert_eq!(cmds.len(), 1);
    assert!(matches!(&cmds[0], Command::GenerateEvent(FloodsubEvent::Message(m)) if m.data == vec![2]));
    // A second message for a peer goes into its parcel, behind the first.
    assert!(f.take_message(&mut parcels, peer(3), &on_a, FilterAnswer::Added));
    assert_eq!(parcels.iter().map(|p| p.peer_id).collect::<Vec<_>>(), vec![peer(2), peer(3), peer(1)]);
    assert!(f.take_message(&mut parcels, peer(1), &on_b, FilterAnswer::Added));
    assert_eq!(parcels[1].rpc.messages.iter().map(|m| m.data.clone()).collect::<Vec<_>>(), vec![vec![2], vec![2]]);
}

#[test]
fn the_filter_decides_what_is_new() {
    let mut f = Floodsub::new(peer(0));
    let a = topic("a").hash();
    f.inject_connected(peer(1));
    f.inject_connected(peer(2));
    let subs = FloodsubRpc {
        messages: vec![],
        subscriptions: vec![subscription(FloodsubSubscriptionAction::Subscribe, a)],
    };
    f.inject_node_event(peer(2), FloodsubRecvEvent::Message(subs));
    drain(&mut f);
    let packet = |ms: Vec<FloodsubMessage>| {
        FloodsubRecvEvent::Message(FloodsubRpc { messages: ms, subscriptions: vec![] })
    };
    // The first message of a packet is new where the filter has not seen it.
    let r = f.inject_node_event(peer(1), packet(vec![message(7, 1, &[a], &[1])]));
    assert_eq!((r.fresh, r.overflowed), (vec![true], false));
    assert_eq!(drain(&mut f).len(), 1);
    // And not new where it has.
    let r = f.inject_node_event(peer(1), packet(vec![message(7, 1, &[a], &[1])]));
    assert_eq!((r.fresh, r.overflowed), (vec![false], false));
    assert!(drain(&mut f).is_empty());
    // Within a packet a message is new once; the new ones go out in one packet, in their order.
    let r = f.inject_node_event(
        peer(1),
        packet(vec![
            message(7, 2, &[a], &[2]),
            message(7, 1, &[a], &[1]),
            message(7, 2, &[a], &[2]),
            message(7, 3, &[a], &[3]),
        ]),
    );
    assert_eq!((r.fresh, r.overflowed), (vec![true, false, false, true], false));
    let cmds = drain(&mut f);
    assert_eq!(cmds.len(), 1);
    let (to, event) = sent(&cmds[0]);
    assert_eq!(to, peer(2));
    match event {
        FloodsubSendEvent::Publish(rpc) => {
            assert_eq!(rpc.messages.iter().map(|m| m.data.clone()).collect::<Vec<_>>(), vec![vec![2], vec![3]]);
        }
        other => panic!("{:?}", other),
    }
    // A message that this node has published is not new when it comes back.
    f.subscribe(topic("a"));
    drain(&mut f);
    let own = message(0, 5, &[a], &[5]);
    assert!(f.publish_message(message(0, 5, &[a], &[5])));
    drain(&mut f);
    let r = f.inject_node_event(peer(1), packet(vec![own]));
    assert_eq!(r.fresh, vec![false]);
    assert!(drain(&mut f).is_empty());
}

#[test]
fn incoming_messages_are_dispatched_once() {
    let mut f = Floodsub::new(peer(0));
    let (a, b) = (topic("a").hash(), topic("b").hash());
    for p in 1..=3 {
        f.inject_connected(peer(p));
    }
    f.subscribe(topic("a"));
    let sub = |t| subscription(FloodsubSubscriptionAction::Subscribe, t);
    f.inject_node_event(peer(1), FloodsubRecvEvent::Message(FloodsubRpc { messages: vec![], subscriptions: vec![sub(a), sub(a), sub(b)] }));
    f.inject_node_event(peer(2), FloodsubRecvEvent::Message(FloodsubRpc { messages: vec![], subscriptions: vec![sub(a)] }));
    f.inject_node_event(peer(3), FloodsubRecvEvent::Message(FloodsubRpc { messages: vec![], subscriptions: vec![sub(b)] }));
    drain(&mut f);

    // Peer 1 sends three messages, of which one is sent twice.
    let m1 = message(1, 1, &[a], b"one");
    let m2 = message(1, 2, &[b], b"two");
    let m3 = message(1, 3, &[a, b], b"three");
    let fresh = f.inject_node_event(
        peer(1),
        FloodsubRecvEvent::Message(FloodsubRpc {
            messages: vec![m1.duplicate(), m2.duplicate(), m1.duplicate(), m3.duplicate()],
            subscriptions: vec![],
        }),
    );
    assert_eq!(fresh.fresh, vec![true, true, false, true]);
    assert!(!fresh.overflowed);
    let cmds = drain(&mut f);
    // To the user: the messages of topic a, each once.
    let data = |c: &Command| match c {
        Command::GenerateEvent(FloodsubEvent::Message(m)) => Some(m.data.clone()),
        _ => None,
    };
    assert_eq!(cmds.iter().filter_map(data).collect::<Vec<_>>(), vec![b"one".to_vec(), b"three".to_vec()]);
    // To the peers: one packet each, the sender left out.
    let packets: Vec<(PeerId, Vec<Vec<u8>>)> = cmds
        .iter()
        .filter_map(|c| match c {
            Command::SendEvent { peer_id, event: FloodsubSendEvent::Publish(rpc) } => {
                Some((*peer_id, rpc.messages.iter().map(|m| m.data.clone()).collect()))
            }
            _ => None,
        })
        .collect();
    assert_eq!(
        packets,
        vec![
            (peer(2), vec![b"one".to_vec(), b"three".to_vec()]),
            (peer(3), vec![b"two".to_vec(), b"three".to_vec()]),
        ]
    );
    assert_eq!(cmds.len(), 4);
    // The same message again: nothing happens.
    let fresh = f.inject_node_event(
        peer(2),
        FloodsubRecvEvent::Message(FloodsubRpc { messages: vec![m3.duplicate()], subscriptions: vec![] }),
    );
    assert_eq!(fresh.fresh, vec![false]);
    assert!(drain(&mut f).is_empty());
    // What we have published ourselves is not dispatched when it comes back.
    let seq = f.publish(a, vec![9]).sequence_number;
    drain(&mut f);
    let back = FloodsubMessage { source: peer(0), data: vec![9], sequence_number: seq, topics: vec![a] };
    let fresh = f.inject_node_event(
        peer(2),
        FloodsubRecvEvent::Message(FloodsubRpc { messages: vec![back], subscriptions: vec![] }),
    );
    assert_eq!(fresh.fresh, vec![false]);
    assert_ne!(m1.key(), m2.key());
    assert_eq!(m1.key(), m1.duplicate().key());
}

#[test]
fn unsubscribe_and_handler_events() {
    let mut f = Floodsub::new(peer(0));
    let a = topic("a").hash();
    f.inject_connected(peer(1));
    let sub = |action| subscription(action, a);
    f.inject_node_event(
        peer(1),
        FloodsubRecvEvent::Message(FloodsubRpc {
            messages: vec![],
            subscriptions: vec![
                sub(FloodsubSubscriptionAction::Subscribe),
                sub(FloodsubSubscriptionAction::Unsubscribe),
                sub(FloodsubSubscriptionAction::Unsubscribe),
            ],
        }),
    );
    let cmds = drain(&mut f);
    assert_eq!(cmds.len(), 3);
    assert!(matches!(&cmds[0], Command::GenerateEvent(FloodsubEvent::Subscribed { .. })));
    assert!(matches!(&cmds[1], Command::GenerateEvent(FloodsubEvent::Unsubscribed { peer_id, topic }) if *peer_id == peer(1) && *topic == a));
    assert!(matches!(&cmds[2], Command::GenerateEvent(FloodsubEvent::Unsubscribed { .. })));
    f.subscribe(topic("a"));
    drain(&mut f);
    f.publish(a, vec![1]);
    assert!(drain(&mut f).is_empty());

    assert!(f.inject_node_event(peer(5), FloodsubRecvEvent::EnabledIncoming).fresh.is_empty());
    f.inject_node_event(peer(5), FloodsubRecvEvent::EnabledOutgoing);
    f.inject_node_event(peer(5), FloodsubRecvEvent::Disabled);
    let cmds = drain(&mut f);
    assert!(matches!(&cmds[0], Command::GenerateEvent(FloodsubEvent::EnabledIncoming { peer_id }) if *peer_id == peer(5)));
    assert!(matches!(&cmds[1], Command::GenerateEvent(FloodsubEvent::EnabledOutgoing { peer_id }) if *peer_id == peer(5)));
    assert!(matches!(&cmds[2], Command::GenerateEvent(FloodsubEvent::Disabled { peer_id }) if *peer_id == peer(5)));
    // A peer that connects anew has no topics.
    f.inject_node_event(peer(1), FloodsubRecvEvent::Message(FloodsubRpc { messages: vec![], subscriptions: vec![sub(FloodsubSubscriptionAction::Subscribe)] }));
    f.inject_connected(peer(1));
    drain(&mut f);
    f.publish(a, vec![1]);
    assert!(drain(&mut f).is_empty());
    assert_eq!(f.connected_peers.len(), 1);
}

#[test]
fn broker_routes_by_topic() {
    let mut b = Broker::new();
    let (x, y, z) = (digest(1), digest(2), digest(3));
    b.subscribe(x, 10);
    b.subscribe(y, 20);
    b.subscribe(x, 11);
    b.subscribe(x, 10);
    assert_eq!(b.receivers(&vec![x]), vec![10, 11, 10]);
    assert_eq!(b.receivers(&vec![y, x]), vec![20, 10, 11, 10]);
    assert_eq!(b.receivers(&vec![z]), vec![]);
    assert_eq!(b.receivers(&vec![]), vec![]);
    // A closed consumer leaves its topic, and that topic only.
    b.subscribe(y, 10);
    b.drop_consumer(&x, 10);
    assert_eq!(b.receivers(&vec![x]), vec![11]);
    assert_eq!(b.receivers(&vec![y]), vec![20, 10]);
    b.drop_consumer(&z, 10);
    b.drop_consumer(&x, 99);
    assert_eq!(b.receivers(&vec![x, y]), vec![11, 20, 10]);
    assert_eq!(b.position(&y), Some(1));
    assert_eq!(b.position(&z), None);
}

fn join(seed: u64) -> PoolJoin {
    PoolJoin { seed: digest(seed), txins: vec![digest(seed + 100)], utxos: vec![], ownsig: vec![seed as u8] }
}

fn pkey(n: u64) -> PublicKey {
    PublicKey { id: digest(n) }
}

#[test]
fn pool_forms_with_enough_participants() {
    assert_eq!((MIN_PARTICIPANTS, MAX_PARTICIPANTS), (3, 20));
    let mut pool = TransactionPoolService::new();
    assert!(pool.try_to_form_pool().is_none());
    assert!(pool.add_participant(pkey(1), join(1)));
    assert!(pool.add_participant(pkey(2), join(2)));
    // Two are not enough, and stay.
    assert!(pool.try_to_form_pool().is_none());
    assert_eq!(pool.participants.len(), 2);
    // A participant that joins again is not new; what it brings is replaced.
    let mut again = join(2);
    again.ownsig = vec![99];
    assert!(!pool.add_participant(pkey(2), again));
    assert_eq!(pool.participants.len(), 2);
    assert_eq!(pool.participants[1].ownsig, vec![99]);
    // The same key under another seed is another participant.
    assert!(pool.add_participant(pkey(2), join(3)));
    let a = pool.form_pool(digest(555)).unwrap();
    assert_eq!(a.destinations, vec![pkey(1), pkey(2), pkey(2)]);
    match a.notification {
        PoolNotification::Started(info) => {
            assert_eq!(info.session_id, digest(555));
            assert_eq!(info.participants.len(), 3);
            assert_eq!(info.participants[0].txins, vec![digest(101)]);
            assert_eq!(info.participants[2].participant.seed, digest(3));
        }
        PoolNotification::Canceled => panic!("a pool is due"),
    }
    assert!(pool.participants.is_empty());
    assert_ne!(random_digest(), random_digest());
}

#[test]
fn pool_forms_at_once_when_full() {
    let mut pool = TransactionPoolService::new();
    for i in 1..20 {
        assert!(pool.handle_join_message(join(i), pkey(i), digest(7)).is_none());
    }
    // The twentieth participant that is known already changes nothing.
    assert!(pool.handle_join_message(join(5), pkey(5), digest(7)).is_none());
    let a = pool.handle_join_message(join(20), pkey(20), digest(8)).unwrap();
    assert_eq!(a.destinations.len(), 20);
    assert!(matches!(a.notification, PoolNotification::Started(ref info) if info.session_id == digest(8)));
    assert!(pool.participants.is_empty());
}

#[test]
fn pool_shutdown() {
    let mut pool = TransactionPoolService::new();
    pool.add_participant(pkey(1), join(1));
    pool.add_participant(pkey(2), join(2));
    let a = pool.shutdown(digest(1));
    assert!(matches!(a.notification, PoolNotification::Canceled));
    assert_eq!(a.destinations, vec![pkey(1), pkey(2)]);
    pool.add_participant(pkey(3), join(3));
    let a = pool.shutdown(digest(1));
    assert!(matches!(a.notification, PoolNotification::Started(_)));
    assert_eq!(a.destinations.len(), 3);
}

#[test]
fn generator_cycle() {
    let mut g = Generator::new(vec![pkey(1), pkey(2)], true, 1_000);
    assert_eq!(g.state, GeneratorState::NotInited);
    assert_eq!(g.timeout, Some(16_000));
    assert!(!g.poll_timeout(15_999));
    assert!(g.poll_timeout(16_000));
    assert_eq!(g.timeout, None);
    assert!(g.poll_timeout(0));
    g.handle_wait_init(WalletNotification::Other);
    assert_eq!(g.state, GeneratorState::NotInited);
    g.handle_wait_init(WalletNotification::BalanceChanged);
    assert_eq!(g.state, GeneratorState::CreateNew);
    g.add_destinations(vec![pkey(3)]);
    assert_eq!(g.destinations, vec![pkey(1), pkey(2), pkey(3)]);
    let mut seen = Vec::new();
    for _ in 0..200 {
        g.state = GeneratorState::CreateNew;
        match g.generate_tx() {
            GeneratorAction::Pay { recipient } => {
                assert!(g.destinations.contains(&recipient));
                if !seen.contains(&recipient) {
                    seen.push(recipient);
                }
            }
            other => panic!("{:?}", other),
        }
        assert_eq!(g.state, GeneratorState::WaitForWallet);
    }
    // The recipient is drawn, not always the first.
    assert!(seen.len() > 1);
    assert_eq!(g.handle_wait_creation(WalletResponse::Other), GeneratorAction::Idle);
    assert_eq!(g.state, GeneratorState::CreateNew);
    assert_eq!(g.handle_wait_creation(WalletResponse::Error), GeneratorAction::Subscribe);
    assert_eq!(g.state, GeneratorState::NotInited);
    assert_eq!(g.handle_wait_creation(WalletResponse::TransactionCreated), GeneratorAction::Subscribe);
    assert_eq!(g.state, GeneratorState::WaitForConfirmation);
    g.handle_wait_confirm(WalletNotification::Other);
    assert_eq!(g.state, GeneratorState::WaitForConfirmation);
    g.handle_wait_confirm(WalletNotification::BalanceChanged);
    assert_eq!(g.state, GeneratorState::CreateNew);
    assert_eq!(g.pay(pkey(2)), GeneratorAction::Pay { recipient: pkey(2) });
    let g = Generator::new(vec![pkey(1)], false, 5);
    assert_eq!(g.timeout, None);
    let g = Generator::new(vec![pkey(1)], true, u64::MAX);
    assert_eq!(g.timeout, Some(u64::MAX));
}

#[test]
fn generator_steps() {
    let balance = Some(WalletEvent::Notification(WalletNotification::BalanceChanged));
    let other = Some(WalletEvent::Notification(WalletNotification::Other));
    let answer = |r| Some(WalletEvent::Response(r));
    let mut g = Generator::new(vec![pkey(1), pkey(2)], false, 0);
    // Before the wallet is ready only a change of the balance counts.
    assert_eq!(g.step(None), GeneratorAction::Idle);
    assert_eq!(g.step(other), GeneratorAction::Idle);
    assert_eq!(g.step(answer(WalletResponse::TransactionCreated)), GeneratorAction::Idle);
    assert_eq!(g.state, GeneratorState::NotInited);
    assert_eq!(g.step(balance), GeneratorAction::Idle);
    assert_eq!(g.state, GeneratorState::CreateNew);
    // A payment is due: the event is not read.
    match g.step(balance) {
        GeneratorAction::Pay { recipient } => assert!(g.destinations.contains(&recipient)),
        action => panic!("{:?}", action),
    }
    assert_eq!(g.state, GeneratorState::WaitForWallet);
    // While the wallet works, only its answer counts.
    assert_eq!(g.step(balance), GeneratorAction::Idle);
    assert_eq!(g.step(None), GeneratorAction::Idle);
    assert_eq!(g.state, GeneratorState::WaitForWallet);
    assert_eq!(g.step(answer(WalletResponse::TransactionCreated)), GeneratorAction::Subscribe);
    assert_eq!(g.state, GeneratorState::WaitForConfirmation);
    assert_eq!(g.step(answer(WalletResponse::Error)), GeneratorAction::Idle);
    assert_eq!(g.step(other), GeneratorAction::Idle);
    assert_eq!(g.state, GeneratorState::WaitForConfirmation);
    assert_eq!(g.step(balance), GeneratorAction::Idle);
    assert_eq!(g.state, GeneratorState::CreateNew);
    assert!(matches!(g.step(None), GeneratorAction::Pay { .. }));
    assert_eq!(g.step(answer(WalletResponse::Error)), GeneratorAction::Subscribe);
    assert_eq!(g.state, GeneratorState::NotInited);
    g.state = GeneratorState::WaitForWallet;
    assert_eq!(g.step(answer(WalletResponse::Other)), GeneratorAction::Idle);
    assert_eq!(g.state, GeneratorState::CreateNew);
}

#[test]
fn chains_by_name() {
    assert_eq!(chain_of("dev"), Some(Chain::Dev));
    assert_eq!(chain_of("testnet"), Some(Chain::Testnet));
    assert_eq!(chain_of("mainnet"), Some(Chain::Mainnet));
    assert_eq!(chain_of(""), None);
    assert_eq!(chain_of("Dev"), None);
    assert_eq!(chain_of("dev "), None);
    assert_eq!(chain_of("devnet"), None);
    assert_eq!(chain_of("net"), None);
    assert_eq!(Chain::Dev.prefix(), "dev");
    assert_eq!(Chain::Testnet.prefix(), "stt");
    assert_eq!(Chain::Mainnet.prefix(), "stg");
    assert_eq!(chain_of("main"), None);
    assert_eq!(concat3("ab", "", "cd"), "abcd");
    assert_eq!(concat3("", "x", ""), "x");
}

fn config(chain: &str) -> Config {
    Config {
        general: GeneralConfig {
            chain: chain.to_string(),
            data_dir: "data".to_string(),
            force_check: false,
            log_config: String::new(),
            prometheus_endpoint: String::new(),
            api_endpoint: String::new(),
        },
        seed_pool: String::new(),
        chain_overridden: false,
        node_overridden: false,
    }
}

fn no_overrides() -> Overrides {
    Overrides {
        env_chain: None,
        chain: None,
        data_dir: None,
        force_check: false,
        log_config: None,
        prometheus_endpoint: None,
        api_endpoint: None,
    }
}

#[test]
fn settings_merge_and_check() {
    let merged = merge(
        config("dev"),
        Overrides {
            env_chain: Some("devnet".to_string()),
            chain: Some("testnet".to_string()),
            data_dir: Some("/var".to_string()),
            force_check: true,
            prometheus_endpoint: Some("127.0.0.1:9090".to_string()),
            ..no_overrides()
        },
    );
    assert_eq!(merged.general.chain, "testnet");
    assert_eq!(merged.general.data_dir, "/var");
    assert!(merged.general.force_check);
    assert_eq!(merged.general.prometheus_endpoint, "127.0.0.1:9090");
    assert_eq!(merged.general.api_endpoint, "");
    let merged = merge(config("dev"), Overrides { env_chain: Some("devnet".to_string()), ..no_overrides() });
    assert_eq!(merged.general.chain, "devnet");
    let merged = merge(config("dev"), no_overrides());
    assert_eq!(merged.general.chain, "dev");

    // Every chain but dev gets its default seed pool.
    assert_eq!(load_configuration(config("dev"), true, true).unwrap().seed_pool, "");
    assert_eq!(load_configuration(config("testnet"), true, true).unwrap().seed_pool, "_stegos._tcp.testnet.aws.stegos.com");
    let mut c = config("testnet");
    c.seed_pool = "mine".to_string();
    assert_eq!(load_configuration(c, true, true).unwrap().seed_pool, "mine");

    // The verdicts count only for endpoints that are given.
    assert!(load_configuration(config("dev"), false, false).is_ok());
    let mut c = config("dev");
    c.general.prometheus_endpoint = "x".to_string();
    c.general.api_endpoint = "y".to_string();
    assert_eq!(load_configuration(c, false, false).err(), Some(ConfigError::InvalidPrometheusEndpoint));
    let mut c = config("dev");
    c.general.prometheus_endpoint = "x".to_string();
    c.general.api_endpoint = "y".to_string();
    assert_eq!(load_configuration(c, true, false).err(), Some(ConfigError::InvalidApiEndpoint));

    for chain in ["mainnet", "testnet"] {
        let mut c = config(chain);
        c.chain_overridden = true;
        c.node_overridden = true;
        assert_eq!(load_configuration(c, true, true).err(), Some(ConfigError::ChainOverride));
        let mut c = config(chain);
        c.node_overridden = true;
        assert_eq!(load_configuration(c, true, true).err(), Some(ConfigError::NodeOverride));
    }
    let mut c = config("devnet");
    c.chain_overridden = true;
    c.node_overridden = true;
    assert!(load_configuration(c, true, true).is_ok());

    assert_eq!(log_level(0), LogLevel::Info);
    assert_eq!(log_level(1), LogLevel::Debug);
    assert_eq!(log_level(2), LogLevel::Trace);
    assert_eq!(log_level(7), LogLevel::Trace);
}

#[test]
fn broker_poll() {
    let handler = BrokerHandler {};
    let mut b = Broker::new();
    let name = b"tx".to_vec();
    let hash = Digest::digest(b"tx");
    match b.poll(BrokerMessage::Pubsub(handler.subscribe(&name, 7))) {
        BrokerAction::Subscribe { topic } => {
            assert_eq!(topic.descriptor, name);
            assert_eq!(topic.hash, hash);
        }
        other => panic!("{:?}", other),
    }
    b.poll(BrokerMessage::Pubsub(handler.subscribe(&name, 8)));
    match b.poll(BrokerMessage::Pubsub(handler.publish(&name, vec![1, 2]))) {
        BrokerAction::Publish { topic, data } => {
            assert_eq!((topic.hash, data), (hash, vec![1, 2]));
        }
        other => panic!("{:?}", other),
    }
    assert!(matches!(handler.publish(&name, vec![3]), PubsubMessage::Publish { ref topic, ref data } if *topic == name && *data == vec![3]));
    match b.poll(BrokerMessage::Input { topics: vec![digest(5), hash], data: vec![9] }) {
        BrokerAction::Deliver { consumers, data } => {
            assert_eq!((consumers, data), (vec![7, 8], vec![9]));
        }
        other => panic!("{:?}", other),
    }
}

#[test]
fn seed_pool_adds_new_addresses() {
    let text = |s: &str| s.to_string();
    let mut seeds = vec![text("/ip4/1.1.1.1/tcp/10")];
    let own = vec![text("/ip4/9.9.9.9/tcp/10")];
    let found = vec![
        text("/ip4/2.2.2.2/tcp/10"),
        text("/ip4/9.9.9.9/tcp/10"),
        text("/ip4/1.1.1.1/tcp/10"),
        text("/ip4/2.2.2.2/tcp/10"),
        text("/ip4/3.3.3.3/tcp/10"),
    ];
    resolve_pool(&mut seeds, &own, found);
    assert_eq!(seeds, vec![text("/ip4/1.1.1.1/tcp/10"), text("/ip4/2.2.2.2/tcp/10"), text("/ip4/3.3.3.3/tcp/10")]);
    resolve_pool(&mut seeds, &own, vec![]);
    assert_eq!(seeds.len(), 3);
    assert!(holds(&seeds, &text("/ip4/3.3.3.3/tcp/10")));
    assert!(!holds(&seeds, &text("/ip4/3.3.3.3/tcp/1")));
}
