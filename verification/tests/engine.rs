use stegos::config::NodeConfig;
use stegos::consensus::{
    carries, Action, ConsensusState, Evidence, Message, MessageKind, Phase, Role,
};
use stegos::digest::{Digest, PublicKey};
use stegos::validators::{Validator, ValidatorSet};

fn digest(n: u64) -> Digest {
    Digest { w0: n, w1: 0, w2: 0, w3: 0 }
}

fn key(n: u64) -> PublicKey {
    PublicKey { id: digest(n) }
}

/// Four validators: stakes 40, 30, 20, 10 of 100; a vote carries with 68.
fn validators() -> ValidatorSet {
    ValidatorSet::new(
        (1..=4u64)
            .map(|i| Validator { network_pkey: key(i), stake: 50 - 10 * i as i64, active_until_epoch: 9 })
            .collect(),
    )
    .unwrap()
}

fn msg(kind: MessageKind, sender: u64, hash: u64) -> Message {
    Message { epoch: 2, offset: 3, view: 1, hash: digest(hash), kind, sender: key(sender) }
}

/// Node `me` (by place) in view 1 of height (2, 3), of which the validator at place 0 is leader.
fn state(me: Option<usize>) -> ConsensusState {
    ConsensusState::new(2, 3, 1, 4, 0, me, 1_000)
}

const H: u64 = 77;

#[test]
fn enters_idle() {
    let s = state(Some(0));
    assert_eq!((s.role, s.phase, s.proposal), (Role::Leader, Phase::Idle, None));
    assert_eq!(s.prevotes, vec![None; 4]);
    assert_eq!(s.precommits, vec![None; 4]);
    let s = state(Some(2));
    assert_eq!(s.role, Role::Follower);
    let s = state(None);
    assert_eq!(s.role, Role::Follower);
}

#[test]
fn proposal_is_taken_once_from_the_leader() {
    let vs = validators();
    let mut s = state(Some(1));
    // Not from the leader; a bad signature; an invalid block: dropped.
    assert!(s.handle(&vs, &msg(MessageKind::Proposal, 2, H), true, true).is_empty());
    assert!(s.handle(&vs, &msg(MessageKind::Proposal, 1, H), false, true).is_empty());
    assert!(s.handle(&vs, &msg(MessageKind::Proposal, 1, H), true, false).is_empty());
    assert_eq!((s.phase, s.proposal), (Phase::Idle, None));
    // Another height or view: dropped.
    let mut other = msg(MessageKind::Proposal, 1, H);
    other.view = 2;
    assert!(s.handle(&vs, &other, true, true).is_empty());
    other.view = 1;
    other.offset = 4;
    assert!(s.handle(&vs, &other, true, true).is_empty());
    other.offset = 3;
    other.epoch = 1;
    assert!(s.handle(&vs, &other, true, true).is_empty());

    let actions = s.handle(&vs, &msg(MessageKind::Proposal, 1, H), true, true);
    assert_eq!(actions, vec![Action::Broadcast(msg(MessageKind::Prevote, 2, H))]);
    assert_eq!((s.phase, s.proposal), (Phase::Prevoted, Some(digest(H))));
    assert_eq!(s.prevotes[1], Some(digest(H)));
    // The same proposal again: dropped. Another one: dropped, and kept as evidence.
    assert!(s.handle(&vs, &msg(MessageKind::Proposal, 1, H), true, true).is_empty());
    assert!(s.evidence.is_empty());
    assert!(s.handle(&vs, &msg(MessageKind::Proposal, 1, H + 1), true, true).is_empty());
    assert_eq!(
        s.evidence,
        vec![Evidence { validator: key(1), kind: MessageKind::Proposal, first: digest(H), second: digest(H + 1) }]
    );
    assert_eq!(s.proposal, Some(digest(H)));
}

#[test]
fn votes_are_weighed_by_stake() {
    let vs = validators();
    let mut s = state(Some(3));
    let actions = s.handle(&vs, &msg(MessageKind::Proposal, 1, H), true, true);
    assert_eq!(actions.len(), 1);
    // Own 10 and 40 of the leader: 50. With 20 more: 70, which carries.
    assert!(s.handle(&vs, &msg(MessageKind::Prevote, 1, H), true, false).is_empty());
    assert!(!carries(&vs, &s.prevotes, &digest(H)));
    // A stranger and a vote for another block add nothing.
    assert!(s.handle(&vs, &msg(MessageKind::Prevote, 9, H), true, false).is_empty());
    assert!(s.handle(&vs, &msg(MessageKind::Prevote, 2, H + 1), true, false).is_empty());
    assert_eq!(s.phase, Phase::Prevoted);
    let actions = s.handle(&vs, &msg(MessageKind::Prevote, 3, H), true, false);
    assert_eq!(actions, vec![Action::Broadcast(msg(MessageKind::Precommit, 4, H))]);
    assert_eq!(s.phase, Phase::Precommitted);
    assert!(carries(&vs, &s.prevotes, &digest(H)));
    assert_eq!(s.precommits[3], Some(digest(H)));
}

#[test]
fn second_votes_do_not_count() {
    let vs = validators();
    let mut s = state(Some(3));
    s.handle(&vs, &msg(MessageKind::Proposal, 1, H), true, true);
    // Validator 2 votes for another block first, and then for the proposal.
    s.handle(&vs, &msg(MessageKind::Prevote, 2, H + 1), true, false);
    s.handle(&vs, &msg(MessageKind::Prevote, 2, H), true, false);
    assert_eq!(s.prevotes[1], Some(digest(H + 1)));
    assert_eq!(
        s.evidence,
        vec![Evidence { validator: key(2), kind: MessageKind::Prevote, first: digest(H + 1), second: digest(H) }]
    );
    // The same vote twice is no evidence, and counts once.
    s.handle(&vs, &msg(MessageKind::Prevote, 1, H), true, false);
    s.handle(&vs, &msg(MessageKind::Prevote, 1, H), true, false);
    assert_eq!(s.evidence.len(), 1);
    // 10 + 40 of 100: no quorum, though three votes for the proposal came in.
    assert_eq!(s.phase, Phase::Prevoted);
    let actions = s.handle(&vs, &msg(MessageKind::Prevote, 3, H), true, false);
    assert_eq!(actions.len(), 1);
    assert_eq!(s.phase, Phase::Precommitted);
}

#[test]
fn votes_wait_for_the_header() {
    let vs = validators();
    let mut s = state(Some(3));
    // Votes come in before the proposal.
    for sender in 1..=3 {
        assert!(s.handle(&vs, &msg(MessageKind::Prevote, sender, H), true, false).is_empty());
        assert!(s.handle(&vs, &msg(MessageKind::Precommit, sender, H), true, false).is_empty());
    }
    assert_eq!(s.phase, Phase::Idle);
    // With the proposal they count: the follower prevotes and precommits at once.
    let actions = s.handle(&vs, &msg(MessageKind::Proposal, 1, H), true, true);
    assert_eq!(
        actions,
        vec![
            Action::Broadcast(msg(MessageKind::Prevote, 4, H)),
            Action::Broadcast(msg(MessageKind::Precommit, 4, H)),
        ]
    );
    assert_eq!(s.phase, Phase::Precommitted);
    assert_eq!(s.signers(), vec![true, true, true, true]);
}

#[test]
fn leader_seals_with_quorum() {
    let vs = validators();
    let mut s = state(Some(0));
    assert!(s.propose(&vs, digest(H)).len() == 2);
    // A second proposal of its own does nothing.
    assert!(s.propose(&vs, digest(H + 1)).is_empty());
    let actions = s.handle(&vs, &msg(MessageKind::Prevote, 2, H), true, false);
    assert_eq!(actions, vec![Action::Broadcast(msg(MessageKind::Precommit, 1, H))]);
    assert!(s.handle(&vs, &msg(MessageKind::Precommit, 3, H), true, false).is_empty());
    let actions = s.handle(&vs, &msg(MessageKind::Precommit, 4, H), true, false);
    assert_eq!(actions, vec![Action::Seal(digest(H))]);
    assert_eq!(s.phase, Phase::Committed);
    assert_eq!(s.signers(), vec![true, false, true, true]);
    assert!(vs.has_quorum(&s.signers()));
    // Votes after the commit are dropped.
    assert!(s.handle(&vs, &msg(MessageKind::Precommit, 2, H), true, false).is_empty());
    assert_eq!(s.signers(), vec![true, false, true, true]);
    // Nothing happens at a sealed height.
    assert!(s.tick(&vs, 1_000_000, &NodeConfig::default(), true, 1).is_empty());
    assert_eq!(s.view, 1);
}

#[test]
fn follower_does_not_propose() {
    let vs = validators();
    let mut s = state(Some(2));
    assert!(s.propose(&vs, digest(H)).is_empty());
    assert_eq!(s.phase, Phase::Idle);
    // Nor is it asked to build.
    assert!(s.tick(&vs, 1_000 + 10_000, &NodeConfig::default(), false, 1).is_empty());
}

#[test]
fn observer_follows_without_voting() {
    let vs = validators();
    let mut s = state(None);
    assert!(s.handle(&vs, &msg(MessageKind::Proposal, 1, H), true, true).is_empty());
    assert_eq!(s.phase, Phase::Prevoted);
    s.handle(&vs, &msg(MessageKind::Prevote, 1, H), true, false);
    assert!(s.handle(&vs, &msg(MessageKind::Prevote, 2, H), true, false).is_empty());
    assert_eq!(s.phase, Phase::Precommitted);
    assert_eq!(s.precommits, vec![None; 4]);
}

#[test]
fn timers() {
    let vs = validators();
    let cfg = NodeConfig::default();
    let mut s = state(Some(0));
    // The leader is asked to build after the wait for transactions, once.
    assert!(s.tick(&vs, 1_000 + 9_999, &cfg, false, 2).is_empty());
    assert_eq!(s.tick(&vs, 1_000 + 10_000, &cfg, false, 2), vec![Action::BuildProposal]);
    assert!(s.tick(&vs, 1_000 + 10_001, &cfg, false, 2).is_empty());
    // A clock that runs backwards does no harm.
    assert!(s.tick(&vs, 0, &cfg, false, 2).is_empty());
    // The view changes after the block timeout, and the votes are gone.
    s.propose(&vs, digest(H));
    assert!(s.tick(&vs, 1_000 + 29_999, &cfg, false, 2).is_empty());
    assert_eq!(s.tick(&vs, 1_000 + 30_000, &cfg, false, 2), vec![Action::ViewChange(2)]);
    assert_eq!((s.view, s.leader, s.role, s.phase, s.proposal), (2, 2, Role::Follower, Phase::Idle, None));
    assert_eq!(s.prevotes, vec![None; 4]);
    assert_eq!(s.started, 31_000);
    // The timeout of macro blocks is of its own.
    let mut cfg2 = cfg;
    cfg2.macro_block_timeout = 60_000;
    assert!(s.tick(&vs, 31_000 + 30_000, &cfg2, true, 0).is_empty());
    assert_eq!(s.tick(&vs, 31_000 + 30_000, &cfg2, false, 0), vec![Action::ViewChange(3)]);
    assert_eq!((s.leader, s.role), (0, Role::Leader));
    // The last view that can be counted stays.
    s.view = u32::MAX;
    assert!(s.tick(&vs, u64::MAX, &cfg, false, 1).iter().all(|a| !matches!(a, Action::ViewChange(_))));
}

#[test]
fn auto_commit_takes_the_smaller_timeout() {
    let vs = validators();
    let mut cfg = NodeConfig::default();
    cfg.micro_block_timeout = 20_000;
    cfg.macro_block_timeout = 5_000;
    let mut s = state(Some(3));
    s.handle(&vs, &msg(MessageKind::Proposal, 1, H), true, true);
    for sender in 1..=3 {
        s.handle(&vs, &msg(MessageKind::Prevote, sender, H), true, false);
    }
    assert_eq!(s.phase, Phase::Precommitted);
    // Without the precommits of the others the follower waits, and then changes the view.
    assert!(s.tick(&vs, 1_000 + 5_000, &cfg, false, 1).is_empty());
    for sender in 1..=2 {
        s.handle(&vs, &msg(MessageKind::Precommit, sender, H), true, false);
    }
    assert_eq!(s.phase, Phase::Precommitted);
    assert!(s.tick(&vs, 1_000 + 4_999, &cfg, false, 1).is_empty());
    assert_eq!(s.tick(&vs, 1_000 + 5_000, &cfg, false, 1), vec![Action::AutoCommit(digest(H))]);
    assert_eq!(s.phase, Phase::Committed);
}

/// Every order in which the proposal and the votes of three validators
/// that carry a vote can arrive at a follower.
fn orders(items: Vec<Message>) -> Vec<Vec<Message>> {
    if items.len() <= 1 {
        return vec![items];
    }
    let mut all = Vec::new();
    for i in 0..items.len() {
        let mut rest = items.clone();
        let first = rest.remove(i);
        for mut tail in orders(rest) {
            tail.insert(0, first);
            all.push(tail);
        }
    }
    all
}

#[test]
fn any_order_of_messages_commits() {
    let vs = validators();
    let cfg = NodeConfig::default();
    // The leader (40) and the validators with 30 and 20 vote; the follower with 10 listens.
    let mut items = vec![msg(MessageKind::Proposal, 1, H)];
    for sender in 1..=3 {
        items.push(msg(MessageKind::Prevote, sender, H));
        items.push(msg(MessageKind::Precommit, sender, H));
    }
    let all = orders(items);
    assert_eq!(all.len(), 5040);
    for order in all {
        let mut s = state(Some(3));
        for m in order.iter() {
            s.handle(&vs, m, true, true);
        }
        assert_eq!((s.phase, s.proposal), (Phase::Precommitted, Some(digest(H))));
        assert!(carries(&vs, &s.precommits, &digest(H)));
        assert_eq!(s.tick(&vs, 1_000 + 30_000, &cfg, false, 1), vec![Action::AutoCommit(digest(H))]);
    }
}

#[test]
fn any_order_of_votes_seals_at_the_leader() {
    let vs = validators();
    let mut items = Vec::new();
    for sender in 2..=4 {
        items.push(msg(MessageKind::Prevote, sender, H));
        items.push(msg(MessageKind::Precommit, sender, H));
    }
    items.push(msg(MessageKind::Prevote, 2, H + 1));
    for order in orders(items) {
        let mut s = state(Some(0));
        s.propose(&vs, digest(H));
        let mut sealed = 0;
        for m in order.iter() {
            sealed += s.handle(&vs, m, true, true).iter().filter(|a| **a == Action::Seal(digest(H))).count();
        }
        assert_eq!(sealed, 1);
        assert_eq!(s.phase, Phase::Committed);
    }
}
