//! The consensus engine: the three-phase commit of one height, as a state
//! machine that takes messages and timer ticks and answers with what the
//! node is to do.

use vstd::prelude::*;
use crate::config::NodeConfig;
use crate::digest::{Digest, PublicKey};
use crate::validators::{
    Validator, ValidatorSet, spec_quorum_threshold, spec_signed_stake, spec_total_stake,
};

verus! {

/// How far the commit of a height has come.
#[derive(Clone, Copy, Debug, PartialEq, Eq, Structural)]
pub enum Phase {
    /// No proposal is known for the view.
    Idle,
    /// A valid proposal is known.
    Proposed,
    /// The node has cast its prevote.
    Prevoted,
    /// The prevotes carried, and the node has cast its precommit.
    Precommitted,
    /// The block is sealed.
    Committed,
}

/// What the node is in the view.
#[derive(Clone, Copy, Debug, PartialEq, Eq, Structural)]
pub enum Role {
    Leader,
    Follower,
}

/// The three kinds of consensus message.
#[derive(Clone, Copy, Debug, PartialEq, Eq, Structural)]
pub enum MessageKind {
    Proposal,
    Prevote,
    Precommit,
}

/// A consensus message, without its signature.
#[derive(Clone, Copy, Debug, PartialEq, Eq, Structural)]
pub struct Message {
    pub epoch: u64,
    pub offset: u32,
    pub view: u32,
    /// The digest of the header that the message is about.
    pub hash: Digest,
    pub kind: MessageKind,
    /// The validator that signed the message.
    pub sender: PublicKey,
}

/// Two votes of one validator, in one phase of one view, for two blocks.
#[derive(Clone, Copy, Debug, PartialEq, Eq, Structural)]
pub struct Evidence {
    pub validator: PublicKey,
    pub kind: MessageKind,
    pub first: Digest,
    pub second: Digest,
}

/// What the engine asks of the node.
#[derive(Clone, Copy, Debug, PartialEq, Eq, Structural)]
pub enum Action {
    /// Sign the message and send it to all validators.
    Broadcast(Message),
    /// As leader: seal the proposed block with the precommits, append it
    /// and send it to all.
    Seal(Digest),
    /// As follower that holds the precommits but not the sealed block:
    /// seal the block, append it and send it to all.
    AutoCommit(Digest),
    /// As leader: build a block and propose it.
    BuildProposal,
    /// The view has changed to the one given.
    ViewChange(u32),
}

/// The consensus state of one node at one height, as the engine sees it.
pub struct ConsensusModel {
    pub epoch: u64,
    pub offset: u32,
    pub view: u32,
    pub role: Role,
    pub phase: Phase,
    pub proposal: Option<Digest>,
    /// For each validator the block of its first prevote in this view.
    pub prevotes: Seq<Option<Digest>>,
    /// For each validator the block of its first precommit in this view.
    pub precommits: Seq<Option<Digest>>,
    pub evidence: Seq<Evidence>,
    /// The place of the leader of the view in the registry.
    pub leader: int,
    /// The place of this node in the registry, if it is a validator.
    pub me: Option<int>,
    /// When the view began, in milliseconds.
    pub started: u64,
    /// Whether the leader has been asked to build its proposal.
    pub building: bool,
}

/// For each validator, whether its vote is for `h`.
pub open spec fn spec_voters(votes: Seq<Option<Digest>>, h: Digest) -> Seq<bool> {
    Seq::new(votes.len(), |i: int| votes[i] == Some(h))
}

/// The stake behind the votes for `h`.
pub open spec fn spec_tally(vs: Seq<Validator>, votes: Seq<Option<Digest>>, h: Digest) -> int {
    spec_signed_stake(vs, spec_voters(votes, h))
}

/// Whether the votes for `h` carry.
pub open spec fn spec_carries(vs: Seq<Validator>, votes: Seq<Option<Digest>>, h: Digest) -> bool {
    spec_tally(vs, votes, h) >= spec_quorum_threshold(spec_total_stake(vs))
}

/// The votes after validator `i` voted for `h`: its first vote stands.
pub open spec fn spec_record(votes: Seq<Option<Digest>>, i: int, h: Digest) -> Seq<Option<Digest>> {
    if 0 <= i < votes.len() && votes[i] is None {
        votes.update(i, Some(h))
    } else {
        votes
    }
}

/// The evidence after validator `i` voted for `h`: a vote against its
/// first one is kept as evidence.
pub open spec fn spec_note(
    evidence: Seq<Evidence>,
    votes: Seq<Option<Digest>>,
    i: int,
    h: Digest,
    validator: PublicKey,
    kind: MessageKind,
) -> Seq<Evidence> {
    if 0 <= i < votes.len() && votes[i] is Some && votes[i] != Some(h) {
        evidence.push(Evidence { validator, kind, first: votes[i]->0, second: h })
    } else {
        evidence
    }
}

/// The place in the registry of the validator with the key.
pub open spec fn spec_place_of(vs: Seq<Validator>, key: PublicKey) -> int {
    choose|i: int| 0 <= i < vs.len() && (#[trigger] vs[i]).network_pkey == key
}

impl ConsensusModel {
    /// The message of this node about `h`.
    pub open spec fn message(self, vs: Seq<Validator>, kind: MessageKind, h: Digest) -> Message {
        Message {
            epoch: self.epoch,
            offset: self.offset,
            view: self.view,
            hash: h,
            kind,
            sender: vs[self.me->0].network_pkey,
        }
    }

    /// What holds of the state at every moment.
    pub open spec fn ok(self, vs: Seq<Validator>) -> bool {
        &&& self.prevotes.len() == vs.len()
        &&& self.precommits.len() == vs.len()
        &&& 0 <= self.leader < vs.len()
        &&& self.me matches Some(m) ==> 0 <= m < vs.len()
        &&& self.role == Role::Leader <==> self.me == Some(self.leader)
        &&& self.phase != Phase::Idle <==> self.proposal is Some
        &&& self.phase != Phase::Proposed
        &&& (self.phase == Phase::Precommitted || self.phase == Phase::Committed) ==> spec_carries(
            vs,
            self.prevotes,
            self.proposal->0,
        )
        &&& self.phase == Phase::Committed ==> spec_carries(vs, self.precommits, self.proposal->0)
    }

    /// The state after the node has cast its own vote of a kind, with the
    /// message to send; an observer casts none.
    pub open spec fn cast(self, vs: Seq<Validator>, kind: MessageKind, h: Digest) -> (
        ConsensusModel,
        Seq<Action>,
    ) {
        match self.me {
            Some(m) => {
                let next = if kind == MessageKind::Prevote {
                    ConsensusModel { prevotes: spec_record(self.prevotes, m, h), ..self }
                } else {
                    ConsensusModel { precommits: spec_record(self.precommits, m, h), ..self }
                };
                (next, seq![Action::Broadcast(self.message(vs, kind, h))])
            },
            None => (self, Seq::empty()),
        }
    }

    /// The state after the votes at hand have been counted: where the
    /// prevotes for the proposal carry, the node precommits; where then
    /// the precommits carry, the leader seals the block.
    pub open spec fn progress(self, vs: Seq<Validator>) -> (ConsensusModel, Seq<Action>) {
        let (s1, a1) = if self.phase == Phase::Prevoted && spec_carries(
            vs,
            self.prevotes,
            self.proposal->0,
        ) {
            ConsensusModel { phase: Phase::Precommitted, ..self }.cast(
                vs,
                MessageKind::Precommit,
                self.proposal->0,
            )
        } else {
            (self, Seq::empty())
        };
        if s1.phase == Phase::Precommitted && s1.role == Role::Leader && spec_carries(
            vs,
            s1.precommits,
            s1.proposal->0,
        ) {
            (ConsensusModel { phase: Phase::Committed, ..s1 }, a1.push(Action::Seal(s1.proposal->0)))
        } else {
            (s1, a1)
        }
    }

    /// The state after a valid proposal for `h` has become known: the node
    /// prevotes for it, and the votes at hand are counted.
    pub open spec fn accept(self, vs: Seq<Validator>, h: Digest) -> (ConsensusModel, Seq<Action>) {
        let (s1, a1) = ConsensusModel { proposal: Some(h), phase: Phase::Prevoted, ..self }.cast(
            vs,
            MessageKind::Prevote,
            h,
        );
        let (s2, a2) = s1.progress(vs);
        (s2, a1 + a2)
    }

    /// Whether the engine takes a message up at all: its signature holds,
    /// it is about this height and view, the height is not sealed yet, and
    /// a validator sent it.
    pub open spec fn admits(self, vs: Seq<Validator>, msg: Message, signature_ok: bool) -> bool {
        &&& signature_ok
        &&& msg.epoch == self.epoch
        &&& msg.offset == self.offset
        &&& msg.view == self.view
        &&& self.phase != Phase::Committed
        &&& exists|i: int| 0 <= i < vs.len() && (#[trigger] vs[i]).network_pkey == msg.sender
    }

    /// The state after a message, and what the node is to do. A proposal
    /// is taken from the leader, once in a view, where the block is valid;
    /// a second proposal of the leader is dropped, and kept as evidence
    /// where it is for another block. A vote is
    /// recorded, a second vote of its sender is ignored or kept as
    /// evidence, and the votes at hand are counted.
    pub open spec fn handle(
        self,
        vs: Seq<Validator>,
        msg: Message,
        signature_ok: bool,
        block_ok: bool,
    ) -> (ConsensusModel, Seq<Action>) {
        if !self.admits(vs, msg, signature_ok) {
            (self, Seq::empty())
        } else {
            let i = spec_place_of(vs, msg.sender);
            match msg.kind {
                MessageKind::Proposal => {
                    if i != self.leader {
                        (self, Seq::empty())
                    } else if self.proposal is Some {
                        (
                            ConsensusModel {
                                evidence: if self.proposal != Some(msg.hash) {
                                    self.evidence.push(
                                        Evidence {
                                            validator: msg.sender,
                                            kind: MessageKind::Proposal,
                                            first: self.proposal->0,
                                            second: msg.hash,
                                        },
                                    )
                                } else {
                                    self.evidence
                                },
                                ..self
                            },
                            Seq::empty(),
                        )
                    } else if !block_ok {
                        (self, Seq::empty())
                    } else {
                        self.accept(vs, msg.hash)
                    }
                },
                MessageKind::Prevote => ConsensusModel {
                    prevotes: spec_record(self.prevotes, i, msg.hash),
                    evidence: spec_note(
                        self.evidence,
                        self.prevotes,
                        i,
                        msg.hash,
                        msg.sender,
                        MessageKind::Prevote,
                    ),
                    ..self
                }.progress(vs),
                MessageKind::Precommit => ConsensusModel {
                    precommits: spec_record(self.precommits, i, msg.hash),
                    evidence: spec_note(
                        self.evidence,
                        self.precommits,
                        i,
                        msg.hash,
                        msg.sender,
                        MessageKind::Precommit,
                    ),
                    ..self
                }.progress(vs),
            }
        }
    }

    /// The state after the leader has proposed `h`; nothing changes where
    /// the node is not the leader or a proposal is known already.
    pub open spec fn propose(self, vs: Seq<Validator>, h: Digest) -> (ConsensusModel, Seq<Action>) {
        if self.role != Role::Leader || self.phase != Phase::Idle {
            (self, Seq::empty())
        } else {
            let (s, a) = self.accept(vs, h);
            (s, seq![Action::Broadcast(self.message(vs, MessageKind::Proposal, h))] + a)
        }
    }

    /// The state in which a node enters a view.
    pub open spec fn enter(
        epoch: u64,
        offset: u32,
        view: u32,
        n: nat,
        leader: int,
        me: Option<int>,
        now: u64,
    ) -> ConsensusModel {
        ConsensusModel {
            epoch,
            offset,
            view,
            role: if me == Some(leader) {
                Role::Leader
            } else {
                Role::Follower
            },
            phase: Phase::Idle,
            proposal: None,
            prevotes: Seq::new(n, |i: int| None),
            precommits: Seq::new(n, |i: int| None),
            evidence: Seq::empty(),
            leader,
            me,
            started: now,
            building: false,
        }
    }

    /// The time that the view has lasted.
    pub open spec fn elapsed(self, now: u64) -> int {
        if now >= self.started {
            now - self.started
        } else {
            0
        }
    }

    /// The state after a tick of the clock, and what the node is to do.
    /// Nothing happens at a sealed height. A follower that holds the
    /// precommits for the proposal seals it on its own after the
    /// auto-commit timeout. After the block timeout the view changes: the
    /// node enters the next view, of which `next_leader` is the leader.
    /// A leader without proposal is asked once, after the wait for
    /// transactions, to build one.
    pub open spec fn tick(
        self,
        vs: Seq<Validator>,
        now: u64,
        cfg: NodeConfig,
        is_macro: bool,
        next_leader: int,
    ) -> (ConsensusModel, Seq<Action>) {
        let timeout = if is_macro {
            cfg.macro_block_timeout
        } else {
            cfg.micro_block_timeout
        };
        if self.phase == Phase::Committed {
            (self, Seq::empty())
        } else if self.phase == Phase::Precommitted && spec_carries(
            vs,
            self.precommits,
            self.proposal->0,
        ) && self.elapsed(now) >= cfg.spec_auto_commit_timeout() {
            (
                ConsensusModel { phase: Phase::Committed, ..self },
                seq![Action::AutoCommit(self.proposal->0)],
            )
        } else if self.elapsed(now) >= timeout && self.view < u32::MAX {
            (
                ConsensusModel {
                    evidence: self.evidence,
                    ..ConsensusModel::enter(
                        self.epoch,
                        self.offset,
                        (self.view + 1) as u32,
                        vs.len(),
                        next_leader,
                        self.me,
                        now,
                    )
                },
                seq![Action::ViewChange((self.view + 1) as u32)],
            )
        } else if self.role == Role::Leader && self.phase == Phase::Idle && !self.building
            && self.elapsed(now) >= cfg.tx_wait_timeout {
            (ConsensusModel { building: true, ..self }, seq![Action::BuildProposal])
        } else {
            (self, Seq::empty())
        }
    }
}

/// A recorded vote takes no stake from any block.
pub proof fn lemma_record_monotone(
    vs: Seq<Validator>,
    votes: Seq<Option<Digest>>,
    i: int,
    h: Digest,
    g: Digest,
)
    requires
        crate::validators::stakes_positive(vs),
    ensures
        spec_tally(vs, votes, g) <= spec_tally(vs, spec_record(votes, i, h), g),
        spec_carries(vs, votes, g) ==> spec_carries(vs, spec_record(votes, i, h), g),
{
    crate::validators::lemma_stake_le(
        vs,
        spec_voters(votes, g),
        spec_voters(spec_record(votes, i, h), g),
    );
}

/// The consensus state of one node at one height.
#[derive(Debug)]
pub struct ConsensusState {
    pub epoch: u64,
    pub offset: u32,
    pub view: u32,
    pub role: Role,
    pub phase: Phase,
    /// The digest of the proposed block, once a valid proposal is known.
    pub proposal: Option<Digest>,
    /// For each validator the block of its first prevote in this view.
    pub prevotes: Vec<Option<Digest>>,
    /// For each validator the block of its first precommit in this view.
    pub precommits: Vec<Option<Digest>>,
    /// The conflicting votes seen at this height.
    pub evidence: Vec<Evidence>,
    /// The place of the leader of the view in the registry.
    pub leader: usize,
    /// The place of this node in the registry, if it is a validator.
    pub me: Option<usize>,
    /// When the view began, in milliseconds.
    pub started: u64,
    /// Whether the leader has been asked to build its proposal.
    pub building: bool,
}

impl View for ConsensusState {
    type V = ConsensusModel;

    open spec fn view(&self) -> ConsensusModel {
        ConsensusModel {
            epoch: self.epoch,
            offset: self.offset,
            view: self.view,
            role: self.role,
            phase: self.phase,
            proposal: self.proposal,
            prevotes: self.prevotes@,
            precommits: self.precommits@,
            evidence: self.evidence@,
            leader: self.leader as int,
            me: match self.me {
                Some(m) => Some(m as int),
                None => None,
            },
            started: self.started,
            building: self.building,
        }
    }
}

/// As many empty places as there are validators.
pub fn no_votes(n: usize) -> (r: Vec<Option<Digest>>)
    ensures
        r@ == Seq::new(n as nat, |i: int| None::<Digest>),
{
    let mut v: Vec<Option<Digest>> = Vec::new();
    let mut i: usize = 0;
    while i < n
        invariant
            0 <= i <= n,
            v@.len() == i,
            forall|k: int| 0 <= k < i ==> v@[k] is None,
        decreases n - i,
    {
        v.push(None);
        i = i + 1;
    }
    assert(v@ =~= Seq::new(n as nat, |i: int| None::<Digest>));
    v
}

/// For each validator, whether its vote is for `h`.
pub fn voters(votes: &Vec<Option<Digest>>, h: &Digest) -> (r: Vec<bool>)
    ensures
        r@ == spec_voters(votes@, *h),
{
    let mut v: Vec<bool> = Vec::new();
    let mut i: usize = 0;
    while i < votes.len()
        invariant
            0 <= i <= votes.len(),
            v@.len() == i,
            forall|k: int| 0 <= k < i ==> v@[k] == (votes@[k] == Some(*h)),
        decreases votes.len() - i,
    {
        let for_h = match votes[i] {
            Some(d) => d == *h,
            None => false,
        };
        v.push(for_h);
        i = i + 1;
    }
    assert(v@ =~= spec_voters(votes@, *h));
    v
}

/// Whether the votes for `h` carry.
pub fn carries(vs: &ValidatorSet, votes: &Vec<Option<Digest>>, h: &Digest) -> (r: bool)
    requires
        vs.wf(),
    ensures
        r == spec_carries(vs@, votes@, *h),
{
    let v = voters(votes, h);
    vs.has_quorum(&v)
}

/// Records the vote of validator `i` for `h`, unless it has voted.
pub fn record(votes: &mut Vec<Option<Digest>>, i: usize, h: Digest)
    ensures
        final(votes)@ == spec_record(old(votes)@, i as int, h),
{
    if i < votes.len() {
        if votes[i].is_none() {
            votes[i] = Some(h);
        }
    }
}

/// Keeps a vote of validator `i` against its first one as evidence.
pub fn note(
    evidence: &mut Vec<Evidence>,
    votes: &Vec<Option<Digest>>,
    i: usize,
    h: Digest,
    validator: PublicKey,
    kind: MessageKind,
)
    ensures
        final(evidence)@ == spec_note(old(evidence)@, votes@, i as int, h, validator, kind),
{
    if i < votes.len() {
        match votes[i] {
            Some(first) => {
                if first != h {
                    evidence.push(Evidence { validator, kind, first, second: h });
                }
            },
            None => {},
        }
    }
}

impl ConsensusState {
    /// The state in which a node enters a view of `n` validators.
    pub fn new(
        epoch: u64,
        offset: u32,
        view: u32,
        n: usize,
        leader: usize,
        me: Option<usize>,
        now: u64,
    ) -> (r: ConsensusState)
        ensures
            r@ == ConsensusModel::enter(
                epoch,
                offset,
                view,
                n as nat,
                leader as int,
                match me {
                    Some(m) => Some(m as int),
                    None => None,
                },
                now,
            ),
    {
        let is_leader = match me {
            Some(m) => m == leader,
            None => false,
        };
        ConsensusState {
            epoch,
            offset,
            view,
            role: if is_leader {
                Role::Leader
            } else {
                Role::Follower
            },
            phase: Phase::Idle,
            proposal: None,
            prevotes: no_votes(n),
            precommits: no_votes(n),
            evidence: Vec::new(),
            leader,
            me,
            started: now,
            building: false,
        }
    }

    /// Casts the node's own vote of a kind; an observer casts none.
    fn cast(&mut self, vs: &ValidatorSet, kind: MessageKind, h: Digest, actions: &mut Vec<Action>)
        requires
            vs.wf(),
            kind != MessageKind::Proposal,
            old(self)@.me matches Some(m) ==> 0 <= m < vs@.len(),
        ensures
            final(self)@ == old(self)@.cast(vs@, kind, h).0,
            final(actions)@ == old(actions)@ + old(self)@.cast(vs@, kind, h).1,
    {
        match self.me {
            Some(m) => {
                let msg = Message {
                    epoch: self.epoch,
                    offset: self.offset,
                    view: self.view,
                    hash: h,
                    kind,
                    sender: vs.validators[m].network_pkey,
                };
                match kind {
                    MessageKind::Prevote => record(&mut self.prevotes, m, h),
                    _ => record(&mut self.precommits, m, h),
                }
                actions.push(Action::Broadcast(msg));
                assert(actions@ =~= old(actions)@ + old(self)@.cast(vs@, kind, h).1);
            },
            None => {
                assert(actions@ =~= old(actions)@ + old(self)@.cast(vs@, kind, h).1);
            },
        }
    }

    /// Counts the votes at hand.
    fn progress(&mut self, vs: &ValidatorSet, actions: &mut Vec<Action>)
        requires
            vs.wf(),
            old(self)@.me matches Some(m) ==> 0 <= m < vs@.len(),
            old(self)@.phase != Phase::Idle ==> old(self)@.proposal is Some,
        ensures
            final(self)@ == old(self)@.progress(vs@).0,
            final(actions)@ == old(actions)@ + old(self)@.progress(vs@).1,
    {
        let ghost a0 = actions@;
        let ghost s0 = self@;
        if self.phase == Phase::Prevoted {
            let h = self.proposal.unwrap();
            if carries(vs, &self.prevotes, &h) {
                self.phase = Phase::Precommitted;
                self.cast(vs, MessageKind::Precommit, h, actions);
            }
        }
        let ghost a1 = actions@;
        if self.phase == Phase::Precommitted && self.role == Role::Leader {
            let h = self.proposal.unwrap();
            if carries(vs, &self.precommits, &h) {
                self.phase = Phase::Committed;
                actions.push(Action::Seal(h));
            }
        }
        assert(actions@ =~= a0 + s0.progress(vs@).1);
    }

    /// Takes up a valid proposal.
    fn accept(&mut self, vs: &ValidatorSet, h: Digest, actions: &mut Vec<Action>)
        requires
            vs.wf(),
            old(self)@.me matches Some(m) ==> 0 <= m < vs@.len(),
        ensures
            final(self)@ == old(self)@.accept(vs@, h).0,
            final(actions)@ == old(actions)@ + old(self)@.accept(vs@, h).1,
    {
        let ghost a0 = actions@;
        let ghost s0 = self@;
        self.proposal = Some(h);
        self.phase = Phase::Prevoted;
        self.cast(vs, MessageKind::Prevote, h, actions);
        self.progress(vs, actions);
        assert(actions@ =~= a0 + s0.accept(vs@, h).1);
    }

    /// Takes a consensus message whose signature has been checked, and for
    /// a proposal the verdict on its block, and says what the node is to
    /// do. See `ConsensusModel::handle`.
    pub fn handle(
        &mut self,
        vs: &ValidatorSet,
        msg: &Message,
        signature_ok: bool,
        block_ok: bool,
    ) -> (r: Vec<Action>)
        requires
            vs.wf(),
            old(self)@.ok(vs@),
        ensures
            final(self)@ == old(self)@.handle(vs@, *msg, signature_ok, block_ok).0,
            r@ == old(self)@.handle(vs@, *msg, signature_ok, block_ok).1,
            final(self)@.ok(vs@),
    {
        let mut actions: Vec<Action> = Vec::new();
        proof {
            lemma_handle_ok(self@, vs@, *msg, signature_ok, block_ok);
        }
        if !signature_ok || msg.epoch != self.epoch || msg.offset != self.offset || msg.view
            != self.view || self.phase == Phase::Committed {
            return actions;
        }
        let i = match vs.index_of(&msg.sender) {
            None => {
                return actions;
            },
            Some(i) => i,
        };
        assert(self@.admits(vs@, *msg, signature_ok));
        assert(i as int == spec_place_of(vs@, msg.sender));
        match msg.kind {
            MessageKind::Proposal => {
                if i != self.leader {
                    return actions;
                }
                match self.proposal {
                    Some(first) => {
                        if first != msg.hash {
                            self.evidence.push(
                                Evidence {
                                    validator: msg.sender,
                                    kind: MessageKind::Proposal,
                                    first,
                                    second: msg.hash,
                                },
                            );
                        }
                        return actions;
                    },
                    None => {},
                }
                if !block_ok {
                    return actions;
                }
                self.accept(vs, msg.hash, &mut actions);
            },
            MessageKind::Prevote => {
                note(
                    &mut self.evidence,
                    &self.prevotes,
                    i,
                    msg.hash,
                    msg.sender,
                    MessageKind::Prevote,
                );
                record(&mut self.prevotes, i, msg.hash);
                self.progress(vs, &mut actions);
            },
            MessageKind::Precommit => {
                note(
                    &mut self.evidence,
                    &self.precommits,
                    i,
                    msg.hash,
                    msg.sender,
                    MessageKind::Precommit,
                );
                record(&mut self.precommits, i, msg.hash);
                self.progress(vs, &mut actions);
            },
        }
        actions
    }

    /// As leader, proposes the block with digest `h`. See
    /// `ConsensusModel::propose`.
    pub fn propose(&mut self, vs: &ValidatorSet, h: Digest) -> (r: Vec<Action>)
        requires
            vs.wf(),
            old(self)@.ok(vs@),
        ensures
            final(self)@ == old(self)@.propose(vs@, h).0,
            r@ == old(self)@.propose(vs@, h).1,
            final(self)@.ok(vs@),
    {
        let mut actions: Vec<Action> = Vec::new();
        proof {
            lemma_propose_ok(self@, vs@, h);
        }
        if self.role != Role::Leader || self.phase != Phase::Idle {
            return actions;
        }
        let m = self.me.unwrap();
        actions.push(
            Action::Broadcast(
                Message {
                    epoch: self.epoch,
                    offset: self.offset,
                    view: self.view,
                    hash: h,
                    kind: MessageKind::Proposal,
                    sender: vs.validators[m].network_pkey,
                },
            ),
        );
        let ghost s0 = self@;
        let ghost a0 = actions@;
        self.accept(vs, h, &mut actions);
        assert(actions@ =~= s0.propose(vs@, h).1);
        actions
    }

    /// Takes a tick of the clock and says what the node is to do. See
    /// `ConsensusModel::tick`.
    pub fn tick(
        &mut self,
        vs: &ValidatorSet,
        now: u64,
        cfg: &NodeConfig,
        is_macro: bool,
        next_leader: usize,
    ) -> (r: Vec<Action>)
        requires
            vs.wf(),
            old(self)@.ok(vs@),
            next_leader < vs@.len(),
        ensures
            final(self)@ == old(self)@.tick(vs@, now, *cfg, is_macro, next_leader as int).0,
            r@ == old(self)@.tick(vs@, now, *cfg, is_macro, next_leader as int).1,
            final(self)@.ok(vs@),
    {
        let mut actions: Vec<Action> = Vec::new();
        let elapsed = if now >= self.started {
            now - self.started
        } else {
            0
        };
        let timeout = if is_macro {
            cfg.macro_block_timeout
        } else {
            cfg.micro_block_timeout
        };
        if self.phase == Phase::Committed {
            return actions;
        }
        if self.phase == Phase::Precommitted && elapsed >= cfg.auto_commit_timeout() {
            let h = self.proposal.unwrap();
            if carries(vs, &self.precommits, &h) {
                self.phase = Phase::Committed;
                actions.push(Action::AutoCommit(h));
                assert(actions@ =~= seq![Action::AutoCommit(h)]);
                return actions;
            }
        }
        if elapsed >= timeout && self.view < u32::MAX {
            let view = self.view + 1;
            let is_leader = match self.me {
                Some(m) => m == next_leader,
                None => false,
            };
            self.view = view;
            self.role = if is_leader {
                Role::Leader
            } else {
                Role::Follower
            };
            self.phase = Phase::Idle;
            self.proposal = None;
            self.prevotes = no_votes(vs.len());
            self.precommits = no_votes(vs.len());
            self.leader = next_leader;
            self.started = now;
            self.building = false;
            actions.push(Action::ViewChange(view));
            assert(actions@ =~= seq![Action::ViewChange(view)]);
            return actions;
        }
        if self.role == Role::Leader && self.phase == Phase::Idle && !self.building && elapsed
            >= cfg.tx_wait_timeout {
            self.building = true;
            actions.push(Action::BuildProposal);
            assert(actions@ =~= seq![Action::BuildProposal]);
            return actions;
        }
        actions
    }

    /// For each validator, whether it precommitted to the proposal: the
    /// signers of the sealed block.
    pub fn signers(&self) -> (r: Vec<bool>)
        requires
            self.proposal is Some,
        ensures
            r@ == spec_voters(self.precommits@, self.proposal->0),
    {
        let h = self.proposal.unwrap();
        voters(&self.precommits, &h)
    }
}

/// Counting the votes keeps the state sound.
pub proof fn lemma_progress_ok(s: ConsensusModel, vs: Seq<Validator>)
    requires
        crate::validators::stakes_positive(vs),
        s.prevotes.len() == vs.len(),
        s.precommits.len() == vs.len(),
        0 <= s.leader < vs.len(),
        s.me matches Some(m) ==> 0 <= m < vs.len(),
        s.role == Role::Leader <==> s.me == Some(s.leader),
        s.phase != Phase::Idle <==> s.proposal is Some,
        s.phase != Phase::Proposed,
        (s.phase == Phase::Precommitted || s.phase == Phase::Committed) ==> spec_carries(
            vs,
            s.prevotes,
            s.proposal->0,
        ),
        s.phase == Phase::Committed ==> spec_carries(vs, s.precommits, s.proposal->0),
    ensures
        s.progress(vs).0.ok(vs),
{
}

/// A message keeps the state sound.
pub proof fn lemma_handle_ok(
    s: ConsensusModel,
    vs: Seq<Validator>,
    msg: Message,
    signature_ok: bool,
    block_ok: bool,
)
    requires
        crate::validators::stakes_positive(vs),
        s.ok(vs),
    ensures
        s.handle(vs, msg, signature_ok, block_ok).0.ok(vs),
{
    if s.admits(vs, msg, signature_ok) {
        let i = spec_place_of(vs, msg.sender);
        match msg.kind {
            MessageKind::Proposal => {
                if i == s.leader && s.proposal is None && block_ok {
                    let s1 = ConsensusModel {
                        proposal: Some(msg.hash),
                        phase: Phase::Prevoted,
                        ..s
                    }.cast(vs, MessageKind::Prevote, msg.hash).0;
                    lemma_progress_ok(s1, vs);
                }
            },
            MessageKind::Prevote => {
                let s1 = ConsensusModel {
                    prevotes: spec_record(s.prevotes, i, msg.hash),
                    evidence: spec_note(
                        s.evidence,
                        s.prevotes,
                        i,
                        msg.hash,
                        msg.sender,
                        MessageKind::Prevote,
                    ),
                    ..s
                };
                if s.proposal is Some {
                    lemma_record_monotone(vs, s.prevotes, i, msg.hash, s.proposal->0);
                }
                lemma_progress_ok(s1, vs);
            },
            MessageKind::Precommit => {
                let s1 = ConsensusModel {
                    precommits: spec_record(s.precommits, i, msg.hash),
                    evidence: spec_note(
                        s.evidence,
                        s.precommits,
                        i,
                        msg.hash,
                        msg.sender,
                        MessageKind::Precommit,
                    ),
                    ..s
                };
                if s.proposal is Some {
                    lemma_record_monotone(vs, s.precommits, i, msg.hash, s.proposal->0);
                }
                lemma_progress_ok(s1, vs);
            },
        }
    }
}

/// A proposal of the leader keeps the state sound.
pub proof fn lemma_propose_ok(s: ConsensusModel, vs: Seq<Validator>, h: Digest)
    requires
        crate::validators::stakes_positive(vs),
        s.ok(vs),
    ensures
        s.propose(vs, h).0.ok(vs),
{
    if !(s.role != Role::Leader || s.phase != Phase::Idle) {
        let s1 = ConsensusModel { proposal: Some(h), phase: Phase::Prevoted, ..s }.cast(
            vs,
            MessageKind::Prevote,
            h,
        ).0;
        lemma_progress_ok(s1, vs);
    }
}

/// No block is sealed without a quorum: whenever the engine answers a
/// message with the order to seal a block, validators whose stake carries
/// a vote have precommitted to that block.
pub proof fn lemma_seal_needs_quorum(
    s: ConsensusModel,
    vs: Seq<Validator>,
    msg: Message,
    signature_ok: bool,
    block_ok: bool,
    h: Digest,
)
    requires
        crate::validators::stakes_positive(vs),
        s.ok(vs),
        s.handle(vs, msg, signature_ok, block_ok).1.contains(Action::Seal(h)),
    ensures
        spec_carries(vs, s.handle(vs, msg, signature_ok, block_ok).0.precommits, h),
        s.handle(vs, msg, signature_ok, block_ok).0.proposal == Some(h),
{
    lemma_handle_ok(s, vs, msg, signature_ok, block_ok);
    let (t, a) = s.handle(vs, msg, signature_ok, block_ok);
    let k = choose|k: int| 0 <= k < a.len() && a[k] == Action::Seal(h);
    assert(a[k] == Action::Seal(h));
}

/// A follower seals a block on its own only where validators whose stake
/// carries a vote have precommitted to it.
pub proof fn lemma_auto_commit_needs_quorum(
    s: ConsensusModel,
    vs: Seq<Validator>,
    now: u64,
    cfg: NodeConfig,
    is_macro: bool,
    next_leader: int,
    h: Digest,
)
    requires
        s.ok(vs),
        s.tick(vs, now, cfg, is_macro, next_leader).1.contains(Action::AutoCommit(h)),
    ensures
        spec_carries(vs, s.precommits, h),
        s.proposal == Some(h),
        s.tick(vs, now, cfg, is_macro, next_leader).0.phase == Phase::Committed,
{
    let a = s.tick(vs, now, cfg, is_macro, next_leader).1;
    let k = choose|k: int| 0 <= k < a.len() && a[k] == Action::AutoCommit(h);
    assert(a[k] == Action::AutoCommit(h));
}

/// Once the prevotes and the precommits for the proposal carry, the
/// leader seals the block as soon as the votes are counted.
pub proof fn lemma_leader_seals(s: ConsensusModel, vs: Seq<Validator>)
    requires
        crate::validators::stakes_positive(vs),
        s.ok(vs),
        s.role == Role::Leader,
        s.phase == Phase::Prevoted || s.phase == Phase::Precommitted,
        spec_carries(vs, s.prevotes, s.proposal->0),
        spec_carries(vs, s.precommits, s.proposal->0),
    ensures
        s.progress(vs).0.phase == Phase::Committed,
        s.progress(vs).1.contains(Action::Seal(s.proposal->0)),
{
    let h = s.proposal->0;
    let (t, a) = s.progress(vs);
    if s.phase == Phase::Prevoted {
        lemma_record_monotone(vs, s.precommits, s.me->0, h, h);
    }
    assert(a.last() == Action::Seal(h));
}

/// Once the prevotes and the precommits for the proposal carry, a follower
/// seals the block on its own at the latest when the auto-commit timeout
/// has passed: a lost sealed block does not stall it.
pub proof fn lemma_follower_commits(
    s: ConsensusModel,
    vs: Seq<Validator>,
    now: u64,
    cfg: NodeConfig,
    is_macro: bool,
    next_leader: int,
)
    requires
        crate::validators::stakes_positive(vs),
        s.ok(vs),
        s.role == Role::Follower,
        s.phase == Phase::Prevoted || s.phase == Phase::Precommitted,
        spec_carries(vs, s.prevotes, s.proposal->0),
        spec_carries(vs, s.precommits, s.proposal->0),
        s.elapsed(now) >= cfg.spec_auto_commit_timeout(),
    ensures
        s.progress(vs).0.phase == Phase::Precommitted,
        s.progress(vs).0.tick(vs, now, cfg, is_macro, next_leader).0.phase == Phase::Committed,
        s.progress(vs).0.tick(vs, now, cfg, is_macro, next_leader).1 == seq![
            Action::AutoCommit(s.proposal->0),
        ],
{
    let h = s.proposal->0;
    if s.phase == Phase::Prevoted {
        match s.me {
            Some(m) => {
                lemma_record_monotone(vs, s.precommits, m, h, h);
            },
            None => {},
        }
    }
}

/// A view that brings no block does not last: when the block timeout has
/// passed, the node is in the next view, with nothing left of the old one
/// but the evidence.
pub proof fn lemma_view_changes(
    s: ConsensusModel,
    vs: Seq<Validator>,
    now: u64,
    cfg: NodeConfig,
    is_macro: bool,
    next_leader: int,
)
    requires
        s.ok(vs),
        0 <= next_leader < vs.len(),
        s.phase == Phase::Idle || s.phase == Phase::Prevoted,
        s.view < u32::MAX,
        s.elapsed(now) >= if is_macro {
            cfg.macro_block_timeout
        } else {
            cfg.micro_block_timeout
        },
    ensures
        s.tick(vs, now, cfg, is_macro, next_leader).0.view == s.view + 1,
        s.tick(vs, now, cfg, is_macro, next_leader).0.phase == Phase::Idle,
        s.tick(vs, now, cfg, is_macro, next_leader).0.leader == next_leader,
        s.tick(vs, now, cfg, is_macro, next_leader).1 == seq![
            Action::ViewChange((s.view + 1) as u32),
        ],
{
}

} // verus!
