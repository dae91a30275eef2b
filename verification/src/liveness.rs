//! Why a height commits once the messages of a view arrive: with a leader
//! that proposes one block and a quorum of validators that vote for it,
//! every node that gets their messages, in whatever order, seals the block.
//! Views that bring no block pass with their timeouts, so that the first
//! view with such a leader and such a quorum seals the height.

use vstd::prelude::*;
use crate::config::NodeConfig;
use crate::consensus::{
    Action, ConsensusModel, Message, MessageKind, Phase, Role, spec_carries, spec_place_of,
    spec_record, spec_voters,
};
use crate::chain::spec_quorum;
use crate::digest::Digest;
use crate::validators::{Validator, keys_distinct, lemma_stake_le, marked, stakes_positive};

verus! {

/// The state after a node has taken the messages in turn, each with a
/// good signature, and the proposals among them with a valid block.
pub open spec fn spec_run(s: ConsensusModel, vs: Seq<Validator>, msgs: Seq<Message>) -> ConsensusModel
    decreases msgs.len(),
{
    if msgs.len() == 0 {
        s
    } else {
        spec_run(s, vs, msgs.drop_last()).handle(vs, msgs.last(), true, true).0
    }
}

/// The message of the validator at place `i` about `h`, in the view of `s`.
pub open spec fn spec_message_of(
    s: ConsensusModel,
    vs: Seq<Validator>,
    kind: MessageKind,
    i: int,
    h: Digest,
) -> Message {
    Message {
        epoch: s.epoch,
        offset: s.offset,
        view: s.view,
        hash: h,
        kind,
        sender: vs[i].network_pkey,
    }
}

/// Whether a message keeps to the rules as far as the block `h` needs it:
/// a proposal of the leader and a vote of a validator of the quorum, for
/// the view of `s`, are for `h`.
pub open spec fn spec_honest(
    s: ConsensusModel,
    vs: Seq<Validator>,
    quorum: Seq<bool>,
    h: Digest,
    m: Message,
) -> bool {
    forall|i: int|
        0 <= i < vs.len() && (#[trigger] vs[i]).network_pkey == m.sender && m.epoch == s.epoch
            && m.offset == s.offset && m.view == s.view && ((m.kind == MessageKind::Proposal && i
            == s.leader) || (m.kind != MessageKind::Proposal && marked(quorum, i))) ==> m.hash == h
}

/// Whether the engine is as far as the votes at hand allow.
pub open spec fn spec_stable(s: ConsensusModel, vs: Seq<Validator>) -> bool {
    &&& s.phase == Phase::Prevoted ==> !spec_carries(vs, s.prevotes, s.proposal->0)
    &&& s.phase == Phase::Precommitted && s.role == Role::Leader ==> !spec_carries(
        vs,
        s.precommits,
        s.proposal->0,
    )
}

/// Whether a state fits a run for the block `h`: it is sound and as far as
/// its votes allow, it knows no other proposal, and it holds no vote of a
/// validator of the quorum for another block.
pub open spec fn spec_fits(s: ConsensusModel, vs: Seq<Validator>, quorum: Seq<bool>, h: Digest) -> bool {
    &&& s.ok(vs)
    &&& spec_stable(s, vs)
    &&& s.proposal is None || s.proposal == Some(h)
    &&& forall|i: int|
        0 <= i < vs.len() && marked(quorum, i) ==> (#[trigger] s.prevotes[i] is None || s.prevotes[i]
            == Some(h))
    &&& forall|i: int|
        0 <= i < vs.len() && marked(quorum, i) ==> (#[trigger] s.precommits[i] is None
            || s.precommits[i] == Some(h))
}

/// Whether two states are of one node in one view.
pub open spec fn spec_same_view(s: ConsensusModel, t: ConsensusModel) -> bool {
    &&& s.epoch == t.epoch
    &&& s.offset == t.offset
    &&& s.view == t.view
    &&& s.leader == t.leader
    &&& s.me == t.me
    &&& s.role == t.role
}

/// What a state keeps of the state before it: a known proposal and the
/// votes at hand stay.
pub open spec fn spec_keeps(s: ConsensusModel, t: ConsensusModel) -> bool {
    &&& spec_same_view(s, t)
    &&& s.proposal is Some ==> t.proposal == s.proposal
    &&& t.prevotes.len() == s.prevotes.len()
    &&& t.precommits.len() == s.precommits.len()
    &&& forall|j: int|
        0 <= j < s.prevotes.len() && (#[trigger] s.prevotes[j]) is Some ==> t.prevotes[j]
            == s.prevotes[j]
    &&& forall|j: int|
        0 <= j < s.precommits.len() && (#[trigger] s.precommits[j]) is Some ==> t.precommits[j]
            == s.precommits[j]
    &&& s.phase == Phase::Committed ==> t.phase == Phase::Committed
}

/// Counting the votes leaves the engine as far as the votes allow, and
/// changes nothing but the phase and the node's own precommit.
pub proof fn lemma_progress_stable(s: ConsensusModel, vs: Seq<Validator>)
    requires
        s.prevotes.len() == vs.len(),
        s.precommits.len() == vs.len(),
        s.me matches Some(m) ==> 0 <= m < vs.len(),
        s.phase != Phase::Idle ==> s.proposal is Some,
    ensures
        spec_stable(s.progress(vs).0, vs),
        spec_same_view(s, s.progress(vs).0),
        s.progress(vs).0.proposal == s.proposal,
        s.progress(vs).0.prevotes == s.prevotes,
        s.progress(vs).0.evidence == s.evidence,
        s.progress(vs).0.precommits == s.precommits || (s.me is Some && s.proposal is Some
            && s.progress(vs).0.precommits == spec_record(s.precommits, s.me->0, s.proposal->0)),
        s.phase == Phase::Committed ==> s.progress(vs).0.phase == Phase::Committed,
        s.phase == Phase::Idle ==> s.progress(vs).0.phase == Phase::Idle,
{
}

/// A message changes a state that fits the run into one that fits it, and
/// that keeps what the state held.
pub proof fn lemma_step_fits(
    s: ConsensusModel,
    vs: Seq<Validator>,
    quorum: Seq<bool>,
    h: Digest,
    m: Message,
)
    requires
        keys_distinct(vs),
        stakes_positive(vs),
        spec_fits(s, vs, quorum, h),
        spec_honest(s, vs, quorum, h, m),
    ensures
        spec_fits(s.handle(vs, m, true, true).0, vs, quorum, h),
        spec_keeps(s, s.handle(vs, m, true, true).0),
{
    let t = s.handle(vs, m, true, true).0;
    crate::consensus::lemma_handle_ok(s, vs, m, true, true);
    if s.admits(vs, m, true) {
        let i = spec_place_of(vs, m.sender);
        assert(vs[i].network_pkey == m.sender);
        match m.kind {
            MessageKind::Proposal => {
                if i == s.leader && s.proposal is None {
                    assert(m.hash == h);
                    let s1 = ConsensusModel { proposal: Some(h), phase: Phase::Prevoted, ..s };
                    let s2 = s1.cast(vs, MessageKind::Prevote, h).0;
                    lemma_progress_stable(s2, vs);
                    lemma_record_fits(s.prevotes, vs, quorum, h, s.me, h);
                    lemma_record_fits(s2.precommits, vs, quorum, h, s.me, h);
                }
            },
            MessageKind::Prevote => {
                if marked(quorum, i) {
                    assert(m.hash == h);
                }
                let s1 = ConsensusModel { prevotes: spec_record(s.prevotes, i, m.hash), ..s };
                lemma_record_fits(s.prevotes, vs, quorum, h, Some(i), m.hash);
                let s2 = ConsensusModel { evidence: t.evidence, ..s1 };
                lemma_progress_stable(s2, vs);
                if s.proposal is Some {
                    lemma_record_fits(s.precommits, vs, quorum, h, s.me, h);
                }
            },
            MessageKind::Precommit => {
                if marked(quorum, i) {
                    assert(m.hash == h);
                }
                let s1 = ConsensusModel { precommits: spec_record(s.precommits, i, m.hash), ..s };
                lemma_record_fits(s.precommits, vs, quorum, h, Some(i), m.hash);
                let s2 = ConsensusModel { evidence: t.evidence, ..s1 };
                lemma_progress_stable(s2, vs);
                if s.proposal is Some {
                    lemma_record_fits(s1.precommits, vs, quorum, h, s.me, h);
                }
            },
        }
    }
}

/// A recorded vote keeps the votes at hand, and keeps the votes of the
/// quorum for `h`, where it is for `h` or of a validator outside.
pub proof fn lemma_record_fits(
    votes: Seq<Option<Digest>>,
    vs: Seq<Validator>,
    quorum: Seq<bool>,
    h: Digest,
    who: Option<int>,
    x: Digest,
)
    requires
        votes.len() == vs.len(),
    ensures
        who matches Some(i) ==> {
            let after = spec_record(votes, i, x);
            &&& after.len() == votes.len()
            &&& forall|j: int| 0 <= j < votes.len() && (#[trigger] votes[j]) is Some ==> after[j] == votes[j]
            &&& forall|j: int| 0 <= j < votes.len() && j != i ==> #[trigger] after[j] == votes[j]
            &&& 0 <= i < votes.len() ==> after[i] is Some && (votes[i] is None ==> after[i] == Some(x))
        },
{
}

/// What the messages so far have done to the state, unless the block is
/// sealed already: the proposal is known once it has come, and the votes
/// of the quorum stand once they have come.
pub open spec fn spec_recorded(
    s: ConsensusModel,
    t: ConsensusModel,
    vs: Seq<Validator>,
    quorum: Seq<bool>,
    h: Digest,
    msgs: Seq<Message>,
) -> bool {
    t.phase == Phase::Committed || {
        &&& (s.proposal == Some(h) || msgs.contains(
            spec_message_of(s, vs, MessageKind::Proposal, s.leader, h),
        )) ==> t.proposal == Some(h)
        &&& forall|i: int|
            0 <= i < vs.len() && marked(quorum, i) && msgs.contains(
                #[trigger] spec_message_of(s, vs, MessageKind::Prevote, i, h),
            ) ==> t.prevotes[i] == Some(h)
        &&& forall|i: int|
            0 <= i < vs.len() && marked(quorum, i) && msgs.contains(
                #[trigger] spec_message_of(s, vs, MessageKind::Precommit, i, h),
            ) ==> t.precommits[i] == Some(h)
    }
}

/// What one message does to a state that fits the run: unless the block is
/// sealed, the proposal of the leader is known afterwards, and the vote of
/// a validator of the quorum stands.
pub proof fn lemma_step_records(
    s: ConsensusModel,
    vs: Seq<Validator>,
    quorum: Seq<bool>,
    h: Digest,
    m: Message,
)
    requires
        keys_distinct(vs),
        stakes_positive(vs),
        spec_fits(s, vs, quorum, h),
        m.epoch == s.epoch,
        m.offset == s.offset,
        m.view == s.view,
        m.hash == h,
    ensures
        ({
            let t = s.handle(vs, m, true, true).0;
            t.phase == Phase::Committed || {
                &&& m == spec_message_of(s, vs, MessageKind::Proposal, s.leader, h) ==> t.proposal
                    == Some(h)
                &&& forall|i: int|
                    0 <= i < vs.len() && marked(quorum, i) && m == #[trigger] spec_message_of(
                        s,
                        vs,
                        MessageKind::Prevote,
                        i,
                        h,
                    ) ==> t.prevotes[i] == Some(h)
                &&& forall|i: int|
                    0 <= i < vs.len() && marked(quorum, i) && m == #[trigger] spec_message_of(
                        s,
                        vs,
                        MessageKind::Precommit,
                        i,
                        h,
                    ) ==> t.precommits[i] == Some(h)
            }
        }),
{
    let t = s.handle(vs, m, true, true).0;
    if s.phase != Phase::Committed {
        assert forall|i: int| 0 <= i < vs.len() && vs[i].network_pkey == m.sender implies s.admits(
            vs,
            m,
            true,
        ) && spec_place_of(vs, m.sender) == i by {
            assert(s.admits(vs, m, true));
            let c = spec_place_of(vs, m.sender);
            assert(vs[c].network_pkey == m.sender);
        }
        if m == spec_message_of(s, vs, MessageKind::Proposal, s.leader, h) {
            assert(vs[s.leader].network_pkey == m.sender);
            if s.proposal is None {
                let s1 = ConsensusModel { proposal: Some(h), phase: Phase::Prevoted, ..s };
                let s2 = s1.cast(vs, MessageKind::Prevote, h).0;
                lemma_progress_stable(s2, vs);
            }
        }
        assert forall|i: int|
            0 <= i < vs.len() && marked(quorum, i) && m == #[trigger] spec_message_of(
                s,
                vs,
                MessageKind::Prevote,
                i,
                h,
            ) implies t.prevotes[i] == Some(h) by {
            assert(vs[i].network_pkey == m.sender);
            let s1 = ConsensusModel {
                prevotes: spec_record(s.prevotes, i, h),
                evidence: t.evidence,
                ..s
            };
            lemma_progress_stable(s1, vs);
            lemma_record_fits(s.prevotes, vs, quorum, h, Some(i), h);
        }
        assert forall|i: int|
            0 <= i < vs.len() && marked(quorum, i) && m == #[trigger] spec_message_of(
                s,
                vs,
                MessageKind::Precommit,
                i,
                h,
            ) implies t.precommits[i] == Some(h) by {
            assert(vs[i].network_pkey == m.sender);
            let s1 = ConsensusModel {
                precommits: spec_record(s.precommits, i, h),
                evidence: t.evidence,
                ..s
            };
            lemma_progress_stable(s1, vs);
            lemma_record_fits(s.precommits, vs, quorum, h, Some(i), h);
            if s.proposal is Some && s.me is Some {
                lemma_record_fits(s1.precommits, vs, quorum, h, s.me, h);
            }
        }
    } else {
        assert(t.phase == Phase::Committed);
    }
}

/// The state after a run fits the run, and holds what the messages of the
/// run have brought.
pub proof fn lemma_run(
    s: ConsensusModel,
    vs: Seq<Validator>,
    quorum: Seq<bool>,
    h: Digest,
    msgs: Seq<Message>,
)
    requires
        keys_distinct(vs),
        stakes_positive(vs),
        spec_fits(s, vs, quorum, h),
        forall|k: int| 0 <= k < msgs.len() ==> spec_honest(s, vs, quorum, h, #[trigger] msgs[k]),
    ensures
        spec_fits(spec_run(s, vs, msgs), vs, quorum, h),
        spec_same_view(s, spec_run(s, vs, msgs)),
        spec_recorded(s, spec_run(s, vs, msgs), vs, quorum, h, msgs),
    decreases msgs.len(),
{
    if msgs.len() == 0 {
        let t = spec_run(s, vs, msgs);
        assert(t == s);
    } else {
        let before = msgs.drop_last();
        let m = msgs.last();
        assert forall|k: int| 0 <= k < before.len() implies spec_honest(
            s,
            vs,
            quorum,
            h,
            #[trigger] before[k],
        ) by {
            assert(before[k] == msgs[k]);
        }
        lemma_run(s, vs, quorum, h, before);
        let t = spec_run(s, vs, before);
        let u = t.handle(vs, m, true, true).0;
        assert(spec_honest(s, vs, quorum, h, msgs[msgs.len() - 1]));
        assert(spec_honest(t, vs, quorum, h, m));
        lemma_step_fits(t, vs, quorum, h, m);
        assert(spec_keeps(t, u));
        if u.phase != Phase::Committed {
            assert(t.phase != Phase::Committed);
            let p = spec_message_of(s, vs, MessageKind::Proposal, s.leader, h);
            assert(p == spec_message_of(t, vs, MessageKind::Proposal, t.leader, h));
            if m.epoch == t.epoch && m.offset == t.offset && m.view == t.view && m.hash == h {
                lemma_step_records(t, vs, quorum, h, m);
            }
            if s.proposal == Some(h) || msgs.contains(p) {
                if s.proposal == Some(h) || before.contains(p) {
                    assert(t.proposal == Some(h));
                } else {
                    lemma_last_or_before(msgs, p);
                    assert(m == p);
                }
                assert(u.proposal == Some(h));
            }
            assert forall|i: int|
                0 <= i < vs.len() && marked(quorum, i) && msgs.contains(
                    #[trigger] spec_message_of(s, vs, MessageKind::Prevote, i, h),
                ) implies u.prevotes[i] == Some(h) by {
                let x = spec_message_of(s, vs, MessageKind::Prevote, i, h);
                assert(x == spec_message_of(t, vs, MessageKind::Prevote, i, h));
                lemma_last_or_before(msgs, x);
                if before.contains(x) {
                    assert(t.prevotes[i] == Some(h));
                }
            }
            assert forall|i: int|
                0 <= i < vs.len() && marked(quorum, i) && msgs.contains(
                    #[trigger] spec_message_of(s, vs, MessageKind::Precommit, i, h),
                ) implies u.precommits[i] == Some(h) by {
                let x = spec_message_of(s, vs, MessageKind::Precommit, i, h);
                assert(x == spec_message_of(t, vs, MessageKind::Precommit, i, h));
                lemma_last_or_before(msgs, x);
                if before.contains(x) {
                    assert(t.precommits[i] == Some(h));
                }
            }
        }
    }
}

/// What a list holds is its last item, or stands before it.
pub proof fn lemma_last_or_before(msgs: Seq<Message>, x: Message)
    requires
        msgs.len() > 0,
        msgs.contains(x),
    ensures
        msgs.last() == x || msgs.drop_last().contains(x),
{
    let k = choose|k: int| 0 <= k < msgs.len() && msgs[k] == x;
    if k < msgs.len() - 1 {
        assert(msgs.drop_last()[k] == x);
    }
}

/// Whether the messages that the block `h` needs are among `msgs`: the
/// proposal of the leader, unless the node knows it, and a prevote and a
/// precommit of every validator of the quorum.
pub open spec fn spec_delivered(
    s: ConsensusModel,
    vs: Seq<Validator>,
    quorum: Seq<bool>,
    h: Digest,
    msgs: Seq<Message>,
) -> bool {
    &&& s.proposal == Some(h) || msgs.contains(
        spec_message_of(s, vs, MessageKind::Proposal, s.leader, h),
    )
    &&& forall|i: int|
        0 <= i < vs.len() && marked(quorum, i) ==> msgs.contains(
            #[trigger] spec_message_of(s, vs, MessageKind::Prevote, i, h),
        )
    &&& forall|i: int|
        0 <= i < vs.len() && marked(quorum, i) ==> msgs.contains(
            #[trigger] spec_message_of(s, vs, MessageKind::Precommit, i, h),
        )
}

/// Liveness within a view. Let the leader of the view propose the block
/// `h` and nothing else, and let the validators of a quorum vote for `h`
/// and nothing else. Then a node that has got the proposal and the votes
/// of the quorum, in whatever order and among whatever other messages,
/// knows the proposal and holds the precommits that seal it: as leader it
/// has sealed the block; as follower it seals the block on its own at the
/// next tick of the clock after the auto-commit timeout, if the sealed
/// block of the leader has not come by then.
pub proof fn lemma_view_commits(
    s: ConsensusModel,
    vs: Seq<Validator>,
    quorum: Seq<bool>,
    h: Digest,
    msgs: Seq<Message>,
    now: u64,
    cfg: NodeConfig,
    is_macro: bool,
    next_leader: int,
)
    requires
        keys_distinct(vs),
        stakes_positive(vs),
        spec_quorum(vs, quorum),
        spec_fits(s, vs, quorum, h),
        s.phase != Phase::Committed,
        forall|k: int| 0 <= k < msgs.len() ==> spec_honest(s, vs, quorum, h, #[trigger] msgs[k]),
        spec_delivered(s, vs, quorum, h, msgs),
    ensures
        ({
            let t = spec_run(s, vs, msgs);
            &&& t.proposal == Some(h)
            &&& spec_carries(vs, t.precommits, h)
            &&& s.role == Role::Leader ==> t.phase == Phase::Committed
            &&& s.role == Role::Follower ==> t.phase == Phase::Precommitted
            &&& s.role == Role::Follower && t.elapsed(now) >= cfg.spec_auto_commit_timeout() ==> {
                &&& t.tick(vs, now, cfg, is_macro, next_leader).0.phase == Phase::Committed
                &&& t.tick(vs, now, cfg, is_macro, next_leader).1 == seq![Action::AutoCommit(h)]
            }
        }),
{
    lemma_run(s, vs, quorum, h, msgs);
    let t = spec_run(s, vs, msgs);
    if t.phase != Phase::Committed {
        assert(t.proposal == Some(h));
        assert forall|i: int| 0 <= i < vs.len() && marked(quorum, i) implies marked(
            spec_voters(t.prevotes, h),
            i,
        ) by {
            assert(msgs.contains(spec_message_of(s, vs, MessageKind::Prevote, i, h)));
        }
        lemma_stake_le(vs, quorum, spec_voters(t.prevotes, h));
        assert forall|i: int| 0 <= i < vs.len() && marked(quorum, i) implies marked(
            spec_voters(t.precommits, h),
            i,
        ) by {
            assert(msgs.contains(spec_message_of(s, vs, MessageKind::Precommit, i, h)));
        }
        lemma_stake_le(vs, quorum, spec_voters(t.precommits, h));
        assert(spec_carries(vs, t.prevotes, h));
        assert(spec_carries(vs, t.precommits, h));
        assert(t.phase == Phase::Precommitted);
        assert(t.role == Role::Follower);
    } else if s.role == Role::Follower {
        lemma_follower_never_seals(s, vs, msgs);
    }
}

/// Messages alone do not bring a follower to seal a block.
pub proof fn lemma_follower_never_seals(s: ConsensusModel, vs: Seq<Validator>, msgs: Seq<Message>)
    requires
        s.phase != Phase::Committed,
        s.role == Role::Follower,
    ensures
        spec_run(s, vs, msgs).phase != Phase::Committed,
        spec_run(s, vs, msgs).role == Role::Follower,
    decreases msgs.len(),
{
    if msgs.len() > 0 {
        lemma_follower_never_seals(s, vs, msgs.drop_last());
    }
}

/// A node that enters a view fits a run for whatever block and quorum.
pub proof fn lemma_enter_fits(
    epoch: u64,
    offset: u32,
    view: u32,
    vs: Seq<Validator>,
    leader: int,
    me: Option<int>,
    now: u64,
    quorum: Seq<bool>,
    h: Digest,
)
    requires
        0 <= leader < vs.len(),
        me matches Some(m) ==> 0 <= m < vs.len(),
    ensures
        spec_fits(ConsensusModel::enter(epoch, offset, view, vs.len(), leader, me, now), vs, quorum, h),
        ConsensusModel::enter(epoch, offset, view, vs.len(), leader, me, now).phase == Phase::Idle,
{
}

/// A leader that has proposed the block `h` fits a run for `h`.
pub proof fn lemma_propose_fits(s: ConsensusModel, vs: Seq<Validator>, quorum: Seq<bool>, h: Digest)
    requires
        stakes_positive(vs),
        spec_fits(s, vs, quorum, h),
        s.role == Role::Leader,
        s.phase == Phase::Idle,
    ensures
        spec_fits(s.propose(vs, h).0, vs, quorum, h),
        s.propose(vs, h).0.proposal == Some(h),
        spec_same_view(s, s.propose(vs, h).0),
{
    crate::consensus::lemma_propose_ok(s, vs, h);
    let s1 = ConsensusModel { proposal: Some(h), phase: Phase::Prevoted, ..s };
    let s2 = s1.cast(vs, MessageKind::Prevote, h).0;
    lemma_progress_stable(s2, vs);
    lemma_record_fits(s.prevotes, vs, quorum, h, s.me, h);
    lemma_record_fits(s2.precommits, vs, quorum, h, s.me, h);
}

/// The state after views have passed without a block: the node takes a
/// tick of the clock at each of `times`, and `leaders` names the leader of
/// the view that begins with each.
pub open spec fn spec_silent(
    s: ConsensusModel,
    vs: Seq<Validator>,
    cfg: NodeConfig,
    is_macro: bool,
    times: Seq<u64>,
    leaders: Seq<int>,
) -> ConsensusModel
    decreases times.len(),
{
    if times.len() == 0 {
        s
    } else {
        spec_silent(s, vs, cfg, is_macro, times.drop_last(), leaders).tick(
            vs,
            times.last(),
            cfg,
            is_macro,
            leaders[times.len() - 1],
        ).0
    }
}

/// Whether each of the ticks comes when the view before it has lasted as
/// long as a block may take.
pub open spec fn spec_timed_out(
    s: ConsensusModel,
    vs: Seq<Validator>,
    cfg: NodeConfig,
    is_macro: bool,
    times: Seq<u64>,
    leaders: Seq<int>,
) -> bool {
    forall|k: int|
        0 <= k < times.len() ==> (#[trigger] spec_silent(
            s,
            vs,
            cfg,
            is_macro,
            times.take(k),
            leaders,
        )).elapsed(times[k]) >= if is_macro {
            cfg.macro_block_timeout
        } else {
            cfg.micro_block_timeout
        }
}

/// Views that bring no block pass: after as many timeouts the node is as
/// many views further, at the same height, with nothing at hand that
/// stands against whatever block the new view may bring.
pub proof fn lemma_silent_views(
    s: ConsensusModel,
    vs: Seq<Validator>,
    cfg: NodeConfig,
    is_macro: bool,
    times: Seq<u64>,
    leaders: Seq<int>,
    quorum: Seq<bool>,
    h: Digest,
)
    requires
        s.ok(vs),
        s.phase == Phase::Idle || s.phase == Phase::Prevoted,
        1 <= times.len() <= leaders.len(),
        s.view + times.len() <= u32::MAX,
        forall|k: int| 0 <= k < times.len() ==> 0 <= #[trigger] leaders[k] < vs.len(),
        spec_timed_out(s, vs, cfg, is_macro, times, leaders),
    ensures
        ({
            let t = spec_silent(s, vs, cfg, is_macro, times, leaders);
            &&& t.epoch == s.epoch
            &&& t.offset == s.offset
            &&& t.me == s.me
            &&& t.view == s.view + times.len()
            &&& t.leader == leaders[times.len() - 1]
            &&& t.phase == Phase::Idle
            &&& spec_fits(t, vs, quorum, h)
        }),
    decreases times.len(),
{
    let n = times.len() as int;
    let before = times.drop_last();
    let p = spec_silent(s, vs, cfg, is_macro, before, leaders);
    assert(times.take(n - 1) =~= before);
    if n == 1 {
        assert(p == s);
    } else {
        assert forall|k: int| 0 <= k < before.len() implies (#[trigger] spec_silent(
            s,
            vs,
            cfg,
            is_macro,
            before.take(k),
            leaders,
        )).elapsed(before[k]) >= if is_macro {
            cfg.macro_block_timeout
        } else {
            cfg.micro_block_timeout
        } by {
            assert(before.take(k) =~= times.take(k));
            assert(before[k] == times[k]);
        }
        lemma_silent_views(s, vs, cfg, is_macro, before, leaders, quorum, h);
    }
    assert(spec_silent(s, vs, cfg, is_macro, times.take(n - 1), leaders).elapsed(times[n - 1])
        >= if is_macro {
        cfg.macro_block_timeout
    } else {
        cfg.micro_block_timeout
    });
    crate::consensus::lemma_view_changes(p, vs, times.last(), cfg, is_macro, leaders[n - 1]);
}

/// A sealed height takes no message.
pub proof fn lemma_sealed_stays(s: ConsensusModel, vs: Seq<Validator>, msgs: Seq<Message>)
    requires
        s.phase == Phase::Committed,
    ensures
        spec_run(s, vs, msgs) == s,
    decreases msgs.len(),
{
    if msgs.len() > 0 {
        lemma_sealed_stays(s, vs, msgs.drop_last());
    }
}

/// Liveness over views. Let views pass without a block, each until its
/// timeout, and let a view come whose leader proposes the block `h` and
/// nothing else, while the validators of a quorum vote in it for `h` and
/// nothing else. Then a node that gets the proposal and the votes of the
/// quorum in that view, in whatever order and among whatever other
/// messages, seals the block: as leader, which proposes `h` itself, at
/// once; as follower on its own at the next tick of the clock after the
/// auto-commit timeout, if the sealed block of the leader has not come by
/// then.
pub proof fn lemma_height_commits(
    s: ConsensusModel,
    vs: Seq<Validator>,
    cfg: NodeConfig,
    is_macro: bool,
    times: Seq<u64>,
    leaders: Seq<int>,
    quorum: Seq<bool>,
    h: Digest,
    msgs: Seq<Message>,
    now: u64,
    next_leader: int,
)
    requires
        keys_distinct(vs),
        stakes_positive(vs),
        spec_quorum(vs, quorum),
        s.ok(vs),
        s.phase == Phase::Idle || s.phase == Phase::Prevoted,
        1 <= times.len() <= leaders.len(),
        s.view + times.len() <= u32::MAX,
        forall|k: int| 0 <= k < times.len() ==> 0 <= #[trigger] leaders[k] < vs.len(),
        spec_timed_out(s, vs, cfg, is_macro, times, leaders),
        ({
            let u = spec_silent(s, vs, cfg, is_macro, times, leaders).propose(vs, h).0;
            &&& forall|k: int| 0 <= k < msgs.len() ==> spec_honest(u, vs, quorum, h, #[trigger] msgs[k])
            &&& spec_delivered(u, vs, quorum, h, msgs)
        }),
    ensures
        ({
            let u = spec_silent(s, vs, cfg, is_macro, times, leaders).propose(vs, h).0;
            let w = spec_run(u, vs, msgs);
            &&& w.epoch == s.epoch
            &&& w.offset == s.offset
            &&& w.view == s.view + times.len()
            &&& w.proposal == Some(h)
            &&& spec_carries(vs, w.precommits, h)
            &&& w.role == Role::Leader ==> w.phase == Phase::Committed
            &&& w.role == Role::Follower ==> w.phase == Phase::Precommitted
            &&& w.role == Role::Follower && w.elapsed(now) >= cfg.spec_auto_commit_timeout() ==> {
                &&& w.tick(vs, now, cfg, is_macro, next_leader).0.phase == Phase::Committed
                &&& w.tick(vs, now, cfg, is_macro, next_leader).1 == seq![Action::AutoCommit(h)]
            }
        }),
{
    lemma_silent_views(s, vs, cfg, is_macro, times, leaders, quorum, h);
    let t = spec_silent(s, vs, cfg, is_macro, times, leaders);
    let u = t.propose(vs, h).0;
    if t.role == Role::Leader {
        lemma_propose_fits(t, vs, quorum, h);
    }
    if u.phase == Phase::Committed {
        lemma_sealed_stays(u, vs, msgs);
    } else {
        lemma_view_commits(u, vs, quorum, h, msgs, now, cfg, is_macro, next_leader);
        lemma_run(u, vs, quorum, h, msgs);
    }
}

} // verus!
