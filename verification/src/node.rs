//! The node: chain, mempool and consensus engine of one participant, and
//! what each event does to them.

use vstd::prelude::*;
use crate::block::{Block, Header, MacroBlock, Transaction};
use crate::chain::{ChainState, Rejection, Verdicts, spec_view_after};
use crate::config::NodeConfig;
use crate::consensus::{Action, ConsensusModel, ConsensusState, Message, spec_place_of};
use crate::digest::{Digest, PublicKey};
use crate::mempool::{Mempool, MempoolError, spec_prune};
use crate::validators::{Validator, ValidatorSet, spec_leader_index};

verus! {

/// Why a node did not take a sealed block.
#[derive(Clone, Copy, Debug, PartialEq, Eq, Structural)]
pub enum SealError {
    /// The block is of a view that the node has not reached.
    OutOfOrder,
    /// The chain refused the block.
    Rejected(Rejection),
}

/// The place of the node in the registry, if it is a validator.
pub open spec fn spec_me(vs: Seq<Validator>, me: PublicKey) -> Option<int> {
    if exists|i: int| 0 <= i < vs.len() && (#[trigger] vs[i]).network_pkey == me {
        Some(spec_place_of(vs, me))
    } else {
        None
    }
}

/// The epoch of the block behind the tip.
pub open spec fn spec_next_epoch(tip: Header, blocks_in_epoch: u32) -> u64 {
    if tip.offset + 1 < blocks_in_epoch || tip.epoch == u64::MAX {
        tip.epoch
    } else {
        (tip.epoch + 1) as u64
    }
}

/// The place in its epoch of the block behind the tip.
pub open spec fn spec_next_offset(tip: Header, blocks_in_epoch: u32) -> u32 {
    if tip.offset + 1 < blocks_in_epoch {
        (tip.offset + 1) as u32
    } else {
        0
    }
}

/// The consensus state in which a node takes up the height behind the tip
/// of the chain, in a view.
pub open spec fn spec_enter(chain: &ChainState, me: PublicKey, view: u32, now: u64) -> ConsensusModel {
    ConsensusModel::enter(
        spec_next_epoch(chain.tip, chain.blocks_in_epoch),
        spec_next_offset(chain.tip, chain.blocks_in_epoch),
        view,
        chain.validators@.len(),
        spec_leader_index(chain.validators@, chain.seed, view),
        spec_me(chain.validators@, me),
        now,
    )
}

/// The place of the node in the registry, if it is a validator.
pub fn place_of(vs: &ValidatorSet, me: &PublicKey) -> (r: Option<usize>)
    requires
        vs.wf(),
    ensures
        match r {
            Some(m) => spec_me(vs@, *me) == Some(m as int) && m < vs@.len(),
            None => spec_me(vs@, *me) is None,
        },
{
    let r = vs.index_of(me);
    proof {
        match r {
            Some(m) => {
                assert(vs@[m as int].network_pkey == *me);
                let c = spec_place_of(vs@, *me);
                assert(vs@[c].network_pkey == *me);
            },
            None => {},
        }
    }
    r
}

/// The consensus state in which a node takes up the height behind the tip.
pub fn enter(chain: &ChainState, me: &PublicKey, view: u32, now: u64) -> (r: ConsensusState)
    requires
        chain.wf(),
    ensures
        r@ == spec_enter(chain, *me, view, now),
        r@.ok(chain.validators@),
{
    let tip = &chain.tip;
    let same_epoch = tip.offset < chain.blocks_in_epoch && tip.offset + 1 < chain.blocks_in_epoch;
    let epoch = if same_epoch || tip.epoch == u64::MAX {
        tip.epoch
    } else {
        tip.epoch + 1
    };
    let offset = if same_epoch {
        tip.offset + 1
    } else {
        0
    };
    let leader = chain.validators.leader_index(&chain.seed, view);
    let me_place = place_of(&chain.validators, me);
    ConsensusState::new(epoch, offset, view, chain.validators.len(), leader, me_place, now)
}

/// One participant of the network.
#[derive(Debug)]
pub struct Node {
    pub chain: ChainState,
    pub mempool: Mempool,
    pub consensus: ConsensusState,
    pub cfg: NodeConfig,
    /// The key with which the node signs.
    pub me: PublicKey,
}

impl Node {
    /// What holds of every node: chain, pool and engine are sound, and the
    /// engine works on the height behind the tip, in a view that the chain
    /// admits, under the leader that the registry names for it.
    pub open spec fn wf(&self) -> bool {
        &&& self.chain.wf()
        &&& self.mempool.wf()
        &&& self.consensus@.ok(self.chain.validators@)
        &&& self.consensus.epoch == spec_next_epoch(self.chain.tip, self.chain.blocks_in_epoch)
        &&& self.consensus.offset == spec_next_offset(self.chain.tip, self.chain.blocks_in_epoch)
        &&& self.consensus.view >= spec_view_after(self.chain.tip)
        &&& self.consensus@.leader == spec_leader_index(
            self.chain.validators@,
            self.chain.seed,
            self.consensus.view,
        )
        &&& self.consensus@.me == spec_me(self.chain.validators@, self.me)
    }

    /// The verdict of the node on a sealed block: a block of a view that
    /// the node has not reached is out of order; the chain judges the rest.
    pub open spec fn spec_seal_check(&self, block: Block, verdicts: Verdicts) -> Result<
        (),
        SealError,
    > {
        if block.spec_header().view > self.consensus.view {
            Err(SealError::OutOfOrder)
        } else {
            match self.chain.spec_check(block, verdicts) {
                Err(e) => Err(SealError::Rejected(e)),
                Ok(()) => Ok(()),
            }
        }
    }

    /// Starts a node on a genesis block, at the height behind it.
    pub fn new(genesis: MacroBlock, blocks_in_epoch: u32, cfg: NodeConfig, me: PublicKey, now: u64) -> (r:
        Result<Node, Rejection>)
        ensures
            r matches Ok(node) ==> {
                &&& node.wf()
                &&& crate::chain::spec_check_genesis(genesis, blocks_in_epoch) is Ok
                &&& node.chain.blocks@ == seq![Block::Macro(genesis)]
                &&& node.mempool@.len() == 0
                &&& node.mempool.max_utxo == cfg.max_utxo_in_mempool
                &&& node.consensus@ == spec_enter(&node.chain, me, 0, now)
                &&& node.cfg == cfg
                &&& node.me == me
            },
            r matches Err(e) ==> crate::chain::spec_check_genesis(genesis, blocks_in_epoch) == Err::<
                (),
                Rejection,
            >(e),
    {
        let chain = match ChainState::new(genesis, blocks_in_epoch) {
            Err(e) => {
                return Err(e);
            },
            Ok(chain) => chain,
        };
        let view = chain.view_change();
        let consensus = enter(&chain, &me, view, now);
        let mempool = Mempool::new(cfg.max_utxo_in_mempool);
        proof {
            assert(chain.blocks@.last() == chain.blocks@[0]);
            assert(chain.tip.offset == 0);
        }
        Ok(Node { chain, mempool, consensus, cfg, me })
    }

    /// Takes a transaction from the network into the pool.
    pub fn on_transaction(&mut self, tx: Transaction) -> (r: Result<Digest, MempoolError>)
        requires
            old(self).wf(),
        ensures
            final(self).wf(),
            final(self).chain == old(self).chain,
            final(self).consensus == old(self).consensus,
            final(self).cfg == old(self).cfg,
            final(self).me == old(self).me,
            final(self).mempool.max_utxo == old(self).mempool.max_utxo,
            r matches Ok(h) ==> old(self).mempool.spec_check(
                tx,
                old(self).chain.table@,
                old(self).cfg.max_utxo_in_tx,
            ) is Ok && h == tx.spec_hash() && final(self).mempool@ == old(self).mempool@.insert(
                crate::mempool::spec_insert_place(old(self).mempool@, Mempool::spec_entry_of(tx)),
                Mempool::spec_entry_of(tx),
            ),
            r matches Err(e) ==> old(self).mempool.spec_check(
                tx,
                old(self).chain.table@,
                old(self).cfg.max_utxo_in_tx,
            ) == Err::<(), MempoolError>(e) && final(self).mempool@ == old(self).mempool@,
    {
        self.mempool.insert(tx, &self.chain.table, self.cfg.max_utxo_in_tx)
    }

    /// Whether the block that came with a proposal is valid: there is one,
    /// the proposal names it and its view, and it passes the checks of the
    /// chain on a proposed block.
    pub open spec fn spec_proposal_ok(&self, msg: Message, block: Option<&Block>, verdicts: Verdicts) -> bool {
        block matches Some(b) && b.spec_hash() == msg.hash && b.spec_header().view == msg.view
            && self.chain.model().check_proposal(*b, verdicts) is Ok
    }

    /// Whether the block that came with a proposal is valid.
    pub fn proposal_ok(&self, msg: &Message, block: Option<&Block>, verdicts: &Verdicts) -> (r: bool)
        requires
            self.wf(),
        ensures
            r == self.spec_proposal_ok(*msg, block, *verdicts),
    {
        match block {
            None => false,
            Some(b) => {
                let h = b.header();
                h.hash() == msg.hash && h.view == msg.view && self.chain.validate_proposal(
                    b,
                    verdicts,
                ).is_ok()
            },
        }
    }

    /// Takes a consensus message whose signature has been checked. With a
    /// proposal comes its block, and the verdicts on what the block claims;
    /// the node goes through the block itself.
    pub fn on_message(
        &mut self,
        msg: &Message,
        signature_ok: bool,
        block: Option<&Block>,
        verdicts: &Verdicts,
    ) -> (r: Vec<Action>)
        requires
            old(self).wf(),
        ensures
            final(self).wf(),
            final(self).chain == old(self).chain,
            final(self).mempool == old(self).mempool,
            final(self).cfg == old(self).cfg,
            final(self).me == old(self).me,
            final(self).consensus@ == old(self).consensus@.handle(
                old(self).chain.validators@,
                *msg,
                signature_ok,
                old(self).spec_proposal_ok(*msg, block, *verdicts),
            ).0,
            r@ == old(self).consensus@.handle(
                old(self).chain.validators@,
                *msg,
                signature_ok,
                old(self).spec_proposal_ok(*msg, block, *verdicts),
            ).1,
    {
        let block_ok = self.proposal_ok(msg, block, verdicts);
        self.consensus.handle(&self.chain.validators, msg, signature_ok, block_ok)
    }

    /// As leader, proposes the block with digest `hash`.
    pub fn propose(&mut self, hash: Digest) -> (r: Vec<Action>)
        requires
            old(self).wf(),
        ensures
            final(self).wf(),
            final(self).chain == old(self).chain,
            final(self).mempool == old(self).mempool,
            final(self).cfg == old(self).cfg,
            final(self).me == old(self).me,
            final(self).consensus@ == old(self).consensus@.propose(
                old(self).chain.validators@,
                hash,
            ).0,
            r@ == old(self).consensus@.propose(old(self).chain.validators@, hash).1,
    {
        self.consensus.propose(&self.chain.validators, hash)
    }

    /// Takes a tick of the clock.
    pub fn on_tick(&mut self, now: u64) -> (r: Vec<Action>)
        requires
            old(self).wf(),
        ensures
            final(self).wf(),
            final(self).chain == old(self).chain,
            final(self).mempool == old(self).mempool,
            final(self).cfg == old(self).cfg,
            final(self).me == old(self).me,
            final(self).consensus@ == old(self).spec_tick(now).0,
            r@ == old(self).spec_tick(now).1,
    {
        let is_macro = self.chain.next_is_macro();
        let next_view = if self.consensus.view < u32::MAX {
            self.consensus.view + 1
        } else {
            self.consensus.view
        };
        let next_leader = self.chain.validators.leader_index(&self.chain.seed, next_view);
        self.consensus.tick(&self.chain.validators, now, &self.cfg, is_macro, next_leader)
    }

    /// The engine after a tick of the clock, and what the node is to do.
    pub open spec fn spec_tick(&self, now: u64) -> (ConsensusModel, Seq<Action>) {
        self.consensus@.tick(
            self.chain.validators@,
            now,
            self.cfg,
            !(self.chain.tip.offset + 1 < self.chain.blocks_in_epoch),
            spec_leader_index(
                self.chain.validators@,
                self.chain.seed,
                if self.consensus.view < u32::MAX {
                    (self.consensus.view + 1) as u32
                } else {
                    self.consensus.view
                },
            ),
        )
    }

    /// Takes a sealed block, from the network or from the node's own
    /// engine. A block of a view that the node has not reached is refused
    /// as out of order. A block that the chain takes voids the
    /// transactions of the pool that it conflicts with, and the engine
    /// takes up the next height.
    pub fn on_sealed_block(&mut self, block: Block, verdicts: &Verdicts, now: u64) -> (r: Result<
        (),
        SealError,
    >)
        requires
            old(self).wf(),
        ensures
            final(self).wf(),
            r == old(self).spec_seal_check(block, *verdicts),
            r is Err ==> *final(self) == *old(self),
            r is Ok ==> {
                &&& final(self).chain.spec_is_after(old(self).chain, block)
                &&& final(self).mempool@ == spec_prune(old(self).mempool@, block.spec_inputs())
                &&& final(self).mempool.max_utxo == old(self).mempool.max_utxo
                &&& final(self).consensus@ == spec_enter(
                    &final(self).chain,
                    old(self).me,
                    spec_view_after(block.spec_header()),
                    now,
                )
                &&& final(self).cfg == old(self).cfg
                &&& final(self).me == old(self).me
            },
    {
        if block.header().view > self.consensus.view {
            return Err(SealError::OutOfOrder);
        }
        match self.chain.validate(&block, verdicts) {
            Err(e) => {
                return Err(SealError::Rejected(e));
            },
            Ok(_) => {},
        }
        self.mempool.prune(&block);
        let r = self.chain.try_append(block, verdicts);
        assert(r is Ok);
        let view = self.chain.view_change();
        self.consensus = enter(&self.chain, &self.me, view, now);
        Ok(())
    }
}

} // verus!
