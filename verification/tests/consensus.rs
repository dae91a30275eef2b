use stegos::block::{
    Block, MacroBlock, MicroBlock, Output, PublicPaymentOutput, Transaction,
};
use stegos::builder::{build_macro_block, build_micro_block, seal};
use stegos::chain::{Rejection, Verdicts};
use stegos::config::NodeConfig;
use stegos::consensus::{Action, Message, MessageKind, Phase, Role};
use stegos::digest::{Digest, PublicKey};
use stegos::genesis::{genesis, KeyChain};
use stegos::loader;
use stegos::node::{Node, SealError};

fn digest(n: u64) -> Digest {
    Digest { w0: n, w1: 0, w2: 0, w3: 0 }
}

fn key(n: u64) -> PublicKey {
    PublicKey { id: digest(n) }
}

fn all_good() -> Verdicts {
    Verdicts {
        leader_signature: true,
        seed: true,
        range_proofs: true,
        balance: true,
        quorum_signature: true,
    }
}

fn keychains(num_nodes: u64) -> Vec<KeyChain> {
    (1..=num_nodes)
        .map(|i| KeyChain { wallet_pkey: key(1000 + i), network_pkey: key(i) })
        .collect()
}

fn genesis_block(num_nodes: u64, stake: i64) -> MacroBlock {
    let coins = stake * num_nodes as i64 + 1_000;
    genesis(&keychains(num_nodes), stake, coins, 1_000, digest(42), 10)
        .expect("genesis has valid public keys")
}

struct Sandbox {
    nodes: Vec<Node>,
    now: u64,
}

impl Sandbox {
    fn start(num_nodes: u64, blocks_in_epoch: u32) -> Sandbox {
        let g = genesis_block(num_nodes, 100);
        let nodes = (1..=num_nodes)
            .map(|i| {
                Node::new(g.clone(), blocks_in_epoch, NodeConfig::default(), key(i), 1_000)
                    .expect("genesis is valid")
            })
            .collect();
        Sandbox { nodes, now: 1_000 }
    }

    fn cfg(&self) -> NodeConfig {
        self.nodes[0].cfg
    }

    fn wait(&mut self, millis: u64) {
        self.now += millis;
    }

    fn node(&self, pkey: &PublicKey) -> usize {
        self.nodes.iter().position(|n| n.me == *pkey).expect("the leader is a node")
    }

    fn leader(&self) -> usize {
        let view = self.nodes[0].consensus.view;
        self.node(&self.nodes[0].chain.leader(view))
    }

    /// The leader builds a micro block, and every node takes it.
    fn skip_micro_block(&mut self) {
        let l = self.leader();
        let view = self.nodes[l].consensus.view;
        let block = {
            let n = &self.nodes[l];
            build_micro_block(
                &n.chain,
                &n.mempool,
                n.cfg.max_utxo_in_block,
                view,
                self.now,
                digest(self.now),
                digest(0),
            )
            .expect("a micro block is due")
        };
        for node in self.nodes.iter_mut() {
            node.on_sealed_block(Block::Micro(block.clone()), &all_good(), self.now).unwrap();
        }
    }

    /// Runs the micro blocks of the epoch, up to the place of the macro block.
    fn fill_epoch(&mut self) {
        let blocks_in_epoch = self.nodes[0].chain.blocks_in_epoch;
        for _ in 1..blocks_in_epoch {
            let wait = self.cfg().tx_wait_timeout;
            self.wait(wait);
            self.skip_micro_block();
        }
    }
}

fn broadcasts(actions: &[Action], kind: MessageKind) -> Vec<Message> {
    actions
        .iter()
        .filter_map(|a| match a {
            Action::Broadcast(m) if m.kind == kind => Some(*m),
            _ => None,
        })
        .collect()
}

fn seals(actions: &[Action]) -> Vec<Digest> {
    actions
        .iter()
        .filter_map(|a| match a {
            Action::Seal(h) => Some(*h),
            _ => None,
        })
        .collect()
}

/// The leader proposes a macro block; the proposal, the prevotes and the
/// precommits go round; the leader's order to seal comes back.
struct Round {
    leader: usize,
    block: MacroBlock,
    proposal: Message,
    prevotes: Vec<Message>,
    precommits: Vec<Message>,
    sealed: Vec<Digest>,
}

fn run_round(s: &mut Sandbox) -> Round {
    let l = s.leader();
    let view = s.nodes[l].consensus.view;
    // The leader is asked to build once the wait for transactions is over.
    let wait = s.cfg().tx_wait_timeout;
    s.wait(wait);
    let now = s.now;
    let asked = s.nodes[l].on_tick(now);
    assert_eq!(asked, vec![Action::BuildProposal]);
    let block = build_macro_block(&s.nodes[l].chain, view, now, digest(now)).expect("a macro block is due");
    let hash = block.header.hash();
    let actions = s.nodes[l].propose(hash);
    let proposal = broadcasts(&actions, MessageKind::Proposal)[0];
    let mut prevotes = broadcasts(&actions, MessageKind::Prevote);
    let mut precommits = broadcasts(&actions, MessageKind::Precommit);
    let mut sealed = seals(&actions);
    // Send this proposal to other nodes.
    for i in 0..s.nodes.len() {
        if i != l {
            let proposed = Block::Macro(block.clone());
            let actions = s.nodes[i].on_message(&proposal, true, Some(&proposed), &all_good());
            prevotes.extend(broadcasts(&actions, MessageKind::Prevote));
            precommits.extend(broadcasts(&actions, MessageKind::Precommit));
        }
    }
    // Send these pre-votes to nodes.
    for i in 0..s.nodes.len() {
        for vote in prevotes.clone() {
            let actions = s.nodes[i].on_message(&vote, true, None, &all_good());
            precommits.extend(broadcasts(&actions, MessageKind::Precommit));
            sealed.extend(seals(&actions));
        }
    }
    // Send these pre-commits to nodes.
    for i in 0..s.nodes.len() {
        for vote in precommits.clone() {
            let actions = s.nodes[i].on_message(&vote, true, None, &all_good());
            sealed.extend(seals(&actions));
        }
    }
    Round { leader: l, block, proposal, prevotes, precommits, sealed }
}

#[test]
fn consensus_smoke_test() {
    let mut s = Sandbox::start(3, 5);
    for node in s.nodes.iter() {
        assert_eq!(node.chain.height(), 1);
    }

    // Process N micro blocks.
    let height = s.nodes[0].chain.height();
    s.fill_epoch();
    let height = height + s.nodes[0].chain.blocks_in_epoch as u64 - 1;
    for node in s.nodes.iter() {
        assert_eq!(node.chain.height(), height);
    }

    let round = s.nodes[0].chain.view_change();
    let epoch = s.nodes[0].chain.epoch();
    let last_block_hash = s.nodes[0].chain.last_block_hash();

    let mut r = run_round(&mut s);
    // Check for a proposal from the leader.
    assert_eq!(r.proposal.epoch, epoch + 1);
    assert_eq!(r.proposal.offset, 0);
    assert_eq!(r.proposal.view, round);
    assert_eq!(r.proposal.kind, MessageKind::Proposal);
    assert_eq!(r.proposal.sender, s.nodes[r.leader].me);

    // Check for pre-votes.
    assert_eq!(r.prevotes.len(), 3);
    for prevote in r.prevotes.iter() {
        assert_eq!(prevote.epoch, epoch + 1);
        assert_eq!(prevote.view, round);
        assert_eq!(prevote.hash, r.proposal.hash);
        assert_eq!(prevote.kind, MessageKind::Prevote);
    }

    // Check for pre-commits.
    assert_eq!(r.precommits.len(), 3);
    for precommit in r.precommits.iter() {
        assert_eq!(precommit.epoch, epoch + 1);
        assert_eq!(precommit.view, round);
        assert_eq!(precommit.hash, r.proposal.hash);
        assert_eq!(precommit.kind, MessageKind::Precommit);
    }

    // Receive sealed block.
    assert_eq!(r.sealed, vec![r.proposal.hash]);
    assert_eq!(s.nodes[r.leader].consensus.phase, Phase::Committed);
    let signers = s.nodes[r.leader].consensus.signers();
    assert_eq!(signers, vec![true, true, true]);
    seal(&mut r.block, signers);
    let block = Block::Macro(r.block);
    let block_hash = block.hash();
    assert_eq!(block_hash, r.proposal.hash);
    assert_eq!(block.header().previous, last_block_hash);

    // Send this sealed block to all nodes.
    let now = s.now;
    for node in s.nodes.iter_mut() {
        node.on_sealed_block(block.clone(), &all_good(), now).unwrap();
    }

    // Check state of the nodes.
    for node in s.nodes.iter() {
        assert_eq!(node.chain.height(), height + 1);
        assert_eq!(node.chain.epoch(), epoch + 1);
        assert_eq!(node.chain.offset(), 0);
        assert_eq!(node.chain.last_block_hash(), block_hash);
    }
}

#[test]
fn autocomit() {
    let mut s = Sandbox::start(3, 5);
    for node in s.nodes.iter() {
        assert_eq!(node.chain.height(), 1);
    }
    let height = s.nodes[0].chain.height();
    s.fill_epoch();
    let height = height + s.nodes[0].chain.blocks_in_epoch as u64 - 1;
    let epoch = s.nodes[0].chain.epoch();
    for node in s.nodes.iter() {
        assert_eq!(node.chain.height(), height);
    }
    let last_block_hash = s.nodes[0].chain.last_block_hash();

    let mut r = run_round(&mut s);
    assert_eq!(r.proposal.kind, MessageKind::Proposal);
    assert_eq!(r.sealed, vec![r.proposal.hash]);

    // Receive sealed block.
    let unsealed = r.block.clone();
    seal(&mut r.block, s.nodes[r.leader].consensus.signers());
    let block = Block::Macro(r.block);
    let block_hash = block.hash();

    // Send this sealed block to all other nodes except the first not leader.
    let last = (0..3).find(|i| *i != r.leader).unwrap();
    let now = s.now;
    for i in 0..3 {
        if i != last {
            s.nodes[i].on_sealed_block(block.clone(), &all_good(), now).unwrap();
        }
    }
    for i in 0..3 {
        if i != last {
            assert_eq!(s.nodes[i].chain.height(), height + 1);
            assert_eq!(s.nodes[i].chain.epoch(), epoch + 1);
            assert_eq!(s.nodes[i].chain.last_block_hash(), block_hash);
        }
    }

    // The last node hasn't received sealed block.
    assert_eq!(s.nodes[last].chain.height(), height);
    assert_eq!(s.nodes[last].chain.epoch(), epoch);
    assert_eq!(s.nodes[last].chain.last_block_hash(), last_block_hash);
    assert_eq!(s.nodes[last].consensus.phase, Phase::Precommitted);
    assert_eq!(s.nodes[last].consensus.role, Role::Follower);

    // Wait for the timeout.
    let timeout = s.cfg().auto_commit_timeout();
    s.wait(timeout);
    let now = s.now;
    let actions = s.nodes[last].on_tick(now);

    // Check that the last node has auto-committed the block.
    assert_eq!(actions, vec![Action::AutoCommit(block_hash)]);
    let mut own = unsealed;
    seal(&mut own, s.nodes[last].consensus.signers());
    let block2 = Block::Macro(own);
    s.nodes[last].on_sealed_block(block2.clone(), &all_good(), now).unwrap();
    assert_eq!(s.nodes[last].chain.height(), height + 1);
    assert_eq!(s.nodes[last].chain.epoch(), epoch + 1);
    assert_eq!(s.nodes[last].chain.last_block_hash(), block_hash);

    // Check that the auto-committed block is the one that the others have.
    assert_eq!(block_hash, block2.hash());
}

#[test]
fn round() {
    let mut s = Sandbox::start(3, 5);
    for node in s.nodes.iter() {
        assert_eq!(node.chain.height(), 1);
    }
    let height = s.nodes[0].chain.height();
    s.fill_epoch();
    let height = height + s.nodes[0].chain.blocks_in_epoch as u64 - 1;
    for node in s.nodes.iter() {
        assert_eq!(node.chain.height(), height);
    }

    // The leader of the view stays silent.
    let round = s.nodes[0].chain.view_change() + 1;
    let epoch = s.nodes[0].chain.epoch();
    let timeout = s.cfg().macro_block_timeout;
    s.wait(timeout);
    let now = s.now;
    for node in s.nodes.iter_mut() {
        let actions = node.on_tick(now);
        assert_eq!(actions, vec![Action::ViewChange(round)]);
        assert_eq!(node.consensus.view, round);
        assert_eq!(node.consensus.phase, Phase::Idle);
    }

    let leader_pk = s.nodes[0].chain.leader(round);
    let mut r = run_round(&mut s);
    assert_eq!(s.nodes[r.leader].me, leader_pk);
    assert_eq!(r.proposal.kind, MessageKind::Proposal);
    assert_eq!(r.proposal.view, round);
    for prevote in r.prevotes.iter() {
        assert_eq!(prevote.kind, MessageKind::Prevote);
        assert_eq!(prevote.epoch, epoch + 1);
        assert_eq!(prevote.view, round);
        assert_eq!(prevote.hash, r.proposal.hash);
    }
    for precommit in r.precommits.iter() {
        assert_eq!(precommit.kind, MessageKind::Precommit);
        assert_eq!(precommit.epoch, epoch + 1);
        assert_eq!(precommit.view, round);
        assert_eq!(precommit.hash, r.proposal.hash);
    }

    // Receive sealed block.
    seal(&mut r.block, s.nodes[r.leader].consensus.signers());
    let block = Block::Macro(r.block);
    let block_hash = block.hash();
    assert_eq!(block.header().view, round);
    let now = s.now;
    for node in s.nodes.iter_mut() {
        node.on_sealed_block(block.clone(), &all_good(), now).unwrap();
    }
    for node in s.nodes.iter() {
        assert_eq!(node.chain.height(), height + 1);
        assert_eq!(node.chain.epoch(), epoch + 1);
        assert_eq!(node.chain.last_block_hash(), block_hash);
    }
}

#[test]
fn out_of_order_micro_block() {
    let mut s = Sandbox::start(3, 5);
    for node in s.nodes.iter() {
        assert_eq!(node.chain.height(), 1);
    }
    let height = s.nodes[0].chain.height();
    s.skip_micro_block();
    let height = height + 1;
    for node in s.nodes.iter() {
        assert_eq!(node.chain.height(), height);
    }

    // create valid but out of order fake micro block.
    let round = s.nodes[0].chain.view_change();
    let l = s.leader();
    let mut block: MicroBlock = build_micro_block(
        &s.nodes[l].chain,
        &s.nodes[l].mempool,
        1000,
        round + 1,
        s.now,
        digest(0),
        digest(0),
    )
    .unwrap();
    assert_eq!(block.header.previous, s.nodes[0].chain.last_block_hash());
    block.inputs.clear();
    block.outputs.clear();
    let block = Block::Micro(block);

    // broadcast block to other nodes.
    let now = s.now;
    for i in 0..3 {
        if i != l {
            let r = s.nodes[i].on_sealed_block(block.clone(), &all_good(), now);
            assert_eq!(r, Err(SealError::OutOfOrder));
        }
    }
    for node in s.nodes.iter() {
        assert_eq!(node.chain.height(), height);
        assert_eq!(node.consensus.view, round);
    }
}

fn payment_tx(input: Digest, amount: i64, fee: i64) -> Transaction {
    Transaction {
        inputs: vec![input],
        outputs: vec![Output::PublicPayment(PublicPaymentOutput { recipient: key(9), amount })],
        fee,
    }
}

/// Runs a micro block through the three phases, as the engine does for any
/// height, and hands back the block and the round.
fn micro_round(s: &mut Sandbox) -> (Block, Vec<Message>, Vec<Message>, Vec<Digest>, usize) {
    let l = s.leader();
    let view = s.nodes[l].consensus.view;
    let wait = s.cfg().tx_wait_timeout;
    s.wait(wait);
    let now = s.now;
    assert_eq!(s.nodes[l].on_tick(now), vec![Action::BuildProposal]);
    let block = {
        let n = &s.nodes[l];
        build_micro_block(&n.chain, &n.mempool, n.cfg.max_utxo_in_block, view, now, digest(now), digest(0))
            .unwrap()
    };
    let hash = block.header.hash();
    let actions = s.nodes[l].propose(hash);
    let proposal = broadcasts(&actions, MessageKind::Proposal)[0];
    let mut prevotes = broadcasts(&actions, MessageKind::Prevote);
    let mut precommits = Vec::new();
    let mut sealed = Vec::new();
    for i in 0..s.nodes.len() {
        if i != l {
            let proposed = Block::Micro(block.clone());
            let actions = s.nodes[i].on_message(&proposal, true, Some(&proposed), &all_good());
            prevotes.extend(broadcasts(&actions, MessageKind::Prevote));
        }
    }
    for i in 0..s.nodes.len() {
        for vote in prevotes.clone() {
            let actions = s.nodes[i].on_message(&vote, true, None, &all_good());
            precommits.extend(broadcasts(&actions, MessageKind::Precommit));
        }
    }
    for i in 0..s.nodes.len() {
        for vote in precommits.clone() {
            sealed.extend(seals(&s.nodes[i].on_message(&vote, true, None, &all_good())));
        }
    }
    (Block::Micro(block), prevotes, precommits, sealed, l)
}

#[test]
fn happy_path_three_validators() {
    let mut s = Sandbox::start(3, 5);
    // The mempool of every node has one transaction: it spends the payment
    // output of the genesis block.
    let input = s.nodes[0].chain.table[0].id;
    for node in s.nodes.iter_mut() {
        let h = node.on_transaction(payment_tx(input, 5, 1_000)).unwrap();
        assert!(node.mempool.contains(&h));
    }
    let (block, prevotes, precommits, sealed, l) = micro_round(&mut s);
    assert_eq!(prevotes.len(), 3);
    assert_eq!(precommits.len(), 3);
    assert_eq!(sealed, vec![block.hash()]);
    assert_eq!(s.nodes[l].consensus.role, Role::Leader);
    match &block {
        Block::Micro(b) => {
            assert_eq!(b.inputs, vec![input]);
            assert_eq!(b.outputs.len(), 1);
            assert_eq!(b.fee, 1_000);
        }
        Block::Macro(_) => panic!("a micro block is due"),
    }
    let now = s.now;
    for node in s.nodes.iter_mut() {
        node.on_sealed_block(block.clone(), &all_good(), now).unwrap();
    }
    for node in s.nodes.iter() {
        assert_eq!(node.chain.offset(), 1);
        assert_eq!(node.chain.height(), 2);
        assert_eq!(node.mempool.len(), 0);
        assert_eq!(node.consensus.offset, 2);
        assert_eq!(node.consensus.phase, Phase::Idle);
    }
}

#[test]
fn lost_sealed_block_auto_commit() {
    let mut s = Sandbox::start(3, 5);
    let (block, _, _, sealed, l) = micro_round(&mut s);
    assert_eq!(sealed.len(), 1);
    let third = (0..3).find(|i| *i != l).unwrap();
    let now = s.now;
    for i in 0..3 {
        if i != third {
            s.nodes[i].on_sealed_block(block.clone(), &all_good(), now).unwrap();
        }
    }
    assert_eq!(s.nodes[third].chain.height(), 1);
    // Before the timeout nothing happens.
    assert_eq!(s.nodes[third].on_tick(now), vec![]);
    let timeout = s.cfg().micro_block_timeout;
    s.wait(timeout);
    let now = s.now;
    assert_eq!(s.nodes[third].on_tick(now), vec![Action::AutoCommit(block.hash())]);
    assert_eq!(s.nodes[third].consensus.phase, Phase::Committed);
    s.nodes[third].on_sealed_block(block.clone(), &all_good(), now).unwrap();
    let h0 = s.nodes[0].chain.height();
    for node in s.nodes.iter() {
        assert_eq!(node.chain.height(), h0);
        assert_eq!(node.chain.last_block_hash(), block.hash());
    }
}

#[test]
fn view_change_on_silent_leader() {
    let mut s = Sandbox::start(3, 5);
    let old_leader = s.leader();
    let timeout = s.cfg().micro_block_timeout;
    // Just before the timeout no node moves.
    s.wait(timeout - 1);
    let now = s.now;
    for i in 0..3 {
        if i != old_leader {
            assert_eq!(s.nodes[i].on_tick(now), vec![]);
        }
    }
    s.wait(1);
    let now = s.now;
    for node in s.nodes.iter_mut() {
        let actions = node.on_tick(now);
        assert!(actions.contains(&Action::ViewChange(1)));
        assert_eq!(node.consensus.view, 1);
    }
    let new_leader = s.leader();
    assert_eq!(s.nodes[new_leader].me, s.nodes[0].chain.leader(1));
    let (block, _, _, sealed, l) = micro_round(&mut s);
    assert_eq!(l, new_leader);
    assert_eq!(sealed, vec![block.hash()]);
    assert_eq!(block.header().view, 1);
    assert_eq!(block.header().offset, 1);
    let now = s.now;
    for node in s.nodes.iter_mut() {
        node.on_sealed_block(block.clone(), &all_good(), now).unwrap();
        assert_eq!(node.chain.height(), 2);
        assert_eq!(node.chain.view_change(), 1);
    }
}

#[test]
fn epoch_transition() {
    let mut s = Sandbox::start(3, 5);
    // run four micro-blocks
    s.fill_epoch();
    assert_eq!(s.nodes[0].chain.height(), 5);
    assert_eq!(s.nodes[0].chain.offset(), 4);
    assert!(s.nodes[0].chain.next_is_macro());
    let mut r = run_round(&mut s);
    let signers = s.nodes[r.leader].consensus.signers();
    seal(&mut r.block, signers.clone());
    // (a) macro-block is quorum-signed
    assert!(s.nodes[0].chain.validators().has_quorum(&signers));
    // An unsigned copy is refused.
    let mut unsigned = r.block.clone();
    seal(&mut unsigned, vec![false, false, false]);
    let now = s.now;
    assert_eq!(
        s.nodes[0].on_sealed_block(Block::Macro(unsigned), &all_good(), now),
        Err(SealError::Rejected(Rejection::NoQuorum))
    );
    // (b) validator set for the next epoch equals the epoch's escrow snapshot
    let mut wrong = r.block.clone();
    wrong.validators.pop();
    assert_eq!(
        s.nodes[0].on_sealed_block(Block::Macro(wrong), &all_good(), now),
        Err(SealError::Rejected(Rejection::WrongValidators))
    );
    let block = Block::Macro(r.block.clone());
    for node in s.nodes.iter_mut() {
        node.on_sealed_block(block.clone(), &all_good(), now).unwrap();
    }
    for node in s.nodes.iter() {
        assert_eq!(node.chain.epoch(), 1);
        assert_eq!(node.chain.offset(), 0);
        assert_eq!(node.chain.validators().validators, r.block.validators);
        assert_eq!(node.chain.seed, r.block.header.random);
        assert_eq!(node.chain.view_change(), 0);
    }
    // (c) leader selection for view 0 of the next epoch is deterministic from the new seed
    let leader = s.nodes[0].chain.leader(0);
    for node in s.nodes.iter() {
        assert_eq!(node.chain.leader(0), leader);
        assert_eq!(node.chain.validators().leader(&r.block.header.random, 0), leader);
    }
}

#[test]
fn catch_up() {
    let mut s = Sandbox::start(3, 3);
    // Node 2 is offline for one full epoch.
    let offline = 2;
    let mut blocks: Vec<Block> = Vec::new();
    for _ in 0..2 {
        s.wait(10_000);
        let view = s.nodes[0].consensus.view;
        let block = Block::Micro(
            build_micro_block(&s.nodes[0].chain, &s.nodes[0].mempool, 1000, view, s.now, digest(s.now), digest(0))
                .unwrap(),
        );
        for i in 0..2 {
            s.nodes[i].on_sealed_block(block.clone(), &all_good(), s.now).unwrap();
        }
        blocks.push(block);
    }
    let mut m = build_macro_block(&s.nodes[0].chain, 0, s.now, digest(77)).unwrap();
    seal(&mut m, vec![true, true, true]);
    let sealed = Block::Macro(m);
    for i in 0..2 {
        s.nodes[i].on_sealed_block(sealed.clone(), &all_good(), s.now).unwrap();
    }
    // The node rejoins and observes a sealed macro block of an unknown epoch.
    assert!(loader::is_behind(&s.nodes[offline].chain, &sealed.header()));
    assert!(!loader::is_behind(&s.nodes[0].chain, &sealed.header()));
    // It pulls the blocks in windows.
    let cfg = s.cfg();
    let request = loader::request(&s.nodes[offline].chain, &cfg).unwrap();
    assert_eq!((request.from_epoch, request.from_offset, request.max), (0, 1, 100));
    let (start, end) = loader::serve(&s.nodes[0].chain, &request, &cfg);
    assert_eq!((start, end), (1, 4));
    let answer: Vec<Block> = s.nodes[0].chain.blocks[start..end].to_vec();
    let verdicts = vec![all_good(); answer.len()];
    let taken = loader::receive(&mut s.nodes[offline].chain, answer, &verdicts);
    assert_eq!(taken, 3);
    assert_eq!(s.nodes[offline].chain.height(), s.nodes[0].chain.height());
    assert_eq!(s.nodes[offline].chain.last_block_hash(), s.nodes[0].chain.last_block_hash());
    assert!(!loader::is_behind(&s.nodes[offline].chain, &sealed.header()));
}

#[test]
fn loader_window_is_capped() {
    let mut s = Sandbox::start(3, 2);
    for _ in 0..3 {
        s.wait(10_000);
        s.skip_micro_block();
        let mut m = build_macro_block(&s.nodes[0].chain, 0, s.now, digest(s.now)).unwrap();
        seal(&mut m, vec![true, true, true]);
        for node in s.nodes.iter_mut() {
            node.on_sealed_block(Block::Macro(m.clone()), &all_good(), s.now).unwrap();
        }
    }
    let chain = &s.nodes[0].chain;
    assert_eq!(chain.height(), 7);
    let mut cfg = s.cfg();
    cfg.loader_speed_in_epoch = 1;
    let request = loader::GetBlocks { from_epoch: 1, from_offset: 0, max: 100 };
    assert_eq!(loader::serve(chain, &request, &cfg), (2, 4));
    let request = loader::GetBlocks { from_epoch: 0, from_offset: 1, max: 2 };
    cfg.loader_speed_in_epoch = 100;
    assert_eq!(loader::serve(chain, &request, &cfg), (1, 4));
    let request = loader::GetBlocks { from_epoch: 9, from_offset: 0, max: u64::MAX };
    assert_eq!(loader::serve(chain, &request, &cfg), (7, 7));
}

#[test]
fn receive_stops_at_bad_block() {
    let mut s = Sandbox::start(3, 5);
    let mut blocks = Vec::new();
    for _ in 0..3 {
        s.wait(10_000);
        let block = Block::Micro(
            build_micro_block(&s.nodes[0].chain, &s.nodes[0].mempool, 1000, 0, s.now, digest(1), digest(0)).unwrap(),
        );
        for i in 0..2 {
            s.nodes[i].on_sealed_block(block.clone(), &all_good(), s.now).unwrap();
        }
        blocks.push(block);
    }
    let mut verdicts = vec![all_good(); 3];
    verdicts[1].leader_signature = false;
    let taken = loader::receive(&mut s.nodes[2].chain, blocks, &verdicts);
    assert_eq!(taken, 1);
    assert_eq!(s.nodes[2].chain.height(), 2);
}

fn macro_hashes(node: &Node) -> Vec<Digest> {
    node.chain.blocks.iter().filter(|b| b.is_macro()).map(|b| b.hash()).collect()
}

#[test]
fn committed_macro_blocks_are_prefixes() {
    let mut s = Sandbox::start(3, 2);
    // Node 2 misses the second epoch.
    for epoch in 0..2 {
        s.wait(10_000);
        let view = s.nodes[0].consensus.view;
        let block = Block::Micro(
            build_micro_block(&s.nodes[0].chain, &s.nodes[0].mempool, 1000, view, s.now, digest(s.now), digest(0))
                .unwrap(),
        );
        let mut m = None;
        for i in 0..3 {
            if i == 2 && epoch == 1 {
                continue;
            }
            s.nodes[i].on_sealed_block(block.clone(), &all_good(), s.now).unwrap();
            if m.is_none() {
                let mut b = build_macro_block(&s.nodes[i].chain, 0, s.now, digest(epoch)).unwrap();
                seal(&mut b, vec![true, true, true]);
                m = Some(Block::Macro(b));
            }
            s.nodes[i].on_sealed_block(m.clone().unwrap(), &all_good(), s.now).unwrap();
        }
    }
    let (a, b, c) = (macro_hashes(&s.nodes[0]), macro_hashes(&s.nodes[1]), macro_hashes(&s.nodes[2]));
    assert_eq!(a.len(), 3);
    assert_eq!(a, b);
    assert_eq!(c.len(), 2);
    assert_eq!(&a[..2], &c[..]);
    // A macro block for a height that is taken already does not go in.
    let mut other = build_macro_block(&s.nodes[2].chain, 0, s.now, digest(99));
    assert!(other.is_none());
    s.wait(1);
    let view = s.nodes[2].consensus.view;
    let micro = Block::Micro(
        build_micro_block(&s.nodes[2].chain, &s.nodes[2].mempool, 1000, view, s.now, digest(5), digest(0)).unwrap(),
    );
    s.nodes[2].on_sealed_block(micro.clone(), &all_good(), s.now).unwrap();
    other = build_macro_block(&s.nodes[2].chain, 0, s.now, digest(99));
    let mut fork = other.unwrap();
    seal(&mut fork, vec![true, true, true]);
    let now = s.now;
    assert_eq!(
        s.nodes[0].on_sealed_block(Block::Macro(fork), &all_good(), now),
        Err(SealError::Rejected(Rejection::WrongParent))
    );
}

#[test]
fn followers_go_through_the_proposed_block() {
    let mut s = Sandbox::start(3, 5);
    let l = s.leader();
    let f = (l + 1) % 3;
    let view = s.nodes[l].consensus.view;
    let wait = s.cfg().tx_wait_timeout;
    s.wait(wait);
    let now = s.now;
    assert_eq!(s.nodes[l].on_tick(now), vec![Action::BuildProposal]);
    let block = {
        let n = &s.nodes[l];
        build_micro_block(&n.chain, &n.mempool, n.cfg.max_utxo_in_block, view, now, digest(now), digest(0))
            .unwrap()
    };
    let actions = s.nodes[l].propose(block.header.hash());
    let proposal = broadcasts(&actions, MessageKind::Proposal)[0];
    let good = Block::Micro(block.clone());

    // Without its block a proposal is not taken.
    assert!(!s.nodes[f].proposal_ok(&proposal, None, &all_good()));
    assert!(s.nodes[f].on_message(&proposal, true, None, &all_good()).is_empty());
    // Nor with a block that does not balance.
    let unbalanced = Verdicts { balance: false, ..all_good() };
    assert_eq!(s.nodes[f].chain.validate_proposal(&good, &unbalanced), Err(Rejection::Unbalanced));
    assert!(s.nodes[f].on_message(&proposal, true, Some(&good), &unbalanced).is_empty());
    // Nor with another block than the one that it names.
    let mut other = block.clone();
    other.header.timestamp += 1;
    let other = Block::Micro(other);
    assert_eq!(s.nodes[f].chain.validate_proposal(&other, &all_good()), Ok(()));
    assert!(!s.nodes[f].proposal_ok(&proposal, Some(&other), &all_good()));
    assert!(s.nodes[f].on_message(&proposal, true, Some(&other), &all_good()).is_empty());
    // Nor with a block that spends what is not there.
    let mut thief = block.clone();
    thief.inputs.push(digest(999));
    assert_eq!(
        s.nodes[f].chain.validate_proposal(&Block::Micro(thief), &all_good()),
        Err(Rejection::UnknownInput)
    );
    assert_eq!(s.nodes[f].consensus.phase, Phase::Idle);
    // With the block that it names, and which passes, the follower prevotes.
    assert!(s.nodes[f].proposal_ok(&proposal, Some(&good), &all_good()));
    let actions = s.nodes[f].on_message(&proposal, true, Some(&good), &all_good());
    assert_eq!(broadcasts(&actions, MessageKind::Prevote).len(), 1);
}

#[test]
fn a_proposed_macro_block_has_no_signers_yet() {
    let mut s = Sandbox::start(3, 2);
    s.fill_epoch();
    let l = s.leader();
    let f = (l + 1) % 3;
    let view = s.nodes[l].consensus.view;
    let wait = s.cfg().tx_wait_timeout;
    s.wait(wait);
    let now = s.now;
    let block = build_macro_block(&s.nodes[l].chain, view, now, digest(now)).unwrap();
    let proposed = Block::Macro(block.clone());
    // As a sealed block it fails for want of signers; as a proposal it passes.
    assert_eq!(s.nodes[f].chain.validate(&proposed, &all_good()).err(), Some(Rejection::NoQuorum));
    let unsigned = Verdicts { quorum_signature: false, ..all_good() };
    assert_eq!(s.nodes[f].chain.validate_proposal(&proposed, &unsigned), Ok(()));
    // The other checks hold of a proposal as of a sealed block.
    let mut late = block.clone();
    late.header.timestamp = 0;
    assert_eq!(
        s.nodes[f].chain.validate_proposal(&Block::Macro(late), &all_good()),
        Err(Rejection::TimestampInPast)
    );
    let mut wrong = block.clone();
    wrong.validators.pop();
    assert_eq!(
        s.nodes[f].chain.validate_proposal(&Block::Macro(wrong), &all_good()),
        Err(Rejection::WrongValidators)
    );
    let mut elsewhere = block.clone();
    elsewhere.header.previous = digest(1);
    assert_eq!(
        s.nodes[f].chain.validate_proposal(&Block::Macro(elsewhere), &all_good()),
        Err(Rejection::WrongParent)
    );
}
