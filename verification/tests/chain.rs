use stegos::block::{
    Block, Header, MacroBlock, MicroBlock, Output, PublicPaymentOutput, StakeOutput,
    Transaction, BLOCK_VERSION,
};
use stegos::builder::{build_macro_block, build_micro_block, seal};
use stegos::chain::{ChainState, Rejection, Verdicts};
use stegos::digest::{Digest, PublicKey};
use stegos::escrow::escrow;
use stegos::genesis::{genesis, genesis_parent, residual, KeyChain};
use stegos::mempool::{Mempool, MempoolError};
use stegos::settings::{chain_of, Chain};
use stegos::validators::{quorum_threshold, Validator, ValidatorSet};

fn digest(n: u64) -> Digest {
    Digest { w0: n, w1: 0, w2: 0, w3: 0 }
}

fn key(n: u64) -> PublicKey {
    PublicKey { id: digest(n) }
}

fn all_good() -> Verdicts {
    Verdicts {
        leader_signature: true,
        seed: true,
        range_proofs: true,
        balance: true,
        quorum_signature: true,
    }
}

fn genesis_block() -> MacroBlock {
    let keys: Vec<KeyChain> =
        (1..=3).map(|i| KeyChain { wallet_pkey: key(100 + i), network_pkey: key(i) }).collect();
    genesis(&keys, 50, 1_000, 1_000, digest(42), 10).unwrap()
}

fn payment_of(g: &MacroBlock) -> PublicPaymentOutput {
    match &g.outputs[0] {
        Output::PublicPayment(p) => *p,
        other => panic!("a public payment is due: {:?}", other),
    }
}

fn chain(blocks_in_epoch: u32) -> ChainState {
    ChainState::new(genesis_block(), blocks_in_epoch).unwrap()
}

fn micro(chain: &ChainState, inputs: Vec<Digest>, outputs: Vec<Output>, timestamp: u64) -> MicroBlock {
    let pool = Mempool::new(10);
    let mut b = build_micro_block(chain, &pool, 10, chain.view_change(), timestamp, digest(5), digest(0)).unwrap();
    b.inputs = inputs;
    b.outputs = outputs;
    b
}

fn public(amount: i64) -> Output {
    Output::PublicPayment(PublicPaymentOutput { recipient: key(77), amount })
}

#[test]
fn genesis_holds_one_payment_and_one_stake_each() {
    let g = genesis_block();
    assert_eq!(g.outputs.len(), 4);
    // The payment carries what the stakes leave of the supply to the first account.
    assert_eq!(payment_of(&g), PublicPaymentOutput { recipient: key(101), amount: 850 });
    let total: i64 = g
        .outputs
        .iter()
        .map(|o| match o {
            Output::PublicPayment(p) => p.amount,
            Output::Stake(s) => s.amount,
            Output::Payment(_) => panic!("no amount of a genesis block is hidden"),
        })
        .sum();
    assert_eq!(total, 1_000);
    // The block stands behind the digest of the word `genesis`.
    assert_eq!(g.header.previous, Digest::digest("genesis".as_bytes()));
    assert_eq!(g.header.previous, genesis_parent());
    assert_eq!((g.header.epoch, g.header.view, g.header.timestamp), (0, 0, 1_000));
    assert_eq!(g.header.random, digest(42));
    assert!(g.signers.is_empty());
    for i in 0..3u64 {
        match &g.outputs[i as usize + 1] {
            Output::Stake(s) => {
                assert_eq!(s.amount, 50);
                assert_eq!(s.validator, key(i + 1));
                assert_eq!(s.recipient, key(101 + i));
                assert_eq!(s.active_until_epoch, 10);
            }
            _ => panic!("a stake is due"),
        }
    }
    assert_eq!(g.header.offset, 0);
    assert_eq!(g.header.version, BLOCK_VERSION);
    assert_eq!(g.validators.len(), 3);
    // Equal stakes: the registry is in the order of the keys.
    assert_eq!(g.validators[0].network_pkey, key(1));
    assert_eq!(g.validators[2].network_pkey, key(3));
    assert_eq!(residual(3, 50, 1_000), Some(850));
    assert_eq!(residual(3, i64::MAX, 0), None);
}

#[test]
fn genesis_refuses_bad_key_chains() {
    let one = vec![KeyChain { wallet_pkey: key(1), network_pkey: key(5) }];
    assert!(genesis(&one, 0, 10, 0, digest(0), 1).is_none());
    assert!(genesis(&one, -1, 10, 0, digest(0), 1).is_none());
    assert!(genesis(&one, 1, 10, 0, digest(0), 1).is_some());
    // The supply covers the stakes, or there is no block.
    let all = genesis(&one, 10, 10, 0, digest(0), 1).unwrap();
    assert_eq!(payment_of(&all), PublicPaymentOutput { recipient: key(1), amount: 0 });
    assert!(genesis(&one, 11, 10, 0, digest(0), 1).is_none());
    // The stakes sum within the range.
    let two = vec![
        KeyChain { wallet_pkey: key(1), network_pkey: key(5) },
        KeyChain { wallet_pkey: key(2), network_pkey: key(6) },
    ];
    assert!(genesis(&two, i64::MAX / 2 + 1, i64::MAX, 0, digest(0), 1).is_none());
    let most = genesis(&two, i64::MAX / 2, i64::MAX, 0, digest(0), 1).unwrap();
    assert_eq!(payment_of(&most), PublicPaymentOutput { recipient: key(1), amount: 1 });
}

#[test]
fn genesis_joins_the_stakes_of_one_network_key() {
    let keys = vec![
        KeyChain { wallet_pkey: key(1), network_pkey: key(5) },
        KeyChain { wallet_pkey: key(2), network_pkey: key(5) },
        KeyChain { wallet_pkey: key(3), network_pkey: key(6) },
    ];
    let g = genesis(&keys, 50, 1_000, 0, digest(0), 4).unwrap();
    assert_eq!(g.outputs.len(), 4);
    assert_eq!(g.validators.len(), 2);
    // The larger stake stands first in the registry.
    assert_eq!(g.validators[0], Validator { network_pkey: key(5), stake: 100, active_until_epoch: 4 });
    assert_eq!(g.validators[1], Validator { network_pkey: key(6), stake: 50, active_until_epoch: 4 });
    let chain = ChainState::new(g, 3).unwrap();
    assert_eq!(chain.validators.total_stake, 150);
}

/// Opens a chain that is known by its name. No genesis block comes with
/// the library: the chain is opened on a block built here.
fn load(chain: &str) -> Option<ChainState> {
    chain_of(chain)?;
    ChainState::new(genesis_block(), 5).ok()
}

#[test]
fn is_testnet_loadable() {
    let chain = "testnet";
    assert_eq!(chain_of(chain), Some(Chain::Testnet));
    let state = load(chain).expect("testnet looks like unloadable.");
    assert_eq!(state.height(), 1);
}

#[test]
fn is_devnet_loadable() {
    // Of the names only `dev`, `testnet` and `mainnet` stand for a chain.
    let chain = "devnet";
    assert_eq!(chain_of(chain), None);
    assert!(load(chain).is_none());
}

#[test]
fn is_dev_loadable() {
    let chain = "dev";
    assert_eq!(chain_of(chain), Some(Chain::Dev));
    let state = load(chain).expect("dev looks like unloadable.");
    assert_eq!(state.height(), 1);
}

#[test]
fn unknown_chain_is_refused() {
    assert_eq!(chain_of("test"), None);
    assert_eq!(chain_of("dev\n"), None);
    assert_eq!(chain_of("mainnet"), Some(Chain::Mainnet));
    assert!(load("mainnet").is_some());
}

#[test]
fn chain_starts_at_genesis() {
    let c = chain(5);
    assert_eq!(c.height(), 1);
    assert_eq!(c.epoch(), 0);
    assert_eq!(c.offset(), 0);
    assert_eq!(c.view_change(), 0);
    assert_eq!(c.last_block_hash(), genesis_block().header.hash());
    assert_eq!(c.validators().len(), 3);
    assert_eq!(c.validators().total_stake(), 150);
    assert!(matches!(c.tip(), Block::Macro(_)));
    assert!(!c.next_is_macro());
}

#[test]
fn genesis_checks() {
    let mut g = genesis_block();
    assert_eq!(ChainState::new(g.clone(), 0).err(), Some(Rejection::BadHeader));
    g.header.offset = 1;
    assert_eq!(ChainState::new(g.clone(), 5).err(), Some(Rejection::BadHeader));
    let mut g = genesis_block();
    let dup = g.outputs[1].clone();
    g.outputs.push(dup);
    assert_eq!(ChainState::new(g, 5).err(), Some(Rejection::DuplicateOutput));
    let mut g = genesis_block();
    g.validators.swap(0, 1);
    assert_eq!(ChainState::new(g, 5).err(), Some(Rejection::WrongValidators));
}

#[test]
fn rejections_come_in_order() {
    let mut c = chain(5);
    let utxo = c.table[0].id;
    let good = micro(&c, vec![utxo], vec![public(5)], 2_000);

    let mut b = good.clone();
    b.header.previous = digest(1);
    b.header.timestamp = 0;
    assert_eq!(c.try_append(Block::Micro(b), &all_good()), Err(Rejection::WrongParent));

    let mut b = good.clone();
    b.header.timestamp = 999;
    b.header.version = 9;
    assert_eq!(c.try_append(Block::Micro(b), &all_good()), Err(Rejection::TimestampInPast));

    for change in 0..4 {
        let mut b = good.clone();
        match change {
            0 => b.header.version = 2,
            1 => b.header.offset = 2,
            2 => b.header.epoch = 1,
            _ => b.header.offset = 0,
        }
        assert_eq!(c.try_append(Block::Micro(b), &all_good()), Err(Rejection::BadHeader));
    }

    let mut v = all_good();
    v.leader_signature = false;
    v.seed = false;
    assert_eq!(c.try_append(Block::Micro(good.clone()), &v), Err(Rejection::InvalidLeaderSignature));
    v.leader_signature = true;
    assert_eq!(c.try_append(Block::Micro(good.clone()), &v), Err(Rejection::InvalidSeed));

    let mut b = good.clone();
    b.inputs = vec![digest(12345)];
    assert_eq!(c.try_append(Block::Micro(b), &all_good()), Err(Rejection::UnknownInput));

    let mut b = good.clone();
    b.inputs = vec![utxo, utxo];
    assert_eq!(c.try_append(Block::Micro(b), &all_good()), Err(Rejection::DuplicateInput));

    let mut b = good.clone();
    b.outputs = vec![public(5), public(5)];
    assert_eq!(c.try_append(Block::Micro(b), &all_good()), Err(Rejection::DuplicateOutput));
    let mut b = good.clone();
    b.outputs = vec![genesis_block().outputs[1].clone()];
    assert_eq!(c.try_append(Block::Micro(b), &all_good()), Err(Rejection::DuplicateOutput));

    let mut v = all_good();
    v.range_proofs = false;
    v.balance = false;
    assert_eq!(c.try_append(Block::Micro(good.clone()), &v), Err(Rejection::InvalidRangeProof));
    v.range_proofs = true;
    assert_eq!(c.try_append(Block::Micro(good.clone()), &v), Err(Rejection::Unbalanced));

    // Nothing of all this has changed the chain.
    assert_eq!(c.height(), 1);
    assert_eq!(c.table.len(), 4);
    assert!(c.table.iter().all(|e| !e.spent));
    assert_eq!(c.try_append(Block::Micro(good.clone()), &all_good()), Ok(()));
    assert_eq!(c.height(), 2);
    assert_eq!(c.offset(), 1);
    assert_eq!(c.last_block_hash(), good.header.hash());
    assert!(c.table[0].spent);
    assert_eq!(c.table.len(), 5);
    assert_eq!(c.table[4].id, public(5).hash());
}

#[test]
fn no_double_spend() {
    let mut c = chain(5);
    let utxo = c.table[0].id;
    let b1 = micro(&c, vec![utxo], vec![public(1)], 2_000);
    c.try_append(Block::Micro(b1), &all_good()).unwrap();
    let b2 = micro(&c, vec![utxo], vec![public(2)], 3_000);
    assert_eq!(c.try_append(Block::Micro(b2), &all_good()), Err(Rejection::UnknownInput));
    // A spent output cannot be created anew either.
    let b3 = micro(&c, vec![], vec![genesis_block().outputs[0].clone()], 3_000);
    assert_eq!(c.try_append(Block::Micro(b3), &all_good()), Err(Rejection::DuplicateOutput));
    let fresh = public(1).hash();
    let b4 = micro(&c, vec![fresh], vec![public(3)], 3_000);
    assert_eq!(c.try_append(Block::Micro(b4), &all_good()), Ok(()));
    let mut seen = Vec::new();
    for block in c.blocks.iter() {
        if let Block::Micro(b) = block {
            for i in b.inputs.iter() {
                assert!(!seen.contains(i));
                seen.push(*i);
            }
        }
    }
    assert_eq!(seen.len(), 2);
}

#[test]
fn timestamps_do_not_run_backwards() {
    let mut c = chain(5);
    let b = micro(&c, vec![], vec![], 1_000);
    assert_eq!(c.try_append(Block::Micro(b), &all_good()), Ok(()));
    let b = micro(&c, vec![], vec![], 999);
    assert_eq!(c.try_append(Block::Micro(b), &all_good()), Err(Rejection::TimestampInPast));
    let b = micro(&c, vec![], vec![], 5_000);
    assert_eq!(c.try_append(Block::Micro(b), &all_good()), Ok(()));
    let times: Vec<u64> = c.blocks.iter().map(|b| b.header().timestamp).collect();
    assert_eq!(times, vec![1_000, 1_000, 5_000]);
}

#[test]
fn views_run_on_within_an_epoch() {
    let mut c = chain(5);
    let mut b = micro(&c, vec![], vec![], 2_000);
    b.header.view = 3;
    c.try_append(Block::Micro(b), &all_good()).unwrap();
    assert_eq!(c.view_change(), 3);
    let mut b = micro(&c, vec![], vec![], 2_000);
    b.header.view = 2;
    assert_eq!(c.try_append(Block::Micro(b), &all_good()), Err(Rejection::BadHeader));
}

#[test]
fn macro_block_needs_quorum_and_escrow() {
    let mut c = chain(1);
    assert!(c.next_is_macro());
    let mut m = build_macro_block(&c, 0, 2_000, digest(3)).unwrap();
    assert_eq!(m.signers, vec![false, false, false]);
    assert_eq!(m.header.epoch, 1);
    assert_eq!(m.header.offset, 0);
    assert_eq!(c.try_append(Block::Macro(m.clone()), &all_good()), Err(Rejection::NoQuorum));
    // Two of three equal stakes: 100 of 150, where 101 are asked for.
    seal(&mut m, vec![true, true, false]);
    assert_eq!(c.try_append(Block::Macro(m.clone()), &all_good()), Err(Rejection::NoQuorum));
    seal(&mut m, vec![true, true, true]);
    let mut v = all_good();
    v.quorum_signature = false;
    assert_eq!(c.try_append(Block::Macro(m.clone()), &v), Err(Rejection::InvalidQuorumSignature));
    let mut wrong = m.clone();
    wrong.validators[0].stake += 1;
    assert_eq!(c.try_append(Block::Macro(wrong), &all_good()), Err(Rejection::WrongValidators));
    // A micro block where the macro block is due.
    let h = m.header;
    let not_macro = MicroBlock { header: h, inputs: vec![], outputs: vec![], gamma: digest(0), fee: 0 };
    assert_eq!(c.try_append(Block::Micro(not_macro), &all_good()), Err(Rejection::BadHeader));
    assert_eq!(c.try_append(Block::Macro(m.clone()), &all_good()), Ok(()));
    assert_eq!(c.epoch(), 1);
    assert_eq!(c.seed, digest(3));
}

#[test]
fn escrow_follows_the_stakes() {
    let mut c = chain(2);
    // Validator 2 gets a second stake, a stranger a first one.
    let more = Output::Stake(StakeOutput { recipient: key(102), validator: key(2), amount: 70, active_until_epoch: 20 });
    let new = Output::Stake(StakeOutput { recipient: key(9), validator: key(9), amount: 60, active_until_epoch: 5 });
    let zero = Output::Stake(StakeOutput { recipient: key(8), validator: key(8), amount: 0, active_until_epoch: 5 });
    // The stake of validator 1 is spent.
    let spent = c.table[1].id;
    let b = micro(&c, vec![spent], vec![more, new, zero], 2_000);
    c.try_append(Block::Micro(b), &all_good()).unwrap();
    let e = escrow(&c.table).unwrap();
    assert_eq!(
        e,
        vec![
            Validator { network_pkey: key(2), stake: 120, active_until_epoch: 20 },
            Validator { network_pkey: key(3), stake: 50, active_until_epoch: 10 },
            Validator { network_pkey: key(9), stake: 60, active_until_epoch: 5 },
        ]
    );
    let mut m = build_macro_block(&c, 0, 3_000, digest(4)).unwrap();
    assert_eq!(
        m.validators.iter().map(|v| (v.network_pkey, v.stake)).collect::<Vec<_>>(),
        vec![(key(2), 120), (key(9), 60), (key(3), 50)]
    );
    seal(&mut m, vec![true, true, true]);
    c.try_append(Block::Macro(m), &all_good()).unwrap();
    assert_eq!(c.validators().total_stake(), 230);
    assert_eq!(c.validators().index_of(&key(9)), Some(1));
    assert_eq!(c.validators().stake_of(&key(1)), 0);
    assert_eq!(c.validators().stake_of(&key(2)), 120);
}

#[test]
fn quorum_threshold_formula() {
    assert_eq!(quorum_threshold(3), 3);
    assert_eq!(quorum_threshold(4), 4);
    assert_eq!(quorum_threshold(6), 5);
    assert_eq!(quorum_threshold(100), 68);
    assert_eq!(quorum_threshold(150), 101);
    assert_eq!(quorum_threshold(0), 1);
    assert_eq!(quorum_threshold(i64::MAX), 6148914691236517206);
}

#[test]
fn registry_order_and_leader() {
    let stakers = vec![
        Validator { network_pkey: key(5), stake: 10, active_until_epoch: 1 },
        Validator { network_pkey: key(3), stake: 30, active_until_epoch: 1 },
        Validator { network_pkey: key(4), stake: 10, active_until_epoch: 1 },
        Validator { network_pkey: key(1), stake: 50, active_until_epoch: 1 },
    ];
    let set = ValidatorSet::new(stakers.clone()).unwrap();
    let order: Vec<PublicKey> = set.validators.iter().map(|v| v.network_pkey).collect();
    assert_eq!(order, vec![key(1), key(3), key(4), key(5)]);
    assert_eq!(set.total_stake(), 100);
    // The shares lie on the line in the order of the registry.
    assert_eq!(set.pick(0), 0);
    assert_eq!(set.pick(49), 0);
    assert_eq!(set.pick(50), 1);
    assert_eq!(set.pick(79), 1);
    assert_eq!(set.pick(80), 2);
    assert_eq!(set.pick(89), 2);
    assert_eq!(set.pick(90), 3);
    assert_eq!(set.pick(99), 3);
    assert_eq!(set.signed_stake(&vec![true, false, true, false]), 60);
    assert_eq!(set.signed_stake(&vec![true]), 50);
    assert!(!set.has_quorum(&vec![true, false, true, false]));
    assert!(set.has_quorum(&vec![true, true, false, false]));
    // Another order of the stakers gives the same registry and leaders.
    let mut other = stakers.clone();
    other.reverse();
    let set2 = ValidatorSet::new(other).unwrap();
    assert_eq!(set.validators, set2.validators);
    let mut leaders = Vec::new();
    for view in 0..50 {
        let l = set.leader(&digest(9), view);
        assert_eq!(l, set2.leader(&digest(9), view));
        assert_eq!(set.validators[set.leader_index(&digest(9), view)].network_pkey, l);
        if !leaders.contains(&l) {
            leaders.push(l);
        }
    }
    // The views of an epoch do not all have one leader.
    assert!(leaders.len() > 1);
    // The seed matters.
    assert!((0..50).any(|v| set.leader(&digest(9), v) != set.leader(&digest(10), v)));
}

#[test]
fn registry_refuses_bad_stakers() {
    let v = |k: u64, stake: i64| Validator { network_pkey: key(k), stake, active_until_epoch: 0 };
    assert!(ValidatorSet::new(vec![]).is_none());
    assert!(ValidatorSet::new(vec![v(1, 0)]).is_none());
    assert!(ValidatorSet::new(vec![v(1, -5)]).is_none());
    assert!(ValidatorSet::new(vec![v(1, 5), v(2, 6), v(1, 7)]).is_none());
    assert!(ValidatorSet::new(vec![v(1, i64::MAX), v(2, 1)]).is_none());
    assert!(ValidatorSet::new(vec![v(1, i64::MAX - 1), v(2, 1)]).is_some());
}

fn tx(inputs: Vec<Digest>, n_out: i64, fee: i64) -> Transaction {
    // The outputs of each transaction are its own: their amounts tell of the fee.
    Transaction { inputs, outputs: (0..n_out).map(|i| public(1000 * (fee + 2) + i)).collect(), fee }
}

#[test]
fn mempool_insert_checks() {
    let c = chain(5);
    let ids: Vec<Digest> = c.table.iter().map(|e| e.id).collect();
    let mut pool = Mempool::new(6);
    assert_eq!(pool.insert(tx(vec![], 1, 5), &c.table, 10), Err(MempoolError::Invalid));
    assert_eq!(pool.insert(tx(vec![ids[0]], 1, -1), &c.table, 10), Err(MempoolError::Invalid));
    assert_eq!(pool.insert(tx(vec![ids[0]], 3, 5), &c.table, 3), Err(MempoolError::TooLarge));
    assert_eq!(pool.insert(tx(vec![digest(999)], 1, 5), &c.table, 10), Err(MempoolError::UnknownInput));
    assert_eq!(pool.insert(tx(vec![ids[0], ids[0]], 1, 5), &c.table, 10), Err(MempoolError::Conflict));
    let first = tx(vec![ids[0]], 1, 5);
    let h = first.hash();
    assert_eq!(pool.insert(first, &c.table, 10), Ok(h));
    // Of two transactions that spend one output the first seen stays.
    assert_eq!(pool.insert(tx(vec![ids[0], ids[1]], 1, 50), &c.table, 10), Err(MempoolError::Conflict));
    assert_eq!(pool.len(), 1);
    assert!(pool.contains(&h));
    assert!(pool.references(&ids[0]));
    assert!(!pool.references(&ids[1]));
    assert_eq!(pool.insert(tx(vec![ids[1], ids[2]], 3, 5), &c.table, 10), Err(MempoolError::Full));
    assert_eq!(pool.insert(tx(vec![ids[1], ids[2]], 2, 5), &c.table, 10).is_ok(), true);
    assert_eq!(pool.totals(), (6, 10));
    assert_eq!(pool.insert(tx(vec![ids[3]], 0, 5), &c.table, 10), Err(MempoolError::Full));
}

#[test]
fn mempool_order_and_take() {
    let mut c = chain(50);
    // Make six unspent outputs to spend.
    let b = micro(&c, vec![], (0..6).map(|i| public(i + 1)).collect(), 2_000);
    c.try_append(Block::Micro(b), &all_good()).unwrap();
    let ids: Vec<Digest> = (0..6).map(|i| public(i + 1).hash()).collect();
    // fee per input and output: 10/2 = 5, 9/3 = 3, 20/2 = 10, 11/2 = 5
    let txs = vec![
        tx(vec![ids[0]], 1, 10),
        tx(vec![ids[1]], 2, 9),
        tx(vec![ids[2]], 1, 20),
        tx(vec![ids[3]], 1, 11),
    ];
    let hashes: Vec<Digest> = txs.iter().map(|t| t.hash()).collect();
    let mut expected = vec![hashes[2]];
    let (a, b) = (hashes[0], hashes[3]);
    if a.lt(&b) {
        expected.extend([a, b]);
    } else {
        expected.extend([b, a]);
    }
    expected.push(hashes[1]);

    let mut pool = Mempool::new(100);
    for t in txs.clone() {
        pool.insert(t, &c.table, 10).unwrap();
    }
    let fees: Vec<i64> = pool.entries.iter().map(|e| e.fee_per_io).collect();
    assert_eq!(fees, vec![10, 5, 5, 3]);
    assert_eq!(pool.take_for_block(100), expected);
    // The same transactions in another order of arrival: the same answer.
    let mut pool2 = Mempool::new(100);
    for t in txs.into_iter().rev() {
        pool2.insert(t, &c.table, 10).unwrap();
    }
    assert_eq!(pool2.take_for_block(100), expected);
    assert_eq!(pool.take_for_block(100), pool.take_for_block(100));
    // The limit counts inputs and outputs.
    assert_eq!(pool.take_for_block(0), vec![]);
    assert_eq!(pool.take_for_block(1), vec![]);
    assert_eq!(pool.take_for_block(2), expected[..1].to_vec());
    assert_eq!(pool.take_for_block(5), expected[..2].to_vec());
    assert_eq!(pool.take_for_block(6), expected[..3].to_vec());
    assert_eq!(pool.take_for_block(8), expected[..3].to_vec());
    assert_eq!(pool.take_for_block(9), expected);
    assert_eq!(pool.take_count(6), 3);
    assert_eq!(pool.get(&hashes[1]).unwrap().fee, 9);
    assert!(pool.get(&digest(1)).is_none());

    // A block takes the first three; the pool of every node drops them.
    let block = build_micro_block(&c, &pool, 6, 0, 3_000, digest(1), digest(2)).unwrap();
    assert_eq!(block.fee, 41);
    assert_eq!(block.inputs.len(), 3);
    assert_eq!(block.outputs.len(), 3);
    assert_eq!(block.gamma, digest(2));
    let block = Block::Micro(block);
    assert_eq!(c.try_append(block.clone(), &all_good()), Ok(()));
    pool.prune(&block);
    assert_eq!(pool.take_for_block(100), vec![hashes[1]]);
    // A macro block voids nothing.
    let m = Block::Macro(genesis_block());
    pool.prune(&m);
    assert_eq!(pool.len(), 1);
}

#[test]
fn header_hash_is_over_the_header() {
    let h = Header {
        version: 1,
        previous: digest(1),
        epoch: 2,
        offset: 3,
        view: 4,
        timestamp: 5,
        random: digest(6),
    };
    let bytes = h.encode();
    assert_eq!(bytes.len(), 104);
    assert_eq!(&bytes[0..8], &[0, 0, 0, 0, 0, 0, 0, 1]);
    assert_eq!(&bytes[8..16], &[0, 0, 0, 0, 0, 0, 0, 1]);
    assert_eq!(&bytes[40..48], &[0, 0, 0, 0, 0, 0, 0, 2]);
    assert_eq!(&bytes[48..56], &[0, 0, 0, 0, 0, 0, 0, 3]);
    assert_eq!(&bytes[56..64], &[0, 0, 0, 0, 0, 0, 0, 4]);
    assert_eq!(&bytes[64..72], &[0, 0, 0, 0, 0, 0, 0, 5]);
    assert_eq!(h.hash(), Digest::digest(&bytes));
    let mut other = h;
    other.view = 5;
    assert_ne!(h.hash(), other.hash());
    assert_eq!(public(5).hash(), public(5).duplicate().hash());
    assert_ne!(public(5).hash(), public(6).hash());
}

#[test]
fn digest_is_sha3_256() {
    // SHA3-256 of the empty string.
    let d = Digest::digest(&[]);
    assert_eq!(d.w0, 0xa7ffc6f8bf1ed766);
    assert_eq!(d.w1, 0x51c14756a061d662);
    assert_eq!(d.w2, 0xf580ff4de43b49fa);
    assert_eq!(d.w3, 0x82d80a4b80f8434a);
    assert_eq!(Digest::from_bytes(&d.to_bytes()), Some(d));
    assert_eq!(Digest::from_bytes(&[0u8; 31]), None);
    assert_eq!(d.to_bytes()[0], 0xa7);
    assert_eq!(Digest::zero().to_bytes(), vec![0u8; 32]);
    assert!(digest(1).lt(&digest(2)));
    assert!(!digest(2).lt(&digest(2)));
    assert!(Digest { w0: 0, w1: 9, w2: 0, w3: 0 }.lt(&digest(1)));
    assert!(key(1).lt(&key(2)));
    assert_eq!(PublicKey::new(digest(4)), key(4));
}

#[test]
fn output_new_is_a_payment() {
    let o = Output::new(key(3), vec![1], vec![2, 3]);
    match &o {
        Output::Payment(p) => {
            assert_eq!((p.recipient, &p.proof, &p.payload), (key(3), &vec![1], &vec![2, 3]));
        }
        _ => panic!("a payment is due"),
    }
    // The identity is the digest of the content.
    assert_eq!(o.hash(), Digest::digest(&o.encode()));
    assert_eq!(o.hash(), Output::new(key(3), vec![1], vec![2, 3]).hash());
    assert_ne!(o.hash(), Output::new(key(3), vec![1], vec![2]).hash());
    assert_ne!(o.hash(), Output::new(key(3), vec![1, 2], vec![3]).hash());
}
