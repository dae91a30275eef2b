//! The block builder: what the leader of a view proposes.

use vstd::prelude::*;
use crate::block::{Header, MacroBlock, MicroBlock, Output, BLOCK_VERSION, spec_output_ids};
use crate::chain::{ChainState, names_escrow, spec_header_ok, spec_names_escrow, spec_view_after};
use crate::digest::Digest;
use crate::escrow::escrow;
use crate::escrow::{UtxoEntry, ids_distinct, spec_all_unspent, spec_apply, spec_unspent};
use crate::mempool::{
    Mempool, PoolEntry, lemma_pool_prefix, spec_at, spec_disjoint, spec_entry_ok, spec_place,
    spec_prune, spec_spends_any, spec_take_count, spec_total_fee,
};
use crate::validators::{Validator, ValidatorSet};

verus! {

/// The header of a block that follows the tip.
pub open spec fn spec_next_header(
    tip: Header,
    last_hash: Digest,
    blocks_in_epoch: u32,
    view: u32,
    timestamp: u64,
    random: Digest,
) -> Header {
    Header {
        version: BLOCK_VERSION,
        previous: last_hash,
        epoch: if tip.offset + 1 < blocks_in_epoch {
            tip.epoch
        } else {
            (tip.epoch + 1) as u64
        },
        offset: if tip.offset + 1 < blocks_in_epoch {
            (tip.offset + 1) as u32
        } else {
            0
        },
        view,
        timestamp,
        random,
    }
}

/// The inputs of the transactions, one transaction after another.
pub open spec fn spec_flat_inputs(entries: Seq<PoolEntry>) -> Seq<Digest>
    decreases entries.len(),
{
    if entries.len() == 0 {
        Seq::empty()
    } else {
        spec_flat_inputs(entries.drop_last()) + entries.last().tx.inputs@
    }
}

/// The identities of the outputs of the transactions, one transaction
/// after another.
pub open spec fn spec_flat_output_ids(entries: Seq<PoolEntry>) -> Seq<Digest>
    decreases entries.len(),
{
    if entries.len() == 0 {
        Seq::empty()
    } else {
        spec_flat_output_ids(entries.drop_last()) + spec_output_ids(entries.last().tx.outputs@)
    }
}

/// The header of a block that follows the tip of the chain; nothing at
/// the end of the epochs that can be counted.
pub fn next_header(chain: &ChainState, view: u32, timestamp: u64, random: Digest) -> (r: Option<
    Header,
>)
    ensures
        r is None <==> !(chain.tip.offset + 1 < chain.blocks_in_epoch) && chain.tip.epoch == u64::MAX,
        r matches Some(h) ==> h == spec_next_header(
            chain.tip,
            chain.last_hash,
            chain.blocks_in_epoch,
            view,
            timestamp,
            random,
        ),
{
    let tip = &chain.tip;
    let same_epoch = tip.offset < chain.blocks_in_epoch && tip.offset + 1 < chain.blocks_in_epoch;
    if !same_epoch && tip.epoch == u64::MAX {
        return None;
    }
    Some(
        Header {
            version: BLOCK_VERSION,
            previous: chain.last_hash,
            epoch: if same_epoch {
                tip.epoch
            } else {
                tip.epoch + 1
            },
            offset: if same_epoch {
                tip.offset + 1
            } else {
                0
            },
            view,
            timestamp,
            random,
        },
    )
}

/// A header built for the tip is that of a successor of the tip, where its
/// view is not behind.
pub proof fn lemma_next_header_ok(
    tip: Header,
    last_hash: Digest,
    blocks_in_epoch: u32,
    view: u32,
    timestamp: u64,
    random: Digest,
)
    requires
        view >= spec_view_after(tip),
        tip.offset + 1 < blocks_in_epoch || tip.epoch < u64::MAX,
    ensures
        spec_header_ok(
            tip,
            spec_next_header(tip, last_hash, blocks_in_epoch, view, timestamp, random),
            !(tip.offset + 1 < blocks_in_epoch),
            blocks_in_epoch,
        ),
{
}

/// Builds the micro block that the leader proposes: the transactions that
/// the pool hands out for `limit` inputs and outputs, in the pool's order,
/// with the sum of their fees. Nothing, where the next block is a macro
/// block.
pub fn build_micro_block(
    chain: &ChainState,
    pool: &Mempool,
    limit: usize,
    view: u32,
    timestamp: u64,
    random: Digest,
    gamma: Digest,
) -> (r: Option<MicroBlock>)
    requires
        pool.wf(),
    ensures
        r is Some <==> chain.tip.offset + 1 < chain.blocks_in_epoch,
        r matches Some(b) ==> {
            let taken = pool@.take(spec_take_count(pool@, limit as int));
            &&& b.header == spec_next_header(
                chain.tip,
                chain.last_hash,
                chain.blocks_in_epoch,
                view,
                timestamp,
                random,
            )
            &&& b.inputs@ == spec_flat_inputs(taken)
            &&& spec_output_ids(b.outputs@) == spec_flat_output_ids(taken)
            &&& b.fee == spec_total_fee(taken)
            &&& b.gamma == gamma
        },
{
    if chain.next_is_macro() {
        return None;
    }
    let header = match next_header(chain, view, timestamp, random) {
        None => {
            return None;
        },
        Some(h) => h,
    };
    let n = pool.take_count(limit);
    let mut inputs: Vec<Digest> = Vec::new();
    let mut outputs: Vec<Output> = Vec::new();
    let mut fee: i64 = 0;
    let mut i: usize = 0;
    proof {
        assert(pool@.take(0) =~= Seq::<PoolEntry>::empty());
        assert(spec_output_ids(outputs@) =~= Seq::<Digest>::empty());
    }
    while i < n
        invariant
            0 <= i <= n <= pool@.len(),
            pool.wf(),
            inputs@ == spec_flat_inputs(pool@.take(i as int)),
            spec_output_ids(outputs@) == spec_flat_output_ids(pool@.take(i as int)),
            fee == spec_total_fee(pool@.take(i as int)),
        decreases n - i,
    {
        let entry = &pool.entries[i];
        proof {
            assert(pool@.take(i + 1).drop_last() =~= pool@.take(i as int));
            assert(pool@.take(i + 1).last() == pool@[i as int]);
            lemma_pool_prefix(pool@, pool.max_utxo, i + 1);
            lemma_pool_prefix(pool@, pool.max_utxo, i as int);
        }
        let ghost ins_before = inputs@;
        let mut a: usize = 0;
        while a < entry.tx.inputs.len()
            invariant
                0 <= a <= entry.tx.inputs@.len(),
                inputs@ == ins_before + entry.tx.inputs@.take(a as int),
            decreases entry.tx.inputs@.len() - a,
        {
            inputs.push(entry.tx.inputs[a]);
            assert(entry.tx.inputs@.take(a + 1) =~= entry.tx.inputs@.take(a as int).push(
                entry.tx.inputs@[a as int],
            ));
            a = a + 1;
        }
        assert(entry.tx.inputs@.take(a as int) =~= entry.tx.inputs@);
        let ghost ids_before = spec_output_ids(outputs@);
        let mut b: usize = 0;
        while b < entry.tx.outputs.len()
            invariant
                0 <= b <= entry.tx.outputs@.len(),
                spec_output_ids(outputs@) == ids_before + spec_output_ids(entry.tx.outputs@).take(
                    b as int,
                ),
            decreases entry.tx.outputs@.len() - b,
        {
            let ghost outs_before = outputs@;
            outputs.push(entry.tx.outputs[b].duplicate());
            assert(spec_output_ids(outputs@) =~= spec_output_ids(outs_before).push(
                entry.tx.outputs@[b as int].spec_hash(),
            ));
            assert(spec_output_ids(entry.tx.outputs@).take(b + 1) =~= spec_output_ids(
                entry.tx.outputs@,
            ).take(b as int).push(entry.tx.outputs@[b as int].spec_hash()));
            b = b + 1;
        }
        assert(spec_output_ids(entry.tx.outputs@).take(b as int) =~= spec_output_ids(
            entry.tx.outputs@,
        ));
        fee = fee + entry.tx.fee;
        i = i + 1;
    }
    Some(MicroBlock { header, inputs, outputs, gamma, fee })
}

/// Builds the macro block that the leader proposes at the end of an epoch:
/// it names the escrow as the validators of the next epoch, and nobody has
/// signed it yet. Nothing, where the next block is a micro block or the
/// escrow makes no registry.
pub fn build_macro_block(chain: &ChainState, view: u32, timestamp: u64, random: Digest) -> (r:
    Option<MacroBlock>)
    requires
        chain.wf(),
    ensures
        r matches Some(b) ==> {
            &&& !(chain.tip.offset + 1 < chain.blocks_in_epoch)
            &&& b.header == spec_next_header(
                chain.tip,
                chain.last_hash,
                chain.blocks_in_epoch,
                view,
                timestamp,
                random,
            )
            &&& b.outputs@.len() == 0
            &&& b.signers@ == Seq::new(chain.validators@.len(), |i: int| false)
            &&& crate::validators::is_registry_of(b.validators@, spec_escrow_of(chain))
        },
        r is Some <==> !(chain.tip.offset + 1 < chain.blocks_in_epoch) && chain.tip.epoch < u64::MAX
            && crate::escrow::spec_escrow(chain.table@) is Some && crate::validators::stakers_valid(
            spec_escrow_of(chain),
        ),
{
    if !chain.next_is_macro() {
        return None;
    }
    let header = match next_header(chain, view, timestamp, random) {
        None => {
            return None;
        },
        Some(h) => h,
    };
    let stakers = match escrow(&chain.table) {
        None => {
            return None;
        },
        Some(list) => list,
    };
    let set = match ValidatorSet::new(stakers) {
        None => {
            return None;
        },
        Some(set) => set,
    };
    let mut signers: Vec<bool> = Vec::new();
    let mut i: usize = 0;
    while i < chain.validators.len()
        invariant
            0 <= i <= chain.validators@.len(),
            signers@.len() == i,
            forall|k: int| 0 <= k < i ==> !signers@[k],
        decreases chain.validators@.len() - i,
    {
        signers.push(false);
        i = i + 1;
    }
    assert(signers@ =~= Seq::new(chain.validators@.len(), |i: int| false));
    Some(MacroBlock { header, signers, validators: set.validators, outputs: Vec::new() })
}

/// The stakers in escrow on the chain.
pub open spec fn spec_escrow_of(chain: &ChainState) -> Seq<Validator> {
    match crate::escrow::spec_escrow(chain.table@) {
        Some(e) => e,
        None => Seq::empty(),
    }
}

/// What the leader builds at the end of an epoch passes, as a proposal,
/// at every node that holds the same chain: a macro block with the header
/// of the tip's successor, a time not before the tip's and a view not
/// behind, without outputs, that names the escrow as the next validators.
pub proof fn lemma_macro_proposal_passes(
    chain: ChainState,
    b: MacroBlock,
    view: u32,
    timestamp: u64,
    random: Digest,
    verdicts: crate::chain::Verdicts,
)
    requires
        chain.wf(),
        !(chain.tip.offset + 1 < chain.blocks_in_epoch),
        chain.tip.epoch < u64::MAX,
        view >= spec_view_after(chain.tip),
        timestamp >= chain.tip.timestamp,
        b.header == spec_next_header(
            chain.tip,
            chain.last_hash,
            chain.blocks_in_epoch,
            view,
            timestamp,
            random,
        ),
        b.outputs@.len() == 0,
        crate::validators::is_registry_of(b.validators@, spec_escrow_of(&chain)),
        crate::escrow::spec_escrow(chain.table@) is Some,
    ensures
        chain.model().check_proposal(crate::block::Block::Macro(b), verdicts) is Ok,
{
    let block = crate::block::Block::Macro(b);
    lemma_next_header_ok(
        chain.tip,
        chain.last_hash,
        chain.blocks_in_epoch,
        view,
        timestamp,
        random,
    );
    assert(spec_output_ids(block.spec_outputs()) =~= Seq::<Digest>::empty());
    assert(spec_apply(chain.table@, block.spec_inputs(), block.spec_outputs()) =~= chain.table@);
}

/// Seals a macro block with the signers of its precommits.
pub fn seal(block: &mut MacroBlock, signers: Vec<bool>)
    ensures
        final(block).signers@ == signers@,
        final(block).header == old(block).header,
        final(block).validators@ == old(block).validators@,
        final(block).outputs@ == old(block).outputs@,
{
    block.signers = signers;
}

/// Whether every transaction of the pool spends unspent outputs of the
/// table only.
pub open spec fn spec_pool_unspent(entries: Seq<PoolEntry>, table: Seq<UtxoEntry>) -> bool {
    forall|i: int, a: int|
        spec_place(entries, i, a) ==> spec_unspent(table, #[trigger] spec_at(entries, i, a))
}

/// What the inputs of some transactions hold, one transaction after
/// another, are the inputs of the transactions.
pub proof fn lemma_flat_inputs(entries: Seq<PoolEntry>, x: Digest)
    ensures
        spec_flat_inputs(entries).contains(x) <==> exists|i: int, a: int|
            spec_place(entries, i, a) && #[trigger] spec_at(entries, i, a) == x,
    decreases entries.len(),
{
    if entries.len() == 0 {
        assert(!spec_flat_inputs(entries).contains(x));
    } else {
        let d = entries.drop_last();
        let last = entries.last();
        let n = entries.len() - 1;
        lemma_flat_inputs(d, x);
        let flat = spec_flat_inputs(entries);
        let before = spec_flat_inputs(d);
        if flat.contains(x) {
            let k = choose|k: int| 0 <= k < flat.len() && flat[k] == x;
            if k < before.len() {
                assert(before[k] == x);
                let (i, a) = choose|i: int, a: int|
                    spec_place(d, i, a) && #[trigger] spec_at(d, i, a) == x;
                assert(d[i] == entries[i]);
                assert(spec_place(entries, i, a) && spec_at(entries, i, a) == x);
            } else {
                let a = k - before.len();
                assert(spec_place(entries, n, a) && spec_at(entries, n, a) == x);
            }
        }
        if exists|i: int, a: int| spec_place(entries, i, a) && #[trigger] spec_at(entries, i, a) == x {
            let (i, a) = choose|i: int, a: int|
                spec_place(entries, i, a) && #[trigger] spec_at(entries, i, a) == x;
            if i < n {
                assert(d[i] == entries[i]);
                assert(spec_place(d, i, a) && spec_at(d, i, a) == x);
                assert(before.contains(x));
                let k = choose|k: int| 0 <= k < before.len() && before[k] == x;
                assert(flat[k] == x);
            } else {
                assert(flat[before.len() + a] == x);
            }
        }
    }
}

/// The inputs of a block that is built from a pool: where every
/// transaction of the pool spends unspent outputs only, so does the block.
pub proof fn lemma_block_unspent(entries: Seq<PoolEntry>, table: Seq<UtxoEntry>)
    requires
        spec_pool_unspent(entries, table),
    ensures
        spec_all_unspent(table, spec_flat_inputs(entries)),
{
    let flat = spec_flat_inputs(entries);
    assert forall|k: int| 0 <= k < flat.len() implies spec_unspent(table, #[trigger] flat[k]) by {
        lemma_flat_inputs(entries, flat[k]);
        assert(flat.contains(flat[k]));
        let (i, a) = choose|i: int, a: int|
            spec_place(entries, i, a) && #[trigger] spec_at(entries, i, a) == flat[k];
    }
}

/// Whether no transaction spends an output twice.
pub open spec fn spec_single(entries: Seq<PoolEntry>) -> bool {
    forall|i: int| 0 <= i < entries.len() ==> (#[trigger] entries[i]).tx.inputs@.no_duplicates()
}

/// The inputs of a block that is built from a pool: where no transaction
/// of the pool spends an output twice, and no two of them spend one
/// output, the block spends no output twice.
pub proof fn lemma_block_inputs(entries: Seq<PoolEntry>)
    requires
        spec_disjoint(entries),
        spec_single(entries),
    ensures
        spec_flat_inputs(entries).no_duplicates(),
    decreases entries.len(),
{
    if entries.len() > 0 {
        let d = entries.drop_last();
        let last = entries.last();
        let n = entries.len() - 1;
        assert(spec_disjoint(d)) by {
            assert forall|i: int, a: int, j: int, b: int|
                spec_place(d, i, a) && spec_place(d, j, b) && i != j implies #[trigger] spec_at(
                d,
                i,
                a,
            ) != #[trigger] spec_at(d, j, b) by {
                assert(d[i] == entries[i] && d[j] == entries[j]);
                assert(spec_place(entries, i, a) && spec_place(entries, j, b));
                assert(spec_at(d, i, a) == spec_at(entries, i, a));
                assert(spec_at(d, j, b) == spec_at(entries, j, b));
            }
        }
        assert(spec_single(d)) by {
            assert forall|i: int| 0 <= i < d.len() implies (#[trigger] d[i]).tx.inputs@.no_duplicates() by {
                assert(d[i] == entries[i]);
            }
        }
        lemma_block_inputs(d);
        let before = spec_flat_inputs(d);
        assert(entries[n].tx.inputs@.no_duplicates());
        assert forall|p: int, q: int| 0 <= p < before.len() && 0 <= q < last.tx.inputs@.len() implies before[p]
            != last.tx.inputs@[q] by {
            lemma_flat_inputs(d, before[p]);
            assert(before.contains(before[p]));
            let (i, a) = choose|i: int, a: int|
                spec_place(d, i, a) && #[trigger] spec_at(d, i, a) == before[p];
            assert(d[i] == entries[i]);
            assert(spec_place(entries, i, a) && spec_place(entries, n, q));
            assert(spec_at(entries, i, a) != spec_at(entries, n, q));
        }
        vstd::seq_lib::lemma_no_dup_in_concat(before, last.tx.inputs@);
    }
}

/// A pool hands to a block transactions that spend each output once:
/// with inputs that are unspent, the chain does not refuse the block for
/// its inputs.
pub proof fn lemma_pool_block_inputs(pool: Mempool, table: Seq<UtxoEntry>, n: int)
    requires
        pool.wf(),
        0 <= n <= pool@.len(),
        spec_pool_unspent(pool@, table),
    ensures
        spec_all_unspent(table, spec_flat_inputs(pool@.take(n))),
        spec_flat_inputs(pool@.take(n)).no_duplicates(),
{
    reveal(crate::mempool::spec_pool_ok);
    let taken = pool@.take(n);
    assert(spec_pool_unspent(taken, table)) by {
        assert forall|i: int, a: int| spec_place(taken, i, a) implies spec_unspent(
            table,
            #[trigger] spec_at(taken, i, a),
        ) by {
            assert(taken[i] == pool@[i]);
            assert(spec_place(pool@, i, a));
            assert(spec_at(taken, i, a) == spec_at(pool@, i, a));
        }
    }
    assert(spec_disjoint(taken)) by {
        assert forall|i: int, a: int, j: int, b: int|
            spec_place(taken, i, a) && spec_place(taken, j, b) && i != j implies #[trigger] spec_at(
            taken,
            i,
            a,
        ) != #[trigger] spec_at(taken, j, b) by {
            assert(taken[i] == pool@[i] && taken[j] == pool@[j]);
            assert(spec_place(pool@, i, a) && spec_place(pool@, j, b));
            assert(spec_at(taken, i, a) == spec_at(pool@, i, a));
            assert(spec_at(taken, j, b) == spec_at(pool@, j, b));
        }
    }
    assert(spec_single(taken)) by {
        assert forall|i: int| 0 <= i < taken.len() implies (#[trigger] taken[i]).tx.inputs@.no_duplicates() by {
            assert(taken[i] == pool@[i]);
            assert(spec_entry_ok(pool@[i]));
        }
    }
    lemma_block_unspent(taken, table);
    lemma_block_inputs(taken);
}

/// What stays in the pool when a block is committed: transactions of the
/// pool that spend nothing that the block spends.
pub proof fn lemma_prune_members(entries: Seq<PoolEntry>, inputs: Seq<Digest>, k: int)
    requires
        0 <= k < spec_prune(entries, inputs).len(),
    ensures
        exists|i: int|
            0 <= i < entries.len() && #[trigger] entries[i] == spec_prune(entries, inputs)[k]
                && !spec_spends_any(entries[i], inputs),
    decreases entries.len(),
{
    if entries.len() > 0 {
        let rest = entries.drop_first();
        if spec_spends_any(entries[0], inputs) {
            lemma_prune_members(rest, inputs, k);
            let i = choose|i: int|
                0 <= i < rest.len() && #[trigger] rest[i] == spec_prune(rest, inputs)[k]
                    && !spec_spends_any(rest[i], inputs);
            assert(entries[i + 1] == rest[i]);
        } else if k == 0 {
            assert(entries[0] == spec_prune(entries, inputs)[0]);
        } else {
            lemma_prune_members(rest, inputs, k - 1);
            let i = choose|i: int|
                0 <= i < rest.len() && #[trigger] rest[i] == spec_prune(rest, inputs)[k - 1]
                    && !spec_spends_any(rest[i], inputs);
            assert(entries[i + 1] == rest[i]);
            assert(spec_prune(entries, inputs)[k] == spec_prune(rest, inputs)[k - 1]);
        }
    }
}

/// Pruning keeps the pool in step with the chain: where every transaction
/// of the pool spent unspent outputs only, those that stay when a block
/// is committed do so in the table after the block.
pub proof fn lemma_prune_keeps_unspent(
    entries: Seq<PoolEntry>,
    table: Seq<UtxoEntry>,
    inputs: Seq<Digest>,
    outputs: Seq<Output>,
)
    requires
        spec_pool_unspent(entries, table),
    ensures
        spec_pool_unspent(spec_prune(entries, inputs), spec_apply(table, inputs, outputs)),
{
    let pruned = spec_prune(entries, inputs);
    let after = spec_apply(table, inputs, outputs);
    assert forall|k: int, a: int| spec_place(pruned, k, a) implies spec_unspent(
        after,
        #[trigger] spec_at(pruned, k, a),
    ) by {
        lemma_prune_members(entries, inputs, k);
        let i = choose|i: int|
            0 <= i < entries.len() && #[trigger] entries[i] == pruned[k] && !spec_spends_any(
                entries[i],
                inputs,
            );
        let id = spec_at(pruned, k, a);
        assert(spec_place(entries, i, a) && spec_at(entries, i, a) == id);
        assert(spec_unspent(table, id));
        let e = choose|e: int| 0 <= e < table.len() && (#[trigger] table[e]).id == id && !table[e].spent;
        assert(!inputs.contains(entries[i].tx.inputs@[a]));
        assert(after[e].id == id && !after[e].spent);
    }
}

/// Taking a transaction in keeps the pool in step with the chain: a
/// transaction that spends unspent outputs only joins a pool of such
/// transactions.
pub proof fn lemma_insert_keeps_unspent(
    entries: Seq<PoolEntry>,
    p: int,
    e: PoolEntry,
    table: Seq<UtxoEntry>,
)
    requires
        0 <= p <= entries.len(),
        spec_pool_unspent(entries, table),
        spec_all_unspent(table, e.tx.inputs@),
    ensures
        spec_pool_unspent(entries.insert(p, e), table),
{
    let l = entries.insert(p, e);
    assert forall|i: int, a: int| spec_place(l, i, a) implies spec_unspent(
        table,
        #[trigger] spec_at(l, i, a),
    ) by {
        if i < p {
            assert(l[i] == entries[i]);
            assert(spec_place(entries, i, a));
            assert(spec_at(l, i, a) == spec_at(entries, i, a));
        } else if i == p {
            assert(l[i] == e);
        } else {
            assert(l[i] == entries[i - 1]);
            assert(spec_place(entries, i - 1, a));
            assert(spec_at(l, i, a) == spec_at(entries, i - 1, a));
        }
    }
}

} // verus!
