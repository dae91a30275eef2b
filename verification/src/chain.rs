//! The chain state: the committed blocks and what is derived from them.
//! `try_append` is the one way in which it changes.

use vstd::prelude::*;
use crate::block::{Block, Header, MacroBlock, Output, BLOCK_VERSION, output_ids, spec_output_ids};
use crate::digest::{Digest, PublicKey};
use crate::escrow::{
    UtxoEntry, all_unspent, apply, escrow, fresh, has_duplicates, ids_distinct, spec_all_unspent,
    spec_apply, spec_escrow, spec_fresh, spec_known, spec_unspent,
};
use crate::validators::{
    Validator, ValidatorSet, is_registry_of, lemma_registry_unique, spec_quorum_threshold,
    spec_signed_stake, spec_total_stake,
};

verus! {

/// What the cryptographic checks of a block returned. The chain takes them
/// as given: signatures, range proofs and commitments are checked where the
/// keys and curves are.
#[derive(Clone, Copy, Debug, PartialEq, Eq, Structural)]
pub struct Verdicts {
    /// The signature on the header hash is that of the leader of the
    /// block's view.
    pub leader_signature: bool,
    /// The random seed of the header follows from the seed before it.
    pub seed: bool,
    /// Every range proof of the block's outputs holds.
    pub range_proofs: bool,
    /// The commitments of the inputs sum to those of the outputs plus
    /// `gamma * G + fee * H`.
    pub balance: bool,
    /// The aggregate signature on the header hash is that of the validators
    /// marked as signers.
    pub quorum_signature: bool,
}

/// Why the chain refused a block.
#[derive(Clone, Copy, Debug, PartialEq, Eq, Structural)]
pub enum Rejection {
    /// The block does not name the tip as its parent.
    WrongParent,
    /// The block is older than the tip.
    TimestampInPast,
    /// The version, the place in the chain, the tier or the view is not
    /// that of the tip's successor.
    BadHeader,
    InvalidLeaderSignature,
    InvalidSeed,
    /// An input is not an unspent output.
    UnknownInput,
    /// The block spends an output twice.
    DuplicateInput,
    /// An output exists already, or stands twice in the block.
    DuplicateOutput,
    InvalidRangeProof,
    /// Inputs and outputs do not balance.
    Unbalanced,
    /// The signers lack the stake that carries a vote.
    NoQuorum,
    InvalidQuorumSignature,
    /// The validators named for the next epoch are not those in escrow.
    WrongValidators,
}

/// The validators in force behind the blocks: those that the last macro
/// block names.
pub open spec fn spec_registry(blocks: Seq<Block>) -> Seq<Validator>
    decreases blocks.len(),
{
    if blocks.len() == 0 {
        Seq::empty()
    } else if blocks.last() is Macro {
        blocks.last().spec_validators()
    } else {
        spec_registry(blocks.drop_last())
    }
}

/// The seed of the epoch behind the blocks: that of the last macro block.
pub open spec fn spec_seed(blocks: Seq<Block>) -> Digest
    decreases blocks.len(),
{
    if blocks.len() == 0 {
        Digest { w0: 0, w1: 0, w2: 0, w3: 0 }
    } else if blocks.last() is Macro {
        blocks.last().spec_header().random
    } else {
        spec_seed(blocks.drop_last())
    }
}

/// The least view that the successor of a block may have: views run on
/// within an epoch and start again behind a macro block.
pub open spec fn spec_view_after(p: Header) -> u32 {
    if p.offset == 0 {
        0
    } else {
        p.view
    }
}

/// Whether `h` stands at the place behind `p`, in an epoch of
/// `blocks_in_epoch` blocks of which the first is the macro block.
pub open spec fn spec_follows(p: Header, h: Header, blocks_in_epoch: u32) -> bool {
    if p.offset + 1 < blocks_in_epoch {
        h.epoch == p.epoch && h.offset == p.offset + 1
    } else {
        h.epoch == p.epoch + 1 && h.offset == 0
    }
}

/// Whether a header is that of a successor of `p`.
pub open spec fn spec_header_ok(p: Header, h: Header, is_macro: bool, blocks_in_epoch: u32) -> bool {
    &&& h.version == BLOCK_VERSION
    &&& spec_follows(p, h, blocks_in_epoch)
    &&& is_macro <==> h.offset == 0
    &&& h.view >= spec_view_after(p)
}

/// Whether the signers of a macro block carry a vote among `registry`.
pub open spec fn spec_quorum(registry: Seq<Validator>, signers: Seq<bool>) -> bool {
    spec_signed_stake(registry, signers) >= spec_quorum_threshold(spec_total_stake(registry))
}

/// What holds between block `i` and the block before it.
pub open spec fn spec_link_ok(blocks: Seq<Block>, i: int, blocks_in_epoch: u32) -> bool {
    let p = blocks[i - 1].spec_header();
    let h = blocks[i].spec_header();
    &&& h.previous == p.spec_hash()
    &&& p.timestamp <= h.timestamp
    &&& spec_header_ok(p, h, blocks[i] is Macro, blocks_in_epoch)
    &&& blocks[i] is Macro ==> spec_quorum(spec_registry(blocks.take(i)), blocks[i].spec_signers())
}

/// Input `a` of block `i`.
pub open spec fn spec_input_at(blocks: Seq<Block>, i: int, a: int) -> Digest {
    blocks[i].spec_inputs()[a]
}

/// Whether `a` is a place among the inputs of block `i`.
pub open spec fn spec_input_place(blocks: Seq<Block>, i: int, a: int) -> bool {
    0 <= i < blocks.len() && 0 <= a < blocks[i].spec_inputs().len()
}

/// Whether the table holds an output named `id` that a block has spent.
pub open spec fn spec_spent(table: Seq<UtxoEntry>, id: Digest) -> bool {
    exists|k: int| 0 <= k < table.len() && (#[trigger] table[k]).id == id && table[k].spent
}

/// No output is spent twice: two different places among the inputs of the
/// blocks hold different outputs.
pub open spec fn spec_inputs_distinct(blocks: Seq<Block>) -> bool {
    forall|i: int, a: int, j: int, b: int|
        spec_input_place(blocks, i, a) && spec_input_place(blocks, j, b) && (i != j || a != b)
            ==> #[trigger] spec_input_at(blocks, i, a) != #[trigger] spec_input_at(blocks, j, b)
}

/// Every input of every block is marked as spent in the table.
pub open spec fn spec_inputs_spent(blocks: Seq<Block>, table: Seq<UtxoEntry>) -> bool {
    forall|i: int, a: int|
        spec_input_place(blocks, i, a) ==> spec_spent(table, #[trigger] spec_input_at(blocks, i, a))
}

/// Whether every macro block names validators with positive stakes.
pub open spec fn spec_registries_ok(blocks: Seq<Block>) -> bool {
    forall|i: int|
        0 <= i < blocks.len() && blocks[i] is Macro ==> crate::validators::stakes_positive(
            #[trigger] blocks[i].spec_validators(),
        )
}

/// What the checks of a block read of a chain: its last block, the table
/// of outputs and the validators of the epoch.
pub struct ChainModel {
    pub tip: Header,
    pub last_hash: Digest,
    pub blocks_in_epoch: u32,
    pub table: Seq<UtxoEntry>,
    pub validators: Seq<Validator>,
}

impl ChainModel {
    /// The verdict of the chain on a block, the checks taken in their
    /// order: on a sealed block, which is to be appended, or on a block
    /// that its leader proposes, which has no signers yet.
    pub open spec fn check_as(self, block: Block, verdicts: Verdicts, sealed: bool) -> Result<
        (),
        Rejection,
    > {
        let h = block.spec_header();
        if h.previous != self.last_hash {
            Err(Rejection::WrongParent)
        } else if h.timestamp < self.tip.timestamp {
            Err(Rejection::TimestampInPast)
        } else if !spec_header_ok(self.tip, h, block is Macro, self.blocks_in_epoch) {
            Err(Rejection::BadHeader)
        } else if block is Micro {
            if !verdicts.leader_signature {
                Err(Rejection::InvalidLeaderSignature)
            } else if !verdicts.seed {
                Err(Rejection::InvalidSeed)
            } else if !spec_all_unspent(self.table, block.spec_inputs()) {
                Err(Rejection::UnknownInput)
            } else if !block.spec_inputs().no_duplicates() {
                Err(Rejection::DuplicateInput)
            } else if !spec_fresh(self.table, spec_output_ids(block.spec_outputs())) {
                Err(Rejection::DuplicateOutput)
            } else if !verdicts.range_proofs {
                Err(Rejection::InvalidRangeProof)
            } else if !verdicts.balance {
                Err(Rejection::Unbalanced)
            } else {
                Ok(())
            }
        } else {
            if !spec_fresh(self.table, spec_output_ids(block.spec_outputs())) {
                Err(Rejection::DuplicateOutput)
            } else if sealed && !spec_quorum(self.validators, block.spec_signers()) {
                Err(Rejection::NoQuorum)
            } else if sealed && !verdicts.quorum_signature {
                Err(Rejection::InvalidQuorumSignature)
            } else if !spec_names_escrow(
                block.spec_validators(),
                spec_apply(self.table, block.spec_inputs(), block.spec_outputs()),
            ) {
                Err(Rejection::WrongValidators)
            } else {
                Ok(())
            }
        }
    }

    /// The verdict of the chain on a sealed block.
    pub open spec fn check(self, block: Block, verdicts: Verdicts) -> Result<(), Rejection> {
        self.check_as(block, verdicts, true)
    }

    /// The verdict of the chain on a block that its leader proposes: the
    /// checks of a sealed block but those of the signers, which a proposal
    /// does not have yet.
    pub open spec fn check_proposal(self, block: Block, verdicts: Verdicts) -> Result<
        (),
        Rejection,
    > {
        self.check_as(block, verdicts, false)
    }

    /// The chain with a block appended.
    pub open spec fn append(self, block: Block) -> ChainModel {
        ChainModel {
            tip: block.spec_header(),
            last_hash: block.spec_hash(),
            blocks_in_epoch: self.blocks_in_epoch,
            table: spec_apply(self.table, block.spec_inputs(), block.spec_outputs()),
            validators: if block is Macro {
                block.spec_validators()
            } else {
                self.validators
            },
        }
    }

    /// The chain with the blocks of a list appended, each in its turn.
    pub open spec fn extend(self, blocks: Seq<Block>) -> ChainModel
        decreases blocks.len(),
    {
        if blocks.len() == 0 {
            self
        } else {
            self.extend(blocks.drop_last()).append(blocks.last())
        }
    }
}

/// The committed chain and what is derived from it.
#[derive(Debug)]
pub struct ChainState {
    /// The committed blocks, the genesis block first.
    pub blocks: Vec<Block>,
    /// Every output that a committed block created.
    pub table: Vec<UtxoEntry>,
    /// The validators of the current epoch.
    pub validators: ValidatorSet,
    /// The seed of the current epoch.
    pub seed: Digest,
    /// The header of the last block.
    pub tip: Header,
    /// The digest of the last block.
    pub last_hash: Digest,
    /// How many blocks an epoch has, the macro block that opens it included.
    pub blocks_in_epoch: u32,
}

impl ChainState {
    /// What holds of every chain state.
    pub open spec fn wf(&self) -> bool {
        &&& self.blocks_in_epoch >= 1
        &&& self.blocks@.len() >= 1
        &&& self.blocks@[0] is Macro
        &&& forall|i: int|
            1 <= i < self.blocks@.len() ==> #[trigger] spec_link_ok(
                self.blocks@,
                i,
                self.blocks_in_epoch,
            )
        &&& self.tip == self.blocks@.last().spec_header()
        &&& self.last_hash == self.tip.spec_hash()
        &&& self.validators.wf()
        &&& self.validators@ == spec_registry(self.blocks@)
        &&& self.seed == spec_seed(self.blocks@)
        &&& ids_distinct(self.table@)
        &&& spec_inputs_spent(self.blocks@, self.table@)
        &&& spec_inputs_distinct(self.blocks@)
        &&& spec_registries_ok(self.blocks@)
    }

    /// What the checks of a block read of the chain.
    pub open spec fn model(&self) -> ChainModel {
        ChainModel {
            tip: self.tip,
            last_hash: self.last_hash,
            blocks_in_epoch: self.blocks_in_epoch,
            table: self.table@,
            validators: self.validators@,
        }
    }

    /// The verdict of the chain on a block, the checks taken in their order.
    pub open spec fn spec_check(&self, block: Block, verdicts: Verdicts) -> Result<(), Rejection> {
        self.model().check(block, verdicts)
    }

    /// Whether `self` is `before` with `block` appended.
    pub open spec fn spec_is_after(&self, before: ChainState, block: Block) -> bool {
        &&& self.blocks@ == before.blocks@.push(block)
        &&& self.table@ == spec_apply(before.table@, block.spec_inputs(), block.spec_outputs())
        &&& self.tip == block.spec_header()
        &&& self.last_hash == block.spec_hash()
        &&& self.blocks_in_epoch == before.blocks_in_epoch
        &&& self.validators@ == if block is Macro {
            block.spec_validators()
        } else {
            before.validators@
        }
        &&& self.seed == if block is Macro {
            block.spec_header().random
        } else {
            before.seed
        }
    }

    /// The leader of `view` over the current tip.
    pub open spec fn spec_leader(&self, view: u32) -> PublicKey {
        self.validators.spec_leader(self.seed, view)
    }
}

/// Whether `vals` is the registry of the escrow of the table.
pub open spec fn spec_names_escrow(vals: Seq<Validator>, table: Seq<UtxoEntry>) -> bool {
    spec_escrow(table) matches Some(e) && is_registry_of(vals, e)
}

/// Whether two lists hold the same validators in the same order.
pub fn same_validators(a: &Vec<Validator>, b: &Vec<Validator>) -> (r: bool)
    ensures
        r == (a@ == b@),
{
    if a.len() != b.len() {
        return false;
    }
    let mut i: usize = 0;
    while i < a.len()
        invariant
            0 <= i <= a.len(),
            a.len() == b.len(),
            forall|k: int| 0 <= k < i ==> a@[k] == b@[k],
        decreases a.len() - i,
    {
        if a[i] != b[i] {
            return false;
        }
        i = i + 1;
    }
    assert(a@ =~= b@);
    true
}

/// Whether `vals` is the registry of the escrow of the table; the registry
/// comes with the answer.
pub fn names_escrow(vals: &Vec<Validator>, table: &Vec<UtxoEntry>) -> (r: Option<ValidatorSet>)
    ensures
        r is Some <==> spec_names_escrow(vals@, table@),
        r matches Some(set) ==> set.wf() && set@ == vals@,
{
    match escrow(table) {
        None => None,
        Some(list) => {
            let ghost stakers = list@;
            match ValidatorSet::new(list) {
                None => None,
                Some(set) => {
                    if same_validators(&set.validators, vals) {
                        Some(set)
                    } else {
                        proof {
                            if is_registry_of(vals@, stakers) {
                                lemma_registry_unique(vals@, set@, stakers);
                            }
                        }
                        None
                    }
                },
            }
        },
    }
}

/// What marking the inputs and adding the outputs does to the table.
pub proof fn lemma_apply(table: Seq<UtxoEntry>, inputs: Seq<Digest>, outputs: Seq<Output>)
    requires
        ids_distinct(table),
        spec_all_unspent(table, inputs),
        spec_fresh(table, spec_output_ids(outputs)),
    ensures
        ids_distinct(spec_apply(table, inputs, outputs)),
        forall|id: Digest|
            spec_spent(table, id) ==> #[trigger] spec_spent(spec_apply(table, inputs, outputs), id),
        forall|k: int|
            0 <= k < inputs.len() ==> spec_spent(
                spec_apply(table, inputs, outputs),
                #[trigger] inputs[k],
            ),
{
    let new = spec_apply(table, inputs, outputs);
    let ids = spec_output_ids(outputs);
    assert forall|j: int, k: int| 0 <= j < new.len() && 0 <= k < new.len() && j != k implies (
    #[trigger] new[j]).id != (#[trigger] new[k]).id by {
        if j < table.len() && k < table.len() {
            assert(new[j].id == table[j].id && new[k].id == table[k].id);
        } else if j < table.len() {
            assert(new[j].id == table[j].id);
            assert(new[k].id == ids[k - table.len()]);
            assert(!spec_known(table, ids[k - table.len()]));
        } else if k < table.len() {
            assert(new[k].id == table[k].id);
            assert(new[j].id == ids[j - table.len()]);
            assert(!spec_known(table, ids[j - table.len()]));
        } else {
            assert(new[j].id == ids[j - table.len()]);
            assert(new[k].id == ids[k - table.len()]);
        }
    }
    assert forall|id: Digest| spec_spent(table, id) implies #[trigger] spec_spent(new, id) by {
        let k = choose|k: int| 0 <= k < table.len() && (#[trigger] table[k]).id == id && table[k].spent;
        assert(new[k].id == id && new[k].spent);
    }
    assert forall|k: int| 0 <= k < inputs.len() implies spec_spent(new, #[trigger] inputs[k]) by {
        let id = inputs[k];
        assert(spec_unspent(table, id));
        let e = choose|e: int| 0 <= e < table.len() && (#[trigger] table[e]).id == id && !table[e].spent;
        assert(inputs.contains(id));
        assert(new[e].id == id && new[e].spent);
    }
}

/// The validators and the seed behind a chain with one more block.
pub proof fn lemma_registry_push(blocks: Seq<Block>, block: Block)
    ensures
        spec_registry(blocks.push(block)) == if block is Macro {
            block.spec_validators()
        } else {
            spec_registry(blocks)
        },
        spec_seed(blocks.push(block)) == if block is Macro {
            block.spec_header().random
        } else {
            spec_seed(blocks)
        },
{
    assert(blocks.push(block).drop_last() =~= blocks);
}

/// The links of a chain with one more block.
pub proof fn lemma_links_push(blocks: Seq<Block>, block: Block, blocks_in_epoch: u32)
    requires
        blocks.len() >= 1,
        forall|i: int| 1 <= i < blocks.len() ==> #[trigger] spec_link_ok(blocks, i, blocks_in_epoch),
        spec_link_ok(blocks.push(block), blocks.len() as int, blocks_in_epoch),
    ensures
        forall|i: int|
            1 <= i < blocks.push(block).len() ==> #[trigger] spec_link_ok(
                blocks.push(block),
                i,
                blocks_in_epoch,
            ),
{
    let new_blocks = blocks.push(block);
    assert forall|i: int| 1 <= i < new_blocks.len() implies #[trigger] spec_link_ok(
        new_blocks,
        i,
        blocks_in_epoch,
    ) by {
        if i < blocks.len() {
            assert(spec_link_ok(blocks, i, blocks_in_epoch));
            assert(new_blocks[i] == blocks[i]);
            assert(new_blocks[i - 1] == blocks[i - 1]);
            assert(new_blocks.take(i) =~= blocks.take(i));
        }
    }
}

/// The inputs of a chain with one more block are all marked in the new table.
pub proof fn lemma_inputs_spent_push(
    blocks: Seq<Block>,
    block: Block,
    table: Seq<UtxoEntry>,
    new_table: Seq<UtxoEntry>,
)
    requires
        spec_inputs_spent(blocks, table),
        forall|id: Digest| spec_spent(table, id) ==> #[trigger] spec_spent(new_table, id),
        forall|k: int|
            0 <= k < block.spec_inputs().len() ==> spec_spent(
                new_table,
                #[trigger] block.spec_inputs()[k],
            ),
    ensures
        spec_inputs_spent(blocks.push(block), new_table),
{
    let new_blocks = blocks.push(block);
    assert forall|i: int, a: int| spec_input_place(new_blocks, i, a) implies spec_spent(
        new_table,
        #[trigger] spec_input_at(new_blocks, i, a),
    ) by {
        if i < blocks.len() {
            assert(new_blocks[i] == blocks[i]);
            assert(spec_input_place(blocks, i, a));
            assert(spec_spent(table, spec_input_at(blocks, i, a)));
        } else {
            assert(new_blocks[i] == block);
        }
    }
}

/// No output is spent twice in a chain with one more block, where the block
/// spends unspent outputs only and none twice.
pub proof fn lemma_inputs_distinct_push(blocks: Seq<Block>, block: Block, table: Seq<UtxoEntry>)
    requires
        spec_inputs_distinct(blocks),
        spec_inputs_spent(blocks, table),
        ids_distinct(table),
        spec_all_unspent(table, block.spec_inputs()),
        block.spec_inputs().no_duplicates(),
    ensures
        spec_inputs_distinct(blocks.push(block)),
{
    let new_blocks = blocks.push(block);
    let n = blocks.len() as int;
    assert forall|i: int, a: int, j: int, b: int|
        spec_input_place(new_blocks, i, a) && spec_input_place(new_blocks, j, b) && (i != j || a
            != b) implies #[trigger] spec_input_at(new_blocks, i, a) != #[trigger] spec_input_at(
        new_blocks,
        j,
        b,
    ) by {
        if i < n {
            assert(new_blocks[i] == blocks[i]);
            assert(spec_input_place(blocks, i, a));
            assert(spec_input_at(new_blocks, i, a) == spec_input_at(blocks, i, a));
        } else {
            assert(new_blocks[i] == block);
        }
        if j < n {
            assert(new_blocks[j] == blocks[j]);
            assert(spec_input_place(blocks, j, b));
            assert(spec_input_at(new_blocks, j, b) == spec_input_at(blocks, j, b));
        } else {
            assert(new_blocks[j] == block);
        }
        if i < n && j == n {
            lemma_spent_not_unspent(table, spec_input_at(blocks, i, a));
            assert(spec_unspent(table, block.spec_inputs()[b]));
        } else if i == n && j < n {
            lemma_spent_not_unspent(table, spec_input_at(blocks, j, b));
            assert(spec_unspent(table, block.spec_inputs()[a]));
        }
    }
}

/// A chain state with one more block, after the checks, is a chain state.
pub proof fn lemma_append_wf(before: ChainState, block: Block, verdicts: Verdicts, after: ChainState)
    requires
        before.wf(),
        before.spec_check(block, verdicts) is Ok,
        after.spec_is_after(before, block),
        after.validators.wf(),
    ensures
        after.wf(),
{
    let old_blocks = before.blocks@;
    let new_blocks = old_blocks.push(block);
    lemma_registry_push(old_blocks, block);
    if block is Macro {
        assert(block.spec_inputs() =~= Seq::<Digest>::empty());
    }
    lemma_apply(before.table@, block.spec_inputs(), block.spec_outputs());
    assert(spec_link_ok(new_blocks, old_blocks.len() as int, before.blocks_in_epoch)) by {
        assert(new_blocks[old_blocks.len() as int] == block);
        assert(new_blocks[old_blocks.len() - 1] == old_blocks.last());
        assert(new_blocks.take(old_blocks.len() as int) =~= old_blocks);
    }
    lemma_links_push(old_blocks, block, before.blocks_in_epoch);
    lemma_inputs_spent_push(old_blocks, block, before.table@, after.table@);
    lemma_inputs_distinct_push(old_blocks, block, before.table@);
    assert(new_blocks[0] == old_blocks[0]);
    assert(new_blocks.last() == block);
    assert forall|i: int| 0 <= i < new_blocks.len() && new_blocks[i] is Macro implies crate::validators::stakes_positive(
        #[trigger] new_blocks[i].spec_validators(),
    ) by {
        if i < old_blocks.len() {
            assert(new_blocks[i] == old_blocks[i]);
        }
    }
}

/// In a table of distinct identities an output is not both spent and unspent.
pub proof fn lemma_spent_not_unspent(table: Seq<UtxoEntry>, id: Digest)
    requires
        ids_distinct(table),
        spec_spent(table, id),
    ensures
        !spec_unspent(table, id),
{
}

/// The verdict on a block that is to open a chain.
pub open spec fn spec_check_genesis(genesis: MacroBlock, blocks_in_epoch: u32) -> Result<
    (),
    Rejection,
> {
    if blocks_in_epoch == 0 || genesis.header.version != BLOCK_VERSION || genesis.header.offset != 0 {
        Err(Rejection::BadHeader)
    } else if !spec_output_ids(genesis.outputs@).no_duplicates() {
        Err(Rejection::DuplicateOutput)
    } else if !spec_names_escrow(
        genesis.validators@,
        spec_apply(Seq::empty(), Seq::empty(), genesis.outputs@),
    ) {
        Err(Rejection::WrongValidators)
    } else {
        Ok(())
    }
}

impl ChainState {
    /// Opens a chain with its genesis block: a macro block whose outputs
    /// hold the stakes of the first validators, and which names them.
    pub fn new(genesis: MacroBlock, blocks_in_epoch: u32) -> (r: Result<ChainState, Rejection>)
        ensures
            r matches Ok(chain) ==> {
                &&& spec_check_genesis(genesis, blocks_in_epoch) is Ok
                &&& chain.wf()
                &&& chain.blocks@ == seq![Block::Macro(genesis)]
                &&& chain.table@ == spec_apply(Seq::empty(), Seq::empty(), genesis.outputs@)
                &&& chain.validators@ == genesis.validators@
                &&& chain.seed == genesis.header.random
                &&& chain.blocks_in_epoch == blocks_in_epoch
            },
            r matches Err(e) ==> spec_check_genesis(genesis, blocks_in_epoch) == Err::<
                (),
                Rejection,
            >(e),
    {
        if blocks_in_epoch == 0 || genesis.header.version != BLOCK_VERSION || genesis.header.offset
            != 0 {
            return Err(Rejection::BadHeader);
        }
        let ids = output_ids(&genesis.outputs);
        if has_duplicates(&ids) {
            return Err(Rejection::DuplicateOutput);
        }
        let empty_table: Vec<UtxoEntry> = Vec::new();
        let no_inputs: Vec<Digest> = Vec::new();
        let table = apply(&empty_table, &no_inputs, &genesis.outputs);
        proof {
            assert(empty_table@ =~= Seq::<UtxoEntry>::empty());
            assert(no_inputs@ =~= Seq::<Digest>::empty());
        }
        match names_escrow(&genesis.validators, &table) {
            None => Err(Rejection::WrongValidators),
            Some(set) => {
                let header = genesis.header;
                let last_hash = header.hash();
                let block = Block::Macro(genesis);
                let mut blocks: Vec<Block> = Vec::new();
                blocks.push(block);
                let chain = ChainState {
                    blocks,
                    table,
                    validators: set,
                    seed: header.random,
                    tip: header,
                    last_hash,
                    blocks_in_epoch,
                };
                proof {
                    assert(chain.blocks@ =~= seq![block]);
                    assert(chain.blocks@.drop_last() =~= Seq::<Block>::empty());
                    assert(spec_fresh(Seq::<UtxoEntry>::empty(), spec_output_ids(genesis.outputs@)));
                    assert(spec_all_unspent(Seq::<UtxoEntry>::empty(), Seq::<Digest>::empty()));
                    lemma_apply(Seq::<UtxoEntry>::empty(), Seq::<Digest>::empty(), genesis.outputs@);
                    assert(block.spec_inputs() =~= Seq::<Digest>::empty());
                    assert(spec_inputs_spent(chain.blocks@, chain.table@));
                    assert(spec_inputs_distinct(chain.blocks@));
                }
                Ok(chain)
            },
        }
    }

    /// The last block.
    pub fn tip(&self) -> (r: &Block)
        requires
            self.wf(),
        ensures
            *r == self.blocks@.last(),
    {
        &self.blocks[self.blocks.len() - 1]
    }

    /// The number of committed blocks.
    pub fn height(&self) -> (r: u64)
        ensures
            r == self.blocks@.len(),
    {
        self.blocks.len() as u64
    }

    /// The epoch of the last block.
    pub fn epoch(&self) -> (r: u64)
        ensures
            r == self.tip.epoch,
    {
        self.tip.epoch
    }

    /// The place of the last block in its epoch.
    pub fn offset(&self) -> (r: u32)
        ensures
            r == self.tip.offset,
    {
        self.tip.offset
    }

    /// The least view that the next block may have.
    pub fn view_change(&self) -> (r: u32)
        ensures
            r == spec_view_after(self.tip),
    {
        if self.tip.offset == 0 {
            0
        } else {
            self.tip.view
        }
    }

    /// The digest of the last block.
    pub fn last_block_hash(&self) -> (r: Digest)
        ensures
            r == self.last_hash,
    {
        self.last_hash
    }

    /// The validators of the current epoch.
    pub fn validators(&self) -> (r: &ValidatorSet)
        ensures
            *r == self.validators,
    {
        &self.validators
    }

    /// Whether the next block is the macro block that opens a new epoch.
    pub fn next_is_macro(&self) -> (r: bool)
        ensures
            r == !(self.tip.offset + 1 < self.blocks_in_epoch),
    {
        !(self.tip.offset < self.blocks_in_epoch && self.tip.offset + 1 < self.blocks_in_epoch)
    }

    /// The leader of `view` over the current tip.
    pub fn leader(&self, view: u32) -> (r: PublicKey)
        requires
            self.wf(),
        ensures
            r == self.spec_leader(view),
    {
        self.validators.leader(&self.seed, view)
    }

    /// Whether a header is that of a successor of the tip.
    pub fn header_ok(&self, h: &Header, is_macro: bool) -> (r: bool)
        ensures
            r == spec_header_ok(self.tip, *h, is_macro, self.blocks_in_epoch),
    {
        let p = &self.tip;
        if h.version != BLOCK_VERSION {
            return false;
        }
        let same_epoch = p.offset < self.blocks_in_epoch && p.offset + 1 < self.blocks_in_epoch;
        let follows = if same_epoch {
            h.epoch == p.epoch && h.offset == p.offset + 1
        } else {
            p.epoch < u64::MAX && h.epoch == p.epoch + 1 && h.offset == 0
        };
        if !follows {
            return false;
        }
        if is_macro != (h.offset == 0) {
            return false;
        }
        let least = if p.offset == 0 {
            0
        } else {
            p.view
        };
        h.view >= least
    }

    /// Validates a sealed block against the chain without changing
    /// anything. For a macro block that passes, the registry of the next
    /// epoch comes with the answer.
    pub fn validate(&self, block: &Block, verdicts: &Verdicts) -> (r: Result<
        Option<ValidatorSet>,
        Rejection,
    >)
        requires
            self.wf(),
        ensures
            r matches Ok(next) ==> {
                &&& self.spec_check(*block, *verdicts) is Ok
                &&& next is Some <==> *block is Macro
                &&& next matches Some(set) ==> set.wf() && set@ == block.spec_validators()
            },
            r matches Err(e) ==> self.spec_check(*block, *verdicts) == Err::<(), Rejection>(e),
    {
        self.validate_as(block, verdicts, true)
    }

    /// Validates a block that its leader proposes, without changing
    /// anything: every node goes through what the leader says to have
    /// built, as it would through a sealed block, the signers left aside.
    pub fn validate_proposal(&self, block: &Block, verdicts: &Verdicts) -> (r: Result<(), Rejection>)
        requires
            self.wf(),
        ensures
            r == self.model().check_proposal(*block, *verdicts),
    {
        match self.validate_as(block, verdicts, false) {
            Ok(_) => Ok(()),
            Err(e) => Err(e),
        }
    }

    /// Validates a block against the chain, sealed or proposed.
    fn validate_as(&self, block: &Block, verdicts: &Verdicts, sealed: bool) -> (r: Result<
        Option<ValidatorSet>,
        Rejection,
    >)
        requires
            self.wf(),
        ensures
            r matches Ok(next) ==> {
                &&& self.model().check_as(*block, *verdicts, sealed) is Ok
                &&& next is Some <==> *block is Macro
                &&& next matches Some(set) ==> set.wf() && set@ == block.spec_validators()
            },
            r matches Err(e) ==> self.model().check_as(*block, *verdicts, sealed) == Err::<
                (),
                Rejection,
            >(e),
    {
        let h = block.header();
        if h.previous != self.last_hash {
            return Err(Rejection::WrongParent);
        }
        if h.timestamp < self.tip.timestamp {
            return Err(Rejection::TimestampInPast);
        }
        if !self.header_ok(&h, block.is_macro()) {
            return Err(Rejection::BadHeader);
        }
        match block {
            Block::Micro(b) => {
                if !verdicts.leader_signature {
                    return Err(Rejection::InvalidLeaderSignature);
                }
                if !verdicts.seed {
                    return Err(Rejection::InvalidSeed);
                }
                if !all_unspent(&self.table, &b.inputs) {
                    return Err(Rejection::UnknownInput);
                }
                if has_duplicates(&b.inputs) {
                    return Err(Rejection::DuplicateInput);
                }
                let ids = output_ids(&b.outputs);
                if !fresh(&self.table, &ids) {
                    return Err(Rejection::DuplicateOutput);
                }
                if !verdicts.range_proofs {
                    return Err(Rejection::InvalidRangeProof);
                }
                if !verdicts.balance {
                    return Err(Rejection::Unbalanced);
                }
                Ok(None)
            },
            Block::Macro(b) => {
                let ids = output_ids(&b.outputs);
                if !fresh(&self.table, &ids) {
                    return Err(Rejection::DuplicateOutput);
                }
                if sealed && !self.validators.has_quorum(&b.signers) {
                    return Err(Rejection::NoQuorum);
                }
                if sealed && !verdicts.quorum_signature {
                    return Err(Rejection::InvalidQuorumSignature);
                }
                let no_inputs: Vec<Digest> = Vec::new();
                proof {
                    assert(no_inputs@ =~= Seq::<Digest>::empty());
                }
                let table = apply(&self.table, &no_inputs, &b.outputs);
                match names_escrow(&b.validators, &table) {
                    None => Err(Rejection::WrongValidators),
                    Some(set) => Ok(Some(set)),
                }
            },
        }
    }

    /// Appends a block to the chain, if it passes the checks: that it names
    /// the tip as its parent, that it is not older than the tip, that its
    /// header is that of the tip's successor; for a micro block, that the
    /// leader signed it, that it spends unspent outputs, each once, that its
    /// outputs are new, that its proofs hold and that it balances; for a
    /// macro block, that its outputs are new, that its signers carry a vote
    /// among the current validators and signed it, and that it names the
    /// escrow as the next validators. A block that fails leaves the chain
    /// as it was.
    pub fn try_append(&mut self, block: Block, verdicts: &Verdicts) -> (r: Result<(), Rejection>)
        requires
            old(self).wf(),
        ensures
            final(self).wf(),
            r == old(self).spec_check(block, *verdicts),
            r is Err ==> *final(self) == *old(self),
            r is Ok ==> final(self).spec_is_after(*old(self), block),
    {
        let next = match self.validate(&block, verdicts) {
            Err(e) => {
                return Err(e);
            },
            Ok(next) => next,
        };
        let ghost before = *self;
        let h = block.header();
        let table = match &block {
            Block::Micro(b) => apply(&self.table, &b.inputs, &b.outputs),
            Block::Macro(b) => {
                let no_inputs: Vec<Digest> = Vec::new();
                proof {
                    assert(no_inputs@ =~= Seq::<Digest>::empty());
                }
                apply(&self.table, &no_inputs, &b.outputs)
            },
        };
        self.table = table;
        self.tip = h;
        self.last_hash = h.hash();
        match next {
            Some(set) => {
                self.validators = set;
                self.seed = h.random;
            },
            None => {},
        }
        self.blocks.push(block);
        proof {
            lemma_append_wf(before, block, *verdicts, *self);
        }
        Ok(())
    }
}

/// No output is spent twice: the inputs of two committed blocks have
/// nothing in common, and no block holds an input twice.
pub proof fn lemma_no_double_spend(chain: ChainState, i: int, a: int, j: int, b: int)
    requires
        chain.wf(),
        spec_input_place(chain.blocks@, i, a),
        spec_input_place(chain.blocks@, j, b),
        i != j || a != b,
    ensures
        chain.blocks@[i].spec_inputs()[a] != chain.blocks@[j].spec_inputs()[b],
{
    assert(spec_input_at(chain.blocks@, i, a) != spec_input_at(chain.blocks@, j, b));
}

/// The chain is a hash chain, and time does not run backwards along it:
/// every block names the block before it, and is not older than it.
pub proof fn lemma_chain_links(chain: ChainState, i: int)
    requires
        chain.wf(),
        1 <= i < chain.blocks@.len(),
    ensures
        chain.blocks@[i].spec_header().previous == chain.blocks@[i - 1].spec_hash(),
        chain.blocks@[i - 1].spec_header().timestamp <= chain.blocks@[i].spec_header().timestamp,
{
    assert(spec_link_ok(chain.blocks@, i, chain.blocks_in_epoch));
}

/// Time does not run backwards between any two committed blocks.
pub proof fn lemma_monotone_time(chain: ChainState, i: int, j: int)
    requires
        chain.wf(),
        0 <= i <= j < chain.blocks@.len(),
    ensures
        chain.blocks@[i].spec_header().timestamp <= chain.blocks@[j].spec_header().timestamp,
    decreases j - i,
{
    if i < j {
        lemma_monotone_time(chain, i, j - 1);
        lemma_chain_links(chain, j);
    }
}

/// Every committed macro block but the first carries the signatures of
/// validators whose stake carries a vote among the validators that were in
/// force when it was appended.
pub proof fn lemma_committed_quorum(chain: ChainState, i: int)
    requires
        chain.wf(),
        1 <= i < chain.blocks@.len(),
        chain.blocks@[i] is Macro,
    ensures
        spec_signed_stake(spec_registry(chain.blocks@.take(i)), chain.blocks@[i].spec_signers())
            >= spec_quorum_threshold(spec_total_stake(spec_registry(chain.blocks@.take(i)))),
{
    assert(spec_link_ok(chain.blocks@, i, chain.blocks_in_epoch));
}

/// Nodes that have committed the same blocks name the same leader for
/// every view.
pub proof fn lemma_chain_leader_agreement(a: ChainState, b: ChainState, view: u32)
    requires
        a.wf(),
        b.wf(),
        a.blocks@ == b.blocks@,
    ensures
        a.spec_leader(view) == b.spec_leader(view),
{
}

/// A sealed block that the chain takes would have passed as a proposal;
/// a micro block passes as the one where it passes as the other; and a
/// macro block that passed as a proposal is taken once its signers carry
/// a vote among the validators and have signed it.
pub proof fn lemma_proposal_then_sealed(chain: ChainState, block: Block, verdicts: Verdicts)
    ensures
        chain.spec_check(block, verdicts) is Ok ==> chain.model().check_proposal(block, verdicts) is Ok,
        block is Micro ==> chain.model().check_proposal(block, verdicts) == chain.spec_check(
            block,
            verdicts,
        ),
        block is Macro && chain.model().check_proposal(block, verdicts) is Ok ==> (chain.spec_check(
            block,
            verdicts,
        ) is Ok <==> spec_quorum(chain.validators@, block.spec_signers())
            && verdicts.quorum_signature),
{
}

/// Within an epoch the chain takes micro blocks only: where the blocks of
/// a list pass the checks, each on the chain as the blocks before it have
/// left it, the first `k` of them, for which the epoch has room, are micro
/// blocks of this epoch at the places behind the tip, and the validators
/// stay who they are.
pub proof fn lemma_epoch_runs(m: ChainModel, blocks: Seq<Block>, verdicts: Seq<Verdicts>, k: int)
    requires
        0 <= k <= blocks.len() <= verdicts.len(),
        m.tip.offset + k < m.blocks_in_epoch,
        forall|j: int|
            0 <= j < k ==> (#[trigger] m.extend(blocks.take(j))).check(blocks[j], verdicts[j]) is Ok,
    ensures
        m.extend(blocks.take(k)).tip.epoch == m.tip.epoch,
        m.extend(blocks.take(k)).tip.offset == m.tip.offset + k,
        m.extend(blocks.take(k)).validators == m.validators,
        m.extend(blocks.take(k)).blocks_in_epoch == m.blocks_in_epoch,
        forall|j: int| 0 <= j < k ==> #[trigger] blocks[j] is Micro,
    decreases k,
{
    if k == 0 {
        assert(blocks.take(0) =~= Seq::<Block>::empty());
    } else {
        lemma_epoch_runs(m, blocks, verdicts, k - 1);
        let s = m.extend(blocks.take(k - 1));
        assert(s.check(blocks[k - 1], verdicts[k - 1]) is Ok);
        assert(blocks.take(k).drop_last() =~= blocks.take(k - 1));
        assert(blocks.take(k).last() == blocks[k - 1]);
        assert(m.extend(blocks.take(k)) == s.append(blocks[k - 1]));
    }
}

/// An epoch ends with a macro block that a quorum of its validators has
/// signed. Where as many blocks as the epoch has left, and one more, pass
/// the checks, each on the chain as the blocks before it have left it:
/// all but the last are micro blocks; the last is a macro block at the
/// head of the next epoch, its signers carry a vote among the validators
/// of the epoch that ends and have signed it, and the validators that it
/// names, who are those in escrow, are in force behind it.
pub proof fn lemma_epoch_turns(m: ChainModel, blocks: Seq<Block>, verdicts: Seq<Verdicts>)
    requires
        m.tip.offset < m.blocks_in_epoch,
        blocks.len() == m.blocks_in_epoch - m.tip.offset,
        blocks.len() <= verdicts.len(),
        forall|j: int|
            0 <= j < blocks.len() ==> (#[trigger] m.extend(blocks.take(j))).check(
                blocks[j],
                verdicts[j],
            ) is Ok,
    ensures
        forall|j: int| 0 <= j < blocks.len() - 1 ==> #[trigger] blocks[j] is Micro,
        blocks.last() is Macro,
        m.extend(blocks).tip.epoch == m.tip.epoch + 1,
        m.extend(blocks).tip.offset == 0,
        spec_quorum(m.validators, blocks.last().spec_signers()),
        verdicts[blocks.len() - 1].quorum_signature,
        m.extend(blocks).validators == blocks.last().spec_validators(),
        spec_names_escrow(m.extend(blocks).validators, m.extend(blocks).table),
{
    let n = blocks.len() as int;
    lemma_epoch_runs(m, blocks, verdicts, n - 1);
    let s = m.extend(blocks.take(n - 1));
    assert(s.check(blocks[n - 1], verdicts[n - 1]) is Ok);
    assert(blocks.drop_last() =~= blocks.take(n - 1));
    assert(m.extend(blocks) == s.append(blocks.last()));
}

/// The chain takes a micro block only where its leader signed it, its
/// range proofs hold and its inputs balance its outputs, the fee and the
/// adjustment of the blinding factors; and a macro block only where the
/// validators marked as signers did sign it.
pub proof fn lemma_append_needs_verdicts(chain: ChainState, block: Block, verdicts: Verdicts)
    requires
        chain.spec_check(block, verdicts) is Ok,
    ensures
        block is Micro ==> verdicts.leader_signature && verdicts.seed && verdicts.range_proofs
            && verdicts.balance,
        block is Macro ==> verdicts.quorum_signature && spec_quorum(
            chain.validators@,
            block.spec_signers(),
        ),
{
}

} // verus!
