//! The genesis block: the macro block that a chain starts from.

use vstd::prelude::*;
use crate::block::{Header, MacroBlock, Output, PublicPaymentOutput, StakeOutput, BLOCK_VERSION};
use crate::digest::{Digest, PublicKey};
use crate::chain::{spec_check_genesis, spec_names_escrow};
use crate::escrow::{
    UtxoEntry, apply, escrow, lemma_escrow_add_absent, spec_apply, spec_entry, spec_escrow,
};
use crate::block::spec_output_ids;
use crate::validators::{Validator, ValidatorSet, stakers_valid};

verus! {

/// The keys of a bootstrap validator.
#[derive(Clone, Copy, Debug, PartialEq, Eq, Structural)]
pub struct KeyChain {
    /// The key of the account that owns the stake.
    pub wallet_pkey: PublicKey,
    /// The key with which the validator signs.
    pub network_pkey: PublicKey,
}

/// What is left of the supply for the first node once every validator has
/// its stake.
pub open spec fn spec_residual(n: nat, stake: i64, coins: i64) -> int {
    coins - n * stake
}

/// The stake of the validator at a place.
pub open spec fn spec_stake_output(k: KeyChain, stake: i64, active_until_epoch: u64) -> StakeOutput {
    StakeOutput {
        recipient: k.wallet_pkey,
        validator: k.network_pkey,
        amount: stake,
        active_until_epoch,
    }
}

/// The stakers that the key chains make.
pub open spec fn spec_stakers(keychains: Seq<KeyChain>, stake: i64, active_until_epoch: u64) -> Seq<
    Validator,
> {
    Seq::new(
        keychains.len(),
        |i: int|
            Validator { network_pkey: keychains[i].network_pkey, stake, active_until_epoch },
    )
}

/// What is left of the supply for the first node once every validator has
/// its stake. Nothing, where the stakes leave the range of the amounts.
pub fn residual(n: usize, stake: i64, coins: i64) -> (r: Option<i64>)
    ensures
        r is Some <==> i64::MIN <= spec_residual(n as nat, stake, coins) <= i64::MAX,
        r matches Some(v) ==> v == spec_residual(n as nat, stake, coins),
{
    assert(-(0xffff_ffff_ffff_ffff * 0x8000_0000_0000_0000) <= (n as int) * (stake as int)
        <= 0xffff_ffff_ffff_ffff * 0x7fff_ffff_ffff_ffff) by (nonlinear_arith)
        requires
            0 <= n <= 0xffff_ffff_ffff_ffff,
            -0x8000_0000_0000_0000 <= stake <= 0x7fff_ffff_ffff_ffff,
    ;
    let total: i128 = (n as i128) * (stake as i128);
    let left: i128 = (coins as i128) - total;
    if left < i64::MIN as i128 || left > i64::MAX as i128 {
        None
    } else {
        Some(left as i64)
    }
}

/// The text whose digest stands in a genesis block for the block before
/// it: the bytes of the word `genesis`.
pub open spec fn spec_genesis_text() -> Seq<u8> {
    seq![103u8, 101u8, 110u8, 101u8, 115u8, 105u8, 115u8]
}

/// The digest that stands in a genesis block for the block before it.
pub open spec fn spec_genesis_parent() -> Digest {
    Digest::spec_digest(spec_genesis_text())
}

/// The digest that stands in a genesis block for the block before it: the
/// digest of the word `genesis`.
pub fn genesis_parent() -> (r: Digest)
    ensures
        r == spec_genesis_parent(),
{
    let mut text: Vec<u8> = Vec::new();
    text.push(103u8);
    text.push(101u8);
    text.push(110u8);
    text.push(101u8);
    text.push(115u8);
    text.push(105u8);
    text.push(115u8);
    assert(text@ =~= spec_genesis_text());
    Digest::digest(text.as_slice())
}

/// The payment of a genesis block: what the stakes leave of the supply,
/// in the clear, to the account of the first key chain.
pub open spec fn spec_payment(keychains: Seq<KeyChain>, stake: i64, coins: i64) -> PublicPaymentOutput {
    PublicPaymentOutput {
        recipient: keychains[0].wallet_pkey,
        amount: spec_residual(keychains.len(), stake, coins) as i64,
    }
}

/// The outputs of the genesis block: the payment, and then one stake for
/// each key chain.
pub open spec fn spec_outputs(
    keychains: Seq<KeyChain>,
    stake: i64,
    coins: i64,
    active_until_epoch: u64,
) -> Seq<Output> {
    seq![Output::PublicPayment(spec_payment(keychains, stake, coins))] + Seq::new(
        keychains.len(),
        |i: int| Output::Stake(spec_stake_output(keychains[i], stake, active_until_epoch)),
    )
}

/// The table of a chain that holds the genesis block and nothing else.
pub open spec fn spec_table(
    keychains: Seq<KeyChain>,
    stake: i64,
    coins: i64,
    active_until_epoch: u64,
) -> Seq<UtxoEntry> {
    spec_apply(Seq::empty(), Seq::empty(), spec_outputs(keychains, stake, coins, active_until_epoch))
}

/// Whether a genesis block can be built: the supply covers the stakes, and
/// the stakes make a registry.
pub open spec fn spec_genesis_ok(
    keychains: Seq<KeyChain>,
    stake: i64,
    coins: i64,
    active_until_epoch: u64,
) -> bool {
    &&& 0 <= spec_residual(keychains.len(), stake, coins) <= i64::MAX
    &&& spec_escrow(spec_table(keychains, stake, coins, active_until_epoch)) matches Some(e)
        && stakers_valid(e)
}

/// The amount that an output shows in the clear; nothing for a payment
/// that hides its amount.
pub open spec fn spec_clear_amount(o: Output) -> int {
    match o {
        Output::Payment(_) => 0,
        Output::PublicPayment(p) => p.amount as int,
        Output::Stake(s) => s.amount as int,
    }
}

/// The sum of the amounts that the outputs show in the clear.
pub open spec fn spec_clear_sum(outputs: Seq<Output>) -> int
    decreases outputs.len(),
{
    if outputs.len() == 0 {
        0
    } else {
        spec_clear_sum(outputs.drop_last()) + spec_clear_amount(outputs.last())
    }
}

/// Builds the genesis block of a chain with the supply `coins`: a macro
/// block at the head of epoch 0, behind the digest of the word `genesis`,
/// with one payment and then one stake of `stake` for each key chain. The
/// payment carries what the stakes leave of the supply to the account of
/// the first key chain; the supply of a chain is no secret, so its amount
/// stands in the clear. The block names as validators the registry of the
/// escrow of its stakes: key chains that share a network key make one
/// validator, who holds their stakes together. Nothing, where the supply
/// does not cover the stakes, the stake is not positive, or the stakes sum
/// past the range.
pub fn genesis(
    keychains: &Vec<KeyChain>,
    stake: i64,
    coins: i64,
    timestamp: u64,
    random: Digest,
    active_until_epoch: u64,
) -> (r: Option<MacroBlock>)
    requires
        keychains@.len() >= 1,
    ensures
        r is Some <==> spec_genesis_ok(keychains@, stake, coins, active_until_epoch),
        r matches Some(g) ==> {
            &&& g.header == (Header {
                version: BLOCK_VERSION,
                previous: spec_genesis_parent(),
                epoch: 0,
                offset: 0,
                view: 0,
                timestamp,
                random,
            })
            &&& g.outputs@ == spec_outputs(keychains@, stake, coins, active_until_epoch)
            &&& g.signers@.len() == 0
            &&& spec_names_escrow(
                g.validators@,
                spec_table(keychains@, stake, coins, active_until_epoch),
            )
        },
{
    let left = match residual(keychains.len(), stake, coins) {
        Some(left) => left,
        None => {
            return None;
        },
    };
    if left < 0 {
        return None;
    }
    let mut outputs: Vec<Output> = Vec::new();
    outputs.push(
        Output::PublicPayment(
            PublicPaymentOutput { recipient: keychains[0].wallet_pkey, amount: left },
        ),
    );
    let mut i: usize = 0;
    while i < keychains.len()
        invariant
            0 <= i <= keychains.len(),
            outputs@.len() == i + 1,
            outputs@[0] == Output::PublicPayment(spec_payment(keychains@, stake, coins)),
            forall|k: int|
                0 <= k < i ==> #[trigger] outputs@[k + 1] == Output::Stake(
                    spec_stake_output(keychains@[k], stake, active_until_epoch),
                ),
        decreases keychains.len() - i,
    {
        let keys = keychains[i];
        outputs.push(
            Output::Stake(
                StakeOutput {
                    recipient: keys.wallet_pkey,
                    validator: keys.network_pkey,
                    amount: stake,
                    active_until_epoch,
                },
            ),
        );
        i = i + 1;
    }
    proof {
        let want = spec_outputs(keychains@, stake, coins, active_until_epoch);
        assert(outputs@.len() == want.len());
        assert forall|k: int| 0 <= k < want.len() implies outputs@[k] == want[k] by {
            if k > 0 {
                assert(outputs@[(k - 1) + 1] == want[k]);
            }
        }
        assert(outputs@ =~= want);
    }
    let table = apply(&Vec::new(), &Vec::new(), &outputs);
    let stakers = match escrow(&table) {
        None => {
            return None;
        },
        Some(stakers) => stakers,
    };
    let set = match ValidatorSet::new(stakers) {
        None => {
            return None;
        },
        Some(set) => set,
    };
    Some(
        MacroBlock {
            header: Header {
                version: BLOCK_VERSION,
                previous: genesis_parent(),
                epoch: 0,
                offset: 0,
                view: 0,
                timestamp,
                random,
            },
            signers: Vec::new(),
            validators: set.validators,
            outputs,
        },
    )
}

/// The amounts of the first outputs of a genesis block: the payment and
/// the stakes behind it.
proof fn lemma_genesis_sum(
    keychains: Seq<KeyChain>,
    stake: i64,
    coins: i64,
    active_until_epoch: u64,
    j: int,
)
    requires
        0 <= j <= keychains.len(),
    ensures
        spec_clear_sum(spec_outputs(keychains, stake, coins, active_until_epoch).take(j + 1))
            == spec_payment(keychains, stake, coins).amount + j * stake,
    decreases j,
{
    let outputs = spec_outputs(keychains, stake, coins, active_until_epoch);
    if j == 0 {
        assert(outputs.take(1).drop_last() =~= Seq::<Output>::empty());
        assert(spec_clear_sum(outputs.take(1).drop_last()) == 0);
        assert(outputs.take(1).last() == outputs[0]);
    } else {
        lemma_genesis_sum(keychains, stake, coins, active_until_epoch, j - 1);
        assert(outputs.take(j + 1).drop_last() =~= outputs.take(j));
        assert(outputs.take(j + 1).last() == outputs[j]);
        assert(outputs[j] == Output::Stake(
            spec_stake_output(keychains[j - 1], stake, active_until_epoch),
        ));
        assert((j - 1) * stake + stake == j * stake) by (nonlinear_arith);
    }
}

/// The outputs of a genesis block hold the supply: the payment and the
/// stakes sum to `coins`, and the payment goes to the account of the first
/// key chain.
pub proof fn lemma_genesis_supply(
    keychains: Seq<KeyChain>,
    stake: i64,
    coins: i64,
    active_until_epoch: u64,
)
    requires
        keychains.len() >= 1,
        spec_genesis_ok(keychains, stake, coins, active_until_epoch),
    ensures
        spec_clear_sum(spec_outputs(keychains, stake, coins, active_until_epoch)) == coins,
        spec_outputs(keychains, stake, coins, active_until_epoch)[0] == Output::PublicPayment(
            PublicPaymentOutput {
                recipient: keychains[0].wallet_pkey,
                amount: (coins - keychains.len() * stake) as i64,
            },
        ),
        forall|i: int|
            0 <= i < keychains.len() ==> #[trigger] spec_outputs(
                keychains,
                stake,
                coins,
                active_until_epoch,
            )[i + 1] == Output::Stake(spec_stake_output(keychains[i], stake, active_until_epoch)),
{
    let outputs = spec_outputs(keychains, stake, coins, active_until_epoch);
    lemma_genesis_sum(keychains, stake, coins, active_until_epoch, keychains.len() as int);
    assert(outputs.take(keychains.len() as int + 1) =~= outputs);
}

/// The outputs of a genesis block, place by place.
proof fn lemma_outputs_at(keychains: Seq<KeyChain>, stake: i64, coins: i64, active_until_epoch: u64)
    ensures
        spec_outputs(keychains, stake, coins, active_until_epoch).len() == keychains.len() + 1,
        spec_outputs(keychains, stake, coins, active_until_epoch)[0] == Output::PublicPayment(
            spec_payment(keychains, stake, coins),
        ),
        forall|i: int|
            0 <= i < keychains.len() ==> #[trigger] spec_outputs(
                keychains,
                stake,
                coins,
                active_until_epoch,
            )[i + 1] == Output::Stake(spec_stake_output(keychains[i], stake, active_until_epoch)),
{
}

/// The escrow of the first outputs of a genesis block whose key chains
/// make a registry as they stand holds their stakes, in their order.
proof fn lemma_genesis_escrow(
    keychains: Seq<KeyChain>,
    stake: i64,
    coins: i64,
    active_until_epoch: u64,
    j: int,
)
    requires
        stakers_valid(spec_stakers(keychains, stake, active_until_epoch)),
        0 <= j <= keychains.len(),
    ensures
        spec_escrow(
            spec_table(keychains, stake, coins, active_until_epoch).take(j + 1),
        ) == Some(spec_stakers(keychains, stake, active_until_epoch).take(j)),
    decreases j,
{
    let outputs = spec_outputs(keychains, stake, coins, active_until_epoch);
    let table = spec_table(keychains, stake, coins, active_until_epoch);
    let stakers = spec_stakers(keychains, stake, active_until_epoch);
    lemma_outputs_at(keychains, stake, coins, active_until_epoch);
    assert(table.len() == outputs.len());
    assert(table[j] == spec_entry(outputs[j]));
    if j == 0 {
        assert(table.take(1).drop_last() =~= Seq::<UtxoEntry>::empty());
        assert(table.take(1).last() == spec_entry(outputs[0]));
        assert(stakers.take(0) =~= Seq::<Validator>::empty());
        assert(spec_escrow(Seq::<UtxoEntry>::empty()) == Some(Seq::<Validator>::empty()));
        assert(spec_entry(outputs[0]).staker is None);
    } else {
        lemma_genesis_escrow(keychains, stake, coins, active_until_epoch, j - 1);
        assert(table.take(j + 1).drop_last() =~= table.take(j));
        assert(table.take(j + 1).last() == spec_entry(outputs[j]));
        assert(outputs[(j - 1) + 1] == Output::Stake(
            spec_stake_output(keychains[j - 1], stake, active_until_epoch),
        ));
        let v = stakers[j - 1];
        assert(v.stake > 0);
        assert(crate::escrow::spec_staker(outputs[j]) == Some(v));
        assert(spec_entry(outputs[j]).staker == Some(v));
        assert(!spec_entry(outputs[j]).spent);
        assert(spec_escrow(table.take(j)) == Some(stakers.take(j - 1)));
        assert forall|k: int| 0 <= k < stakers.take(j - 1).len() implies (
        #[trigger] stakers.take(j - 1)[k]).network_pkey != v.network_pkey by {
            assert(stakers.take(j - 1)[k] == stakers[k]);
        }
        lemma_escrow_add_absent(stakers.take(j - 1), v);
        assert(stakers.take(j - 1).push(v) =~= stakers.take(j));
    }
}

/// Where no two key chains share a network key, the stake is positive and
/// the stakes sum within the range, the escrow of the genesis block holds
/// one validator for each key chain, with the one stake: the block is
/// built whenever the supply covers the stakes.
pub proof fn lemma_genesis_stakers(
    keychains: Seq<KeyChain>,
    stake: i64,
    coins: i64,
    active_until_epoch: u64,
)
    requires
        stakers_valid(spec_stakers(keychains, stake, active_until_epoch)),
    ensures
        spec_escrow(spec_table(keychains, stake, coins, active_until_epoch)) == Some(
            spec_stakers(keychains, stake, active_until_epoch),
        ),
        spec_genesis_ok(keychains, stake, coins, active_until_epoch) <==> 0 <= spec_residual(
            keychains.len(),
            stake,
            coins,
        ) <= i64::MAX,
{
    let table = spec_table(keychains, stake, coins, active_until_epoch);
    let stakers = spec_stakers(keychains, stake, active_until_epoch);
    lemma_genesis_escrow(keychains, stake, coins, active_until_epoch, keychains.len() as int);
    assert(table.take(keychains.len() as int + 1) =~= table);
    assert(stakers.take(keychains.len() as int) =~= stakers);
}

/// A genesis block as `genesis` builds it opens a chain, unless two of
/// its outputs share a digest.
pub proof fn lemma_genesis_opens(
    g: MacroBlock,
    keychains: Seq<KeyChain>,
    stake: i64,
    coins: i64,
    active_until_epoch: u64,
    blocks_in_epoch: u32,
)
    requires
        blocks_in_epoch >= 1,
        g.header.version == BLOCK_VERSION,
        g.header.offset == 0,
        g.outputs@ == spec_outputs(keychains, stake, coins, active_until_epoch),
        spec_names_escrow(g.validators@, spec_table(keychains, stake, coins, active_until_epoch)),
        spec_output_ids(g.outputs@).no_duplicates(),
    ensures
        spec_check_genesis(g, blocks_in_epoch) is Ok,
{
}

} // verus!
