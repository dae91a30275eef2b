//! Why two nodes cannot seal different blocks at one height, as long as
//! validators with a third of the stake or less break the rules.

use vstd::prelude::*;
use crate::block::Block;
use crate::chain::{ChainState, spec_link_ok, spec_quorum, spec_registries_ok, spec_registry};
use crate::validators::{
    Validator, lemma_quorum_threshold, lemma_signed_stake_bounds, lemma_stake_le, marked,
    spec_signed_stake, spec_total_stake, stakes_positive,
};

verus! {

/// The stake behind two sets of validators is the stake behind those in
/// both and the stake behind those in either.
pub proof fn lemma_stake_union(
    vs: Seq<Validator>,
    a: Seq<bool>,
    b: Seq<bool>,
    both: Seq<bool>,
    either: Seq<bool>,
)
    requires
        forall|i: int| 0 <= i < vs.len() ==> marked(both, i) == (marked(a, i) && marked(b, i)),
        forall|i: int| 0 <= i < vs.len() ==> marked(either, i) == (marked(a, i) || marked(b, i)),
    ensures
        spec_signed_stake(vs, a) + spec_signed_stake(vs, b) == spec_signed_stake(vs, both)
            + spec_signed_stake(vs, either),
    decreases vs.len(),
{
    if vs.len() > 0 {
        lemma_stake_union(vs.drop_last(), a, b, both, either);
        let k = vs.len() - 1;
        assert(marked(both, k) == (marked(a, k) && marked(b, k)));
        assert(marked(either, k) == (marked(a, k) || marked(b, k)));
    }
}

/// The validators marked in both lists.
pub open spec fn spec_both(n: nat, a: Seq<bool>, b: Seq<bool>) -> Seq<bool> {
    Seq::new(n, |i: int| marked(a, i) && marked(b, i))
}

/// The validators marked in one list or the other.
pub open spec fn spec_either(n: nat, a: Seq<bool>, b: Seq<bool>) -> Seq<bool> {
    Seq::new(n, |i: int| marked(a, i) || marked(b, i))
}

/// Two quorums overlap in more than a third of the stake.
pub proof fn lemma_quorum_intersection(vs: Seq<Validator>, a: Seq<bool>, b: Seq<bool>)
    requires
        stakes_positive(vs),
        spec_quorum(vs, a),
        spec_quorum(vs, b),
    ensures
        3 * spec_signed_stake(vs, spec_both(vs.len(), a, b)) > spec_total_stake(vs),
{
    let both = spec_both(vs.len(), a, b);
    let either = spec_either(vs.len(), a, b);
    lemma_stake_union(vs, a, b, both, either);
    lemma_signed_stake_bounds(vs, either);
    lemma_signed_stake_bounds(vs, a);
    lemma_quorum_threshold(spec_total_stake(vs));
}

/// Where validators with a third of the stake or less are faulty, two
/// quorums share a validator that is not.
pub proof fn lemma_quorums_share_honest(
    vs: Seq<Validator>,
    a: Seq<bool>,
    b: Seq<bool>,
    faulty: Seq<bool>,
) -> (v: int)
    requires
        stakes_positive(vs),
        spec_quorum(vs, a),
        spec_quorum(vs, b),
        3 * spec_signed_stake(vs, faulty) <= spec_total_stake(vs),
    ensures
        0 <= v < vs.len(),
        marked(a, v),
        marked(b, v),
        !marked(faulty, v),
{
    let both = spec_both(vs.len(), a, b);
    lemma_quorum_intersection(vs, a, b);
    if forall|i: int| 0 <= i < vs.len() && marked(both, i) ==> marked(faulty, i) {
        lemma_stake_le(vs, both, faulty);
        assert(false);
    }
    let v = choose|i: int| 0 <= i < vs.len() && marked(both, i) && !marked(faulty, i);
    v
}

/// Whether each macro block of the list but the first carries the
/// signatures of a quorum of the validators that the block before it names.
pub open spec fn certified(macros: Seq<Block>) -> bool {
    forall|i: int|
        1 <= i < macros.len() ==> spec_quorum(
            macros[i - 1].spec_validators(),
            #[trigger] macros[i].spec_signers(),
        )
}

/// Whether the validators that each macro block names have positive stakes.
pub open spec fn registries_valid(macros: Seq<Block>) -> bool {
    forall|i: int| 0 <= i < macros.len() ==> stakes_positive(#[trigger] macros[i].spec_validators())
}

/// Whether no validator outside `faulty` signed two different blocks for
/// one place of the two lists.
pub open spec fn honest_sign_once(x: Seq<Block>, y: Seq<Block>, faulty: spec_fn(int) -> Seq<bool>) -> bool {
    forall|i: int, v: int|
        1 <= i < x.len() && i < y.len() && !marked(faulty(i), v) && #[trigger] marked(
            x[i].spec_signers(),
            v,
        ) && #[trigger] marked(y[i].spec_signers(), v) ==> x[i] == y[i]
}

/// Whether at each place the faulty validators hold a third or less of the
/// stake of the validators in force.
pub open spec fn faulty_minority(x: Seq<Block>, faulty: spec_fn(int) -> Seq<bool>) -> bool {
    forall|i: int|
        1 <= i < x.len() ==> 3 * spec_signed_stake(x[i - 1].spec_validators(), #[trigger] faulty(i))
            <= spec_total_stake(x[i - 1].spec_validators())
}

/// Safety. Take the macro blocks that two nodes have committed, both
/// starting from one genesis block. Let each block carry a quorum of the
/// validators named by the block before it, let validators with at most a
/// third of the stake be faulty at each height, and let the others sign at
/// most one block for a height. Then the two nodes agree on every height
/// that both have reached: one list is the beginning of the other.
pub proof fn lemma_safety(x: Seq<Block>, y: Seq<Block>, faulty: spec_fn(int) -> Seq<bool>)
    requires
        x.len() > 0,
        y.len() > 0,
        x[0] == y[0],
        certified(x),
        certified(y),
        registries_valid(x),
        honest_sign_once(x, y, faulty),
        faulty_minority(x, faulty),
    ensures
        x.is_prefix_of(y) || y.is_prefix_of(x),
{
    let n = if x.len() <= y.len() {
        x.len() as int
    } else {
        y.len() as int
    };
    lemma_agree_upto(x, y, faulty, n);
    if x.len() <= y.len() {
        assert(x =~= y.subrange(0, x.len() as int));
    } else {
        assert(y =~= x.subrange(0, y.len() as int));
    }
}

/// The two lists agree on their first `n` blocks.
proof fn lemma_agree_upto(x: Seq<Block>, y: Seq<Block>, faulty: spec_fn(int) -> Seq<bool>, n: int)
    requires
        1 <= n <= x.len(),
        n <= y.len(),
        x[0] == y[0],
        certified(x),
        certified(y),
        registries_valid(x),
        honest_sign_once(x, y, faulty),
        faulty_minority(x, faulty),
    ensures
        forall|i: int| 0 <= i < n ==> x[i] == y[i],
    decreases n,
{
    if n > 1 {
        lemma_agree_upto(x, y, faulty, n - 1);
        let i = n - 1;
        let vs = x[i - 1].spec_validators();
        assert(x[i - 1] == y[i - 1]);
        assert(stakes_positive(x[i - 1].spec_validators()));
        assert(spec_quorum(vs, x[i].spec_signers()));
        assert(spec_quorum(vs, y[i].spec_signers()));
        let v = lemma_quorums_share_honest(vs, x[i].spec_signers(), y[i].spec_signers(), faulty(i));
        assert(marked(x[i].spec_signers(), v) && marked(y[i].spec_signers(), v));
    }
}

/// The macro blocks among the blocks, in their order.
pub open spec fn spec_macros(blocks: Seq<Block>) -> Seq<Block>
    decreases blocks.len(),
{
    if blocks.len() == 0 {
        Seq::empty()
    } else if blocks.last() is Macro {
        spec_macros(blocks.drop_last()).push(blocks.last())
    } else {
        spec_macros(blocks.drop_last())
    }
}

/// The macro blocks of a chain state are certified: each but the first
/// carries a quorum of the validators named by the macro block before it.
pub proof fn lemma_chain_certified(chain: ChainState)
    requires
        chain.wf(),
    ensures
        certified(spec_macros(chain.blocks@)),
        spec_macros(chain.blocks@).len() > 0,
        spec_macros(chain.blocks@)[0] == chain.blocks@[0],
{
    lemma_prefix_certified(chain.blocks@, chain.blocks_in_epoch, chain.blocks@.len() as int);
    assert(chain.blocks@.take(chain.blocks@.len() as int) =~= chain.blocks@);
}

/// The macro blocks among the first `n` blocks of a linked chain are
/// certified, and the last of them names the validators in force.
proof fn lemma_prefix_certified(blocks: Seq<Block>, blocks_in_epoch: u32, n: int)
    requires
        1 <= n <= blocks.len(),
        blocks[0] is Macro,
        forall|i: int| 1 <= i < blocks.len() ==> #[trigger] spec_link_ok(blocks, i, blocks_in_epoch),
    ensures
        certified(spec_macros(blocks.take(n))),
        spec_macros(blocks.take(n)).len() > 0,
        spec_macros(blocks.take(n))[0] == blocks[0],
        spec_macros(blocks.take(n)).last().spec_validators() == spec_registry(blocks.take(n)),
    decreases n,
{
    let t = blocks.take(n);
    if n == 1 {
        assert(t.drop_last() =~= Seq::<Block>::empty());
        assert(t.last() == blocks[0]);
        assert(spec_macros(t.drop_last()) =~= Seq::<Block>::empty());
        assert(spec_macros(t) =~= Seq::<Block>::empty().push(blocks[0]));
        assert(spec_registry(t) == blocks[0].spec_validators());
    } else {
        lemma_prefix_certified(blocks, blocks_in_epoch, n - 1);
        let p = blocks.take(n - 1);
        assert(t.drop_last() =~= p);
        assert(t.last() == blocks[n - 1]);
        let mp = spec_macros(p);
        if blocks[n - 1] is Macro {
            let m = spec_macros(t);
            assert(m == mp.push(blocks[n - 1]));
            assert(spec_link_ok(blocks, n - 1, blocks_in_epoch));
            assert forall|i: int| 1 <= i < m.len() implies spec_quorum(
                m[i - 1].spec_validators(),
                #[trigger] m[i].spec_signers(),
            ) by {
                if i < mp.len() {
                    assert(m[i] == mp[i] && m[i - 1] == mp[i - 1]);
                    assert(spec_quorum(mp[i - 1].spec_validators(), mp[i].spec_signers()));
                } else {
                    assert(m[i] == blocks[n - 1]);
                    assert(m[i - 1] == mp.last());
                }
            }
            assert(m[0] == mp[0]);
        }
    }
}

/// The macro blocks among blocks whose macro blocks name validators with
/// positive stakes name such validators.
proof fn lemma_macros_valid(blocks: Seq<Block>)
    requires
        spec_registries_ok(blocks),
    ensures
        registries_valid(spec_macros(blocks)),
    decreases blocks.len(),
{
    if blocks.len() > 0 {
        let d = blocks.drop_last();
        assert forall|i: int| 0 <= i < d.len() && d[i] is Macro implies stakes_positive(
            #[trigger] d[i].spec_validators(),
        ) by {
            assert(d[i] == blocks[i]);
        }
        lemma_macros_valid(d);
        let m = spec_macros(blocks);
        let md = spec_macros(d);
        assert forall|i: int| 0 <= i < m.len() implies stakes_positive(
            #[trigger] m[i].spec_validators(),
        ) by {
            if i < md.len() {
                assert(m[i] == md[i]);
            } else {
                assert(m[i] == blocks[blocks.len() - 1]);
            }
        }
    }
}

/// Safety of the chains of two nodes. Let two chain states start from one
/// genesis block, let validators with at most a third of the stake be
/// faulty at each height, and let the others sign at most one macro block
/// for a height. Then of the macro blocks that the two nodes have
/// committed, one list is the beginning of the other.
pub proof fn lemma_chains_safe(a: ChainState, b: ChainState, faulty: spec_fn(int) -> Seq<bool>)
    requires
        a.wf(),
        b.wf(),
        a.blocks@[0] == b.blocks@[0],
        honest_sign_once(spec_macros(a.blocks@), spec_macros(b.blocks@), faulty),
        faulty_minority(spec_macros(a.blocks@), faulty),
    ensures
        spec_macros(a.blocks@).is_prefix_of(spec_macros(b.blocks@)) || spec_macros(
            b.blocks@,
        ).is_prefix_of(spec_macros(a.blocks@)),
{
    lemma_chain_certified(a);
    lemma_chain_certified(b);
    lemma_macros_valid(a.blocks@);
    lemma_safety(spec_macros(a.blocks@), spec_macros(b.blocks@), faulty);
}

} // verus!
