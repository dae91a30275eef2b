//! The chain loader: how a node that has fallen behind pulls blocks from a
//! peer, and how a peer serves them.

use vstd::prelude::*;
use crate::block::{Block, Header};
use crate::chain::{ChainState, Verdicts};
use crate::config::NodeConfig;

verus! {

/// The request of a node that is behind: the blocks from a place on, of at
/// most `max` epochs.
#[derive(Clone, Copy, Debug, PartialEq, Eq, Structural)]
pub struct GetBlocks {
    pub from_epoch: u64,
    pub from_offset: u32,
    pub max: u64,
}

/// Whether a header stands before a place in the chain.
pub open spec fn spec_before(h: Header, epoch: int, offset: int) -> bool {
    h.epoch < epoch || (h.epoch == epoch && h.offset < offset)
}

/// How many blocks from the front stand before the place.
pub open spec fn spec_lead(blocks: Seq<Block>, epoch: int, offset: int) -> int
    decreases blocks.len(),
{
    if blocks.len() == 0 || !spec_before(blocks[0].spec_header(), epoch, offset) {
        0
    } else {
        1 + spec_lead(blocks.drop_first(), epoch, offset)
    }
}

/// The place behind the tip: where the next block stands.
pub open spec fn spec_next_place(tip: Header, blocks_in_epoch: u32) -> (int, int) {
    if tip.offset + 1 < blocks_in_epoch {
        (tip.epoch as int, tip.offset + 1)
    } else {
        (tip.epoch + 1, 0)
    }
}

/// The epochs that one answer holds at most: what the request asks for,
/// within what the peer allows.
pub open spec fn spec_window(request: GetBlocks, cfg: NodeConfig) -> u64 {
    if request.max <= cfg.loader_speed_in_epoch {
        request.max
    } else {
        cfg.loader_speed_in_epoch
    }
}

/// Whether a block with this header shows that the node is behind: it
/// stands at a place past the one that the node expects.
pub fn is_behind(chain: &ChainState, header: &Header) -> (r: bool)
    ensures
        r == {
            let (e, o) = spec_next_place(chain.tip, chain.blocks_in_epoch);
            header.epoch > e || (header.epoch == e && header.offset > o)
        },
{
    let tip = &chain.tip;
    if tip.offset < chain.blocks_in_epoch && tip.offset + 1 < chain.blocks_in_epoch {
        header.epoch > tip.epoch || (header.epoch == tip.epoch && header.offset > tip.offset + 1)
    } else if tip.epoch == u64::MAX {
        false
    } else {
        header.epoch > tip.epoch + 1 || (header.epoch == tip.epoch + 1 && header.offset > 0)
    }
}

/// The request of a node that is behind: the blocks from the place behind
/// its tip on. Nothing, at the end of the epochs that can be counted.
pub fn request(chain: &ChainState, cfg: &NodeConfig) -> (r: Option<GetBlocks>)
    ensures
        r is None <==> !(chain.tip.offset + 1 < chain.blocks_in_epoch) && chain.tip.epoch == u64::MAX,
        r matches Some(q) ==> (q.from_epoch as int, q.from_offset as int) == spec_next_place(
            chain.tip,
            chain.blocks_in_epoch,
        ) && q.max == cfg.loader_speed_in_epoch,
{
    let tip = &chain.tip;
    if tip.offset < chain.blocks_in_epoch && tip.offset + 1 < chain.blocks_in_epoch {
        Some(
            GetBlocks {
                from_epoch: tip.epoch,
                from_offset: tip.offset + 1,
                max: cfg.loader_speed_in_epoch,
            },
        )
    } else if tip.epoch == u64::MAX {
        None
    } else {
        Some(
            GetBlocks { from_epoch: tip.epoch + 1, from_offset: 0, max: cfg.loader_speed_in_epoch },
        )
    }
}

/// How many blocks from the front stand before the place.
pub fn lead(blocks: &Vec<Block>, epoch: u64, offset: u32, past_all: bool) -> (r: usize)
    ensures
        !past_all ==> r == spec_lead(blocks@, epoch as int, offset as int),
        past_all ==> r == spec_lead(blocks@, u64::MAX + 1, 0),
        r <= blocks@.len(),
{
    let mut i: usize = 0;
    let ghost e = if past_all { u64::MAX + 1 } else { epoch as int };
    let ghost o = if past_all { 0 } else { offset as int };
    proof {
        assert(blocks@.skip(0) =~= blocks@);
    }
    while i < blocks.len()
        invariant
            0 <= i <= blocks.len(),
            e == if past_all { u64::MAX + 1 } else { epoch as int },
            o == if past_all { 0 } else { offset as int },
            spec_lead(blocks@, e, o) == i + spec_lead(blocks@.skip(i as int), e, o),
        decreases blocks.len() - i,
    {
        let h = blocks[i].header();
        proof {
            assert(blocks@.skip(i as int)[0] == blocks@[i as int]);
            assert(blocks@.skip(i as int).drop_first() =~= blocks@.skip(i + 1));
        }
        let before = past_all || h.epoch < epoch || (h.epoch == epoch && h.offset < offset);
        if !before {
            return i;
        }
        i = i + 1;
    }
    i
}

/// Serves a request: the places in the chain of the first and behind the
/// last block of the answer. The answer begins with the first block at or
/// behind the place asked for, and holds the blocks of as many epochs as
/// the window allows.
pub fn serve(chain: &ChainState, request: &GetBlocks, cfg: &NodeConfig) -> (r: (usize, usize))
    ensures
        r.0 == spec_lead(chain.blocks@, request.from_epoch as int, request.from_offset as int),
        r.1 == spec_lead(
            chain.blocks@,
            request.from_epoch + spec_window(*request, *cfg),
            0,
        ) || (request.from_epoch + spec_window(*request, *cfg) > u64::MAX && r.1 == spec_lead(
            chain.blocks@,
            u64::MAX + 1,
            0,
        )),
        r.0 <= chain.blocks@.len(),
        r.1 <= chain.blocks@.len(),
{
    let window = if request.max <= cfg.loader_speed_in_epoch {
        request.max
    } else {
        cfg.loader_speed_in_epoch
    };
    let start = lead(&chain.blocks, request.from_epoch, request.from_offset, false);
    let end = if window > u64::MAX - request.from_epoch {
        lead(&chain.blocks, 0, 0, true)
    } else {
        lead(&chain.blocks, request.from_epoch + window, 0, false)
    };
    (start, end)
}

/// Takes the blocks of an answer into the chain, in their order and under
/// the rules of live blocks, up to the first that the chain refuses. Says
/// how many went in: each of them passed the checks on the chain as the
/// blocks before it had left it.
pub fn receive(chain: &mut ChainState, blocks: Vec<Block>, verdicts: &Vec<Verdicts>) -> (r: usize)
    requires
        old(chain).wf(),
        verdicts@.len() == blocks@.len(),
    ensures
        final(chain).wf(),
        r <= blocks@.len(),
        final(chain).blocks@ == old(chain).blocks@ + blocks@.take(r as int),
        final(chain).blocks_in_epoch == old(chain).blocks_in_epoch,
        final(chain).model() == old(chain).model().extend(blocks@.take(r as int)),
        forall|k: int|
            0 <= k < r ==> (#[trigger] old(chain).model().extend(blocks@.take(k))).check(
                blocks@[k],
                verdicts@[k],
            ) is Ok,
        r < blocks@.len() ==> final(chain).spec_check(blocks@[r as int], verdicts@[r as int]) is Err,
{
    let ghost all = blocks@;
    let n = blocks.len();
    let mut rest = blocks;
    let mut i: usize = 0;
    assert(all.take(0) =~= Seq::<Block>::empty());
    assert(chain.blocks@ + Seq::<Block>::empty() =~= chain.blocks@);
    assert(all.skip(0) =~= all);
    while i < n
        invariant
            0 <= i <= n == all.len(),
            all == blocks@,
            verdicts@.len() == n,
            chain.wf(),
            rest@ == all.skip(i as int),
            chain.blocks@ == old(chain).blocks@ + all.take(i as int),
            chain.blocks_in_epoch == old(chain).blocks_in_epoch,
            chain.model() == old(chain).model().extend(all.take(i as int)),
            forall|k: int|
                0 <= k < i ==> (#[trigger] old(chain).model().extend(all.take(k))).check(
                    all[k],
                    verdicts@[k],
                ) is Ok,
        decreases n - i,
    {
        let block = rest.remove(0);
        proof {
            assert(block == all[i as int]);
            assert(rest@ =~= all.skip(i + 1));
            assert(all.take(i + 1).drop_last() =~= all.take(i as int));
        }
        match chain.try_append(block, &verdicts[i]) {
            Err(_) => {
                return i;
            },
            Ok(()) => {
                proof {
                    assert(all.take(i + 1) =~= all.take(i as int).push(all[i as int]));
                    assert(chain.blocks@ =~= old(chain).blocks@ + all.take(i + 1));
                }
            },
        }
        i = i + 1;
    }
    i
}

} // verus!
