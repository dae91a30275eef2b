//! The validator registry: the weighted, ordered list of validators of an
//! epoch, the quorum rule, and the stake-weighted choice of a leader.

use vstd::prelude::*;
use crate::digest::{Digest, PublicKey, write_u64_be, be_bytes};

verus! {

broadcast use vstd::seq_lib::group_to_multiset_ensures;

/// A validator of an epoch.
#[derive(Clone, Copy, Debug, PartialEq, Eq, Structural)]
pub struct Validator {
    /// The key that the validator signs consensus messages with.
    pub network_pkey: PublicKey,
    /// The stake that the validator has in escrow.
    pub stake: i64,
    /// The last epoch in which this stake counts.
    pub active_until_epoch: u64,
}

/// The order of a validator list: larger stake first, and among equal stakes
/// the smaller key first.
pub open spec fn validator_before(a: Validator, b: Validator) -> bool {
    a.stake > b.stake || (a.stake == b.stake && a.network_pkey.spec_lt(b.network_pkey))
}

/// The sum of the stakes of a list of validators.
pub open spec fn spec_total_stake(vs: Seq<Validator>) -> int
    decreases vs.len(),
{
    if vs.len() == 0 {
        0
    } else {
        spec_total_stake(vs.drop_last()) + vs.last().stake
    }
}

/// The stake with which a vote carries: `ceil(2 * total / 3) + 1`.
pub open spec fn spec_quorum_threshold(total: int) -> int {
    (2 * total + 2) / 3 + 1
}

/// The sum of the stakes of those validators whose place in `signers` holds
/// `true`. Places past the end of either list count for nothing.
pub open spec fn spec_signed_stake(vs: Seq<Validator>, signers: Seq<bool>) -> int
    decreases vs.len(),
{
    if vs.len() == 0 {
        0
    } else {
        spec_signed_stake(vs.drop_last(), signers) + if vs.len() <= signers.len() && signers[vs.len()
            - 1] {
            vs.last().stake as int
        } else {
            0
        }
    }
}

/// The place of the validator whose share of the line `[0, total)` holds
/// `point`, where the shares lie on the line in the order of the list and
/// each is as long as the validator's stake.
pub open spec fn spec_pick(vs: Seq<Validator>, point: int) -> int
    decreases vs.len(),
{
    if vs.len() <= 1 {
        0
    } else if point < spec_total_stake(vs.drop_last()) {
        spec_pick(vs.drop_last(), point)
    } else {
        vs.len() - 1
    }
}

/// The bytes that are hashed to draw the leader of a view: the seed of the
/// epoch, then the view.
pub open spec fn spec_lottery_input(seed: Digest, view: u32) -> Seq<u8> {
    seed.spec_bytes() + be_bytes(view as u64)
}

/// The point on the line `[0, total)` that the seed of the epoch and the
/// view draw.
pub open spec fn spec_lottery_point(seed: Digest, view: u32, total: int) -> int
    recommends
        total > 0,
{
    Digest::spec_digest(spec_lottery_input(seed, view)).w0 as int % total
}

/// The place in `vs` of the leader of `view`.
pub open spec fn spec_leader_index(vs: Seq<Validator>, seed: Digest, view: u32) -> int {
    spec_pick(vs, spec_lottery_point(seed, view, spec_total_stake(vs)))
}

/// Whether every stake in the list is positive.
pub open spec fn stakes_positive(vs: Seq<Validator>) -> bool {
    forall|i: int| 0 <= i < vs.len() ==> (#[trigger] vs[i]).stake > 0
}

/// Whether no key names two validators of the list.
pub open spec fn keys_distinct(vs: Seq<Validator>) -> bool {
    forall|i: int, j: int|
        0 <= i < vs.len() && 0 <= j < vs.len() && i != j ==> (#[trigger] vs[i]).network_pkey != (
        #[trigger] vs[j]).network_pkey
}

/// Whether the list is in the order of `validator_before`.
pub open spec fn validators_sorted(vs: Seq<Validator>) -> bool {
    forall|i: int, j: int|
        0 <= i < j < vs.len() ==> validator_before(#[trigger] vs[i], #[trigger] vs[j])
}

/// What a list of stakers must meet to become the validators of an epoch.
pub open spec fn stakers_valid(vs: Seq<Validator>) -> bool {
    &&& vs.len() > 0
    &&& stakes_positive(vs)
    &&& keys_distinct(vs)
    &&& spec_total_stake(vs) <= i64::MAX
}

/// The sum of the stakes with one more validator behind the others.
pub proof fn lemma_total_stake_push(vs: Seq<Validator>, v: Validator)
    ensures
        spec_total_stake(vs.push(v)) == spec_total_stake(vs) + v.stake,
{
    assert(vs.push(v).drop_last() =~= vs);
}

/// The sum of the stakes with one more validator at a place.
pub proof fn lemma_total_stake_insert(vs: Seq<Validator>, p: int, v: Validator)
    requires
        0 <= p <= vs.len(),
    ensures
        spec_total_stake(vs.insert(p, v)) == spec_total_stake(vs) + v.stake,
    decreases vs.len(),
{
    if p == vs.len() {
        assert(vs.insert(p, v) =~= vs.push(v));
        lemma_total_stake_push(vs, v);
    } else {
        assert(vs.insert(p, v).drop_last() =~= vs.drop_last().insert(p, v));
        assert(vs.insert(p, v).last() == vs.last());
        lemma_total_stake_insert(vs.drop_last(), p, v);
    }
}

/// With positive stakes the sum over a prefix grows with the prefix.
pub proof fn lemma_total_stake_prefix(vs: Seq<Validator>, i: int, j: int)
    requires
        stakes_positive(vs),
        0 <= i <= j <= vs.len(),
    ensures
        0 <= spec_total_stake(vs.take(i)) <= spec_total_stake(vs.take(j)),
        i < j ==> spec_total_stake(vs.take(i)) < spec_total_stake(vs.take(j)),
    decreases j,
{
    if j == 0 {
        assert(vs.take(0) =~= Seq::<Validator>::empty());
    } else if i == j {
        lemma_total_stake_prefix(vs, 0, j - 1);
        assert(vs.take(j).drop_last() =~= vs.take(j - 1));
    } else {
        lemma_total_stake_prefix(vs, i, j - 1);
        assert(vs.take(j).drop_last() =~= vs.take(j - 1));
        assert(vs.take(j).last() == vs[j - 1]);
    }
}

/// The validator picked for a point is the one whose share holds the point.
pub proof fn lemma_pick_covers(vs: Seq<Validator>, point: int)
    requires
        stakes_positive(vs),
        0 <= point < spec_total_stake(vs),
    ensures
        0 <= spec_pick(vs, point) < vs.len(),
        spec_total_stake(vs.take(spec_pick(vs, point))) <= point < spec_total_stake(
            vs.take(spec_pick(vs, point) + 1),
        ),
    decreases vs.len(),
{
    if vs.len() == 0 {
    } else if vs.len() == 1 {
        assert(vs.take(0) =~= Seq::<Validator>::empty());
        assert(vs.take(1) =~= vs);
    } else if point < spec_total_stake(vs.drop_last()) {
        let d = vs.drop_last();
        lemma_pick_covers(d, point);
        let k = spec_pick(d, point);
        assert(d.take(k) =~= vs.take(k));
        assert(d.take(k + 1) =~= vs.take(k + 1));
    } else {
        assert(vs.take(vs.len() - 1) =~= vs.drop_last());
        assert(vs.take(vs.len() as int) =~= vs);
    }
}

/// No other validator's share holds the point.
pub proof fn lemma_pick_unique(vs: Seq<Validator>, point: int, k: int)
    requires
        stakes_positive(vs),
        0 <= k < vs.len(),
        spec_total_stake(vs.take(k)) <= point < spec_total_stake(vs.take(k + 1)),
    ensures
        spec_pick(vs, point) == k,
    decreases vs.len(),
{
    if vs.len() <= 1 {
    } else {
        let d = vs.drop_last();
        assert(vs.take(vs.len() - 1) =~= d);
        if k == vs.len() - 1 {
        } else {
            lemma_total_stake_prefix(vs, k + 1, vs.len() - 1);
            assert(d.take(k) =~= vs.take(k));
            assert(d.take(k + 1) =~= vs.take(k + 1));
            lemma_pick_unique(d, point, k);
        }
    }
}

/// The stake behind some validators is no more than the stake of all.
pub proof fn lemma_signed_stake_bounds(vs: Seq<Validator>, signers: Seq<bool>)
    requires
        stakes_positive(vs),
    ensures
        0 <= spec_signed_stake(vs, signers) <= spec_total_stake(vs),
    decreases vs.len(),
{
    if vs.len() > 0 {
        lemma_signed_stake_bounds(vs.drop_last(), signers);
    }
}

/// Whether place `i` of the list is marked.
pub open spec fn marked(s: Seq<bool>, i: int) -> bool {
    0 <= i < s.len() && s[i]
}

/// Where every validator marked in `a` is marked in `b`, there is no more
/// stake behind `a` than behind `b`.
pub proof fn lemma_stake_le(vs: Seq<Validator>, a: Seq<bool>, b: Seq<bool>)
    requires
        stakes_positive(vs),
        forall|i: int| 0 <= i < vs.len() && marked(a, i) ==> marked(b, i),
    ensures
        spec_signed_stake(vs, a) <= spec_signed_stake(vs, b),
    decreases vs.len(),
{
    if vs.len() > 0 {
        let d = vs.drop_last();
        assert forall|i: int| 0 <= i < d.len() implies (#[trigger] d[i]).stake > 0 by {
            assert(d[i] == vs[i]);
        }
        lemma_stake_le(d, a, b);
        assert(vs.last() == vs[vs.len() - 1]);
        assert(marked(a, vs.len() - 1) ==> marked(b, vs.len() - 1));
    }
}

/// The threshold computed without leaving the range of the stake type.
pub proof fn lemma_quorum_threshold(total: int)
    requires
        total >= 0,
    ensures
        spec_quorum_threshold(total) == total - total / 3 + 1,
        total >= 3 ==> spec_quorum_threshold(total) <= total,
        3 * spec_quorum_threshold(total) > 2 * total,
{
}

/// The stake with which a vote carries.
pub fn quorum_threshold(total: i64) -> (r: i64)
    requires
        0 <= total,
    ensures
        r == spec_quorum_threshold(total as int),
{
    proof {
        lemma_quorum_threshold(total as int);
    }
    total - total / 3 + 1
}

/// The validators of an epoch, in the order of the registry.
#[derive(Clone, Debug)]
pub struct ValidatorSet {
    pub validators: Vec<Validator>,
    pub total_stake: i64,
}

impl View for ValidatorSet {
    type V = Seq<Validator>;

    open spec fn view(&self) -> Seq<Validator> {
        self.validators@
    }
}

impl ValidatorSet {
    /// What holds of every registry: it is not empty, its stakes are
    /// positive, no key occurs twice, it is in order, and `total_stake` is
    /// the sum of its stakes.
    pub open spec fn wf(&self) -> bool {
        &&& self@.len() > 0
        &&& stakes_positive(self@)
        &&& keys_distinct(self@)
        &&& validators_sorted(self@)
        &&& self.total_stake == spec_total_stake(self@)
    }

    /// The key of the leader of `view` under `seed`.
    pub open spec fn spec_leader(&self, seed: Digest, view: u32) -> PublicKey {
        self@[spec_leader_index(self@, seed, view)].network_pkey
    }

    /// The place of the validator with key `pkey`, if there is one.
    pub open spec fn spec_index_of(&self, pkey: PublicKey) -> Option<int> {
        if exists|i: int| 0 <= i < self@.len() && (#[trigger] self@[i]).network_pkey == pkey {
            Some(choose|i: int| 0 <= i < self@.len() && (#[trigger] self@[i]).network_pkey == pkey)
        } else {
            None
        }
    }

    /// Builds the registry of an epoch from the stakers in escrow: the same
    /// validators, ordered by stake, larger first, and by key among equals.
    /// A list that is empty, holds a stake that is not positive or a key
    /// twice, or whose stakes sum past the range of the stake type, is
    /// refused.
    pub fn new(stakers: Vec<Validator>) -> (r: Option<ValidatorSet>)
        ensures
            r is Some <==> stakers_valid(stakers@),
            r matches Some(set) ==> set.wf() && set@.to_multiset() == stakers@.to_multiset(),
    {
        if stakers.len() == 0 {
            return None;
        }
        let mut out: Vec<Validator> = Vec::new();
        let mut total: i64 = 0;
        let mut i: usize = 0;
        proof {
            assert(stakers@.take(0) =~= Seq::<Validator>::empty());
        }
        while i < stakers.len()
            invariant
                0 <= i <= stakers.len(),
                stakers.len() > 0,
                out@.len() == i,
                out@.to_multiset() == stakers@.take(i as int).to_multiset(),
                stakes_positive(out@),
                stakes_positive(stakers@.take(i as int)),
                keys_distinct(out@),
                keys_distinct(stakers@.take(i as int)),
                validators_sorted(out@),
                total == spec_total_stake(out@),
                total == spec_total_stake(stakers@.take(i as int)),
                0 <= total,
            decreases stakers.len() - i,
        {
            let v = stakers[i];
            let ghost prefix = stakers@.take(i as int);
            let ghost next = stakers@.take(i + 1);
            proof {
                assert(next =~= prefix.push(v));
                assert(next.drop_last() =~= prefix);
            }
            if v.stake <= 0 {
                proof {
                    assert(!stakes_positive(stakers@));
                }
                return None;
            }
            if v.stake > i64::MAX - total {
                proof {
                    if stakes_positive(stakers@) {
                        lemma_total_stake_prefix(stakers@, i + 1, stakers@.len() as int);
                        assert(stakers@.take(stakers@.len() as int) =~= stakers@);
                    }
                }
                return None;
            }
            let mut p: usize = 0;
            let mut found: bool = false;
            while p < out.len()
                invariant_except_break
                    !found,
                invariant
                    0 <= p <= out.len(),
                    forall|k: int|
                        0 <= k < p ==> (#[trigger] out@[k]).network_pkey != v.network_pkey
                            && validator_before(out@[k], v),
                ensures
                    0 <= p <= out.len(),
                    forall|k: int|
                        0 <= k < p ==> (#[trigger] out@[k]).network_pkey != v.network_pkey
                            && validator_before(out@[k], v),
                    found ==> p < out.len() && out@[p as int].network_pkey == v.network_pkey,
                    !found ==> (p == out.len() || validator_before(v, out@[p as int])),
                    !found && p < out.len() ==> out@[p as int].network_pkey != v.network_pkey,
                decreases out.len() - p,
            {
                let o = out[p];
                if o.network_pkey == v.network_pkey {
                    found = true;
                    break ;
                }
                let before = v.stake > o.stake || (v.stake == o.stake && v.network_pkey.lt(
                    &o.network_pkey,
                ));
                if before {
                    break ;
                }
                proof {
                    crate::digest::lemma_digest_order(
                        v.network_pkey.id,
                        o.network_pkey.id,
                        o.network_pkey.id,
                    );
                }
                p = p + 1;
            }
            if found {
                proof {
                    let w = out@[p as int];
                    assert(out@.to_multiset().count(w) > 0);
                    assert(prefix.contains(w));
                    let k = choose|k: int| 0 <= k < prefix.len() && prefix[k] == w;
                    assert(stakers@[k] == w);
                    assert(stakers@[k].network_pkey == stakers@[i as int].network_pkey);
                    assert(!keys_distinct(stakers@));
                }
                return None;
            }
            // No key of `out` after place `p` is the key of `v` either.
            let mut q: usize = p;
            let mut clash: bool = false;
            while q < out.len()
                invariant_except_break
                    !clash,
                invariant
                    p <= q <= out.len(),
                    forall|k: int|
                        p <= k < q ==> (#[trigger] out@[k]).network_pkey != v.network_pkey,
                ensures
                    p <= q <= out.len(),
                    clash ==> q < out.len() && out@[q as int].network_pkey == v.network_pkey,
                    !clash ==> forall|k: int|
                        p <= k < out.len() ==> (#[trigger] out@[k]).network_pkey != v.network_pkey,
                decreases out.len() - q,
            {
                if out[q].network_pkey == v.network_pkey {
                    clash = true;
                    break ;
                }
                q = q + 1;
            }
            if clash {
                proof {
                    let w = out@[q as int];
                    assert(out@.to_multiset().count(w) > 0);
                    assert(prefix.contains(w));
                    let k = choose|k: int| 0 <= k < prefix.len() && prefix[k] == w;
                    assert(stakers@[k] == w);
                    assert(stakers@[k].network_pkey == stakers@[i as int].network_pkey);
                    assert(!keys_distinct(stakers@));
                }
                return None;
            }
            let ghost before_insert = out@;
            out.insert(p, v);
            proof {
                lemma_total_stake_insert(before_insert, p as int, v);
                lemma_total_stake_push(prefix, v);
                assert(out@ == before_insert.insert(p as int, v));
                assert forall|a: int, b: int| 0 <= a < b < out@.len() implies validator_before(
                    #[trigger] out@[a],
                    #[trigger] out@[b],
                ) by {
                    if b < p {
                        assert(out@[a] == before_insert[a] && out@[b] == before_insert[b]);
                    } else if b == p {
                        assert(out@[a] == before_insert[a]);
                    } else if a < p {
                        assert(out@[a] == before_insert[a] && out@[b] == before_insert[b - 1]);
                    } else if a == p {
                        assert(out@[b] == before_insert[b - 1]);
                        if b - 1 > p {
                            assert(validator_before(before_insert[p as int], before_insert[b - 1]));
                            crate::digest::lemma_digest_order(
                                v.network_pkey.id,
                                before_insert[p as int].network_pkey.id,
                                before_insert[b - 1].network_pkey.id,
                            );
                        }
                    } else {
                        assert(out@[a] == before_insert[a - 1] && out@[b] == before_insert[b - 1]);
                    }
                }
                assert forall|a: int, b: int|
                    0 <= a < out@.len() && 0 <= b < out@.len() && a != b implies (
                #[trigger] out@[a]).network_pkey != (#[trigger] out@[b]).network_pkey by {
                    let ia = if a < p { a } else { a - 1 };
                    let ib = if b < p { b } else { b - 1 };
                    if a != p {
                        assert(out@[a] == before_insert[ia]);
                    }
                    if b != p {
                        assert(out@[b] == before_insert[ib]);
                    }
                }
                assert forall|a: int| 0 <= a < out@.len() implies (#[trigger] out@[a]).stake
                    > 0 by {
                    if a < p {
                        assert(out@[a] == before_insert[a]);
                    } else if a > p {
                        assert(out@[a] == before_insert[a - 1]);
                    }
                }
                assert forall|a: int, b: int|
                    0 <= a < next.len() && 0 <= b < next.len() && a != b implies (
                #[trigger] next[a]).network_pkey != (#[trigger] next[b]).network_pkey by {
                    if a < i && b < i {
                        assert(next[a] == prefix[a] && next[b] == prefix[b]);
                    } else {
                        let other = if a < i { a } else { b };
                        let w = prefix[other];
                        assert(prefix.to_multiset().count(w) > 0);
                        assert(before_insert.contains(w));
                        let k = choose|k: int| 0 <= k < before_insert.len() && before_insert[k] == w;
                        assert(before_insert[k].network_pkey != v.network_pkey);
                    }
                }
                assert forall|a: int| 0 <= a < next.len() implies (#[trigger] next[a]).stake
                    > 0 by {
                    if a < i {
                        assert(next[a] == prefix[a]);
                    }
                }
            }
            total = total + v.stake;
            i = i + 1;
        }
        proof {
            assert(stakers@.take(i as int) =~= stakers@);
        }
        Some(ValidatorSet { validators: out, total_stake: total })
    }

    /// How many validators the epoch has.
    pub fn len(&self) -> (r: usize)
        ensures
            r == self@.len(),
    {
        self.validators.len()
    }

    /// The sum of all stakes.
    pub fn total_stake(&self) -> (r: i64)
        ensures
            r == self.total_stake,
    {
        self.total_stake
    }

    /// The place of the validator with key `pkey`.
    pub fn index_of(&self, pkey: &PublicKey) -> (r: Option<usize>)
        requires
            self.wf(),
        ensures
            r matches Some(i) ==> i < self@.len() && self@[i as int].network_pkey == *pkey,
            r is None ==> forall|i: int|
                0 <= i < self@.len() ==> (#[trigger] self@[i]).network_pkey != *pkey,
    {
        let mut i: usize = 0;
        while i < self.validators.len()
            invariant
                0 <= i <= self@.len(),
                forall|k: int| 0 <= k < i ==> (#[trigger] self@[k]).network_pkey != *pkey,
            decreases self@.len() - i,
        {
            if self.validators[i].network_pkey == *pkey {
                return Some(i);
            }
            i = i + 1;
        }
        None
    }

    /// The stake of the validator with key `pkey`; nothing for a stranger.
    pub fn stake_of(&self, pkey: &PublicKey) -> (r: i64)
        requires
            self.wf(),
        ensures
            (exists|i: int|
                0 <= i < self@.len() && (#[trigger] self@[i]).network_pkey == *pkey && r
                    == self@[i].stake) || (r == 0 && forall|i: int|
                0 <= i < self@.len() ==> (#[trigger] self@[i]).network_pkey != *pkey),
    {
        match self.index_of(pkey) {
            Some(i) => self.validators[i].stake,
            None => 0,
        }
    }

    /// The sum of the stakes of the validators marked in `signers`.
    pub fn signed_stake(&self, signers: &Vec<bool>) -> (r: i64)
        requires
            self.wf(),
        ensures
            r == spec_signed_stake(self@, signers@),
            0 <= r <= self.total_stake,
    {
        let mut sum: i64 = 0;
        let mut i: usize = 0;
        proof {
            assert(self@.take(0) =~= Seq::<Validator>::empty());
        }
        while i < self.validators.len()
            invariant
                0 <= i <= self@.len(),
                self.wf(),
                sum == spec_signed_stake(self@.take(i as int), signers@),
                0 <= sum <= spec_total_stake(self@.take(i as int)),
            decreases self@.len() - i,
        {
            proof {
                assert(self@.take(i + 1).drop_last() =~= self@.take(i as int));
                lemma_total_stake_prefix(self@, i + 1, self@.len() as int);
                assert(self@.take(self@.len() as int) =~= self@);
            }
            if i < signers.len() && signers[i] {
                sum = sum + self.validators[i].stake;
            }
            i = i + 1;
        }
        proof {
            assert(self@.take(i as int) =~= self@);
        }
        sum
    }

    /// Whether the validators marked in `signers` carry a vote.
    pub fn has_quorum(&self, signers: &Vec<bool>) -> (r: bool)
        requires
            self.wf(),
        ensures
            r <==> spec_signed_stake(self@, signers@) >= spec_quorum_threshold(
                self.total_stake as int,
            ),
    {
        let stake = self.signed_stake(signers);
        stake >= quorum_threshold(self.total_stake)
    }

    /// The place of the validator whose share of `[0, total_stake)` holds `point`.
    pub fn pick(&self, point: i64) -> (r: usize)
        requires
            self.wf(),
            0 <= point < self.total_stake,
        ensures
            r == spec_pick(self@, point as int),
            r < self@.len(),
            spec_total_stake(self@.take(r as int)) <= point < spec_total_stake(
                self@.take(r as int + 1),
            ),
    {
        let mut acc: i64 = 0;
        let mut i: usize = 0;
        proof {
            assert(self@.take(0) =~= Seq::<Validator>::empty());
        }
        let n = self.validators.len();
        loop
            invariant
                0 <= i < n == self@.len(),
                self.wf(),
                acc == spec_total_stake(self@.take(i as int)),
                0 <= acc <= point < self.total_stake,
            ensures
                i < self@.len(),
                spec_total_stake(self@.take(i as int)) <= point < spec_total_stake(
                    self@.take(i + 1),
                ),
            decreases self@.len() - i,
        {
            proof {
                assert(self@.take(i + 1).drop_last() =~= self@.take(i as int));
                lemma_total_stake_prefix(self@, i + 1, self@.len() as int);
                assert(self@.take(self@.len() as int) =~= self@);
            }
            let stake = self.validators[i].stake;
            if point - acc < stake {
                break ;
            }
            acc = acc + stake;
            i = i + 1;
            assert(acc == spec_total_stake(self@.take(i as int)));
        }
        proof {
            lemma_pick_unique(self@, point as int, i as int);
        }
        i
    }

    /// The leader of `view` in the epoch whose seed is `seed`: the seed and
    /// the view are hashed to a point of `[0, total_stake)`, and the
    /// validator whose share holds it leads.
    pub fn leader(&self, seed: &Digest, view: u32) -> (r: PublicKey)
        requires
            self.wf(),
        ensures
            r == self.spec_leader(*seed, view),
            exists|i: int| 0 <= i < self@.len() && (#[trigger] self@[i]).network_pkey == r,
    {
        let i = self.leader_index(seed, view);
        self.validators[i].network_pkey
    }

    /// The place in the registry of the leader of `view`.
    pub fn leader_index(&self, seed: &Digest, view: u32) -> (r: usize)
        requires
            self.wf(),
        ensures
            r == spec_leader_index(self@, *seed, view),
            r < self@.len(),
    {
        let mut input = seed.to_bytes();
        let v = write_u64_be(view as u64);
        input.extend_from_slice(v.as_slice());
        let draw = Digest::digest(input.as_slice());
        proof {
            lemma_total_stake_prefix(self@, 0, self@.len() as int);
            assert(self@.take(self@.len() as int) =~= self@);
            assert(self@.take(0) =~= Seq::<Validator>::empty());
            assert(self.total_stake > 0) by {
                lemma_total_stake_prefix(self@, 0, 1);
                lemma_total_stake_prefix(self@, 1, self@.len() as int);
            }
        }
        let point = (draw.w0 % (self.total_stake as u64)) as i64;
        assert(input@ == spec_lottery_input(*seed, view));
        assert(point == spec_lottery_point(*seed, view, self.total_stake as int));
        self.pick(point)
    }
}

/// The order of the registry made total: validators that agree in stake and
/// key are ordered by their last epoch.
pub open spec fn validator_leq(a: Validator, b: Validator) -> bool {
    validator_before(a, b) || (a.stake == b.stake && a.network_pkey == b.network_pkey
        && a.active_until_epoch <= b.active_until_epoch)
}

/// Whether `vals` is the registry of the stakers: the same validators, in
/// the order of the registry.
pub open spec fn is_registry_of(vals: Seq<Validator>, stakers: Seq<Validator>) -> bool {
    &&& stakers_valid(stakers)
    &&& validators_sorted(vals)
    &&& vals.to_multiset() == stakers.to_multiset()
}

/// The stakers have one registry.
pub proof fn lemma_registry_unique(a: Seq<Validator>, b: Seq<Validator>, stakers: Seq<Validator>)
    requires
        is_registry_of(a, stakers),
        is_registry_of(b, stakers),
    ensures
        a == b,
{
    let leq = |x: Validator, y: Validator| validator_leq(x, y);
    assert(vstd::relations::total_ordering(leq)) by {
        assert forall|x: Validator, y: Validator| #[trigger] leq(x, y) && leq(y, x) implies x
            == y by {
            crate::digest::lemma_digest_order(x.network_pkey.id, y.network_pkey.id, y.network_pkey.id);
        }
        assert forall|x: Validator, y: Validator, z: Validator| #[trigger]
            leq(x, y) && #[trigger] leq(y, z) implies leq(x, z) by {
            crate::digest::lemma_digest_order(x.network_pkey.id, y.network_pkey.id, z.network_pkey.id);
        }
        assert forall|x: Validator, y: Validator| #[trigger] leq(x, y) || #[trigger] leq(y, x) by {
            crate::digest::lemma_digest_order(x.network_pkey.id, y.network_pkey.id, y.network_pkey.id);
        }
    }
    assert(vstd::relations::sorted_by(a, leq));
    assert(vstd::relations::sorted_by(b, leq));
    vstd::seq_lib::lemma_sorted_unique(a, b, leq);
}

/// Two registries with the same validators choose the same leader for
/// every seed and view: the choice needs no communication.
pub proof fn lemma_leader_agreement(a: ValidatorSet, b: ValidatorSet, seed: Digest, view: u32)
    requires
        a@ == b@,
    ensures
        a.spec_leader(seed, view) == b.spec_leader(seed, view),
{
}

/// The leader's share of the line is as long as its stake: of the
/// `total_stake` points that a draw can give, exactly `stake` choose it.
pub proof fn lemma_leader_share(set: ValidatorSet, k: int, point: int)
    requires
        set.wf(),
        0 <= k < set@.len(),
        0 <= point < set.total_stake,
    ensures
        spec_total_stake(set@.take(k + 1)) - spec_total_stake(set@.take(k)) == set@[k].stake,
        spec_pick(set@, point) == k <==> spec_total_stake(set@.take(k)) <= point
            < spec_total_stake(set@.take(k + 1)),
{
    assert(set@.take(k + 1).drop_last() =~= set@.take(k));
    lemma_pick_covers(set@, point);
    if spec_total_stake(set@.take(k)) <= point < spec_total_stake(set@.take(k + 1)) {
        lemma_pick_unique(set@, point, k);
    }
}

} // verus!
