//! The table of outputs and the escrow derived from it.

use vstd::prelude::*;
use crate::block::Output;
use crate::digest::{Digest, PublicKey};
use crate::validators::Validator;

verus! {

/// What the chain keeps of an output that a committed block created.
#[derive(Clone, Copy, Debug, PartialEq, Eq, Structural)]
pub struct UtxoEntry {
    /// The identity of the output.
    pub id: Digest,
    /// For a stake, the validator that it backs, the amount and the last
    /// epoch in which it counts.
    pub staker: Option<Validator>,
    /// Whether a committed block has spent the output.
    pub spent: bool,
}

/// What a stake says of its validator; nothing for other outputs.
pub open spec fn spec_staker(o: Output) -> Option<Validator> {
    match o {
        Output::Stake(s) => Some(
            Validator {
                network_pkey: s.validator,
                stake: s.amount,
                active_until_epoch: s.active_until_epoch,
            },
        ),
        _ => None,
    }
}

/// What a stake says of its validator; nothing for other outputs.
pub fn staker(o: &Output) -> (r: Option<Validator>)
    ensures
        r == spec_staker(*o),
{
    match o {
        Output::Stake(s) => Some(
            Validator {
                network_pkey: s.validator,
                stake: s.amount,
                active_until_epoch: s.active_until_epoch,
            },
        ),
        _ => None,
    }
}

/// Whether the table holds an output named `id`.
pub open spec fn spec_known(table: Seq<UtxoEntry>, id: Digest) -> bool {
    exists|k: int| 0 <= k < table.len() && (#[trigger] table[k]).id == id
}

/// Whether the table holds an output named `id` that no block has spent.
pub open spec fn spec_unspent(table: Seq<UtxoEntry>, id: Digest) -> bool {
    exists|k: int| 0 <= k < table.len() && (#[trigger] table[k]).id == id && !table[k].spent
}

/// Whether no identity names two entries of the table.
pub open spec fn ids_distinct(table: Seq<UtxoEntry>) -> bool {
    forall|j: int, k: int|
        0 <= j < table.len() && 0 <= k < table.len() && j != k ==> (#[trigger] table[j]).id != (
        #[trigger] table[k]).id
}

/// The place of the first entry named `id`.
pub fn find(table: &Vec<UtxoEntry>, id: &Digest) -> (r: Option<usize>)
    ensures
        r matches Some(k) ==> k < table@.len() && table@[k as int].id == *id,
        r is None ==> !spec_known(table@, *id),
{
    let mut k: usize = 0;
    while k < table.len()
        invariant
            0 <= k <= table.len(),
            forall|j: int| 0 <= j < k ==> (#[trigger] table@[j]).id != *id,
        decreases table.len() - k,
    {
        if table[k].id == *id {
            return Some(k);
        }
        k = k + 1;
    }
    None
}

/// The greater of two epochs.
pub open spec fn spec_later(a: u64, b: u64) -> u64 {
    if a >= b {
        a
    } else {
        b
    }
}

/// The escrow after one more stake: the stake joins the validator's entry,
/// or opens one behind the others. Nothing, where the sum leaves the range
/// of the amount type.
pub open spec fn spec_escrow_add(list: Seq<Validator>, s: Validator) -> Option<Seq<Validator>>
    decreases list.len(),
{
    if list.len() == 0 {
        Some(seq![s])
    } else if list.last().network_pkey == s.network_pkey {
        if list.last().stake + s.stake > i64::MAX {
            None
        } else {
            Some(
                list.drop_last().push(
                    Validator {
                        network_pkey: s.network_pkey,
                        stake: (list.last().stake + s.stake) as i64,
                        active_until_epoch: spec_later(
                            list.last().active_until_epoch,
                            s.active_until_epoch,
                        ),
                    },
                ),
            )
        }
    } else if keys_absent(list.drop_last(), s.network_pkey) {
        Some(list.push(s))
    } else {
        match spec_escrow_add(list.drop_last(), s) {
            Some(l) => Some(l.push(list.last())),
            None => None,
        }
    }
}

/// Whether no validator of the list has the key.
pub open spec fn keys_absent(list: Seq<Validator>, pkey: PublicKey) -> bool {
    forall|k: int| 0 <= k < list.len() ==> (#[trigger] list[k]).network_pkey != pkey
}

/// The escrow: for each validator the sum of the positive stakes in the
/// table that no block has spent, with the latest of their epochs, in the
/// order in which the validators first occur. Nothing, where a sum leaves
/// the range of the amount type.
pub open spec fn spec_escrow(table: Seq<UtxoEntry>) -> Option<Seq<Validator>>
    decreases table.len(),
{
    if table.len() == 0 {
        Some(Seq::empty())
    } else {
        match spec_escrow(table.drop_last()) {
            None => None,
            Some(list) => {
                let e = table.last();
                if !e.spent && e.staker is Some && e.staker->0.stake > 0 {
                    spec_escrow_add(list, e.staker->0)
                } else {
                    Some(list)
                }
            },
        }
    }
}

/// Adding a stake keeps the keys apart and the stakes positive.
pub proof fn lemma_escrow_add_keeps(list: Seq<Validator>, s: Validator)
    requires
        crate::validators::keys_distinct(list),
        crate::validators::stakes_positive(list),
        s.stake > 0,
    ensures
        spec_escrow_add(list, s) matches Some(l) ==> crate::validators::keys_distinct(l)
            && crate::validators::stakes_positive(l) && l.len() >= list.len() && l.len() > 0 && (
        forall|k: int|
            0 <= k < list.len() ==> (#[trigger] l[k]).network_pkey == list[k].network_pkey) && (
        l.len() > list.len() ==> l.len() == list.len() + 1 && l.last() == s && keys_absent(
            list,
            s.network_pkey,
        )),
    decreases list.len(),
{
    if list.len() == 0 {
    } else if list.last().network_pkey == s.network_pkey {
        let l = spec_escrow_add(list, s);
        if l is Some {
            let l = l->0;
            assert forall|a: int, b: int|
                0 <= a < l.len() && 0 <= b < l.len() && a != b implies (#[trigger] l[a]).network_pkey
                != (#[trigger] l[b]).network_pkey by {
                assert(l[a].network_pkey == list[a].network_pkey);
                assert(l[b].network_pkey == list[b].network_pkey);
            }
            assert forall|a: int| 0 <= a < l.len() implies (#[trigger] l[a]).stake > 0 by {
                if a < l.len() - 1 {
                    assert(l[a] == list[a]);
                }
            }
        }
    } else if keys_absent(list.drop_last(), s.network_pkey) {
        let l = list.push(s);
        assert forall|a: int, b: int|
            0 <= a < l.len() && 0 <= b < l.len() && a != b implies (#[trigger] l[a]).network_pkey != (
        #[trigger] l[b]).network_pkey by {
            if a < list.len() {
                assert(l[a] == list[a]);
                if a < list.len() - 1 {
                    assert(list.drop_last()[a] == list[a]);
                }
            }
            if b < list.len() {
                assert(l[b] == list[b]);
                if b < list.len() - 1 {
                    assert(list.drop_last()[b] == list[b]);
                }
            }
        }
        assert forall|a: int| 0 <= a < l.len() implies (#[trigger] l[a]).stake > 0 by {
            if a < list.len() {
                assert(l[a] == list[a]);
            }
        }
        assert forall|k: int| 0 <= k < list.len() implies (#[trigger] list[k]).network_pkey
            != s.network_pkey by {
            if k < list.len() - 1 {
                assert(list.drop_last()[k] == list[k]);
            }
        }
    } else {
        let d = list.drop_last();
        assert forall|a: int, b: int|
            0 <= a < d.len() && 0 <= b < d.len() && a != b implies (#[trigger] d[a]).network_pkey != (
        #[trigger] d[b]).network_pkey by {
            assert(d[a] == list[a] && d[b] == list[b]);
        }
        assert forall|a: int| 0 <= a < d.len() implies (#[trigger] d[a]).stake > 0 by {
            assert(d[a] == list[a]);
        }
        lemma_escrow_add_keeps(d, s);
        let r = spec_escrow_add(d, s);
        if r is Some {
            let r = r->0;
            // The key is among those of `d`, so `r` is as long as `d`.
            assert(r.len() == d.len());
            let l = r.push(list.last());
            assert forall|a: int, b: int|
                0 <= a < l.len() && 0 <= b < l.len() && a != b implies (#[trigger] l[a]).network_pkey
                != (#[trigger] l[b]).network_pkey by {
                if a < d.len() {
                    assert(l[a] == r[a]);
                    assert(r[a].network_pkey == d[a].network_pkey);
                    assert(d[a] == list[a]);
                }
                if b < d.len() {
                    assert(l[b] == r[b]);
                    assert(r[b].network_pkey == d[b].network_pkey);
                    assert(d[b] == list[b]);
                }
            }
            assert forall|a: int| 0 <= a < l.len() implies (#[trigger] l[a]).stake > 0 by {
                if a < d.len() {
                    assert(l[a] == r[a]);
                }
            }
            assert forall|k: int| 0 <= k < list.len() implies (#[trigger] l[k]).network_pkey
                == list[k].network_pkey by {
                if k < d.len() {
                    assert(l[k] == r[k]);
                    assert(r[k].network_pkey == d[k].network_pkey);
                    assert(d[k] == list[k]);
                }
            }
        }
    }
}

/// The escrow never names a validator twice, and holds positive stakes only.
pub proof fn lemma_escrow_keeps(table: Seq<UtxoEntry>)
    ensures
        spec_escrow(table) matches Some(l) ==> crate::validators::keys_distinct(l)
            && crate::validators::stakes_positive(l),
    decreases table.len(),
{
    if table.len() > 0 {
        lemma_escrow_keeps(table.drop_last());
        match spec_escrow(table.drop_last()) {
            None => {},
            Some(list) => {
                let e = table.last();
                if !e.spent && e.staker is Some && e.staker->0.stake > 0 {
                    lemma_escrow_add_keeps(list, e.staker->0);
                }
            },
        }
    }
}

/// Where the first `k` validators do not have the key of `s` and the next
/// one has it, the stake joins that entry.
proof fn lemma_escrow_add_found(list: Seq<Validator>, s: Validator, k: int)
    requires
        0 <= k < list.len(),
        list[k].network_pkey == s.network_pkey,
        crate::validators::keys_distinct(list),
    ensures
        list[k].stake + s.stake > i64::MAX ==> spec_escrow_add(list, s) is None,
        list[k].stake + s.stake <= i64::MAX ==> spec_escrow_add(list, s) == Some(
            list.update(
                k,
                Validator {
                    network_pkey: s.network_pkey,
                    stake: (list[k].stake + s.stake) as i64,
                    active_until_epoch: spec_later(list[k].active_until_epoch, s.active_until_epoch),
                },
            ),
        ),
    decreases list.len(),
{
    let merged = Validator {
        network_pkey: s.network_pkey,
        stake: (list[k].stake + s.stake) as i64,
        active_until_epoch: spec_later(list[k].active_until_epoch, s.active_until_epoch),
    };
    if k == list.len() - 1 {
        if list[k].stake + s.stake <= i64::MAX {
            assert(list.drop_last().push(merged) =~= list.update(k, merged));
        }
    } else {
        let d = list.drop_last();
        assert(list.last().network_pkey != list[k].network_pkey);
        assert(d[k] == list[k]);
        assert(!keys_absent(d, s.network_pkey));
        assert forall|a: int, b: int|
            0 <= a < d.len() && 0 <= b < d.len() && a != b implies (#[trigger] d[a]).network_pkey != (
        #[trigger] d[b]).network_pkey by {
            assert(d[a] == list[a] && d[b] == list[b]);
        }
        lemma_escrow_add_found(d, s, k);
        if list[k].stake + s.stake <= i64::MAX {
            assert(d.update(k, merged).push(list.last()) =~= list.update(k, merged));
        }
    }
}

/// Where no validator has the key of `s`, the stake opens an entry.
pub proof fn lemma_escrow_add_absent(list: Seq<Validator>, s: Validator)
    requires
        keys_absent(list, s.network_pkey),
    ensures
        spec_escrow_add(list, s) == Some(list.push(s)),
{
    if list.len() > 0 {
        assert(list.last() == list[list.len() - 1]);
        assert forall|k: int| 0 <= k < list.drop_last().len() implies (
        #[trigger] list.drop_last()[k]).network_pkey != s.network_pkey by {
            assert(list.drop_last()[k] == list[k]);
        }
    } else {
        assert(list.push(s) =~= seq![s]);
    }
}

/// The escrow after one more stake.
pub fn escrow_add(list: &mut Vec<Validator>, s: Validator) -> (ok: bool)
    requires
        crate::validators::keys_distinct(old(list)@),
        crate::validators::stakes_positive(old(list)@),
        s.stake > 0,
    ensures
        ok <==> spec_escrow_add(old(list)@, s) is Some,
        ok ==> Some(final(list)@) == spec_escrow_add(old(list)@, s),
        !ok ==> final(list)@ == old(list)@,
{
    let mut k: usize = 0;
    while k < list.len()
        invariant
            0 <= k <= list.len(),
            list@ == old(list)@,
            crate::validators::keys_distinct(list@),
            crate::validators::stakes_positive(list@),
            s.stake > 0,
            forall|j: int| 0 <= j < k ==> (#[trigger] list@[j]).network_pkey != s.network_pkey,
        decreases list.len() - k,
    {
        let cur = list[k];
        if cur.network_pkey == s.network_pkey {
            proof {
                lemma_escrow_add_found(list@, s, k as int);
            }
            if s.stake > i64::MAX - cur.stake {
                return false;
            }
            let until = if cur.active_until_epoch >= s.active_until_epoch {
                cur.active_until_epoch
            } else {
                s.active_until_epoch
            };
            list[k] = Validator {
                network_pkey: s.network_pkey,
                stake: cur.stake + s.stake,
                active_until_epoch: until,
            };
            return true;
        }
        k = k + 1;
    }
    proof {
        lemma_escrow_add_absent(list@, s);
    }
    list.push(s);
    true
}

/// The escrow of a table.
pub fn escrow(table: &Vec<UtxoEntry>) -> (r: Option<Vec<Validator>>)
    ensures
        r is Some <==> spec_escrow(table@) is Some,
        r matches Some(l) ==> Some(l@) == spec_escrow(table@),
{
    let mut list: Vec<Validator> = Vec::new();
    let mut i: usize = 0;
    proof {
        assert(table@.take(0) =~= Seq::<UtxoEntry>::empty());
    }
    while i < table.len()
        invariant
            0 <= i <= table.len(),
            Some(list@) == spec_escrow(table@.take(i as int)),
        decreases table.len() - i,
    {
        proof {
            assert(table@.take(i + 1).drop_last() =~= table@.take(i as int));
            lemma_escrow_keeps(table@.take(i as int));
        }
        let e = table[i];
        if !e.spent {
            match e.staker {
                Some(s) => {
                    if s.stake > 0 {
                        let ok = escrow_add(&mut list, s);
                        if !ok {
                            proof {
                                lemma_escrow_none(table@, i + 1);
                            }
                            return None;
                        }
                    }
                },
                None => {},
            }
        }
        i = i + 1;
    }
    proof {
        assert(table@.take(i as int) =~= table@);
    }
    Some(list)
}

/// Once a sum has left the range, no later output brings the escrow back.
pub proof fn lemma_escrow_none(table: Seq<UtxoEntry>, i: int)
    requires
        0 <= i <= table.len(),
        spec_escrow(table.take(i)) is None,
    ensures
        spec_escrow(table) is None,
    decreases table.len() - i,
{
    if i < table.len() {
        assert(table.take(i + 1).drop_last() =~= table.take(i));
        lemma_escrow_none(table, i + 1);
    } else {
        assert(table.take(i) =~= table);
    }
}


/// Whether the list holds the digest.
pub fn contains_digest(list: &Vec<Digest>, id: &Digest) -> (r: bool)
    ensures
        r == list@.contains(*id),
{
    let mut k: usize = 0;
    while k < list.len()
        invariant
            0 <= k <= list.len(),
            forall|j: int| 0 <= j < k ==> list@[j] != *id,
        decreases list.len() - k,
    {
        if list[k] == *id {
            return true;
        }
        k = k + 1;
    }
    false
}

/// Whether some digest stands twice in the list.
pub fn has_duplicates(list: &Vec<Digest>) -> (r: bool)
    ensures
        r == !list@.no_duplicates(),
{
    let mut i: usize = 0;
    while i < list.len()
        invariant
            0 <= i <= list.len(),
            forall|a: int, b: int| 0 <= a < i && a < b < list.len() ==> list@[a] != list@[b],
        decreases list.len() - i,
    {
        let mut j: usize = i + 1;
        while j < list.len()
            invariant
                i < j <= list.len(),
                forall|b: int| i < b < j ==> list@[i as int] != list@[b],
            decreases list.len() - j,
        {
            if list[i] == list[j] {
                return true;
            }
            j = j + 1;
        }
        i = i + 1;
    }
    assert forall|a: int, b: int| 0 <= a < list@.len() && 0 <= b < list@.len() && a != b implies list@[a]
        != list@[b] by {
        if a < b {
        } else {
            assert(list@[b] != list@[a]);
        }
    }
    false
}

/// Whether every digest of the list names an output of the table that no
/// block has spent.
pub open spec fn spec_all_unspent(table: Seq<UtxoEntry>, inputs: Seq<Digest>) -> bool {
    forall|k: int| 0 <= k < inputs.len() ==> spec_unspent(table, #[trigger] inputs[k])
}

/// Whether the digests are new to the table and differ from one another.
pub open spec fn spec_fresh(table: Seq<UtxoEntry>, ids: Seq<Digest>) -> bool {
    &&& ids.no_duplicates()
    &&& forall|k: int| 0 <= k < ids.len() ==> !spec_known(table, #[trigger] ids[k])
}

/// Whether every digest of the list names an output of the table that no
/// block has spent.
pub fn all_unspent(table: &Vec<UtxoEntry>, inputs: &Vec<Digest>) -> (r: bool)
    requires
        ids_distinct(table@),
    ensures
        r == spec_all_unspent(table@, inputs@),
{
    let mut i: usize = 0;
    while i < inputs.len()
        invariant
            0 <= i <= inputs.len(),
            ids_distinct(table@),
            forall|k: int| 0 <= k < i ==> spec_unspent(table@, #[trigger] inputs@[k]),
        decreases inputs.len() - i,
    {
        match find(table, &inputs[i]) {
            None => {
                assert(!spec_unspent(table@, inputs@[i as int]));
                return false;
            },
            Some(k) => {
                if table[k].spent {
                    assert(!spec_unspent(table@, inputs@[i as int]));
                    return false;
                }
            },
        }
        i = i + 1;
    }
    true
}

/// Whether the digests are new to the table and differ from one another.
pub fn fresh(table: &Vec<UtxoEntry>, ids: &Vec<Digest>) -> (r: bool)
    ensures
        r == spec_fresh(table@, ids@),
{
    if has_duplicates(ids) {
        return false;
    }
    let mut i: usize = 0;
    while i < ids.len()
        invariant
            0 <= i <= ids.len(),
            forall|k: int| 0 <= k < i ==> !spec_known(table@, #[trigger] ids@[k]),
        decreases ids.len() - i,
    {
        if find(table, &ids[i]).is_some() {
            assert(spec_known(table@, ids@[i as int]));
            return false;
        }
        i = i + 1;
    }
    true
}

/// The entry that the table gets for a new output.
pub open spec fn spec_entry(o: Output) -> UtxoEntry {
    UtxoEntry { id: o.spec_hash(), staker: spec_staker(o), spent: false }
}

/// The table after a block: the outputs that the block spends are marked,
/// and those that it creates stand behind the others, unspent.
pub open spec fn spec_apply(table: Seq<UtxoEntry>, inputs: Seq<Digest>, outputs: Seq<Output>) -> Seq<
    UtxoEntry,
> {
    Seq::new(
        table.len(),
        |k: int|
            UtxoEntry {
                id: table[k].id,
                staker: table[k].staker,
                spent: table[k].spent || inputs.contains(table[k].id),
            },
    ) + Seq::new(outputs.len(), |k: int| spec_entry(outputs[k]))
}

/// The table after a block.
pub fn apply(table: &Vec<UtxoEntry>, inputs: &Vec<Digest>, outputs: &Vec<Output>) -> (r: Vec<
    UtxoEntry,
>)
    ensures
        r@ == spec_apply(table@, inputs@, outputs@),
{
    let mut out: Vec<UtxoEntry> = Vec::new();
    let mut i: usize = 0;
    while i < table.len()
        invariant
            0 <= i <= table.len(),
            out@.len() == i,
            forall|k: int| 0 <= k < i ==> out@[k] == spec_apply(table@, inputs@, outputs@)[k],
        decreases table.len() - i,
    {
        let e = table[i];
        let spent = e.spent || contains_digest(inputs, &e.id);
        out.push(UtxoEntry { id: e.id, staker: e.staker, spent });
        i = i + 1;
    }
    let mut j: usize = 0;
    while j < outputs.len()
        invariant
            0 <= j <= outputs.len(),
            out@.len() == table.len() + j,
            forall|k: int|
                0 <= k < table.len() + j ==> out@[k] == spec_apply(table@, inputs@, outputs@)[k],
        decreases outputs.len() - j,
    {
        let o = &outputs[j];
        out.push(UtxoEntry { id: o.hash(), staker: staker(o), spent: false });
        j = j + 1;
    }
    assert(out@ =~= spec_apply(table@, inputs@, outputs@));
    out
}

} // verus!
