//! Small sets and maps keyed by digests, as the indexes of the wallet use them.

use vstd::prelude::*;
use crate::digest::Digest;

verus! {

/// A set of digests.
#[derive(Debug)]
pub struct DigestSet {
    pub items: Vec<Digest>,
}

impl View for DigestSet {
    type V = Set<Digest>;

    open spec fn view(&self) -> Set<Digest> {
        Set::new(|d: Digest| self.items@.contains(d))
    }
}

impl DigestSet {
    /// What holds of every set: no digest stands twice in it.
    pub open spec fn wf(&self) -> bool {
        self.items@.no_duplicates()
    }

    /// An empty set.
    pub fn new() -> (r: DigestSet)
        ensures
            r.wf(),
            r@ == Set::<Digest>::empty(),
            r.items@.len() == 0,
    {
        let r = DigestSet { items: Vec::new() };
        assert(r@ =~= Set::<Digest>::empty());
        r
    }

    /// The number of digests in the set.
    pub fn len(&self) -> (r: usize)
        ensures
            r == self.items@.len(),
    {
        self.items.len()
    }

    /// The place of a digest in the set.
    pub fn position(&self, d: &Digest) -> (r: Option<usize>)
        ensures
            r matches Some(i) ==> i < self.items@.len() && self.items@[i as int] == *d,
            r is None ==> !self.items@.contains(*d),
    {
        let mut i: usize = 0;
        while i < self.items.len()
            invariant
                0 <= i <= self.items@.len(),
                forall|k: int| 0 <= k < i ==> self.items@[k] != *d,
            decreases self.items@.len() - i,
        {
            if self.items[i] == *d {
                return Some(i);
            }
            i = i + 1;
        }
        None
    }

    /// Whether the set holds the digest.
    pub fn contains(&self, d: &Digest) -> (r: bool)
        ensures
            r == self@.contains(*d),
    {
        self.position(d).is_some()
    }

    /// Puts a digest into the set. Says whether it is new.
    pub fn insert(&mut self, d: Digest) -> (r: bool)
        requires
            old(self).wf(),
        ensures
            final(self).wf(),
            final(self)@ == old(self)@.insert(d),
            r == !old(self)@.contains(d),
    {
        if self.position(&d).is_some() {
            assert(self@ =~= old(self)@.insert(d));
            return false;
        }
        let ghost before = self.items@;
        self.items.push(d);
        proof {
            assert forall|x: Digest| self.items@.contains(x) <==> before.contains(x) || x == d by {
                if before.contains(x) {
                    let k = choose|k: int| 0 <= k < before.len() && before[k] == x;
                    assert(self.items@[k] == x);
                }
                if x == d {
                    assert(self.items@[before.len() as int] == d);
                }
                if self.items@.contains(x) {
                    let k = choose|k: int| 0 <= k < self.items@.len() && self.items@[k] == x;
                    if k < before.len() {
                        assert(before[k] == x);
                    }
                }
            }
            assert(self@ =~= old(self)@.insert(d));
        }
        true
    }

    /// Takes a digest out of the set. Says whether it was there.
    pub fn remove(&mut self, d: &Digest) -> (r: bool)
        requires
            old(self).wf(),
        ensures
            final(self).wf(),
            final(self)@ == old(self)@.remove(*d),
            r == old(self)@.contains(*d),
    {
        match self.position(d) {
            None => {
                assert(self@ =~= old(self)@.remove(*d));
                false
            },
            Some(i) => {
                let ghost before = self.items@;
                let _ = self.items.remove(i);
                proof {
                    let after = self.items@;
                    assert(after == before.remove(i as int));
                    assert forall|x: Digest| after.contains(x) <==> before.contains(x) && x
                        != *d by {
                        if after.contains(x) {
                            let k = choose|k: int| 0 <= k < after.len() && after[k] == x;
                            let o = if k < i { k } else { k + 1 };
                            assert(before[o] == x);
                        }
                        if before.contains(x) && x != *d {
                            let k = choose|k: int| 0 <= k < before.len() && before[k] == x;
                            let o = if k < i { k } else { k - 1 };
                            assert(after[o] == x);
                        }
                    }
                    assert(self@ =~= old(self)@.remove(*d));
                    assert forall|a: int, b: int|
                        0 <= a < after.len() && 0 <= b < after.len() && a != b implies after[a]
                        != after[b] by {
                        let oa = if a < i { a } else { a + 1 };
                        let ob = if b < i { b } else { b + 1 };
                        assert(after[a] == before[oa] && after[b] == before[ob]);
                    }
                }
                true
            },
        }
    }

    /// Empties the set and hands out what it held.
    pub fn take(&mut self) -> (r: Vec<Digest>)
        requires
            old(self).wf(),
        ensures
            final(self).wf(),
            final(self)@ == Set::<Digest>::empty(),
            r@ == old(self).items@,
    {
        let mut out: Vec<Digest> = Vec::new();
        core::mem::swap(&mut out, &mut self.items);
        assert(self@ =~= Set::<Digest>::empty());
        out
    }
}

/// A digest and the time filed under it.
#[derive(Clone, Copy, Debug, PartialEq, Eq, Structural)]
pub struct Row {
    pub key: Digest,
    pub value: u64,
}

/// A map from digests to times.
#[derive(Debug)]
pub struct DigestMap {
    pub rows: Vec<Row>,
}

/// Whether a row of the list has the key.
pub open spec fn spec_has_key(rows: Seq<Row>, key: Digest) -> bool {
    exists|i: int| 0 <= i < rows.len() && (#[trigger] rows[i]).key == key
}

/// The place of the row with the key.
pub open spec fn spec_row_place(rows: Seq<Row>, key: Digest) -> int {
    choose|i: int| 0 <= i < rows.len() && (#[trigger] rows[i]).key == key
}

impl View for DigestMap {
    type V = Map<Digest, u64>;

    open spec fn view(&self) -> Map<Digest, u64> {
        Map::new(
            |k: Digest| spec_has_key(self.rows@, k),
            |k: Digest| self.rows@[spec_row_place(self.rows@, k)].value,
        )
    }
}

impl DigestMap {
    /// What holds of every map: no key stands twice in it.
    pub open spec fn wf(&self) -> bool {
        forall|i: int, j: int|
            0 <= i < self.rows@.len() && 0 <= j < self.rows@.len() && i != j ==> (
            #[trigger] self.rows@[i]).key != (#[trigger] self.rows@[j]).key
    }

    /// An empty map.
    pub fn new() -> (r: DigestMap)
        ensures
            r.wf(),
            r@ == Map::<Digest, u64>::empty(),
    {
        let r = DigestMap { rows: Vec::new() };
        assert(r@ =~= Map::<Digest, u64>::empty());
        r
    }

    /// The place of the row with the key.
    pub fn position(&self, key: &Digest) -> (r: Option<usize>)
        requires
            self.wf(),
        ensures
            r is Some <==> spec_has_key(self.rows@, *key),
            r matches Some(i) ==> i < self.rows@.len() && i == spec_row_place(self.rows@, *key)
                && self.rows@[i as int].key == *key,
    {
        let mut i: usize = 0;
        while i < self.rows.len()
            invariant
                0 <= i <= self.rows@.len(),
                self.wf(),
                forall|k: int| 0 <= k < i ==> (#[trigger] self.rows@[k]).key != *key,
            decreases self.rows@.len() - i,
        {
            if self.rows[i].key == *key {
                proof {
                    let c = spec_row_place(self.rows@, *key);
                    assert(self.rows@[c].key == *key);
                }
                return Some(i);
            }
            i = i + 1;
        }
        None
    }

    /// The time filed under the key.
    pub fn get(&self, key: &Digest) -> (r: Option<u64>)
        requires
            self.wf(),
        ensures
            r is Some <==> self@.contains_key(*key),
            r matches Some(v) ==> v == self@[*key],
    {
        match self.position(key) {
            Some(i) => Some(self.rows[i].value),
            None => None,
        }
    }

    /// Files a time under a key. Hands back the time that was filed there.
    pub fn insert(&mut self, key: Digest, value: u64) -> (r: Option<u64>)
        requires
            old(self).wf(),
        ensures
            final(self).wf(),
            final(self)@ == old(self)@.insert(key, value),
            r is Some <==> old(self)@.contains_key(key),
            r matches Some(v) ==> v == old(self)@[key],
    {
        let ghost before = self.rows@;
        match self.position(&key) {
            Some(i) => {
                let was = self.rows[i].value;
                self.rows[i] = Row { key, value };
                proof {
                    let after = self.rows@;
                    assert forall|k: Digest| spec_has_key(after, k) <==> spec_has_key(before, k) by {
                        if spec_has_key(after, k) {
                            let c = spec_row_place(after, k);
                            assert(before[c].key == k);
                        }
                        if spec_has_key(before, k) {
                            let c = spec_row_place(before, k);
                            assert(after[c].key == k);
                        }
                    }
                    assert forall|k: Digest| spec_has_key(after, k) implies after[spec_row_place(
                        after,
                        k,
                    )].value == (if k == key {
                        value
                    } else {
                        before[spec_row_place(before, k)].value
                    }) by {
                        let c = spec_row_place(after, k);
                        assert(after[c].key == k);
                        assert(spec_has_key(before, k));
                        let o = spec_row_place(before, k);
                        assert(before[o].key == k);
                        assert(after[o].key == k);
                        assert(c == o);
                    }
                    assert(self@ =~= old(self)@.insert(key, value));
                }
                Some(was)
            },
            None => {
                self.rows.push(Row { key, value });
                proof {
                    let after = self.rows@;
                    let n = before.len() as int;
                    assert(after[n].key == key);
                    assert forall|a: int, b: int|
                        0 <= a < after.len() && 0 <= b < after.len() && a != b implies (
                    #[trigger] after[a]).key != (#[trigger] after[b]).key by {
                        if a < n {
                            assert(after[a] == before[a]);
                        }
                        if b < n {
                            assert(after[b] == before[b]);
                        }
                    }
                    assert forall|k: Digest| spec_has_key(after, k) <==> spec_has_key(before, k)
                        || k == key by {
                        if spec_has_key(after, k) {
                            let c = spec_row_place(after, k);
                            if c < n {
                                assert(before[c].key == k);
                            }
                        }
                        if spec_has_key(before, k) {
                            let c = spec_row_place(before, k);
                            assert(after[c].key == k);
                        }
                    }
                    assert forall|k: Digest| spec_has_key(after, k) implies after[spec_row_place(
                        after,
                        k,
                    )].value == (if k == key {
                        value
                    } else {
                        before[spec_row_place(before, k)].value
                    }) by {
                        let c = spec_row_place(after, k);
                        assert(after[c].key == k);
                        if k != key {
                            assert(c < n);
                            assert(before[c].key == k);
                            let o = spec_row_place(before, k);
                            assert(before[o].key == k);
                            assert(after[o].key == k);
                        } else {
                            assert(c == n);
                        }
                    }
                    assert(self@ =~= old(self)@.insert(key, value));
                }
                None
            },
        }
    }
}

} // verus!
