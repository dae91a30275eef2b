//! The mempool: a bounded pool of pending transactions, kept in the order
//! in which blocks take them.

use vstd::prelude::*;
use crate::block::{Block, Transaction};
use crate::digest::Digest;
use crate::escrow::{UtxoEntry, all_unspent, contains_digest, has_duplicates, ids_distinct, spec_all_unspent};

verus! {

/// A transaction in the pool, with what the pool orders it by.
#[derive(Debug)]
pub struct PoolEntry {
    /// The digest of the transaction.
    pub hash: Digest,
    /// The fee for each input and output, rounded down.
    pub fee_per_io: i64,
    /// The number of inputs and outputs.
    pub io_count: usize,
    pub tx: Transaction,
}

/// Why the pool refused a transaction.
#[derive(Clone, Copy, Debug, PartialEq, Eq, Structural)]
pub enum MempoolError {
    /// The transaction spends nothing, or its fee is negative.
    Invalid,
    /// The transaction has more inputs and outputs than one may have.
    TooLarge,
    /// An input is not an unspent output of the chain.
    UnknownInput,
    /// An input is spent twice, by the transaction itself or by it and a
    /// transaction that the pool holds already.
    Conflict,
    /// The pool has no room for the transaction.
    Full,
}

/// The order of the pool: the larger fee for each input and output first,
/// and among equal fees the smaller digest.
pub open spec fn spec_key_before(a: PoolEntry, b: PoolEntry) -> bool {
    a.fee_per_io > b.fee_per_io || (a.fee_per_io == b.fee_per_io && a.hash.spec_lt(b.hash))
}

/// The fee for each input and output, rounded down.
#[verifier::opaque]
pub open spec fn spec_fee_per_io(fee: i64, io_count: usize) -> int {
    if io_count == 0 {
        0
    } else {
        fee as int / io_count as int
    }
}

/// What the pool keeps of a transaction.
pub open spec fn spec_entry_ok(e: PoolEntry) -> bool {
    &&& e.hash == e.tx.spec_hash()
    &&& e.io_count == e.tx.spec_io_count()
    &&& e.tx.inputs@.len() >= 1
    &&& e.tx.fee >= 0
    &&& e.fee_per_io == spec_fee_per_io(e.tx.fee, e.io_count)
    &&& e.tx.inputs@.no_duplicates()
}

/// Whether the entries are in the order of the pool.
pub open spec fn spec_sorted(entries: Seq<PoolEntry>) -> bool {
    forall|i: int, j: int|
        0 <= i < j < entries.len() ==> !spec_key_before(#[trigger] entries[j], #[trigger] entries[i])
}

/// Whether `a` is a place among the inputs of entry `i`.
pub open spec fn spec_place(entries: Seq<PoolEntry>, i: int, a: int) -> bool {
    0 <= i < entries.len() && 0 <= a < entries[i].tx.inputs@.len()
}

/// Input `a` of entry `i`.
pub open spec fn spec_at(entries: Seq<PoolEntry>, i: int, a: int) -> Digest {
    entries[i].tx.inputs@[a]
}

/// Whether a transaction of the pool spends the output.
pub open spec fn spec_references(entries: Seq<PoolEntry>, id: Digest) -> bool {
    exists|i: int, a: int| spec_place(entries, i, a) && #[trigger] spec_at(entries, i, a) == id
}

/// Whether an entry spends one of the outputs.
pub open spec fn spec_spends_any(e: PoolEntry, inputs: Seq<Digest>) -> bool {
    exists|a: int| 0 <= a < e.tx.inputs@.len() && inputs.contains(#[trigger] e.tx.inputs@[a])
}

/// No two transactions of the pool spend one output.
pub open spec fn spec_disjoint(entries: Seq<PoolEntry>) -> bool {
    forall|i: int, a: int, j: int, b: int|
        spec_place(entries, i, a) && spec_place(entries, j, b) && i != j ==> #[trigger] spec_at(
            entries,
            i,
            a,
        ) != #[trigger] spec_at(entries, j, b)
}

/// The number of inputs and outputs of all entries.
pub open spec fn spec_total_io(entries: Seq<PoolEntry>) -> int
    decreases entries.len(),
{
    if entries.len() == 0 {
        0
    } else {
        spec_total_io(entries.drop_last()) + entries.last().io_count
    }
}

/// The sum of the fees of all entries.
pub open spec fn spec_total_fee(entries: Seq<PoolEntry>) -> int
    decreases entries.len(),
{
    if entries.len() == 0 {
        0
    } else {
        spec_total_fee(entries.drop_last()) + entries.last().tx.fee
    }
}

/// The place at which the pool keeps a new entry: behind every entry that
/// it does not come before.
pub open spec fn spec_insert_place(entries: Seq<PoolEntry>, e: PoolEntry) -> int
    decreases entries.len(),
{
    if entries.len() == 0 {
        0
    } else if spec_key_before(e, entries.last()) {
        spec_insert_place(entries.drop_last(), e)
    } else {
        entries.len() as int
    }
}

/// How many entries from the front fit in `limit` inputs and outputs.
pub open spec fn spec_take_count(entries: Seq<PoolEntry>, limit: int) -> int
    decreases entries.len(),
{
    if entries.len() == 0 || entries[0].io_count > limit {
        0
    } else {
        1 + spec_take_count(entries.drop_first(), limit - entries[0].io_count)
    }
}

/// The digests of the first `n` entries.
pub open spec fn spec_hashes(entries: Seq<PoolEntry>, n: int) -> Seq<Digest> {
    Seq::new(n as nat, |i: int| entries[i].hash)
}

/// The entries that spend none of the outputs, in their order.
pub open spec fn spec_prune(entries: Seq<PoolEntry>, inputs: Seq<Digest>) -> Seq<PoolEntry>
    decreases entries.len(),
{
    if entries.len() == 0 {
        Seq::empty()
    } else if spec_spends_any(entries[0], inputs) {
        spec_prune(entries.drop_first(), inputs)
    } else {
        seq![entries[0]] + spec_prune(entries.drop_first(), inputs)
    }
}

/// The totals of a pool with one more entry behind the others.
pub proof fn lemma_total_push(entries: Seq<PoolEntry>, e: PoolEntry)
    ensures
        spec_total_io(entries.push(e)) == spec_total_io(entries) + e.io_count,
        spec_total_fee(entries.push(e)) == spec_total_fee(entries) + e.tx.fee,
{
    assert(entries.push(e).drop_last() =~= entries);
}

/// The totals of a pool with one more entry at a place.
pub proof fn lemma_total_insert(entries: Seq<PoolEntry>, p: int, e: PoolEntry)
    requires
        0 <= p <= entries.len(),
    ensures
        spec_total_io(entries.insert(p, e)) == spec_total_io(entries) + e.io_count,
        spec_total_fee(entries.insert(p, e)) == spec_total_fee(entries) + e.tx.fee,
    decreases entries.len(),
{
    if p == entries.len() {
        assert(entries.insert(p, e) =~= entries.push(e));
        lemma_total_push(entries, e);
    } else {
        assert(entries.insert(p, e).drop_last() =~= entries.drop_last().insert(p, e));
        assert(entries.insert(p, e).last() == entries.last());
        lemma_total_insert(entries.drop_last(), p, e);
    }
}

/// The totals of a pool without one of its entries.
pub proof fn lemma_total_remove(entries: Seq<PoolEntry>, p: int)
    requires
        0 <= p < entries.len(),
    ensures
        spec_total_io(entries.remove(p)) == spec_total_io(entries) - entries[p].io_count,
        spec_total_fee(entries.remove(p)) == spec_total_fee(entries) - entries[p].tx.fee,
    decreases entries.len(),
{
    if p == entries.len() - 1 {
        assert(entries.remove(p) =~= entries.drop_last());
    } else {
        assert(entries.remove(p).drop_last() =~= entries.drop_last().remove(p));
        assert(entries.remove(p).last() == entries.last());
        lemma_total_remove(entries.drop_last(), p);
    }
}

/// The totals of a pool are not negative.
pub proof fn lemma_total_nonnegative(entries: Seq<PoolEntry>)
    requires
        forall|i: int| 0 <= i < entries.len() ==> spec_entry_ok(#[trigger] entries[i]),
    ensures
        spec_total_io(entries) >= 0,
        spec_total_fee(entries) >= 0,
    decreases entries.len(),
{
    if entries.len() > 0 {
        assert forall|i: int| 0 <= i < entries.drop_last().len() implies spec_entry_ok(
            #[trigger] entries.drop_last()[i],
        ) by {
            assert(entries.drop_last()[i] == entries[i]);
        }
        lemma_total_nonnegative(entries.drop_last());
        assert(spec_entry_ok(entries[entries.len() - 1]));
    }
}

/// The place of a new entry lies behind the entries that it does not come
/// before, and before those that it comes before.
pub proof fn lemma_insert_place(entries: Seq<PoolEntry>, e: PoolEntry)
    ensures
        0 <= spec_insert_place(entries, e) <= entries.len(),
        forall|k: int|
            spec_insert_place(entries, e) <= k < entries.len() ==> spec_key_before(
                e,
                #[trigger] entries[k],
            ),
        spec_insert_place(entries, e) > 0 ==> !spec_key_before(
            e,
            entries[spec_insert_place(entries, e) - 1],
        ),
    decreases entries.len(),
{
    if entries.len() > 0 && spec_key_before(e, entries.last()) {
        lemma_insert_place(entries.drop_last(), e);
        let p = spec_insert_place(entries.drop_last(), e);
        assert forall|k: int| p <= k < entries.len() implies spec_key_before(
            e,
            #[trigger] entries[k],
        ) by {
            if k < entries.len() - 1 {
                assert(entries.drop_last()[k] == entries[k]);
            }
        }
        if p > 0 {
            assert(entries.drop_last()[p - 1] == entries[p - 1]);
        }
    }
}

/// The order of the pool is transitive, and of two entries one does not
/// come before the other.
pub proof fn lemma_key_order(a: PoolEntry, b: PoolEntry, c: PoolEntry)
    ensures
        !spec_key_before(b, a) && !spec_key_before(c, b) ==> !spec_key_before(c, a),
        spec_key_before(a, b) ==> !spec_key_before(b, a),
        spec_key_before(a, b) && !spec_key_before(c, b) ==> !spec_key_before(c, a),
{
    crate::digest::lemma_digest_order(a.hash, b.hash, c.hash);
    crate::digest::lemma_digest_order(c.hash, b.hash, a.hash);
    crate::digest::lemma_digest_order(b.hash, a.hash, c.hash);
    crate::digest::lemma_digest_order(b.hash, c.hash, a.hash);
}

/// What holds of the entries of every pool: each is what the pool keeps of
/// its transaction, they are in order, no output is spent by two of them,
/// and they keep within the bounds.
#[verifier::opaque]
pub open spec fn spec_pool_ok(entries: Seq<PoolEntry>, max_utxo: usize) -> bool {
    &&& forall|i: int| 0 <= i < entries.len() ==> spec_entry_ok(#[trigger] entries[i])
    &&& spec_sorted(entries)
    &&& spec_disjoint(entries)
    &&& spec_total_io(entries) <= max_utxo
    &&& spec_total_fee(entries) <= i64::MAX
}

/// The totals of every front part of a pool lie within the bounds.
pub proof fn lemma_pool_prefix(entries: Seq<PoolEntry>, max_utxo: usize, n: int)
    requires
        spec_pool_ok(entries, max_utxo),
        0 <= n <= entries.len(),
    ensures
        0 <= spec_total_io(entries.take(n)) <= spec_total_io(entries) <= max_utxo,
        0 <= spec_total_fee(entries.take(n)) <= spec_total_fee(entries) <= i64::MAX,
        n < entries.len() ==> entries[n].tx.fee >= 0,
{
    reveal(spec_pool_ok);
    lemma_total_prefix(entries, n);
    if n < entries.len() {
        assert(spec_entry_ok(entries[n]));
    }
}

/// A pool with a new entry at its place is a pool, where the entry spends
/// nothing that the pool spends and the bounds hold.
pub proof fn lemma_pool_insert(entries: Seq<PoolEntry>, e: PoolEntry, max_utxo: usize)
    requires
        spec_pool_ok(entries, max_utxo),
        spec_entry_ok(e),
        forall|a: int|
            0 <= a < e.tx.inputs@.len() ==> !spec_references(entries, #[trigger] e.tx.inputs@[a]),
        spec_total_io(entries) + e.io_count <= max_utxo,
        spec_total_fee(entries) + e.tx.fee <= i64::MAX,
    ensures
        spec_pool_ok(entries.insert(spec_insert_place(entries, e), e), max_utxo),
{
    reveal(spec_pool_ok);
    let p = spec_insert_place(entries, e);
    lemma_insert_place(entries, e);
    lemma_total_insert(entries, p, e);
    lemma_insert_ok(entries, p, e);
    lemma_insert_sorted(entries, e);
    lemma_insert_disjoint(entries, p, e);
}

/// A pool without one of its entries is a pool.
pub proof fn lemma_pool_remove(entries: Seq<PoolEntry>, p: int, max_utxo: usize)
    requires
        spec_pool_ok(entries, max_utxo),
        0 <= p < entries.len(),
    ensures
        spec_pool_ok(entries.remove(p), max_utxo),
{
    reveal(spec_pool_ok);
    lemma_total_remove(entries, p);
    assert(spec_entry_ok(entries[p]));
    lemma_remove_ok(entries, p);
    lemma_remove_sorted(entries, p);
    lemma_remove_disjoint(entries, p);
}

/// The pool of pending transactions.
#[derive(Debug)]
pub struct Mempool {
    /// The transactions, in the order in which blocks take them.
    pub entries: Vec<PoolEntry>,
    /// The most inputs and outputs that the pool holds.
    pub max_utxo: usize,
}

impl View for Mempool {
    type V = Seq<PoolEntry>;

    open spec fn view(&self) -> Seq<PoolEntry> {
        self.entries@
    }
}

impl Mempool {
    /// What holds of every pool: its entries are in order, no output is
    /// spent by two of them, and they keep within the bound.
    pub open spec fn wf(&self) -> bool {
        spec_pool_ok(self@, self.max_utxo)
    }

    /// The verdict of the pool on a transaction, the checks in their order.
    pub open spec fn spec_check(
        &self,
        tx: Transaction,
        table: Seq<UtxoEntry>,
        max_utxo_in_tx: usize,
    ) -> Result<(), MempoolError> {
        if tx.inputs@.len() == 0 || tx.fee < 0 {
            Err(MempoolError::Invalid)
        } else if tx.spec_io_count() > max_utxo_in_tx {
            Err(MempoolError::TooLarge)
        } else if !spec_all_unspent(table, tx.inputs@) {
            Err(MempoolError::UnknownInput)
        } else if !tx.inputs@.no_duplicates() || exists|a: int|
            0 <= a < tx.inputs@.len() && spec_references(self@, #[trigger] tx.inputs@[a]) {
            Err(MempoolError::Conflict)
        } else if spec_total_io(self@) + tx.spec_io_count() > self.max_utxo || spec_total_fee(self@)
            + tx.fee > i64::MAX {
            Err(MempoolError::Full)
        } else {
            Ok(())
        }
    }

    /// The entry that the pool makes of a transaction.
    pub open spec fn spec_entry_of(tx: Transaction) -> PoolEntry {
        PoolEntry {
            hash: tx.spec_hash(),
            fee_per_io: spec_fee_per_io(tx.fee, tx.spec_io_count() as usize) as i64,
            io_count: tx.spec_io_count() as usize,
            tx,
        }
    }

    /// An empty pool that holds at most `max_utxo` inputs and outputs.
    pub fn new(max_utxo: usize) -> (r: Mempool)
        ensures
            r.wf(),
            r@ == Seq::<PoolEntry>::empty(),
            r.max_utxo == max_utxo,
    {
        proof {
            reveal(spec_pool_ok);
        }
        Mempool { entries: Vec::new(), max_utxo }
    }

    /// The number of transactions in the pool.
    pub fn len(&self) -> (r: usize)
        ensures
            r == self@.len(),
    {
        self.entries.len()
    }

    /// Whether the pool holds a transaction with the digest.
    pub fn contains(&self, hash: &Digest) -> (r: bool)
        ensures
            r <==> exists|i: int| 0 <= i < self@.len() && (#[trigger] self@[i]).hash == *hash,
    {
        let mut i: usize = 0;
        while i < self.entries.len()
            invariant
                0 <= i <= self@.len(),
                forall|k: int| 0 <= k < i ==> (#[trigger] self@[k]).hash != *hash,
            decreases self@.len() - i,
        {
            if self.entries[i].hash == *hash {
                return true;
            }
            i = i + 1;
        }
        false
    }

    /// Whether a transaction of the pool spends the output.
    pub fn references(&self, id: &Digest) -> (r: bool)
        ensures
            r == spec_references(self@, *id),
    {
        let mut i: usize = 0;
        while i < self.entries.len()
            invariant
                0 <= i <= self@.len(),
                forall|k: int, a: int|
                    spec_place(self@, k, a) && k < i ==> #[trigger] spec_at(self@, k, a) != *id,
            decreases self@.len() - i,
        {
            if contains_digest(&self.entries[i].tx.inputs, id) {
                proof {
                    let a = choose|a: int|
                        0 <= a < self@[i as int].tx.inputs@.len() && self@[i as int].tx.inputs@[a]
                            == *id;
                    assert(spec_place(self@, i as int, a) && spec_at(self@, i as int, a) == *id);
                }
                return true;
            }
            proof {
                assert forall|k: int, a: int| spec_place(self@, k, a) && k < i + 1 implies #[trigger]
                    spec_at(self@, k, a) != *id by {
                    if k == i {
                        assert(self@[i as int].tx.inputs@[a] != *id);
                    }
                }
            }
            i = i + 1;
        }
        false
    }

    /// The number of inputs and outputs in the pool, and the sum of the fees.
    pub fn totals(&self) -> (r: (usize, i64))
        requires
            self.wf(),
        ensures
            r.0 == spec_total_io(self@),
            r.1 == spec_total_fee(self@),
    {
        let mut io: usize = 0;
        let mut fee: i64 = 0;
        let mut i: usize = 0;
        proof {
            assert(self@.take(0) =~= Seq::<PoolEntry>::empty());
        }
        while i < self.entries.len()
            invariant
                0 <= i <= self@.len(),
                self.wf(),
                io == spec_total_io(self@.take(i as int)),
                fee == spec_total_fee(self@.take(i as int)),
            decreases self@.len() - i,
        {
            proof {
                assert(self@.take(i + 1).drop_last() =~= self@.take(i as int));
                lemma_pool_prefix(self@, self.max_utxo, i + 1);
                lemma_pool_prefix(self@, self.max_utxo, i as int);
            }
            io = io + self.entries[i].io_count;
            fee = fee + self.entries[i].tx.fee;
            i = i + 1;
        }
        proof {
            assert(self@.take(i as int) =~= self@);
        }
        (io, fee)
    }

    /// Takes a transaction into the pool, if its inputs are unspent outputs
    /// of the chain that no transaction of the pool spends, and the pool
    /// has room. Of two transactions that spend one output the pool keeps
    /// the one that it saw first. The pool stays in the order in which
    /// blocks take transactions.
    pub fn insert(&mut self, tx: Transaction, table: &Vec<UtxoEntry>, max_utxo_in_tx: usize) -> (r:
        Result<Digest, MempoolError>)
        requires
            old(self).wf(),
            ids_distinct(table@),
        ensures
            final(self).wf(),
            final(self).max_utxo == old(self).max_utxo,
            r matches Ok(h) ==> {
                &&& old(self).spec_check(tx, table@, max_utxo_in_tx) is Ok
                &&& h == tx.spec_hash()
                &&& final(self)@ == old(self)@.insert(
                    spec_insert_place(old(self)@, Mempool::spec_entry_of(tx)),
                    Mempool::spec_entry_of(tx),
                )
            },
            r matches Err(e) ==> old(self).spec_check(tx, table@, max_utxo_in_tx) == Err::<
                (),
                MempoolError,
            >(e) && final(self)@ == old(self)@,
    {
        if tx.inputs.len() == 0 || tx.fee < 0 {
            return Err(MempoolError::Invalid);
        }
        let n_in = tx.inputs.len();
        let n_out = tx.outputs.len();
        if n_out > max_utxo_in_tx || n_in > max_utxo_in_tx - n_out {
            return Err(MempoolError::TooLarge);
        }
        let io_count = n_in + n_out;
        if !all_unspent(table, &tx.inputs) {
            return Err(MempoolError::UnknownInput);
        }
        if self.conflicts(&tx.inputs) {
            return Err(MempoolError::Conflict);
        }
        let (total_io, total_fee) = self.totals();
        proof {
            lemma_pool_prefix(self@, self.max_utxo, 0);
        }
        if io_count > self.max_utxo - total_io || tx.fee > i64::MAX - total_fee {
            return Err(MempoolError::Full);
        }
        let hash = tx.hash();
        let fee_per_io = if io_count as u64 > i64::MAX as u64 {
            proof {
                lemma_small_quotient(tx.fee as int, io_count as int);
            }
            0
        } else {
            tx.fee / (io_count as i64)
        };
        proof {
            reveal(spec_fee_per_io);
        }
        let entry = PoolEntry { hash, fee_per_io, io_count, tx };
        assert(entry == Mempool::spec_entry_of(tx));
        let p = self.insert_place(&entry);
        proof {
            lemma_pool_insert(self@, entry, self.max_utxo);
        }
        self.entries.insert(p, entry);
        Ok(hash)
    }

    /// Whether the inputs hold an output twice, or one that a transaction
    /// of the pool spends.
    pub fn conflicts(&self, inputs: &Vec<Digest>) -> (r: bool)
        ensures
            r == (!inputs@.no_duplicates() || exists|a: int|
                0 <= a < inputs@.len() && spec_references(self@, #[trigger] inputs@[a])),
    {
        if has_duplicates(inputs) {
            return true;
        }
        let mut a: usize = 0;
        while a < inputs.len()
            invariant
                0 <= a <= inputs@.len(),
                forall|k: int| 0 <= k < a ==> !spec_references(self@, #[trigger] inputs@[k]),
            decreases inputs@.len() - a,
        {
            if self.references(&inputs[a]) {
                return true;
            }
            a = a + 1;
        }
        false
    }

    /// The place at which the pool keeps a new entry.
    pub fn insert_place(&self, entry: &PoolEntry) -> (r: usize)
        ensures
            r == spec_insert_place(self@, *entry),
            r <= self@.len(),
    {
        let mut p: usize = self.entries.len();
        proof {
            assert(self@.take(p as int) =~= self@);
        }
        while p > 0 && (entry.fee_per_io > self.entries[p - 1].fee_per_io || (entry.fee_per_io
            == self.entries[p - 1].fee_per_io && entry.hash.lt(&self.entries[p - 1].hash)))
            invariant
                0 <= p <= self@.len(),
                spec_insert_place(self@, *entry) == spec_insert_place(self@.take(p as int), *entry),
            decreases p,
        {
            proof {
                assert(self@.take(p as int).drop_last() =~= self@.take(p - 1));
                assert(self@.take(p as int).last() == self@[p - 1]);
            }
            p = p - 1;
        }
        proof {
            if p > 0 {
                assert(self@.take(p as int).last() == self@[p - 1]);
            } else {
                assert(self@.take(0) =~= Seq::<PoolEntry>::empty());
            }
        }
        p
    }

    /// The transactions for the next block: as many from the front of the
    /// pool as have at most `limit` inputs and outputs together, by their
    /// digests and in the order of the pool.
    pub fn take_for_block(&self, limit: usize) -> (r: Vec<Digest>)
        ensures
            r@ == spec_hashes(self@, spec_take_count(self@, limit as int)),
            0 <= spec_take_count(self@, limit as int) <= self@.len(),
    {
        let mut out: Vec<Digest> = Vec::new();
        let mut left: usize = limit;
        let mut i: usize = 0;
        proof {
            assert(self@.skip(0) =~= self@);
        }
        while i < self.entries.len() && self.entries[i].io_count <= left
            invariant
                0 <= i <= self@.len(),
                out@.len() == i,
                forall|k: int| 0 <= k < i ==> out@[k] == self@[k].hash,
                spec_take_count(self@, limit as int) == i + spec_take_count(
                    self@.skip(i as int),
                    left as int,
                ),
            decreases self@.len() - i,
        {
            proof {
                assert(self@.skip(i as int).drop_first() =~= self@.skip(i + 1));
                assert(self@.skip(i as int)[0] == self@[i as int]);
            }
            out.push(self.entries[i].hash);
            left = left - self.entries[i].io_count;
            i = i + 1;
        }
        proof {
            if i < self@.len() {
                assert(self@.skip(i as int)[0] == self@[i as int]);
            }
            assert(spec_take_count(self@.skip(i as int), left as int) == 0);
            assert(out@ =~= spec_hashes(self@, i as int));
        }
        out
    }

    /// How many transactions from the front of the pool have at most
    /// `limit` inputs and outputs together.
    pub fn take_count(&self, limit: usize) -> (r: usize)
        ensures
            r == spec_take_count(self@, limit as int),
            r <= self@.len(),
    {
        let hashes = self.take_for_block(limit);
        hashes.len()
    }

    /// The transaction with the digest, if the pool holds one.
    pub fn get(&self, hash: &Digest) -> (r: Option<&Transaction>)
        ensures
            r matches Some(tx) ==> exists|i: int|
                0 <= i < self@.len() && (#[trigger] self@[i]).hash == *hash && self@[i].tx == *tx,
            r is None ==> forall|i: int| 0 <= i < self@.len() ==> (#[trigger] self@[i]).hash != *hash,
    {
        let mut i: usize = 0;
        while i < self.entries.len()
            invariant
                0 <= i <= self@.len(),
                forall|k: int| 0 <= k < i ==> (#[trigger] self@[k]).hash != *hash,
            decreases self@.len() - i,
        {
            if self.entries[i].hash == *hash {
                return Some(&self.entries[i].tx);
            }
            i = i + 1;
        }
        None
    }

    /// Drops the transactions that a committed block has made void: those
    /// that spend an output that the block spends, the transactions that
    /// the block holds among them. The others stay in their order.
    pub fn prune(&mut self, block: &Block)
        requires
            old(self).wf(),
        ensures
            final(self).wf(),
            final(self).max_utxo == old(self).max_utxo,
            final(self)@ == spec_prune(old(self)@, block.spec_inputs()),
    {
        let no_inputs: Vec<Digest> = Vec::new();
        let inputs: &Vec<Digest> = match block {
            Block::Micro(b) => &b.inputs,
            Block::Macro(_) => &no_inputs,
        };
        assert(inputs@ =~= block.spec_inputs());
        let ghost orig = self@;
        let mut i: usize = 0;
        proof {
            assert(self@.skip(0) =~= self@);
            assert(self@.take(0) =~= Seq::<PoolEntry>::empty());
        }
        while i < self.entries.len()
            invariant
                0 <= i <= self@.len(),
                self.wf(),
                self.max_utxo == old(self).max_utxo,
                inputs@ == block.spec_inputs(),
                spec_prune(orig, inputs@) == self@.take(i as int) + spec_prune(
                    self@.skip(i as int),
                    inputs@,
                ),
            decreases self@.len() - i,
        {
            let ghost cur = self@;
            proof {
                assert(cur.skip(i as int)[0] == cur[i as int]);
                assert(cur.skip(i as int).drop_first() =~= cur.skip(i + 1));
            }
            if spends_any(&self.entries[i], inputs) {
                proof {
                    lemma_pool_remove(cur, i as int, self.max_utxo);
                }
                let _ = self.entries.remove(i);
                proof {
                    assert(self@.take(i as int) =~= cur.take(i as int));
                    assert(self@.skip(i as int) =~= cur.skip(i + 1));
                }
            } else {
                proof {
                    assert(cur.take(i + 1) =~= cur.take(i as int) + seq![cur[i as int]]);
                    assert(cur.take(i as int) + (seq![cur[i as int]] + spec_prune(
                        cur.skip(i + 1),
                        inputs@,
                    )) =~= cur.take(i + 1) + spec_prune(cur.skip(i + 1), inputs@));
                }
                i = i + 1;
            }
        }
        proof {
            assert(self@.skip(i as int) =~= Seq::<PoolEntry>::empty());
            assert(self@.take(i as int) =~= self@);
            assert(self@ + Seq::<PoolEntry>::empty() =~= self@);
        }
    }
}

/// Whether an entry spends one of the outputs.
pub fn spends_any(e: &PoolEntry, inputs: &Vec<Digest>) -> (r: bool)
    ensures
        r == spec_spends_any(*e, inputs@),
{
    let mut a: usize = 0;
    while a < e.tx.inputs.len()
        invariant
            0 <= a <= e.tx.inputs@.len(),
            forall|k: int| 0 <= k < a ==> !inputs@.contains(#[trigger] e.tx.inputs@[k]),
        decreases e.tx.inputs@.len() - a,
    {
        if contains_digest(inputs, &e.tx.inputs[a]) {
            return true;
        }
        a = a + 1;
    }
    false
}

/// The totals of a front part of the pool are no more than those of the pool.
pub proof fn lemma_total_prefix(entries: Seq<PoolEntry>, n: int)
    requires
        0 <= n <= entries.len(),
        forall|i: int| 0 <= i < entries.len() ==> spec_entry_ok(#[trigger] entries[i]),
    ensures
        0 <= spec_total_io(entries.take(n)) <= spec_total_io(entries),
        0 <= spec_total_fee(entries.take(n)) <= spec_total_fee(entries),
    decreases entries.len() - n,
{
    if n == entries.len() {
        assert(entries.take(n) =~= entries);
        lemma_total_nonnegative(entries);
    } else {
        lemma_total_prefix(entries, n + 1);
        assert(entries.take(n + 1).drop_last() =~= entries.take(n));
        assert(spec_entry_ok(entries[n]));
        assert forall|i: int| 0 <= i < entries.take(n).len() implies spec_entry_ok(
            #[trigger] entries.take(n)[i],
        ) by {
            assert(entries.take(n)[i] == entries[i]);
        }
        lemma_total_nonnegative(entries.take(n));
    }
}

/// With a new entry, every entry is still what the pool keeps.
pub proof fn lemma_insert_ok(entries: Seq<PoolEntry>, p: int, e: PoolEntry)
    requires
        0 <= p <= entries.len(),
        forall|i: int| 0 <= i < entries.len() ==> spec_entry_ok(#[trigger] entries[i]),
        spec_entry_ok(e),
    ensures
        forall|i: int|
            0 <= i < entries.insert(p, e).len() ==> spec_entry_ok(#[trigger] entries.insert(p, e)[i]),
{
    let l = entries.insert(p, e);
    assert forall|i: int| 0 <= i < l.len() implies spec_entry_ok(#[trigger] l[i]) by {
        if i < p {
            assert(l[i] == entries[i]);
        } else if i > p {
            assert(l[i] == entries[i - 1]);
        }
    }
}

/// With a new entry at its place the pool is still in order.
pub proof fn lemma_insert_sorted(entries: Seq<PoolEntry>, e: PoolEntry)
    requires
        spec_sorted(entries),
    ensures
        spec_sorted(entries.insert(spec_insert_place(entries, e), e)),
{
    let p = spec_insert_place(entries, e);
    lemma_insert_place(entries, e);
    let l = entries.insert(p, e);
    assert forall|i: int, j: int| 0 <= i < j < l.len() implies !spec_key_before(
        #[trigger] l[j],
        #[trigger] l[i],
    ) by {
        if j < p {
            assert(l[i] == entries[i] && l[j] == entries[j]);
        } else if j == p {
            assert(l[i] == entries[i]);
            assert(l[j] == e);
            if i < p - 1 {
                assert(!spec_key_before(entries[p - 1], entries[i]));
            }
            lemma_key_order(entries[i], entries[p - 1], e);
        } else if i < p {
            assert(l[i] == entries[i] && l[j] == entries[j - 1]);
        } else if i == p {
            assert(l[i] == e);
            assert(l[j] == entries[j - 1]);
            assert(spec_key_before(e, entries[j - 1]));
            lemma_key_order(e, entries[j - 1], e);
        } else {
            assert(l[i] == entries[i - 1] && l[j] == entries[j - 1]);
        }
    }
}

/// With a new entry that spends nothing that the pool spends, still no two
/// transactions of the pool spend one output.
pub proof fn lemma_insert_disjoint(entries: Seq<PoolEntry>, p: int, e: PoolEntry)
    requires
        0 <= p <= entries.len(),
        spec_disjoint(entries),
        forall|a: int|
            0 <= a < e.tx.inputs@.len() ==> !spec_references(entries, #[trigger] e.tx.inputs@[a]),
    ensures
        spec_disjoint(entries.insert(p, e)),
{
    let l = entries.insert(p, e);
    assert forall|i: int, a: int, j: int, b: int|
        spec_place(l, i, a) && spec_place(l, j, b) && i != j implies #[trigger] spec_at(l, i, a)
        != #[trigger] spec_at(l, j, b) by {
        let oi = if i < p { i } else { i - 1 };
        let oj = if j < p { j } else { j - 1 };
        if i != p {
            assert(l[i] == entries[oi]);
            assert(spec_place(entries, oi, a));
            assert(spec_at(l, i, a) == spec_at(entries, oi, a));
        } else {
            assert(l[i] == e);
            assert(!spec_references(entries, e.tx.inputs@[a]));
        }
        if j != p {
            assert(l[j] == entries[oj]);
            assert(spec_place(entries, oj, b));
            assert(spec_at(l, j, b) == spec_at(entries, oj, b));
        } else {
            assert(l[j] == e);
            assert(!spec_references(entries, e.tx.inputs@[b]));
        }
    }
}

/// Without one of its entries, every entry is still what the pool keeps.
pub proof fn lemma_remove_ok(entries: Seq<PoolEntry>, p: int)
    requires
        0 <= p < entries.len(),
        forall|i: int| 0 <= i < entries.len() ==> spec_entry_ok(#[trigger] entries[i]),
    ensures
        forall|i: int|
            0 <= i < entries.remove(p).len() ==> spec_entry_ok(#[trigger] entries.remove(p)[i]),
{
    let l = entries.remove(p);
    assert forall|i: int| 0 <= i < l.len() implies spec_entry_ok(#[trigger] l[i]) by {
        if i < p {
            assert(l[i] == entries[i]);
        } else {
            assert(l[i] == entries[i + 1]);
        }
    }
}

/// Without one of its entries the pool is still in order.
pub proof fn lemma_remove_sorted(entries: Seq<PoolEntry>, p: int)
    requires
        0 <= p < entries.len(),
        spec_sorted(entries),
    ensures
        spec_sorted(entries.remove(p)),
{
    let l = entries.remove(p);
    assert forall|i: int, j: int| 0 <= i < j < l.len() implies !spec_key_before(
        #[trigger] l[j],
        #[trigger] l[i],
    ) by {
        let oi = if i < p { i } else { i + 1 };
        let oj = if j < p { j } else { j + 1 };
        assert(l[i] == entries[oi] && l[j] == entries[oj]);
    }
}

/// Without one of its entries, still no two transactions spend one output.
pub proof fn lemma_remove_disjoint(entries: Seq<PoolEntry>, p: int)
    requires
        0 <= p < entries.len(),
        spec_disjoint(entries),
    ensures
        spec_disjoint(entries.remove(p)),
{
    let l = entries.remove(p);
    assert forall|i: int, a: int, j: int, b: int|
        spec_place(l, i, a) && spec_place(l, j, b) && i != j implies #[trigger] spec_at(l, i, a)
        != #[trigger] spec_at(l, j, b) by {
        let oi = if i < p { i } else { i + 1 };
        let oj = if j < p { j } else { j + 1 };
        assert(l[i] == entries[oi] && l[j] == entries[oj]);
        assert(spec_place(entries, oi, a) && spec_place(entries, oj, b));
        assert(spec_at(l, i, a) == spec_at(entries, oi, a));
        assert(spec_at(l, j, b) == spec_at(entries, oj, b));
    }
}

/// Whether no digest names two entries.
pub open spec fn spec_hashes_distinct(entries: Seq<PoolEntry>) -> bool {
    forall|i: int, j: int|
        0 <= i < entries.len() && 0 <= j < entries.len() && i != j ==> (#[trigger] entries[i]).hash != (
        #[trigger] entries[j]).hash
}

/// The order of the pool does not depend on the order of arrival: two
/// pools in order that hold the same entries, none of which share a
/// digest, hold them in the same order.
pub proof fn lemma_order_unique(a: Seq<PoolEntry>, b: Seq<PoolEntry>)
    requires
        spec_sorted(a),
        spec_sorted(b),
        spec_hashes_distinct(a),
        a.to_multiset() == b.to_multiset(),
    ensures
        a == b,
    decreases a.len(),
{
    broadcast use vstd::multiset::group_multiset_axioms;
    broadcast use vstd::seq_lib::group_to_multiset_ensures;

    assert(a.len() == b.len()) by {
        a.to_multiset_ensures();
        b.to_multiset_ensures();
    }
    if a.len() == 0 {
        assert(a =~= b);
    } else {
        assert(a.to_multiset().contains(a[0]));
        assert(b.to_multiset().contains(b[0]));
        assert(b.contains(a[0]));
        assert(a.contains(b[0]));
        let k = choose|k: int| 0 <= k < b.len() && b[k] == a[0];
        let m = choose|m: int| 0 <= m < a.len() && a[m] == b[0];
        if m != 0 {
            assert(!spec_key_before(a[m], a[0]));
            if k != 0 {
                assert(!spec_key_before(b[k], b[0]));
            }
            crate::digest::lemma_digest_order(a[0].hash, a[m].hash, a[m].hash);
            assert(a[0].hash == a[m].hash);
            assert(false);
        }
        assert(a[0] == b[0]);
        let ra = a.drop_first();
        let rb = b.drop_first();
        assert(ra =~= a.remove(0));
        assert(rb =~= b.remove(0));
        vstd::seq_lib::to_multiset_remove(a, 0);
        vstd::seq_lib::to_multiset_remove(b, 0);
        assert forall|i: int, j: int| 0 <= i < j < ra.len() implies !spec_key_before(
            #[trigger] ra[j],
            #[trigger] ra[i],
        ) by {
            assert(ra[i] == a[i + 1] && ra[j] == a[j + 1]);
        }
        assert forall|i: int, j: int| 0 <= i < j < rb.len() implies !spec_key_before(
            #[trigger] rb[j],
            #[trigger] rb[i],
        ) by {
            assert(rb[i] == b[i + 1] && rb[j] == b[j + 1]);
        }
        assert forall|i: int, j: int|
            0 <= i < ra.len() && 0 <= j < ra.len() && i != j implies (#[trigger] ra[i]).hash != (
        #[trigger] ra[j]).hash by {
            assert(ra[i] == a[i + 1] && ra[j] == a[j + 1]);
        }
        lemma_order_unique(ra, rb);
        assert(a =~= seq![a[0]] + ra);
        assert(b =~= seq![b[0]] + rb);
    }
}

/// Mempool determinism, whatever the order of arrival: two pools that hold
/// the same transactions, none of which share a digest, hand the same
/// transactions to a block, in the same order.
pub proof fn lemma_take_order_free(a: Mempool, b: Mempool, limit: usize)
    requires
        a.wf(),
        b.wf(),
        spec_hashes_distinct(a@),
        a@.to_multiset() == b@.to_multiset(),
    ensures
        a@ == b@,
        spec_hashes(a@, spec_take_count(a@, limit as int)) == spec_hashes(
            b@,
            spec_take_count(b@, limit as int),
        ),
{
    reveal(spec_pool_ok);
    lemma_order_unique(a@, b@);
}

/// Two pools that hold the same transactions in the same order hand the
/// same transactions to a block, in the same order.
pub proof fn lemma_take_deterministic(a: Mempool, b: Mempool, limit: usize)
    requires
        a@ == b@,
    ensures
        spec_hashes(a@, spec_take_count(a@, limit as int)) == spec_hashes(
            b@,
            spec_take_count(b@, limit as int),
        ),
{
}

/// A number divided by a greater one gives nothing.
pub proof fn lemma_small_quotient(a: int, b: int)
    by (nonlinear_arith)
    requires
        0 <= a < b,
    ensures
        a / b == 0,
{
}

/// What a block takes is a front part of the pool and keeps within the limit.
pub proof fn lemma_take_within(entries: Seq<PoolEntry>, limit: int)
    requires
        limit >= 0,
    ensures
        0 <= spec_take_count(entries, limit) <= entries.len(),
        spec_total_io(entries.take(spec_take_count(entries, limit))) <= limit,
    decreases entries.len(),
{
    if entries.len() == 0 || entries[0].io_count > limit {
        assert(entries.take(0) =~= Seq::<PoolEntry>::empty());
    } else {
        let rest = entries.drop_first();
        lemma_take_within(rest, limit - entries[0].io_count);
        let c = spec_take_count(rest, limit - entries[0].io_count);
        lemma_total_front(entries.take(c + 1));
        assert(entries.take(c + 1).drop_first() =~= rest.take(c));
    }
}

/// The total of a pool is that of its first entry and of the rest.
pub proof fn lemma_total_front(entries: Seq<PoolEntry>)
    requires
        entries.len() >= 1,
    ensures
        spec_total_io(entries) == entries[0].io_count + spec_total_io(entries.drop_first()),
    decreases entries.len(),
{
    if entries.len() == 1 {
        assert(entries.drop_last() =~= Seq::<PoolEntry>::empty());
        assert(entries.drop_first() =~= Seq::<PoolEntry>::empty());
    } else {
        lemma_total_front(entries.drop_last());
        assert(entries.drop_first().drop_last() =~= entries.drop_last().drop_first());
        assert(entries.drop_first().last() == entries.last());
        assert(entries.drop_last()[0] == entries[0]);
    }
}

} // verus!
