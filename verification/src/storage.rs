//! Data objects used to store information about transactions, produced
//! outputs and consumed inputs of an account, and the log that keeps them
//! in the order of time.
//!
//! The log itself lives in an ordered key-value store. What is computed
//! here are the keys, the batches to write and the indexes in memory; the
//! store is read and written by the caller.

use vstd::prelude::*;
use crate::block::{Output, PaymentOutput, PublicPaymentOutput, StakeOutput, Transaction};
use crate::digest::{Digest, PublicKey, be_bytes, be_value, read_u64_be, write_u64_be};
use crate::index::{DigestMap, DigestSet};

verus! {

/// A point in time: milliseconds since the epoch of the clock.
pub type Timestamp = u64;

/// What has become of a transaction.
#[derive(Clone, Copy, Debug, PartialEq, Eq, Structural)]
pub enum TransactionStatus {
    /// Created, not yet sent to the node.
    Created,
    /// Taken into the mempool.
    Accepted,
    /// Refused by the mempool.
    Rejected,
    /// Part of a micro block.
    Prepared { epoch: u64 },
    /// The micro block that held it was reverted.
    Rollback { epoch: u64 },
    /// Part of a finished epoch.
    Committed { epoch: u64 },
    /// An input was spent by another transaction.
    Conflicted { epoch: u64 },
}

/// An entry of the account log.
#[derive(Debug)]
pub enum LogEntry {
    Incoming { output: OutputValue },
    Outgoing { tx: TransactionValue },
}

/// When an output was set aside for a transaction, by the steady clock.
#[derive(Clone, Copy, Debug, PartialEq, Eq, Structural)]
pub struct PendingOutput {
    pub time: u64,
}

/// Information about created transactions.
#[derive(Debug)]
pub struct TransactionValue {
    pub tx: Transaction,
    pub status: TransactionStatus,
    pub outputs: Vec<OutputValue>,
}

/// Represents outputs created by account, with extended info about their creation.
#[derive(Debug)]
pub enum OutputValue {
    Payment(PaymentValue),
    PublicPayment(PublicPaymentOutput),
    Stake(StakeValue),
}

#[derive(Debug)]
pub struct PaymentValue {
    pub output: PaymentOutput,
    pub amount: i64,
    /// Uncloaked public key of the owner.
    pub recipient: PublicKey,
    /// What the payload says once decrypted.
    pub data: Vec<u8>,
    pub rvalue: Option<Digest>,
    pub is_change: bool,
}

#[derive(Clone, Copy, Debug, PartialEq, Eq, Structural)]
pub struct StakeValue {
    pub output: StakeOutput,
    pub active_until_epoch: Option<u64>,
}

/// What the interface shows of a payment.
#[derive(Debug)]
pub struct PaymentInfo {
    pub utxo: Digest,
    pub amount: i64,
    pub data: Vec<u8>,
    pub pending_timestamp: Option<Timestamp>,
    pub recipient: PublicKey,
    pub rvalue: Option<Digest>,
    pub is_change: bool,
}

/// What the interface shows of a public payment.
#[derive(Clone, Copy, Debug, PartialEq, Eq, Structural)]
pub struct PublicPaymentInfo {
    pub utxo: Digest,
    pub amount: i64,
}

/// What the interface shows of a stake.
#[derive(Clone, Copy, Debug, PartialEq, Eq, Structural)]
pub struct StakeInfo {
    pub account_pkey: PublicKey,
    pub utxo: Digest,
    pub amount: i64,
    pub active_until_epoch: Option<u64>,
    pub is_active: Option<bool>,
}

/// What the interface shows of an output.
#[derive(Debug)]
pub enum OutputInfo {
    Payment(PaymentInfo),
    PublicPayment(PublicPaymentInfo),
    Staked(StakeInfo),
}

/// What the interface shows of a transaction.
#[derive(Debug)]
pub struct TransactionInfo {
    pub tx_hash: Digest,
    pub outputs: Vec<OutputInfo>,
    pub fee: i64,
    pub inputs: Vec<Digest>,
    pub status: TransactionStatus,
}

/// Why the log refused a request.
#[derive(Clone, Copy, Debug, PartialEq, Eq, Structural)]
pub enum LogError {
    /// The entry at the place given is not an outgoing transaction.
    ExpectedOutgoing,
}

impl TransactionValue {
    /// The value of a payment: one output for the recipient and at most
    /// one for the change.
    pub fn new_payment(tx: Transaction, outputs: Vec<OutputValue>) -> (r: TransactionValue)
        requires
            tx.outputs@.len() <= 2,
            tx.outputs@.len() == outputs@.len(),
        ensures
            r.tx == tx,
            r.outputs == outputs,
            r.status == TransactionStatus::Created,
    {
        TransactionValue { outputs, tx, status: TransactionStatus::Created }
    }

    /// The value of a mixed payment: two outputs or more.
    pub fn new_snowball(tx: Transaction, outputs: Vec<OutputValue>) -> (r: TransactionValue)
        requires
            tx.outputs@.len() >= 2,
        ensures
            r.tx == tx,
            r.outputs == outputs,
            r.status == TransactionStatus::Created,
    {
        TransactionValue { outputs, tx, status: TransactionStatus::Created }
    }

    /// The value of a cloaking transaction: a single output.
    pub fn new_cloak(tx: Transaction, output: OutputValue) -> (r: TransactionValue)
        requires
            tx.outputs@.len() == 1,
        ensures
            r.tx == tx,
            r.outputs@ == seq![output],
            r.status == TransactionStatus::Created,
    {
        let mut outputs: Vec<OutputValue> = Vec::new();
        outputs.push(output);
        assert(outputs@ =~= seq![output]);
        TransactionValue { outputs, tx, status: TransactionStatus::Created }
    }

    /// The value of a stake transaction.
    pub fn new_stake(tx: Transaction, outputs: Vec<OutputValue>) -> (r: TransactionValue)
        ensures
            r.tx == tx,
            r.outputs == outputs,
            r.status == TransactionStatus::Created,
    {
        TransactionValue { outputs, tx, status: TransactionStatus::Created }
    }

    /// What the interface shows of a restake transaction, which the log
    /// does not keep: no fee, and the status of a new transaction.
    pub fn restake_tx_info(tx: &Transaction, outputs: &Vec<OutputValue>, current_epoch: u64) -> (r:
        TransactionInfo)
        ensures
            r.tx_hash == tx.spec_hash(),
            r.fee == 0,
            r.inputs@ == tx.inputs@,
            r.status == TransactionStatus::Created,
            spec_infos_match(r.outputs@, outputs@, current_epoch),
    {
        TransactionInfo {
            tx_hash: tx.hash(),
            outputs: outputs_info(outputs, current_epoch),
            fee: 0,
            inputs: crate::pubsub::copy_digests(&tx.inputs),
            status: TransactionStatus::Created,
        }
    }

    /// What the interface shows of the transaction.
    pub fn to_info(&self, current_epoch: u64) -> (r: TransactionInfo)
        ensures
            r.tx_hash == self.tx.spec_hash(),
            r.fee == self.tx.fee,
            r.inputs@ == self.tx.inputs@,
            r.status == self.status,
            spec_infos_match(r.outputs@, self.outputs@, current_epoch),
    {
        TransactionInfo {
            tx_hash: self.tx.hash(),
            outputs: outputs_info(&self.outputs, current_epoch),
            fee: self.tx.fee,
            inputs: crate::pubsub::copy_digests(&self.tx.inputs),
            status: self.status,
        }
    }
}

/// Whether a list of infos shows a list of outputs, one for one.
pub open spec fn spec_infos_match(infos: Seq<OutputInfo>, outputs: Seq<OutputValue>, epoch: u64) -> bool {
    &&& infos.len() == outputs.len()
    &&& forall|i: int| 0 <= i < infos.len() ==> outputs[i].spec_shown_as(#[trigger] infos[i], epoch)
}

/// What the interface shows of each of the outputs.
pub fn outputs_info(outputs: &Vec<OutputValue>, epoch: u64) -> (r: Vec<OutputInfo>)
    ensures
        spec_infos_match(r@, outputs@, epoch),
{
    let mut out: Vec<OutputInfo> = Vec::new();
    let mut i: usize = 0;
    while i < outputs.len()
        invariant
            0 <= i <= outputs.len(),
            out@.len() == i,
            forall|k: int| 0 <= k < i ==> outputs@[k].spec_shown_as(#[trigger] out@[k], epoch),
        decreases outputs.len() - i,
    {
        out.push(outputs[i].to_info(epoch));
        i = i + 1;
    }
    out
}

/// The time until which an output stays set aside, as the wall clock
/// counts: nothing where the time is over; else the time that is left by
/// the steady clock, from now on.
pub open spec fn spec_pending_until(
    pending: Option<PendingOutput>,
    pending_time: u64,
    steady_now: u64,
    wall_now: Timestamp,
) -> Option<int> {
    match pending {
        None => None,
        Some(p) => if p.time + pending_time < steady_now {
            None
        } else {
            Some(wall_now + (p.time + pending_time - steady_now))
        },
    }
}

impl PaymentValue {
    /// The identity of the output.
    pub open spec fn spec_utxo(self) -> Digest {
        Output::Payment(self.output).spec_hash()
    }

    /// Whether `info` shows the payment.
    pub open spec fn spec_shown_as(self, info: PaymentInfo, pending_timestamp: Option<int>) -> bool {
        &&& info.utxo == self.spec_utxo()
        &&& info.amount == self.amount
        &&& info.data@ == self.data@
        &&& info.recipient == self.recipient
        &&& info.rvalue == self.rvalue
        &&& info.is_change == self.is_change
        &&& match pending_timestamp {
            None => info.pending_timestamp is None,
            Some(t) => info.pending_timestamp == Some(t as u64),
        }
    }

    /// What the interface shows of the payment. For an output that is set
    /// aside the time of its release is given.
    pub fn to_info(
        &self,
        pending: Option<&PendingOutput>,
        pending_time: u64,
        steady_now: u64,
        wall_now: Timestamp,
    ) -> (r: PaymentInfo)
        requires
            pending matches Some(p) ==> wall_now + p.time + pending_time <= u64::MAX,
        ensures
            self.spec_shown_as(
                r,
                spec_pending_until(
                    match pending {
                        Some(p) => Some(*p),
                        None => None,
                    },
                    pending_time,
                    steady_now,
                    wall_now,
                ),
            ),
    {
        // Convert Time from instant to timestamp, for visualise in API.
        let pending_timestamp = match pending {
            None => None,
            Some(p) => {
                let end = p.time + pending_time;
                if end < steady_now {
                    None
                } else {
                    Some(wall_now + (end - steady_now))
                }
            },
        };
        let out = Output::Payment(self.output.duplicate());
        assert(out.spec_encode() =~= Output::Payment(self.output).spec_encode());
        PaymentInfo {
            utxo: out.hash(),
            amount: self.amount,
            data: crate::block::copy_bytes(&self.data),
            pending_timestamp,
            recipient: self.recipient,
            rvalue: self.rvalue,
            is_change: self.is_change,
        }
    }
}

/// What the interface shows of a public payment.
pub fn public_payment_info(output: &PublicPaymentOutput) -> (r: PublicPaymentInfo)
    ensures
        r.utxo == Output::PublicPayment(*output).spec_hash(),
        r.amount == output.amount,
{
    PublicPaymentInfo { utxo: Output::PublicPayment(*output).hash(), amount: output.amount }
}

impl StakeValue {
    /// What the interface shows of the stake: it is active as long as the
    /// epoch given is not past its last one.
    pub fn to_info(&self, epoch: u64) -> (r: StakeInfo)
        ensures
            r.account_pkey == self.output.recipient,
            r.utxo == Output::Stake(self.output).spec_hash(),
            r.amount == self.output.amount,
            r.active_until_epoch == self.active_until_epoch,
            r.is_active == match self.active_until_epoch {
                Some(until) => Some(until >= epoch),
                None => None,
            },
    {
        let is_active = match self.active_until_epoch {
            Some(until) => Some(until >= epoch),
            None => None,
        };
        StakeInfo {
            account_pkey: self.output.recipient,
            utxo: Output::Stake(self.output).hash(),
            amount: self.output.amount,
            active_until_epoch: self.active_until_epoch,
            is_active,
        }
    }
}

impl OutputValue {
    /// The identity of the output.
    pub open spec fn spec_utxo(self) -> Digest {
        match self {
            OutputValue::Payment(p) => Output::Payment(p.output).spec_hash(),
            OutputValue::PublicPayment(p) => Output::PublicPayment(p).spec_hash(),
            OutputValue::Stake(s) => Output::Stake(s.output).spec_hash(),
        }
    }

    /// Whether the output is the change of a payment.
    pub open spec fn spec_is_change(self) -> bool {
        match self {
            OutputValue::Payment(p) => p.is_change,
            _ => false,
        }
    }

    /// Whether `info` shows the output.
    pub open spec fn spec_shown_as(self, info: OutputInfo, epoch: u64) -> bool {
        match (self, info) {
            (OutputValue::Payment(p), OutputInfo::Payment(i)) => p.spec_shown_as(i, None),
            (OutputValue::PublicPayment(p), OutputInfo::PublicPayment(i)) => i.utxo
                == Output::PublicPayment(p).spec_hash() && i.amount == p.amount,
            (OutputValue::Stake(s), OutputInfo::Staked(i)) => {
                &&& i.account_pkey == s.output.recipient
                &&& i.utxo == Output::Stake(s.output).spec_hash()
                &&& i.amount == s.output.amount
                &&& i.active_until_epoch == s.active_until_epoch
                &&& i.is_active == match s.active_until_epoch {
                    Some(until) => Some(until >= epoch),
                    None => None,
                }
            },
            _ => false,
        }
    }

    /// Whether the output is the change of a payment.
    pub fn is_change(&self) -> (r: bool)
        ensures
            r == self.spec_is_change(),
    {
        match self {
            // Change only possible in PaymentUtxo.
            OutputValue::Payment(p) => p.is_change,
            _ => false,
        }
    }

    /// The payment, where the output is one.
    pub fn payment(&self) -> (r: Option<&PaymentValue>)
        ensures
            match *self {
                OutputValue::Payment(p) => r == Some(&p),
                _ => r is None,
            },
    {
        match self {
            OutputValue::Payment(p) => Some(p),
            _ => None,
        }
    }

    /// The public payment, where the output is one.
    pub fn public_payment(&self) -> (r: Option<&PublicPaymentOutput>)
        ensures
            match *self {
                OutputValue::PublicPayment(p) => r == Some(&p),
                _ => r is None,
            },
    {
        match self {
            OutputValue::PublicPayment(p) => Some(p),
            _ => None,
        }
    }

    /// The stake, where the output is one.
    pub fn stake(&self) -> (r: Option<&StakeValue>)
        ensures
            match *self {
                OutputValue::Stake(s) => r == Some(&s),
                _ => r is None,
            },
    {
        match self {
            OutputValue::Stake(s) => Some(s),
            _ => None,
        }
    }

    /// What the interface shows of the output.
    pub fn to_info(&self, epoch: u64) -> (r: OutputInfo)
        ensures
            self.spec_shown_as(r, epoch),
    {
        match self {
            OutputValue::Payment(o) => OutputInfo::Payment(o.to_info(None, 0, 0, 0)),
            OutputValue::PublicPayment(o) => OutputInfo::PublicPayment(public_payment_info(o)),
            OutputValue::Stake(o) => OutputInfo::Staked(o.to_info(epoch)),
        }
    }

    /// The output as blocks hold it.
    pub fn to_output(&self) -> (r: Output)
        ensures
            r.spec_hash() == self.spec_utxo(),
            match *self {
                OutputValue::Payment(p) => r.spec_same(Output::Payment(p.output)),
                OutputValue::PublicPayment(p) => r.spec_same(Output::PublicPayment(p)),
                OutputValue::Stake(s) => r.spec_same(Output::Stake(s.output)),
            },
    {
        match self {
            OutputValue::Payment(o) => {
                let r = Output::Payment(o.output.duplicate());
                assert(r.spec_encode() =~= Output::Payment(o.output).spec_encode());
                r
            },
            OutputValue::PublicPayment(o) => Output::PublicPayment(*o),
            OutputValue::Stake(o) => Output::Stake(o.output),
        }
    }
}

/// The key under which the store keeps the length of the log.
pub open spec fn spec_len_index() -> Seq<u8> {
    seq![0u8]
}

/// The key under which the store keeps the time of the last entry.
pub open spec fn spec_time_index() -> Seq<u8> {
    seq![0u8, 0u8]
}

/// The key under which the store keeps the length of the log.
pub fn len_index() -> (r: Vec<u8>)
    ensures
        r@ == spec_len_index(),
{
    let mut k: Vec<u8> = Vec::new();
    k.push(0);
    assert(k@ =~= spec_len_index());
    k
}

/// The key under which the store keeps the time of the last entry.
pub fn time_index() -> (r: Vec<u8>)
    ensures
        r@ == spec_time_index(),
{
    let mut k: Vec<u8> = Vec::new();
    k.push(0);
    k.push(0);
    assert(k@ =~= spec_time_index());
    k
}

/// One write to the store.
#[derive(Debug)]
pub struct Put {
    pub key: Vec<u8>,
    pub value: Vec<u8>,
}

/// What a batch of writes says: keys and values.
pub open spec fn spec_puts(batch: Seq<Put>) -> Seq<(Seq<u8>, Seq<u8>)> {
    Seq::new(batch.len(), |i: int| (batch[i].key@, batch[i].value@))
}

/// The time under which an entry is filed: the time given, or, where the
/// log has reached that time already, the millisecond after its last entry.
pub open spec fn spec_file_time(last_time: Timestamp, timestamp: Timestamp) -> int {
    if timestamp <= last_time {
        last_time + 1
    } else {
        timestamp as int
    }
}

/// The log of an account: what is known of the store, and the indexes
/// over its entries.
#[derive(Debug)]
pub struct AccountLog {
    /// Len of account log.
    pub len: u64,
    /// Last known system time.
    pub last_time: Timestamp,
    /// Index of UTXOs that are known to be change.
    pub known_changes: DigestSet,
    /// Index of all outputs received by this wallet.
    pub utxos_list: DigestMap,
    /// Index of all transactions created by this wallet.
    pub created_txs: DigestMap,
    /// Index of all transactions that were not rejected or committed.
    pub pending_txs: DigestSet,
    /// Transactions that were created in the current epoch.
    pub epoch_transactions: DigestSet,
}

impl AccountLog {
    /// What holds of every log: its indexes are sound, and every pending
    /// transaction is one that the log has filed.
    pub open spec fn wf(&self) -> bool {
        &&& self.known_changes.wf()
        &&& self.utxos_list.wf()
        &&& self.created_txs.wf()
        &&& self.pending_txs.wf()
        &&& self.epoch_transactions.wf()
        &&& forall|d: Digest|
            self.pending_txs@.contains(d) ==> #[trigger] self.created_txs@.contains_key(d)
    }

    /// A log over an empty store.
    pub fn testing() -> (r: AccountLog)
        ensures
            r.wf(),
            r.len == 0,
            r.last_time == 0,
            r.known_changes@ == Set::<Digest>::empty(),
            r.utxos_list@ == Map::<Digest, u64>::empty(),
            r.created_txs@ == Map::<Digest, u64>::empty(),
            r.pending_txs@ == Set::<Digest>::empty(),
            r.epoch_transactions@ == Set::<Digest>::empty(),
    {
        AccountLog {
            len: 0,
            last_time: 0,
            created_txs: DigestMap::new(),
            pending_txs: DigestSet::new(),
            epoch_transactions: DigestSet::new(),
            utxos_list: DigestMap::new(),
            known_changes: DigestSet::new(),
        }
    }

    /// A log over a store that is opened: the length is what the store
    /// keeps under the length key, nothing where it keeps nothing or not
    /// eight bytes; the last time is now. The indexes are empty until the
    /// entries are recovered.
    pub fn open(len_bytes: Option<&Vec<u8>>, now: Timestamp) -> (r: AccountLog)
        ensures
            r.wf(),
            r.len == match len_bytes {
                Some(b) => if b@.len() == 8 {
                    be_value(b@)
                } else {
                    0
                },
                None => 0,
            },
            r.last_time == now,
            r.known_changes@ == Set::<Digest>::empty(),
            r.utxos_list@ == Map::<Digest, u64>::empty(),
            r.created_txs@ == Map::<Digest, u64>::empty(),
            r.pending_txs@ == Set::<Digest>::empty(),
            r.epoch_transactions@ == Set::<Digest>::empty(),
    {
        let len = match len_bytes {
            Some(b) => match AccountLog::len_from_bytes(b.as_slice()) {
                Some(l) => l,
                None => 0,
            },
            None => 0,
        };
        AccountLog {
            len,
            last_time: now,
            created_txs: DigestMap::new(),
            pending_txs: DigestSet::new(),
            epoch_transactions: DigestSet::new(),
            utxos_list: DigestMap::new(),
            known_changes: DigestSet::new(),
        }
    }

    /// Whether the output is known to be the change of a payment.
    pub fn is_known_changes(&self, utxo: Digest) -> (r: bool)
        ensures
            r == self.known_changes@.contains(utxo),
    {
        self.known_changes.contains(&utxo)
    }

    /// Returns exact timestamp of created transaction, if tx found.
    pub fn tx_entry(&self, tx_hash: Digest) -> (r: Option<Timestamp>)
        requires
            self.wf(),
        ensures
            r is Some <==> self.created_txs@.contains_key(tx_hash),
            r matches Some(t) ==> t == self.created_txs@[tx_hash],
    {
        self.created_txs.get(&tx_hash)
    }

    /// Convert timestamp to bytearray.
    pub fn bytes_from_timestamp(timestamp: Timestamp) -> (r: Vec<u8>)
        ensures
            r@ == be_bytes(timestamp),
            r@.len() == 8,
    {
        write_u64_be(timestamp)
    }

    /// Convert length to bytearray.
    pub fn bytes_from_len(len: u64) -> (r: Vec<u8>)
        ensures
            r@ == be_bytes(len),
            r@.len() == 8,
    {
        write_u64_be(len)
    }

    /// Convert bytearray to timestamp.
    pub fn timestamp_from_bytes(bytes: &[u8]) -> (r: Option<Timestamp>)
        ensures
            r == if bytes@.len() == 8 {
                Some(be_value(bytes@))
            } else {
                None
            },
    {
        if bytes.len() == 8 {
            Some(read_u64_be(bytes))
        } else {
            None
        }
    }

    /// Convert bytearray to length.
    pub fn len_from_bytes(bytes: &[u8]) -> (r: Option<u64>)
        ensures
            r == if bytes@.len() == 8 {
                Some(be_value(bytes@))
            } else {
                None
            },
    {
        if bytes.len() == 8 {
            Some(read_u64_be(bytes))
        } else {
            None
        }
    }

    /// Files an entry as the last of the log. The entry gets a time of its
    /// own: the time given, or the millisecond after the last entry where
    /// the time given is not later than that. The answer holds the time and
    /// the batch to write: the entry under its time, the new length, and
    /// the time of the last entry.
    pub fn push_entry(&mut self, timestamp: Timestamp, data: Vec<u8>) -> (r: (Timestamp, Vec<Put>))
        requires
            old(self).len < u64::MAX,
            timestamp > old(self).last_time || old(self).last_time < u64::MAX,
        ensures
            r.0 == spec_file_time(old(self).last_time, timestamp),
            r.0 > old(self).last_time,
            final(self).last_time == r.0,
            final(self).len == old(self).len + 1,
            spec_puts(r.1@) == seq![
                (be_bytes(r.0), data@),
                (spec_len_index(), be_bytes(final(self).len)),
                (spec_time_index(), be_bytes(r.0)),
            ],
            final(self).known_changes == old(self).known_changes,
            final(self).utxos_list == old(self).utxos_list,
            final(self).created_txs == old(self).created_txs,
            final(self).pending_txs == old(self).pending_txs,
            final(self).epoch_transactions == old(self).epoch_transactions,
    {
        // avoid key collisions by increasing time.
        let time = if timestamp <= self.last_time {
            self.last_time + 1
        } else {
            timestamp
        };
        self.last_time = time;
        let len = self.len + 1;
        let mut batch: Vec<Put> = Vec::new();
        batch.push(Put { key: AccountLog::bytes_from_timestamp(time), value: data });
        batch.push(Put { key: len_index(), value: AccountLog::bytes_from_len(len) });
        batch.push(Put { key: time_index(), value: AccountLog::bytes_from_timestamp(time) });
        self.len = len;
        assert(spec_puts(batch@) =~= seq![
            (be_bytes(time), data@),
            (spec_len_index(), be_bytes(len)),
            (spec_time_index(), be_bytes(time)),
        ]);
        (time, batch)
    }

    /// Brings the indexes of a transaction in line with its status: a
    /// prepared transaction belongs to the current epoch; a created or
    /// accepted one is pending.
    pub fn update_tx_indexes(&mut self, tx_hash: Digest, status: TransactionStatus)
        requires
            old(self).wf(),
            status is Created || status is Accepted ==> old(self).created_txs@.contains_key(tx_hash),
        ensures
            final(self).wf(),
            final(self).epoch_transactions@ == if status is Prepared {
                old(self).epoch_transactions@.insert(tx_hash)
            } else {
                old(self).epoch_transactions@.remove(tx_hash)
            },
            final(self).pending_txs@ == if status is Created || status is Accepted {
                old(self).pending_txs@.insert(tx_hash)
            } else {
                old(self).pending_txs@.remove(tx_hash)
            },
            final(self).len == old(self).len,
            final(self).last_time == old(self).last_time,
            final(self).known_changes == old(self).known_changes,
            final(self).utxos_list == old(self).utxos_list,
            final(self).created_txs == old(self).created_txs,
    {
        // update epoch transactions
        match status {
            TransactionStatus::Prepared { .. } => {
                let _ = self.epoch_transactions.insert(tx_hash);
            },
            _ => {
                let _ = self.epoch_transactions.remove(&tx_hash);
            },
        }
        // update pending transactions
        match status {
            TransactionStatus::Created | TransactionStatus::Accepted => {
                let _ = self.pending_txs.insert(tx_hash);
            },
            _ => {
                let _ = self.pending_txs.remove(&tx_hash);
            },
        }
    }

    /// Files an incoming output as the last entry of the log, unless the
    /// log holds the output already: then nothing is written, and the
    /// answer is the time under which the output stands.
    pub fn push_incomming(&mut self, timestamp: Timestamp, incoming: &OutputValue, data: Vec<u8>) -> (r:
        (Timestamp, Vec<Put>))
        requires
            old(self).wf(),
            old(self).len < u64::MAX,
            timestamp > old(self).last_time || old(self).last_time < u64::MAX,
        ensures
            final(self).wf(),
            old(self).utxos_list@.contains_key(incoming.spec_utxo()) ==> {
                &&& r.0 == old(self).utxos_list@[incoming.spec_utxo()]
                &&& r.1@.len() == 0
                &&& *final(self) == *old(self)
            },
            !old(self).utxos_list@.contains_key(incoming.spec_utxo()) ==> {
                &&& r.0 == spec_file_time(old(self).last_time, timestamp)
                &&& final(self).last_time == r.0
                &&& final(self).len == old(self).len + 1
                &&& final(self).utxos_list@ == old(self).utxos_list@.insert(
                    incoming.spec_utxo(),
                    r.0,
                )
                &&& spec_puts(r.1@) == seq![
                    (be_bytes(r.0), data@),
                    (spec_len_index(), be_bytes(final(self).len)),
                    (spec_time_index(), be_bytes(r.0)),
                ]
                &&& final(self).known_changes == old(self).known_changes
                &&& final(self).created_txs == old(self).created_txs
                &&& final(self).pending_txs == old(self).pending_txs
                &&& final(self).epoch_transactions == old(self).epoch_transactions
            },
    {
        let output_hash = incoming.to_output().hash();
        match self.utxos_list.get(&output_hash) {
            Some(time) => {
                return (time, Vec::new());
            },
            None => {},
        }
        let (time, batch) = self.push_entry(timestamp, data);
        let _ = self.utxos_list.insert(output_hash, time);
        (time, batch)
    }

    /// The identities of the outputs that are change.
    pub open spec fn spec_changes(outputs: Seq<OutputValue>) -> Set<Digest> {
        Set::new(
            |d: Digest|
                exists|i: int|
                    0 <= i < outputs.len() && (#[trigger] outputs[i]).spec_is_change() && outputs[i].spec_utxo()
                        == d,
        )
    }

    /// Takes note of the outputs that are change.
    pub fn note_changes(&mut self, outputs: &Vec<OutputValue>)
        requires
            old(self).wf(),
        ensures
            final(self).wf(),
            final(self).known_changes@ == old(self).known_changes@.union(
                AccountLog::spec_changes(outputs@),
            ),
            final(self).len == old(self).len,
            final(self).last_time == old(self).last_time,
            final(self).utxos_list == old(self).utxos_list,
            final(self).created_txs == old(self).created_txs,
            final(self).pending_txs == old(self).pending_txs,
            final(self).epoch_transactions == old(self).epoch_transactions,
    {
        let mut i: usize = 0;
        assert(self.known_changes@ =~= old(self).known_changes@.union(
            AccountLog::spec_changes(outputs@.take(0)),
        ));
        while i < outputs.len()
            invariant
                0 <= i <= outputs.len(),
                self.wf(),
                self.known_changes@ == old(self).known_changes@.union(
                    AccountLog::spec_changes(outputs@.take(i as int)),
                ),
                self.len == old(self).len,
                self.last_time == old(self).last_time,
                self.utxos_list == old(self).utxos_list,
                self.created_txs == old(self).created_txs,
                self.pending_txs == old(self).pending_txs,
                self.epoch_transactions == old(self).epoch_transactions,
            decreases outputs.len() - i,
        {
            let ghost before = self.known_changes@;
            let utxo = &outputs[i];
            if utxo.is_change() {
                let utxo_hash = utxo.to_output().hash();
                let _ = self.known_changes.insert(utxo_hash);
            }
            proof {
                let a = AccountLog::spec_changes(outputs@.take(i as int));
                let b = AccountLog::spec_changes(outputs@.take(i + 1));
                let o = outputs@[i as int];
                assert forall|d: Digest| b.contains(d) <==> a.contains(d) || (o.spec_is_change()
                    && o.spec_utxo() == d) by {
                    if a.contains(d) {
                        let k = choose|k: int|
                            0 <= k < outputs@.take(i as int).len() && (#[trigger] outputs@.take(
                                i as int,
                            )[k]).spec_is_change() && outputs@.take(i as int)[k].spec_utxo() == d;
                        assert(outputs@.take(i + 1)[k] == outputs@.take(i as int)[k]);
                    }
                    if o.spec_is_change() && o.spec_utxo() == d {
                        assert(outputs@.take(i + 1)[i as int] == o);
                    }
                    if b.contains(d) {
                        let k = choose|k: int|
                            0 <= k < outputs@.take(i + 1).len() && (#[trigger] outputs@.take(i + 1)[k]).spec_is_change()
                                && outputs@.take(i + 1)[k].spec_utxo() == d;
                        if k < i {
                            assert(outputs@.take(i as int)[k] == outputs@.take(i + 1)[k]);
                        }
                    }
                }
                assert(self.known_changes@ =~= old(self).known_changes@.union(b));
            }
            i = i + 1;
        }
        assert(outputs@.take(i as int) =~= outputs@);
    }

    /// Files an outgoing transaction as the last entry of the log, and
    /// takes it into the indexes.
    pub fn push_outgoing(&mut self, timestamp: Timestamp, tx: &TransactionValue, data: Vec<u8>) -> (r:
        (Timestamp, Vec<Put>))
        requires
            old(self).wf(),
            old(self).len < u64::MAX,
            timestamp > old(self).last_time || old(self).last_time < u64::MAX,
            !old(self).created_txs@.contains_key(tx.tx.spec_hash()),
        ensures
            final(self).wf(),
            r.0 == spec_file_time(old(self).last_time, timestamp),
            final(self).last_time == r.0,
            final(self).len == old(self).len + 1,
            spec_puts(r.1@) == seq![
                (be_bytes(r.0), data@),
                (spec_len_index(), be_bytes(final(self).len)),
                (spec_time_index(), be_bytes(r.0)),
            ],
            final(self).created_txs@ == old(self).created_txs@.insert(tx.tx.spec_hash(), r.0),
            final(self).epoch_transactions@ == if tx.status is Prepared {
                old(self).epoch_transactions@.insert(tx.tx.spec_hash())
            } else {
                old(self).epoch_transactions@.remove(tx.tx.spec_hash())
            },
            final(self).pending_txs@ == if tx.status is Created || tx.status is Accepted {
                old(self).pending_txs@.insert(tx.tx.spec_hash())
            } else {
                old(self).pending_txs@.remove(tx.tx.spec_hash())
            },
            final(self).known_changes@ == old(self).known_changes@.union(
                AccountLog::spec_changes(tx.outputs@),
            ),
            final(self).utxos_list == old(self).utxos_list,
    {
        let tx_hash = tx.tx.hash();
        let status = tx.status;
        let (time, batch) = self.push_entry(timestamp, data);
        let _ = self.created_txs.insert(tx_hash, time);
        self.update_tx_indexes(tx_hash, status);
        self.note_changes(&tx.outputs);
        (time, batch)
    }

    /// Gives the transaction of a log entry a new status, and brings the
    /// indexes in line. The entry comes back as it is to be written. An
    /// entry that holds no transaction is refused, and nothing changes.
    pub fn update_tx_status(&mut self, tx_hash: Digest, entry: LogEntry, status: TransactionStatus) -> (r:
        Result<LogEntry, LogError>)
        requires
            old(self).wf(),
            status is Created || status is Accepted ==> old(self).created_txs@.contains_key(tx_hash),
        ensures
            final(self).wf(),
            entry is Incoming ==> r == Err::<LogEntry, LogError>(LogError::ExpectedOutgoing) && *final(self) == *old(self),
            entry matches LogEntry::Outgoing { tx } ==> {
                &&& r matches Ok(LogEntry::Outgoing { tx: updated })
                &&& updated.tx == tx.tx
                &&& updated.outputs == tx.outputs
                &&& updated.status == status
                &&& final(self).epoch_transactions@ == if status is Prepared {
                    old(self).epoch_transactions@.insert(tx_hash)
                } else {
                    old(self).epoch_transactions@.remove(tx_hash)
                }
                &&& final(self).pending_txs@ == if status is Created || status is Accepted {
                    old(self).pending_txs@.insert(tx_hash)
                } else {
                    old(self).pending_txs@.remove(tx_hash)
                }
                &&& final(self).len == old(self).len
                &&& final(self).last_time == old(self).last_time
                &&& final(self).known_changes == old(self).known_changes
                &&& final(self).utxos_list == old(self).utxos_list
                &&& final(self).created_txs == old(self).created_txs
            },
    {
        match entry {
            LogEntry::Incoming { .. } => Err(LogError::ExpectedOutgoing),
            LogEntry::Outgoing { tx } => {
                let updated = TransactionValue { tx: tx.tx, status, outputs: tx.outputs };
                self.update_tx_indexes(tx_hash, status);
                Ok(LogEntry::Outgoing { tx: updated })
            },
        }
    }

    /// The status with which a transaction leaves the epoch: a prepared
    /// transaction is committed; any other keeps its status.
    pub open spec fn spec_final_status(status: TransactionStatus) -> Option<TransactionStatus> {
        match status {
            TransactionStatus::Prepared { epoch } => Some(TransactionStatus::Committed { epoch }),
            _ => None,
        }
    }

    /// Closes the epoch for one transaction of it, of which the log entry
    /// has been read: a prepared transaction becomes committed, and leaves
    /// the pending ones. The answer holds the entry as it is to be
    /// written, and the new status where there is one.
    pub fn finalize_entry(&mut self, tx_hash: Digest, entry: LogEntry) -> (r: Result<
        (LogEntry, Option<TransactionStatus>),
        LogError,
    >)
        requires
            old(self).wf(),
        ensures
            final(self).wf(),
            entry is Incoming ==> r is Err && *final(self) == *old(self),
            entry matches LogEntry::Outgoing { tx } ==> {
                &&& r matches Ok((LogEntry::Outgoing { tx: updated }, changed))
                &&& changed == AccountLog::spec_final_status(tx.status)
                &&& updated.tx == tx.tx
                &&& updated.outputs == tx.outputs
                &&& updated.status == match changed {
                    Some(s) => s,
                    None => tx.status,
                }
                &&& changed is Some ==> final(self).pending_txs@ == old(self).pending_txs@.remove(
                    tx_hash,
                ) && final(self).epoch_transactions@ == old(self).epoch_transactions@.remove(tx_hash)
                &&& changed is None ==> *final(self) == *old(self)
                &&& final(self).len == old(self).len
                &&& final(self).last_time == old(self).last_time
                &&& final(self).known_changes == old(self).known_changes
                &&& final(self).utxos_list == old(self).utxos_list
                &&& final(self).created_txs == old(self).created_txs
            },
    {
        match entry {
            LogEntry::Incoming { .. } => Err(LogError::ExpectedOutgoing),
            LogEntry::Outgoing { tx } => {
                match tx.status {
                    TransactionStatus::Prepared { epoch } => {
                        let status = TransactionStatus::Committed { epoch };
                        let updated = TransactionValue { tx: tx.tx, status, outputs: tx.outputs };
                        self.update_tx_indexes(tx_hash, status);
                        Ok((LogEntry::Outgoing { tx: updated }, Some(status)))
                    },
                    _ => Ok((LogEntry::Outgoing { tx }, None)),
                }
            },
        }
    }

    /// Opens the closing of an epoch: the transactions of the epoch leave
    /// their index and are handed out, so that each can be read from the
    /// store and closed with `finalize_entry`.
    pub fn finalize_epoch_txs(&mut self) -> (r: Vec<Digest>)
        requires
            old(self).wf(),
        ensures
            final(self).wf(),
            final(self).epoch_transactions@ == Set::<Digest>::empty(),
            r@ == old(self).epoch_transactions.items@,
            final(self).len == old(self).len,
            final(self).last_time == old(self).last_time,
            final(self).known_changes == old(self).known_changes,
            final(self).utxos_list == old(self).utxos_list,
            final(self).created_txs == old(self).created_txs,
            final(self).pending_txs == old(self).pending_txs,
    {
        self.epoch_transactions.take()
    }

    /// Takes one entry of the store into the indexes, as the log is opened
    /// and its entries are read in turn.
    pub fn recover_state(&mut self, timestamp: Timestamp, entry: &LogEntry)
        requires
            old(self).wf(),
            entry matches LogEntry::Incoming { output } ==> !old(self).utxos_list@.contains_key(
                output.spec_utxo(),
            ),
            entry matches LogEntry::Outgoing { tx } ==> !old(self).created_txs@.contains_key(
                tx.tx.spec_hash(),
            ),
        ensures
            final(self).wf(),
            final(self).len == old(self).len,
            final(self).last_time == old(self).last_time,
            entry matches LogEntry::Incoming { output } ==> {
                &&& final(self).utxos_list@ == old(self).utxos_list@.insert(
                    output.spec_utxo(),
                    timestamp,
                )
                &&& final(self).created_txs == old(self).created_txs
                &&& final(self).known_changes == old(self).known_changes
                &&& final(self).pending_txs == old(self).pending_txs
                &&& final(self).epoch_transactions == old(self).epoch_transactions
            },
            entry matches LogEntry::Outgoing { tx } ==> {
                &&& final(self).created_txs@ == old(self).created_txs@.insert(
                    tx.tx.spec_hash(),
                    timestamp,
                )
                &&& final(self).utxos_list == old(self).utxos_list
                &&& final(self).epoch_transactions@ == if tx.status is Prepared {
                    old(self).epoch_transactions@.insert(tx.tx.spec_hash())
                } else {
                    old(self).epoch_transactions@.remove(tx.tx.spec_hash())
                }
                &&& final(self).pending_txs@ == if tx.status is Created || tx.status is Accepted {
                    old(self).pending_txs@.insert(tx.tx.spec_hash())
                } else {
                    old(self).pending_txs@.remove(tx.tx.spec_hash())
                }
                &&& final(self).known_changes@ == old(self).known_changes@.union(
                    AccountLog::spec_changes(tx.outputs@),
                )
            },
    {
        match entry {
            LogEntry::Incoming { output } => {
                let output_hash = output.to_output().hash();
                let _ = self.utxos_list.insert(output_hash, timestamp);
            },
            LogEntry::Outgoing { tx } => {
                let tx_hash = tx.tx.hash();
                let _ = self.created_txs.insert(tx_hash, timestamp);
                self.update_tx_indexes(tx_hash, tx.status);
                self.note_changes(&tx.outputs);
            },
        }
    }

    /// The pending transactions, each with the time under which the store
    /// keeps it.
    pub fn pending_txs(&self) -> (r: Vec<(Digest, Timestamp)>)
        requires
            self.wf(),
        ensures
            r@.len() == self.pending_txs.items@.len(),
            forall|i: int|
                0 <= i < r@.len() ==> (#[trigger] r@[i]).0 == self.pending_txs.items@[i] && r@[i].1
                    == self.created_txs@[r@[i].0],
    {
        let mut out: Vec<(Digest, Timestamp)> = Vec::new();
        let mut i: usize = 0;
        while i < self.pending_txs.items.len()
            invariant
                0 <= i <= self.pending_txs.items@.len(),
                self.wf(),
                out@.len() == i,
                forall|k: int|
                    0 <= k < i ==> (#[trigger] out@[k]).0 == self.pending_txs.items@[k] && out@[k].1
                        == self.created_txs@[out@[k].0],
            decreases self.pending_txs.items@.len() - i,
        {
            let tx_hash = self.pending_txs.items[i];
            assert(self.pending_txs.items@.contains(tx_hash));
            assert(self.pending_txs@.contains(tx_hash));
            let time = self.created_txs.get(&tx_hash).unwrap();
            out.push((tx_hash, time));
            i = i + 1;
        }
        out
    }

    /// The key from which the store is read for the entries from a time on.
    pub fn range_start(starting_from: Timestamp) -> (r: Vec<u8>)
        ensures
            r@ == be_bytes(starting_from),
    {
        AccountLog::bytes_from_timestamp(starting_from)
    }

    /// The times of the entries that the store hands out from a key on, at
    /// most `limit` of them, in the order of the store. Each key must be
    /// that of an entry: eight bytes.
    pub fn iter_range(keys: &Vec<Vec<u8>>, limit: u64) -> (r: Vec<Timestamp>)
        requires
            forall|i: int| 0 <= i < keys@.len() ==> (#[trigger] keys@[i])@.len() == 8,
        ensures
            r@.len() == if keys@.len() <= limit {
                keys@.len()
            } else {
                limit as nat
            },
            forall|i: int| 0 <= i < r@.len() ==> r@[i] == be_value((#[trigger] keys@[i])@),
    {
        let mut out: Vec<Timestamp> = Vec::new();
        let mut i: usize = 0;
        while i < keys.len() && (i as u64) < limit
            invariant
                0 <= i <= keys@.len(),
                i <= limit,
                out@.len() == i,
                forall|k: int| 0 <= k < keys@.len() ==> (#[trigger] keys@[k])@.len() == 8,
                forall|k: int| 0 <= k < i ==> out@[k] == be_value((#[trigger] keys@[k])@),
            decreases keys@.len() - i,
        {
            let t = AccountLog::timestamp_from_bytes(keys[i].as_slice()).unwrap();
            out.push(t);
            i = i + 1;
        }
        out
    }
}

/// The log never files two entries under one time: the time of a new
/// entry is later than that of every entry before it.
pub proof fn lemma_file_time_later(last_time: Timestamp, timestamp: Timestamp)
    ensures
        spec_file_time(last_time, timestamp) > last_time,
        spec_file_time(last_time, timestamp) >= timestamp,
{
}

} // verus!
