use std::collections::BTreeMap;
use stegos::block::{Output, PaymentOutput, PublicPaymentOutput, StakeOutput, Transaction};
use stegos::digest::{Digest, PublicKey};
use stegos::storage::{
    len_index, public_payment_info, time_index, AccountLog, LogEntry, LogError, OutputInfo,
    OutputValue, PaymentValue, PendingOutput, Put, StakeValue, Timestamp, TransactionStatus,
    TransactionValue,
};

fn key(n: u64) -> PublicKey {
    PublicKey { id: Digest { w0: n, w1: 0, w2: 0, w3: 0 } }
}

/// An ordered key-value store in memory, as the log writes to and reads from.
struct Store {
    rows: BTreeMap<Vec<u8>, Vec<u8>>,
}

impl Store {
    fn new() -> Store {
        Store { rows: BTreeMap::new() }
    }

    fn write(&mut self, batch: Vec<Put>) {
        for put in batch {
            self.rows.insert(put.key, put.value);
        }
    }

    fn iter_from(&self, key: &[u8]) -> Vec<(Vec<u8>, Vec<u8>)> {
        self.rows.range(key.to_vec()..).map(|(k, v)| (k.clone(), v.clone())).collect()
    }
}

fn testing_stub(id: usize) -> LogEntry {
    let public = PublicPaymentOutput { recipient: key(1), amount: id as i64 };
    LogEntry::Incoming { output: OutputValue::PublicPayment(public) }
}

fn to_buffer(entry: &LogEntry) -> Vec<u8> {
    match entry {
        LogEntry::Incoming { output: OutputValue::PublicPayment(output) } => {
            output.amount.to_be_bytes().to_vec()
        }
        _ => panic!("only stubs are stored"),
    }
}

fn is_testing_stub(saved: &[u8], id: usize) -> bool {
    saved == (id as i64).to_be_bytes()
}

fn create_entry(id: usize) -> (Timestamp, LogEntry) {
    let time = id as u64 + 1;
    (time, testing_stub(id))
}

fn iter_range(db: &Store, starting_from: Timestamp, limit: u64) -> Vec<(Timestamp, Vec<u8>)> {
    let rows = db.iter_from(&AccountLog::range_start(starting_from));
    let keys: Vec<Vec<u8>> = rows.iter().map(|(k, _)| k.clone()).collect();
    let times = AccountLog::iter_range(&keys, limit);
    times.into_iter().zip(rows.into_iter().map(|(_, v)| v)).collect()
}

#[test]
fn storage_smoke_test() {
    let entries: Vec<_> = (0..5).map(create_entry).collect();

    let mut log = AccountLog::testing();
    let mut db = Store::new();
    for (time, e) in entries.iter() {
        let (_, batch) = log.push_entry(*time, to_buffer(e));
        db.write(batch);
    }

    // ignore that limit 10, still return 5 items
    let saved = iter_range(&db, 0, 10);
    assert_eq!(saved.len(), 5);
    for ((id, (t, saved)), (time2, _)) in saved.iter().enumerate().zip(entries.iter()) {
        assert!(is_testing_stub(saved, id));
        assert_eq!(t, time2);
    }
}

#[test]
fn iter_order_bytes() {
    let entries: Vec<_> = (0..256).map(create_entry).collect();

    let mut log = AccountLog::testing();
    let mut db = Store::new();
    for (time, e) in entries.iter() {
        let (_, batch) = log.push_entry(*time, to_buffer(e));
        db.write(batch);
    }

    let saved = iter_range(&db, 0, 1000);
    assert_eq!(saved.len(), 256);
    for ((id, (t, saved)), (time2, _)) in saved.iter().enumerate().zip(entries.iter()) {
        assert!(is_testing_stub(saved, id));
        assert_eq!(t, time2);
    }
}

#[test]
fn push_duplicate_time() {
    let entries: Vec<_> = (0..2).map(create_entry).collect();
    let time = 5;
    let mut log = AccountLog::testing();
    let mut db = Store::new();
    for (_, e) in entries.iter() {
        let (_, batch) = log.push_entry(time, to_buffer(e));
        db.write(batch);
    }

    let saved = iter_range(&db, 0, 5);
    assert_eq!(saved.len(), 2);
    for (id, (t, saved)) in saved.iter().enumerate() {
        assert!(is_testing_stub(saved, id));
        assert_eq!(*t, time + id as u64);
    }
}

// Log can't save data in past time, so old timestamp should be pushed as last_known_time  +1 ms;
#[test]
fn push_past_time() {
    let entries: Vec<_> = (0..2).map(create_entry).collect();
    let time = 5;
    let mut log = AccountLog::testing();
    let mut db = Store::new();

    let mut iter = entries.iter();
    let (_, e) = iter.next().unwrap();
    let (_, batch) = log.push_entry(time, to_buffer(e));
    db.write(batch);

    let (_, e) = iter.next().unwrap();
    let (_, batch) = log.push_entry(time - 1, to_buffer(e));
    db.write(batch);

    let saved = iter_range(&db, 0, 5);
    assert_eq!(saved.len(), 2);
    for (id, (t, saved)) in saved.iter().enumerate() {
        assert!(is_testing_stub(saved, id));
        assert_eq!(*t, time + id as u64);
    }
}

#[test]
fn empty_log_at_start() {
    let log = AccountLog::testing();
    let db = Store::new();
    assert_eq!(log.len, 0);
    assert_eq!(iter_range(&db, 1000, 1), vec![]);
    assert_eq!(log.pending_txs(), vec![]);
}

#[test]
fn push_entry_writes_entry_length_and_time() {
    let mut log = AccountLog::testing();
    let (t, batch) = log.push_entry(0x0102, vec![7, 7]);
    assert_eq!(t, 0x0102);
    assert_eq!(batch.len(), 3);
    assert_eq!(batch[0].key, vec![0, 0, 0, 0, 0, 0, 1, 2]);
    assert_eq!(batch[0].value, vec![7, 7]);
    assert_eq!(batch[1].key, vec![0]);
    assert_eq!(batch[1].value, vec![0, 0, 0, 0, 0, 0, 0, 1]);
    assert_eq!(batch[2].key, vec![0, 0]);
    assert_eq!(batch[2].value, vec![0, 0, 0, 0, 0, 0, 1, 2]);
    assert_eq!(len_index(), vec![0]);
    assert_eq!(time_index(), vec![0, 0]);
    assert_eq!((log.len, log.last_time), (1, 0x0102));
    // The keys of entries come behind the two keys of the log itself.
    assert!(batch[1].key < batch[2].key && batch[2].key < AccountLog::range_start(0));
}

#[test]
fn bytes_round_trip() {
    for n in [0, 1, 255, 256, 0x0102030405060708, u64::MAX] {
        let bytes = AccountLog::bytes_from_timestamp(n);
        assert_eq!(bytes, n.to_be_bytes().to_vec());
        assert_eq!(AccountLog::bytes_from_len(n), bytes);
        assert_eq!(AccountLog::timestamp_from_bytes(&bytes), Some(n));
        assert_eq!(AccountLog::len_from_bytes(&bytes), Some(n));
    }
    assert_eq!(AccountLog::timestamp_from_bytes(&[1, 2, 3]), None);
    assert_eq!(AccountLog::len_from_bytes(&[0; 9]), None);
    // Keys sort as their times do.
    assert!(AccountLog::bytes_from_timestamp(255) < AccountLog::bytes_from_timestamp(256));
}

#[test]
fn open_reads_the_length() {
    let log = AccountLog::open(Some(&vec![0, 0, 0, 0, 0, 0, 0, 9]), 77);
    assert_eq!((log.len, log.last_time), (9, 77));
    let log = AccountLog::open(Some(&vec![1, 2]), 77);
    assert_eq!(log.len, 0);
    let log = AccountLog::open(None, 5);
    assert_eq!((log.len, log.last_time), (0, 5));
}

fn payment_value(amount: i64, is_change: bool) -> PaymentValue {
    PaymentValue {
        output: PaymentOutput { recipient: key(2), proof: vec![amount as u8], payload: vec![1] },
        amount,
        recipient: key(3),
        data: vec![b'h', b'i'],
        rvalue: None,
        is_change,
    }
}

fn outgoing(status: TransactionStatus, fee: i64) -> TransactionValue {
    let pay = payment_value(10, false);
    let change = payment_value(5, true);
    let tx = Transaction {
        inputs: vec![Digest { w0: fee as u64, w1: 1, w2: 1, w3: 1 }],
        outputs: vec![
            Output::Payment(pay.output.duplicate()),
            Output::Payment(change.output.duplicate()),
        ],
        fee,
    };
    let mut v = TransactionValue::new_payment(tx, vec![OutputValue::Payment(pay), OutputValue::Payment(change)]);
    v.status = status;
    v
}

#[test]
fn incoming_is_filed_once() {
    let mut log = AccountLog::testing();
    let out = OutputValue::PublicPayment(PublicPaymentOutput { recipient: key(1), amount: 4 });
    let (t1, batch) = log.push_incomming(10, &out, vec![1]);
    assert_eq!(t1, 10);
    assert_eq!(batch.len(), 3);
    let (t2, batch) = log.push_incomming(20, &out, vec![1]);
    assert_eq!(t2, 10);
    assert!(batch.is_empty());
    assert_eq!(log.len, 1);
    assert_eq!(log.utxos_list.get(&out.to_output().hash()), Some(10));
}

#[test]
fn outgoing_updates_the_indexes() {
    let mut log = AccountLog::testing();
    let tx = outgoing(TransactionStatus::Created, 1);
    let hash = tx.tx.hash();
    let (t, _) = log.push_outgoing(100, &tx, vec![]);
    assert_eq!(log.tx_entry(hash), Some(t));
    assert_eq!(log.tx_entry(Digest::zero()), None);
    assert_eq!(log.pending_txs(), vec![(hash, 100)]);
    assert!(!log.epoch_transactions.contains(&hash));
    // The change is known, the payment is not.
    assert!(log.is_known_changes(tx.outputs[1].to_output().hash()));
    assert!(!log.is_known_changes(tx.outputs[0].to_output().hash()));

    // Prepared: part of the epoch, no longer pending.
    let entry = LogEntry::Outgoing { tx };
    let entry = log.update_tx_status(hash, entry, TransactionStatus::Prepared { epoch: 3 }).unwrap();
    match &entry {
        LogEntry::Outgoing { tx } => assert_eq!(tx.status, TransactionStatus::Prepared { epoch: 3 }),
        _ => panic!("an outgoing entry is due"),
    }
    assert!(log.epoch_transactions.contains(&hash));
    assert_eq!(log.pending_txs(), vec![]);

    // The epoch ends: prepared becomes committed.
    let due = log.finalize_epoch_txs();
    assert_eq!(due, vec![hash]);
    let (entry, changed) = log.finalize_entry(hash, entry).unwrap();
    assert_eq!(changed, Some(TransactionStatus::Committed { epoch: 3 }));
    assert!(!log.epoch_transactions.contains(&hash));
    let (_, changed) = log.finalize_entry(hash, entry).unwrap();
    assert_eq!(changed, None);
    assert_eq!(log.finalize_epoch_txs(), vec![]);

    let incoming = testing_stub(1);
    assert_eq!(
        log.update_tx_status(hash, incoming, TransactionStatus::Accepted).err(),
        Some(LogError::ExpectedOutgoing)
    );
    assert!(log.finalize_entry(hash, testing_stub(1)).is_err());
}

#[test]
fn recover_rebuilds_the_indexes() {
    let mut log = AccountLog::open(None, 1_000);
    let accepted = outgoing(TransactionStatus::Accepted, 1);
    let prepared = outgoing(TransactionStatus::Prepared { epoch: 1 }, 2);
    let rejected = outgoing(TransactionStatus::Rejected, 3);
    log.recover_state(1, &testing_stub(4));
    log.recover_state(2, &LogEntry::Outgoing { tx: outgoing(TransactionStatus::Accepted, 1) });
    log.recover_state(3, &LogEntry::Outgoing { tx: outgoing(TransactionStatus::Prepared { epoch: 1 }, 2) });
    log.recover_state(4, &LogEntry::Outgoing { tx: outgoing(TransactionStatus::Rejected, 3) });
    assert_eq!(log.pending_txs(), vec![(accepted.tx.hash(), 2)]);
    assert_eq!(log.epoch_transactions.items, vec![prepared.tx.hash()]);
    assert_eq!(log.tx_entry(rejected.tx.hash()), Some(4));
    assert_eq!(log.utxos_list.rows.len(), 1);
    assert_eq!(log.last_time, 1_000);
}

#[test]
fn values_and_infos() {
    let pay = payment_value(10, true);
    let utxo = Output::Payment(pay.output.duplicate()).hash();
    let v = OutputValue::Payment(pay);
    assert!(v.is_change());
    assert!(v.payment().is_some() && v.public_payment().is_none() && v.stake().is_none());
    assert_eq!(v.to_output().hash(), utxo);
    match v.to_info(7) {
        OutputInfo::Payment(i) => {
            assert_eq!((i.utxo, i.amount, i.is_change, i.pending_timestamp), (utxo, 10, true, None));
            assert_eq!(i.data, b"hi".to_vec());
            assert_eq!(i.recipient, key(3));
        }
        _ => panic!("a payment is due"),
    }
    // An output that is set aside for three more seconds.
    let p = PendingOutput { time: 1_000 };
    let info = v.payment().unwrap().to_info(Some(&p), 5_000, 3_000, 1_000_000);
    assert_eq!(info.pending_timestamp, Some(1_003_000));
    let info = v.payment().unwrap().to_info(Some(&p), 5_000, 6_000, 1_000_000);
    assert_eq!(info.pending_timestamp, Some(1_000_000));
    let info = v.payment().unwrap().to_info(Some(&p), 5_000, 6_001, 1_000_000);
    assert_eq!(info.pending_timestamp, None);

    let public = PublicPaymentOutput { recipient: key(1), amount: 4 };
    let v = OutputValue::PublicPayment(public);
    assert!(!v.is_change());
    assert_eq!(v.public_payment(), Some(&public));
    let info = public_payment_info(&public);
    assert_eq!((info.utxo, info.amount), (Output::PublicPayment(public).hash(), 4));

    let stake = StakeValue {
        output: StakeOutput { recipient: key(1), validator: key(2), amount: 9, active_until_epoch: 5 },
        active_until_epoch: Some(5),
    };
    assert_eq!(stake.to_info(5).is_active, Some(true));
    assert_eq!(stake.to_info(6).is_active, Some(false));
    let unknown = StakeValue { active_until_epoch: None, ..stake };
    assert_eq!(unknown.to_info(6).is_active, None);
    let v = OutputValue::Stake(stake);
    assert_eq!(v.stake(), Some(&stake));
    match v.to_info(1) {
        OutputInfo::Staked(i) => assert_eq!((i.account_pkey, i.amount, i.utxo), (key(1), 9, v.to_output().hash())),
        _ => panic!("a stake is due"),
    }

    let tx = outgoing(TransactionStatus::Accepted, 12);
    let info = tx.to_info(0);
    assert_eq!((info.tx_hash, info.fee, info.status), (tx.tx.hash(), 12, TransactionStatus::Accepted));
    assert_eq!(info.inputs, tx.tx.inputs);
    assert_eq!(info.outputs.len(), 2);
    let info = TransactionValue::restake_tx_info(&tx.tx, &tx.outputs, 0);
    assert_eq!((info.fee, info.status), (0, TransactionStatus::Created));

    let one = Transaction { inputs: vec![], outputs: vec![Output::PublicPayment(public)], fee: 0 };
    let cloak = TransactionValue::new_cloak(one.clone(), OutputValue::PublicPayment(public));
    assert_eq!((cloak.outputs.len(), cloak.status), (1, TransactionStatus::Created));
    let st = TransactionValue::new_stake(one, vec![]);
    assert_eq!(st.status, TransactionStatus::Created);
    let two = Transaction { inputs: vec![], outputs: vec![Output::PublicPayment(public), Output::PublicPayment(public)], fee: 0 };
    assert_eq!(TransactionValue::new_snowball(two, vec![]).status, TransactionStatus::Created);
}
