use stegos::block::Header;
use stegos::config::{ChainConfig, NodeConfig};
use stegos::digest::Digest;
use stegos::wire::{frame, unframe, BlockRecord, HEADER_LEN, TAG_MACRO, TAG_MICRO};

fn header() -> Header {
    Header {
        version: 1,
        previous: Digest { w0: 1, w1: 2, w2: 3, w3: 4 },
        epoch: 7,
        offset: 3,
        view: u32::MAX,
        timestamp: 1_600_000_000_000,
        random: Digest { w0: u64::MAX, w1: 0, w2: 9, w3: 8 },
    }
}

#[test]
fn frame_puts_the_length_in_front() {
    assert_eq!(frame(&vec![]), vec![0, 0, 0, 0, 0, 0, 0, 0]);
    assert_eq!(frame(&vec![7, 8, 9]), vec![0, 0, 0, 0, 0, 0, 0, 3, 7, 8, 9]);
    let long = vec![5u8; 300];
    let framed = frame(&long);
    assert_eq!(&framed[..8], &[0, 0, 0, 0, 0, 0, 1, 44]);
    assert_eq!(&framed[8..], &long[..]);
}

#[test]
fn unframe_takes_one_record() {
    let mut bytes = frame(&vec![7, 8, 9]);
    bytes.extend(frame(&vec![1]));
    assert_eq!(unframe(&bytes), Some((8, 11)));
    assert_eq!(unframe(&bytes[11..]), Some((8, 9)));
    assert_eq!(unframe(&bytes[20..]), None);
    // A record that has not arrived whole yet.
    assert_eq!(unframe(&bytes[..10]), None);
    assert_eq!(unframe(&bytes[..7]), None);
    assert_eq!(unframe(&[]), None);
    assert_eq!(unframe(&[0, 0, 0, 0, 0, 0, 0, 0]), Some((8, 8)));
    assert_eq!(unframe(&[255, 255, 255, 255, 255, 255, 255, 255, 1]), None);
}

#[test]
fn header_round_trip() {
    let h = header();
    let bytes = h.encode();
    assert_eq!(bytes.len(), HEADER_LEN);
    assert_eq!(Header::decode(&bytes), Some(h));
    assert_eq!(Header::decode(&bytes[..103]), None);
    let mut long = bytes.clone();
    long.push(0);
    assert_eq!(Header::decode(&long), None);
    // An offset that does not fit.
    let mut bad = bytes.clone();
    bad[51] = 1;
    assert_eq!(Header::decode(&bad), None);
    let mut bad = bytes;
    bad[59] = 1;
    assert_eq!(Header::decode(&bad), None);
}

#[test]
fn record_round_trip() {
    for (is_macro, tag) in [(false, TAG_MICRO), (true, TAG_MACRO)] {
        let record = BlockRecord { header: header(), is_macro, body: vec![1, 2, 3] };
        let bytes = record.encode();
        assert_eq!(bytes.len(), 108);
        assert_eq!(bytes[104], tag);
        let back = BlockRecord::decode(&bytes).unwrap();
        assert_eq!((back.header, back.is_macro, back.body), (header(), is_macro, vec![1, 2, 3]));
    }
    let empty = BlockRecord { header: header(), is_macro: true, body: vec![] };
    let bytes = empty.encode();
    assert_eq!(BlockRecord::decode(&bytes).unwrap().body, Vec::<u8>::new());
    assert!(BlockRecord::decode(&bytes[..104]).is_none());
    let mut bad = bytes.clone();
    bad[104] = 2;
    assert!(BlockRecord::decode(&bad).is_none());
    let mut bad = bytes;
    bad[48] = 1;
    assert!(BlockRecord::decode(&bad).is_none());
}

#[test]
fn chain_config_and_timeouts() {
    let c = ChainConfig { blocks_in_epoch: 5, stake_epochs: 2 };
    assert_eq!(c.active_until(7), 9);
    assert_eq!(c.active_until(u64::MAX), u64::MAX);
    assert_eq!(c.active_until(u64::MAX - 2), u64::MAX);
    let mut n = NodeConfig::default();
    assert_eq!(n.auto_commit_timeout(), 30_000);
    n.micro_block_timeout = 5_000;
    assert_eq!(n.auto_commit_timeout(), 5_000);
    n.macro_block_timeout = 1_000;
    assert_eq!(n.auto_commit_timeout(), 1_000);
}
