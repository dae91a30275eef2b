//! The wire format of blocks: a record behind its length, which holds the
//! header in its canonical encoding, a tag for the tier and the body.

use vstd::prelude::*;
use vstd::slice::slice_subrange;
use crate::block::{Header, push_u64, spec_blob};
use crate::digest::{
    Digest, be_bytes, be_value, lemma_be_round_trip, lemma_be_value_round_trip,
    lemma_digest_round_trip, read_u64_be,
};

verus! {

/// The length of the canonical encoding of a header.
pub const HEADER_LEN: usize = 104;

/// The tag of a micro block.
pub const TAG_MICRO: u8 = 0;

/// The tag of a macro block.
pub const TAG_MACRO: u8 = 1;

/// A block as it goes over the wire: the header, the tier and the bytes of
/// the body.
#[derive(Debug)]
pub struct BlockRecord {
    pub header: Header,
    pub is_macro: bool,
    pub body: Vec<u8>,
}

/// The record that stands at the front of the bytes behind its length, and
/// the number of bytes that it takes with its length. Nothing, where the
/// bytes are fewer than the length says.
pub open spec fn spec_unframe(bytes: Seq<u8>) -> Option<(Seq<u8>, int)> {
    if bytes.len() >= 8 && be_value(bytes) <= bytes.len() - 8 {
        Some((bytes.subrange(8, 8 + be_value(bytes)), 8 + be_value(bytes)))
    } else {
        None
    }
}

/// A record behind its length.
pub fn frame(record: &Vec<u8>) -> (r: Vec<u8>)
    ensures
        r@ == spec_blob(record@),
{
    let mut out: Vec<u8> = Vec::new();
    crate::block::push_blob(&mut out, record);
    assert(out@ =~= spec_blob(record@));
    out
}

/// Takes the record at the front of the bytes: where it begins and where
/// it ends. Nothing, where the bytes do not hold all of it yet.
pub fn unframe(bytes: &[u8]) -> (r: Option<(usize, usize)>)
    ensures
        match r {
            Some((start, end)) => start == 8 && end <= bytes@.len() && spec_unframe(bytes@) == Some(
                (bytes@.subrange(start as int, end as int), end as int),
            ),
            None => spec_unframe(bytes@) is None,
        },
{
    if bytes.len() < 8 {
        return None;
    }
    let len = read_u64_be(bytes);
    if len > (bytes.len() - 8) as u64 {
        return None;
    }
    Some((8, 8 + len as usize))
}

/// What has been framed comes out again, whatever follows it.
pub proof fn lemma_unframe_frame(record: Seq<u8>, rest: Seq<u8>)
    requires
        record.len() <= u64::MAX,
    ensures
        spec_unframe(spec_blob(record) + rest) == Some((record, 8 + record.len() as int)),
{
    let bytes = spec_blob(record) + rest;
    let len = be_bytes(record.len() as u64);
    lemma_be_round_trip(record.len() as u64);
    assert(be_value(bytes) == be_value(len)) by {
        assert(bytes[0] == len[0] && bytes[1] == len[1] && bytes[2] == len[2] && bytes[3] == len[3]
            && bytes[4] == len[4] && bytes[5] == len[5] && bytes[6] == len[6] && bytes[7]
            == len[7]);
    }
    assert(bytes.subrange(8, 8 + record.len() as int) =~= record);
}

impl Header {
    /// The header that 104 bytes spell. Nothing, where the bytes are more
    /// or fewer, or where offset or view do not fit their range.
    pub open spec fn spec_decode(bytes: Seq<u8>) -> Option<Header> {
        if bytes.len() != 104 || be_value(bytes.subrange(48, 56)) > u32::MAX || be_value(
            bytes.subrange(56, 64),
        ) > u32::MAX {
            None
        } else {
            Some(
                Header {
                    version: be_value(bytes.subrange(0, 8)),
                    previous: Digest::spec_from_bytes(bytes.subrange(8, 40)),
                    epoch: be_value(bytes.subrange(40, 48)),
                    offset: be_value(bytes.subrange(48, 56)) as u32,
                    view: be_value(bytes.subrange(56, 64)) as u32,
                    timestamp: be_value(bytes.subrange(64, 72)),
                    random: Digest::spec_from_bytes(bytes.subrange(72, 104)),
                },
            )
        }
    }

    /// Reads a header from its canonical encoding.
    pub fn decode(bytes: &[u8]) -> (r: Option<Header>)
        ensures
            r == Header::spec_decode(bytes@),
    {
        if bytes.len() != 104 {
            return None;
        }
        let version = read_u64_be(slice_subrange(bytes, 0, 8));
        let previous = Digest::from_bytes(slice_subrange(bytes, 8, 40)).unwrap();
        let epoch = read_u64_be(slice_subrange(bytes, 40, 48));
        let offset = read_u64_be(slice_subrange(bytes, 48, 56));
        let view = read_u64_be(slice_subrange(bytes, 56, 64));
        let timestamp = read_u64_be(slice_subrange(bytes, 64, 72));
        let random = Digest::from_bytes(slice_subrange(bytes, 72, 104)).unwrap();
        if offset > u32::MAX as u64 || view > u32::MAX as u64 {
            return None;
        }
        Some(
            Header {
                version,
                previous,
                epoch,
                offset: offset as u32,
                view: view as u32,
                timestamp,
                random,
            },
        )
    }
}

/// A header comes out of its encoding as it went in.
pub proof fn lemma_header_round_trip(h: Header)
    ensures
        h.spec_encode().len() == 104,
        Header::spec_decode(h.spec_encode()) == Some(h),
{
    let e = h.spec_encode();
    lemma_digest_round_trip(h.previous);
    lemma_digest_round_trip(h.random);
    lemma_be_round_trip(h.version);
    lemma_be_round_trip(h.epoch);
    lemma_be_round_trip(h.offset as u64);
    lemma_be_round_trip(h.view as u64);
    lemma_be_round_trip(h.timestamp);
    assert(e.subrange(0, 8) =~= be_bytes(h.version));
    assert(e.subrange(8, 40) =~= h.previous.spec_bytes());
    assert(e.subrange(40, 48) =~= be_bytes(h.epoch));
    assert(e.subrange(48, 56) =~= be_bytes(h.offset as u64));
    assert(e.subrange(56, 64) =~= be_bytes(h.view as u64));
    assert(e.subrange(64, 72) =~= be_bytes(h.timestamp));
    assert(e.subrange(72, 104) =~= h.random.spec_bytes());
}

/// The bytes of a record: the header, the tag of the tier, the body.
pub open spec fn spec_record(header: Header, is_macro: bool, body: Seq<u8>) -> Seq<u8> {
    header.spec_encode() + seq![if is_macro { TAG_MACRO } else { TAG_MICRO }] + body
}

/// What the bytes of a record hold: the header, the tier and the body.
/// Nothing, where they are too few, the header does not decode or the tag
/// is unknown.
pub open spec fn spec_parse_record(bytes: Seq<u8>) -> Option<(Header, bool, Seq<u8>)> {
    if bytes.len() < 105 || bytes[104] > 1 {
        None
    } else {
        match Header::spec_decode(bytes.subrange(0, 104)) {
            None => None,
            Some(h) => Some((h, bytes[104] == TAG_MACRO, bytes.subrange(105, bytes.len() as int))),
        }
    }
}

impl BlockRecord {
    /// The bytes of the record.
    pub fn encode(&self) -> (r: Vec<u8>)
        ensures
            r@ == spec_record(self.header, self.is_macro, self.body@),
    {
        let mut out = self.header.encode();
        out.push(if self.is_macro { TAG_MACRO } else { TAG_MICRO });
        out.extend_from_slice(self.body.as_slice());
        assert(out@ =~= spec_record(self.header, self.is_macro, self.body@));
        out
    }

    /// Reads a record from its bytes.
    pub fn decode(bytes: &[u8]) -> (r: Option<BlockRecord>)
        ensures
            match r {
                Some(rec) => spec_parse_record(bytes@) == Some(
                    (rec.header, rec.is_macro, rec.body@),
                ),
                None => spec_parse_record(bytes@) is None,
            },
    {
        if bytes.len() < 105 || bytes[104] > 1 {
            return None;
        }
        let header = match Header::decode(slice_subrange(bytes, 0, 104)) {
            None => {
                return None;
            },
            Some(h) => h,
        };
        let rest = slice_subrange(bytes, 105, bytes.len());
        let mut body: Vec<u8> = Vec::new();
        body.extend_from_slice(rest);
        assert(body@ =~= bytes@.subrange(105, bytes@.len() as int));
        Some(BlockRecord { header, is_macro: bytes[104] == TAG_MACRO, body })
    }
}

/// The parts of a record stand where they were put.
proof fn lemma_record_parts(e: Seq<u8>, tag: u8, body: Seq<u8>)
    requires
        e.len() == 104,
    ensures
        (e + seq![tag] + body).len() == 105 + body.len(),
        (e + seq![tag] + body)[104] == tag,
        (e + seq![tag] + body).subrange(0, 104) == e,
        (e + seq![tag] + body).subrange(105, 105 + body.len() as int) == body,
{
    let bytes = e + seq![tag] + body;
    assert(bytes.subrange(0, 104) =~= e);
    assert(bytes.subrange(105, 105 + body.len() as int) =~= body);
}

/// A record comes out of its bytes as it went in.
pub proof fn lemma_record_round_trip(header: Header, is_macro: bool, body: Seq<u8>)
    ensures
        spec_parse_record(spec_record(header, is_macro, body)) == Some((header, is_macro, body)),
{
    let tag = if is_macro {
        TAG_MACRO
    } else {
        TAG_MICRO
    };
    lemma_header_round_trip(header);
    lemma_record_parts(header.spec_encode(), tag, body);
}

} // verus!
