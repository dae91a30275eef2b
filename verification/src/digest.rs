//! 256-bit digests, the big-endian integer encoding that all canonical byte
//! strings of this crate are built from, and the hash function over them.

use vstd::prelude::*;
use vstd::slice::slice_subrange;
use byteorder::{BigEndian, ByteOrder};
use sha3::{Digest as Sha3Digest, Sha3_256};

verus! {

/// The eight bytes of `n`, most significant first.
pub open spec fn be_bytes(n: u64) -> Seq<u8> {
    seq![
        be_byte(n, 0),
        be_byte(n, 1),
        be_byte(n, 2),
        be_byte(n, 3),
        be_byte(n, 4),
        be_byte(n, 5),
        be_byte(n, 6),
        be_byte(n, 7),
    ]
}

/// Byte `i` of `n`, counted from the most significant one.
pub open spec fn be_byte(n: u64, i: u64) -> u8 {
    ((n >> ((8 * (7 - i)) as u64)) & 0xff) as u8
}

/// The number that the first eight bytes of `b` spell, most significant first.
pub open spec fn be_value(b: Seq<u8>) -> u64
    recommends
        b.len() >= 8,
{
    be_join(b[0], b[1], b[2], b[3], b[4], b[5], b[6], b[7])
}

/// The number whose bytes are the eight given ones, most significant first.
pub open spec fn be_join(b0: u8, b1: u8, b2: u8, b3: u8, b4: u8, b5: u8, b6: u8, b7: u8) -> u64 {
    (b0 as u64) << 56 | (b1 as u64) << 48 | (b2 as u64) << 40 | (b3 as u64) << 32 | (b4 as u64)
        << 24 | (b5 as u64) << 16 | (b6 as u64) << 8 | (b7 as u64)
}

/// Byte strings of one length ordered as a dictionary orders words: `a`
/// comes before `b` when it is smaller at the first place where they differ.
pub open spec fn bytes_lt(a: Seq<u8>, b: Seq<u8>) -> bool {
    exists|k: int|
        0 <= k < a.len() && k < b.len() && a[k] < b[k] && (forall|j: int|
            0 <= j < k ==> a[j] == b[j])
}

/// Decoding undoes encoding.
pub proof fn lemma_be_round_trip(n: u64)
    ensures
        be_bytes(n).len() == 8,
        be_value(be_bytes(n)) == n,
{
    assert((((n >> 56) & 0xff) as u8 as u64) << 56 | (((n >> 48) & 0xff) as u8 as u64) << 48 | (((n
        >> 40) & 0xff) as u8 as u64) << 40 | (((n >> 32) & 0xff) as u8 as u64) << 32 | (((n >> 24)
        & 0xff) as u8 as u64) << 24 | (((n >> 16) & 0xff) as u8 as u64) << 16 | (((n >> 8) & 0xff) as u8 as u64)
        << 8 | (((n >> 0) & 0xff) as u8 as u64) == n) by (bit_vector);
}

/// Encoding undoes decoding of exactly eight bytes.
pub proof fn lemma_be_value_round_trip(b: Seq<u8>)
    requires
        b.len() == 8,
    ensures
        be_bytes(be_value(b)) == b,
{
    let (b0, b1, b2, b3, b4, b5, b6, b7) = (b[0], b[1], b[2], b[3], b[4], b[5], b[6], b[7]);
    let n = be_join(b0, b1, b2, b3, b4, b5, b6, b7);
    assert(n == (b0 as u64) << 56 | (b1 as u64) << 48 | (b2 as u64) << 40 | (b3 as u64) << 32 | (
    b4 as u64) << 24 | (b5 as u64) << 16 | (b6 as u64) << 8 | (b7 as u64) ==> ((n >> 56) & 0xff) as u8
        == b0 && ((n >> 48) & 0xff) as u8 == b1 && ((n >> 40) & 0xff) as u8 == b2 && ((n >> 32)
        & 0xff) as u8 == b3 && ((n >> 24) & 0xff) as u8 == b4 && ((n >> 16) & 0xff) as u8 == b5 && ((n
        >> 8) & 0xff) as u8 == b6 && ((n >> 0) & 0xff) as u8 == b7) by (bit_vector);
    assert(be_bytes(n) =~= b);
}

/// The encoding keeps the order: a smaller number has the smaller byte string.
pub proof fn lemma_be_order(n: u64, m: u64)
    ensures
        n < m <==> bytes_lt(be_bytes(n), be_bytes(m)),
{
    let a = be_bytes(n);
    let b = be_bytes(m);
    lemma_be_round_trip(n);
    lemma_be_round_trip(m);
    let first = lemma_first_difference(a, b);
    if n < m {
        if b[first] < a[first] {
            lemma_join_order(b, a, first);
        }
        assert(a[first] < b[first]);
    }
    if bytes_lt(a, b) {
        let k = choose|k: int|
            0 <= k < a.len() && k < b.len() && a[k] < b[k] && (forall|j: int|
                0 <= j < k ==> a[j] == b[j]);
        lemma_join_order(a, b, k);
    }
}

/// Two byte strings of eight bytes are equal, or differ first at the place
/// returned.
proof fn lemma_first_difference(a: Seq<u8>, b: Seq<u8>) -> (k: int)
    requires
        a.len() == 8,
        b.len() == 8,
    ensures
        a == b || (0 <= k < 8 && a[k] != b[k] && (forall|j: int| 0 <= j < k ==> a[j] == b[j])),
{
    if a[0] != b[0] {
        0
    } else if a[1] != b[1] {
        1
    } else if a[2] != b[2] {
        2
    } else if a[3] != b[3] {
        3
    } else if a[4] != b[4] {
        4
    } else if a[5] != b[5] {
        5
    } else if a[6] != b[6] {
        6
    } else if a[7] != b[7] {
        7
    } else {
        assert(a =~= b);
        0
    }
}

/// Where two strings of eight bytes agree up to place `k` and the first is
/// smaller there, it spells the smaller number.
proof fn lemma_join_order(a: Seq<u8>, b: Seq<u8>, k: int)
    requires
        a.len() == 8,
        b.len() == 8,
        0 <= k < 8,
        a[k] < b[k],
        forall|j: int| 0 <= j < k ==> a[j] == b[j],
    ensures
        be_value(a) < be_value(b),
{
    let (a0, a1, a2, a3, a4, a5, a6, a7) = (a[0], a[1], a[2], a[3], a[4], a[5], a[6], a[7]);
    let (b0, b1, b2, b3, b4, b5, b6, b7) = (b[0], b[1], b[2], b[3], b[4], b[5], b[6], b[7]);
    assert((a0 < b0 || (a0 == b0 && (a1 < b1 || (a1 == b1 && (a2 < b2 || (a2 == b2 && (a3 < b3 || (a3
        == b3 && (a4 < b4 || (a4 == b4 && (a5 < b5 || (a5 == b5 && (a6 < b6 || (a6 == b6 && a7
        < b7)))))))))))))) ==> ((a0 as u64) << 56 | (a1 as u64) << 48 | (a2 as u64) << 40 | (a3 as u64)
        << 32 | (a4 as u64) << 24 | (a5 as u64) << 16 | (a6 as u64) << 8 | (a7 as u64)) < ((b0 as u64)
        << 56 | (b1 as u64) << 48 | (b2 as u64) << 40 | (b3 as u64) << 32 | (b4 as u64) << 24 | (
    b5 as u64) << 16 | (b6 as u64) << 8 | (b7 as u64))) by (bit_vector);
}

/// `byteorder::BigEndian::write_u64` on a fresh buffer of eight bytes: the
/// buffer then holds the big-endian bytes of `n`.
#[verifier::external_body]
pub(crate) fn write_u64_be(n: u64) -> (r: Vec<u8>)
    ensures
        r@ == be_bytes(n),
{
    let mut bytes = [0u8; 8];
    BigEndian::write_u64(&mut bytes[0..8], n);
    bytes.to_vec()
}

/// `byteorder::BigEndian::read_u64`: the number spelled by the first eight
/// bytes of the buffer. The outside function panics on a shorter buffer.
#[verifier::external_body]
pub(crate) fn read_u64_be(buf: &[u8]) -> (r: u64)
    requires
        buf@.len() >= 8,
    ensures
        r == be_value(buf@),
{
    BigEndian::read_u64(buf)
}

/// What SHA3-256 makes of a byte string.
pub uninterp spec fn sha3_256(data: Seq<u8>) -> Seq<u8>;

/// `sha3::Sha3_256::digest`: the SHA3-256 digest of `data`, which is 32 bytes
/// long whatever the input.
#[verifier::external_body]
pub(crate) fn sha3_256_of(data: &[u8]) -> (r: Vec<u8>)
    ensures
        r@ == sha3_256(data@),
        r@.len() == 32,
{
    Sha3_256::digest(data).to_vec()
}

/// A 256-bit value: the identity of a block, an output or a transaction, or
/// a random seed. The four words are the digest's bytes read big-endian,
/// so that comparing words in turn compares the bytes as a dictionary does.
#[derive(Clone, Copy, Debug, PartialEq, Eq, Structural)]
pub struct Digest {
    pub w0: u64,
    pub w1: u64,
    pub w2: u64,
    pub w3: u64,
}

impl Digest {
    /// The strict order on digests: by the first word that differs.
    pub open spec fn spec_lt(self, other: Digest) -> bool {
        if self.w0 != other.w0 {
            self.w0 < other.w0
        } else if self.w1 != other.w1 {
            self.w1 < other.w1
        } else if self.w2 != other.w2 {
            self.w2 < other.w2
        } else {
            self.w3 < other.w3
        }
    }

    /// The 32 bytes of the digest.
    pub open spec fn spec_bytes(self) -> Seq<u8> {
        be_bytes(self.w0) + be_bytes(self.w1) + be_bytes(self.w2) + be_bytes(self.w3)
    }

    /// The digest that 32 bytes spell.
    pub open spec fn spec_from_bytes(b: Seq<u8>) -> Digest
        recommends
            b.len() == 32,
    {
        Digest {
            w0: be_value(b.subrange(0, 8)),
            w1: be_value(b.subrange(8, 16)),
            w2: be_value(b.subrange(16, 24)),
            w3: be_value(b.subrange(24, 32)),
        }
    }

    /// The digest of a byte string.
    pub open spec fn spec_digest(data: Seq<u8>) -> Digest {
        Digest::spec_from_bytes(sha3_256(data))
    }

    /// The digest whose bytes are all zero.
    pub fn zero() -> (r: Digest)
        ensures
            r == (Digest { w0: 0, w1: 0, w2: 0, w3: 0 }),
    {
        Digest { w0: 0, w1: 0, w2: 0, w3: 0 }
    }

    /// Whether `self` comes strictly before `other`.
    pub fn lt(&self, other: &Digest) -> (r: bool)
        ensures
            r == self.spec_lt(*other),
    {
        if self.w0 != other.w0 {
            self.w0 < other.w0
        } else if self.w1 != other.w1 {
            self.w1 < other.w1
        } else if self.w2 != other.w2 {
            self.w2 < other.w2
        } else {
            self.w3 < other.w3
        }
    }

    /// The 32 bytes of the digest.
    pub fn to_bytes(&self) -> (r: Vec<u8>)
        ensures
            r@ == self.spec_bytes(),
            r@.len() == 32,
    {
        let mut out = write_u64_be(self.w0);
        let b1 = write_u64_be(self.w1);
        let b2 = write_u64_be(self.w2);
        let b3 = write_u64_be(self.w3);
        out.extend_from_slice(b1.as_slice());
        out.extend_from_slice(b2.as_slice());
        out.extend_from_slice(b3.as_slice());
        out
    }

    /// Reads a digest from exactly 32 bytes; any other length is refused.
    pub fn from_bytes(b: &[u8]) -> (r: Option<Digest>)
        ensures
            b@.len() == 32 ==> r == Some(Digest::spec_from_bytes(b@)),
            b@.len() != 32 ==> r is None,
    {
        if b.len() != 32 {
            return None;
        }
        let w0 = read_u64_be(slice_subrange(b, 0, 8));
        let w1 = read_u64_be(slice_subrange(b, 8, 16));
        let w2 = read_u64_be(slice_subrange(b, 16, 24));
        let w3 = read_u64_be(slice_subrange(b, 24, 32));
        Some(Digest { w0, w1, w2, w3 })
    }

    /// Hashes a byte string.
    pub fn digest(data: &[u8]) -> (r: Digest)
        ensures
            r == Digest::spec_digest(data@),
    {
        let bytes = sha3_256_of(data);
        let r = Digest::from_bytes(bytes.as_slice());
        r.unwrap()
    }
}

/// The public key that names a validator or an account, as 256 bits. Keys
/// are ordered as their bits are.
#[derive(Clone, Copy, Debug, PartialEq, Eq, Structural)]
pub struct PublicKey {
    pub id: Digest,
}

impl PublicKey {
    /// The strict order on keys.
    pub open spec fn spec_lt(self, other: PublicKey) -> bool {
        self.id.spec_lt(other.id)
    }

    /// Whether `self` comes strictly before `other`.
    pub fn lt(&self, other: &PublicKey) -> (r: bool)
        ensures
            r == self.spec_lt(*other),
    {
        self.id.lt(&other.id)
    }

    /// The key with the given bits.
    pub fn new(id: Digest) -> (r: PublicKey)
        ensures
            r.id == id,
    {
        PublicKey { id }
    }
}

/// Reading back the bytes of a digest gives the digest.
pub proof fn lemma_digest_round_trip(d: Digest)
    ensures
        d.spec_bytes().len() == 32,
        Digest::spec_from_bytes(d.spec_bytes()) == d,
{
    let b = d.spec_bytes();
    assert(b.subrange(0, 8) =~= be_bytes(d.w0));
    assert(b.subrange(8, 16) =~= be_bytes(d.w1));
    assert(b.subrange(16, 24) =~= be_bytes(d.w2));
    assert(b.subrange(24, 32) =~= be_bytes(d.w3));
    lemma_be_round_trip(d.w0);
    lemma_be_round_trip(d.w1);
    lemma_be_round_trip(d.w2);
    lemma_be_round_trip(d.w3);
}

/// The order on digests is a strict total order.
pub proof fn lemma_digest_order(a: Digest, b: Digest, c: Digest)
    ensures
        !a.spec_lt(a),
        a.spec_lt(b) && b.spec_lt(c) ==> a.spec_lt(c),
        a.spec_lt(b) || b.spec_lt(a) || a == b,
        !(a.spec_lt(b) && b.spec_lt(a)),
{
}

} // verus!
