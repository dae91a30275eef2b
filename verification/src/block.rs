//! Blocks, outputs and transactions, their canonical byte encodings and
//! the digests that name them.

use vstd::prelude::*;
use crate::digest::{Digest, PublicKey, write_u64_be, be_bytes, lemma_be_round_trip, lemma_digest_round_trip};
use crate::validators::Validator;

verus! {

/// Appends the eight big-endian bytes of `n`.
pub fn push_u64(buf: &mut Vec<u8>, n: u64)
    ensures
        final(buf)@ == old(buf)@ + be_bytes(n),
{
    let b = write_u64_be(n);
    buf.extend_from_slice(b.as_slice());
}

/// Appends the 32 bytes of `d`.
pub fn push_digest(buf: &mut Vec<u8>, d: &Digest)
    ensures
        final(buf)@ == old(buf)@ + d.spec_bytes(),
{
    let b = d.to_bytes();
    buf.extend_from_slice(b.as_slice());
}

/// A byte string behind its length, so that what follows it in an encoding
/// cannot be taken for a part of it.
pub open spec fn spec_blob(bytes: Seq<u8>) -> Seq<u8> {
    be_bytes(bytes.len() as u64) + bytes
}

/// Appends `bytes` behind their length.
pub fn push_blob(buf: &mut Vec<u8>, bytes: &Vec<u8>)
    ensures
        final(buf)@ == old(buf)@ + spec_blob(bytes@),
{
    let ghost before = buf@;
    push_u64(buf, bytes.len() as u64);
    buf.extend_from_slice(bytes.as_slice());
    assert(buf@ =~= before + spec_blob(bytes@));
}

/// The version of the block format that this node writes and accepts.
pub const BLOCK_VERSION: u64 = 1;

/// What every block states of itself.
#[derive(Clone, Copy, Debug, PartialEq, Eq, Structural)]
pub struct Header {
    /// Version of the block format.
    pub version: u64,
    /// Digest of the header of the parent block.
    pub previous: Digest,
    /// The epoch of the block.
    pub epoch: u64,
    /// The place of the block in its epoch; 0 is the macro block that opens it.
    pub offset: u32,
    /// The view in which the block was proposed.
    pub view: u32,
    /// When the leader built the block, in milliseconds.
    pub timestamp: u64,
    /// The random seed that the leader derived from the seed before it.
    pub random: Digest,
}

impl Header {
    /// The canonical encoding: the fields in order, integers as eight
    /// big-endian bytes.
    pub open spec fn spec_encode(self) -> Seq<u8> {
        be_bytes(self.version) + self.previous.spec_bytes() + be_bytes(self.epoch) + be_bytes(
            self.offset as u64,
        ) + be_bytes(self.view as u64) + be_bytes(self.timestamp) + self.random.spec_bytes()
    }

    /// The digest of the canonical encoding. It names the block, and it is
    /// what validators sign.
    pub open spec fn spec_hash(self) -> Digest {
        Digest::spec_digest(self.spec_encode())
    }

    /// The canonical encoding of the header.
    pub fn encode(&self) -> (r: Vec<u8>)
        ensures
            r@ == self.spec_encode(),
    {
        let mut buf: Vec<u8> = Vec::new();
        push_u64(&mut buf, self.version);
        push_digest(&mut buf, &self.previous);
        push_u64(&mut buf, self.epoch);
        push_u64(&mut buf, self.offset as u64);
        push_u64(&mut buf, self.view as u64);
        push_u64(&mut buf, self.timestamp);
        push_digest(&mut buf, &self.random);
        assert(buf@ =~= self.spec_encode());
        buf
    }

    /// The digest that names the block of this header.
    pub fn hash(&self) -> (r: Digest)
        ensures
            r == self.spec_hash(),
    {
        let bytes = self.encode();
        Digest::digest(bytes.as_slice())
    }
}

/// Two headers with one encoding are one header.
pub proof fn lemma_header_encoding_injective(a: Header, b: Header)
    requires
        a.spec_encode() == b.spec_encode(),
    ensures
        a == b,
{
    let ea = a.spec_encode();
    let eb = b.spec_encode();
    lemma_digest_round_trip(a.previous);
    lemma_digest_round_trip(b.previous);
    lemma_digest_round_trip(a.random);
    lemma_digest_round_trip(b.random);
    lemma_be_round_trip(a.version);
    lemma_be_round_trip(b.version);
    lemma_be_round_trip(a.epoch);
    lemma_be_round_trip(b.epoch);
    lemma_be_round_trip(a.offset as u64);
    lemma_be_round_trip(b.offset as u64);
    lemma_be_round_trip(a.view as u64);
    lemma_be_round_trip(b.view as u64);
    lemma_be_round_trip(a.timestamp);
    lemma_be_round_trip(b.timestamp);
    assert(ea.subrange(0, 8) =~= be_bytes(a.version));
    assert(eb.subrange(0, 8) =~= be_bytes(b.version));
    assert(ea.subrange(8, 40) =~= a.previous.spec_bytes());
    assert(eb.subrange(8, 40) =~= b.previous.spec_bytes());
    assert(ea.subrange(40, 48) =~= be_bytes(a.epoch));
    assert(eb.subrange(40, 48) =~= be_bytes(b.epoch));
    assert(ea.subrange(48, 56) =~= be_bytes(a.offset as u64));
    assert(eb.subrange(48, 56) =~= be_bytes(b.offset as u64));
    assert(ea.subrange(56, 64) =~= be_bytes(a.view as u64));
    assert(eb.subrange(56, 64) =~= be_bytes(b.view as u64));
    assert(ea.subrange(64, 72) =~= be_bytes(a.timestamp));
    assert(eb.subrange(64, 72) =~= be_bytes(b.timestamp));
    assert(ea.subrange(72, 104) =~= a.random.spec_bytes());
    assert(eb.subrange(72, 104) =~= b.random.spec_bytes());
}

/// A confidential payment: the amount is hidden behind a range proof, and
/// the payload is readable by the recipient alone.
#[derive(Clone, Debug)]
pub struct PaymentOutput {
    pub recipient: PublicKey,
    pub proof: Vec<u8>,
    pub payload: Vec<u8>,
}

/// A payment whose amount is stated in the clear.
#[derive(Clone, Copy, Debug, PartialEq, Eq, Structural)]
pub struct PublicPaymentOutput {
    pub recipient: PublicKey,
    pub amount: i64,
}

/// Money put in escrow for a validator.
#[derive(Clone, Copy, Debug, PartialEq, Eq, Structural)]
pub struct StakeOutput {
    pub recipient: PublicKey,
    /// The validator that the stake backs.
    pub validator: PublicKey,
    pub amount: i64,
    /// The last epoch in which the stake counts.
    pub active_until_epoch: u64,
}

/// A transaction output.
#[derive(Clone, Debug)]
pub enum Output {
    Payment(PaymentOutput),
    PublicPayment(PublicPaymentOutput),
    Stake(StakeOutput),
}

/// A copy of a byte string.
pub fn copy_bytes(v: &Vec<u8>) -> (r: Vec<u8>)
    ensures
        r@ == v@,
{
    let mut out: Vec<u8> = Vec::new();
    let mut i: usize = 0;
    while i < v.len()
        invariant
            0 <= i <= v.len(),
            out@ == v@.take(i as int),
        decreases v.len() - i,
    {
        out.push(v[i]);
        assert(v@.take(i + 1) =~= v@.take(i as int).push(v@[i as int]));
        i = i + 1;
    }
    assert(v@.take(i as int) =~= v@);
    out
}

impl PaymentOutput {
    /// A copy of the output.
    pub fn duplicate(&self) -> (r: PaymentOutput)
        ensures
            r.recipient == self.recipient,
            r.proof@ == self.proof@,
            r.payload@ == self.payload@,
    {
        PaymentOutput {
            recipient: self.recipient,
            proof: copy_bytes(&self.proof),
            payload: copy_bytes(&self.payload),
        }
    }
}

impl Output {
    /// Constructor for a confidential payment.
    pub fn new(recipient: PublicKey, proof: Vec<u8>, payload: Vec<u8>) -> (r: Output)
        ensures
            r == Output::Payment(PaymentOutput { recipient, proof, payload }),
    {
        Output::Payment(PaymentOutput { recipient, proof, payload })
    }

    /// The canonical encoding: a tag for the kind, then the fields.
    pub open spec fn spec_encode(self) -> Seq<u8> {
        match self {
            Output::Payment(o) => be_bytes(0) + o.recipient.id.spec_bytes() + spec_blob(o.proof@)
                + spec_blob(o.payload@),
            Output::PublicPayment(o) => be_bytes(1) + o.recipient.id.spec_bytes() + be_bytes(
                o.amount as u64,
            ),
            Output::Stake(o) => be_bytes(2) + o.recipient.id.spec_bytes() + o.validator.id.spec_bytes()
                + be_bytes(o.amount as u64) + be_bytes(o.active_until_epoch),
        }
    }

    /// The identity of the output: the digest of its content.
    pub open spec fn spec_hash(self) -> Digest {
        Digest::spec_digest(self.spec_encode())
    }

    /// The canonical encoding of the output.
    pub fn encode(&self) -> (r: Vec<u8>)
        ensures
            r@ == self.spec_encode(),
    {
        let mut buf: Vec<u8> = Vec::new();
        match self {
            Output::Payment(o) => {
                push_u64(&mut buf, 0);
                push_digest(&mut buf, &o.recipient.id);
                push_blob(&mut buf, &o.proof);
                push_blob(&mut buf, &o.payload);
            },
            Output::PublicPayment(o) => {
                push_u64(&mut buf, 1);
                push_digest(&mut buf, &o.recipient.id);
                push_u64(&mut buf, o.amount as u64);
            },
            Output::Stake(o) => {
                push_u64(&mut buf, 2);
                push_digest(&mut buf, &o.recipient.id);
                push_digest(&mut buf, &o.validator.id);
                push_u64(&mut buf, o.amount as u64);
                push_u64(&mut buf, o.active_until_epoch);
            },
        }
        assert(buf@ =~= self.spec_encode());
        buf
    }

    /// The identity of the output.
    pub fn hash(&self) -> (r: Digest)
        ensures
            r == self.spec_hash(),
    {
        let bytes = self.encode();
        Digest::digest(bytes.as_slice())
    }

    /// Whether two outputs say the same.
    pub open spec fn spec_same(self, other: Output) -> bool {
        match (self, other) {
            (Output::Payment(a), Output::Payment(b)) => a.recipient == b.recipient && a.proof@
                == b.proof@ && a.payload@ == b.payload@,
            (Output::PublicPayment(a), Output::PublicPayment(b)) => a == b,
            (Output::Stake(a), Output::Stake(b)) => a == b,
            _ => false,
        }
    }

    /// A copy of the output: it says the same, and so has the same identity.
    pub fn duplicate(&self) -> (r: Output)
        ensures
            r.spec_same(*self),
            r.spec_encode() == self.spec_encode(),
            r.spec_hash() == self.spec_hash(),
    {
        match self {
            Output::Payment(o) => Output::Payment(o.duplicate()),
            Output::PublicPayment(o) => Output::PublicPayment(*o),
            Output::Stake(o) => Output::Stake(*o),
        }
    }
}

/// The identities of a list of outputs, in order.
pub open spec fn spec_output_ids(outputs: Seq<Output>) -> Seq<Digest> {
    Seq::new(outputs.len(), |i: int| outputs[i].spec_hash())
}

/// The identities of a list of outputs, in order.
pub fn output_ids(outputs: &Vec<Output>) -> (r: Vec<Digest>)
    ensures
        r@ == spec_output_ids(outputs@),
{
    let mut ids: Vec<Digest> = Vec::new();
    let mut i: usize = 0;
    while i < outputs.len()
        invariant
            0 <= i <= outputs.len(),
            ids@.len() == i,
            forall|k: int| 0 <= k < i ==> ids@[k] == outputs@[k].spec_hash(),
        decreases outputs.len() - i,
    {
        ids.push(outputs[i].hash());
        i = i + 1;
    }
    assert(ids@ =~= spec_output_ids(outputs@));
    ids
}

/// A block of transactions, committed on the signature of its leader.
#[derive(Clone, Debug)]
pub struct MicroBlock {
    pub header: Header,
    /// The identities of the outputs that the block spends.
    pub inputs: Vec<Digest>,
    /// The outputs that the block creates.
    pub outputs: Vec<Output>,
    /// The adjustment of the blinding factors that balances the block.
    pub gamma: Digest,
    /// The sum of the fees of the transactions in the block.
    pub fee: i64,
}

/// The block that ends an epoch and fixes the validators of the next one.
#[derive(Clone, Debug)]
pub struct MacroBlock {
    pub header: Header,
    /// For each validator of the epoch, in the order of the registry,
    /// whether its precommit is part of the aggregate signature.
    pub signers: Vec<bool>,
    /// The validators of the next epoch.
    pub validators: Vec<Validator>,
    /// The outputs that the block creates.
    pub outputs: Vec<Output>,
}

/// A block of either tier.
#[derive(Clone, Debug)]
pub enum Block {
    Micro(MicroBlock),
    Macro(MacroBlock),
}

impl Block {
    /// The header of the block.
    pub open spec fn spec_header(self) -> Header {
        match self {
            Block::Micro(b) => b.header,
            Block::Macro(b) => b.header,
        }
    }

    /// The digest that names the block: that of its header.
    pub open spec fn spec_hash(self) -> Digest {
        self.spec_header().spec_hash()
    }

    /// The identities of the outputs that the block spends.
    pub open spec fn spec_inputs(self) -> Seq<Digest> {
        match self {
            Block::Micro(b) => b.inputs@,
            Block::Macro(b) => Seq::empty(),
        }
    }

    /// The outputs that the block creates.
    pub open spec fn spec_outputs(self) -> Seq<Output> {
        match self {
            Block::Micro(b) => b.outputs@,
            Block::Macro(b) => b.outputs@,
        }
    }

    /// The validators that a macro block names for the next epoch.
    pub open spec fn spec_validators(self) -> Seq<Validator> {
        match self {
            Block::Micro(b) => Seq::empty(),
            Block::Macro(b) => b.validators@,
        }
    }

    /// The signers of a macro block.
    pub open spec fn spec_signers(self) -> Seq<bool> {
        match self {
            Block::Micro(b) => Seq::empty(),
            Block::Macro(b) => b.signers@,
        }
    }

    /// The header of the block.
    pub fn header(&self) -> (r: Header)
        ensures
            r == self.spec_header(),
    {
        match self {
            Block::Micro(b) => b.header,
            Block::Macro(b) => b.header,
        }
    }

    /// The digest that names the block: that of its header.
    pub fn hash(&self) -> (r: Digest)
        ensures
            r == self.spec_hash(),
    {
        self.header().hash()
    }

    /// Whether the block is a macro block.
    pub fn is_macro(&self) -> (r: bool)
        ensures
            r == (self is Macro),
    {
        match self {
            Block::Micro(_) => false,
            Block::Macro(_) => true,
        }
    }
}

/// A transaction waiting for a block.
#[derive(Clone, Debug)]
pub struct Transaction {
    /// The identities of the outputs that the transaction spends.
    pub inputs: Vec<Digest>,
    /// The outputs that the transaction creates.
    pub outputs: Vec<Output>,
    /// The fee that the transaction pays.
    pub fee: i64,
}

/// The bytes of a list of digests, one after another.
pub open spec fn spec_digests_bytes(ds: Seq<Digest>) -> Seq<u8>
    decreases ds.len(),
{
    if ds.len() == 0 {
        Seq::empty()
    } else {
        spec_digests_bytes(ds.drop_last()) + ds.last().spec_bytes()
    }
}

/// The bytes of a list of digests, one after another.
pub fn digests_bytes(ds: &Vec<Digest>) -> (r: Vec<u8>)
    ensures
        r@ == spec_digests_bytes(ds@),
{
    let mut buf: Vec<u8> = Vec::new();
    let mut i: usize = 0;
    proof {
        assert(ds@.take(0) =~= Seq::<Digest>::empty());
    }
    while i < ds.len()
        invariant
            0 <= i <= ds.len(),
            buf@ == spec_digests_bytes(ds@.take(i as int)),
        decreases ds.len() - i,
    {
        proof {
            assert(ds@.take(i + 1).drop_last() =~= ds@.take(i as int));
        }
        push_digest(&mut buf, &ds[i]);
        i = i + 1;
    }
    proof {
        assert(ds@.take(i as int) =~= ds@);
    }
    buf
}

impl Transaction {
    /// The canonical encoding: the number of inputs and the inputs, the
    /// number of outputs and their identities, and the fee.
    pub open spec fn spec_encode(self) -> Seq<u8> {
        spec_blob(spec_digests_bytes(self.inputs@)) + spec_blob(
            spec_digests_bytes(spec_output_ids(self.outputs@)),
        ) + be_bytes(self.fee as u64)
    }

    /// The digest that names the transaction.
    pub open spec fn spec_hash(self) -> Digest {
        Digest::spec_digest(self.spec_encode())
    }

    /// How many inputs and outputs the transaction has.
    pub open spec fn spec_io_count(self) -> nat {
        self.inputs@.len() + self.outputs@.len()
    }

    /// The digest that names the transaction.
    pub fn hash(&self) -> (r: Digest)
        ensures
            r == self.spec_hash(),
    {
        let mut buf: Vec<u8> = Vec::new();
        let ins = digests_bytes(&self.inputs);
        let ids = output_ids(&self.outputs);
        let outs = digests_bytes(&ids);
        push_blob(&mut buf, &ins);
        push_blob(&mut buf, &outs);
        push_u64(&mut buf, self.fee as u64);
        assert(buf@ =~= self.spec_encode());
        Digest::digest(buf.as_slice())
    }
}

} // verus!
