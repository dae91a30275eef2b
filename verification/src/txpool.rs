//! The transaction pool of a facilitator: it gathers the participants of a
//! joint transaction and forms a pool of them when enough have joined or
//! the timer fires.

use vstd::prelude::*;
use crate::block::Output;
use crate::digest::{Digest, PublicKey};

verus! {

/// How long the facilitator waits between two attempts to form a pool, in
/// milliseconds.
pub const MESSAGE_TIMEOUT: u64 = 10_000;

/// The fewest participants that make a pool.
pub const MIN_PARTICIPANTS: usize = 3;

/// The number of participants at which a pool is formed at once.
pub const MAX_PARTICIPANTS: usize = 20;

/// Who takes part: a network key and the seed of the session keys.
#[derive(Clone, Copy, Debug, PartialEq, Eq, Structural)]
pub struct ParticipantID {
    pub pkey: PublicKey,
    pub seed: Digest,
}

/// The request of a node to join the next pool.
#[derive(Debug)]
pub struct PoolJoin {
    pub seed: Digest,
    pub txins: Vec<Digest>,
    pub utxos: Vec<Output>,
    pub ownsig: Vec<u8>,
}

/// What a participant brings to the pool.
#[derive(Debug)]
pub struct ParticipantTXINMap {
    pub participant: ParticipantID,
    pub txins: Vec<Digest>,
    pub utxos: Vec<Output>,
    pub ownsig: Vec<u8>,
}

/// A pool that has been formed.
#[derive(Debug)]
pub struct PoolInfo {
    pub participants: Vec<ParticipantTXINMap>,
    pub session_id: Digest,
}

/// What the facilitator tells the participants.
#[derive(Debug)]
pub enum PoolNotification {
    /// The pool is formed.
    Started(PoolInfo),
    /// The facilitator shuts down and no pool will come.
    Canceled,
}

/// What the facilitator sends: one notification, to each of the keys.
#[derive(Debug)]
pub struct Announcement {
    pub notification: PoolNotification,
    pub destinations: Vec<PublicKey>,
}

/// The participants that have joined since the last pool.
#[derive(Debug)]
pub struct TransactionPoolService {
    pub participants: Vec<ParticipantTXINMap>,
}

/// The identities of the participants, in order.
pub open spec fn spec_ids(ps: Seq<ParticipantTXINMap>) -> Seq<ParticipantID> {
    Seq::new(ps.len(), |i: int| ps[i].participant)
}

/// The network keys of the participants, in order.
pub open spec fn spec_pkeys(ps: Seq<ParticipantTXINMap>) -> Seq<PublicKey> {
    Seq::new(ps.len(), |i: int| ps[i].participant.pkey)
}

/// What a participant brings, made of its request.
pub open spec fn spec_entry(from: PublicKey, data: PoolJoin) -> ParticipantTXINMap {
    ParticipantTXINMap {
        participant: ParticipantID { pkey: from, seed: data.seed },
        txins: data.txins,
        utxos: data.utxos,
        ownsig: data.ownsig,
    }
}

/// The participants after one has joined: a participant that is known
/// already has what it brings replaced; a new one stands behind the others.
pub open spec fn spec_joined(ps: Seq<ParticipantTXINMap>, e: ParticipantTXINMap) -> Seq<
    ParticipantTXINMap,
> {
    if spec_ids(ps).contains(e.participant) {
        ps.update(spec_ids(ps).index_of(e.participant), e)
    } else {
        ps.push(e)
    }
}

impl View for TransactionPoolService {
    type V = Seq<ParticipantTXINMap>;

    open spec fn view(&self) -> Seq<ParticipantTXINMap> {
        self.participants@
    }
}

impl TransactionPoolService {
    /// What holds of every pool service: no participant stands twice.
    pub open spec fn wf(&self) -> bool {
        spec_ids(self@).no_duplicates()
    }

    /// Creates a pool service without participants.
    pub fn new() -> (r: TransactionPoolService)
        ensures
            r.wf(),
            r@.len() == 0,
    {
        TransactionPoolService { participants: Vec::new() }
    }

    /// Takes a participant in. Says whether it is new.
    #[verifier::loop_isolation(false)]
    pub fn add_participant(&mut self, pkey: PublicKey, data: PoolJoin) -> (r: bool)
        requires
            old(self).wf(),
        ensures
            final(self).wf(),
            r == !spec_ids(old(self)@).contains(ParticipantID { pkey, seed: data.seed }),
            final(self)@ == spec_joined(old(self)@, spec_entry(pkey, data)),
    {
        let id = ParticipantID { pkey, seed: data.seed };
        let entry = ParticipantTXINMap {
            participant: id,
            txins: data.txins,
            utxos: data.utxos,
            ownsig: data.ownsig,
        };
        let ghost ids = spec_ids(self@);
        let mut i: usize = 0;
        while i < self.participants.len()
            invariant
                0 <= i <= self@.len(),
                self@ == old(self)@,
                ids == spec_ids(self@),
                ids.no_duplicates(),
                entry.participant == id,
                forall|k: int| 0 <= k < i ==> ids[k] != id,
            decreases self@.len() - i,
        {
            if self.participants[i].participant == id {
                proof {
                    assert(ids[i as int] == id);
                    assert(ids.contains(id));
                    let k = ids.index_of(id);
                    assert(ids[k] == id);
                    assert(k == i);
                }
                self.participants[i] = entry;
                proof {
                    assert(spec_ids(self@) =~= ids);
                }
                return false;
            }
            i = i + 1;
        }
        self.participants.push(entry);
        proof {
            assert(!ids.contains(id));
            assert(spec_ids(self@) =~= ids.push(id));
            assert forall|a: int, b: int|
                0 <= a < spec_ids(self@).len() && 0 <= b < spec_ids(self@).len() && a
                    != b implies spec_ids(self@)[a] != spec_ids(self@)[b] by {
                if a < ids.len() {
                    assert(spec_ids(self@)[a] == ids[a]);
                }
                if b < ids.len() {
                    assert(spec_ids(self@)[b] == ids[b]);
                }
            }
        }
        true
    }

    /// Forms a pool of the participants at hand, where there are enough:
    /// the pool goes to each of them, under the session identifier given,
    /// and the service starts over without participants.
    pub fn form_pool(&mut self, session_id: Digest) -> (r: Option<Announcement>)
        requires
            old(self).wf(),
        ensures
            final(self).wf(),
            r is Some <==> old(self)@.len() >= MIN_PARTICIPANTS,
            r is None ==> final(self)@ == old(self)@,
            r matches Some(a) ==> {
                &&& final(self)@.len() == 0
                &&& a.destinations@ == spec_pkeys(old(self)@)
                &&& a.notification matches PoolNotification::Started(info)
                &&& info.session_id == session_id
                &&& info.participants@ == old(self)@
            },
    {
        if self.participants.len() < MIN_PARTICIPANTS {
            return None;
        }
        let mut participants: Vec<ParticipantTXINMap> = Vec::new();
        core::mem::swap(&mut participants, &mut self.participants);
        let destinations = pkeys(&participants);
        let info = PoolInfo { participants, session_id };
        Some(Announcement { notification: PoolNotification::Started(info), destinations })
    }

    /// Takes the request of a node to join: a new participant is taken in,
    /// and with `MAX_PARTICIPANTS` of them a pool is formed at once.
    pub fn handle_join_message(&mut self, data: PoolJoin, from: PublicKey, session_id: Digest) -> (r:
        Option<Announcement>)
        requires
            old(self).wf(),
        ensures
            final(self).wf(),
            ({
                let joined = spec_joined(old(self)@, spec_entry(from, data));
                let is_new = !spec_ids(old(self)@).contains(ParticipantID { pkey: from, seed: data.seed });
                &&& r is Some <==> is_new && joined.len() >= MAX_PARTICIPANTS
                &&& r is None ==> final(self)@ == joined
                &&& r matches Some(a) ==> {
                    &&& final(self)@.len() == 0
                    &&& a.destinations@ == spec_pkeys(joined)
                    &&& a.notification matches PoolNotification::Started(info)
                    &&& info.session_id == session_id
                    &&& info.participants@ == joined
                }
            }),
    {
        if self.add_participant(from, data) {
            if self.participants.len() >= MAX_PARTICIPANTS {
                return self.form_pool(session_id);
            }
        }
        None
    }

    /// What the service does when it shuts down: it forms a pool where it
    /// can, and else tells those who wait that none will come.
    pub fn shutdown(&mut self, session_id: Digest) -> (r: Announcement)
        requires
            old(self).wf(),
        ensures
            final(self).wf(),
            r.destinations@ == spec_pkeys(old(self)@),
            old(self)@.len() >= MIN_PARTICIPANTS ==> {
                &&& final(self)@.len() == 0
                &&& r.notification matches PoolNotification::Started(info)
                &&& info.session_id == session_id
                &&& info.participants@ == old(self)@
            },
            old(self)@.len() < MIN_PARTICIPANTS ==> {
                &&& final(self)@ == old(self)@
                &&& r.notification is Canceled
            },
    {
        match self.form_pool(session_id) {
            Some(a) => a,
            None => Announcement {
                notification: PoolNotification::Canceled,
                destinations: pkeys(&self.participants),
            },
        }
    }
}

/// The network keys of the participants, in order.
pub fn pkeys(ps: &Vec<ParticipantTXINMap>) -> (r: Vec<PublicKey>)
    ensures
        r@ == spec_pkeys(ps@),
{
    let mut out: Vec<PublicKey> = Vec::new();
    let mut i: usize = 0;
    while i < ps.len()
        invariant
            0 <= i <= ps.len(),
            out@.len() == i,
            forall|k: int| 0 <= k < i ==> out@[k] == ps@[k].participant.pkey,
        decreases ps.len() - i,
    {
        out.push(ps[i].participant.pkey);
        i = i + 1;
    }
    assert(out@ =~= spec_pkeys(ps@));
    out
}

/// `rand::random` for an array of 32 bytes: 32 bytes of which nothing is
/// claimed but their number.
#[verifier::external_body]
pub(crate) fn random_bytes_32() -> (r: Vec<u8>)
    ensures
        r@.len() == 32,
{
    rand::random::<[u8; 32]>().to_vec()
}

/// A fresh session identifier.
pub fn random_digest() -> Digest {
    let bytes = random_bytes_32();
    Digest::from_bytes(bytes.as_slice()).unwrap()
}

impl TransactionPoolService {
    /// Forms a pool of the participants at hand, where there are enough,
    /// under a fresh session identifier.
    pub fn try_to_form_pool(&mut self) -> (r: Option<Announcement>)
        requires
            old(self).wf(),
        ensures
            final(self).wf(),
            r is Some <==> old(self)@.len() >= MIN_PARTICIPANTS,
            r is None ==> final(self)@ == old(self)@,
            r matches Some(a) ==> {
                &&& final(self)@.len() == 0
                &&& a.destinations@ == spec_pkeys(old(self)@)
                &&& a.notification matches PoolNotification::Started(info)
                &&& info.participants@ == old(self)@
            },
    {
        let session_id = random_digest();
        self.form_pool(session_id)
    }
}

} // verus!
