//! NFSv4.1 server state: clients, their sessions and slot tables, open and lock stateids, and
//! delegations by node. A single client is served, so state is dropped wholesale when it
//! reboots, and there is no grace period: a restarted server invalidates all state and the
//! client recovers.
use crate::bytes::{same_bytes, to_array, to_vec};
use crate::digest::{blake3_hash, hash};
use crate::table::{kept, sweep_drop, sweeping, swept, KeyTable};
use crate::types::NodeKey;
use crate::xdr::{be32_len, be64, de64, u64_round_trip, Wire, XdrReader, XdrWriter};
use std::collections::HashMap;
use vstd::prelude::*;
use vstd::std_specs::iter::IteratorSpec;

verus! {

broadcast use vstd::std_specs::hash::group_hash_axioms;

pub const FORE_SLOTS: u32 = 64;

pub const BACK_SLOTS: u32 = 16;

/// Most delegations held at once.
pub const DELEG_CAP: usize = 16384;

/// One reply-cache slot of a session's fore channel (RFC 5661 §2.10.6).
#[derive(Debug)]
pub struct Slot {
    pub seqid: u32,
    /// The encoded results to replay, where the client asked for them to be cached.
    pub reply: Option<Vec<u8>>,
    /// The status that went with them.
    pub status: u32,
    /// Set once a reply was not cached: a retry is then refused.
    pub had_uncached: bool,
}

#[derive(Debug)]
pub struct Session {
    pub id: [u8; 16],
    pub clientid: u64,
    pub fore_slots: Vec<Slot>,
    /// The client's callback program.
    pub cb_program: u32,
    /// Sequence number of the last callback.
    pub back_slot_seqid: u32,
}

#[derive(Debug)]
pub struct Client {
    pub clientid: u64,
    pub owner: Vec<u8>,
    pub verifier: [u8; 8],
    pub confirmed: bool,
    pub sequence_id: u32,
}

/// An open file, by the `other` field of its stateid.
#[derive(Debug)]
pub struct OpenState {
    pub node: NodeKey,
    pub seqid: u32,
    pub share_access: u32,
    pub owner: Vec<u8>,
}

/// A granted read delegation. Times are nanoseconds of some steady clock.
#[derive(Debug)]
pub struct Delegation {
    pub stateid_other: [u8; 12],
    pub node: NodeKey,
    /// A recall is under way.
    pub recalling: bool,
    pub granted_at: u64,
    pub recalled_at: Option<u64>,
}

#[derive(Debug, Clone, Copy, PartialEq, Eq, Structural)]
pub struct DelegStats {
    pub granted: u64,
    pub recalls: u64,
    pub returned: u64,
    pub revoked: u64,
}

/// The whole NFSv4.1 state of one exported share.
#[derive(Debug)]
pub struct State {
    pub clients: HashMap<u64, Client>,
    pub sessions: KeyTable<[u8; 16], Session>,
    pub opens: KeyTable<[u8; 12], OpenState>,
    /// Byte-range lock stateids. Locks are always granted: there is one client, and its own
    /// bookkeeping is consistent.
    pub locks: KeyTable<[u8; 12], NodeKey>,
    /// At most one delegation a node.
    pub delegations: KeyTable<NodeKey, Delegation>,
    pub deleg_stats: DelegStats,
    pub next_clientid: u64,
    pub next_other: u64,
    /// Tells this server's run apart from others.
    pub boot_verifier: [u8; 8],
    /// The callback program of every session that a live connection carries.
    pub backchannels: KeyTable<[u8; 16], u32>,
    pub next_cb_xid: u32,
    pub recall_metrics: RecallMetrics,
    /// How many operations have been evaluated.
    pub ops_served: u64,
}

/// Observed times from a recall to the return of the delegation, in nanoseconds.
#[derive(Debug)]
pub struct RecallMetrics {
    pub recalls_sent: u64,
    pub returns: u64,
    pub total_recall_ns: u64,
    pub max_recall_ns: u64,
    /// At most [`SAMPLE_CAP`] of them.
    pub samples_ns: Vec<u64>,
}

pub const SAMPLE_CAP: usize = 100_000;

/// The number of the first callback.
pub const FIRST_CB_XID: u32 = 0x4D53_0001;

/// The number after `n`, wrapping round.
pub open spec fn succ64(n: u64) -> u64 {
    if n == u64::MAX {
        0
    } else {
        (n + 1) as u64
    }
}

pub open spec fn succ32(n: u32) -> u32 {
    if n == u32::MAX {
        0
    } else {
        (n + 1) as u32
    }
}

/// A number drawn from the time, a counter and the process: the first eight bytes of their
/// digest. `nanos` is the time's sixteen big-endian bytes.
pub open spec fn drawn(nanos: Seq<u8>, counter: u64, pid: u32) -> u64 {
    de64(blake3_hash(nanos.put_u64(counter).put_u32(pid)))
}

pub fn draw_u64(nanos: &[u8; 16], counter: u64, pid: u32) -> (v: u64)
    ensures
        v == drawn(nanos@, counter, pid),
{
    let mut w = XdrWriter::new();
    let buf = w.buf_mut();
    *buf = to_vec(nanos.as_slice());
    w.u64(counter);
    w.u32(pid);
    let digest = hash(w.into_bytes().as_slice());
    let mut r = XdrReader::new(digest.as_slice());
    match r.u64() {
        Ok(v) => v,
        Err(_) => 0,
    }
}

/// A session's identifier: the client's number and a nonce.
pub open spec fn session_id(clientid: u64, nonce: u64) -> Seq<u8> {
    be64(clientid) + be64(nonce)
}

/// The `other` field of a minted stateid: its number, its kind, and three bytes of the boot
/// verifier.
pub open spec fn minted_other(n: u64, kind: u8, boot: Seq<u8>) -> Seq<u8> {
    be64(n) + seq![kind, boot[0], boot[1], boot[2]]
}

/// A client as EXCHANGE_ID records it.
pub open spec fn fresh_client(c: Client, id: u64, owner: Seq<u8>, verifier: Seq<u8>) -> bool {
    &&& c.clientid == id
    &&& c.owner@ == owner
    &&& c.verifier@ == verifier
    &&& !c.confirmed
    &&& c.sequence_id == 1
}

pub open spec fn fresh_slot(s: Slot) -> bool {
    s.seqid == 0 && s.reply is None && s.status == 0 && !s.had_uncached
}

/// A session as CREATE_SESSION makes it.
pub open spec fn fresh_session(s: Session, id: Seq<u8>, clientid: u64, cb_program: u32) -> bool {
    &&& s.id@ == id
    &&& s.clientid == clientid
    &&& s.cb_program == cb_program
    &&& s.back_slot_seqid == 0
    &&& s.fore_slots@.len() == FORE_SLOTS
    &&& forall|i: int| 0 <= i < FORE_SLOTS ==> fresh_slot(#[trigger] s.fore_slots@[i])
}

/// A fresh session came in under `id`.
pub open spec fn session_added(
    before: Map<Seq<u8>, Session>,
    after: Map<Seq<u8>, Session>,
    id: Seq<u8>,
    clientid: u64,
    cb_program: u32,
) -> bool {
    exists|s: Session| #[trigger]
        fresh_session(s, id, clientid, cb_program) && after == before.insert(id, s)
}

/// The anonymous stateid's `other`.
pub open spec fn all_zero(other: Seq<u8>) -> bool {
    other == Seq::new(12, |i: int| 0u8)
}

/// The bypass stateid's `other`.
pub open spec fn all_ones(other: Seq<u8>) -> bool {
    other == Seq::new(12, |i: int| 255u8)
}

/// A fresh client record came in.
pub open spec fn client_added(
    before: Map<u64, Client>,
    after: Map<u64, Client>,
    id: u64,
    owner: Seq<u8>,
    verifier: Seq<u8>,
) -> bool {
    exists|c: Client| #[trigger]
        fresh_client(c, id, owner, verifier) && after == before.insert(id, c)
}

/// A fresh open record came in.
pub open spec fn open_added(
    before: Map<Seq<u8>, OpenState>,
    after: Map<Seq<u8>, OpenState>,
    other: Seq<u8>,
    node: NodeKey,
    access: u32,
    owner: Seq<u8>,
) -> bool {
    exists|os: OpenState| #[trigger]
        fresh_open(os, node, access, owner) && after == before.insert(other, os)
}

/// The identifier as bytes.
pub open spec fn id_bytes(res: Option<[u8; 16]>) -> Option<Seq<u8>> {
    match res {
        Some(id) => Some(id@),
        None => None,
    }
}

/// The number `k` places on from `n`; after the greatest comes 0.
pub open spec fn places_on(n: u64, k: nat) -> u64 {
    ((n + k) % 0x1_0000_0000_0000_0000) as u64
}

/// `id` lies `k` places on from `n`, and the numbers before it are taken.
pub open spec fn taken_until(clients: Map<u64, Client>, n: u64, id: u64, k: nat) -> bool {
    &&& id == places_on(n, k)
    &&& forall|j: nat| j < k ==> clients.contains_key(#[trigger] places_on(n, j))
}

/// `id` is the first number, counted on from `n`, that no client has.
pub open spec fn first_free(clients: Map<u64, Client>, n: u64, id: u64) -> bool {
    &&& !clients.contains_key(id)
    &&& exists|k: nat| #[trigger] taken_until(clients, n, id, k)
}

/// As many numbers in a row as there are clients can be taken, and no more.
proof fn taken_are_few(ids: Set<u64>, n: u64, k: nat)
    requires
        ids.finite(),
        k <= 0x1_0000_0000_0000_0000,
        forall|j: nat| j < k ==> ids.contains(#[trigger] places_on(n, j)),
    ensures
        ids.len() >= k,
    decreases k,
{
    if k > 0 {
        let last = places_on(n, (k - 1) as nat);
        let less = ids.remove(last);
        assert forall|j: nat| j < k - 1 implies less.contains(#[trigger] places_on(n, j)) by {
            assert(ids.contains(places_on(n, j)));
            assert(places_on(n, j) != last);
        }
        taken_are_few(less, n, (k - 1) as nat);
    }
}

/// What EXCHANGE_ID makes of the state, and what it gives back.
pub open spec fn exchanged(
    pre: State,
    post: State,
    owner: Seq<u8>,
    verifier: Seq<u8>,
    res: (u64, u32),
) -> bool {
    &&& (forall|id: u64| #[trigger]
        pre.is_client_of(id, owner) && pre.clients@[id].verifier@
            == verifier ==> res == (id, pre.clients@[id].sequence_id) && post
            == pre)
    &&& (forall|id: u64|
        #![trigger pre.is_client_of(id, owner)]
        pre.is_client_of(id, owner) && pre.clients@[id].verifier@
            != verifier ==> {
            &&& res.1 == 1
            &&& first_free(pre.clients@, pre.next_clientid, res.0)
            &&& client_added(pre.clients@.remove(id), post.clients@, res.0, owner, verifier)
            &&& post.sessions@ == kept(
                pre.sessions@,
                |sid: Seq<u8>, s: Session| s.clientid != id,
            )
            &&& post.opens@ == Map::<Seq<u8>, OpenState>::empty()
            &&& post.delegations@ == Map::<NodeKey, Delegation>::empty()
            &&& post.locks == pre.locks
            &&& post.next_clientid == succ64(res.0)
        })
    &&& ((forall|id: u64| !pre.is_client_of(id, owner)) ==> {
        &&& res.1 == 1
        &&& first_free(pre.clients@, pre.next_clientid, res.0)
        &&& client_added(pre.clients@, post.clients@, res.0, owner, verifier)
        &&& post.sessions == pre.sessions
        &&& post.opens == pre.opens
        &&& post.delegations == pre.delegations
        &&& post.locks == pre.locks
        &&& post.next_clientid == succ64(res.0)
    })
    &&& post.deleg_stats == pre.deleg_stats
    &&& post.next_other == pre.next_other
    &&& post.boot_verifier == pre.boot_verifier
    &&& post.backchannels == pre.backchannels
    &&& post.next_cb_xid == pre.next_cb_xid
    &&& post.recall_metrics == pre.recall_metrics
    &&& post.ops_served == pre.ops_served
}

/// What CREATE_SESSION makes of the state, and the identifier it gives back.
pub open spec fn session_created(
    pre: State,
    post: State,
    clientid: u64,
    cb_program: u32,
    nonce: u64,
    res: Option<Seq<u8>>,
) -> bool {
    &&& res is Some == pre.clients@.contains_key(clientid)
    &&& (res is None ==> post == pre)
    &&& (res is Some ==> res->0 == session_id(clientid, nonce))
    &&& (res is Some ==> post.clients@ == pre.clients@.insert(
        clientid,
        Client { confirmed: true, ..pre.clients@[clientid] },
    ))
    &&& (res is Some ==> session_added(
        pre.sessions@,
        post.sessions@,
        res->0,
        clientid,
        cb_program,
    ))
    &&& post.opens == pre.opens
    &&& post.locks == pre.locks
    &&& post.delegations == pre.delegations
    &&& post.deleg_stats == pre.deleg_stats
    &&& post.next_clientid == pre.next_clientid
    &&& post.next_other == pre.next_other
    &&& post.boot_verifier == pre.boot_verifier
    &&& post.backchannels == pre.backchannels
    &&& post.next_cb_xid == pre.next_cb_xid
    &&& post.recall_metrics == pre.recall_metrics
    &&& post.ops_served == pre.ops_served
}

/// What DESTROY_SESSION makes of the state, and whether there was the session.
pub open spec fn session_destroyed(
    pre: State,
    post: State,
    id: Seq<u8>,
    r: bool,
) -> bool {
    &&& r == pre.sessions@.contains_key(id)
    &&& post.sessions@ == pre.sessions@.remove(id)
    &&& post.clients == pre.clients
    &&& post.opens == pre.opens
    &&& post.locks == pre.locks
    &&& post.delegations == pre.delegations
    &&& post.deleg_stats == pre.deleg_stats
    &&& post.next_clientid == pre.next_clientid
    &&& post.next_other == pre.next_other
    &&& post.boot_verifier == pre.boot_verifier
    &&& post.backchannels == pre.backchannels
    &&& post.next_cb_xid == pre.next_cb_xid
    &&& post.recall_metrics == pre.recall_metrics
    &&& post.ops_served == pre.ops_served
}

/// What DESTROY_CLIENTID makes of the state, and whether there was the client.
pub open spec fn client_destroyed(
    pre: State,
    post: State,
    clientid: u64,
    r: bool,
) -> bool {
    &&& r == pre.clients@.contains_key(clientid)
    &&& (r ==> {
        &&& post.clients@ == pre.clients@.remove(clientid)
        &&& post.sessions@ == kept(
            pre.sessions@,
            |id: Seq<u8>, s: Session| s.clientid != clientid,
        )
        &&& post.opens@ == Map::<Seq<u8>, OpenState>::empty()
        &&& post.locks@ == Map::<Seq<u8>, NodeKey>::empty()
        &&& post.delegations@ == Map::<NodeKey, Delegation>::empty()
    })
    &&& (!r ==> post == pre)
    &&& post.deleg_stats == pre.deleg_stats
    &&& post.next_clientid == pre.next_clientid
    &&& post.next_other == pre.next_other
    &&& post.boot_verifier == pre.boot_verifier
    &&& post.backchannels == pre.backchannels
    &&& post.next_cb_xid == pre.next_cb_xid
    &&& post.recall_metrics == pre.recall_metrics
    &&& post.ops_served == pre.ops_served
}

/// What recording an open makes of the state, and the stateid it gives back.
pub open spec fn open_registered(
    pre: State,
    post: State,
    node: NodeKey,
    owner: Seq<u8>,
    share_access: u32,
    res: (Seq<u8>, u32),
) -> bool {
    &&& (forall|other: Seq<u8>| #[trigger]
        pre.is_open_of(other, node, owner) ==> {
            let was = pre.opens@[other];
            &&& res.0 == other
            &&& res.1 == succ32(was.seqid)
            &&& post.opens@ == pre.opens@.insert(
                other,
                OpenState {
                    seqid: succ32(was.seqid),
                    share_access: was.share_access | (share_access & 3),
                    ..was
                },
            )
            &&& post.next_other == pre.next_other
        })
    &&& ((forall|other: Seq<u8>| !pre.is_open_of(other, node, owner)) ==> {
        &&& res.0 == minted_other(pre.next_other, 1, pre.boot_verifier@)
        &&& res.1 == 1
        &&& open_added(pre.opens@, post.opens@, res.0, node, share_access & 3, owner)
        &&& post.next_other == succ64(pre.next_other)
    })
    &&& post.clients == pre.clients
    &&& post.sessions == pre.sessions
    &&& post.locks == pre.locks
    &&& post.delegations == pre.delegations
    &&& post.deleg_stats == pre.deleg_stats
    &&& post.next_clientid == pre.next_clientid
    &&& post.boot_verifier == pre.boot_verifier
    &&& post.backchannels == pre.backchannels
    &&& post.next_cb_xid == pre.next_cb_xid
    &&& post.recall_metrics == pre.recall_metrics
    &&& post.ops_served == pre.ops_served
}

impl State {
    /// A stateid carries the tag of this run of the server.
    pub open spec fn tags(&self, other: Seq<u8>) -> bool {
        other[9] == self.boot_verifier@[0] && other[10] == self.boot_verifier@[1] && other[11]
            == self.boot_verifier@[2]
    }

    /// This run of the server minted the stateid.
    pub open spec fn issued(&self, other: Seq<u8>) -> bool {
        exists|n: u64, kind: u8|
            n < self.next_other && other == #[trigger] minted_other(
                n,
                kind,
                self.boot_verifier@,
            )
    }

    /// Every stateid that is known was minted by this run.
    pub open spec fn all_issued(&self) -> bool {
        &&& forall|other: Seq<u8>| #[trigger] self.opens@.contains_key(other) ==> self.issued(other)
        &&& forall|other: Seq<u8>| #[trigger] self.locks@.contains_key(other) ==> self.issued(other)
        &&& forall|n: NodeKey| #[trigger]
            self.delegations@.contains_key(n) ==> self.issued(self.delegations@[n].stateid_other@)
    }

    /// Rows carry their own keys, every session has its slots, and no owner has two client records
    /// nor two open records of one file.
    pub open spec fn wf(&self) -> bool {
        &&& self.sessions.wf()
        &&& self.opens.wf()
        &&& self.locks.wf()
        &&& self.delegations.wf()
        &&& self.backchannels.wf()
        &&& forall|id: u64| #[trigger]
            self.clients@.contains_key(id) ==> self.clients@[id].clientid == id
        &&& forall|a: u64, b: u64|
            #![trigger self.clients@[a], self.clients@[b]]
            self.clients@.contains_key(a) && self.clients@.contains_key(b)
                && self.clients@[a].owner@ == self.clients@[b].owner@ ==> a == b
        &&& forall|id: Seq<u8>| #[trigger]
            self.sessions@.contains_key(id) ==> self.sessions@[id].id@ == id
                && self.sessions@[id].fore_slots@.len() == FORE_SLOTS
        &&& forall|n: NodeKey| #[trigger]
            self.delegations@.contains_key(n) ==> self.delegations@[n].node == n
        &&& forall|a: Seq<u8>, b: Seq<u8>|
            #![trigger self.opens@[a], self.opens@[b]]
            self.opens@.contains_key(a) && self.opens@.contains_key(b) && self.opens@[a].node
                == self.opens@[b].node && self.opens@[a].owner@ == self.opens@[b].owner@ ==> a == b
    }

    /// An empty state. `boot` tells this run apart; client numbers start at `seed`, made odd.
    pub fn new(boot: u64, seed: u64) -> (st: Self)
        ensures
            st.wf(),
            st.all_issued(),
            st.clients@ == Map::<u64, Client>::empty(),
            st.sessions@ == Map::<Seq<u8>, Session>::empty(),
            st.opens@ == Map::<Seq<u8>, OpenState>::empty(),
            st.locks@ == Map::<Seq<u8>, NodeKey>::empty(),
            st.delegations@ == Map::<NodeKey, Delegation>::empty(),
            st.deleg_stats == (DelegStats { granted: 0, recalls: 0, returned: 0, revoked: 0 }),
            st.next_clientid == seed | 1,
            st.next_other == 1,
            st.boot_verifier@ == be64(boot),
            st.backchannels@ == Map::<Seq<u8>, u32>::empty(),
            st.next_cb_xid == FIRST_CB_XID,
            st.ops_served == 0,
            st.recall_metrics.recalls_sent == 0,
            st.recall_metrics.returns == 0,
            st.recall_metrics.total_recall_ns == 0,
            st.recall_metrics.max_recall_ns == 0,
            st.recall_metrics.samples_ns@.len() == 0,
    {
        broadcast use be32_len;

        let mut w = XdrWriter::new();
        w.u64(boot);
        proof {
            assert(w@ =~= be64(boot));
        }
        State {
            clients: HashMap::new(),
            sessions: KeyTable::new(),
            opens: KeyTable::new(),
            locks: KeyTable::new(),
            delegations: KeyTable::new(),
            deleg_stats: DelegStats { granted: 0, recalls: 0, returned: 0, revoked: 0 },
            next_clientid: seed | 1,
            next_other: 1,
            boot_verifier: to_array(w.into_bytes().as_slice()),
            backchannels: KeyTable::new(),
            next_cb_xid: FIRST_CB_XID,
            recall_metrics: RecallMetrics {
                recalls_sent: 0,
                returns: 0,
                total_recall_ns: 0,
                max_recall_ns: 0,
                samples_ns: Vec::new(),
            },
            ops_served: 0,
        }
    }

    /// Whether `id` is the record of this owner.
    pub open spec fn is_client_of(&self, id: u64, owner: Seq<u8>) -> bool {
        self.clients@.contains_key(id) && self.clients@[id].owner@ == owner
    }

    /// Find the client record of an owner.
    fn client_of(&self, owner: &[u8]) -> (r: Option<u64>)
        ensures
            match r {
                Some(id) => self.is_client_of(id, owner@),
                None => forall|id: u64| !self.is_client_of(id, owner@),
            },
    {
        let ghost rows = self.clients.iter().remaining();
        let mut found: Option<u64> = None;
        for row in it: self.clients.iter()
            invariant
                rows == self.clients.iter().remaining(),
                it.seq() == rows,
                match found {
                    Some(id) => self.is_client_of(id, owner@),
                    None => forall|j: int|
                        0 <= j < it.index() ==> (#[trigger] rows[j]).1.owner@ != owner@,
                },
        {
            if same_bytes(row.1.owner.as_slice(), owner) {
                proof {
                    assert(self.clients@.contains_key(*rows[it.index() as int].0));
                }
                found = Some(*row.0);
            }
        }
        proof {
            assert forall|id: u64| found is None implies !self.is_client_of(id, owner@) by {
                if self.clients@.contains_key(id) {
                    let k = rows.index_of((&id, &self.clients@[id]));
                    assert(rows.contains((&id, &self.clients@[id])));
                    assert(rows[k].1.owner@ == self.clients@[id].owner@);
                }
            }
        }
        found
    }

    /// Drop the sessions of a client.
    fn drop_sessions_of(&mut self, clientid: u64)
        requires
            old(self).wf(),
        ensures
            final(self).wf(),
            final(self).sessions@ == kept(
                old(self).sessions@,
                |id: Seq<u8>, s: Session| s.clientid != clientid,
            ),
            final(self).clients == old(self).clients,
            final(self).opens == old(self).opens,
            final(self).locks == old(self).locks,
            final(self).delegations == old(self).delegations,
            final(self).deleg_stats == old(self).deleg_stats,
            final(self).next_clientid == old(self).next_clientid,
            final(self).next_other == old(self).next_other,
            final(self).boot_verifier == old(self).boot_verifier,
            final(self).backchannels == old(self).backchannels,
            final(self).next_cb_xid == old(self).next_cb_xid,
            final(self).recall_metrics == old(self).recall_metrics,
            final(self).ops_served == old(self).ops_served,
    {
        let ghost keep = |id: Seq<u8>, s: Session| s.clientid != clientid;
        let ghost before = self.sessions@;
        let mut i: usize = 0;
        while i < self.sessions.rows.len()
            invariant
                sweeping(before, self.sessions, i as int, keep),
                keep == (|id: Seq<u8>, s: Session| s.clientid != clientid),
                self.clients == old(self).clients,
                self.opens == old(self).opens,
                self.locks == old(self).locks,
                self.delegations == old(self).delegations,
                self.deleg_stats == old(self).deleg_stats,
                self.next_clientid == old(self).next_clientid,
                self.next_other == old(self).next_other,
                self.boot_verifier == old(self).boot_verifier,
                self.backchannels == old(self).backchannels,
                self.next_cb_xid == old(self).next_cb_xid,
                self.recall_metrics == old(self).recall_metrics,
                self.ops_served == old(self).ops_served,
            decreases self.sessions.rows@.len() - i,
        {
            if self.sessions.rows[i].1.clientid == clientid {
                let ghost then = self.sessions;
                let _row = self.sessions.remove_at(i);
                proof {
                    sweep_drop(before, then, self.sessions, i as int, keep);
                }
            } else {
                i = i + 1;
            }
        }
        proof {
            swept(before, self.sessions, keep);
        }
    }

    /// The first number, counted on from the next one, that no client has.
    fn free_clientid(&self) -> (id: u64)
        requires
            self.wf(),
        ensures
            first_free(self.clients@, self.next_clientid, id),
    {
        let ghost ids = self.clients@.dom();
        let n: usize = self.clients.len();
        let mut id: u64 = self.next_clientid;
        let mut i: u64 = 0;
        proof {
            assert(places_on(self.next_clientid, 0) == id);
        }
        while self.clients.contains_key(&id)
            invariant
                self.wf(),
                ids == self.clients@.dom(),
                ids.finite(),
                ids.len() == n,
                i <= n,
                id == places_on(self.next_clientid, i as nat),
                forall|j: nat|
                    j < i ==> self.clients@.contains_key(
                        #[trigger] places_on(self.next_clientid, j),
                    ),
            decreases n - i,
        {
            proof {
                assert forall|j: nat| j < i + 1 implies ids.contains(
                    #[trigger] places_on(self.next_clientid, j),
                ) by {
                    if j == i {
                        assert(places_on(self.next_clientid, j) == id);
                    }
                }
                taken_are_few(ids, self.next_clientid, (i + 1) as nat);
            }
            id = id.wrapping_add(1);
            i = i + 1;
        }
        proof {
            assert(taken_until(self.clients@, self.next_clientid, id, i as nat));
        }
        id
    }

    /// EXCHANGE_ID: the client number and sequence number of an owner. The same owner with the
    /// same verifier keeps its record. With another verifier the client has rebooted: its old
    /// record, its sessions, and all open files and delegations go, and it gets a number that no
    /// client has.
    pub fn exchange_id(&mut self, owner: &[u8], verifier: [u8; 8]) -> (res: (u64, u32))
        requires
            old(self).wf(),
        ensures
            final(self).wf(),
            exchanged(*old(self), *final(self), owner@, verifier@, res),
    {
        let clientid: u64 = self.free_clientid();
        if let Some(known) = self.client_of(owner) {
            proof {
                assert forall|id: u64| #[trigger] old(self).is_client_of(id, owner@) implies id == known by {
                    let a = old(self).clients@[id];
                    let b = old(self).clients@[known];
                }
            }
            if let Some(c) = self.clients.get(&known) {
                if same_bytes(c.verifier.as_slice(), verifier.as_slice()) {
                    return (c.clientid, c.sequence_id);
                }
            }
            let _gone = self.clients.remove(&known);
            self.drop_sessions_of(known);
            self.opens.clear();
            self.delegations.clear();
        }
        self.next_clientid = clientid.wrapping_add(1);
        let ghost mid = self.clients@;
        let c = Client {
            clientid,
            owner: to_vec(owner),
            verifier,
            confirmed: false,
            sequence_id: 1,
        };
        let ghost fresh = c;
        let _old = self.clients.insert(clientid, c);
        proof {
            assert(fresh_client(fresh, clientid, owner@, verifier@));
            assert(self.clients@ == mid.insert(clientid, fresh));
            assert(client_added(mid, self.clients@, clientid, owner@, verifier@));
            assert forall|id: u64| mid.contains_key(id) implies #[trigger] mid[id].owner@ != owner@ by {
                assert(old(self).clients@.contains_key(id));
                if mid[id].owner@ == owner@ {
                    assert(old(self).is_client_of(id, owner@));
                }
            }
            assert forall|a: u64, b: u64|
                #![trigger self.clients@[a], self.clients@[b]]
                self.clients@.contains_key(a) && self.clients@.contains_key(b)
                    && self.clients@[a].owner@ == self.clients@[b].owner@ implies a == b by {
                if a != clientid {
                    assert(mid[a].owner@ != owner@);
                }
                if b != clientid {
                    assert(mid[b].owner@ != owner@);
                }
            }
        }
        (clientid, 1)
    }

    /// CREATE_SESSION: a session of a known client, which is thereby confirmed. `nonce` makes
    /// the identifier unguessable.
    pub fn create_session(&mut self, clientid: u64, cb_program: u32, nonce: u64) -> (res: Option<
        [u8; 16],
    >)
        requires
            old(self).wf(),
        ensures
            final(self).wf(),
            session_created(*old(self), *final(self), clientid, cb_program, nonce, id_bytes(res)),
    {
        broadcast use be32_len;

        if !self.clients.contains_key(&clientid) {
            return None;
        }
        let c = match self.clients.remove(&clientid) {
            Some(c) => c,
            None => {
                return None;
            },
        };
        let ghost was = c;
        let confirmed = Client {
            clientid: c.clientid,
            owner: c.owner,
            verifier: c.verifier,
            confirmed: true,
            sequence_id: c.sequence_id,
        };
        let _none = self.clients.insert(clientid, confirmed);
        proof {
            assert(self.clients@ =~= old(self).clients@.insert(
                clientid,
                Client { confirmed: true, ..was },
            ));
            assert forall|a: u64, b: u64|
                #![trigger self.clients@[a], self.clients@[b]]
                self.clients@.contains_key(a) && self.clients@.contains_key(b)
                    && self.clients@[a].owner@ == self.clients@[b].owner@ implies a == b by {
                let oa = old(self).clients@[a];
                let ob = old(self).clients@[b];
            }
        }
        let mut w = XdrWriter::new();
        w.u64(clientid);
        w.u64(nonce);
        proof {
            assert(w@ =~= session_id(clientid, nonce));
        }
        let id: [u8; 16] = to_array(w.into_bytes().as_slice());
        let mut fore_slots: Vec<Slot> = Vec::new();
        let mut i: u32 = 0;
        while i < FORE_SLOTS
            invariant
                i <= FORE_SLOTS,
                fore_slots@.len() == i,
                forall|j: int| 0 <= j < i ==> fresh_slot(#[trigger] fore_slots@[j]),
            decreases FORE_SLOTS - i,
        {
            fore_slots.push(Slot { seqid: 0, reply: None, status: 0, had_uncached: false });
            i = i + 1;
        }
        let s = Session { id, clientid, fore_slots, cb_program, back_slot_seqid: 0 };
        let ghost fresh = s;
        let _prev = self.sessions.insert(id, s);
        proof {
            assert(self.clients@ == old(self).clients@.insert(
                clientid,
                Client { confirmed: true, ..old(self).clients@[clientid] },
            ));
            assert(id@ == session_id(clientid, nonce));
            assert(fresh_session(fresh, id@, clientid, cb_program));
            assert(self.sessions@ == old(self).sessions@.insert(id@, fresh));
            assert(session_added(
                old(self).sessions@,
                self.sessions@,
                id@,
                clientid,
                cb_program,
            ));
        }
        Some(id)
    }

    pub fn session(&self, id: &[u8; 16]) -> (r: Option<&Session>)
        requires
            self.wf(),
        ensures
            match r {
                Some(s) => self.sessions@.contains_key(id@) && self.sessions@[id@] == *s,
                None => !self.sessions@.contains_key(id@),
            },
    {
        self.sessions.get(id)
    }

    /// Forget a session; whether there was one.
    pub fn destroy_session(&mut self, id: &[u8; 16]) -> (r: bool)
        requires
            old(self).wf(),
        ensures
            final(self).wf(),
            session_destroyed(*old(self), *final(self), id@, r),
    {
        self.sessions.remove(id).is_some()
    }

    /// Forget a client with its sessions and all stateids; whether there was one.
    pub fn destroy_client(&mut self, clientid: u64) -> (r: bool)
        requires
            old(self).wf(),
        ensures
            final(self).wf(),
            client_destroyed(*old(self), *final(self), clientid, r),
    {
        if !self.clients.contains_key(&clientid) {
            return false;
        }
        let _gone = self.clients.remove(&clientid);
        proof {
            assert forall|a: u64, b: u64|
                #![trigger self.clients@[a], self.clients@[b]]
                self.clients@.contains_key(a) && self.clients@.contains_key(b)
                    && self.clients@[a].owner@ == self.clients@[b].owner@ implies a == b by {
                let oa = old(self).clients@[a];
                let ob = old(self).clients@[b];
            }
        }
        self.drop_sessions_of(clientid);
        self.opens.clear();
        self.locks.clear();
        self.delegations.clear();
        true
    }

    /// Mint the `other` field of a fresh stateid: kind 1 is an open, 2 a delegation, 3 a lock.
    pub fn new_other(&mut self, kind: u8) -> (other: [u8; 12])
        ensures
            other@ == minted_other(old(self).next_other, kind, old(self).boot_verifier@),
            *final(self) == (State { next_other: succ64(old(self).next_other), ..*old(self) }),
    {
        broadcast use be32_len;

        let n: u64 = self.next_other;
        self.next_other = self.next_other.wrapping_add(1);
        let mut w = XdrWriter::new();
        w.u64(n);
        let buf = w.buf_mut();
        buf.push(kind);
        buf.push(self.boot_verifier[0]);
        buf.push(self.boot_verifier[1]);
        buf.push(self.boot_verifier[2]);
        proof {
            assert(w@ =~= minted_other(n, kind, self.boot_verifier@));
        }
        to_array(w.into_bytes().as_slice())
    }

    /// A stateid minted by another run of the server: not a special one, and its boot bytes are
    /// not this run's.
    pub open spec fn is_stale(&self, other: Seq<u8>) -> bool {
        &&& !all_zero(other)
        &&& !all_ones(other)
        &&& !self.tags(other)
    }

    /// Stale is told apart from bad: a stale stateid tells the client that the server rebooted,
    /// so that it opens its files again.
    pub fn stateid_is_stale(&self, other: &[u8; 12]) -> (r: bool)
        ensures
            r == self.is_stale(other@),
    {
        if is_all(other, 0) || is_all(other, 255) {
            return false;
        }
        other[9] != self.boot_verifier[0] || other[10] != self.boot_verifier[1] || other[11]
            != self.boot_verifier[2]
    }

    /// Whether a delegation has this stateid.
    pub open spec fn is_delegation(&self, other: Seq<u8>) -> bool {
        exists|n: NodeKey| #[trigger]
            self.delegations@.contains_key(n) && self.delegations@[n].stateid_other@ == other
    }

    /// The stateids that I/O is accepted with: the anonymous one, with sequence number 0, or 1
    /// where it stands for the compound's current stateid; the bypass one; and every open, lock
    /// or delegation.
    pub open spec fn accepts(&self, seq: u32, other: Seq<u8>) -> bool {
        if all_zero(other) {
            seq == 0 || seq == 1
        } else {
            all_ones(other) || self.opens@.contains_key(other) || self.locks@.contains_key(other)
                || self.is_delegation(other)
        }
    }

    pub fn stateid_ok(&self, seq: u32, other: &[u8; 12]) -> (r: bool)
        requires
            self.wf(),
        ensures
            r == self.accepts(seq, other@),
    {
        if is_all(other, 0) {
            return seq == 0 || seq == 1;
        }
        if is_all(other, 255) {
            return true;
        }
        if self.opens.contains(other) {
            return true;
        }
        if self.locks.contains(other) {
            return true;
        }
        self.delegation_row(other).is_some()
    }

    /// The first row of the delegations that has this stateid.
    pub fn delegation_row(&self, other: &[u8; 12]) -> (r: Option<usize>)
        requires
            self.wf(),
        ensures
            match r {
                Some(i) => {
                    &&& i < self.delegations.rows@.len()
                    &&& self.delegations.rows@[i as int].1.stateid_other@ == other@
                    &&& self.delegations@.contains_key(self.delegations.rows@[i as int].0)
                    &&& self.delegations@[self.delegations.rows@[i as int].0]
                        == self.delegations.rows@[i as int].1
                    &&& self.is_delegation(other@)
                },
                None => !self.is_delegation(other@),
            },
    {
        let mut i: usize = 0;
        while i < self.delegations.rows.len()
            invariant
                self.wf(),
                i <= self.delegations.rows@.len(),
                forall|j: int|
                    0 <= j < i ==> (#[trigger] self.delegations.rows@[j]).1.stateid_other@ != other@,
            decreases self.delegations.rows@.len() - i,
        {
            if same_bytes(
                self.delegations.rows[i].1.stateid_other.as_slice(),
                other.as_slice(),
            ) {
                proof {
                    self.delegations.row_in_map(i as int);
                    assert(self.is_delegation(other@));
                }
                return Some(i);
            }
            i = i + 1;
        }
        proof {
            assert forall|n: NodeKey| #[trigger]
                self.delegations@.contains_key(n) implies self.delegations@[n].stateid_other@
                != other@ by {
                assert(self.delegations.has_row(n));
                let k = self.delegations.row_of(n);
                self.delegations.row_in_map(k);
            }
        }
        None
    }

    /// Whether an open of `node` by `owner` is recorded under `other`.
    pub open spec fn is_open_of(&self, other: Seq<u8>, node: NodeKey, owner: Seq<u8>) -> bool {
        self.opens@.contains_key(other) && self.opens@[other].node == node
            && self.opens@[other].owner@ == owner
    }

    fn open_row(&self, node: NodeKey, owner: &[u8]) -> (r: Option<usize>)
        requires
            self.wf(),
        ensures
            match r {
                Some(i) => {
                    &&& i < self.opens.rows@.len()
                    &&& self.is_open_of(self.opens.rows@[i as int].0@, node, owner@)
                    &&& self.opens@[self.opens.rows@[i as int].0@] == self.opens.rows@[i as int].1
                },
                None => forall|other: Seq<u8>| !self.is_open_of(other, node, owner@),
            },
    {
        let mut i: usize = 0;
        while i < self.opens.rows.len()
            invariant
                self.wf(),
                i <= self.opens.rows@.len(),
                forall|j: int|
                    0 <= j < i ==> (#[trigger] self.opens.rows@[j]).1.node != node
                        || self.opens.rows@[j].1.owner@ != owner@,
            decreases self.opens.rows@.len() - i,
        {
            let os = &self.opens.rows[i].1;
            if os.node == node && same_bytes(os.owner.as_slice(), owner) {
                proof {
                    self.opens.row_in_map(i as int);
                }
                return Some(i);
            }
            i = i + 1;
        }
        proof {
            assert forall|other: Seq<u8>| !self.is_open_of(other, node, owner@) by {
                if self.opens@.contains_key(other) {
                    assert(self.opens.has_row(other));
                    let k = self.opens.row_of(other);
                    self.opens.row_in_map(k);
                }
            }
        }
        None
    }

    /// Record an open: the stateid and its sequence number. A second open of a file by the same
    /// owner keeps the stateid, with the next sequence number and the accesses of both; otherwise
    /// a fresh stateid is minted.
    pub fn register_open(&mut self, node: NodeKey, owner: &Vec<u8>, share_access: u32) -> (res: (
        [u8; 12],
        u32,
    ))
        requires
            old(self).wf(),
        ensures
            final(self).wf(),
            open_registered(*old(self), *final(self), node, owner@, share_access, (res.0@, res.1)),
    {
        match self.open_row(node, owner.as_slice()) {
            Some(i) => {
                let ghost known = self.opens.rows@[i as int].0@;
                proof {
                    assert forall|other: Seq<u8>| #[trigger]
                        old(self).is_open_of(other, node, owner@) implies other == known by {
                        let a = old(self).opens@[other];
                        let b = old(self).opens@[known];
                    }
                }
                let (other, was) = self.opens.remove_at(i);
                let seqid: u32 = was.seqid.wrapping_add(1);
                let os = OpenState {
                    node: was.node,
                    seqid,
                    share_access: was.share_access | (share_access & 3),
                    owner: was.owner,
                };
                let ghost now = os;
                let _none = self.opens.insert(other, os);
                proof {
                    assert(self.opens@ =~= old(self).opens@.insert(known, now));
                    assert forall|a: Seq<u8>, b: Seq<u8>|
                        #![trigger self.opens@[a], self.opens@[b]]
                        self.opens@.contains_key(a) && self.opens@.contains_key(b)
                            && self.opens@[a].node == self.opens@[b].node && self.opens@[a].owner@
                            == self.opens@[b].owner@ implies a == b by {
                        let oa = old(self).opens@[a];
                        let ob = old(self).opens@[b];
                    }
                }
                (other, seqid)
            },
            None => {
                let other = self.new_other(1);
                let os = OpenState {
                    node,
                    seqid: 1,
                    share_access: share_access & 3,
                    owner: owner.clone(),
                };
                let ghost now = os;
                let _prev = self.opens.insert(other, os);
                proof {
                    assert(fresh_open(now, node, share_access & 3, owner@));
                    assert(open_added(
                        old(self).opens@,
                        self.opens@,
                        other@,
                        node,
                        share_access & 3,
                        owner@,
                    ));
                    assert forall|a: Seq<u8>, b: Seq<u8>|
                        #![trigger self.opens@[a], self.opens@[b]]
                        self.opens@.contains_key(a) && self.opens@.contains_key(b)
                            && self.opens@[a].node == self.opens@[b].node && self.opens@[a].owner@
                            == self.opens@[b].owner@ implies a == b by {
                        if a != other@ {
                            assert(!old(self).is_open_of(a, node, owner@));
                            let oa = old(self).opens@[a];
                        }
                        if b != other@ {
                            assert(!old(self).is_open_of(b, node, owner@));
                            let ob = old(self).opens@[b];
                        }
                    }
                }
                (other, 1)
            },
        }
    }
}

/// An open as OPEN records it.
pub open spec fn fresh_open(os: OpenState, node: NodeKey, access: u32, owner: Seq<u8>) -> bool {
    os.node == node && os.seqid == 1 && os.share_access == access && os.owner@ == owner
}

/// Whether every byte of a stateid's `other` is `b`.
pub fn is_all(other: &[u8; 12], b: u8) -> (r: bool)
    ensures
        r == (other@ == Seq::new(12, |i: int| b)),
{
    let mut i: usize = 0;
    while i < 12
        invariant
            i <= 12,
            forall|j: int| 0 <= j < i ==> other@[j] == b,
        decreases 12 - i,
    {
        if other[i] != b {
            proof {
                assert(other@[i as int] != Seq::new(12, |k: int| b)[i as int]);
            }
            return false;
        }
        i = i + 1;
    }
    proof {
        assert(other@ =~= Seq::new(12, |k: int| b));
    }
    true
}

/// A minted stateid is never taken for one of another run.
pub proof fn minted_is_not_stale(st: State, n: u64, kind: u8)
    ensures
        st.tags(minted_other(n, kind, st.boot_verifier@)),
        !st.is_stale(minted_other(n, kind, st.boot_verifier@)),
{
    broadcast use be32_len;

    let o = minted_other(n, kind, st.boot_verifier@);
    assert(o[9] == st.boot_verifier@[0] && o[10] == st.boot_verifier@[1] && o[11]
        == st.boot_verifier@[2]);
}

/// Stateids minted under different numbers are different, and so are those of different kinds.
pub proof fn minted_are_distinct(n1: u64, kind1: u8, n2: u64, kind2: u8, boot: Seq<u8>)
    requires
        (n1, kind1) != (n2, kind2),
    ensures
        minted_other(n1, kind1, boot) != minted_other(n2, kind2, boot),
{
    broadcast use be32_len;

    let e = Seq::<u8>::empty();
    let t1 = seq![kind1, boot[0], boot[1], boot[2]];
    let t2 = seq![kind2, boot[0], boot[1], boot[2]];
    u64_round_trip(n1, t1);
    u64_round_trip(n2, t2);
    assert(e.put_u64(n1) + t1 =~= minted_other(n1, kind1, boot));
    assert(e.put_u64(n2) + t2 =~= minted_other(n2, kind2, boot));
    assert(minted_other(n1, kind1, boot)[8] == kind1);
    assert(minted_other(n2, kind2, boot)[8] == kind2);
}

/// What another run minted is not known to this one.
pub proof fn issued_is_not_stale(st: State, other: Seq<u8>)
    requires
        st.issued(other),
    ensures
        !st.is_stale(other),
{
    let (n, kind) = choose|n: u64, kind: u8|
        n < st.next_other && other == #[trigger] minted_other(n, kind, st.boot_verifier@);
    minted_is_not_stale(st, n, kind);
}

/// The stateid that is minted next is not in use: no open, lock or delegation has it.
pub proof fn minted_is_unused(st: State, kind: u8)
    requires
        st.all_issued(),
    ensures
        !st.opens@.contains_key(minted_other(st.next_other, kind, st.boot_verifier@)),
        !st.locks@.contains_key(minted_other(st.next_other, kind, st.boot_verifier@)),
        !st.is_delegation(minted_other(st.next_other, kind, st.boot_verifier@)),
{
    let fresh = minted_other(st.next_other, kind, st.boot_verifier@);
    if st.issued(fresh) {
        let (n, k) = choose|n: u64, k: u8|
            n < st.next_other && fresh == #[trigger] minted_other(n, k, st.boot_verifier@);
        minted_are_distinct(n, k, st.next_other, kind, st.boot_verifier@);
    }
}

/// While the numbers do not run out, what was minted before stays minted.
proof fn issued_stays(pre: State, post: State, other: Seq<u8>)
    requires
        pre.issued(other),
        post.next_other >= pre.next_other,
        post.boot_verifier == pre.boot_verifier,
    ensures
        post.issued(other),
{
    let (n, kind) = choose|n: u64, kind: u8|
        n < pre.next_other && other == #[trigger] minted_other(n, kind, pre.boot_verifier@);
    assert(n < post.next_other && other == minted_other(n, kind, post.boot_verifier@));
}

/// Every known stateid was minted, if the known ones are among those that were known before and
/// those that were minted since.
pub proof fn known_were_issued(pre: State, post: State)
    requires
        pre.all_issued(),
        post.next_other >= pre.next_other,
        post.boot_verifier == pre.boot_verifier,
        forall|other: Seq<u8>| #[trigger]
            post.opens@.contains_key(other) ==> pre.opens@.contains_key(other) || post.issued(other),
        forall|other: Seq<u8>| #[trigger]
            post.locks@.contains_key(other) ==> pre.locks@.contains_key(other) || post.issued(other),
        forall|n: NodeKey| #[trigger]
            post.delegations@.contains_key(n) ==> (pre.delegations@.contains_key(n)
                && post.delegations@[n].stateid_other == pre.delegations@[n].stateid_other)
                || post.issued(post.delegations@[n].stateid_other@),
    ensures
        post.all_issued(),
{
    assert forall|other: Seq<u8>| #[trigger] post.opens@.contains_key(other) implies post.issued(
        other,
    ) by {
        if pre.opens@.contains_key(other) {
            issued_stays(pre, post, other);
        }
    }
    assert forall|other: Seq<u8>| #[trigger] post.locks@.contains_key(other) implies post.issued(
        other,
    ) by {
        if pre.locks@.contains_key(other) {
            issued_stays(pre, post, other);
        }
    }
    assert forall|n: NodeKey| #[trigger] post.delegations@.contains_key(n) implies post.issued(
        post.delegations@[n].stateid_other@,
    ) by {
        if pre.delegations@.contains_key(n) && post.delegations@[n].stateid_other
            == pre.delegations@[n].stateid_other {
            issued_stays(pre, post, pre.delegations@[n].stateid_other@);
        }
    }
}

/// Exchanging the same identity twice gives the same numbers and changes nothing more.
pub proof fn exchange_is_idempotent(
    s0: State,
    s1: State,
    s2: State,
    owner: Seq<u8>,
    verifier: Seq<u8>,
    r1: (u64, u32),
    r2: (u64, u32),
)
    requires
        s0.wf(),
        s1.wf(),
        exchanged(s0, s1, owner, verifier, r1),
        exchanged(s1, s2, owner, verifier, r2),
    ensures
        r2 == r1,
        s2 == s1,
{
    if exists|id: u64| s0.is_client_of(id, owner) {
        let id = choose|id: u64| s0.is_client_of(id, owner);
        assert(s0.is_client_of(id, owner));
        if s0.clients@[id].verifier@ == verifier {
            assert(s1.is_client_of(id, owner));
        } else {
            assert(s1.is_client_of(r1.0, owner));
        }
    }
    assert(s1.is_client_of(r1.0, owner));
}

/// A client that comes back with another verifier has rebooted: none of its sessions and no open
/// file or delegation is left, it gets a number that no client had, and its old number is good for
/// no session.
pub proof fn reboot_drops_state(
    pre: State,
    post: State,
    id: u64,
    owner: Seq<u8>,
    verifier: Seq<u8>,
    res: (u64, u32),
    sid: Seq<u8>,
    next: State,
    cb_program: u32,
    nonce: u64,
    created: Option<Seq<u8>>,
)
    requires
        pre.wf(),
        pre.is_client_of(id, owner),
        pre.clients@[id].verifier@ != verifier,
        exchanged(pre, post, owner, verifier, res),
        session_created(post, next, id, cb_program, nonce, created),
    ensures
        res.0 != id,
        !pre.clients@.contains_key(res.0),
        post.is_client_of(res.0, owner),
        res.1 == 1,
        !post.clients@.contains_key(id),
        created is None,
        post.opens@ == Map::<Seq<u8>, OpenState>::empty(),
        post.delegations@ == Map::<NodeKey, Delegation>::empty(),
        post.sessions@.contains_key(sid) ==> post.sessions@[sid].clientid != id,
{
}

/// A session that was created is there until it is destroyed, and then no more.
pub proof fn session_lives_until_destroyed(
    s0: State,
    s1: State,
    s2: State,
    clientid: u64,
    cb_program: u32,
    nonce: u64,
    sid: Seq<u8>,
    r: bool,
)
    requires
        session_created(s0, s1, clientid, cb_program, nonce, Some(sid)),
        session_destroyed(s1, s2, sid, r),
    ensures
        s1.sessions@.contains_key(sid),
        s1.sessions@[sid].clientid == clientid,
        r,
        !s2.sessions@.contains_key(sid),
{
}

} // verus!
