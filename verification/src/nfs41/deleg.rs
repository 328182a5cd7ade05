//! Read delegations: granted on read-only opens, recalled over the backchannel when the guest
//! changes the file, revoked when the client does not give them back in time.
use crate::handle::HandleCodec;
use crate::nfs3::fh_bytes;
use crate::nfs41::request::{
    ERR_BAD_STATEID, ERR_IO, ERR_STALE_STATEID, NFS4_OK,
};
use crate::nfs41::state::{
    minted_other, succ32, succ64, DelegStats, Delegation, RecallMetrics,
    Session, State, DELEG_CAP, SAMPLE_CAP,
};
use crate::rpc::{AUTH_NONE, MSG_TYPE_CALL, MSG_TYPE_REPLY, RPC_VERSION};
use crate::sort::{ordered, sort_order, spans};
use crate::types::NodeKey;
use crate::xdr::{get_opaque, get_u32, Wire, XdrReader, XdrWriter};
use vstd::prelude::*;

verus! {

pub const CB_OP_RECALL: u32 = 4;

pub const CB_OP_SEQUENCE: u32 = 11;

/// A delegation as it is granted.
pub open spec fn fresh_delegation(d: Delegation, other: Seq<u8>, node: NodeKey, now: u64) -> bool {
    d.stateid_other@ == other && d.node == node && !d.recalling && d.granted_at == now
        && d.recalled_at is None
}

/// A fresh delegation came in.
pub open spec fn delegation_added(
    before: Map<NodeKey, Delegation>,
    after: Map<NodeKey, Delegation>,
    other: Seq<u8>,
    node: NodeKey,
    now: u64,
) -> bool {
    exists|d: Delegation| #[trigger]
        fresh_delegation(d, other, node, now) && after == before.insert(node, d)
}

/// Whether an open gets a delegation: it is of an existing file, without write access, there is
/// none on the file yet, and the cap is not reached.
pub open spec fn grants(st: State, node: NodeKey, share_access: u32, created: bool) -> bool {
    &&& !created
    &&& share_access & 2 == 0
    &&& st.delegations@.len() < DELEG_CAP
    &&& !st.delegations@.contains_key(node)
}

/// What granting makes of the state, and the stateid it gives.
pub open spec fn granted(
    pre: State,
    post: State,
    node: NodeKey,
    share_access: u32,
    created: bool,
    now: u64,
    res: Option<Seq<u8>>,
) -> bool {
    if grants(pre, node, share_access, created) {
        let other = minted_other(pre.next_other, 2, pre.boot_verifier@);
        &&& res == Some(other)
        &&& delegation_added(pre.delegations@, post.delegations@, other, node, now)
        &&& post == (State {
            delegations: post.delegations,
            deleg_stats: DelegStats { granted: succ64(pre.deleg_stats.granted), ..pre.deleg_stats },
            next_other: succ64(pre.next_other),
            ..pre
        })
    } else {
        res is None && post == pre
    }
}

pub open spec fn other_bytes(res: Option<[u8; 12]>) -> Option<Seq<u8>> {
    match res {
        Some(o) => Some(o@),
        None => None,
    }
}

/// The metrics with one more return, `ns` after its recall.
pub open spec fn return_recorded(before: RecallMetrics, after: RecallMetrics, ns: u64) -> bool {
    &&& after.recalls_sent == before.recalls_sent
    &&& after.returns == succ64(before.returns)
    &&& after.total_recall_ns == ((before.total_recall_ns + ns) % 0x1_0000_0000_0000_0000) as u64
    &&& after.max_recall_ns == (if ns > before.max_recall_ns {
        ns
    } else {
        before.max_recall_ns
    })
    &&& after.samples_ns@ == (if before.samples_ns@.len() < SAMPLE_CAP {
        before.samples_ns@.push(ns)
    } else {
        before.samples_ns@
    })
}

impl RecallMetrics {
    fn record(&mut self, ns: u64)
        ensures
            return_recorded(*old(self), *final(self), ns),
    {
        self.returns = self.returns.wrapping_add(1);
        self.total_recall_ns = self.total_recall_ns.wrapping_add(ns);
        if ns > self.max_recall_ns {
            self.max_recall_ns = ns;
        }
        if self.samples_ns.len() < SAMPLE_CAP {
            self.samples_ns.push(ns);
        }
    }

    /// The sample of rank `rank`, counted from the smallest, or the largest where there are not
    /// that many.
    pub fn sample_at(&self, rank: usize) -> (r: Option<u64>)
        ensures
            match r {
                None => self.samples_ns@.len() == 0,
                Some(v) => {
                    let n = self.samples_ns@.len();
                    let k = if rank < n {
                        rank as int
                    } else {
                        n - 1
                    };
                    n > 0 && exists|list: Seq<usize>| #[trigger]
                        spans(list, 0, n as int) && ordered(self.samples_ns@, list)
                            && self.samples_ns@[list[k] as int] == v
                },
            },
    {
        let n: usize = self.samples_ns.len();
        if n == 0 {
            return None;
        }
        let list = sort_order(&self.samples_ns);
        let k: usize = if rank < n {
            rank
        } else {
            n - 1
        };
        proof {
            assert(list@.contains(list@[k as int]));
            assert(spans(list@, 0, n as int));
        }
        Some(self.samples_ns[list[k]])
    }
}

/// Time from `then` to `now`, and zero where the clock says otherwise.
pub open spec fn elapsed(now: u64, then: u64) -> u64 {
    if now >= then {
        (now - then) as u64
    } else {
        0
    }
}

/// What DELEGRETURN makes of the state: the delegation goes and is counted, with the time since
/// its recall if it was recalled. An unknown stateid is told apart as stale or bad.
pub open spec fn returned(pre: State, post: State, other: Seq<u8>, now: u64, st: u32) -> bool {
    if pre.is_delegation(other) {
        &&& st == NFS4_OK
        &&& exists|n: NodeKey|
            {
                &&& #[trigger] pre.delegations@.contains_key(n)
                &&& pre.delegations@[n].stateid_other@ == other
                &&& post.delegations@ == pre.delegations@.remove(n)
                &&& match pre.delegations@[n].recalled_at {
                    Some(t) => return_recorded(
                        pre.recall_metrics,
                        post.recall_metrics,
                        elapsed(now, t),
                    ),
                    None => post.recall_metrics == pre.recall_metrics,
                }
            }
        &&& post == (State {
            delegations: post.delegations,
            deleg_stats: DelegStats {
                returned: succ64(pre.deleg_stats.returned),
                ..pre.deleg_stats
            },
            recall_metrics: post.recall_metrics,
            ..pre
        })
    } else {
        post == pre && st == unknown_stateid(pre, other)
    }
}

/// The status that an unknown stateid is answered with.
pub open spec fn unknown_stateid(st: State, other: Seq<u8>) -> u32 {
    if st.is_stale(other) {
        ERR_STALE_STATEID
    } else {
        ERR_BAD_STATEID
    }
}

/// What is to be done about a delegation whose file changed.
#[derive(Debug)]
pub enum Recall {
    /// There is none, or its recall is under way.
    Nothing,
    /// There is no backchannel: it is revoked, and the client finds out by testing its stateids.
    Revoked,
    /// Recall it over the backchannel of this session.
    Send { sid: [u8; 16], other: [u8; 12] },
}

pub open spec fn recalled(pre: State, post: State, node: NodeKey, now: u64, res: Recall) -> bool {
    if !pre.delegations@.contains_key(node) || pre.delegations@[node].recalling {
        res is Nothing && post == pre
    } else if pre.backchannels.rows@.len() == 0 {
        &&& res is Revoked
        &&& post.delegations@ == pre.delegations@.remove(node)
        &&& post == (State {
            delegations: post.delegations,
            deleg_stats: DelegStats { revoked: succ64(pre.deleg_stats.revoked), ..pre.deleg_stats },
            ..pre
        })
    } else {
        &&& res is Send
        &&& res->sid == pre.backchannels.rows@[0].0
        &&& res->other == pre.delegations@[node].stateid_other
        &&& post.delegations@ == pre.delegations@.insert(
            node,
            Delegation { recalling: true, recalled_at: Some(now), ..pre.delegations@[node] },
        )
        &&& post == (State { delegations: post.delegations, ..pre })
    }
}

/// A callback that recalls a delegation: CB_COMPOUND of CB_SEQUENCE and CB_RECALL.
pub open spec fn cb_recall(
    xid: u32,
    program: u32,
    sid: Seq<u8>,
    seq: u32,
    other: Seq<u8>,
    fh: Seq<u8>,
) -> Seq<u8> {
    let e = Seq::<u8>::empty();
    e.put_u32(xid).put_u32(MSG_TYPE_CALL).put_u32(RPC_VERSION).put_u32(program).put_u32(1).put_u32(
        1,
    ).put_u32(AUTH_NONE).put_opaque(e).put_u32(AUTH_NONE).put_opaque(e).put_opaque(
        recall_tag(),
    ).put_u32(1).put_u32(0).put_u32(2).put_u32(CB_OP_SEQUENCE).put_fixed(sid).put_u32(seq).put_u32(
        0,
    ).put_u32(0).put_bool(false).put_u32(0).put_u32(CB_OP_RECALL).put_u32(1).put_fixed(
        other,
    ).put_bool(false).put_opaque(fh)
}

/// The tag `recall`.
pub open spec fn recall_tag() -> Seq<u8> {
    seq![114u8, 101, 99, 97, 108, 108]
}

/// What starting a recall makes of the state: it is counted, the callback's number and the
/// session's callback sequence number move on. Without the session or its backchannel nothing is
/// sent.
pub open spec fn recall_begun(
    pre: State,
    post: State,
    sid: Seq<u8>,
    other: Seq<u8>,
    fh: Seq<u8>,
    res: Option<(u32, Seq<u8>)>,
) -> bool {
    if pre.backchannels@.contains_key(sid) && pre.sessions@.contains_key(sid) {
        let sess = pre.sessions@[sid];
        let seq = succ32(sess.back_slot_seqid);
        &&& res == Some(
            (
                pre.next_cb_xid,
                cb_recall(pre.next_cb_xid, pre.backchannels@[sid], sid, seq, other, fh),
            ),
        )
        &&& post.sessions@ == pre.sessions@.insert(sid, Session { back_slot_seqid: seq, ..sess })
        &&& post == (State {
            sessions: post.sessions,
            next_cb_xid: succ32(pre.next_cb_xid),
            deleg_stats: DelegStats { recalls: succ64(pre.deleg_stats.recalls), ..pre.deleg_stats },
            recall_metrics: RecallMetrics {
                recalls_sent: succ64(pre.recall_metrics.recalls_sent),
                ..pre.recall_metrics
            },
            ..pre
        })
    } else {
        res is None && post == pre
    }
}

impl State {
    /// Grant a read delegation on an open, where the policy allows it.
    pub fn maybe_grant_delegation(
        &mut self,
        node: NodeKey,
        share_access: u32,
        created: bool,
        now: u64,
    ) -> (res: Option<[u8; 12]>)
        requires
            old(self).wf(),
        ensures
            final(self).wf(),
            granted(
                *old(self),
                *final(self),
                node,
                share_access,
                created,
                now,
                other_bytes(res),
            ),
    {
        if created || share_access & 2 != 0 {
            return None;
        }
        if self.delegations.len() >= DELEG_CAP || self.delegations.contains(&node) {
            return None;
        }
        let other = self.new_other(2);
        let d = Delegation {
            stateid_other: other,
            node,
            recalling: false,
            granted_at: now,
            recalled_at: None,
        };
        let ghost fresh = d;
        let _none = self.delegations.insert(node, d);
        self.deleg_stats.granted = self.deleg_stats.granted.wrapping_add(1);
        proof {
            assert(fresh_delegation(fresh, other@, node, now));
            assert(delegation_added(
                old(self).delegations@,
                self.delegations@,
                other@,
                node,
                now,
            ));
        }
        Some(other)
    }

    /// DELEGRETURN: the status.
    pub fn delegreturn(&mut self, other: &[u8; 12], now: u64) -> (st: u32)
        requires
            old(self).wf(),
        ensures
            final(self).wf(),
            returned(*old(self), *final(self), other@, now, st),
    {
        let i: usize = match self.delegation_row(other) {
            Some(i) => i,
            None => {
                if self.stateid_is_stale(other) {
                    return ERR_STALE_STATEID;
                }
                return ERR_BAD_STATEID;
            },
        };
        let ghost node = self.delegations.rows@[i as int].0;
        let (_node, d) = self.delegations.remove_at(i);
        self.deleg_stats.returned = self.deleg_stats.returned.wrapping_add(1);
        if let Some(t) = d.recalled_at {
            let ns: u64 = if now >= t {
                now - t
            } else {
                0
            };
            self.recall_metrics.record(ns);
        }
        proof {
            assert(old(self).delegations@.contains_key(node));
        }
        NFS4_OK
    }

    /// The guest changed a file: what is to be done about a delegation on it.
    pub fn recall_node(&mut self, node: NodeKey, now: u64) -> (res: Recall)
        requires
            old(self).wf(),
        ensures
            final(self).wf(),
            recalled(*old(self), *final(self), node, now, res),
    {
        let d = match self.delegations.get(&node) {
            Some(d) => d,
            None => {
                return Recall::Nothing;
            },
        };
        if d.recalling {
            return Recall::Nothing;
        }
        let other: [u8; 12] = d.stateid_other;
        let granted_at: u64 = d.granted_at;
        if self.backchannels.rows.len() == 0 {
            let _gone = self.delegations.remove(&node);
            self.deleg_stats.revoked = self.deleg_stats.revoked.wrapping_add(1);
            return Recall::Revoked;
        }
        let sid: [u8; 16] = self.backchannels.rows[0].0;
        let now_recalling = Delegation {
            stateid_other: other,
            node,
            recalling: true,
            granted_at,
            recalled_at: Some(now),
        };
        let _was = self.delegations.insert(node, now_recalling);
        Recall::Send { sid, other }
    }

    /// Start a recall over a session's backchannel: the callback's number and its bytes.
    pub fn begin_recall(
        &mut self,
        sid: &[u8; 16],
        other: &[u8; 12],
        node: NodeKey,
        share: u16,
        codec: &HandleCodec,
    ) -> (res: Option<(u32, Vec<u8>)>)
        requires
            old(self).wf(),
        ensures
            final(self).wf(),
            recall_begun(
                *old(self),
                *final(self),
                sid@,
                other@,
                fh_bytes(codec.key(), share, node),
                match res {
                    Some((xid, bytes)) => Some((xid, bytes@)),
                    None => None,
                },
            ),
    {
        let program: u32 = match self.backchannels.get(sid) {
            Some(p) => *p,
            None => {
                return None;
            },
        };
        let i: usize = match self.sessions.find(sid) {
            Some(i) => i,
            None => {
                return None;
            },
        };
        let (id, sess) = self.sessions.remove_at(i);
        let ghost was = sess;
        let seq: u32 = sess.back_slot_seqid.wrapping_add(1);
        let moved = Session {
            id: sess.id,
            clientid: sess.clientid,
            fore_slots: sess.fore_slots,
            cb_program: sess.cb_program,
            back_slot_seqid: seq,
        };
        let _none = self.sessions.insert(id, moved);
        proof {
            assert(self.sessions@ =~= old(self).sessions@.insert(
                sid@,
                Session { back_slot_seqid: seq, ..was },
            ));
        }
        self.recall_metrics.recalls_sent = self.recall_metrics.recalls_sent.wrapping_add(1);
        self.deleg_stats.recalls = self.deleg_stats.recalls.wrapping_add(1);
        let xid: u32 = self.next_cb_xid;
        self.next_cb_xid = self.next_cb_xid.wrapping_add(1);
        let fh = codec.encode(share, node);
        let bytes = render_cb_recall(xid, program, sid, seq, other, fh.as_slice());
        Some((xid, bytes))
    }

    /// The time for a recall is up: revoke the delegation unless it was given back. Whether it
    /// was revoked.
    pub fn expire_recall(&mut self, node: NodeKey, other: &[u8; 12]) -> (revoked: bool)
        requires
            old(self).wf(),
        ensures
            final(self).wf(),
            revoked == (old(self).delegations@.contains_key(node)
                && old(self).delegations@[node].stateid_other@ == other@),
            revoked ==> {
                &&& final(self).delegations@ == old(self).delegations@.remove(node)
                &&& *final(self) == (State {
                    delegations: final(self).delegations,
                    deleg_stats: DelegStats {
                        revoked: succ64(old(self).deleg_stats.revoked),
                        ..old(self).deleg_stats
                    },
                    ..*old(self)
                })
            },
            !revoked ==> *final(self) == *old(self),
    {
        match self.delegations.get(&node) {
            Some(d) => {
                if !crate::bytes::same_bytes(d.stateid_other.as_slice(), other.as_slice()) {
                    return false;
                }
            },
            None => {
                return false;
            },
        }
        let _gone = self.delegations.remove(&node);
        self.deleg_stats.revoked = self.deleg_stats.revoked.wrapping_add(1);
        true
    }

    /// Granted, recalled, returned, revoked, and held now.
    pub fn deleg_snapshot(&self) -> (r: (u64, u64, u64, u64, usize))
        requires
            self.wf(),
        ensures
            r == (
                self.deleg_stats.granted,
                self.deleg_stats.recalls,
                self.deleg_stats.returned,
                self.deleg_stats.revoked,
                self.delegations@.len() as usize,
            ),
    {
        (
            self.deleg_stats.granted,
            self.deleg_stats.recalls,
            self.deleg_stats.returned,
            self.deleg_stats.revoked,
            self.delegations.len(),
        )
    }
}

fn render_cb_recall(
    xid: u32,
    program: u32,
    sid: &[u8; 16],
    seq: u32,
    other: &[u8; 12],
    fh: &[u8],
) -> (bytes: Vec<u8>)
    ensures
        bytes@ == cb_recall(xid, program, sid@, seq, other@, fh@),
{
    let none: [u8; 0] = [];
    let tag: [u8; 6] = [114, 101, 99, 97, 108, 108];
    proof {
        assert(none@ =~= Seq::<u8>::empty());
        assert(tag@ =~= recall_tag());
    }
    let mut w = XdrWriter::new();
    w.u32(xid);
    w.u32(MSG_TYPE_CALL);
    w.u32(RPC_VERSION);
    w.u32(program);
    w.u32(1);
    w.u32(1);
    w.u32(AUTH_NONE);
    w.opaque(none.as_slice());
    w.u32(AUTH_NONE);
    w.opaque(none.as_slice());
    w.opaque(tag.as_slice());
    w.u32(1);
    w.u32(0);
    w.u32(2);
    w.u32(CB_OP_SEQUENCE);
    w.fixed(sid.as_slice());
    w.u32(seq);
    w.u32(0);
    w.u32(0);
    w.bool(false);
    w.u32(0);
    w.u32(CB_OP_RECALL);
    w.u32(1);
    w.fixed(other.as_slice());
    w.bool(false);
    w.opaque(fh);
    w.into_bytes()
}

/// The status in a reply to a callback: an I/O error where the call was not accepted. `None`
/// where the record is no reply or is cut short.
pub open spec fn cb_status(s: Seq<u8>) -> Option<u32> {
    let (xid, s1) = get_u32(s);
    let (msg_type, s2) = get_u32(s1);
    let (reply_stat, s3) = get_u32(s2);
    let (flavor, s4) = get_u32(s3);
    let (verf, s5) = get_opaque(s4, 1024);
    let (accept_stat, s6) = get_u32(s5);
    if xid is None || msg_type != Some(MSG_TYPE_REPLY) || reply_stat is None {
        None
    } else if reply_stat != Some(0u32) {
        Some(ERR_IO)
    } else if flavor is None || verf is None || accept_stat is None {
        None
    } else if accept_stat != Some(0u32) {
        Some(ERR_IO)
    } else {
        get_u32(s6).0
    }
}

pub fn parse_cb_reply_status(record: &[u8]) -> (res: Option<u32>)
    ensures
        res == cb_status(record@),
{
    let mut r = XdrReader::new(record);
    match r.u32() {
        Ok(_) => {},
        Err(_) => {
            return None;
        },
    }
    match r.u32() {
        Ok(t) => {
            if t != MSG_TYPE_REPLY {
                return None;
            }
        },
        Err(_) => {
            return None;
        },
    }
    match r.u32() {
        Ok(st) => {
            if st != 0 {
                return Some(ERR_IO);
            }
        },
        Err(_) => {
            return None;
        },
    }
    match r.u32() {
        Ok(_) => {},
        Err(_) => {
            return None;
        },
    }
    match r.skip_opaque(1024) {
        Ok(_) => {},
        Err(_) => {
            return None;
        },
    }
    match r.u32() {
        Ok(st) => {
            if st != 0 {
                return Some(ERR_IO);
            }
        },
        Err(_) => {
            return None;
        },
    }
    match r.u32() {
        Ok(st) => Some(st),
        Err(_) => None,
    }
}

/// A message on a connection: a call to serve, the reply to a callback, or too short to be
/// either.
#[derive(Debug, Clone, Copy, PartialEq, Eq, Structural)]
pub enum Incoming {
    Short,
    Call,
    CbReply { xid: u32, status: u32 },
}

pub open spec fn incoming_of(s: Seq<u8>) -> Incoming {
    let (xid, s1) = get_u32(s);
    let (msg_type, s2) = get_u32(s1);
    if xid is None || msg_type is None {
        Incoming::Short
    } else if msg_type == Some(MSG_TYPE_REPLY) {
        Incoming::CbReply {
            xid: xid->0,
            status: match cb_status(s) {
                Some(st) => st,
                None => ERR_IO,
            },
        }
    } else {
        Incoming::Call
    }
}

/// Tell calls from replies to callbacks.
pub fn classify(record: &[u8]) -> (res: Incoming)
    ensures
        res == incoming_of(record@),
{
    let mut r = XdrReader::new(record);
    let xid: u32 = match r.u32() {
        Ok(v) => v,
        Err(_) => {
            return Incoming::Short;
        },
    };
    let msg_type: u32 = match r.u32() {
        Ok(v) => v,
        Err(_) => {
            return Incoming::Short;
        },
    };
    if msg_type == MSG_TYPE_REPLY {
        let status: u32 = match parse_cb_reply_status(record) {
            Some(st) => st,
            None => ERR_IO,
        };
        return Incoming::CbReply { xid, status };
    }
    Incoming::Call
}

/// A recalled delegation that the client gives back is gone, and is not recalled again.
pub proof fn returned_is_not_recalled(
    s0: State,
    s1: State,
    s2: State,
    node: NodeKey,
    t0: u64,
    t1: u64,
    st: u32,
    res: Recall,
)
    requires
        s0.wf(),
        s0.delegations@.contains_key(node),
        returned(s0, s1, s0.delegations@[node].stateid_other@, t0, st),
        forall|n: NodeKey| #[trigger]
            s0.delegations@.contains_key(n) && s0.delegations@[n].stateid_other@
                == s0.delegations@[node].stateid_other@ ==> n == node,
        recalled(s1, s2, node, t1, res),
    ensures
        st == NFS4_OK,
        !s1.delegations@.contains_key(node),
        res is Nothing,
        s2 == s1,
{
    let other = s0.delegations@[node].stateid_other@;
    assert(s0.is_delegation(other));
    assert(s1.delegations@ == s0.delegations@.remove(node));
}

/// A change of a delegated file sends exactly one recall: the next change finds it under way.
pub proof fn recalled_once(
    s0: State,
    s1: State,
    s2: State,
    node: NodeKey,
    t0: u64,
    t1: u64,
    first: Recall,
    second: Recall,
)
    requires
        recalled(s0, s1, node, t0, first),
        first is Send,
        recalled(s1, s2, node, t1, second),
    ensures
        second is Nothing,
        s2 == s1,
{
}

/// Once the guest has changed a file, no delegation of it stands unquestioned: it is being recalled
/// or is revoked. The delegations of other files stay as they were.
pub proof fn changed_file_is_not_delegated(
    pre: State,
    post: State,
    node: NodeKey,
    now: u64,
    res: Recall,
    other: NodeKey,
)
    requires
        recalled(pre, post, node, now, res),
        other != node,
    ensures
        post.delegations@.contains_key(node) ==> post.delegations@[node].recalling,
        post.delegations@.contains_key(other) == pre.delegations@.contains_key(other),
        pre.delegations@.contains_key(other) ==> post.delegations@[other]
            == pre.delegations@[other],
        res is Nothing ==> post == pre,
{
}

} // verus!
