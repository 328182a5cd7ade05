//! NFSv4.1: delegations, callbacks, and the reply cache of a session.
use crate::laws::state41::{all_alike, all_are};
use crate::laws::wire::{as_bytes, as_flag, as_u32, group_reads, u32_at, u32_is_read};
use crate::nfs41::compound::{op_sequence, seq_args_of, SeqOutcome};
use crate::nfs41::deleg::{
    classify, delegation_added, fresh_delegation, parse_cb_reply_status, Incoming, Recall,
};
use crate::nfs41::state::{minted_other, Delegation, RecallMetrics, State};
use crate::sort::{ordered, precedes, spans};
use crate::types::NodeKey;
use crate::xdr::{XdrReader, XdrWriter};
use vstd::prelude::*;

verus! {

broadcast use group_reads;

/// A read delegation is granted on an open of a file that was there, without the right to write,
/// while nobody has one on it and fewer than 16384 are held; it is of this run of the server.
pub proof fn only_readers_get_delegations(
    st: &mut State,
    node: NodeKey,
    share_access: u32,
    created: bool,
    now: u64,
    res: Option<[u8; 12]>,
    other: NodeKey,
)
    requires
        call_ensures(State::maybe_grant_delegation, (st, node, share_access, created, now), res),
    ensures
        res is Some <==> !created && share_access & 2 == 0 && !old(st).delegations@.contains_key(
            node,
        ) && old(st).delegations@.len() < 16384,
        res is None ==> *final(st) == *old(st),
        res is Some ==> {
            let d = final(st).delegations@[node];
            &&& final(st).delegations@.contains_key(node)
            &&& d.stateid_other@ == res->0@
            &&& d.node == node
            &&& !d.recalling
            &&& d.granted_at == now
            &&& d.recalled_at is None
            &&& res->0@ == minted_other(old(st).next_other, 2, old(st).boot_verifier@)
            &&& old(st).deleg_stats.granted < u64::MAX ==> final(st).deleg_stats.granted == old(
                st).deleg_stats.granted + 1
            &&& final(st).opens == old(st).opens && final(st).sessions == old(st).sessions
                && final(st).clients == old(st).clients && final(st).locks == old(st).locks
            &&& other != node ==> (final(st).delegations@.contains_key(other) <==> old(
                st).delegations@.contains_key(other))
            &&& other != node && old(st).delegations@.contains_key(other) ==> final(
                st).delegations@[other] == old(st).delegations@[other]
        },
{
    if res is Some {
        let d = choose|d: Delegation| #[trigger]
            fresh_delegation(d, res->0@, node, now) && final(st).delegations@ == old(
                st).delegations@.insert(node, d);
        assert(delegation_added(
            old(st).delegations@,
            final(st).delegations@,
            res->0@,
            node,
            now,
        ));
        assert(fresh_delegation(d, res->0@, node, now));
    }
}

/// A delegation that is given back goes, and is counted; if it was recalled, so is the time that
/// it took. An unknown stateid is answered as one of another run or as a bad one.
pub proof fn delegations_are_given_back(
    st: &mut State,
    other: &[u8; 12],
    now: u64,
    status: u32,
    node: NodeKey,
)
    requires
        call_ensures(State::delegreturn, (st, other, now), status),
        old(st).delegations@.contains_key(node),
        old(st).delegations@[node].stateid_other@ == other@,
        forall|n: NodeKey| #[trigger]
            old(st).delegations@.contains_key(n) && old(st).delegations@[n].stateid_other@ == other@
                ==> n == node,
    ensures
        status == 0,
        final(st).delegations@ == old(st).delegations@.remove(node),
        old(st).deleg_stats.returned < u64::MAX ==> final(st).deleg_stats.returned == old(
            st).deleg_stats.returned + 1,
        old(st).delegations@[node].recalled_at is None ==> final(st).recall_metrics == old(
            st).recall_metrics,
        old(st).delegations@[node].recalled_at is Some ==> ({
            let t = old(st).delegations@[node].recalled_at->0;
            let ns: int = if now >= t {
                now - t
            } else {
                0
            };
            let a = old(st).recall_metrics;
            let b = final(st).recall_metrics;
            &&& a.returns < u64::MAX ==> b.returns == a.returns + 1
            &&& a.total_recall_ns + ns <= u64::MAX ==> b.total_recall_ns == a.total_recall_ns + ns
            &&& b.max_recall_ns >= ns && b.max_recall_ns >= a.max_recall_ns
            &&& b.max_recall_ns == ns || b.max_recall_ns == a.max_recall_ns
            &&& a.samples_ns@.len() < 100_000 ==> b.samples_ns@ == a.samples_ns@.push(ns as u64)
            &&& a.samples_ns@.len() >= 100_000 ==> b.samples_ns@ == a.samples_ns@
        }),
{
    assert(old(st).is_delegation(other@));
}

/// An unknown stateid gives nothing back: it is stale where another run minted it, else bad.
pub proof fn unknown_delegations_are_refused(
    st: &mut State,
    other: &[u8; 12],
    now: u64,
    status: u32,
)
    requires
        call_ensures(State::delegreturn, (st, other, now), status),
        forall|n: NodeKey| #[trigger]
            old(st).delegations@.contains_key(n) ==> old(st).delegations@[n].stateid_other@
                != other@,
    ensures
        *final(st) == *old(st),
        status == 10023 || status == 10025,
        status == 10023 <==> !all_are(other@, 0) && !all_are(other@, 255) && !(other@[9] == old(
            st).boot_verifier@[0] && other@[10] == old(st).boot_verifier@[1] && other@[11] == old(
            st).boot_verifier@[2]),
{
    all_alike(*other, 0);
    all_alike(*other, 255);
}

/// A delegation of a file that the guest changed is recalled once over a backchannel, or revoked
/// where there is none; those of other files stay.
pub proof fn changed_files_are_recalled(
    st: &mut State,
    node: NodeKey,
    now: u64,
    res: Recall,
    other: NodeKey,
)
    requires
        call_ensures(State::recall_node, (st, node, now), res),
    ensures
        ({
            let a = old(st).delegations@;
            let b = final(st).delegations@;
            let held = a.contains_key(node) && !a[node].recalling;
            &&& res is Nothing <==> !held
            &&& res is Nothing ==> *final(st) == *old(st)
            &&& res is Revoked <==> held && old(st).backchannels.rows@.len() == 0
            &&& res is Revoked ==> !b.contains_key(node)
            &&& res is Revoked && old(st).deleg_stats.revoked < u64::MAX ==> final(
                st).deleg_stats.revoked == old(st).deleg_stats.revoked + 1
            &&& res is Send ==> {
                &&& res->sid == old(st).backchannels.rows@[0].0
                &&& res->other == a[node].stateid_other
                &&& b.contains_key(node)
                &&& b[node].recalling
                &&& b[node].recalled_at == Some(now)
                &&& b[node].stateid_other == a[node].stateid_other
                &&& b[node].granted_at == a[node].granted_at
                &&& b[node].node == a[node].node
            }
            &&& other != node ==> (b.contains_key(other) <==> a.contains_key(other))
            &&& other != node && a.contains_key(other) ==> b[other] == a[other]
        }),
{
}

/// A recall that was not answered in time revokes just that delegation.
pub proof fn late_delegations_are_revoked(
    st: &mut State,
    node: NodeKey,
    other: &[u8; 12],
    revoked: bool,
    n: NodeKey,
)
    requires
        call_ensures(State::expire_recall, (st, node, other), revoked),
    ensures
        revoked <==> old(st).delegations@.contains_key(node) && old(
            st).delegations@[node].stateid_other@ == other@,
        !revoked ==> *final(st) == *old(st),
        revoked ==> (final(st).delegations@.contains_key(n) <==> old(st).delegations@.contains_key(
            n,
        ) && n != node),
        revoked && old(st).deleg_stats.revoked < u64::MAX ==> final(st).deleg_stats.revoked == old(
            st).deleg_stats.revoked + 1,
{
}

/// The counts are told as they are kept.
pub proof fn delegation_counts_are_told(st: &State, r: (u64, u64, u64, u64, usize))
    requires
        call_ensures(State::deleg_snapshot, (st,), r),
        st.delegations@.len() <= usize::MAX,
    ensures
        r.0 == st.deleg_stats.granted,
        r.1 == st.deleg_stats.recalls,
        r.2 == st.deleg_stats.returned,
        r.3 == st.deleg_stats.revoked,
        r.4 == st.delegations@.len(),
{
}

/// A reply to a callback tells the status of the callback where it was accepted.
pub proof fn callback_status_is_read(
    record: &[u8],
    res: Option<u32>,
    xid: u32,
    flavor: u32,
    status: u32,
    rest: Seq<u8>,
)
    requires
        call_ensures(parse_cb_reply_status, (record,), res),
        record@ == as_u32(xid) + (as_u32(1) + (as_u32(0) + (as_u32(flavor) + (as_u32(0) + (as_u32(0)
            + (as_u32(status) + rest)))))),
    ensures
        res == Some(status),
{
    let s4 = as_u32(0) + (as_u32(0) + (as_u32(status) + rest));
    let none = Seq::<u8>::empty();
    assert(crate::laws::wire::as_item(none) =~= as_u32(0)) by {
        assert(none.len() as u32 == 0u32);
    }
    assert(s4 == crate::laws::wire::as_item(none) + (as_u32(0) + (as_u32(status) + rest)));
}

/// A message that is a reply is one to a callback, a call is to be served, and one that is shorter
/// than eight bytes is neither.
pub proof fn messages_are_told_apart(record: &[u8], res: Incoming)
    requires
        call_ensures(classify, (record,), res),
    ensures
        res is Short <==> record@.len() < 8,
        record@.len() >= 8 ==> (res is CbReply <==> u32_at(record@, 4) == 1),
        res is CbReply ==> res->xid == u32_at(record@, 0),
{
    let s = record@;
    u32_is_read(s);
    if s.len() >= 4 {
        u32_is_read(s.skip(4));
        reveal(u32_at);
    }
}

/// A SEQUENCE in a request.
pub open spec fn sequence_sent(
    sid: Seq<u8>,
    seqid: u32,
    slot: u32,
    highest: u32,
    cachethis: bool,
    rest: Seq<u8>,
) -> Seq<u8> {
    as_bytes(sid) + (as_u32(seqid) + (as_u32(slot) + (as_u32(highest) + (as_flag(cachethis)
        + rest))))
}

/// A SEQUENCE is read as it was sent; the slot's number before means a retry, which is answered
/// with what was kept; the next number goes through; anything else is refused.
pub proof fn sequences_are_judged<'a>(
    r: &mut XdrReader<'a>,
    out: &mut XdrWriter,
    st: &mut State,
    bound: &mut Vec<[u8; 16]>,
    res: SeqOutcome,
    sid: Seq<u8>,
    seqid: u32,
    slot: u32,
    highest: u32,
    cachethis: bool,
    rest: Seq<u8>,
)
    requires
        call_ensures(op_sequence, (r, out, st, bound), res),
        old(r)@ == sequence_sent(sid, seqid, slot, highest, cachethis, rest),
        sid.len() == 16,
    ensures
        ({
            let known = old(st).sessions@.contains_key(sid);
            let s = old(st).sessions@[sid].fore_slots@[slot as int];
            let there = known && slot < 64;
            let again = there && s.seqid == seqid;
            let next = there && seqid == (s.seqid + 1) % 0x1_0000_0000;
            &&& !known ==> res == SeqOutcome::Refused(10052)
            &&& known && slot >= 64 ==> res == SeqOutcome::Refused(10053)
            &&& res is Replay <==> again && s.reply is Some
            &&& res is Replay ==> res->Replay_0 == s.status && res->Replay_1@ == s.reply->0@
                && final(out)@ == old(out)@
            &&& again && s.reply is None && s.had_uncached ==> res == SeqOutcome::Refused(10068)
            &&& again && s.reply is None && !s.had_uncached ==> res == SeqOutcome::Refused(10063)
            &&& there && !again && !next ==> res == SeqOutcome::Refused(10063)
            &&& res is Go <==> next && !again
            &&& res is Go ==> {
                &&& res->Go_0.sid@ == sid
                &&& res->Go_0.seqid == seqid
                &&& res->Go_0.slot == slot
                &&& res->Go_0.cachethis == cachethis
                &&& final(r)@ == rest
            }
            &&& !(res is Go) ==> *final(st) == *old(st) && final(bound)@ == old(bound)@
            &&& res is Go ==> final(st).sessions == old(st).sessions && final(st).opens == old(
                st).opens && final(st).delegations == old(st).delegations
        }),
{
    assert(seq_args_of(old(r)@) is Some);
}

/// A sample of a rank is one of the samples, and as many as that rank are not greater.
pub proof fn samples_are_ranked(m: &RecallMetrics, rank: usize, r: Option<u64>)
    requires
        call_ensures(RecallMetrics::sample_at, (m, rank), r),
        m.samples_ns@.len() <= usize::MAX,
    ensures
        r is None <==> m.samples_ns@.len() == 0,
        r is Some ==> m.samples_ns@.contains(r->0),
        r is Some && rank == 0 ==> forall|i: int|
            0 <= i < m.samples_ns@.len() ==> r->0 <= #[trigger] m.samples_ns@[i],
        r is Some && rank >= m.samples_ns@.len() ==> forall|i: int|
            0 <= i < m.samples_ns@.len() ==> #[trigger] m.samples_ns@[i] <= r->0,
{
    let s = m.samples_ns@;
    if r is Some {
        let n = s.len() as int;
        let k = if rank < n {
            rank as int
        } else {
            n - 1
        };
        let list = choose|list: Seq<usize>| #[trigger]
            spans(list, 0, n) && ordered(s, list) && s[list[k] as int] == r->0;
        assert(spans(list, 0, n));
        assert(list.contains(list[k]));
        assert(s[list[k] as int] == r->0);
        assert forall|i: int| 0 <= i < n implies (rank == 0 ==> r->0 <= #[trigger] s[i]) && (rank
            >= n ==> s[i] <= r->0) by {
            assert(list.contains(i as usize));
            let q = choose|q: int| 0 <= q < list.len() && list[q] == i as usize;
            if q < k {
                assert(precedes(s, list[q], list[k]));
            } else if k < q {
                assert(precedes(s, list[k], list[q]));
            }
        }
    }
}

} // verus!
