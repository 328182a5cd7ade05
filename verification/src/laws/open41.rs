//! NFSv4.1: what clients, sessions, opens and locks are told, and what becomes of the state.
use crate::handle::HandleCodec;
use crate::laws::eval41::{went_well, went_wrong};
use crate::laws::state41::{all_alike, all_are, record_of};
use crate::laws::wire::{begins_with, bytes_at, group_places, u32_at, u64_at, u64_is_appended};
use crate::nfs41::attrs::change_attr;
use crate::nfs41::deleg::{delegation_added, fresh_delegation, granted, unknown_stateid};
use crate::nfs41::eval::{
    eval_op, everyone, exchange_result, known_stateid, open_result, opened, put_tests, server_name,
    server_scope, session_result,
};
use crate::nfs41::ops::{Ctx, Env, Turn41};
use crate::nfs41::request::{words_seq, Claim, OpReq, OpSpec, OpenHow, Words};
use crate::nfs41::state::{
    client_added, exchanged, fresh_client, fresh_open, fresh_session, minted_other, open_added,
    open_registered, session_added, session_created, session_id, Client, Delegation, OpenState,
    Session, State,
};
use crate::surface::{Answer, Ask, CreateKind, NfsError, SetAttr, SurfaceInfo};
use crate::types::{Attr, NodeKey};
use crate::xdr::{be32_len, be64, Wire, XdrWriter};
use vstd::prelude::*;

verus! {

broadcast use group_places;

/// The change attribute in an answer, if attributes came.
pub open spec fn change_told(a: Answer) -> u64 {
    if a is Attr && a->Attr_0 is Ok {
        change_attr(a->Attr_0->Ok_0)
    } else {
        0
    }
}

proof fn session_bytes(clientid: u64, nonce: u64)
    ensures
        session_id(clientid, nonce).len() == 16,
        u64_at(session_id(clientid, nonce), 0) == clientid,
        u64_at(session_id(clientid, nonce), 8) == nonce,
{
    broadcast use be32_len;

    let e = Seq::<u8>::empty();
    let a = e.put_u64(clientid);
    assert(a =~= be64(clientid));
    assert(a.put_u64(nonce) =~= session_id(clientid, nonce));
    u64_is_appended(e, clientid);
    u64_is_appended(a, nonce);
}

proof fn tests_are_told(s: Seq<u8>, st: State, others: Seq<Seq<u8>>, i: nat, k: nat)
    requires
        i <= k < others.len(),
    ensures
        begins_with(put_tests(s, st, others, i), s),
        u32_at(put_tests(s, st, others, i), s.len() + 4 * (k - i)) == (if known_stateid(
            st,
            others[k as int],
        ) {
            0int
        } else {
            unknown_stateid(st, others[k as int]) as int
        }),
    decreases others.len() - i,
{
    let v: u32 = if known_stateid(st, others[i as int]) {
        0
    } else {
        unknown_stateid(st, others[i as int])
    };
    let t = s.put_u32(v);
    let w = put_tests(s, st, others, i);
    assert(w == put_tests(t, st, others, i + 1));
    if i + 1 < others.len() {
        tests_are_told(
            t,
            st,
            others,
            i + 1,
            if k > i {
                k
            } else {
                i + 1
            },
        );
        crate::laws::wire::begins_with_beginning(w, t, s);
    }
    if k == i {
        assert(u32_at(w, s.len() as int) == u32_at(t, s.len() as int));
    }
}

proof fn result_is_told(
    s: Seq<u8>,
    op: u32,
    sid: (Seq<u8>, u32),
    before: u64,
    after: u64,
    created: bool,
    deleg: Option<Seq<u8>>,
)
    requires
        sid.0.len() == 12,
        deleg is Some ==> deleg->0.len() == 12,
    ensures
        ({
            let w = open_result(s, op, sid.1, sid.0, before, after, created, deleg);
            let at = s.len() as int;
            let t: int = if created {
                60
            } else {
                56
            };
            &&& begins_with(w, s)
            &&& w.len() >= at + t + 4
            &&& u32_at(w, at) == op
            &&& u32_at(w, at + 4) == 0
            &&& u32_at(w, at + 8) == sid.1
            &&& bytes_at(w, at + 12, 12) == sid.0
            &&& u32_at(w, at + 24) == 1
            &&& u64_at(w, at + 28) == before
            &&& u64_at(w, at + 36) == after
            &&& u32_at(w, at + 44) == 4
            &&& deleg is None ==> u32_at(w, at + t) == 0
            &&& deleg is Some ==> u32_at(w, at + t) == 1 && bytes_at(w, at + t + 8, 12) == deleg->0
        }),
{
    let a = s.put_u32(op).put_u32(0).put_u32(sid.1).put_fixed(sid.0);
    let b = a.put_bool(true).put_u64(before).put_u64(after).put_u32(4);
    assert(everyone().len() == 9);
    let c = if created {
        b.put_u32(2).put_u32(0).put_u32(2)
    } else {
        b.put_u32(1).put_u32(0)
    };
    let w = open_result(s, op, sid.1, sid.0, before, after, created, deleg);
    crate::laws::wire::begins_with_beginning(b, a, s);
    crate::laws::wire::begins_with_beginning(c, b, a);
    crate::laws::wire::begins_with_beginning(c, b, s);
    match deleg {
        None => {
            assert(w == c.put_u32(0));
        },
        Some(d) => {
            let x = c.put_u32(1).put_u32(1).put_fixed(d);
            assert(w == x.put_bool(false).put_u32(0).put_u32(0).put_u32(0).put_opaque(everyone()));
            assert(begins_with(w, x) && begins_with(x, c));
            crate::laws::wire::begins_with_beginning(w, x, c);
        },
    }
    assert(begins_with(w, c));
    crate::laws::wire::begins_with_beginning(w, c, b);
    crate::laws::wire::begins_with_beginning(w, c, a);
    crate::laws::wire::begins_with_beginning(w, c, s);
}

proof fn opened_is_told(
    pre: State,
    post: State,
    node: NodeKey,
    owner: Seq<u8>,
    share_access: u32,
    created: bool,
    now: u64,
    sid: (Seq<u8>, u32),
    deleg: Option<Seq<u8>>,
)
    requires
        opened(pre, post, node, owner, share_access, created, now, sid, deleg),
        forall|o: Seq<u8>| #[trigger] pre.opens@.contains_key(o) ==> o.len() == 12,
    ensures
        sid.0.len() == 12,
        deleg is Some ==> deleg->0.len() == 12,
        post.opens@.contains_key(sid.0),
        post.opens@[sid.0].node == node,
        post.opens@[sid.0].owner@ == owner,
        post.opens@[sid.0].seqid == sid.1,
        post.opens@[sid.0].share_access & 3 & share_access == share_access & 3,
        deleg is Some <==> !created && share_access & 2 == 0 && pre.delegations@.len() < 16384
            && !pre.delegations@.contains_key(node),
        deleg is Some ==> post.delegations@.contains_key(node)
            && post.delegations@[node].stateid_other@ == deleg->0,
        post.sessions == pre.sessions && post.clients == pre.clients && post.locks == pre.locks,
{
    broadcast use be32_len;

    let mid = choose|mid: State|
        {
            &&& #[trigger] open_registered(pre, mid, node, owner, share_access, sid)
            &&& granted(mid, post, node, share_access, created, now, deleg)
        };
    assert(open_registered(pre, mid, node, owner, share_access, sid));
    let acc = share_access & 3;
    assert(acc & 3 & share_access == acc) by (bit_vector)
        requires
            acc == share_access & 3,
    ;
    if exists|o: Seq<u8>| pre.is_open_of(o, node, owner) {
        let o = choose|o: Seq<u8>| pre.is_open_of(o, node, owner);
        assert(pre.is_open_of(o, node, owner));
        let had = pre.opens@[o].share_access;
        assert((had | acc) & 3 & share_access == acc) by (bit_vector)
            requires
                acc == share_access & 3,
        ;
        assert(sid.0.len() == 12);
    } else {
        assert forall|o: Seq<u8>| !pre.is_open_of(o, node, owner) by {}
        let os = choose|os: OpenState| #[trigger]
            fresh_open(os, node, acc, owner) && mid.opens@ == pre.opens@.insert(sid.0, os);
        assert(open_added(pre.opens@, mid.opens@, sid.0, node, acc, owner));
        assert(fresh_open(os, node, acc, owner));
    }
    if deleg is Some {
        let d = choose|d: Delegation| #[trigger]
            fresh_delegation(d, deleg->0, node, now) && post.delegations@ == mid.delegations@.insert(
                node,
                d,
            );
        assert(delegation_added(
            mid.delegations@,
            post.delegations@,
            deleg->0,
            node,
            now,
        ));
        assert(fresh_delegation(d, deleg->0, node, now));
    }
}

/// CLOSE forgets the open that the stateid names, and no other; an unknown stateid is refused, as
/// stale where another run minted it.
pub proof fn close_forgets_the_open(
    op: u32,
    req: &OpReq,
    ctx: &mut Ctx,
    info: &SurfaceInfo,
    codec: &HandleCodec,
    env: &Env,
    st: &mut State,
    ans: &Vec<Answer>,
    out: &mut XdrWriter,
    turn: Turn41,
    seq: u32,
    other: [u8; 12],
    o: Seq<u8>,
)
    requires
        call_ensures(eval_op, (op, req, ctx, info, codec, env, st, ans, out), turn),
        req@ == (OpSpec::Close { seq, other: other@ }),
        !(seq == 1 && all_are(other@, 0)),
    ensures
        old(st).opens@.contains_key(other@) ==> went_well(op, old(out)@, final(out)@, turn)
            && bytes_at(final(out)@, old(out)@.len() as int + 12, 12) == other@ && (seq < u32::MAX
            ==> u32_at(final(out)@, old(out)@.len() as int + 8) == seq + 1),
        old(st).opens@.contains_key(other@) ==> (final(st).opens@.contains_key(o) <==> old(
            st).opens@.contains_key(o) && o != other@),
        final(st).opens@.contains_key(o) ==> final(st).opens@[o] == old(st).opens@[o],
        !old(st).opens@.contains_key(other@) ==> *final(st) == *old(st) && went_wrong(
            op,
            if !all_are(other@, 0) && !all_are(other@, 255) && !(other@[9] == old(st).boot_verifier@[0]
                && other@[10] == old(st).boot_verifier@[1] && other@[11] == old(
                st).boot_verifier@[2]) {
                10023int
            } else {
                10025int
            },
            old(out)@,
            final(out)@,
            turn,
        ),
        final(st).locks == old(st).locks && final(st).delegations == old(st).delegations
            && final(st).sessions == old(st).sessions,
        final(ctx)@ == old(ctx)@,
{
    all_alike(other, 0);
    all_alike(other, 255);
}

/// OPEN_DOWNGRADE replaces the access of the open and counts on.
pub proof fn downgrade_replaces_the_access(
    op: u32,
    req: &OpReq,
    ctx: &mut Ctx,
    info: &SurfaceInfo,
    codec: &HandleCodec,
    env: &Env,
    st: &mut State,
    ans: &Vec<Answer>,
    out: &mut XdrWriter,
    turn: Turn41,
    seq: u32,
    other: [u8; 12],
    access: u32,
    o: Seq<u8>,
)
    requires
        call_ensures(eval_op, (op, req, ctx, info, codec, env, st, ans, out), turn),
        req@ == (OpSpec::OpenDowngrade { seq, other: other@, access }),
        !(seq == 1 && all_are(other@, 0)),
        old(st).opens@.contains_key(other@),
    ensures
        went_well(op, old(out)@, final(out)@, turn),
        bytes_at(final(out)@, old(out)@.len() as int + 12, 12) == other@,
        final(st).opens@.contains_key(other@),
        final(st).opens@[other@].share_access == access & 3,
        final(st).opens@[other@].node == old(st).opens@[other@].node,
        final(st).opens@[other@].owner == old(st).opens@[other@].owner,
        old(st).opens@[other@].seqid < u32::MAX ==> final(st).opens@[other@].seqid == old(
            st).opens@[other@].seqid + 1 && u32_at(final(out)@, old(out)@.len() as int + 8) == old(
            st).opens@[other@].seqid + 1,
        o != other@ ==> (final(st).opens@.contains_key(o) <==> old(st).opens@.contains_key(o)),
        o != other@ && old(st).opens@.contains_key(o) ==> final(st).opens@[o] == old(st).opens@[o],
{
    all_alike(other, 0);
}

/// FREE_STATEID forgets the open or lock of the stateid, and no other.
pub proof fn free_forgets_the_stateid(
    op: u32,
    req: &OpReq,
    ctx: &mut Ctx,
    info: &SurfaceInfo,
    codec: &HandleCodec,
    env: &Env,
    st: &mut State,
    ans: &Vec<Answer>,
    out: &mut XdrWriter,
    turn: Turn41,
    other: Seq<u8>,
    o: Seq<u8>,
)
    requires
        call_ensures(eval_op, (op, req, ctx, info, codec, env, st, ans, out), turn),
        req@ == (OpSpec::FreeStateid { other }),
    ensures
        went_well(op, old(out)@, final(out)@, turn),
        final(out)@.len() == old(out)@.len() + 8,
        final(st).opens@.contains_key(o) <==> old(st).opens@.contains_key(o) && o != other,
        final(st).locks@.contains_key(o) <==> old(st).locks@.contains_key(o) && o != other,
        final(st).delegations == old(st).delegations && final(st).sessions == old(st).sessions,
{
}

/// LOCK by a new owner mints a stateid for the file that the open names; it is the current one from
/// then on.
pub proof fn locks_get_a_stateid(
    op: u32,
    req: &OpReq,
    ctx: &mut Ctx,
    info: &SurfaceInfo,
    codec: &HandleCodec,
    env: &Env,
    st: &mut State,
    ans: &Vec<Answer>,
    out: &mut XdrWriter,
    turn: Turn41,
    seq: u32,
    other: [u8; 12],
    o: Seq<u8>,
)
    requires
        call_ensures(eval_op, (op, req, ctx, info, codec, env, st, ans, out), turn),
        req@ == (OpSpec::LockNew { seq, other: other@ }),
        !(seq == 1 && all_are(other@, 0)),
        old(st).opens@.contains_key(other@),
    ensures
        ({
            let at = old(out)@.len() as int;
            let lock = minted_other(old(st).next_other, 3, old(st).boot_verifier@);
            &&& went_well(op, old(out)@, final(out)@, turn)
            &&& u32_at(final(out)@, at + 8) == 1
            &&& bytes_at(final(out)@, at + 12, 12) == lock
            &&& final(st).locks@.contains_key(lock)
            &&& final(st).locks@[lock] == old(st).opens@[other@].node
            &&& o != lock ==> (final(st).locks@.contains_key(o) <==> old(
                st).locks@.contains_key(o))
            &&& final(ctx).current is Some && final(ctx).current->0@ == lock
            &&& old(st).next_other < u64::MAX ==> final(st).next_other == old(st).next_other + 1
            &&& final(st).opens == old(st).opens
        }),
{
    broadcast use be32_len;

    all_alike(other, 0);
    let v = final(ctx)@;
    let lock = minted_other(old(st).next_other, 3, old(st).boot_verifier@);
    assert(lock.len() == 12);
}

/// EXCHANGE_ID tells the client's number and the sequence number to begin with; a client that is known
/// with the same verifier gets the number that it had.
pub proof fn exchange_tells_the_number(
    op: u32,
    req: &OpReq,
    ctx: &mut Ctx,
    info: &SurfaceInfo,
    codec: &HandleCodec,
    env: &Env,
    st: &mut State,
    ans: &Vec<Answer>,
    out: &mut XdrWriter,
    turn: Turn41,
    verifier: Seq<u8>,
    owner: Seq<u8>,
    id: u64,
)
    requires
        call_ensures(eval_op, (op, req, ctx, info, codec, env, st, ans, out), turn),
        req@ == (OpSpec::ExchangeId { verifier, owner }),
        record_of(*old(st), id, owner),
        old(st).clients@[id].verifier@ == verifier,
    ensures
        went_well(op, old(out)@, final(out)@, turn),
        u64_at(final(out)@, old(out)@.len() as int + 8) == id,
        u32_at(final(out)@, old(out)@.len() as int + 16) == old(st).clients@[id].sequence_id,
        *final(st) == *old(st),
{
    assert(old(st).is_client_of(id, owner));
    assert(server_name().len() == 10);
    assert(server_scope().len() == 4);
    let s = old(out)@;
    let n = old(st).clients@[id].sequence_id;
    let a = s.put_u32(op).put_u32(0).put_u64(id).put_u32(n);
    let b = a.put_u32(0x2_0000).put_u32(0).put_u64(0x4D49_5354).put_opaque(server_name());
    let c = b.put_opaque(server_scope()).put_u32(0);
    assert(final(out)@ == c);
    assert(begins_with(c, b) && begins_with(b, a));
    crate::laws::wire::begins_with_beginning(c, b, a);
}

/// EXCHANGE_ID of a new owner tells a number that no client had, and 1 to begin with.
pub proof fn exchange_tells_a_new_number(
    op: u32,
    req: &OpReq,
    ctx: &mut Ctx,
    info: &SurfaceInfo,
    codec: &HandleCodec,
    env: &Env,
    st: &mut State,
    ans: &Vec<Answer>,
    out: &mut XdrWriter,
    turn: Turn41,
    verifier: Seq<u8>,
    owner: Seq<u8>,
)
    requires
        call_ensures(eval_op, (op, req, ctx, info, codec, env, st, ans, out), turn),
        req@ == (OpSpec::ExchangeId { verifier, owner }),
        forall|id: u64| !record_of(*old(st), id, owner),
    ensures
        ({
            let n = u64_at(final(out)@, old(out)@.len() as int + 8);
            &&& went_well(op, old(out)@, final(out)@, turn)
            &&& 0 <= n <= u64::MAX
            &&& !old(st).clients@.contains_key(n as u64)
            &&& record_of(*final(st), n as u64, owner)
            &&& final(st).clients@[n as u64].verifier@ == verifier
            &&& !final(st).clients@[n as u64].confirmed
            &&& u32_at(final(out)@, old(out)@.len() as int + 16) == 1
            &&& final(st).sessions == old(st).sessions && final(st).opens == old(st).opens
        }),
{
    assert forall|id: u64| !old(st).is_client_of(id, owner) by {
        assert(!record_of(*old(st), id, owner));
    }
    let res = choose|res: (u64, u32)| #[trigger]
        exchanged(*old(st), *final(st), owner, verifier, res) && final(out)@ == exchange_result(
            old(out)@,
            op,
            res.0,
            res.1,
        );
    assert(exchanged(*old(st), *final(st), owner, verifier, res));
    assert(client_added(old(st).clients@, final(st).clients@, res.0, owner, verifier));
    let cl = choose|cl: Client| #[trigger]
        fresh_client(cl, res.0, owner, verifier) && final(st).clients@ == old(st).clients@.insert(
            res.0,
            cl,
        );
    assert(fresh_client(cl, res.0, owner, verifier));
    assert(server_name().len() == 10);
    assert(server_scope().len() == 4);
    let s = old(out)@;
    let a = s.put_u32(op).put_u32(0).put_u64(res.0).put_u32(res.1);
    let b = a.put_u32(0x2_0000).put_u32(0).put_u64(0x4D49_5354).put_opaque(server_name());
    let c = b.put_opaque(server_scope()).put_u32(0);
    assert(begins_with(c, b) && begins_with(b, a));
    crate::laws::wire::begins_with_beginning(c, b, a);
}

/// CREATE_SESSION of a known client tells the session's identifier, echoes the sequence number, and
/// grants 64 slots forth, 16 back and no more than 2 MiB; an unknown client is told so.
pub proof fn create_session_tells_the_session(
    op: u32,
    req: &OpReq,
    ctx: &mut Ctx,
    info: &SurfaceInfo,
    codec: &HandleCodec,
    env: &Env,
    st: &mut State,
    ans: &Vec<Answer>,
    out: &mut XdrWriter,
    turn: Turn41,
    clientid: u64,
    csa_seq: u32,
    flags: u32,
    max_req: u32,
    cb_program: u32,
)
    requires
        call_ensures(eval_op, (op, req, ctx, info, codec, env, st, ans, out), turn),
        req@ == (OpSpec::CreateSession { clientid, csa_seq, flags, max_req, cb_program }),
    ensures
        ({
            let at = old(out)@.len() as int;
            let s = final(out)@;
            let known = old(st).clients@.contains_key(clientid);
            &&& !known ==> *final(st) == *old(st) && went_wrong(op, 10022, old(out)@, s, turn)
            &&& known ==> went_well(op, old(out)@, s, turn)
            &&& known ==> {
                let sid = bytes_at(s, at + 8, 16);
                &&& u64_at(sid, 0) == clientid
                &&& u64_at(sid, 8) == env.nonce
                &&& final(st).sessions@.contains_key(sid)
                &&& final(st).sessions@[sid].clientid == clientid
                &&& final(st).sessions@[sid].cb_program == cb_program
                &&& final(st).sessions@[sid].fore_slots@.len() == 64
                &&& final(st).clients@[clientid].confirmed
                &&& u32_at(s, at + 24) == csa_seq
                &&& u32_at(s, at + 28) == (flags & 1)
                &&& u32_at(s, at + 36) <= max_req && u32_at(s, at + 36) <= 2_097_152
                &&& u32_at(s, at + 36) == max_req || u32_at(s, at + 36) == 2_097_152
                &&& u32_at(s, at + 52) == 64
                &&& u32_at(s, at + 80) == 16
            }
        }),
{
    broadcast use be32_len;

    let res = choose|res: Option<Seq<u8>>| #[trigger]
        session_created(*old(st), *final(st), clientid, cb_program, env.nonce, res) && (match res {
            Some(sid) => final(out)@ == session_result(
                old(out)@,
                op,
                sid,
                csa_seq,
                flags,
                max_req,
            ),
            None => final(out)@ == old(out)@.put_u32(op).put_u32(10022),
        });
    assert(session_created(*old(st), *final(st), clientid, cb_program, env.nonce, res));
    if res is Some {
        let sid = res->0;
        session_bytes(clientid, env.nonce);
        assert(session_added(
            old(st).sessions@,
            final(st).sessions@,
            sid,
            clientid,
            cb_program,
        ));
        let ses = choose|ses: Session| #[trigger]
            fresh_session(ses, sid, clientid, cb_program) && final(st).sessions@ == old(
                st).sessions@.insert(sid, ses);
        assert(fresh_session(ses, sid, clientid, cb_program));
        let most: u32 = if max_req <= 2_097_152 {
            max_req
        } else {
            2_097_152
        };
        let s = old(out)@;
        let a = s.put_u32(op).put_u32(0).put_fixed(sid).put_u32(csa_seq).put_u32(flags & 1);
        let b = a.put_u32(0).put_u32(most).put_u32(most).put_u32(0x1_0000).put_u32(64).put_u32(
            64,
        ).put_u32(0);
        let c = b.put_u32(0).put_u32(2_097_152).put_u32(2_097_152).put_u32(0x1_0000).put_u32(
            64,
        ).put_u32(16).put_u32(0);
        assert(final(out)@ == c);
        assert(a.len() == s.len() + 32 && b.len() == a.len() + 28 && c.len() == b.len() + 28);
        assert(begins_with(c, b) && begins_with(b, a));
        crate::laws::wire::begins_with_beginning(c, b, a);
    }
}

/// DESTROY_SESSION forgets the session and its backchannel; an unknown one is told so.
pub proof fn destroy_session_forgets_it(
    op: u32,
    req: &OpReq,
    ctx: &mut Ctx,
    info: &SurfaceInfo,
    codec: &HandleCodec,
    env: &Env,
    st: &mut State,
    ans: &Vec<Answer>,
    out: &mut XdrWriter,
    turn: Turn41,
    sid: Seq<u8>,
    other: Seq<u8>,
)
    requires
        call_ensures(eval_op, (op, req, ctx, info, codec, env, st, ans, out), turn),
        req@ == (OpSpec::DestroySession { sid }),
    ensures
        !old(st).sessions@.contains_key(sid) ==> *final(st) == *old(st) && went_wrong(
            op,
            10052,
            old(out)@,
            final(out)@,
            turn,
        ),
        old(st).sessions@.contains_key(sid) ==> {
            &&& went_well(op, old(out)@, final(out)@, turn)
            &&& final(st).sessions@.contains_key(other) <==> old(st).sessions@.contains_key(other)
                && other != sid
            &&& final(st).backchannels@.contains_key(other) <==> old(
                st).backchannels@.contains_key(other) && other != sid
            &&& final(st).clients == old(st).clients && final(st).opens == old(st).opens
        },
{
}

/// DESTROY_CLIENTID forgets the client with its sessions and all stateids; an unknown one is told so.
pub proof fn destroy_clientid_forgets_it(
    op: u32,
    req: &OpReq,
    ctx: &mut Ctx,
    info: &SurfaceInfo,
    codec: &HandleCodec,
    env: &Env,
    st: &mut State,
    ans: &Vec<Answer>,
    out: &mut XdrWriter,
    turn: Turn41,
    clientid: u64,
    sid: Seq<u8>,
    o: Seq<u8>,
    node: NodeKey,
)
    requires
        call_ensures(eval_op, (op, req, ctx, info, codec, env, st, ans, out), turn),
        req@ == (OpSpec::DestroyClientid { clientid }),
    ensures
        !old(st).clients@.contains_key(clientid) ==> *final(st) == *old(st) && went_wrong(
            op,
            10022,
            old(out)@,
            final(out)@,
            turn,
        ),
        old(st).clients@.contains_key(clientid) ==> {
            &&& went_well(op, old(out)@, final(out)@, turn)
            &&& !final(st).clients@.contains_key(clientid)
            &&& final(st).sessions@.contains_key(sid) <==> old(st).sessions@.contains_key(sid)
                && old(st).sessions@[sid].clientid != clientid
            &&& !final(st).opens@.contains_key(o) && !final(st).locks@.contains_key(o)
            &&& !final(st).delegations@.contains_key(node)
        },
{
}

/// DELEGRETURN of a delegation takes it back.
pub proof fn delegreturn_takes_it_back(
    op: u32,
    req: &OpReq,
    ctx: &mut Ctx,
    info: &SurfaceInfo,
    codec: &HandleCodec,
    env: &Env,
    st: &mut State,
    ans: &Vec<Answer>,
    out: &mut XdrWriter,
    turn: Turn41,
    other: Seq<u8>,
    node: NodeKey,
)
    requires
        call_ensures(eval_op, (op, req, ctx, info, codec, env, st, ans, out), turn),
        req@ == (OpSpec::DelegReturn { other }),
        old(st).delegations@.contains_key(node),
        old(st).delegations@[node].stateid_other@ == other,
        forall|n: NodeKey| #[trigger]
            old(st).delegations@.contains_key(n) && old(st).delegations@[n].stateid_other@ == other
                ==> n == node,
    ensures
        went_well(op, old(out)@, final(out)@, turn),
        final(st).delegations@ == old(st).delegations@.remove(node),
        final(st).opens == old(st).opens,
{
    assert(old(st).is_delegation(other));
}

/// OPEN of a name first asks for the directory, then for the name in it.
pub proof fn open_asks_for_the_name(
    op: u32,
    req: &OpReq,
    ctx: &mut Ctx,
    info: &SurfaceInfo,
    codec: &HandleCodec,
    env: &Env,
    st: &mut State,
    ans: &Vec<Answer>,
    out: &mut XdrWriter,
    turn: Turn41,
    share: u16,
    dir: NodeKey,
    share_access: u32,
    owner: Seq<u8>,
    how: OpenHow,
    name: Seq<u8>,
)
    requires
        call_ensures(eval_op, (op, req, ctx, info, codec, env, st, ans, out), turn),
        old(ctx).cfh == Some((share, dir)),
        req@ == (OpSpec::Open { share_access, owner, how, claim: Claim::Null { name } }),
        name.len() <= 255,
        ans@.len() <= 1,
    ensures
        turn is Ask,
        ans@.len() == 0 ==> turn->Ask_0@ == Ask::<Seq<u8>>::Getattr(dir),
        ans@.len() == 1 ==> turn->Ask_0@ == (Ask::Lookup { dir, name }),
        final(out)@ == old(out)@,
        *final(st) == *old(st),
{
}

/// OPEN that creates asks for a new file where the name is not there, with the mode that is set or 0644;
/// one that does not create tells that it is not there.
pub proof fn open_creates_what_is_missing(
    op: u32,
    req: &OpReq,
    ctx: &mut Ctx,
    info: &SurfaceInfo,
    codec: &HandleCodec,
    env: &Env,
    st: &mut State,
    ans: &Vec<Answer>,
    out: &mut XdrWriter,
    turn: Turn41,
    share: u16,
    dir: NodeKey,
    share_access: u32,
    owner: Seq<u8>,
    how: OpenHow,
    name: Seq<u8>,
)
    requires
        call_ensures(eval_op, (op, req, ctx, info, codec, env, st, ans, out), turn),
        old(ctx).cfh == Some((share, dir)),
        req@ == (OpSpec::Open { share_access, owner, how, claim: Claim::Null { name } }),
        name.len() <= 255,
        info.writable,
        ans@.len() == 2,
        ans@[1] == Answer::Entry(Err(NfsError::NoEnt)),
    ensures
        how.create ==> turn is Ask && turn->Ask_0@ == (Ask::Create {
            dir,
            name,
            kind: CreateKind::File { exclusive: how.exclusive },
            mode: if how.attrs is Some && how.attrs->0.mode is Some {
                how.attrs->0.mode->0
            } else {
                0o644
            },
        }),
        !how.create ==> went_wrong(op, 2, old(out)@, final(out)@, turn),
        *final(st) == *old(st),
{
}

/// OPEN of a name that is there: a directory is none to open, a guarded creation finds it taken, and
/// a creation that sets the size to zero empties it first.
pub proof fn open_finds_what_is_there(
    op: u32,
    req: &OpReq,
    ctx: &mut Ctx,
    info: &SurfaceInfo,
    codec: &HandleCodec,
    env: &Env,
    st: &mut State,
    ans: &Vec<Answer>,
    out: &mut XdrWriter,
    turn: Turn41,
    share: u16,
    dir: NodeKey,
    share_access: u32,
    owner: Seq<u8>,
    how: OpenHow,
    name: Seq<u8>,
    node: NodeKey,
    a: Attr,
)
    requires
        call_ensures(eval_op, (op, req, ctx, info, codec, env, st, ans, out), turn),
        old(ctx).cfh == Some((share, dir)),
        req@ == (OpSpec::Open { share_access, owner, how, claim: Claim::Null { name } }),
        name.len() <= 255,
        info.writable,
        ans@.len() == 2,
        ans@[1] == Answer::Entry(Ok((node, a))),
    ensures
        a.kind is Dir ==> went_wrong(op, 21, old(out)@, final(out)@, turn),
        !(a.kind is Dir) && how.create && how.guarded ==> went_wrong(
            op,
            17,
            old(out)@,
            final(out)@,
            turn,
        ),
        !(a.kind is Dir) && !(how.create && how.guarded) && how.attrs is Some && how.attrs->0.size
            == Some(0u64) ==> turn is Ask && turn->Ask_0@ == (Ask::<Seq<u8>>::Setattr {
            node,
            set: how.attrs->0,
        }),
        !(a.kind is Dir) && !(how.create && how.guarded) && !(how.attrs is Some
            && how.attrs->0.size == Some(0u64)) ==> turn is Ask && turn->Ask_0@ == Ask::<
            Seq<u8>,
        >::Getattr(dir),
        *final(st) == *old(st),
{
}

/// OPEN of a file that is there tells its stateid, the file that it is from then on, and how its
/// directory moved; a reader gets a delegation where nobody has one.
pub proof fn open_tells_the_stateid(
    op: u32,
    req: &OpReq,
    ctx: &mut Ctx,
    info: &SurfaceInfo,
    codec: &HandleCodec,
    env: &Env,
    st: &mut State,
    ans: &Vec<Answer>,
    out: &mut XdrWriter,
    turn: Turn41,
    share: u16,
    dir: NodeKey,
    share_access: u32,
    owner: Seq<u8>,
    how: OpenHow,
    name: Seq<u8>,
    node: NodeKey,
    a: Attr,
)
    requires
        call_ensures(eval_op, (op, req, ctx, info, codec, env, st, ans, out), turn),
        old(ctx).cfh == Some((share, dir)),
        req@ == (OpSpec::Open { share_access, owner, how, claim: Claim::Null { name } }),
        name.len() <= 255,
        ans@.len() == 3,
        ans@[1] == Answer::Entry(Ok((node, a))),
        forall|o: Seq<u8>| #[trigger] old(st).opens@.contains_key(o) ==> o.len() == 12,
        !(a.kind is Dir),
        !(how.create && how.guarded),
        !(how.attrs is Some && how.attrs->0.size == Some(0u64)),
    ensures
        ({
            let at = old(out)@.len() as int;
            let s = final(out)@;
            let o = bytes_at(s, at + 12, 12);
            &&& went_well(op, old(out)@, s, turn)
            &&& final(st).opens@.contains_key(o)
            &&& final(st).opens@[o].node == node
            &&& final(st).opens@[o].owner@ == owner
            &&& u32_at(s, at + 8) == final(st).opens@[o].seqid
            &&& final(st).opens@[o].share_access & 3 & share_access == share_access & 3
            &&& final(ctx).cfh == Some((share, node))
            &&& final(ctx).current is Some && final(ctx).current->0@ == o
            &&& u32_at(s, at + 24) == 1
            &&& u64_at(s, at + 28) == change_told(ans@[0])
            &&& u64_at(s, at + 36) == change_told(ans@[2])
            &&& u32_at(s, at + 44) == 4
            &&& u32_at(s, at + 56) <= 1
            &&& u32_at(s, at + 56) == 1 <==> share_access & 2 == 0 && old(st).delegations@.len() < 16384 && !old(
                st).delegations@.contains_key(node)
            &&& u32_at(s, at + 56) == 1 ==> final(st).delegations@.contains_key(node)
                && final(st).delegations@[node].stateid_other@ == bytes_at(s, at + 56 + 8, 12)
            &&& final(st).sessions == old(st).sessions && final(st).clients == old(st).clients
                && final(st).locks == old(st).locks
        }),
{
    let (sid, deleg) = choose|sid: (Seq<u8>, u32), deleg: Option<Seq<u8>>|
        {
            &&& #[trigger] opened(
                *old(st),
                *final(st),
                node,
                owner,
                share_access,
                false,
                env.now,
                sid,
                deleg,
            )
            &&& final(out)@ == open_result(
                old(out)@,
                op,
                sid.1,
                sid.0,
                change_told(ans@[0]),
                change_told(ans@[2]),
                false,
                deleg,
            )
            &&& final(ctx)@.current == Some(sid.0)
        };
    opened_is_told(*old(st), *final(st), node, owner, share_access, false, env.now, sid, deleg);
    result_is_told(
        old(out)@,
        op,
        sid,
        change_told(ans@[0]),
        change_told(ans@[2]),
        false,
        deleg,
    );
    let v = final(ctx)@;
}

/// OPEN that created the file tells the same, with no delegation, and that the mode was set.
pub proof fn open_tells_of_the_new_file(
    op: u32,
    req: &OpReq,
    ctx: &mut Ctx,
    info: &SurfaceInfo,
    codec: &HandleCodec,
    env: &Env,
    st: &mut State,
    ans: &Vec<Answer>,
    out: &mut XdrWriter,
    turn: Turn41,
    share: u16,
    dir: NodeKey,
    share_access: u32,
    owner: Seq<u8>,
    how: OpenHow,
    name: Seq<u8>,
    node: NodeKey,
    a: Attr,
)
    requires
        call_ensures(eval_op, (op, req, ctx, info, codec, env, st, ans, out), turn),
        old(ctx).cfh == Some((share, dir)),
        req@ == (OpSpec::Open { share_access, owner, how, claim: Claim::Null { name } }),
        name.len() <= 255,
        info.writable,
        how.create,
        forall|o: Seq<u8>| #[trigger] old(st).opens@.contains_key(o) ==> o.len() == 12,
        ans@.len() == 4,
        ans@[1] == Answer::Entry(Err(NfsError::NoEnt)),
        ans@[2] == Answer::Entry(Ok((node, a))),
    ensures
        ({
            let at = old(out)@.len() as int;
            let s = final(out)@;
            let o = bytes_at(s, at + 12, 12);
            &&& went_well(op, old(out)@, s, turn)
            &&& final(st).opens@.contains_key(o)
            &&& final(st).opens@[o].node == node
            &&& final(st).opens@[o].owner@ == owner
            &&& u32_at(s, at + 8) == final(st).opens@[o].seqid
            &&& final(st).opens@[o].share_access & 3 & share_access == share_access & 3
            &&& final(ctx).cfh == Some((share, node))
            &&& final(ctx).current is Some && final(ctx).current->0@ == o
            &&& u32_at(s, at + 24) == 1
            &&& u64_at(s, at + 28) == change_told(ans@[0])
            &&& u64_at(s, at + 36) == change_told(ans@[3])
            &&& u32_at(s, at + 44) == 4
            &&& u32_at(s, at + 60) <= 1
            &&& u32_at(s, at + 60) == 1 <==> false
            &&& u32_at(s, at + 60) == 1 ==> final(st).delegations@.contains_key(node)
                && final(st).delegations@[node].stateid_other@ == bytes_at(s, at + 60 + 8, 12)
            &&& final(st).sessions == old(st).sessions && final(st).clients == old(st).clients
                && final(st).locks == old(st).locks
        }),
{
    let (sid, deleg) = choose|sid: (Seq<u8>, u32), deleg: Option<Seq<u8>>|
        {
            &&& #[trigger] opened(
                *old(st),
                *final(st),
                node,
                owner,
                share_access,
                true,
                env.now,
                sid,
                deleg,
            )
            &&& final(out)@ == open_result(
                old(out)@,
                op,
                sid.1,
                sid.0,
                change_told(ans@[0]),
                change_told(ans@[3]),
                true,
                deleg,
            )
            &&& final(ctx)@.current == Some(sid.0)
        };
    opened_is_told(*old(st), *final(st), node, owner, share_access, true, env.now, sid, deleg);
    result_is_told(
        old(out)@,
        op,
        sid,
        change_told(ans@[0]),
        change_told(ans@[3]),
        true,
        deleg,
    );
    let v = final(ctx)@;
}

/// SETATTR tells which attributes were set.
pub proof fn setattr_tells(
    op: u32,
    req: &OpReq,
    ctx: &mut Ctx,
    info: &SurfaceInfo,
    codec: &HandleCodec,
    env: &Env,
    st: &mut State,
    ans: &Vec<Answer>,
    out: &mut XdrWriter,
    turn: Turn41,
    share: u16,
    node: NodeKey,
    seq: u32,
    other: Seq<u8>,
    set: SetAttr,
    want: Words,
    a: Attr,
)
    requires
        call_ensures(eval_op, (op, req, ctx, info, codec, env, st, ans, out), turn),
        old(ctx).cfh == Some((share, node)),
        req@ == (OpSpec::Setattr { seq, other, set, want }),
        info.writable,
        ans@.len() == 1,
        ans@[0] == Answer::Attr(Ok(a)),
    ensures
        went_well(op, old(out)@, final(out)@, turn),
        ({
            let at = old(out)@.len() as int + 8;
            let s = final(out)@;
            let n = u32_at(s, at);
            &&& 1 <= n <= 3
            &&& u32_at(s, at + 4) == want.0
            &&& n >= 2 ==> u32_at(s, at + 8) == want.1
            &&& n >= 3 ==> u32_at(s, at + 12) == want.2
            &&& n < 3 ==> want.2 == 0
            &&& n < 2 ==> want.1 == 0
            &&& s.len() == at + 4 + 4 * n
        }),
        *final(st) == *old(st),
        final(ctx)@ == old(ctx)@,
{
    let w = words_seq(want);
    assert(w[0] == want.0 && w[1] == want.1 && w[2] == want.2);
}

/// TEST_STATEID tells of each stateid whether it is known: an open or a delegation is, and another is
/// stale or bad.
pub proof fn stateids_are_tested(
    op: u32,
    req: &OpReq,
    ctx: &mut Ctx,
    info: &SurfaceInfo,
    codec: &HandleCodec,
    env: &Env,
    st: &mut State,
    ans: &Vec<Answer>,
    out: &mut XdrWriter,
    turn: Turn41,
    others: Seq<Seq<u8>>,
    i: int,
)
    requires
        call_ensures(eval_op, (op, req, ctx, info, codec, env, st, ans, out), turn),
        req@ == (OpSpec::TestStateid { others }),
        0 <= i < others.len() < 0x1_0000_0000,
        others[i].len() == 12,
    ensures
        ({
            let at = old(out)@.len() as int;
            let s = final(out)@;
            let o = others[i];
            let known = old(st).opens@.contains_key(o) || exists|n: NodeKey| #[trigger]
                old(st).delegations@.contains_key(n) && old(st).delegations@[n].stateid_other@ == o;
            let told = u32_at(s, at + 12 + 4 * i);
            &&& went_well(op, old(out)@, s, turn)
            &&& u32_at(s, at + 8) == others.len()
            &&& known ==> told == 0
            &&& !known ==> told == 10023 || told == 10025
            &&& !known ==> (told == 10023 <==> old(st).is_stale(o))
        }),
        *final(st) == *old(st),
{
    let s = old(out)@.put_u32(op).put_u32(0).put_u32(others.len() as u32);
    tests_are_told(s, *old(st), others, 0, i as nat);
}

/// SECINFO_NO_NAME tells two flavors and uses up the current file.
pub proof fn flavors_are_told(
    op: u32,
    req: &OpReq,
    ctx: &mut Ctx,
    info: &SurfaceInfo,
    codec: &HandleCodec,
    env: &Env,
    st: &mut State,
    ans: &Vec<Answer>,
    out: &mut XdrWriter,
    turn: Turn41,
)
    requires
        call_ensures(eval_op, (op, req, ctx, info, codec, env, st, ans, out), turn),
        req@ == (OpSpec::SecinfoNoName),
        old(ctx).cfh is Some,
    ensures
        went_well(op, old(out)@, final(out)@, turn),
        u32_at(final(out)@, old(out)@.len() as int + 8) == 2,
        u32_at(final(out)@, old(out)@.len() as int + 12) == 1,
        u32_at(final(out)@, old(out)@.len() as int + 16) == 0,
        final(ctx).cfh is None,
        *final(st) == *old(st),
{
    let v = final(ctx)@;
}

/// BIND_CONN_TO_SESSION of a known session tells the session and the direction; an unknown one is told
/// so.
pub proof fn connections_are_bound(
    op: u32,
    req: &OpReq,
    ctx: &mut Ctx,
    info: &SurfaceInfo,
    codec: &HandleCodec,
    env: &Env,
    st: &mut State,
    ans: &Vec<Answer>,
    out: &mut XdrWriter,
    turn: Turn41,
    sid: Seq<u8>,
    dir: u32,
)
    requires
        call_ensures(eval_op, (op, req, ctx, info, codec, env, st, ans, out), turn),
        req@ == (OpSpec::BindConn { sid, dir }),
        sid.len() == 16,
    ensures
        old(st).sessions@.contains_key(sid) ==> {
            let at = old(out)@.len() as int;
            let s = final(out)@;
            &&& went_well(op, old(out)@, s, turn)
            &&& bytes_at(s, at + 8, 16) == sid
            &&& 1 <= u32_at(s, at + 24) <= 3
            &&& 1 <= dir <= 3 ==> u32_at(s, at + 24) == dir
            &&& u32_at(s, at + 28) == 0
        },
        !old(st).sessions@.contains_key(sid) ==> went_wrong(
            op,
            10052,
            old(out)@,
            final(out)@,
            turn,
        ),
        *final(st) == *old(st),
{
}

/// LOCK by an owner that has a lock stateid keeps it; an unknown one is refused.
pub proof fn known_locks_are_kept(
    op: u32,
    req: &OpReq,
    ctx: &mut Ctx,
    info: &SurfaceInfo,
    codec: &HandleCodec,
    env: &Env,
    st: &mut State,
    ans: &Vec<Answer>,
    out: &mut XdrWriter,
    turn: Turn41,
    other: [u8; 12],
)
    requires
        call_ensures(eval_op, (op, req, ctx, info, codec, env, st, ans, out), turn),
        req@ == (OpSpec::LockKnown { other: other@ }),
    ensures
        old(st).locks@.contains_key(other@) ==> went_well(op, old(out)@, final(out)@, turn)
            && u32_at(final(out)@, old(out)@.len() as int + 8) == 1 && bytes_at(
            final(out)@,
            old(out)@.len() as int + 12,
            12,
        ) == other@ && final(ctx).current is Some && final(ctx).current->0@ == other@,
        !old(st).locks@.contains_key(other@) ==> went_wrong(
            op,
            if !all_are(other@, 0) && !all_are(other@, 255) && !(other@[9] == old(st).boot_verifier@[0]
                && other@[10] == old(st).boot_verifier@[1] && other@[11] == old(
                st).boot_verifier@[2]) {
                10023int
            } else {
                10025int
            },
            old(out)@,
            final(out)@,
            turn,
        ),
        *final(st) == *old(st),
{
    all_alike(other, 0);
    all_alike(other, 255);
    let v = final(ctx)@;
}

/// LOCKU of a lock that is known works and counts on; the lock stays known.
pub proof fn locks_are_unlocked(
    op: u32,
    req: &OpReq,
    ctx: &mut Ctx,
    info: &SurfaceInfo,
    codec: &HandleCodec,
    env: &Env,
    st: &mut State,
    ans: &Vec<Answer>,
    out: &mut XdrWriter,
    turn: Turn41,
    seq: u32,
    other: [u8; 12],
)
    requires
        call_ensures(eval_op, (op, req, ctx, info, codec, env, st, ans, out), turn),
        req@ == (OpSpec::Locku { seq, other: other@ }),
        !(seq == 1 && all_are(other@, 0)),
    ensures
        old(st).locks@.contains_key(other@) ==> went_well(op, old(out)@, final(out)@, turn)
            && (seq < u32::MAX ==> u32_at(final(out)@, old(out)@.len() as int + 8) == seq + 1)
            && bytes_at(final(out)@, old(out)@.len() as int + 12, 12) == other@,
        !old(st).locks@.contains_key(other@) ==> went_wrong(
            op,
            if !all_are(other@, 0) && !all_are(other@, 255) && !(other@[9] == old(st).boot_verifier@[0]
                && other@[10] == old(st).boot_verifier@[1] && other@[11] == old(
                st).boot_verifier@[2]) {
                10023int
            } else {
                10025int
            },
            old(out)@,
            final(out)@,
            turn,
        ),
        *final(st) == *old(st),
{
    all_alike(other, 0);
    all_alike(other, 255);
}

/// LOCKT finds no lock in the way, and RECLAIM_COMPLETE has nothing to do.
pub proof fn nothing_is_in_the_way(
    op: u32,
    req: &OpReq,
    ctx: &mut Ctx,
    info: &SurfaceInfo,
    codec: &HandleCodec,
    env: &Env,
    st: &mut State,
    ans: &Vec<Answer>,
    out: &mut XdrWriter,
    turn: Turn41,
)
    requires
        call_ensures(eval_op, (op, req, ctx, info, codec, env, st, ans, out), turn),
        req@ == (OpSpec::Lockt) || req@ == (OpSpec::ReclaimComplete),
    ensures
        went_well(op, old(out)@, final(out)@, turn),
        final(out)@.len() == old(out)@.len() + 8,
        *final(st) == *old(st),
        final(ctx)@ == old(ctx)@,
{
}

} // verus!
