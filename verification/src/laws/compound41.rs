//! NFSv4.1: what a compound's reply says, and what a session's slot keeps of it.
use crate::handle::HandleCodec;
use crate::laws::nfs3_reply::error_number;
use crate::laws::state41::{all_alike, all_are};
use crate::laws::wire::{
    as_item, as_u32, begins_with, bytes_at, group_places, group_reads, padded, u32_at,
};
use crate::nfs3::fh_bytes;
use crate::nfs41::compound::{
    begin, cached_of, carries, compound_of, reply_of, same_but_slot, session_kept, slot_after,
    unbind, Fetch, Run, RunAct,
};
use crate::nfs41::ops::{resolve_stateid, status_of, Ctx, Env, Turn41};
use crate::nfs41::state::{Session, State};
use crate::surface::{Answer, NfsError, SendRange, SurfaceInfo};
use crate::types::{NodeKey, Ts};
use crate::xdr::{Wire, XdrReader, XdrWriter};
use vstd::prelude::*;

verus! {

broadcast use {group_places, group_reads};

/// A reply begins with what was there, its status, its tag and the number of results.
pub open spec fn reply_says(
    w: Seq<u8>,
    before: Seq<u8>,
    status: u32,
    tag: Seq<u8>,
    nres: u32,
) -> bool {
    let at = before.len() as int;
    &&& begins_with(w, before)
    &&& w.len() >= at + 12 + padded(tag.len())
    &&& u32_at(w, at) == status
    &&& u32_at(w, at + 4) == tag.len()
    &&& bytes_at(w, at + 8, tag.len()) == tag
    &&& u32_at(w, at + 8 + padded(tag.len())) == nres
}

proof fn reply_is_said(prefix: Seq<u8>, tag: Seq<u8>, status: u32, nres: u32, body: Seq<u8>)
    requires
        tag.len() <= 1024,
    ensures
        reply_says(reply_of(prefix, tag, status, nres, body), prefix, status, tag, nres),
        reply_of(prefix, tag, status, nres, body).len() == prefix.len() + 12 + padded(tag.len())
            + body.len(),
        reply_of(prefix, tag, status, nres, body).skip(
            prefix.len() as int + 12 + padded(tag.len()),
        ) == body,
{
    let a = prefix.put_u32(status);
    let b = a.put_opaque(tag);
    let c = b.put_u32(nres);
    let w = c + body;
    crate::laws::wire::begins_with_beginning(c, b, a);
    crate::laws::wire::begins_with_beginning(c, a, prefix);
    assert(begins_with(w, c)) by {
        reveal(begins_with);
    }
    crate::laws::wire::begins_with_beginning(w, c, b);
    crate::laws::wire::begins_with_beginning(w, c, a);
    crate::laws::wire::begins_with_beginning(w, c, prefix);
    assert(w.skip(c.len() as int) =~= body);
}

/// A compound of minor version 1 with at most 64 operations is begun; any other is answered at
/// once with its tag.
pub proof fn compounds_begin<'a>(
    r: &mut XdrReader<'a>,
    w: &mut XdrWriter,
    res: Option<Run>,
    tag: Seq<u8>,
    minor: u32,
    nops: u32,
    rest: Seq<u8>,
)
    requires
        call_ensures(begin, (r, w), res),
        old(r)@ == as_item(tag) + (as_u32(minor) + (as_u32(nops) + rest)),
        tag.len() <= 1024,
    ensures
        res is Some <==> minor == 1 && nops <= 64,
        minor != 1 ==> reply_says(final(w)@, old(w)@, 10021, tag, 0),
        minor == 1 && nops > 64 ==> reply_says(final(w)@, old(w)@, 10065, tag, 0),
        res is Some ==> {
            &&& final(r)@ == rest
            &&& reply_says(final(w)@, old(w)@, 0, tag, 0)
            &&& res->0.tag@ == tag
            &&& res->0.nops == nops
            &&& res->0.done == 0 && res->0.nres == 0 && res->0.status == 0
            &&& res->0.restart == old(w)@.len()
            &&& res->0.body_pos == final(w)@.len()
            &&& res->0.slot is None && res->0.cur is None && res->0.tail is None
            &&& res->0.ctx.cfh is None && res->0.ctx.sfh is None
            &&& res->0.ans@.len() == 0
        },
{
    let none = Seq::<u8>::empty();
    assert(compound_of(old(r)@) == Some((tag, minor, nops, rest)));
    reply_is_said(old(w)@, tag, 10021, 0, none);
    reply_is_said(old(w)@, tag, 10065, 0, none);
    reply_is_said(old(w)@, tag, 0, 0, none);
    if res is Some {
        let run = res->0;
        assert(run.fits(final(w)@));
        assert(final(w)@.take(old(w)@.len() as int) =~= old(w)@) by {
            reveal(begins_with);
        }
    }
}

/// A run goes on until an operation fails or none is left: it looks at the next one where none is
/// under way.
pub proof fn runs_stop_at_a_failure(run: &Run, a: RunAct)
    requires
        call_ensures(Run::act, (run,), a),
    ensures
        a is Finish <==> run.status != 0 || run.done >= run.nops,
        a is Eval <==> run.status == 0 && run.done < run.nops && run.cur is Some,
{
}

/// An answer of the tree comes after those before it.
pub proof fn answers_come_in_order(run: &mut Run, a: Answer)
    requires
        call_ensures(Run::answer, (run, a), ()),
    ensures
        final(run).ans@ == old(run).ans@.push(a),
        *final(run) == (Run { ans: final(run).ans, ..*old(run) }),
{
}

/// An operation that ended has one result more; one that went well is counted as done, and one
/// that did not gives the compound its status.
pub proof fn operations_are_counted(
    run: &mut Run,
    w: &mut XdrWriter,
    st: &mut State,
    info: &SurfaceInfo,
    codec: &HandleCodec,
    env: &Env,
    turn: Turn41,
)
    requires
        call_ensures(Run::eval, (run, w, st, info, codec, env), turn),
        old(run).nres < u32::MAX,
        old(run).done < u32::MAX,
    ensures
        turn is Ask ==> final(run).nres == old(run).nres && final(run).done == old(run).done
            && final(run).cur == old(run).cur && final(run).ans == old(run).ans && final(
            run).status == old(run).status,
        !(turn is Ask) ==> final(run).nres == old(run).nres + 1 && final(run).cur is None && final(
            run).ans@.len() == 0,
        turn is DoneFile || turn == Turn41::Done(0) ==> final(run).done == old(run).done + 1
            && final(run).status == old(run).status,
        turn is Done && turn->Done_0 != 0 ==> final(run).done == old(run).done && final(run).status
            == turn->Done_0,
        turn is DoneFile ==> final(run).tail == Some(turn->DoneFile_0),
        !(turn is DoneFile) ==> final(run).tail == old(run).tail,
        final(run).tag == old(run).tag && final(run).nops == old(run).nops && final(run).slot
            == old(run).slot && final(run).restart == old(run).restart,
{
}

/// A reply that ends says the compound's status and how many results there are, and holds the
/// results as they were written.
pub proof fn replies_say_the_status(
    run: Run,
    w: &mut XdrWriter,
    st: &mut State,
    tail: Option<SendRange>,
)
    requires
        call_ensures(Run::finish, (run, w, st), tail),
        run.tag@.len() <= 1024,
        run.restart <= old(w)@.len(),
        run.body_pos == run.restart + 12 + padded(run.tag@.len()),
    ensures
        tail == run.tail,
        reply_says(
            final(w)@,
            old(w)@.take(run.restart as int),
            run.status,
            run.tag@,
            run.nres,
        ),
        final(w)@.skip(run.body_pos as int) == old(w)@.skip(run.body_pos as int),
        run.slot is None ==> *final(st) == *old(st),
{
    let prefix = old(w)@.take(run.restart as int);
    assert(prefix.len() == run.restart);
    reply_is_said(
        prefix,
        run.tag@,
        run.status,
        run.nres,
        old(w)@.skip(run.body_pos as int),
    );
}

/// A slot remembers the number of its last request and, where the client asked for it, the status
/// and the results; other slots and other sessions are as they were.
pub proof fn slots_remember(
    run: Run,
    w: &mut XdrWriter,
    st: &mut State,
    tail: Option<SendRange>,
    i: int,
    sid: Seq<u8>,
)
    requires
        call_ensures(Run::finish, (run, w, st), tail),
        run.slot is Some,
        old(st).sessions@.contains_key(run.slot->0.sid@),
        run.slot->0.slot < 64,
    ensures
        ({
            let a = run.slot->0;
            let s0 = old(st).sessions@[a.sid@];
            let s1 = final(st).sessions@[a.sid@];
            let kept = s1.fore_slots@[a.slot as int];
            let body = old(w)@.skip(run.body_pos as int);
            &&& final(st).sessions@.contains_key(a.sid@)
            &&& kept.seqid == a.seqid
            &&& kept.status == run.status
            &&& kept.reply is Some <==> a.cachethis
            &&& kept.had_uncached <==> !a.cachethis
            &&& a.cachethis ==> {
                &&& u32_at(kept.reply->0@, 0) == run.nres
                &&& bytes_at(kept.reply->0@, 4, body.len()) == body
                &&& kept.reply->0@.len() == 4 + padded(body.len())
            }
            &&& 0 <= i < s0.fore_slots@.len() && i != a.slot ==> s1.fore_slots@[i]
                == s0.fore_slots@[i]
            &&& s1.clientid == s0.clientid && s1.cb_program == s0.cb_program && s1.back_slot_seqid
                == s0.back_slot_seqid
            &&& sid != a.sid@ ==> (final(st).sessions@.contains_key(sid) <==> old(
                st).sessions@.contains_key(sid))
            &&& sid != a.sid@ && old(st).sessions@.contains_key(sid) ==> final(st).sessions@[sid]
                == old(st).sessions@[sid]
            &&& final(st).opens == old(st).opens && final(st).clients == old(st).clients
                && final(st).delegations == old(st).delegations && final(st).locks == old(st).locks
        }),
{
    let a = run.slot->0;
    let body = old(w)@.skip(run.body_pos as int);
    assert(session_kept(
        old(st).sessions@,
        final(st).sessions@,
        a@,
        run.status,
        run.nres,
        body,
    ));
    let s = choose|s: Session| #[trigger]
        same_but_slot(old(st).sessions@[a.sid@], s, a.slot) && slot_after(
            s.fore_slots@[a.slot as int],
            a.seqid,
            a.cachethis,
            run.status,
            cached_of(run.nres, body),
        ) && final(st).sessions@ == old(st).sessions@.insert(a.sid@, s);
    assert(same_but_slot(old(st).sessions@[a.sid@], s, a.slot));
    let e = Seq::<u8>::empty();
    assert(e.put_u32(run.nres).len() == 4);
    let c = e.put_u32(run.nres).put_fixed(body);
}

/// The sessions of a connection that ended have no backchannel, and the others keep theirs.
pub proof fn ended_connections_have_no_backchannel(
    st: &mut State,
    bound: &Vec<[u8; 16]>,
    sid: Seq<u8>,
)
    requires
        call_ensures(unbind, (st, bound), ()),
    ensures
        final(st).backchannels@.contains_key(sid) <==> old(st).backchannels@.contains_key(sid)
            && !exists|i: int| 0 <= i < bound@.len() && (#[trigger] bound@[i])@ == sid,
        final(st).backchannels@.contains_key(sid) ==> final(st).backchannels@[sid] == old(
            st).backchannels@[sid],
        *final(st) == (State { backchannels: final(st).backchannels, ..*old(st) }),
{
    assert(carries(bound@, sid) <==> exists|i: int|
        0 <= i < bound@.len() && (#[trigger] bound@[i])@ == sid);
}

/// The special stateid for the current one stands for what the compound produced last; any other
/// stands for itself.
pub proof fn stateids_are_resolved(ctx: &Ctx, seq: u32, other: &[u8; 12], r: [u8; 12])
    requires
        call_ensures(resolve_stateid, (ctx, seq, other), r),
    ensures
        seq == 1 && all_are(other@, 0) && ctx.current is Some ==> r@ == ctx.current->0@,
        !(seq == 1 && all_are(other@, 0) && ctx.current is Some) ==> r@ == other@,
{
    all_alike(*other, 0);
}

/// A recall is a call to the client's program, procedure 1 of version 1: two operations, a SEQUENCE
/// on slot 0 of the session under the next number, and a RECALL of the stateid and the file.
pub proof fn recalls_name_the_file(
    st: &mut State,
    sid: &[u8; 16],
    other: &[u8; 12],
    node: NodeKey,
    share: u16,
    codec: &HandleCodec,
    res: Option<(u32, Vec<u8>)>,
)
    requires
        call_ensures(State::begin_recall, (st, sid, other, node, share, codec), res),
        fh_bytes(codec.key(), share, node).len() == 28,
    ensures
        res is Some <==> old(st).backchannels@.contains_key(sid@) && old(
            st).sessions@.contains_key(sid@),
        res is None ==> *final(st) == *old(st),
        res is Some ==> {
            let s = (res->0).1@;
            let seq = final(st).sessions@[sid@].back_slot_seqid;
            let was = old(st).sessions@[sid@].back_slot_seqid;
            &&& (res->0).0 == old(st).next_cb_xid
            &&& was < u32::MAX ==> seq == was + 1
            &&& old(st).next_cb_xid < u32::MAX ==> final(st).next_cb_xid == old(st).next_cb_xid + 1
            &&& u32_at(s, 0) == old(st).next_cb_xid
            &&& u32_at(s, 4) == 0
            &&& u32_at(s, 8) == 2
            &&& u32_at(s, 12) == old(st).backchannels@[sid@]
            &&& u32_at(s, 16) == 1
            &&& u32_at(s, 20) == 1
            &&& u32_at(s, 60) == 2
            &&& u32_at(s, 64) == 11
            &&& bytes_at(s, 68, 16) == sid@
            &&& u32_at(s, 84) == seq
            &&& u32_at(s, 88) == 0
            &&& u32_at(s, 104) == 4
            &&& bytes_at(s, 112, 12) == other@
            &&& u32_at(s, 128) == 28
            &&& bytes_at(s, 132, 28) == fh_bytes(codec.key(), share, node)
            &&& s.len() == 160
        },
{
    if res is Some {
        let e = Seq::<u8>::empty();
        let tag = crate::nfs41::deleg::recall_tag();
        assert(tag.len() == 6);
        let xid = old(st).next_cb_xid;
        let program = old(st).backchannels@[sid@];
        let a = e.put_u32(xid).put_u32(0).put_u32(2).put_u32(program).put_u32(1).put_u32(1);
        let b = a.put_u32(0).put_opaque(e).put_u32(0).put_opaque(e);
        let c = b.put_opaque(tag).put_u32(1).put_u32(0).put_u32(2).put_u32(11);
        let seq = final(st).sessions@[sid@].back_slot_seqid;
        let d = c.put_fixed(sid@).put_u32(seq).put_u32(0).put_u32(0).put_bool(false).put_u32(0);
        let fh = fh_bytes(codec.key(), share, node);
        let f = d.put_u32(4).put_u32(1).put_fixed(other@).put_bool(false).put_opaque(fh);
        assert((res->0).1@ == f);
        assert(a.len() == 24 && b.len() == 40 && c.len() == 68);
        assert(begins_with(b, a) && begins_with(c, b) && begins_with(d, c) && begins_with(f, d));
        crate::laws::wire::begins_with_beginning(f, d, c);
        crate::laws::wire::begins_with_beginning(f, c, b);
        crate::laws::wire::begins_with_beginning(f, b, a);
    }
}

/// Each error of the tree has its own number.
pub proof fn errors_have_numbers(e: NfsError, st: u32)
    requires
        call_ensures(status_of, (e,), st),
    ensures
        st == error_number(e),
{
}

/// A SEQUENCE that comes after another operation ends the compound; an operation that cannot be read
/// ends it without a result, and one that makes no sense with its own.
pub proof fn operations_are_fetched<'a>(
    run: &mut Run,
    r: &mut XdrReader<'a>,
    w: &mut XdrWriter,
    st: &mut State,
    bound: &mut Vec<[u8; 16]>,
    now: Ts,
    res: Fetch,
    op: u32,
    rest: Seq<u8>,
)
    requires
        call_ensures(Run::next_op, (run, r, w, st, bound, now), res),
        old(r)@ == as_u32(op) + rest,
        old(run).nres < 64,
        old(run).done < 64,
    ensures
        op == 53 && old(run).done != 0 ==> res is Stopped && final(run).status == 10064 && final(
            run).nres == old(run).nres + 1 && *final(st) == *old(st) && u32_at(
            final(w)@,
            old(w)@.len() as int,
        ) == 53 && u32_at(final(w)@, old(w)@.len() as int + 4) == 10064,
        op != 53 && res is Ready ==> {
            &&& final(run).cur is Some && (final(run).cur->0).0 == op
            &&& final(run).ctx.is_last <==> old(run).done + 1 == old(run).nops
            &&& final(run).ctx.cfh == old(run).ctx.cfh && final(run).ctx.sfh == old(run).ctx.sfh
            &&& final(run).nres == old(run).nres && final(run).done == old(run).done
            &&& final(w)@ == old(w)@
            &&& *final(st) == *old(st)
        },
        op != 53 && !(res is Ready) ==> res is Stopped && final(run).nres == old(run).nres + 1
            && final(run).status == u32_at(final(w)@, old(w)@.len() as int + 4) && u32_at(
            final(w)@,
            old(w)@.len() as int,
        ) == op,
        res is Passed ==> op == 53 && old(run).done == 0 && final(run).done == 1 && final(run).nres
            == old(run).nres + 1 && final(run).slot is Some && (final(run).ctx.allow_sendfile
            <==> !final(run).slot->0.cachethis),
{
}

/// Bytes that end before an operation's number end the compound without a result.
pub proof fn cut_off_compounds_stop<'a>(
    run: &mut Run,
    r: &mut XdrReader<'a>,
    w: &mut XdrWriter,
    st: &mut State,
    bound: &mut Vec<[u8; 16]>,
    now: Ts,
    res: Fetch,
)
    requires
        call_ensures(Run::next_op, (run, r, w, st, bound, now), res),
        old(r)@.len() < 4,
    ensures
        res is Stopped,
        final(run).status == 10036,
        final(run).nres == old(run).nres,
        final(w)@ == old(w)@,
        *final(st) == *old(st),
{
    crate::laws::wire::u32_is_read(old(r)@);
}

} // verus!
