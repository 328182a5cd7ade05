//! COMPOUND: a SEQUENCE that puts it on a session's slot, then its operations in turn up to the
//! first that fails. Results go straight into the reply; its status and result count are patched
//! in at the end, and the results are kept in the slot where the client asked for that.
use crate::bytes::{same_bytes, to_array, to_vec};
use crate::handle::HandleCodec;
use crate::nfs41::eval::{eval_op, op_stepped};
use crate::nfs41::ops::{put_head, Ctx, Env, Turn41};
use crate::nfs41::request::{
    decode_op, op_of, refusals_are_errors, OpReq, ERR_BADSESSION, ERR_BADSLOT, ERR_BADXDR, ERR_MINOR_VERS_MISMATCH,
    ERR_REQ_TOO_BIG, ERR_RETRY_UNCACHED_REP, ERR_SEQUENCE_POS, ERR_SEQ_MISORDERED, NFS4_OK,
    OP_SEQUENCE,
};
use crate::nfs41::state::{succ32, succ64, Session, Slot, State, FORE_SLOTS};
use crate::surface::{Answer, Ask, SendRange, SurfaceInfo};
use crate::types::Ts;
use crate::xdr::{
    be32_len, grows, get_bool, get_fixed, get_opaque, get_u32, Wire, XdrError, XdrReader, XdrWriter,
};
use vstd::prelude::*;

verus! {

broadcast use crate::xdr::group_grows;

/// Most operations in one compound.
pub const MAX_OPS: u32 = 64;

// ---- SEQUENCE ----------------------------------------------------------------------------------

/// The arguments of SEQUENCE.
#[derive(Debug, Clone, Copy)]
pub struct SeqArgs<I = [u8; 16]> {
    pub sid: I,
    pub seqid: u32,
    pub slot: u32,
    pub cachethis: bool,
}

impl SeqArgs<[u8; 16]> {
    pub open spec fn view(&self) -> SeqArgs<Seq<u8>> {
        SeqArgs {
            sid: self.sid@,
            seqid: self.seqid,
            slot: self.slot,
            cachethis: self.cachethis,
        }
    }
}

pub open spec fn seq_args_of(s: Seq<u8>) -> Option<(SeqArgs<Seq<u8>>, Seq<u8>)> {
    let (sid, s1) = get_fixed(s, 16);
    let (seqid, s2) = get_u32(s1);
    let (slot, s3) = get_u32(s2);
    let (highest, s4) = get_u32(s3);
    let (cachethis, s5) = get_bool(s4);
    if sid is None || seqid is None || slot is None || highest is None || cachethis is None {
        None
    } else {
        Some((
            SeqArgs { sid: sid->0, seqid: seqid->0, slot: slot->0, cachethis: cachethis->0 },
            s5,
        ))
    }
}

fn read_seq_args(r: &mut XdrReader<'_>) -> (res: Result<SeqArgs, XdrError>)
    ensures
        match res {
            Ok(a) => seq_args_of(old(r)@) == Some((a@, final(r)@)),
            Err(_) => seq_args_of(old(r)@) is None,
        },
{
    let id = r.fixed(16)?;
    let sid: [u8; 16] = to_array(id);
    let seqid: u32 = r.u32()?;
    let slot: u32 = r.u32()?;
    let _highest: u32 = r.u32()?;
    let cachethis = r.bool()?;
    Ok(SeqArgs { sid, seqid, slot, cachethis })
}

/// What a SEQUENCE comes to.
pub enum Verdict {
    /// The request is new: it is the slot's next.
    Go,
    /// The request is the slot's last once more, and its status and results were kept.
    Replay(u32, Seq<u8>),
    Refused(u32),
}

/// The verdict on a SEQUENCE: the session and slot must exist; the slot's last sequence number
/// is a retry, the next one a new request, and any other out of order. A retry whose results
/// were not kept is refused, and so is one on a slot that was never used.
pub open spec fn verdict(st: State, sid: Seq<u8>, seqid: u32, slot: u32) -> Verdict {
    if !st.sessions@.contains_key(sid) {
        Verdict::Refused(ERR_BADSESSION)
    } else if slot >= FORE_SLOTS {
        Verdict::Refused(ERR_BADSLOT)
    } else {
        let s = st.sessions@[sid].fore_slots@[slot as int];
        if seqid == s.seqid {
            match s.reply {
                Some(cached) => Verdict::Replay(s.status, cached@),
                None => if s.had_uncached {
                    Verdict::Refused(ERR_RETRY_UNCACHED_REP)
                } else {
                    Verdict::Refused(ERR_SEQ_MISORDERED)
                },
            }
        } else if seqid == succ32(s.seqid) {
            Verdict::Go
        } else {
            Verdict::Refused(ERR_SEQ_MISORDERED)
        }
    }
}

/// The outcome of a SEQUENCE.
#[derive(Debug)]
pub enum SeqOutcome {
    Go(SeqArgs),
    Replay(u32, Vec<u8>),
    Refused(u32),
}

/// The result of a SEQUENCE that went through.
pub open spec fn seq_result(s: Seq<u8>, a: SeqArgs<Seq<u8>>) -> Seq<u8> {
    put_head(s, OP_SEQUENCE, NFS4_OK).put_fixed(a.sid).put_u32(a.seqid).put_u32(a.slot).put_u32(
        63,
    ).put_u32(63).put_u32(0)
}

/// Whether a connection has carried a session.
pub open spec fn carries(bound: Seq<[u8; 16]>, sid: Seq<u8>) -> bool {
    exists|i: int| 0 <= i < bound.len() && (#[trigger] bound[i])@ == sid
}

fn is_carried(bound: &Vec<[u8; 16]>, sid: &[u8; 16]) -> (r: bool)
    ensures
        r == carries(bound@, sid@),
{
    let mut i: usize = 0;
    while i < bound.len()
        invariant
            i <= bound@.len(),
            forall|j: int| 0 <= j < i ==> (#[trigger] bound@[j])@ != sid@,
        decreases bound@.len() - i,
    {
        if same_bytes(bound[i].as_slice(), sid.as_slice()) {
            proof {
                assert(bound@[i as int]@ == sid@);
            }
            return true;
        }
        i = i + 1;
    }
    false
}

/// A session that a connection carries for the first time has its backchannel there.
pub open spec fn carried(
    pre: State,
    post: State,
    bound0: Seq<[u8; 16]>,
    bound1: Seq<[u8; 16]>,
    sid: Seq<u8>,
) -> bool {
    if carries(bound0, sid) {
        post == pre && bound1 == bound0
    } else {
        &&& bound1.len() == bound0.len() + 1
        &&& bound1.drop_last() == bound0
        &&& bound1.last()@ == sid
        &&& post.backchannels@ == pre.backchannels@.insert(sid, pre.sessions@[sid].cb_program)
        &&& post == (State { backchannels: post.backchannels, ..pre })
    }
}

/// What a SEQUENCE does: its verdict decides.
pub open spec fn sequenced(
    args: Option<SeqArgs<Seq<u8>>>,
    pre: State,
    post: State,
    bound0: Seq<[u8; 16]>,
    bound1: Seq<[u8; 16]>,
    s: Seq<u8>,
    out: Seq<u8>,
    res: SeqOutcome,
) -> bool {
    let refused = |code: u32|
        {
            &&& res == SeqOutcome::Refused(code)
            &&& out == put_head(s, OP_SEQUENCE, code)
            &&& post == pre
            &&& bound1 == bound0
        };
    match args {
        None => refused(ERR_BADXDR),
        Some(a) => match verdict(pre, a.sid, a.seqid, a.slot) {
            Verdict::Refused(code) => refused(code),
            Verdict::Replay(status, cached) => {
                &&& res is Replay
                &&& res->Replay_0 == status
                &&& res->Replay_1@ == cached
                &&& out == s
                &&& post == pre
                &&& bound1 == bound0
            },
            Verdict::Go => {
                &&& res is Go
                &&& res->Go_0@ == a
                &&& out == seq_result(s, a)
                &&& carried(pre, post, bound0, bound1, a.sid)
            },
        },
    }
}

/// SEQUENCE: `bound` lists the sessions that the connection has carried.
pub fn op_sequence(
    r: &mut XdrReader<'_>,
    out: &mut XdrWriter,
    st: &mut State,
    bound: &mut Vec<[u8; 16]>,
) -> (res: SeqOutcome)
    requires
        old(st).wf(),
    ensures
        final(st).wf(),
        grows(old(out)@, final(out)@),
        sequenced(
            match seq_args_of(old(r)@) {
                Some((a, _)) => Some(a),
                None => None,
            },
            *old(st),
            *final(st),
            old(bound)@,
            final(bound)@,
            old(out)@,
            final(out)@,
            res,
        ),
        res is Go ==> (seq_args_of(old(r)@)->0).1 == final(r)@,
        res is Refused ==> res->Refused_0 != NFS4_OK,
{
    let a = match read_seq_args(r) {
        Ok(a) => a,
        Err(_) => {
            return refuse_sequence(out, ERR_BADXDR);
        },
    };
    let sess = match st.sessions.get(&a.sid) {
        Some(s) => s,
        None => {
            return refuse_sequence(out, ERR_BADSESSION);
        },
    };
    if a.slot >= FORE_SLOTS {
        return refuse_sequence(out, ERR_BADSLOT);
    }
    let s = &sess.fore_slots[a.slot as usize];
    if a.seqid == s.seqid {
        match &s.reply {
            Some(cached) => {
                return SeqOutcome::Replay(s.status, to_vec(cached.as_slice()));
            },
            None => {
                if s.had_uncached {
                    return refuse_sequence(out, ERR_RETRY_UNCACHED_REP);
                }
                return refuse_sequence(out, ERR_SEQ_MISORDERED);
            },
        }
    }
    if a.seqid != s.seqid.wrapping_add(1) {
        return refuse_sequence(out, ERR_SEQ_MISORDERED);
    }
    let program: u32 = sess.cb_program;
    if !is_carried(bound, &a.sid) {
        bound.push(a.sid);
        let _prev = st.backchannels.insert(a.sid, program);
        proof {
            assert(bound@.drop_last() =~= old(bound)@);
        }
    }
    out.u32(OP_SEQUENCE);
    out.u32(NFS4_OK);
    out.fixed(a.sid.as_slice());
    out.u32(a.seqid);
    out.u32(a.slot);
    out.u32(63);
    out.u32(63);
    out.u32(0);
    SeqOutcome::Go(a)
}

fn refuse_sequence(out: &mut XdrWriter, code: u32) -> (res: SeqOutcome)
    ensures
        grows(old(out)@, final(out)@),
        final(out)@ == put_head(old(out)@, OP_SEQUENCE, code),
        res == SeqOutcome::Refused(code),
{
    out.u32(OP_SEQUENCE);
    out.u32(code);
    SeqOutcome::Refused(code)
}

/// A connection ended: its sessions have no backchannel any more.
pub fn unbind(st: &mut State, bound: &Vec<[u8; 16]>)
    requires
        old(st).wf(),
    ensures
        final(st).wf(),
        *final(st) == (State { backchannels: final(st).backchannels, ..*old(st) }),
        final(st).backchannels@ == old(st).backchannels@.remove_keys(
            Set::new(|sid: Seq<u8>| carries(bound@, sid)),
        ),
{
    let mut i: usize = 0;
    proof {
        assert(bound@.take(0) =~= Seq::<[u8; 16]>::empty());
        assert(st.backchannels@ =~= old(st).backchannels@.remove_keys(
            Set::new(|sid: Seq<u8>| carries(bound@.take(0), sid)),
        ));
    }
    while i < bound.len()
        invariant
            st.wf(),
            i <= bound@.len(),
            *st == (State { backchannels: st.backchannels, ..*old(st) }),
            st.backchannels@ == old(st).backchannels@.remove_keys(
                Set::new(|sid: Seq<u8>| carries(bound@.take(i as int), sid)),
            ),
        decreases bound@.len() - i,
    {
        let _row = st.backchannels.remove(&bound[i]);
        proof {
            let t = bound@.take(i as int);
            let t1 = bound@.take(i + 1);
            assert(t1 =~= t.push(bound@[i as int]));
            assert forall|sid: Seq<u8>| #[trigger]
                carries(t1, sid) == (carries(t, sid) || sid == bound@[i as int]@) by {
                if carries(t1, sid) {
                    let k = choose|k: int| 0 <= k < t1.len() && (#[trigger] t1[k])@ == sid;
                    if k < i {
                        assert(t[k]@ == sid);
                    }
                }
                if carries(t, sid) {
                    let k = choose|k: int| 0 <= k < t.len() && (#[trigger] t[k])@ == sid;
                    assert(t1[k]@ == sid);
                }
                if sid == bound@[i as int]@ {
                    assert(t1[i as int]@ == sid);
                }
            }
            assert(st.backchannels@ =~= old(st).backchannels@.remove_keys(
                Set::new(|sid: Seq<u8>| carries(t1, sid)),
            ));
        }
        i = i + 1;
    }
    proof {
        assert(bound@.take(i as int) =~= bound@);
    }
}

// ---- the run of a compound -----------------------------------------------------------------------

/// A reply: what comes before the compound, its status, tag and result count, and the results.
pub open spec fn reply_of(
    prefix: Seq<u8>,
    tag: Seq<u8>,
    status: u32,
    nres: u32,
    body: Seq<u8>,
) -> Seq<u8> {
    prefix.put_u32(status).put_opaque(tag).put_u32(nres) + body
}

/// A compound under way.
#[derive(Debug)]
pub struct Run {
    pub tag: Vec<u8>,
    pub nops: u32,
    /// How many operations are done.
    pub done: u32,
    /// How many results are written.
    pub nres: u32,
    pub status: u32,
    /// Where the compound starts in the reply, and where its results do.
    pub restart: usize,
    pub body_pos: usize,
    pub ctx: Ctx,
    /// The slot that the results go to.
    pub slot: Option<SeqArgs>,
    /// The operation under way and what the tree answered it.
    pub cur: Option<(u32, OpReq)>,
    pub ans: Vec<Answer>,
    /// A payload that follows the reply from a local file.
    pub tail: Option<SendRange>,
}

impl Run {
    /// The reply so far, with status and result count still to be patched in.
    pub open spec fn fits(&self, w: Seq<u8>) -> bool {
        &&& self.restart <= self.body_pos <= w.len()
        &&& (w.len() - self.body_pos) % 4 == 0
        &&& self.body_pos == reply_of(w.take(self.restart as int), self.tag@, 0, 0, Seq::empty()).len()
        &&& w == reply_of(
            w.take(self.restart as int),
            self.tag@,
            0,
            0,
            w.skip(self.body_pos as int),
        )
    }
}

/// The head of a compound: a tag of at most 1024 bytes, the minor version, the number of
/// operations.
pub open spec fn compound_of(s: Seq<u8>) -> Option<(Seq<u8>, u32, u32, Seq<u8>)> {
    let (tag, s1) = get_opaque(s, 1024);
    let (minor, s2) = get_u32(s1);
    let (nops, s3) = get_u32(s2);
    if tag is None || minor is None || nops is None {
        None
    } else {
        Some((tag->0, minor->0, nops->0, s3))
    }
}

/// A run that has just begun.
pub open spec fn fresh_run(run: Run, tag: Seq<u8>, nops: u32, restart: nat) -> bool {
    &&& run.tag@ == tag
    &&& run.nops == nops
    &&& run.done == 0
    &&& run.nres == 0
    &&& run.status == NFS4_OK
    &&& run.restart == restart
    &&& run.ctx@ == (Ctx::<Seq<u8>> {
        cfh: None,
        sfh: None,
        current: None,
        is_last: false,
        allow_sendfile: true,
    })
    &&& run.slot is None
    &&& run.cur is None
    &&& run.ans@.len() == 0
    &&& run.tail is None
}

fn read_compound<'a>(r: &mut XdrReader<'a>) -> (res: Result<(&'a [u8], u32, u32), XdrError>)
    ensures
        match res {
            Ok((tag, minor, nops)) => compound_of(old(r)@) == Some((tag@, minor, nops, final(r)@)),
            Err(_) => compound_of(old(r)@) is None,
        },
{
    let tag = r.opaque(1024)?;
    let minor: u32 = r.u32()?;
    let nops: u32 = r.u32()?;
    Ok((tag, minor, nops))
}

/// Begin a compound. One that cannot be read, is of another minor version, or has too many
/// operations is answered at once, and there is no run.
pub fn begin(r: &mut XdrReader<'_>, w: &mut XdrWriter) -> (res: Option<Run>)
    ensures
        match compound_of(old(r)@) {
            None => res is None && final(w)@ == reply_of(
                old(w)@,
                Seq::empty(),
                ERR_BADXDR,
                0,
                Seq::empty(),
            ),
            Some((tag, minor, nops, rest)) => if minor != 1 {
                res is None && final(w)@ == reply_of(
                    old(w)@,
                    tag,
                    ERR_MINOR_VERS_MISMATCH,
                    0,
                    Seq::empty(),
                )
            } else if nops > MAX_OPS {
                res is None && final(w)@ == reply_of(
                    old(w)@,
                    tag,
                    ERR_REQ_TOO_BIG,
                    0,
                    Seq::empty(),
                )
            } else {
                &&& res is Some
                &&& fresh_run(res->0, tag, nops, old(w)@.len())
                &&& (res->0).fits(final(w)@)
                &&& final(w)@ == reply_of(old(w)@, tag, 0, 0, Seq::empty())
                &&& final(r)@ == rest
            },
        },
{
    let none: [u8; 0] = [];
    proof {
        assert(none@ =~= Seq::<u8>::empty());
    }
    let (tag, minor, nops) = match read_compound(r) {
        Ok(head) => head,
        Err(_) => {
            write_reply_head(w, none.as_slice(), ERR_BADXDR);
            return None;
        },
    };
    if minor != 1 {
        write_reply_head(w, tag, ERR_MINOR_VERS_MISMATCH);
        return None;
    }
    if nops > MAX_OPS {
        write_reply_head(w, tag, ERR_REQ_TOO_BIG);
        return None;
    }
    let restart: usize = w.pos();
    write_reply_head(w, tag, NFS4_OK);
    let body_pos: usize = w.pos();
    proof {
        let e = Seq::<u8>::empty();
        assert(w@.take(restart as int) =~= old(w)@);
        assert(w@.skip(body_pos as int) =~= e);
    }
    Some(
        Run {
            tag: to_vec(tag),
            nops,
            done: 0,
            nres: 0,
            status: NFS4_OK,
            restart,
            body_pos,
            ctx: Ctx {
                cfh: None,
                sfh: None,
                current: None,
                is_last: false,
                allow_sendfile: true,
            },
            slot: None,
            cur: None,
            ans: Vec::new(),
            tail: None,
        },
    )
}

fn write_reply_head(w: &mut XdrWriter, tag: &[u8], status: u32)
    ensures
        final(w)@ == reply_of(old(w)@, tag@, status, 0, Seq::empty()),
        final(w)@.len() >= old(w)@.len(),
        final(w)@.take(old(w)@.len() as int) == old(w)@,
{
    broadcast use be32_len;

    w.u32(status);
    w.opaque(tag);
    w.u32(0);
    proof {
        assert(w@ =~= reply_of(old(w)@, tag@, status, 0, Seq::empty()));
        assert(w@.take(old(w)@.len() as int) =~= old(w)@);
    }
}

/// Results written behind a fitting reply leave it fitting.
proof fn grown_fits(run: Run, w0: Seq<u8>, w1: Seq<u8>)
    requires
        run.fits(w0),
        grows(w0, w1),
    ensures
        run.fits(w1),
{
    reveal(grows);
    let p = run.restart as int;
    let b = run.body_pos as int;
    assert(w1.take(p) =~= w0.take(p)) by {
        assert forall|i: int| 0 <= i < p implies w1[i] == w0[i] by {
            assert(w1.take(w0.len() as int)[i] == w1[i]);
        }
    }
    let head = reply_of(w0.take(p), run.tag@, 0, 0, Seq::empty());
    assert(head.len() == b);
    assert(w0 =~= head + w0.skip(b));
    assert(w1 =~= head + w1.skip(b)) by {
        assert forall|i: int| 0 <= i < b implies w1[i] == head[i] by {
            assert(w1.take(w0.len() as int)[i] == w1[i]);
            assert((head + w0.skip(b))[i] == head[i]);
        }
    }
    assert(reply_of(w1.take(p), run.tag@, 0, 0, w1.skip(b)) =~= head + w1.skip(b));
}

/// What came of looking at the next operation.
#[derive(Debug, Clone, Copy, PartialEq, Eq, Structural)]
pub enum Fetch {
    /// It is decoded and waits to be evaluated.
    Ready,
    /// It was a SEQUENCE that went through.
    Passed,
    /// It was a retry: the reply is complete.
    Replayed,
    /// The compound ends here with the run's status.
    Stopped,
}

/// The run after an operation that ended it: with a result or without one.
pub open spec fn stopped(pre: Run, post: Run, status: u32, with_result: bool) -> bool {
    post == (Run {
        status,
        nres: if with_result {
            (pre.nres + 1) as u32
        } else {
            pre.nres
        },
        ..pre
    })
}

/// What looking at the next operation does.
pub open spec fn fetched(
    run0: Run,
    run1: Run,
    s: Seq<u8>,
    rest: Seq<u8>,
    now: Ts,
    pre: State,
    post: State,
    bound0: Seq<[u8; 16]>,
    bound1: Seq<[u8; 16]>,
    w0: Seq<u8>,
    w1: Seq<u8>,
    res: Fetch,
) -> bool {
    let (word, s1) = get_u32(s);
    match word {
        None => {
            &&& res == Fetch::Stopped
            &&& stopped(run0, run1, ERR_BADXDR, false)
            &&& post == pre
            &&& bound1 == bound0
            &&& w1 == w0
        },
        Some(op) => if op == OP_SEQUENCE {
            if run0.done != 0 {
                &&& res == Fetch::Stopped
                &&& stopped(run0, run1, ERR_SEQUENCE_POS, true)
                &&& post == pre
                &&& bound1 == bound0
                &&& w1 == put_head(w0, OP_SEQUENCE, ERR_SEQUENCE_POS)
            } else {
                sequence_fetched(
                    run0,
                    run1,
                    seq_args_of(s1),
                    rest,
                    pre,
                    post,
                    bound0,
                    bound1,
                    w0,
                    w1,
                    res,
                )
            }
        } else {
            &&& bound1 == bound0
            &&& match op_of(op, s1, now, run0.ctx.cfh is Some) {
                Err(code) => {
                    &&& res == Fetch::Stopped
                    &&& stopped(run0, run1, code, true)
                    &&& w1 == put_head(w0, op, code)
                    &&& post == (State { ops_served: succ64(pre.ops_served), ..pre })
                },
                Ok((q, after)) => {
                    &&& res == Fetch::Ready
                    &&& run1.cur is Some
                    &&& (run1.cur->0).0 == op
                    &&& (run1.cur->0).1@ == q
                    &&& run1 == (Run {
                        cur: run1.cur,
                        ctx: Ctx { is_last: run0.done + 1 == run0.nops, ..run0.ctx },
                        ..run0
                    })
                    &&& rest == after
                    &&& w1 == w0
                    &&& post == pre
                },
            }
        },
    }
}

/// What a leading SEQUENCE does: one that goes through takes the slot, a retry is answered with
/// the results that were kept.
pub open spec fn sequence_fetched(
    run0: Run,
    run1: Run,
    args: Option<(SeqArgs<Seq<u8>>, Seq<u8>)>,
    rest: Seq<u8>,
    pre: State,
    post: State,
    bound0: Seq<[u8; 16]>,
    bound1: Seq<[u8; 16]>,
    w0: Seq<u8>,
    w1: Seq<u8>,
    res: Fetch,
) -> bool {
    match args {
        None => {
            &&& res == Fetch::Stopped
            &&& stopped(run0, run1, ERR_BADXDR, true)
            &&& w1 == put_head(w0, OP_SEQUENCE, ERR_BADXDR)
            &&& post == pre
            &&& bound1 == bound0
        },
        Some((a, after)) => match verdict(pre, a.sid, a.seqid, a.slot) {
            Verdict::Refused(code) => {
                &&& res == Fetch::Stopped
                &&& stopped(run0, run1, code, true)
                &&& w1 == put_head(w0, OP_SEQUENCE, code)
                &&& post == pre
                &&& bound1 == bound0
            },
            Verdict::Replay(status, cached) => {
                &&& res == Fetch::Replayed
                &&& run1 == run0
                &&& w1 == replay_of(w0.take(run0.restart as int), run0.tag@, status, cached)
                &&& post == pre
                &&& bound1 == bound0
            },
            Verdict::Go => {
                &&& res == Fetch::Passed
                &&& run1.slot is Some
                &&& run1.slot->0@ == a
                &&& run1 == (Run {
                    slot: run1.slot,
                    nres: (run0.nres + 1) as u32,
                    done: (run0.done + 1) as u32,
                    ctx: Ctx { allow_sendfile: !a.cachethis, ..run0.ctx },
                    ..run0
                })
                &&& w1 == seq_result(w0, a)
                &&& rest == after
                &&& carried(pre, post, bound0, bound1, a.sid)
            },
        },
    }
}

/// The reply to a retry: the status and the results that were kept, count and all.
pub open spec fn replay_of(prefix: Seq<u8>, tag: Seq<u8>, status: u32, cached: Seq<u8>) -> Seq<u8> {
    prefix.put_u32(status).put_opaque(tag).put_fixed(cached)
}

/// The results that a slot keeps: their count and the results.
pub open spec fn cached_of(nres: u32, body: Seq<u8>) -> Seq<u8> {
    Seq::<u8>::empty().put_u32(nres).put_fixed(body)
}

/// A slot after the request `seqid`: with its status and results, or with the mark that the results
/// were not kept.
pub open spec fn slot_after(s: Slot, seqid: u32, keep: bool, status: u32, cached: Seq<u8>) -> bool {
    &&& s.seqid == seqid
    &&& s.status == status
    &&& s.had_uncached == !keep
    &&& s.reply is Some == keep
    &&& keep ==> s.reply->0@ == cached
}

/// The state after a compound on slot `a` ended with a status and `nres` results.
pub open spec fn slot_kept(
    pre: State,
    post: State,
    a: SeqArgs<Seq<u8>>,
    status: u32,
    nres: u32,
    body: Seq<u8>,
) -> bool {
    if pre.sessions@.contains_key(a.sid) && a.slot < FORE_SLOTS {
        &&& post == (State { sessions: post.sessions, ..pre })
        &&& session_kept(pre.sessions@, post.sessions@, a, status, nres, body)
    } else {
        post == pre
    }
}

pub open spec fn session_kept(
    before: Map<Seq<u8>, Session>,
    after: Map<Seq<u8>, Session>,
    a: SeqArgs<Seq<u8>>,
    status: u32,
    nres: u32,
    body: Seq<u8>,
) -> bool {
    exists|s: Session| #[trigger]
        same_but_slot(before[a.sid], s, a.slot) && slot_after(
            s.fore_slots@[a.slot as int],
            a.seqid,
            a.cachethis,
            status,
            cached_of(nres, body),
        ) && after == before.insert(a.sid, s)
}

/// Two sessions that differ at most in one slot.
pub open spec fn same_but_slot(s0: Session, s1: Session, slot: u32) -> bool {
    &&& s1 == (Session { fore_slots: s1.fore_slots, ..s0 })
    &&& s1.fore_slots@.len() == s0.fore_slots@.len()
    &&& forall|i: int|
        0 <= i < s0.fore_slots@.len() && i != slot ==> #[trigger] s1.fore_slots@[i]
            == s0.fore_slots@[i]
}

/// What a run needs next.
#[derive(Debug, Clone, Copy, PartialEq, Eq, Structural)]
pub enum RunAct {
    /// The next operation is to be looked at.
    Fetch,
    /// The operation under way is to be evaluated.
    Eval,
    /// The reply is to be ended.
    Finish,
}

/// What a run needs next: it goes on until an operation fails or none is left.
pub open spec fn act_of(run: Run) -> RunAct {
    if run.status != NFS4_OK || run.done >= run.nops {
        RunAct::Finish
    } else if run.cur is Some {
        RunAct::Eval
    } else {
        RunAct::Fetch
    }
}

impl Run {
    /// What the run needs next.
    pub fn act(&self) -> (a: RunAct)
        ensures
            a == act_of(*self),
            a is Finish == (self.status != NFS4_OK || self.done >= self.nops),
    {
        if self.status != NFS4_OK || self.done >= self.nops {
            RunAct::Finish
        } else if self.cur.is_some() {
            RunAct::Eval
        } else {
            RunAct::Fetch
        }
    }

    /// Look at the next operation: decode it, or settle it where it is a SEQUENCE or cannot be
    /// decoded. `now` is the server's time.
    pub fn next_op(
        &mut self,
        r: &mut XdrReader<'_>,
        w: &mut XdrWriter,
        st: &mut State,
        bound: &mut Vec<[u8; 16]>,
        now: Ts,
    ) -> (res: Fetch)
        requires
            old(st).wf(),
            old(self).fits(old(w)@),
            act_of(*old(self)) == RunAct::Fetch,
            old(self).nops <= MAX_OPS,
            old(self).nres <= old(self).done,
        ensures
            final(st).wf(),
            res != Fetch::Replayed ==> final(self).fits(final(w)@),
            fetched(
                *old(self),
                *final(self),
                old(r)@,
                final(r)@,
                now,
                *old(st),
                *final(st),
                old(bound)@,
                final(bound)@,
                old(w)@,
                final(w)@,
                res,
            ),
    {
        let op: u32 = match r.u32() {
            Ok(op) => op,
            Err(_) => {
                self.status = ERR_BADXDR;
                return Fetch::Stopped;
            },
        };
        if op == OP_SEQUENCE {
            if self.done != 0 {
                w.u32(OP_SEQUENCE);
                w.u32(ERR_SEQUENCE_POS);
                self.nres = self.nres + 1;
                self.status = ERR_SEQUENCE_POS;
                proof {
                    grown_fits(*self, old(w)@, w@);
                }
                return Fetch::Stopped;
            }
            return self.next_sequence(r, w, st, bound);
        }
        match decode_op(op, r, now, self.ctx.cfh.is_some()) {
            Err(code) => {
                w.u32(op);
                w.u32(code);
                st.ops_served = st.ops_served.wrapping_add(1);
                self.nres = self.nres + 1;
                self.status = code;
                proof {
                    grown_fits(*self, old(w)@, w@);
                }
                Fetch::Stopped
            },
            Ok(q) => {
                self.cur = Some((op, q));
                self.ctx.is_last = self.done + 1 == self.nops;
                Fetch::Ready
            },
        }
    }

    fn next_sequence(
        &mut self,
        r: &mut XdrReader<'_>,
        w: &mut XdrWriter,
        st: &mut State,
        bound: &mut Vec<[u8; 16]>,
    ) -> (res: Fetch)
        requires
            old(st).wf(),
            old(self).fits(old(w)@),
            old(self).done == 0,
            old(self).nres == 0,
        ensures
            final(st).wf(),
            res != Fetch::Replayed ==> final(self).fits(final(w)@),
            sequence_fetched(
                *old(self),
                *final(self),
                seq_args_of(old(r)@),
                final(r)@,
                *old(st),
                *final(st),
                old(bound)@,
                final(bound)@,
                old(w)@,
                final(w)@,
                res,
            ),
    {
        match op_sequence(r, w, st, bound) {
            SeqOutcome::Go(a) => {
                self.nres = self.nres + 1;
                self.done = self.done + 1;
                self.ctx.allow_sendfile = !a.cachethis;
                self.slot = Some(a);
                proof {
                    grown_fits(*self, old(w)@, w@);
                }
                Fetch::Passed
            },
            SeqOutcome::Replay(status, cached) => {
                w.truncate(self.restart);
                w.u32(status);
                w.opaque(self.tag.as_slice());
                w.fixed(cached.as_slice());
                Fetch::Replayed
            },
            SeqOutcome::Refused(code) => {
                self.nres = self.nres + 1;
                self.status = code;
                proof {
                    grown_fits(*self, old(w)@, w@);
                }
                Fetch::Stopped
            },
        }
    }

    /// Evaluate the operation under way as far as the answers so far allow.
    pub fn eval(
        &mut self,
        w: &mut XdrWriter,
        st: &mut State,
        info: &SurfaceInfo,
        codec: &HandleCodec,
        env: &Env,
    ) -> (turn: Turn41)
        requires
            old(st).wf(),
            old(self).fits(old(w)@),
            act_of(*old(self)) == RunAct::Eval,
            old(self).nops <= MAX_OPS,
            old(self).nres <= old(self).done,
        ensures
            final(st).wf(),
            final(self).fits(final(w)@),
            evaluated(
                *old(self),
                *final(self),
                *info,
                codec.key(),
                *env,
                *old(st),
                *final(st),
                old(w)@,
                final(w)@,
                turn,
            ),
    {
        let ghost before = self.cur;
        let (op, req) = match self.cur.take() {
            Some(cur) => cur,
            None => {
                return Turn41::Done(NFS4_OK);
            },
        };
        let mut ctx = self.ctx;
        let turn = eval_op(op, &req, &mut ctx, info, codec, env, st, &self.ans, w);
        let ghost mid = *st;
        proof {
            assert(op_stepped(
                op,
                req@,
                old(self).ctx@,
                *info,
                codec.key(),
                *env,
                old(self).ans@,
                *old(st),
                mid,
                old(w)@,
                ctx@,
                w@,
                turn,
            ));
        }
        self.ctx = ctx;
        match &turn {
            Turn41::Ask(_) => {
                self.cur = Some((op, req));
            },
            Turn41::Done(code) => {
                st.ops_served = st.ops_served.wrapping_add(1);
                self.ans = Vec::new();
                self.nres = self.nres + 1;
                if *code != NFS4_OK {
                    self.status = *code;
                } else {
                    self.done = self.done + 1;
                }
            },
            Turn41::DoneFile(range) => {
                st.ops_served = st.ops_served.wrapping_add(1);
                self.ans = Vec::new();
                self.nres = self.nres + 1;
                self.done = self.done + 1;
                self.tail = Some(*range);
            },
        }
        proof {
            grown_fits(*self, old(w)@, w@);
        }
        turn
    }

    /// What the tree answered to the last ask.
    pub fn answer(&mut self, a: Answer)
        ensures
            final(self).ans@ == old(self).ans@.push(a),
            *final(self) == (Run { ans: final(self).ans, ..*old(self) }),
    {
        self.ans.push(a);
    }

    /// End the compound: patch status and result count into the reply, and leave the results in
    /// the slot. What follows the reply from a local file is given back.
    pub fn finish(self, w: &mut XdrWriter, st: &mut State) -> (tail: Option<SendRange>)
        requires
            old(st).wf(),
            self.fits(old(w)@),
        ensures
            final(st).wf(),
            tail == self.tail,
            final(w)@ == reply_of(
                old(w)@.take(self.restart as int),
                self.tag@,
                self.status,
                self.nres,
                old(w)@.skip(self.body_pos as int),
            ),
            match self.slot {
                Some(a) => slot_kept(
                    *old(st),
                    *final(st),
                    a@,
                    self.status,
                    self.nres,
                    old(w)@.skip(self.body_pos as int),
                ),
                None => *final(st) == *old(st),
            },
    {
        broadcast use be32_len;

        let ghost prefix = w@.take(self.restart as int);
        let ghost body = w@.skip(self.body_pos as int);
        if let Some(a) = self.slot {
            let mut cached = XdrWriter::new();
            cached.u32(self.nres);
            cached.fixed(w.since(self.body_pos));
            keep_results(st, &a, self.status, cached.into_bytes(), Ghost(self.nres), Ghost(body));
        }
        w.patch_u32(self.restart, self.status);
        proof {
            assert(w@ =~= reply_of(prefix, self.tag@, self.status, 0, body));
        }
        w.patch_u32(self.body_pos - 4, self.nres);
        proof {
            assert(w@ =~= reply_of(prefix, self.tag@, self.status, self.nres, body));
        }
        self.tail
    }
}

/// Leave a compound's status and results in its slot, if the session is still there.
fn keep_results(
    st: &mut State,
    a: &SeqArgs,
    status: u32,
    cached: Vec<u8>,
    Ghost(nres): Ghost<u32>,
    Ghost(body): Ghost<Seq<u8>>,
)
    requires
        old(st).wf(),
        cached@ == cached_of(nres, body),
    ensures
        final(st).wf(),
        slot_kept(*old(st), *final(st), a@, status, nres, body),
{
    let i: usize = match st.sessions.find(&a.sid) {
        Some(i) => i,
        None => {
            return;
        },
    };
    if a.slot >= FORE_SLOTS {
        return;
    }
    let (id, sess) = st.sessions.remove_at(i);
    let ghost was = sess;
    let mut fore_slots = sess.fore_slots;
    let slot = if a.cachethis {
        Slot { seqid: a.seqid, reply: Some(cached), status, had_uncached: false }
    } else {
        Slot { seqid: a.seqid, reply: None, status, had_uncached: true }
    };
    fore_slots[a.slot as usize] = slot;
    let kept = Session {
        id: sess.id,
        clientid: sess.clientid,
        fore_slots,
        cb_program: sess.cb_program,
        back_slot_seqid: sess.back_slot_seqid,
    };
    let ghost now = kept;
    let _none = st.sessions.insert(id, kept);
    proof {
        assert(st.sessions@ =~= old(st).sessions@.insert(a.sid@, now));
        let v = a@;
        assert(same_but_slot(old(st).sessions@[v.sid], now, v.slot));
        assert(slot_after(
            now.fore_slots@[v.slot as int],
            v.seqid,
            v.cachethis,
            status,
            cached_of(nres, body),
        ));
        assert(st.sessions@ == old(st).sessions@.insert(v.sid, now));
        assert(session_kept(old(st).sessions@, st.sessions@, a@, status, nres, body));
    }
}

/// The run after its operation under way moved.
pub open spec fn run_moved(run0: Run, run1: Run, turn: Turn41) -> bool {
    match turn {
        Turn41::Ask(_) => run1.cur == run0.cur && run1 == (Run { ctx: run1.ctx, ..run0 }),
        Turn41::Done(code) => {
            &&& run1.ans@.len() == 0
            &&& run1 == (Run {
                cur: None,
                ans: run1.ans,
                ctx: run1.ctx,
                nres: (run0.nres + 1) as u32,
                done: if code == NFS4_OK {
                    (run0.done + 1) as u32
                } else {
                    run0.done
                },
                status: if code == NFS4_OK {
                    run0.status
                } else {
                    code
                },
                ..run0
            })
        },
        Turn41::DoneFile(range) => {
            &&& run1.ans@.len() == 0
            &&& run1 == (Run {
                cur: None,
                ans: run1.ans,
                ctx: run1.ctx,
                nres: (run0.nres + 1) as u32,
                done: (run0.done + 1) as u32,
                tail: Some(range),
                ..run0
            })
        },
    }
}

/// What evaluating the operation under way does: a step of the operation, which is counted once
/// it ends.
pub open spec fn evaluated(
    run0: Run,
    run1: Run,
    info: SurfaceInfo,
    key: Seq<u8>,
    env: Env,
    pre: State,
    post: State,
    w0: Seq<u8>,
    w1: Seq<u8>,
    turn: Turn41,
) -> bool {
    &&& run_moved(run0, run1, turn)
    &&& exists|mid: State|
        {
            &&& #[trigger] op_stepped(
                (run0.cur->0).0,
                (run0.cur->0).1@,
                run0.ctx@,
                info,
                key,
                env,
                run0.ans@,
                pre,
                mid,
                w0,
                run1.ctx@,
                w1,
                turn,
            )
            &&& post == (if turn is Ask {
                mid
            } else {
                State { ops_served: succ64(mid.ops_served), ..mid }
            })
        }
}

// ---- laws --------------------------------------------------------------------------------------

/// A retry of a compound whose results were kept is answered with the very reply that the first try
/// got, whatever its status, if tag and reply header are the same.
pub proof fn replay_is_the_reply(
    pre: State,
    post: State,
    a: SeqArgs<Seq<u8>>,
    status: u32,
    nres: u32,
    body: Seq<u8>,
    prefix: Seq<u8>,
    tag: Seq<u8>,
)
    requires
        pre.wf(),
        pre.sessions@.contains_key(a.sid),
        a.slot < FORE_SLOTS,
        a.cachethis,
        body.len() % 4 == 0,
        slot_kept(pre, post, a, status, nres, body),
    ensures
        verdict(post, a.sid, a.seqid, a.slot) == Verdict::Replay(
            status,
            cached_of(nres, body),
        ),
        replay_of(prefix, tag, status, cached_of(nres, body)) == reply_of(
            prefix,
            tag,
            status,
            nres,
            body,
        ),
{
    broadcast use be32_len;

    let cached = cached_of(nres, body);
    assert(cached.len() % 4 == 0);
    assert(replay_of(prefix, tag, status, cached) =~= reply_of(prefix, tag, status, nres, body));
}

/// Nothing is evaluated after the first failure: once an operation cannot be looked at or ends with
/// an error, the reply is to be ended, and it carries that status.
pub proof fn nothing_after_a_failure(
    run0: Run,
    run1: Run,
    run2: Run,
    fetch: (Seq<u8>, Seq<u8>, Ts, State, State, Seq<[u8; 16]>, Seq<[u8; 16]>, Seq<u8>, Seq<u8>),
    info: SurfaceInfo,
    key: Seq<u8>,
    env: Env,
    eval: (State, State, Seq<u8>, Seq<u8>),
    code: u32,
)
    ensures
        act_of(run0) == RunAct::Fetch && fetched(
            run0,
            run1,
            fetch.0,
            fetch.1,
            fetch.2,
            fetch.3,
            fetch.4,
            fetch.5,
            fetch.6,
            fetch.7,
            fetch.8,
            Fetch::Stopped,
        ) ==> act_of(run1) == RunAct::Finish && run1.status != NFS4_OK,
        code != NFS4_OK && evaluated(
            run1,
            run2,
            info,
            key,
            env,
            eval.0,
            eval.1,
            eval.2,
            eval.3,
            Turn41::Done(code),
        ) ==> act_of(run2) == RunAct::Finish && run2.status == code,
{
    let (word, s1) = get_u32(fetch.0);
    if let Some(op) = word {
        refusals_are_errors(op, s1, fetch.2, run0.ctx.cfh is Some);
    }
}

/// After a compound on a slot, the slot's next sequence number is the only one that a new
/// request can have: the same number again is a retry, and it is refused if the results were not
/// kept; every other number is out of order.
pub proof fn slot_admits_only_the_next(
    pre: State,
    post: State,
    a: SeqArgs<Seq<u8>>,
    status: u32,
    nres: u32,
    body: Seq<u8>,
    seqid: u32,
)
    requires
        pre.wf(),
        pre.sessions@.contains_key(a.sid),
        a.slot < FORE_SLOTS,
        slot_kept(pre, post, a, status, nres, body),
    ensures
        (verdict(post, a.sid, seqid, a.slot) is Go) == (seqid == succ32(a.seqid)),
        seqid == a.seqid && !a.cachethis ==> verdict(post, a.sid, seqid, a.slot)
            == Verdict::Refused(ERR_RETRY_UNCACHED_REP),
        seqid != a.seqid && seqid != succ32(a.seqid) ==> verdict(post, a.sid, seqid, a.slot)
            == Verdict::Refused(ERR_SEQ_MISORDERED),
{
}

/// A fresh session takes sequence number 1 on each of its slots, and nothing else.
pub proof fn fresh_session_starts_at_one(
    st: State,
    sid: Seq<u8>,
    clientid: u64,
    cb_program: u32,
    slot: u32,
    seqid: u32,
)
    requires
        st.sessions@.contains_key(sid),
        crate::nfs41::state::fresh_session(st.sessions@[sid], sid, clientid, cb_program),
        slot < FORE_SLOTS,
    ensures
        (verdict(st, sid, seqid, slot) is Go) == (seqid == 1),
        seqid != 1 ==> verdict(st, sid, seqid, slot) == Verdict::Refused(ERR_SEQ_MISORDERED),
{
    assert(crate::nfs41::state::fresh_slot(st.sessions@[sid].fore_slots@[slot as int]));
}

} // verus!
