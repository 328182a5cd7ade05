//! Evaluation of one operation of a COMPOUND against the server's state.
use crate::handle::{handle_target, HandleCodec};
use crate::nfs3::fh_bytes;
use crate::nfs41::attrs::put_bitmap;
use crate::nfs41::deleg::{granted, other_bytes, returned, unknown_stateid};
use crate::nfs41::ops::{
    change_in, did41, failed, mode_words, okay, put_chan, put_change, put_head, resolve_stateid,
    resolved, status_number, status_of, step_tree, tree_move, Ctx, Env, Move41, Turn41,
};
use crate::nfs41::ops::{
    change_info, dir_change, end_with, refused_stateid, write_chan_attrs, write_mode_words,
};
use crate::nfs41::request::{
    others_view, Claim, OpReq, OpSpec, OpenHow, ERR_BADHANDLE, ERR_BADSESSION,
    ERR_EXIST, ERR_ISDIR, ERR_NAMETOOLONG, ERR_NOFILEHANDLE, ERR_RESTOREFH, ERR_ROFS,
    ERR_STALE_CLIENTID, ERR_STALE_STATEID, NFS4_OK,
};
use crate::nfs41::state::{
    client_destroyed, exchanged, id_bytes, issued_is_not_stale, known_were_issued, minted_other,
    open_registered, session_created, succ32, succ64, OpenState, State, BACK_SLOTS, FORE_SLOTS,
};
use crate::surface::{attr_in, entry_in, Answer, Ask, CreateKind, NfsError, SurfaceInfo};
use crate::types::{Kind, NodeKey};
use crate::xdr::{grows, Wire, XdrWriter};
use vstd::prelude::*;

verus! {

broadcast use crate::xdr::group_grows;

/// The largest record, as a channel attribute.
pub const RECORD_CAP: u32 = 0x20_0000;

// ---- results -----------------------------------------------------------------------------------

/// The name `mist-hostd`.
pub open spec fn server_name() -> Seq<u8> {
    seq![109u8, 105, 115, 116, 45, 104, 111, 115, 116, 100]
}

/// The name `mist`.
pub open spec fn server_scope() -> Seq<u8> {
    seq![109u8, 105, 115, 116]
}

/// EXCHANGE_ID: the client's numbers, no pNFS, no state protection, the server's names.
pub open spec fn exchange_result(s: Seq<u8>, op: u32, clientid: u64, seqid: u32) -> Seq<u8> {
    put_head(s, op, NFS4_OK).put_u64(clientid).put_u32(seqid).put_u32(0x2_0000).put_u32(0).put_u64(
        0x4D49_5354,
    ).put_opaque(server_name()).put_opaque(server_scope()).put_u32(0)
}

/// CREATE_SESSION: the session, the sequence number and the backchannel flag echoed, and the
/// attributes of both channels.
pub open spec fn session_result(
    s: Seq<u8>,
    op: u32,
    sid: Seq<u8>,
    csa_seq: u32,
    flags: u32,
    max_req: u32,
) -> Seq<u8> {
    put_chan(
        put_chan(
            put_head(s, op, NFS4_OK).put_fixed(sid).put_u32(csa_seq).put_u32(flags & 1),
            if max_req <= RECORD_CAP {
                max_req
            } else {
                RECORD_CAP
            },
            FORE_SLOTS,
        ),
        RECORD_CAP,
        BACK_SLOTS,
    )
}

/// A stateid as a result.
pub open spec fn stateid_result(s: Seq<u8>, op: u32, seq: u32, other: Seq<u8>) -> Seq<u8> {
    put_head(s, op, NFS4_OK).put_u32(seq).put_fixed(other)
}

/// Whether TEST_STATEID knows a stateid: an open or a delegation.
pub open spec fn known_stateid(st: State, other: Seq<u8>) -> bool {
    st.opens@.contains_key(other) || st.is_delegation(other)
}

/// The status of each stateid from the `i`-th on.
pub open spec fn put_tests(s: Seq<u8>, st: State, others: Seq<Seq<u8>>, i: nat) -> Seq<u8>
    decreases others.len() - i,
{
    if i >= others.len() {
        s
    } else {
        put_tests(
            s.put_u32(
                if known_stateid(st, others[i as int]) {
                    NFS4_OK
                } else {
                    unknown_stateid(st, others[i as int])
                },
            ),
            st,
            others,
            i + 1,
        )
    }
}

// ---- operations that need neither the tree nor a change of state ---------------------------------

/// Whether an operation needs nothing of the tree and leaves the server's state alone.
pub open spec fn is_plain(req: OpSpec) -> bool {
    match req {
        OpReq::PutRootFh => true,
        OpReq::PutFh { .. } => true,
        OpReq::GetFh => true,
        OpReq::SaveFh => true,
        OpReq::RestoreFh => true,
        OpReq::SecinfoNoName => true,
        OpReq::ReclaimComplete => true,
        OpReq::BindConn { .. } => true,
        OpReq::TestStateid { .. } => true,
        OpReq::LockKnown { .. } => true,
        OpReq::Lockt => true,
        OpReq::Locku { .. } => true,
        _ => false,
    }
}

pub open spec fn plain_move(
    op: u32,
    req: OpSpec,
    ctx: Ctx<Seq<u8>>,
    info: SurfaceInfo,
    key: Seq<u8>,
    st: State,
    s: Seq<u8>,
) -> Move41 {
    let ok = put_head(s, op, NFS4_OK);
    match req {
        OpReq::PutRootFh => okay(ok, Ctx { cfh: Some((info.share, info.root)), ..ctx }),
        OpReq::PutFh { fh } => match handle_target(key, fh) {
            Some(target) => okay(ok, Ctx { cfh: Some(target), ..ctx }),
            None => failed(s, op, ERR_BADHANDLE, ctx),
        },
        OpReq::GetFh => match ctx.cfh {
            Some((share, node)) => okay(ok.put_opaque(fh_bytes(key, share, node)), ctx),
            None => failed(s, op, ERR_NOFILEHANDLE, ctx),
        },
        OpReq::SaveFh => match ctx.cfh {
            Some(fh) => okay(ok, Ctx { sfh: Some(fh), ..ctx }),
            None => failed(s, op, ERR_NOFILEHANDLE, ctx),
        },
        OpReq::RestoreFh => match ctx.sfh {
            Some(fh) => okay(ok, Ctx { cfh: Some(fh), ..ctx }),
            None => failed(s, op, ERR_RESTOREFH, ctx),
        },
        // The current file is consumed; two flavors, AUTH_SYS and AUTH_NONE.
        OpReq::SecinfoNoName => match ctx.cfh {
            Some(_) => okay(ok.put_u32(2).put_u32(1).put_u32(0), Ctx { cfh: None, ..ctx }),
            None => failed(s, op, ERR_NOFILEHANDLE, ctx),
        },
        OpReq::ReclaimComplete => okay(ok, ctx),
        OpReq::BindConn { sid, dir } => if st.sessions@.contains_key(sid) {
            okay(
                ok.put_fixed(sid).put_u32(
                    if dir < 1 {
                        1
                    } else if dir > 3 {
                        3
                    } else {
                        dir
                    },
                ).put_bool(false),
                ctx,
            )
        } else {
            failed(s, op, ERR_BADSESSION, ctx)
        },
        OpReq::TestStateid { others } => okay(
            put_tests(ok.put_u32(others.len() as u32), st, others, 0),
            ctx,
        ),
        OpReq::LockKnown { other } => if st.locks@.contains_key(other) {
            okay(stateid_result(s, op, 1, other), Ctx { current: Some(other), ..ctx })
        } else {
            failed(s, op, unknown_stateid(st, other), ctx)
        },
        // There is never a conflicting lock.
        OpReq::Lockt => okay(ok, ctx),
        OpReq::Locku { seq, other } => {
            let o = resolved(ctx, seq, other);
            if st.locks@.contains_key(o) {
                okay(stateid_result(s, op, succ32(seq), o), ctx)
            } else {
                failed(s, op, unknown_stateid(st, o), ctx)
            }
        },
        _ => failed(s, op, ERR_NOFILEHANDLE, ctx),
    }
}

fn write_stateid(out: &mut XdrWriter, op: u32, seq: u32, other: &[u8; 12]) -> (turn: Turn41)
    ensures
        grows(old(out)@, final(out)@),
        final(out)@ == stateid_result(old(out)@, op, seq, other@),
        turn == Turn41::Done(NFS4_OK),
{
    out.u32(op);
    out.u32(NFS4_OK);
    out.u32(seq);
    out.fixed(other.as_slice());
    Turn41::Done(NFS4_OK)
}

fn write_tests(out: &mut XdrWriter, op: u32, others: &Vec<[u8; 12]>, st: &State) -> (turn: Turn41)
    requires
        st.wf(),
    ensures
        grows(old(out)@, final(out)@),
        final(out)@ == put_tests(
            put_head(old(out)@, op, NFS4_OK).put_u32(others@.len() as u32),
            *st,
            others_view(others@),
            0,
        ),
        turn == Turn41::Done(NFS4_OK),
{
    out.u32(op);
    out.u32(NFS4_OK);
    out.u32(#[verifier::truncate] (others.len() as u32));
    let ghost list = others_view(others@);
    let ghost whole = put_tests(out@, *st, list, 0);
    let mut i: usize = 0;
    while i < others.len()
        invariant
            st.wf(),
            i <= others@.len(),
            list == others_view(others@),
            whole == put_tests(out@, *st, list, i as nat),
            grows(old(out)@, out@),
        decreases others@.len() - i,
    {
        let other = &others[i];
        let known = st.opens.contains(other) || st.delegation_row(other).is_some();
        out.u32(
            if known {
                NFS4_OK
            } else {
                refused_stateid(st, other)
            },
        );
        i = i + 1;
    }
    Turn41::Done(NFS4_OK)
}

/// The operations on current and saved files.
fn eval_plain(
    op: u32,
    req: &OpReq,
    ctx: &mut Ctx,
    info: &SurfaceInfo,
    codec: &HandleCodec,
    st: &State,
    out: &mut XdrWriter,
) -> (turn: Turn41)
    requires
        st.wf(),
        is_plain(req@),
    ensures
        grows(old(out)@, final(out)@),
        did41(
            plain_move(op, req@, old(ctx)@, *info, codec.key(), *st, old(out)@),
            turn,
            old(out)@,
            final(out)@,
            old(ctx)@,
            final(ctx)@,
        ),
{
    match req {
        OpReq::PutRootFh => {
            ctx.cfh = Some((info.share, info.root));
            end_with(out, op, NFS4_OK)
        },
        OpReq::PutFh { fh } => match codec.decode(fh.as_slice()) {
            Some(target) => {
                ctx.cfh = Some(target);
                end_with(out, op, NFS4_OK)
            },
            None => end_with(out, op, ERR_BADHANDLE),
        },
        OpReq::GetFh => match ctx.cfh {
            Some((share, node)) => {
                out.u32(op);
                out.u32(NFS4_OK);
                out.opaque(codec.encode(share, node).as_slice());
                Turn41::Done(NFS4_OK)
            },
            None => end_with(out, op, ERR_NOFILEHANDLE),
        },
        OpReq::SaveFh => match ctx.cfh {
            Some(fh) => {
                ctx.sfh = Some(fh);
                end_with(out, op, NFS4_OK)
            },
            None => end_with(out, op, ERR_NOFILEHANDLE),
        },
        OpReq::RestoreFh => match ctx.sfh {
            Some(fh) => {
                ctx.cfh = Some(fh);
                end_with(out, op, NFS4_OK)
            },
            None => end_with(out, op, ERR_RESTOREFH),
        },
        OpReq::SecinfoNoName => match ctx.cfh {
            Some(_) => {
                ctx.cfh = None;
                out.u32(op);
                out.u32(NFS4_OK);
                out.u32(2);
                out.u32(1);
                out.u32(0);
                Turn41::Done(NFS4_OK)
            },
            None => end_with(out, op, ERR_NOFILEHANDLE),
        },
        OpReq::ReclaimComplete => end_with(out, op, NFS4_OK),
        OpReq::BindConn { sid, dir } => {
            if !st.sessions.contains(sid) {
                return end_with(out, op, ERR_BADSESSION);
            }
            out.u32(op);
            out.u32(NFS4_OK);
            out.fixed(sid.as_slice());
            out.u32(
                if *dir < 1 {
                    1
                } else if *dir > 3 {
                    3
                } else {
                    *dir
                },
            );
            out.bool(false);
            Turn41::Done(NFS4_OK)
        },
        OpReq::TestStateid { others } => write_tests(out, op, others, st),
        OpReq::LockKnown { other } => {
            if !st.locks.contains(other) {
                return end_with(out, op, refused_stateid(st, other));
            }
            ctx.current = Some(*other);
            write_stateid(out, op, 1, other)
        },
        OpReq::Lockt => end_with(out, op, NFS4_OK),
        OpReq::Locku { seq, other } => {
            let o = resolve_stateid(ctx, *seq, other);
            if !st.locks.contains(&o) {
                return end_with(out, op, refused_stateid(st, &o));
            }
            write_stateid(out, op, seq.wrapping_add(1), &o)
        },
        _ => end_with(out, op, ERR_NOFILEHANDLE),
    }
}

// ---- OPEN --------------------------------------------------------------------------------------

/// What an OPEN has found out about its file so far.
pub enum Found<B = Vec<u8>> {
    Ask(Ask<B>),
    Fail(u32),
    /// The file, how its directory's change attribute moved, and whether the file was created.
    File { node: NodeKey, before: u64, after: u64, created: bool },
}

/// OPEN by name: an existing file is opened, unless it is a directory or the creation is guarded,
/// and truncated first where the creation sets its size to zero; a missing one is created where
/// the OPEN creates.
pub open spec fn open_by_name(
    dir: NodeKey,
    name: Seq<u8>,
    how: OpenHow,
    writable: bool,
    ans: Seq<Answer>,
) -> Found<Seq<u8>> {
    if name.len() > 255 {
        Found::Fail(ERR_NAMETOOLONG)
    } else if ans.len() == 0 {
        Found::Ask(Ask::Getattr(dir))
    } else if ans.len() == 1 {
        Found::Ask(Ask::Lookup { dir, name })
    } else {
        let before = change_in(ans[0]);
        match entry_in(ans[1]) {
            Ok((node, attr)) => if attr.kind == Kind::Dir {
                Found::Fail(ERR_ISDIR)
            } else if how.create && how.guarded {
                Found::Fail(ERR_EXIST)
            } else if how.attrs is Some && how.attrs->0.size == Some(0u64) {
                if !writable {
                    Found::Fail(ERR_ROFS)
                } else if ans.len() == 2 {
                    Found::Ask(Ask::Setattr { node, set: how.attrs->0 })
                } else {
                    match attr_in(ans[2]) {
                        Err(e) => Found::Fail(status_number(e)),
                        Ok(_) => if ans.len() == 3 {
                            Found::Ask(Ask::Getattr(dir))
                        } else {
                            Found::File { node, before, after: change_in(ans[3]), created: false }
                        },
                    }
                }
            } else if ans.len() == 2 {
                Found::Ask(Ask::Getattr(dir))
            } else {
                Found::File { node, before, after: change_in(ans[2]), created: false }
            },
            Err(e) => if e == NfsError::NoEnt && how.create {
                if !writable {
                    Found::Fail(ERR_ROFS)
                } else if ans.len() == 2 {
                    Found::Ask(
                        Ask::Create {
                            dir,
                            name,
                            kind: CreateKind::File { exclusive: how.exclusive },
                            mode: match how.attrs {
                                Some(sa) => match sa.mode {
                                    Some(m) => m,
                                    None => 0o644,
                                },
                                None => 0o644,
                            },
                        },
                    )
                } else {
                    match entry_in(ans[2]) {
                        Err(e2) => Found::Fail(status_number(e2)),
                        Ok((node, _)) => if ans.len() == 3 {
                            Found::Ask(Ask::Getattr(dir))
                        } else {
                            Found::File { node, before, after: change_in(ans[3]), created: true }
                        },
                    }
                }
            } else {
                Found::Fail(status_number(e))
            },
        }
    }
}

pub open spec fn open_found(
    fh: NodeKey,
    how: OpenHow,
    claim: Claim<Seq<u8>>,
    writable: bool,
    ans: Seq<Answer>,
) -> Found<Seq<u8>> {
    match claim {
        Claim::Null { name } => open_by_name(fh, name, how, writable, ans),
        Claim::File => Found::File { node: fh, before: 0, after: 0, created: false },
        Claim::DelegateCur { name } => if ans.len() == 0 {
            Found::Ask(Ask::Lookup { dir: fh, name })
        } else {
            match entry_in(ans[0]) {
                Ok((node, _)) => Found::File { node, before: 0, after: 0, created: false },
                Err(e) => Found::Fail(status_number(e)),
            }
        },
    }
}

/// That `f` is what `m` says.
pub open spec fn found_is(f: Found, m: Found<Seq<u8>>) -> bool {
    match m {
        Found::Ask(ask) => f is Ask && f->Ask_0@ == ask,
        Found::Fail(st) => f == Found::<Vec<u8>>::Fail(st),
        Found::File { node, before, after, created } => f == (Found::<Vec<u8>>::File {
            node,
            before,
            after,
            created,
        }),
    }
}

fn find_existing(
    dir: NodeKey,
    node: NodeKey,
    how: &OpenHow,
    writable: bool,
    ans: &Vec<Answer>,
    Ghost(name): Ghost<Seq<u8>>,
) -> (f: Found)
    requires
        ans@.len() >= 2,
        name.len() <= 255,
        entry_in(ans@[1]) is Ok,
        entry_in(ans@[1])->Ok_0.0 == node,
        entry_in(ans@[1])->Ok_0.1.kind != Kind::Dir,
        !(how.create && how.guarded),
    ensures
        found_is(f, open_by_name(dir, name, *how, writable, ans@)),
        f is Fail ==> f->Fail_0 != NFS4_OK,
{
    let before: u64 = dir_change(&ans[0]);
    if let Some(sa) = how.attrs {
        if let Some(size) = sa.size {
            if size == 0 {
                if !writable {
                    return Found::Fail(ERR_ROFS);
                }
                if ans.len() == 2 {
                    return Found::Ask(Ask::Setattr { node, set: sa });
                }
                if let Err(e) = ans[2].attr() {
                    return Found::Fail(status_of(e));
                }
                if ans.len() == 3 {
                    return Found::Ask(Ask::Getattr(dir));
                }
                return Found::File { node, before, after: dir_change(&ans[3]), created: false };
            }
        }
    }
    if ans.len() == 2 {
        return Found::Ask(Ask::Getattr(dir));
    }
    Found::File { node, before, after: dir_change(&ans[2]), created: false }
}

fn find_by_name(
    dir: NodeKey,
    name: &Vec<u8>,
    how: &OpenHow,
    writable: bool,
    ans: &Vec<Answer>,
) -> (f: Found)
    ensures
        found_is(f, open_by_name(dir, name@, *how, writable, ans@)),
        f is Fail ==> f->Fail_0 != NFS4_OK,
{
    if name.len() > 255 {
        return Found::Fail(ERR_NAMETOOLONG);
    }
    if ans.len() == 0 {
        return Found::Ask(Ask::Getattr(dir));
    }
    if ans.len() == 1 {
        return Found::Ask(Ask::Lookup { dir, name: name.clone() });
    }
    match ans[1].entry() {
        Ok((node, attr)) => {
            if attr.kind == Kind::Dir {
                return Found::Fail(ERR_ISDIR);
            }
            if how.create && how.guarded {
                return Found::Fail(ERR_EXIST);
            }
            find_existing(dir, node, how, writable, ans, Ghost(name@))
        },
        Err(e) => {
            if e != NfsError::NoEnt || !how.create {
                return Found::Fail(status_of(e));
            }
            if !writable {
                return Found::Fail(ERR_ROFS);
            }
            if ans.len() == 2 {
                let mode: u16 = match how.attrs {
                    Some(sa) => match sa.mode {
                        Some(m) => m,
                        None => 0o644,
                    },
                    None => 0o644,
                };
                return Found::Ask(
                    Ask::Create {
                        dir,
                        name: name.clone(),
                        kind: CreateKind::File { exclusive: how.exclusive },
                        mode,
                    },
                );
            }
            match ans[2].entry() {
                Err(e2) => Found::Fail(status_of(e2)),
                Ok((node, _)) => {
                    if ans.len() == 3 {
                        return Found::Ask(Ask::Getattr(dir));
                    }
                    let before: u64 = dir_change(&ans[0]);
                    Found::File { node, before, after: dir_change(&ans[3]), created: true }
                },
            }
        },
    }
}

fn find_file(
    fh: NodeKey,
    how: &OpenHow,
    claim: &Claim,
    writable: bool,
    ans: &Vec<Answer>,
) -> (f: Found)
    ensures
        found_is(f, open_found(fh, *how, claim@, writable, ans@)),
        f is Fail ==> f->Fail_0 != NFS4_OK,
{
    match claim {
        Claim::Null { name } => find_by_name(fh, name, how, writable, ans),
        Claim::File => Found::File { node: fh, before: 0, after: 0, created: false },
        Claim::DelegateCur { name } => {
            if ans.len() == 0 {
                return Found::Ask(Ask::Lookup { dir: fh, name: name.clone() });
            }
            match ans[0].entry() {
                Ok((node, _)) => Found::File { node, before: 0, after: 0, created: false },
                Err(e) => Found::Fail(status_of(e)),
            }
        },
    }
}

/// The access control entry's subject, `EVERYONE@`.
pub open spec fn everyone() -> Seq<u8> {
    seq![69u8, 86, 69, 82, 89, 79, 78, 69, 64]
}

/// OPEN: the stateid, how the directory changed, the attributes set, and a read delegation where
/// one was granted.
pub open spec fn open_result(
    s: Seq<u8>,
    op: u32,
    seq: u32,
    other: Seq<u8>,
    before: u64,
    after: u64,
    created: bool,
    deleg: Option<Seq<u8>>,
) -> Seq<u8> {
    let body = put_bitmap(
        put_change(stateid_result(s, op, seq, other), before, after).put_u32(4),
        mode_words(created),
    );
    match deleg {
        Some(d) => body.put_u32(1).put_u32(1).put_fixed(d).put_bool(false).put_u32(0).put_u32(
            0,
        ).put_u32(0).put_opaque(everyone()),
        None => body.put_u32(0),
    }
}

fn write_open(
    out: &mut XdrWriter,
    op: u32,
    seq: u32,
    other: &[u8; 12],
    before: u64,
    after: u64,
    created: bool,
    deleg: Option<[u8; 12]>,
)
    ensures
        grows(old(out)@, final(out)@),
        final(out)@ == open_result(
            old(out)@,
            op,
            seq,
            other@,
            before,
            after,
            created,
            other_bytes(deleg),
        ),
{
    let _turn = write_stateid(out, op, seq, other);
    change_info(out, before, after);
    out.u32(4);
    write_mode_words(out, created);
    match deleg {
        Some(d) => {
            let who: [u8; 9] = [69, 86, 69, 82, 89, 79, 78, 69, 64];
            proof {
                assert(who@ =~= everyone());
            }
            out.u32(1);
            out.u32(1);
            out.fixed(d.as_slice());
            out.bool(false);
            out.u32(0);
            out.u32(0);
            out.u32(0);
            out.opaque(who.as_slice());
        },
        None => out.u32(0),
    }
}

/// What opening a file makes of the state: the open is recorded, and a delegation granted where
/// the policy allows.
pub open spec fn opened(
    pre: State,
    post: State,
    node: NodeKey,
    owner: Seq<u8>,
    share_access: u32,
    created: bool,
    now: u64,
    sid: (Seq<u8>, u32),
    deleg: Option<Seq<u8>>,
) -> bool {
    exists|mid: State|
        {
            &&& #[trigger] open_registered(pre, mid, node, owner, share_access, sid)
            &&& granted(mid, post, node, share_access, created, now, deleg)
        }
}

/// What an OPEN does.
pub open spec fn open_stepped(
    op: u32,
    share_access: u32,
    owner: Seq<u8>,
    how: OpenHow,
    claim: Claim<Seq<u8>>,
    ctx0: Ctx<Seq<u8>>,
    writable: bool,
    now: u64,
    ans: Seq<Answer>,
    pre: State,
    post: State,
    s: Seq<u8>,
    ctx1: Ctx<Seq<u8>>,
    out1: Seq<u8>,
    turn: Turn41,
) -> bool {
    if ctx0.cfh is None {
        post == pre && did41(failed(s, op, ERR_NOFILEHANDLE, ctx0), turn, s, out1, ctx0, ctx1)
    } else {
        let (share, fh) = ctx0.cfh->0;
        match open_found(fh, how, claim, writable, ans) {
            Found::Ask(ask) => post == pre && did41(Move41::Ask(ask), turn, s, out1, ctx0, ctx1),
            Found::Fail(st) => post == pre && did41(
                failed(s, op, st, ctx0),
                turn,
                s,
                out1,
                ctx0,
                ctx1,
            ),
            Found::File { node, before, after, created } => {
                exists|sid: (Seq<u8>, u32), deleg: Option<Seq<u8>>|
                    {
                        &&& #[trigger] opened(
                            pre,
                            post,
                            node,
                            owner,
                            share_access,
                            created,
                            now,
                            sid,
                            deleg,
                        )
                        &&& out1 == open_result(
                            s,
                            op,
                            sid.1,
                            sid.0,
                            before,
                            after,
                            created,
                            deleg,
                        )
                        &&& ctx1 == (Ctx {
                            cfh: Some((share, node)),
                            current: Some(sid.0),
                            ..ctx0
                        })
                        &&& turn == Turn41::Done(NFS4_OK)
                    }
            },
        }
    }
}

// ---- operations that change the state ------------------------------------------------------------

/// Close a file: its record goes.
pub open spec fn closed(pre: State, post: State, other: Seq<u8>) -> bool {
    &&& post.opens@ == pre.opens@.remove(other)
    &&& post == (State { opens: post.opens, ..pre })
}

/// Downgrade an open: the access is replaced and the sequence number moves on.
pub open spec fn downgraded(pre: State, post: State, other: Seq<u8>, access: u32) -> bool {
    let was = pre.opens@[other];
    &&& post.opens@ == pre.opens@.insert(
        other,
        OpenState { seqid: succ32(was.seqid), share_access: access & 3, ..was },
    )
    &&& post == (State { opens: post.opens, ..pre })
}

/// Free a stateid: its open or lock record goes.
pub open spec fn freed(pre: State, post: State, other: Seq<u8>) -> bool {
    &&& post.opens@ == pre.opens@.remove(other)
    &&& post.locks@ == pre.locks@.remove(other)
    &&& post == (State { opens: post.opens, locks: post.locks, ..pre })
}

/// Lock a file for a new owner: a fresh stateid is minted for the file.
pub open spec fn locked(pre: State, post: State, node: NodeKey, lock: Seq<u8>) -> bool {
    &&& lock == minted_other(pre.next_other, 3, pre.boot_verifier@)
    &&& post.locks@ == pre.locks@.insert(lock, node)
    &&& post == (State { locks: post.locks, next_other: succ64(pre.next_other), ..pre })
}

/// Destroy a session: it goes, and its backchannel with it.
pub open spec fn session_dropped(pre: State, post: State, sid: Seq<u8>) -> bool {
    &&& post.sessions@ == pre.sessions@.remove(sid)
    &&& post.backchannels@ == pre.backchannels@.remove(sid)
    &&& post == (State { sessions: post.sessions, backchannels: post.backchannels, ..pre })
}

/// What an EXCHANGE_ID does.
pub open spec fn exchange_stepped(
    op: u32,
    verifier: Seq<u8>,
    owner: Seq<u8>,
    ctx0: Ctx<Seq<u8>>,
    pre: State,
    post: State,
    s: Seq<u8>,
    ctx1: Ctx<Seq<u8>>,
    out1: Seq<u8>,
    turn: Turn41,
) -> bool {
    exists|res: (u64, u32)| #[trigger]
        exchanged(pre, post, owner, verifier, res) && did41(
            okay(exchange_result(s, op, res.0, res.1), ctx0),
            turn,
            s,
            out1,
            ctx0,
            ctx1,
        )
}

/// What a CREATE_SESSION does.
pub open spec fn session_stepped(
    op: u32,
    clientid: u64,
    csa_seq: u32,
    flags: u32,
    max_req: u32,
    cb_program: u32,
    nonce: u64,
    ctx0: Ctx<Seq<u8>>,
    pre: State,
    post: State,
    s: Seq<u8>,
    ctx1: Ctx<Seq<u8>>,
    out1: Seq<u8>,
    turn: Turn41,
) -> bool {
    exists|res: Option<Seq<u8>>| #[trigger]
        session_created(pre, post, clientid, cb_program, nonce, res) && did41(
            match res {
                Some(sid) => okay(session_result(s, op, sid, csa_seq, flags, max_req), ctx0),
                None => failed(s, op, ERR_STALE_CLIENTID, ctx0),
            },
            turn,
            s,
            out1,
            ctx0,
            ctx1,
        )
}

/// What a DELEGRETURN does.
pub open spec fn return_stepped(
    op: u32,
    other: Seq<u8>,
    now: u64,
    ctx0: Ctx<Seq<u8>>,
    pre: State,
    post: State,
    s: Seq<u8>,
    ctx1: Ctx<Seq<u8>>,
    out1: Seq<u8>,
    turn: Turn41,
) -> bool {
    exists|st: u32| #[trigger]
        returned(pre, post, other, now, st) && did41(
            failed(s, op, st, ctx0),
            turn,
            s,
            out1,
            ctx0,
            ctx1,
        )
}

/// What one step of an operation does, to the state, to the context and to the reply.
pub open spec fn op_stepped(
    op: u32,
    req: OpSpec,
    ctx0: Ctx<Seq<u8>>,
    info: SurfaceInfo,
    key: Seq<u8>,
    env: Env,
    ans: Seq<Answer>,
    pre: State,
    post: State,
    s: Seq<u8>,
    ctx1: Ctx<Seq<u8>>,
    out1: Seq<u8>,
    turn: Turn41,
) -> bool {
    match req {
        OpReq::ExchangeId { verifier, owner } => exchange_stepped(
            op,
            verifier,
            owner,
            ctx0,
            pre,
            post,
            s,
            ctx1,
            out1,
            turn,
        ),
        OpReq::CreateSession { clientid, csa_seq, flags, max_req, cb_program } => {
            session_stepped(
                op,
                clientid,
                csa_seq,
                flags,
                max_req,
                cb_program,
                env.nonce,
                ctx0,
                pre,
                post,
                s,
                ctx1,
                out1,
                turn,
            )
        },
        OpReq::DestroySession { sid } => if pre.sessions@.contains_key(sid) {
            session_dropped(pre, post, sid) && did41(
                okay(put_head(s, op, NFS4_OK), ctx0),
                turn,
                s,
                out1,
                ctx0,
                ctx1,
            )
        } else {
            post == pre && did41(failed(s, op, ERR_BADSESSION, ctx0), turn, s, out1, ctx0, ctx1)
        },
        OpReq::DestroyClientid { clientid } => {
            let known = pre.clients@.contains_key(clientid);
            client_destroyed(pre, post, clientid, known) && did41(
                if known {
                    okay(put_head(s, op, NFS4_OK), ctx0)
                } else {
                    failed(s, op, ERR_STALE_CLIENTID, ctx0)
                },
                turn,
                s,
                out1,
                ctx0,
                ctx1,
            )
        },
        OpReq::Close { seq, other } => {
            let o = resolved(ctx0, seq, other);
            if pre.opens@.contains_key(o) {
                closed(pre, post, o) && did41(
                    okay(stateid_result(s, op, succ32(seq), o), ctx0),
                    turn,
                    s,
                    out1,
                    ctx0,
                    ctx1,
                )
            } else {
                post == pre && did41(
                    failed(s, op, unknown_stateid(pre, o), ctx0),
                    turn,
                    s,
                    out1,
                    ctx0,
                    ctx1,
                )
            }
        },
        OpReq::OpenDowngrade { seq, other, access } => {
            let o = resolved(ctx0, seq, other);
            if pre.opens@.contains_key(o) {
                downgraded(pre, post, o, access) && did41(
                    okay(stateid_result(s, op, succ32(pre.opens@[o].seqid), o), ctx0),
                    turn,
                    s,
                    out1,
                    ctx0,
                    ctx1,
                )
            } else {
                post == pre && did41(
                    failed(s, op, unknown_stateid(pre, o), ctx0),
                    turn,
                    s,
                    out1,
                    ctx0,
                    ctx1,
                )
            }
        },
        OpReq::DelegReturn { other } => return_stepped(
            op,
            other,
            env.now,
            ctx0,
            pre,
            post,
            s,
            ctx1,
            out1,
            turn,
        ),
        OpReq::FreeStateid { other } => freed(pre, post, other) && did41(
            okay(put_head(s, op, NFS4_OK), ctx0),
            turn,
            s,
            out1,
            ctx0,
            ctx1,
        ),
        OpReq::LockNew { seq, other } => {
            let o = resolved(ctx0, seq, other);
            let lock = minted_other(pre.next_other, 3, pre.boot_verifier@);
            if pre.opens@.contains_key(o) {
                locked(pre, post, pre.opens@[o].node, lock) && did41(
                    okay(stateid_result(s, op, 1, lock), Ctx { current: Some(lock), ..ctx0 }),
                    turn,
                    s,
                    out1,
                    ctx0,
                    ctx1,
                )
            } else {
                post == pre && did41(
                    failed(s, op, unknown_stateid(pre, o), ctx0),
                    turn,
                    s,
                    out1,
                    ctx0,
                    ctx1,
                )
            }
        },
        OpReq::Open { share_access, owner, how, claim } => open_stepped(
            op,
            share_access,
            owner,
            how,
            claim,
            ctx0,
            info.writable,
            env.now,
            ans,
            pre,
            post,
            s,
            ctx1,
            out1,
            turn,
        ),
        _ => post == pre && did41(
            if is_plain(req) {
                plain_move(op, req, ctx0, info, key, pre, s)
            } else {
                tree_move(op, req, ctx0, info, key, pre, ans, s)
            },
            turn,
            s,
            out1,
            ctx0,
            ctx1,
        ),
    }
}

fn eval_exchange_id(
    op: u32,
    verifier: &[u8; 8],
    owner: &Vec<u8>,
    ctx: &mut Ctx,
    info: &SurfaceInfo,
    codec: &HandleCodec,
    env: &Env,
    st: &mut State,
    ans: &Vec<Answer>,
    out: &mut XdrWriter,
) -> (turn: Turn41)
    requires
        old(st).wf(),
    ensures
        grows(old(out)@, final(out)@),
        final(st).wf(),
        op_stepped(
            op,
            OpReq::ExchangeId { verifier: verifier@, owner: owner@ },
            old(ctx)@,
            *info,
            codec.key(),
            *env,
            ans@,
            *old(st),
            *final(st),
            old(out)@,
            final(ctx)@,
            final(out)@,
            turn,
        ),
{
    let res = st.exchange_id(owner.as_slice(), *verifier);
    let name: [u8; 10] = [109, 105, 115, 116, 45, 104, 111, 115, 116, 100];
    let scope: [u8; 4] = [109, 105, 115, 116];
    proof {
        assert(name@ =~= server_name());
        assert(scope@ =~= server_scope());
    }
    out.u32(op);
    out.u32(NFS4_OK);
    out.u64(res.0);
    out.u32(res.1);
    out.u32(0x2_0000);
    out.u32(0);
    out.u64(0x4D49_5354);
    out.opaque(name.as_slice());
    out.opaque(scope.as_slice());
    out.u32(0);
    proof {
        assert(exchanged(*old(st), *st, owner@, verifier@, res));
        assert(op_stepped(
            op,
            OpReq::ExchangeId { verifier: verifier@, owner: owner@ },
            old(ctx)@,
            *info,
            codec.key(),
            *env,
            ans@,
            *old(st),
            *st,
            old(out)@,
            ctx@,
            out@,
            Turn41::Done(NFS4_OK),
        ));
    }
    Turn41::Done(NFS4_OK)
}

fn eval_create_session(
    op: u32,
    clientid: u64,
    csa_seq: u32,
    flags: u32,
    max_req: u32,
    cb_program: u32,
    ctx: &mut Ctx,
    info: &SurfaceInfo,
    codec: &HandleCodec,
    env: &Env,
    st: &mut State,
    ans: &Vec<Answer>,
    out: &mut XdrWriter,
) -> (turn: Turn41)
    requires
        old(st).wf(),
    ensures
        grows(old(out)@, final(out)@),
        final(st).wf(),
        op_stepped(
            op,
            OpReq::CreateSession { clientid, csa_seq, flags, max_req, cb_program },
            old(ctx)@,
            *info,
            codec.key(),
            *env,
            ans@,
            *old(st),
            *final(st),
            old(out)@,
            final(ctx)@,
            final(out)@,
            turn,
        ),
{
    let res = st.create_session(clientid, cb_program, env.nonce);
    proof {
        assert(session_created(
            *old(st),
            *st,
            clientid,
            cb_program,
            env.nonce,
            id_bytes(res),
        ));
    }
    match res {
        Some(sid) => {
            out.u32(op);
            out.u32(NFS4_OK);
            out.fixed(sid.as_slice());
            out.u32(csa_seq);
            out.u32(flags & 1);
            write_chan_attrs(
                out,
                if max_req <= RECORD_CAP {
                    max_req
                } else {
                    RECORD_CAP
                },
                FORE_SLOTS,
            );
            write_chan_attrs(out, RECORD_CAP, BACK_SLOTS);
            proof {
                assert(id_bytes(res) == Some(sid@));
                assert(op_stepped(
                    op,
                    OpReq::CreateSession { clientid, csa_seq, flags, max_req, cb_program },
                    old(ctx)@,
                    *info,
                    codec.key(),
                    *env,
                    ans@,
                    *old(st),
                    *st,
                    old(out)@,
                    ctx@,
                    out@,
                    Turn41::Done(NFS4_OK),
                ));
            }
            Turn41::Done(NFS4_OK)
        },
        None => {
            let turn = end_with(out, op, ERR_STALE_CLIENTID);
            proof {
                assert(id_bytes(res) == None::<Seq<u8>>);
                assert(op_stepped(
                    op,
                    OpReq::CreateSession { clientid, csa_seq, flags, max_req, cb_program },
                    old(ctx)@,
                    *info,
                    codec.key(),
                    *env,
                    ans@,
                    *old(st),
                    *st,
                    old(out)@,
                    ctx@,
                    out@,
                    turn,
                ));
            }
            turn
        },
    }
}

fn eval_destroy_session(
    op: u32,
    sid: &[u8; 16],
    ctx: &mut Ctx,
    info: &SurfaceInfo,
    codec: &HandleCodec,
    env: &Env,
    st: &mut State,
    ans: &Vec<Answer>,
    out: &mut XdrWriter,
) -> (turn: Turn41)
    requires
        old(st).wf(),
    ensures
        grows(old(out)@, final(out)@),
        final(st).wf(),
        op_stepped(
            op,
            OpReq::DestroySession { sid: sid@ },
            old(ctx)@,
            *info,
            codec.key(),
            *env,
            ans@,
            *old(st),
            *final(st),
            old(out)@,
            final(ctx)@,
            final(out)@,
            turn,
        ),
{
    if !st.sessions.contains(sid) {
        return end_with(out, op, ERR_BADSESSION);
    }
    let _gone = st.sessions.remove(sid);
    let _back = st.backchannels.remove(sid);
    end_with(out, op, NFS4_OK)
}

fn eval_destroy_client(
    op: u32,
    clientid: u64,
    ctx: &mut Ctx,
    info: &SurfaceInfo,
    codec: &HandleCodec,
    env: &Env,
    st: &mut State,
    ans: &Vec<Answer>,
    out: &mut XdrWriter,
) -> (turn: Turn41)
    requires
        old(st).wf(),
    ensures
        grows(old(out)@, final(out)@),
        final(st).wf(),
        op_stepped(
            op,
            OpReq::DestroyClientid { clientid },
            old(ctx)@,
            *info,
            codec.key(),
            *env,
            ans@,
            *old(st),
            *final(st),
            old(out)@,
            final(ctx)@,
            final(out)@,
            turn,
        ),
{
    if st.destroy_client(clientid) {
        end_with(out, op, NFS4_OK)
    } else {
        end_with(out, op, ERR_STALE_CLIENTID)
    }
}

fn eval_close(
    op: u32,
    seq: u32,
    other: &[u8; 12],
    ctx: &mut Ctx,
    info: &SurfaceInfo,
    codec: &HandleCodec,
    env: &Env,
    st: &mut State,
    ans: &Vec<Answer>,
    out: &mut XdrWriter,
) -> (turn: Turn41)
    requires
        old(st).wf(),
    ensures
        grows(old(out)@, final(out)@),
        final(st).wf(),
        op_stepped(
            op,
            OpReq::Close { seq, other: other@ },
            old(ctx)@,
            *info,
            codec.key(),
            *env,
            ans@,
            *old(st),
            *final(st),
            old(out)@,
            final(ctx)@,
            final(out)@,
            turn,
        ),
{
    let o = resolve_stateid(ctx, seq, other);
    if !st.opens.contains(&o) {
        return end_with(out, op, refused_stateid(st, &o));
    }
    let _gone = st.opens.remove(&o);
    proof {
        assert forall|a: Seq<u8>, b: Seq<u8>|
            #![trigger st.opens@[a], st.opens@[b]]
            st.opens@.contains_key(a) && st.opens@.contains_key(b) && st.opens@[a].node
                == st.opens@[b].node && st.opens@[a].owner@ == st.opens@[b].owner@ implies a == b by {
            let oa = old(st).opens@[a];
            let ob = old(st).opens@[b];
        }
    }
    write_stateid(out, op, seq.wrapping_add(1), &o)
}

fn eval_downgrade(
    op: u32,
    seq: u32,
    other: &[u8; 12],
    access: u32,
    ctx: &mut Ctx,
    info: &SurfaceInfo,
    codec: &HandleCodec,
    env: &Env,
    st: &mut State,
    ans: &Vec<Answer>,
    out: &mut XdrWriter,
) -> (turn: Turn41)
    requires
        old(st).wf(),
    ensures
        grows(old(out)@, final(out)@),
        final(st).wf(),
        op_stepped(
            op,
            OpReq::OpenDowngrade { seq, other: other@, access },
            old(ctx)@,
            *info,
            codec.key(),
            *env,
            ans@,
            *old(st),
            *final(st),
            old(out)@,
            final(ctx)@,
            final(out)@,
            turn,
        ),
{
    let o = resolve_stateid(ctx, seq, other);
    let was = match st.opens.remove(&o) {
        Some(os) => os,
        None => {
            return end_with(out, op, refused_stateid(st, &o));
        },
    };
    let ghost before = was;
    let next: u32 = was.seqid.wrapping_add(1);
    let os = OpenState {
        node: was.node,
        seqid: next,
        share_access: access & 3,
        owner: was.owner,
    };
    let _none = st.opens.insert(o, os);
    proof {
        assert(st.opens@ =~= old(st).opens@.insert(
            o@,
            OpenState { seqid: succ32(before.seqid), share_access: access & 3, ..before },
        ));
    }
    proof {
        assert forall|a: Seq<u8>, b: Seq<u8>|
            #![trigger st.opens@[a], st.opens@[b]]
            st.opens@.contains_key(a) && st.opens@.contains_key(b) && st.opens@[a].node
                == st.opens@[b].node && st.opens@[a].owner@ == st.opens@[b].owner@ implies a == b by {
            let oa = old(st).opens@[a];
            let ob = old(st).opens@[b];
        }
    }
    write_stateid(out, op, next, &o)
}

fn eval_delegreturn(
    op: u32,
    other: &[u8; 12],
    ctx: &mut Ctx,
    info: &SurfaceInfo,
    codec: &HandleCodec,
    env: &Env,
    st: &mut State,
    ans: &Vec<Answer>,
    out: &mut XdrWriter,
) -> (turn: Turn41)
    requires
        old(st).wf(),
    ensures
        grows(old(out)@, final(out)@),
        final(st).wf(),
        op_stepped(
            op,
            OpReq::DelegReturn { other: other@ },
            old(ctx)@,
            *info,
            codec.key(),
            *env,
            ans@,
            *old(st),
            *final(st),
            old(out)@,
            final(ctx)@,
            final(out)@,
            turn,
        ),
{
    let code: u32 = st.delegreturn(other, env.now);
    proof {
        assert(returned(*old(st), *st, other@, env.now, code));
    }
    let turn = end_with(out, op, code);
    proof {
        assert(op_stepped(
            op,
            OpReq::DelegReturn { other: other@ },
            old(ctx)@,
            *info,
            codec.key(),
            *env,
            ans@,
            *old(st),
            *st,
            old(out)@,
            ctx@,
            out@,
            turn,
        ));
    }
    turn
}

fn eval_free_stateid(
    op: u32,
    other: &[u8; 12],
    ctx: &mut Ctx,
    info: &SurfaceInfo,
    codec: &HandleCodec,
    env: &Env,
    st: &mut State,
    ans: &Vec<Answer>,
    out: &mut XdrWriter,
) -> (turn: Turn41)
    requires
        old(st).wf(),
    ensures
        grows(old(out)@, final(out)@),
        final(st).wf(),
        op_stepped(
            op,
            OpReq::FreeStateid { other: other@ },
            old(ctx)@,
            *info,
            codec.key(),
            *env,
            ans@,
            *old(st),
            *final(st),
            old(out)@,
            final(ctx)@,
            final(out)@,
            turn,
        ),
{
    let _open = st.opens.remove(other);
    let _lock = st.locks.remove(other);
    proof {
        assert forall|a: Seq<u8>, b: Seq<u8>|
            #![trigger st.opens@[a], st.opens@[b]]
            st.opens@.contains_key(a) && st.opens@.contains_key(b) && st.opens@[a].node
                == st.opens@[b].node && st.opens@[a].owner@ == st.opens@[b].owner@ implies a == b by {
            let oa = old(st).opens@[a];
            let ob = old(st).opens@[b];
        }
    }
    end_with(out, op, NFS4_OK)
}

fn eval_lock_new(
    op: u32,
    seq: u32,
    other: &[u8; 12],
    ctx: &mut Ctx,
    info: &SurfaceInfo,
    codec: &HandleCodec,
    env: &Env,
    st: &mut State,
    ans: &Vec<Answer>,
    out: &mut XdrWriter,
) -> (turn: Turn41)
    requires
        old(st).wf(),
    ensures
        grows(old(out)@, final(out)@),
        final(st).wf(),
        op_stepped(
            op,
            OpReq::LockNew { seq, other: other@ },
            old(ctx)@,
            *info,
            codec.key(),
            *env,
            ans@,
            *old(st),
            *final(st),
            old(out)@,
            final(ctx)@,
            final(out)@,
            turn,
        ),
{
    let o = resolve_stateid(ctx, seq, other);
    let node = match st.opens.get(&o) {
        Some(os) => os.node,
        None => {
            return end_with(out, op, refused_stateid(st, &o));
        },
    };
    let lock = st.new_other(3);
    let _prev = st.locks.insert(lock, node);
    ctx.current = Some(lock);
    write_stateid(out, op, 1, &lock)
}

fn op_open(
    op: u32,
    share_access: u32,
    owner: &Vec<u8>,
    how: &OpenHow,
    claim: &Claim,
    ctx: &mut Ctx,
    info: &SurfaceInfo,
    codec: &HandleCodec,
    env: &Env,
    st: &mut State,
    ans: &Vec<Answer>,
    out: &mut XdrWriter,
) -> (turn: Turn41)
    requires
        old(st).wf(),
    ensures
        grows(old(out)@, final(out)@),
        final(st).wf(),
        op_stepped(
            op,
            OpReq::Open { share_access, owner: owner@, how: *how, claim: claim@ },
            old(ctx)@,
            *info,
            codec.key(),
            *env,
            ans@,
            *old(st),
            *final(st),
            old(out)@,
            final(ctx)@,
            final(out)@,
            turn,
        ),
{
    let (share, fh) = match ctx.cfh {
        Some(cfh) => cfh,
        None => {
            return end_with(out, op, ERR_NOFILEHANDLE);
        },
    };
    match find_file(fh, how, claim, info.writable, ans) {
        Found::Ask(ask) => Turn41::Ask(ask),
        Found::Fail(code) => end_with(out, op, code),
        Found::File { node, before, after, created } => {
            let (other, seq) = st.register_open(node, owner, share_access);
            let ghost mid = *st;
            let deleg = st.maybe_grant_delegation(node, share_access, created, env.now);
            ctx.cfh = Some((share, node));
            ctx.current = Some(other);
            write_open(out, op, seq, &other, before, after, created, deleg);
            proof {
                assert(open_registered(*old(st), mid, node, owner@, share_access, (other@, seq)));
                assert(opened(
                    *old(st),
                    *st,
                    node,
                    owner@,
                    share_access,
                    created,
                    env.now,
                    (other@, seq),
                    other_bytes(deleg),
                ));
            }
            Turn41::Done(NFS4_OK)
        },
    }
}

/// One step of an operation: what to ask the tree next, or the operation's result appended to
/// the reply.
pub fn eval_op(
    op: u32,
    req: &OpReq,
    ctx: &mut Ctx,
    info: &SurfaceInfo,
    codec: &HandleCodec,
    env: &Env,
    st: &mut State,
    ans: &Vec<Answer>,
    out: &mut XdrWriter,
) -> (turn: Turn41)
    requires
        old(st).wf(),
    ensures
        grows(old(out)@, final(out)@),
        final(st).wf(),
        op_stepped(
            op,
            req@,
            old(ctx)@,
            *info,
            codec.key(),
            *env,
            ans@,
            *old(st),
            *final(st),
            old(out)@,
            final(ctx)@,
            final(out)@,
            turn,
        ),
{
    match req {
        OpReq::ExchangeId { verifier, owner } => {
            eval_exchange_id(
                op,
                verifier,
                owner,
                ctx,
                info,
                codec,
                env,
                st,
                ans,
                out,
            )
        },
        OpReq::CreateSession { clientid, csa_seq, flags, max_req, cb_program } => {
            eval_create_session(
                op,
                *clientid,
                *csa_seq,
                *flags,
                *max_req,
                *cb_program,
                ctx,
                info,
                codec,
                env,
                st,
                ans,
                out,
            )
        },
        OpReq::DestroySession { sid } => {
            eval_destroy_session(
                op,
                sid,
                ctx,
                info,
                codec,
                env,
                st,
                ans,
                out,
            )
        },
        OpReq::DestroyClientid { clientid } => {
            eval_destroy_client(
                op,
                *clientid,
                ctx,
                info,
                codec,
                env,
                st,
                ans,
                out,
            )
        },
        OpReq::Close { seq, other } => {
            eval_close(
                op,
                *seq,
                other,
                ctx,
                info,
                codec,
                env,
                st,
                ans,
                out,
            )
        },
        OpReq::OpenDowngrade { seq, other, access } => {
            eval_downgrade(op, *seq, other, *access, ctx, info, codec, env, st, ans, out)
        },
        OpReq::DelegReturn { other } => {
            eval_delegreturn(
                op,
                other,
                ctx,
                info,
                codec,
                env,
                st,
                ans,
                out,
            )
        },
        OpReq::FreeStateid { other } => {
            eval_free_stateid(
                op,
                other,
                ctx,
                info,
                codec,
                env,
                st,
                ans,
                out,
            )
        },
        OpReq::LockNew { seq, other } => {
            eval_lock_new(
                op,
                *seq,
                other,
                ctx,
                info,
                codec,
                env,
                st,
                ans,
                out,
            )
        },
        OpReq::Open { share_access, owner, how, claim } => {
            op_open(op, *share_access, owner, how, claim, ctx, info, codec, env, st, ans, out)
        },
        OpReq::PutRootFh | OpReq::PutFh { .. } | OpReq::GetFh | OpReq::SaveFh | OpReq::RestoreFh
        | OpReq::SecinfoNoName | OpReq::ReclaimComplete | OpReq::BindConn { .. }
        | OpReq::TestStateid { .. } | OpReq::LockKnown { .. } | OpReq::Lockt
        | OpReq::Locku { .. } => eval_plain(op, req, ctx, info, codec, st, out),
        _ => step_tree(op, req, ctx, info, codec, st, ans, out),
    }
}

// ---- laws --------------------------------------------------------------------------------------

/// The stateid of an open is good for I/O until the file is closed.
pub proof fn opened_stateid_is_accepted(
    pre: State,
    post: State,
    node: NodeKey,
    owner: Seq<u8>,
    share_access: u32,
    sid: (Seq<u8>, u32),
    seq: u32,
)
    requires
        pre.wf(),
        open_registered(pre, post, node, owner, share_access, sid),
        !crate::nfs41::state::all_zero(sid.0),
    ensures
        post.accepts(seq, sid.0),
        post.opens@.contains_key(sid.0),
        post.opens@[sid.0].node == node,
        post.opens@[sid.0].owner@ == owner,
        post.opens@[sid.0].seqid == sid.1,
{
    if exists|other: Seq<u8>| pre.is_open_of(other, node, owner) {
        let other = choose|other: Seq<u8>| pre.is_open_of(other, node, owner);
        assert(pre.is_open_of(other, node, owner));
    }
}

/// Opening a file again by the same owner keeps the stateid and moves its sequence number on.
pub proof fn reopen_keeps_the_stateid(
    s0: State,
    s1: State,
    s2: State,
    node: NodeKey,
    owner: Seq<u8>,
    access1: u32,
    access2: u32,
    sid1: (Seq<u8>, u32),
    sid2: (Seq<u8>, u32),
)
    requires
        s0.wf(),
        s1.wf(),
        open_registered(s0, s1, node, owner, access1, sid1),
        open_registered(s1, s2, node, owner, access2, sid2),
    ensures
        sid2.0 == sid1.0,
        sid2.1 == succ32(sid1.1),
{
    if exists|other: Seq<u8>| s0.is_open_of(other, node, owner) {
        let other = choose|other: Seq<u8>| s0.is_open_of(other, node, owner);
        assert(s0.is_open_of(other, node, owner));
    }
    assert(s1.is_open_of(sid1.0, node, owner));
}

/// A closed stateid is refused, unless it is a lock's or a delegation's.
pub proof fn closed_stateid_is_refused(pre: State, post: State, other: Seq<u8>, seq: u32)
    requires
        closed(pre, post, other),
        !crate::nfs41::state::all_zero(other),
        !crate::nfs41::state::all_ones(other),
        !pre.locks@.contains_key(other),
        !pre.is_delegation(other),
    ensures
        !post.accepts(seq, other),
{
    assert(!post.is_delegation(other)) by {
        if post.is_delegation(other) {
            let n = choose|n: NodeKey| #[trigger]
                post.delegations@.contains_key(n) && post.delegations@[n].stateid_other@ == other;
            assert(pre.delegations@.contains_key(n));
        }
    }
}

/// The stateid that an operation names, if it is one that has to be known; the compound's current
/// one stands where the operation names it.
pub open spec fn stateid_in(req: OpSpec, ctx: Ctx<Seq<u8>>) -> Option<Seq<u8>> {
    match req {
        OpReq::Read { other, .. } => Some(other),
        OpReq::Write { other, .. } => Some(other),
        OpReq::Setattr { other, set, .. } => if set.size is Some {
            Some(other)
        } else {
            None
        },
        OpReq::Close { seq, other } => Some(resolved(ctx, seq, other)),
        OpReq::OpenDowngrade { seq, other, .. } => Some(resolved(ctx, seq, other)),
        OpReq::LockNew { seq, other } => Some(resolved(ctx, seq, other)),
        OpReq::LockKnown { other } => Some(other),
        OpReq::Locku { seq, other } => Some(resolved(ctx, seq, other)),
        OpReq::DelegReturn { other } => Some(other),
        _ => None,
    }
}

/// A stateid that another run of the server minted is told apart from one that never was: every
/// operation that needs it is refused as stale, and changes nothing.
pub proof fn stale_stateid_is_called_stale(
    op: u32,
    req: OpSpec,
    ctx0: Ctx<Seq<u8>>,
    info: SurfaceInfo,
    key: Seq<u8>,
    env: Env,
    pre: State,
    post: State,
    s: Seq<u8>,
    ctx1: Ctx<Seq<u8>>,
    out1: Seq<u8>,
    turn: Turn41,
    other: Seq<u8>,
)
    requires
        op_stepped(op, req, ctx0, info, key, env, seq![], pre, post, s, ctx1, out1, turn),
        pre.all_issued(),
        stateid_in(req, ctx0) == Some(other),
        pre.is_stale(other),
        ctx0.cfh is Some,
        info.writable,
    ensures
        turn == Turn41::Done(ERR_STALE_STATEID),
        out1 == put_head(s, op, ERR_STALE_STATEID),
        post == pre,
        ctx1 == ctx0,
{
    if pre.issued(other) {
        issued_is_not_stale(pre, other);
    }
}

proof fn open_stays_issued(
    pre: State,
    post: State,
    node: NodeKey,
    owner: Seq<u8>,
    share_access: u32,
    created: bool,
    now: u64,
    sid: (Seq<u8>, u32),
    deleg: Option<Seq<u8>>,
)
    requires
        pre.all_issued(),
        pre.next_other < u64::MAX - 1,
        opened(pre, post, node, owner, share_access, created, now, sid, deleg),
    ensures
        post.all_issued(),
{
    let mid = choose|mid: State|
        {
            &&& #[trigger] open_registered(pre, mid, node, owner, share_access, sid)
            &&& granted(mid, post, node, share_access, created, now, deleg)
        };
    let first = minted_other(pre.next_other, 1, pre.boot_verifier@);
    if exists|other: Seq<u8>| pre.is_open_of(other, node, owner) {
        let other = choose|other: Seq<u8>| pre.is_open_of(other, node, owner);
        assert(pre.is_open_of(other, node, owner));
    } else {
        assert(mid.issued(first));
    }
    known_were_issued(pre, mid);
    if deleg is Some {
        let second = minted_other(mid.next_other, 2, mid.boot_verifier@);
        assert(mid.next_other < post.next_other && second == minted_other(
            mid.next_other,
            2,
            post.boot_verifier@,
        ));
        assert(post.issued(second));
    }
    known_were_issued(mid, post);
}

/// Whatever an operation does, every stateid that the server knows was minted by this run. An
/// operation mints two numbers at most.
pub proof fn stateids_stay_issued(
    op: u32,
    req: OpSpec,
    ctx0: Ctx<Seq<u8>>,
    info: SurfaceInfo,
    key: Seq<u8>,
    env: Env,
    ans: Seq<Answer>,
    pre: State,
    post: State,
    s: Seq<u8>,
    ctx1: Ctx<Seq<u8>>,
    out1: Seq<u8>,
    turn: Turn41,
)
    requires
        pre.wf(),
        pre.all_issued(),
        pre.next_other < u64::MAX - 1,
        op_stepped(op, req, ctx0, info, key, env, ans, pre, post, s, ctx1, out1, turn),
    ensures
        post.all_issued(),
{
    match req {
        OpReq::ExchangeId { verifier, owner } => {
            if exists|id: u64| pre.is_client_of(id, owner) {
                let id = choose|id: u64| pre.is_client_of(id, owner);
                assert(pre.is_client_of(id, owner));
            }
            known_were_issued(pre, post);
        },
        OpReq::LockNew { .. } => {
            let lock = minted_other(pre.next_other, 3, pre.boot_verifier@);
            if post != pre {
                assert(pre.next_other < post.next_other && lock == minted_other(
                    pre.next_other,
                    3,
                    post.boot_verifier@,
                ));
                assert(post.issued(lock));
            }
            known_were_issued(pre, post);
        },
        OpReq::Open { share_access, owner, how, claim } => {
            if post != pre {
                let (share, fh) = ctx0.cfh->0;
                let found = open_found(fh, how, claim, info.writable, ans);
                let node = found->node;
                let created = found->File_created;
                let (sid, deleg) = choose|sid: (Seq<u8>, u32), deleg: Option<Seq<u8>>| #[trigger]
                    opened(pre, post, node, owner, share_access, created, env.now, sid, deleg);
                open_stays_issued(
                    pre,
                    post,
                    node,
                    owner,
                    share_access,
                    created,
                    env.now,
                    sid,
                    deleg,
                );
            }
        },
        _ => {
            known_were_issued(pre, post);
        },
    }
}

/// Over a tree that is not writable, WRITE, SETATTR, CREATE, REMOVE and RENAME are refused as
/// read-only before the tree is asked anything.
pub proof fn read_only_tree_refuses_writes(
    op: u32,
    req: OpSpec,
    ctx: Ctx<Seq<u8>>,
    info: SurfaceInfo,
    key: Seq<u8>,
    st: State,
    ans: Seq<Answer>,
    s: Seq<u8>,
)
    requires
        ctx.cfh is Some,
        !info.writable,
        match req {
            OpReq::Write { .. } => true,
            OpReq::Setattr { .. } => true,
            OpReq::Create { name, .. } => name.len() <= 255,
            OpReq::Remove { name } => name.len() <= 255,
            OpReq::Rename { from, to } => ctx.sfh is Some && from.len() <= 255 && to.len() <= 255,
            _ => false,
        },
    ensures
        tree_move(op, req, ctx, info, key, st, ans, s) == failed(s, op, ERR_ROFS, ctx),
{
}

/// Over a tree that is not writable, an OPEN never asks for a change of the tree.
pub proof fn read_only_open_changes_nothing(
    fh: NodeKey,
    how: OpenHow,
    claim: Claim<Seq<u8>>,
    ans: Seq<Answer>,
)
    ensures
        match open_found(fh, how, claim, false, ans) {
            Found::Ask(ask) => !crate::surface::is_mutation(ask),
            _ => true,
        },
{
}

} // verus!
