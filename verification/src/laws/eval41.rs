//! NFSv4.1: what the tree is asked, and what a result says.
use crate::handle::{
    handle_fields_round_trip, handle_target, minted_handle_accepted, tag_of, HandleCodec,
};
use crate::laws::attrs41::values_of;
use crate::laws::nfs3_reply::error_number;
use crate::laws::wire::{begins_with, bytes_at, group_places, u32_at, u64_at};
use crate::nfs3::fh_bytes;
use crate::nfs41::attrs::{change_attr, Source};
use crate::nfs41::eval::eval_op;
use crate::nfs41::ops::{Ctx, Env, Turn41};
use crate::nfs41::request::{OpReq, OpSpec, Words};
use crate::nfs41::state::State;
use crate::surface::{
    Answer, Ask, CreateKind, NfsError, NfsResult, ReadResult, SendRange, SetAttr, SurfaceInfo,
};
use crate::types::{Attr, Kind, NodeKey};
use crate::xdr::{Wire, XdrWriter};
use vstd::prelude::*;

verus! {

broadcast use group_places;

proof fn minted(key: Seq<u8>, share: u16, node: NodeKey)
    ensures
        fh_bytes(key, share, node).len() == 28,
        handle_target(key, fh_bytes(key, share, node)) == Some((share, node)),
{
    minted_handle_accepted(key, share, node);
    handle_fields_round_trip(share, 0, node, tag_of(key, share, 0, node));
}

/// A result began well: the number of the operation, and that it went well.
pub open spec fn went_well(op: u32, before: Seq<u8>, after: Seq<u8>, turn: Turn41) -> bool {
    &&& turn == Turn41::Done(0)
    &&& begins_with(after, before)
    &&& after.len() >= before.len() + 8
    &&& u32_at(after, before.len() as int) == op
    &&& u32_at(after, before.len() as int + 4) == 0
}

/// A result is an error: the number of the operation, and that of the error.
pub open spec fn went_wrong(op: u32, code: int, before: Seq<u8>, after: Seq<u8>, turn: Turn41) -> bool {
    &&& turn is Done && turn->Done_0 == code
    &&& after.len() == before.len() + 8
    &&& u32_at(after, before.len() as int) == op
    &&& u32_at(after, before.len() as int + 4) == code
}

/// The change attribute of a directory in an answer.
pub open spec fn change_number(r: NfsResult<Attr>) -> u64 {
    match r {
        Ok(a) => change_attr(a),
        Err(_) => 0,
    }
}

/// LOOKUP asks the tree for the name in the current directory.
pub proof fn lookup_asks(
    op: u32,
    req: &OpReq,
    ctx: &mut Ctx,
    info: &SurfaceInfo,
    codec: &HandleCodec,
    env: &Env,
    st: &mut State,
    ans: &Vec<Answer>,
    out: &mut XdrWriter,
    turn: Turn41,
    share: u16,
    node: NodeKey,
    name: Seq<u8>,
)
    requires
        call_ensures(eval_op, (op, req, ctx, info, codec, env, st, ans, out), turn),
        old(ctx).cfh == Some((share, node)),
        req@ == (OpSpec::Lookup { name }),
        ans@.len() == 0,
        name.len() <= 255,
    ensures
        turn is Ask,
        turn->Ask_0@ == (Ask::<Seq<u8>>::Lookup { dir: node, name }),
        final(out)@ == old(out)@,
        *final(st) == *old(st),
        final(ctx)@ == old(ctx)@,
{
}

/// LOOKUPP asks the tree for the parent of the current directory.
pub proof fn lookupp_asks(
    op: u32,
    req: &OpReq,
    ctx: &mut Ctx,
    info: &SurfaceInfo,
    codec: &HandleCodec,
    env: &Env,
    st: &mut State,
    ans: &Vec<Answer>,
    out: &mut XdrWriter,
    turn: Turn41,
    share: u16,
    node: NodeKey,
)
    requires
        call_ensures(eval_op, (op, req, ctx, info, codec, env, st, ans, out), turn),
        old(ctx).cfh == Some((share, node)),
        req@ == (OpSpec::Lookupp),
        ans@.len() == 0,
    ensures
        turn is Ask,
        turn->Ask_0@ == (Ask::<Seq<u8>>::Parent(node)),
        final(out)@ == old(out)@,
        *final(st) == *old(st),
        final(ctx)@ == old(ctx)@,
{
}

/// GETATTR asks the tree for the attributes of the current file.
pub proof fn getattr_asks(
    op: u32,
    req: &OpReq,
    ctx: &mut Ctx,
    info: &SurfaceInfo,
    codec: &HandleCodec,
    env: &Env,
    st: &mut State,
    ans: &Vec<Answer>,
    out: &mut XdrWriter,
    turn: Turn41,
    share: u16,
    node: NodeKey,
    want: Words,
)
    requires
        call_ensures(eval_op, (op, req, ctx, info, codec, env, st, ans, out), turn),
        old(ctx).cfh == Some((share, node)),
        req@ == (OpSpec::Getattr { want }),
        ans@.len() == 0,
    ensures
        turn is Ask,
        turn->Ask_0@ == (Ask::<Seq<u8>>::Getattr(node)),
        final(out)@ == old(out)@,
        *final(st) == *old(st),
        final(ctx)@ == old(ctx)@,
{
}

/// ACCESS asks the tree for the attributes of the current file.
pub proof fn access_asks(
    op: u32,
    req: &OpReq,
    ctx: &mut Ctx,
    info: &SurfaceInfo,
    codec: &HandleCodec,
    env: &Env,
    st: &mut State,
    ans: &Vec<Answer>,
    out: &mut XdrWriter,
    turn: Turn41,
    share: u16,
    node: NodeKey,
    want: u32,
)
    requires
        call_ensures(eval_op, (op, req, ctx, info, codec, env, st, ans, out), turn),
        old(ctx).cfh == Some((share, node)),
        req@ == (OpSpec::Access { want }),
        ans@.len() == 0,
    ensures
        turn is Ask,
        turn->Ask_0@ == (Ask::<Seq<u8>>::Getattr(node)),
        final(out)@ == old(out)@,
        *final(st) == *old(st),
        final(ctx)@ == old(ctx)@,
{
}

/// READLINK asks the tree for the target of the current link.
pub proof fn readlink_asks(
    op: u32,
    req: &OpReq,
    ctx: &mut Ctx,
    info: &SurfaceInfo,
    codec: &HandleCodec,
    env: &Env,
    st: &mut State,
    ans: &Vec<Answer>,
    out: &mut XdrWriter,
    turn: Turn41,
    share: u16,
    node: NodeKey,
)
    requires
        call_ensures(eval_op, (op, req, ctx, info, codec, env, st, ans, out), turn),
        old(ctx).cfh == Some((share, node)),
        req@ == (OpSpec::Readlink),
        ans@.len() == 0,
    ensures
        turn is Ask,
        turn->Ask_0@ == (Ask::<Seq<u8>>::Readlink(node)),
        final(out)@ == old(out)@,
        *final(st) == *old(st),
        final(ctx)@ == old(ctx)@,
{
}

/// READDIR asks the tree to go on after the cookie, with attributes.
pub proof fn readdir_asks(
    op: u32,
    req: &OpReq,
    ctx: &mut Ctx,
    info: &SurfaceInfo,
    codec: &HandleCodec,
    env: &Env,
    st: &mut State,
    ans: &Vec<Answer>,
    out: &mut XdrWriter,
    turn: Turn41,
    share: u16,
    node: NodeKey,
    cookie: u64,
    maxcount: u32,
    want: Words,
)
    requires
        call_ensures(eval_op, (op, req, ctx, info, codec, env, st, ans, out), turn),
        old(ctx).cfh == Some((share, node)),
        req@ == (OpSpec::Readdir { cookie, maxcount, want }),
        ans@.len() == 0,
    ensures
        turn is Ask,
        match turn->Ask_0@ {
            Ask::Readdir { dir, cookie: c, max_entries, want_attrs } => dir == node && c == cookie
                && want_attrs && max_entries >= 1,
            _ => false,
        },
        final(out)@ == old(out)@,
{
}

/// READ asks the tree for the bytes that the client names.
pub proof fn read_asks(
    op: u32,
    req: &OpReq,
    ctx: &mut Ctx,
    info: &SurfaceInfo,
    codec: &HandleCodec,
    env: &Env,
    st: &mut State,
    ans: &Vec<Answer>,
    out: &mut XdrWriter,
    turn: Turn41,
    share: u16,
    node: NodeKey,
    seq: u32,
    other: Seq<u8>,
    offset: u64,
    count: u32,
)
    requires
        call_ensures(eval_op, (op, req, ctx, info, codec, env, st, ans, out), turn),
        old(ctx).cfh == Some((share, node)),
        req@ == (OpSpec::Read { seq, other, offset, count }),
        ans@.len() == 0,
        old(st).accepts(seq, other),
        !old(ctx).is_last || !old(ctx).allow_sendfile,
    ensures
        turn is Ask,
        turn->Ask_0@ == (Ask::<Seq<u8>>::Read { node, offset, count }),
        final(out)@ == old(out)@,
        *final(st) == *old(st),
        final(ctx)@ == old(ctx)@,
{
}

/// READ asks first whether a local file can serve it, where the payload may follow the reply: the same
/// node, offset and count.
pub proof fn read_asks_for_a_file(
    op: u32,
    req: &OpReq,
    ctx: &mut Ctx,
    info: &SurfaceInfo,
    codec: &HandleCodec,
    env: &Env,
    st: &mut State,
    ans: &Vec<Answer>,
    out: &mut XdrWriter,
    turn: Turn41,
    share: u16,
    node: NodeKey,
    seq: u32,
    other: Seq<u8>,
    offset: u64,
    count: u32,
)
    requires
        call_ensures(eval_op, (op, req, ctx, info, codec, env, st, ans, out), turn),
        old(ctx).cfh == Some((share, node)),
        req@ == (OpSpec::Read { seq, other, offset, count }),
        ans@.len() == 0,
        old(st).accepts(seq, other),
        old(ctx).is_last,
        old(ctx).allow_sendfile,
    ensures
        turn is Ask,
        turn->Ask_0@ == (Ask::<Seq<u8>>::ReadSendable { node, offset, count }),
        final(out)@ == old(out)@,
        *final(st) == *old(st),
        final(ctx)@ == old(ctx)@,
{
}

/// READ asks the tree for the bytes that the client names, where no local file can serve them.
pub proof fn read_asks_then(
    op: u32,
    req: &OpReq,
    ctx: &mut Ctx,
    info: &SurfaceInfo,
    codec: &HandleCodec,
    env: &Env,
    st: &mut State,
    ans: &Vec<Answer>,
    out: &mut XdrWriter,
    turn: Turn41,
    share: u16,
    node: NodeKey,
    seq: u32,
    other: Seq<u8>,
    offset: u64,
    count: u32,
)
    requires
        call_ensures(eval_op, (op, req, ctx, info, codec, env, st, ans, out), turn),
        old(ctx).cfh == Some((share, node)),
        req@ == (OpSpec::Read { seq, other, offset, count }),
        ans@.len() == 1,
        old(ctx).is_last,
        old(ctx).allow_sendfile,
        ans@[0] == Answer::Range(None),
    ensures
        turn is Ask,
        turn->Ask_0@ == (Ask::<Seq<u8>>::Read { node, offset, count }),
        final(out)@ == old(out)@,
        *final(st) == *old(st),
        final(ctx)@ == old(ctx)@,
{
}

/// WRITE hands the tree the data for the offset; they are to be durable unless the client says that they
/// need not be.
pub proof fn write_asks(
    op: u32,
    req: &OpReq,
    ctx: &mut Ctx,
    info: &SurfaceInfo,
    codec: &HandleCodec,
    env: &Env,
    st: &mut State,
    ans: &Vec<Answer>,
    out: &mut XdrWriter,
    turn: Turn41,
    share: u16,
    node: NodeKey,
    seq: u32,
    other: Seq<u8>,
    offset: u64,
    stable: u32,
    data: Seq<u8>,
)
    requires
        call_ensures(eval_op, (op, req, ctx, info, codec, env, st, ans, out), turn),
        old(ctx).cfh == Some((share, node)),
        req@ == (OpSpec::Write { seq, other, offset, stable, data }),
        ans@.len() == 0,
        old(st).accepts(seq, other),
        info.writable,
    ensures
        turn is Ask,
        turn->Ask_0@ == (Ask::<Seq<u8>>::Write { node, offset, data, sync: stable != 0 }),
        final(out)@ == old(out)@,
        *final(st) == *old(st),
        final(ctx)@ == old(ctx)@,
{
}

/// COMMIT hands the tree the range, as it is.
pub proof fn commit_asks(
    op: u32,
    req: &OpReq,
    ctx: &mut Ctx,
    info: &SurfaceInfo,
    codec: &HandleCodec,
    env: &Env,
    st: &mut State,
    ans: &Vec<Answer>,
    out: &mut XdrWriter,
    turn: Turn41,
    share: u16,
    node: NodeKey,
    offset: u64,
    count: u32,
)
    requires
        call_ensures(eval_op, (op, req, ctx, info, codec, env, st, ans, out), turn),
        old(ctx).cfh == Some((share, node)),
        req@ == (OpSpec::Commit { offset, count }),
        ans@.len() == 0,
    ensures
        turn is Ask,
        turn->Ask_0@ == (Ask::<Seq<u8>>::Commit { node, off: offset, len: count as u64 }),
        final(out)@ == old(out)@,
        *final(st) == *old(st),
        final(ctx)@ == old(ctx)@,
{
}

/// SETATTR hands the tree the fields to set, as they are.
pub proof fn setattr_asks(
    op: u32,
    req: &OpReq,
    ctx: &mut Ctx,
    info: &SurfaceInfo,
    codec: &HandleCodec,
    env: &Env,
    st: &mut State,
    ans: &Vec<Answer>,
    out: &mut XdrWriter,
    turn: Turn41,
    share: u16,
    node: NodeKey,
    seq: u32,
    other: Seq<u8>,
    set: SetAttr,
    want: Words,
)
    requires
        call_ensures(eval_op, (op, req, ctx, info, codec, env, st, ans, out), turn),
        old(ctx).cfh == Some((share, node)),
        req@ == (OpSpec::Setattr { seq, other, set, want }),
        ans@.len() == 0,
        old(st).accepts(seq, other),
        info.writable,
    ensures
        turn is Ask,
        turn->Ask_0@ == (Ask::<Seq<u8>>::Setattr { node, set }),
        final(out)@ == old(out)@,
        *final(st) == *old(st),
        final(ctx)@ == old(ctx)@,
{
}

/// CREATE hands the tree the name, the kind and the mode, 0755 without one.
pub proof fn create_asks(
    op: u32,
    req: &OpReq,
    ctx: &mut Ctx,
    info: &SurfaceInfo,
    codec: &HandleCodec,
    env: &Env,
    st: &mut State,
    ans: &Vec<Answer>,
    out: &mut XdrWriter,
    turn: Turn41,
    share: u16,
    node: NodeKey,
    kind: CreateKind<Seq<u8>>,
    name: Seq<u8>,
    mode: Option<u16>,
)
    requires
        call_ensures(eval_op, (op, req, ctx, info, codec, env, st, ans, out), turn),
        old(ctx).cfh == Some((share, node)),
        req@ == (OpSpec::Create { kind, name, mode }),
        ans@.len() == 1,
        info.writable,
        name.len() <= 255,
    ensures
        turn is Ask,
        turn->Ask_0@ == (Ask::<Seq<u8>>::Create {
            dir: node,
            name,
            kind,
            mode: match mode {
                Some(m) => m,
                None => 0o755,
            },
        }),
        final(out)@ == old(out)@,
        *final(st) == *old(st),
        final(ctx)@ == old(ctx)@,
{
}

/// REMOVE hands the tree the name, and whether it is a directory.
pub proof fn remove_asks(
    op: u32,
    req: &OpReq,
    ctx: &mut Ctx,
    info: &SurfaceInfo,
    codec: &HandleCodec,
    env: &Env,
    st: &mut State,
    ans: &Vec<Answer>,
    out: &mut XdrWriter,
    turn: Turn41,
    share: u16,
    node: NodeKey,
    name: Seq<u8>,
    r: NfsResult<(NodeKey, Attr)>,
)
    requires
        call_ensures(eval_op, (op, req, ctx, info, codec, env, st, ans, out), turn),
        old(ctx).cfh == Some((share, node)),
        req@ == (OpSpec::Remove { name }),
        ans@.len() == 2,
        info.writable,
        name.len() <= 255,
        ans@[0] == Answer::Entry(r),
    ensures
        turn is Ask,
        turn->Ask_0@ == (Ask::<Seq<u8>>::Remove {
            dir: node,
            name,
            is_dir: match r {
                Ok((_, a)) => a.kind == Kind::Dir,
                Err(_) => false,
            },
        }),
        final(out)@ == old(out)@,
        *final(st) == *old(st),
        final(ctx)@ == old(ctx)@,
{
}

/// RENAME hands the tree the saved directory and the first name, and the current directory and the second
/// name.
pub proof fn rename_asks(
    op: u32,
    req: &OpReq,
    ctx: &mut Ctx,
    info: &SurfaceInfo,
    codec: &HandleCodec,
    env: &Env,
    st: &mut State,
    ans: &Vec<Answer>,
    out: &mut XdrWriter,
    turn: Turn41,
    share: u16,
    node: NodeKey,
    src: (u16, NodeKey),
    from: Seq<u8>,
    to: Seq<u8>,
)
    requires
        call_ensures(eval_op, (op, req, ctx, info, codec, env, st, ans, out), turn),
        old(ctx).cfh == Some((share, node)),
        req@ == (OpSpec::Rename { from, to }),
        ans@.len() == 2,
        info.writable,
        old(ctx).sfh == Some(src),
        from.len() <= 255,
        to.len() <= 255,
    ensures
        turn is Ask,
        turn->Ask_0@ == (Ask::<Seq<u8>>::Rename { from_dir: src.1, from_name: from, to_dir: node, to_name: to }),
        final(out)@ == old(out)@,
        *final(st) == *old(st),
        final(ctx)@ == old(ctx)@,
{
}

/// LOOKUP makes what the tree found the current file.
pub proof fn lookup_tells(
    op: u32,
    req: &OpReq,
    ctx: &mut Ctx,
    info: &SurfaceInfo,
    codec: &HandleCodec,
    env: &Env,
    st: &mut State,
    ans: &Vec<Answer>,
    out: &mut XdrWriter,
    turn: Turn41,
    share: u16,
    node: NodeKey,
    name: Seq<u8>,
    child: NodeKey,
    a: Attr,
)
    requires
        call_ensures(eval_op, (op, req, ctx, info, codec, env, st, ans, out), turn),
        old(ctx).cfh == Some((share, node)),
        req@ == (OpSpec::Lookup { name }),
        name.len() <= 255,
        ans@.len() == 1,
        ans@[0] == Answer::Entry(Ok((child, a))),
    ensures
        went_well(op, old(out)@, final(out)@, turn),
        final(ctx)@ == (Ctx { cfh: Some((share, child)), ..old(ctx)@ }),
        *final(st) == *old(st),
{
}

/// LOOKUPP makes the parent the current file.
pub proof fn lookupp_tells(
    op: u32,
    req: &OpReq,
    ctx: &mut Ctx,
    info: &SurfaceInfo,
    codec: &HandleCodec,
    env: &Env,
    st: &mut State,
    ans: &Vec<Answer>,
    out: &mut XdrWriter,
    turn: Turn41,
    share: u16,
    node: NodeKey,
    parent: NodeKey,
)
    requires
        call_ensures(eval_op, (op, req, ctx, info, codec, env, st, ans, out), turn),
        old(ctx).cfh == Some((share, node)),
        req@ == OpSpec::Lookupp,
        ans@.len() == 1,
        ans@[0] == Answer::Parent(Ok(parent)),
    ensures
        went_well(op, old(out)@, final(out)@, turn),
        final(ctx)@ == (Ctx { cfh: Some((share, parent)), ..old(ctx)@ }),
        *final(st) == *old(st),
{
}

/// ACCESS tells the rights that the file has and, of these, those that were asked for: to read always, to
/// look up only in directories, to run only elsewhere, and to change only in a tree that takes changes.
pub proof fn access_tells(
    op: u32,
    req: &OpReq,
    ctx: &mut Ctx,
    info: &SurfaceInfo,
    codec: &HandleCodec,
    env: &Env,
    st: &mut State,
    ans: &Vec<Answer>,
    out: &mut XdrWriter,
    turn: Turn41,
    share: u16,
    node: NodeKey,
    want: u32,
    a: Attr,
)
    requires
        call_ensures(eval_op, (op, req, ctx, info, codec, env, st, ans, out), turn),
        old(ctx).cfh == Some((share, node)),
        req@ == (OpSpec::Access { want }),
        ans@.len() == 1,
        ans@[0] == Answer::Attr(Ok(a)),
    ensures
        went_well(op, old(out)@, final(out)@, turn),
        ({
            let all = if a.kind == Kind::Dir {
                3u32
            } else {
                0x21u32
            } + if info.writable {
                0x1cu32
            } else {
                0u32
            };
            &&& u32_at(final(out)@, old(out)@.len() as int + 12) == all as u32 & want
        }),
        *final(st) == *old(st),
        final(ctx)@ == old(ctx)@,
{
}

/// READLINK tells the target that the tree gave.
pub proof fn readlink_tells(
    op: u32,
    req: &OpReq,
    ctx: &mut Ctx,
    info: &SurfaceInfo,
    codec: &HandleCodec,
    env: &Env,
    st: &mut State,
    ans: &Vec<Answer>,
    out: &mut XdrWriter,
    turn: Turn41,
    share: u16,
    node: NodeKey,
    target: Vec<u8>,
)
    requires
        call_ensures(eval_op, (op, req, ctx, info, codec, env, st, ans, out), turn),
        old(ctx).cfh == Some((share, node)),
        req@ == (OpSpec::Readlink),
        ans@.len() == 1,
        ans@[0] == Answer::Target(Ok(target)),
        target@.len() <= u32::MAX,
    ensures
        went_well(op, old(out)@, final(out)@, turn),
        u32_at(final(out)@, old(out)@.len() as int + 8) == target@.len(),
        bytes_at(final(out)@, old(out)@.len() as int + 12, target@.len()) == target@,
        *final(st) == *old(st),
        final(ctx)@ == old(ctx)@,
{
}

/// READ tells the bytes that the tree gave, and whether they end the file.
pub proof fn read_tells(
    op: u32,
    req: &OpReq,
    ctx: &mut Ctx,
    info: &SurfaceInfo,
    codec: &HandleCodec,
    env: &Env,
    st: &mut State,
    ans: &Vec<Answer>,
    out: &mut XdrWriter,
    turn: Turn41,
    share: u16,
    node: NodeKey,
    seq: u32,
    other: Seq<u8>,
    offset: u64,
    count: u32,
    r: ReadResult,
)
    requires
        call_ensures(eval_op, (op, req, ctx, info, codec, env, st, ans, out), turn),
        old(ctx).cfh == Some((share, node)),
        req@ == (OpSpec::Read { seq, other, offset, count }),
        ans@.len() == 1,
        ans@[0] == Answer::Data(Ok(r)),
        !old(ctx).is_last || !old(ctx).allow_sendfile,
        r.data@.len() <= u32::MAX,
    ensures
        went_well(op, old(out)@, final(out)@, turn),
        u32_at(final(out)@, old(out)@.len() as int + 8) == (if r.eof { 1int } else { 0int }),
        u32_at(final(out)@, old(out)@.len() as int + 12) == r.data@.len(),
        bytes_at(final(out)@, old(out)@.len() as int + 16, r.data@.len()) == r.data@,
        *final(st) == *old(st),
        final(ctx)@ == old(ctx)@,
{
}

/// READ tells the bytes that the tree gave, where no local file could serve it.
pub proof fn read_tells_then(
    op: u32,
    req: &OpReq,
    ctx: &mut Ctx,
    info: &SurfaceInfo,
    codec: &HandleCodec,
    env: &Env,
    st: &mut State,
    ans: &Vec<Answer>,
    out: &mut XdrWriter,
    turn: Turn41,
    share: u16,
    node: NodeKey,
    seq: u32,
    other: Seq<u8>,
    offset: u64,
    count: u32,
    r: ReadResult,
)
    requires
        call_ensures(eval_op, (op, req, ctx, info, codec, env, st, ans, out), turn),
        old(ctx).cfh == Some((share, node)),
        req@ == (OpSpec::Read { seq, other, offset, count }),
        ans@.len() == 2,
        ans@[0] == Answer::Range(None),
        ans@[1] == Answer::Data(Ok(r)),
        old(ctx).is_last,
        old(ctx).allow_sendfile,
        r.data@.len() <= u32::MAX,
    ensures
        went_well(op, old(out)@, final(out)@, turn),
        u32_at(final(out)@, old(out)@.len() as int + 8) == (if r.eof { 1int } else { 0int }),
        u32_at(final(out)@, old(out)@.len() as int + 12) == r.data@.len(),
        bytes_at(final(out)@, old(out)@.len() as int + 16, r.data@.len()) == r.data@,
        *final(st) == *old(st),
        final(ctx)@ == old(ctx)@,
{
}

/// READ from a local file tells how many bytes follow and whether they end the file; the range is the one
/// that the tree gave.
pub proof fn read_from_a_file_tells(
    op: u32,
    req: &OpReq,
    ctx: &mut Ctx,
    info: &SurfaceInfo,
    codec: &HandleCodec,
    env: &Env,
    st: &mut State,
    ans: &Vec<Answer>,
    out: &mut XdrWriter,
    turn: Turn41,
    share: u16,
    node: NodeKey,
    seq: u32,
    other: Seq<u8>,
    offset: u64,
    count: u32,
    r: SendRange,
)
    requires
        call_ensures(eval_op, (op, req, ctx, info, codec, env, st, ans, out), turn),
        old(ctx).cfh == Some((share, node)),
        req@ == (OpSpec::Read { seq, other, offset, count }),
        old(ctx).is_last,
        old(ctx).allow_sendfile,
        ans@.len() == 1,
        ans@[0] == Answer::Range(Some(r)),
    ensures
        turn == Turn41::DoneFile(r),
        u32_at(final(out)@, old(out)@.len() as int) == op,
        u32_at(final(out)@, old(out)@.len() as int + 4) == 0,
        u32_at(final(out)@, old(out)@.len() as int + 8) == (if r.eof { 1int } else { 0int }),
        u32_at(final(out)@, old(out)@.len() as int + 12) == r.len,
        final(out)@.len() == old(out)@.len() as int + 16,
        *final(st) == *old(st),
{
}

/// WRITE tells how many bytes were taken, all of them, that they are durable only where the client asked
/// for it or the tree makes every write so, and this run of the server.
pub proof fn write_tells(
    op: u32,
    req: &OpReq,
    ctx: &mut Ctx,
    info: &SurfaceInfo,
    codec: &HandleCodec,
    env: &Env,
    st: &mut State,
    ans: &Vec<Answer>,
    out: &mut XdrWriter,
    turn: Turn41,
    share: u16,
    node: NodeKey,
    seq: u32,
    other: Seq<u8>,
    offset: u64,
    stable: u32,
    data: Seq<u8>,
    a: Attr,
)
    requires
        call_ensures(eval_op, (op, req, ctx, info, codec, env, st, ans, out), turn),
        old(ctx).cfh == Some((share, node)),
        req@ == (OpSpec::Write { seq, other, offset, stable, data }),
        ans@.len() == 1,
        ans@[0] == Answer::Attr(Ok(a)),
        info.writable,
        data.len() <= u32::MAX,
    ensures
        went_well(op, old(out)@, final(out)@, turn),
        u32_at(final(out)@, old(out)@.len() as int + 8) == data.len(),
        u32_at(final(out)@, old(out)@.len() as int + 12) == (if stable != 0 || info.stable_writes { 2int } else { 0int }),
        bytes_at(final(out)@, old(out)@.len() as int + 16, 8) == old(st).boot_verifier@,
        *final(st) == *old(st),
        final(ctx)@ == old(ctx)@,
{
}

/// COMMIT tells this run of the server.
pub proof fn commit_tells(
    op: u32,
    req: &OpReq,
    ctx: &mut Ctx,
    info: &SurfaceInfo,
    codec: &HandleCodec,
    env: &Env,
    st: &mut State,
    ans: &Vec<Answer>,
    out: &mut XdrWriter,
    turn: Turn41,
    share: u16,
    node: NodeKey,
    offset: u64,
    count: u32,
    a: Attr,
)
    requires
        call_ensures(eval_op, (op, req, ctx, info, codec, env, st, ans, out), turn),
        old(ctx).cfh == Some((share, node)),
        req@ == (OpSpec::Commit { offset, count }),
        ans@.len() == 1,
        ans@[0] == Answer::Attr(Ok(a)),
    ensures
        went_well(op, old(out)@, final(out)@, turn),
        bytes_at(final(out)@, old(out)@.len() as int + 8, 8) == old(st).boot_verifier@,
        *final(st) == *old(st),
        final(ctx)@ == old(ctx)@,
{
}

/// CREATE makes what the tree made the current file, and tells how the directory changed.
pub proof fn create_tells(
    op: u32,
    req: &OpReq,
    ctx: &mut Ctx,
    info: &SurfaceInfo,
    codec: &HandleCodec,
    env: &Env,
    st: &mut State,
    ans: &Vec<Answer>,
    out: &mut XdrWriter,
    turn: Turn41,
    share: u16,
    node: NodeKey,
    kind: CreateKind<Seq<u8>>,
    name: Seq<u8>,
    mode: Option<u16>,
    d0: NfsResult<Attr>,
    child: NodeKey,
    a: Attr,
    d1: NfsResult<Attr>,
)
    requires
        call_ensures(eval_op, (op, req, ctx, info, codec, env, st, ans, out), turn),
        old(ctx).cfh == Some((share, node)),
        req@ == (OpSpec::Create { kind, name, mode }),
        info.writable,
        name.len() <= 255,
        ans@.len() == 3,
        ans@[0] == Answer::Attr(d0),
        ans@[1] == Answer::Entry(Ok((child, a))),
        ans@[2] == Answer::Attr(d1),
    ensures
        went_well(op, old(out)@, final(out)@, turn),
        u32_at(final(out)@, old(out)@.len() as int + 8) == 1,
        u64_at(final(out)@, old(out)@.len() as int + 12) == change_number(d0),
        u64_at(final(out)@, old(out)@.len() as int + 20) == change_number(d1),
        final(ctx)@ == (Ctx { cfh: Some((share, child)), ..old(ctx)@ }),
        *final(st) == *old(st),
{
}

/// REMOVE tells how the directory changed.
pub proof fn remove_tells(
    op: u32,
    req: &OpReq,
    ctx: &mut Ctx,
    info: &SurfaceInfo,
    codec: &HandleCodec,
    env: &Env,
    st: &mut State,
    ans: &Vec<Answer>,
    out: &mut XdrWriter,
    turn: Turn41,
    share: u16,
    node: NodeKey,
    name: Seq<u8>,
    r: NfsResult<(NodeKey, Attr)>,
    d0: NfsResult<Attr>,
    d1: NfsResult<Attr>,
)
    requires
        call_ensures(eval_op, (op, req, ctx, info, codec, env, st, ans, out), turn),
        old(ctx).cfh == Some((share, node)),
        req@ == (OpSpec::Remove { name }),
        ans@.len() == 4,
        ans@[0] == Answer::Entry(r),
        ans@[1] == Answer::Attr(d0),
        ans@[2] == Answer::Done(Ok(())),
        ans@[3] == Answer::Attr(d1),
        info.writable,
        name.len() <= 255,
    ensures
        went_well(op, old(out)@, final(out)@, turn),
        u32_at(final(out)@, old(out)@.len() as int + 8) == 1,
        u64_at(final(out)@, old(out)@.len() as int + 12) == change_number(d0),
        u64_at(final(out)@, old(out)@.len() as int + 20) == change_number(d1),
        *final(st) == *old(st),
        final(ctx)@ == old(ctx)@,
{
}

/// RENAME tells how both directories changed, the one that lost the name first.
pub proof fn rename_tells(
    op: u32,
    req: &OpReq,
    ctx: &mut Ctx,
    info: &SurfaceInfo,
    codec: &HandleCodec,
    env: &Env,
    st: &mut State,
    ans: &Vec<Answer>,
    out: &mut XdrWriter,
    turn: Turn41,
    share: u16,
    node: NodeKey,
    src: (u16, NodeKey),
    from: Seq<u8>,
    to: Seq<u8>,
    s0: NfsResult<Attr>,
    d0: NfsResult<Attr>,
    s1: NfsResult<Attr>,
    d1: NfsResult<Attr>,
)
    requires
        call_ensures(eval_op, (op, req, ctx, info, codec, env, st, ans, out), turn),
        old(ctx).cfh == Some((share, node)),
        req@ == (OpSpec::Rename { from, to }),
        ans@.len() == 5,
        ans@[0] == Answer::Attr(s0),
        ans@[1] == Answer::Attr(d0),
        ans@[2] == Answer::Done(Ok(())),
        ans@[3] == Answer::Attr(s1),
        ans@[4] == Answer::Attr(d1),
        info.writable,
        old(ctx).sfh == Some(src),
        from.len() <= 255,
        to.len() <= 255,
    ensures
        went_well(op, old(out)@, final(out)@, turn),
        u32_at(final(out)@, old(out)@.len() as int + 8) == 1,
        u64_at(final(out)@, old(out)@.len() as int + 12) == change_number(s0),
        u64_at(final(out)@, old(out)@.len() as int + 20) == change_number(s1),
        u32_at(final(out)@, old(out)@.len() as int + 28) == 1,
        u64_at(final(out)@, old(out)@.len() as int + 32) == change_number(d0),
        u64_at(final(out)@, old(out)@.len() as int + 40) == change_number(d1),
        *final(st) == *old(st),
        final(ctx)@ == old(ctx)@,
{
}

/// PUTFH makes the node of a good handle the current file, and refuses any other.
pub proof fn putfh_tells(
    op: u32,
    req: &OpReq,
    ctx: &mut Ctx,
    info: &SurfaceInfo,
    codec: &HandleCodec,
    env: &Env,
    st: &mut State,
    ans: &Vec<Answer>,
    out: &mut XdrWriter,
    turn: Turn41,
    fh: Seq<u8>,
)
    requires
        call_ensures(eval_op, (op, req, ctx, info, codec, env, st, ans, out), turn),
        req@ == (OpSpec::PutFh { fh }),
    ensures
        match handle_target(codec.key(), fh) {
            Some(target) => went_well(op, old(out)@, final(out)@, turn) && final(ctx)@ == (Ctx {
                cfh: Some(target),
                ..old(ctx)@
            }),
            None => went_wrong(op, 10001, old(out)@, final(out)@, turn) && final(ctx)@ == old(ctx)@,
        },
        *final(st) == *old(st),
{
}

/// PUTROOTFH makes the root of the share the current file.
pub proof fn putrootfh_tells(
    op: u32,
    req: &OpReq,
    ctx: &mut Ctx,
    info: &SurfaceInfo,
    codec: &HandleCodec,
    env: &Env,
    st: &mut State,
    ans: &Vec<Answer>,
    out: &mut XdrWriter,
    turn: Turn41,
)
    requires
        call_ensures(eval_op, (op, req, ctx, info, codec, env, st, ans, out), turn),
        req@ == OpSpec::PutRootFh,
    ensures
        went_well(op, old(out)@, final(out)@, turn),
        final(ctx)@ == (Ctx { cfh: Some((info.share, info.root)), ..old(ctx)@ }),
        *final(st) == *old(st),
{
}

/// GETFH tells a handle that is taken for the current file.
pub proof fn getfh_tells(
    op: u32,
    req: &OpReq,
    ctx: &mut Ctx,
    info: &SurfaceInfo,
    codec: &HandleCodec,
    env: &Env,
    st: &mut State,
    ans: &Vec<Answer>,
    out: &mut XdrWriter,
    turn: Turn41,
    share: u16,
    node: NodeKey,
)
    requires
        call_ensures(eval_op, (op, req, ctx, info, codec, env, st, ans, out), turn),
        old(ctx).cfh == Some((share, node)),
        req@ == (OpSpec::GetFh),
    ensures
        went_well(op, old(out)@, final(out)@, turn),
        u32_at(final(out)@, old(out)@.len() as int + 8) == 28,
        handle_target(codec.key(), bytes_at(final(out)@, old(out)@.len() as int + 12, 28)) == Some((share, node)),
        *final(st) == *old(st),
        final(ctx)@ == old(ctx)@,
{
    minted(codec.key(), share, node);
}

/// SAVEFH keeps the current file aside.
pub proof fn savefh_tells(
    op: u32,
    req: &OpReq,
    ctx: &mut Ctx,
    info: &SurfaceInfo,
    codec: &HandleCodec,
    env: &Env,
    st: &mut State,
    ans: &Vec<Answer>,
    out: &mut XdrWriter,
    turn: Turn41,
    share: u16,
    node: NodeKey,
)
    requires
        call_ensures(eval_op, (op, req, ctx, info, codec, env, st, ans, out), turn),
        old(ctx).cfh == Some((share, node)),
        req@ == OpSpec::SaveFh,
    ensures
        went_well(op, old(out)@, final(out)@, turn),
        final(ctx)@ == (Ctx { sfh: Some((share, node)), ..old(ctx)@ }),
        *final(st) == *old(st),
{
}

/// RESTOREFH takes the file that was kept aside.
pub proof fn restorefh_tells(
    op: u32,
    req: &OpReq,
    ctx: &mut Ctx,
    info: &SurfaceInfo,
    codec: &HandleCodec,
    env: &Env,
    st: &mut State,
    ans: &Vec<Answer>,
    out: &mut XdrWriter,
    turn: Turn41,
    share: u16,
    node: NodeKey,
)
    requires
        call_ensures(eval_op, (op, req, ctx, info, codec, env, st, ans, out), turn),
        old(ctx).sfh == Some((share, node)),
        req@ == OpSpec::RestoreFh,
    ensures
        went_well(op, old(out)@, final(out)@, turn),
        final(ctx)@ == (Ctx { cfh: Some((share, node)), ..old(ctx)@ }),
        *final(st) == *old(st),
{
}

/// Without a current file, what needs one is refused, and nothing is asked of the tree.
pub proof fn no_file_is_told(
    op: u32,
    req: &OpReq,
    ctx: &mut Ctx,
    info: &SurfaceInfo,
    codec: &HandleCodec,
    env: &Env,
    st: &mut State,
    ans: &Vec<Answer>,
    out: &mut XdrWriter,
    turn: Turn41,
)
    requires
        call_ensures(eval_op, (op, req, ctx, info, codec, env, st, ans, out), turn),
        old(ctx).cfh is None,
        match req@ {
            OpReq::GetFh => true,
            OpReq::SaveFh => true,
            OpReq::Lookup { .. } => true,
            OpReq::Lookupp => true,
            OpReq::Getattr { .. } => true,
            OpReq::Access { .. } => true,
            OpReq::Readlink => true,
            OpReq::Readdir { .. } => true,
            OpReq::Read { .. } => true,
            OpReq::Write { .. } => true,
            OpReq::Commit { .. } => true,
            OpReq::Create { .. } => true,
            OpReq::Remove { .. } => true,
            OpReq::Rename { .. } => true,
            OpReq::Setattr { .. } => true,
            OpReq::Open { .. } => true,
            _ => false,
        },
    ensures
        went_wrong(op, 10020, old(out)@, final(out)@, turn),
        *final(st) == *old(st),
{
}

/// What the tree refused is told as its own error, whatever was asked, and the current file stays.
pub proof fn errors_are_told(
    op: u32,
    req: &OpReq,
    ctx: &mut Ctx,
    info: &SurfaceInfo,
    codec: &HandleCodec,
    env: &Env,
    st: &mut State,
    ans: &Vec<Answer>,
    out: &mut XdrWriter,
    turn: Turn41,
    e: NfsError,
)
    requires
        call_ensures(eval_op, (op, req, ctx, info, codec, env, st, ans, out), turn),
        old(ctx).cfh is Some,
        info.writable,
        !old(ctx).is_last,
        match req@ {
            OpReq::Lookup { name } => name.len() <= 255 && ans@.len() == 1 && ans@[0] == Answer::Entry(
                Err(e),
            ),
            OpReq::Lookupp => ans@.len() == 1 && ans@[0] == Answer::Parent(Err(e)),
            OpReq::Getattr { .. } => ans@.len() == 1 && ans@[0] == Answer::Attr(Err(e)),
            OpReq::Access { .. } => ans@.len() == 1 && ans@[0] == Answer::Attr(Err(e)),
            OpReq::Readlink => ans@.len() == 1 && ans@[0] == Answer::Target(Err(e)),
            OpReq::Readdir { .. } => ans@.len() == 1 && ans@[0] == Answer::Page(Err(e)),
            OpReq::Read { .. } => ans@.len() == 1 && ans@[0] == Answer::Data(Err(e)),
            OpReq::Write { .. } => ans@.len() == 1 && ans@[0] == Answer::Attr(Err(e)),
            OpReq::Commit { .. } => ans@.len() == 1 && ans@[0] == Answer::Attr(Err(e)),
            OpReq::Setattr { .. } => ans@.len() == 1 && ans@[0] == Answer::Attr(Err(e)),
            OpReq::Create { name, .. } => name.len() <= 255 && ans@.len() == 2 && ans@[1]
                == Answer::Entry(Err(e)),
            OpReq::Remove { name } => name.len() <= 255 && ans@.len() == 3 && ans@[2] == Answer::Done(
                Err(e),
            ),
            _ => false,
        },
    ensures
        went_wrong(op, error_number(e), old(out)@, final(out)@, turn),
        *final(st) == *old(st),
        final(ctx)@ == old(ctx)@,
{
}

/// READ, WRITE and a change of size need a stateid that is known; another one is refused before the tree is
/// asked: as stale where it is of another run, else as bad.
pub proof fn stateids_are_looked_at(
    op: u32,
    req: &OpReq,
    ctx: &mut Ctx,
    info: &SurfaceInfo,
    codec: &HandleCodec,
    env: &Env,
    st: &mut State,
    ans: &Vec<Answer>,
    out: &mut XdrWriter,
    turn: Turn41,
    seq: u32,
    other: Seq<u8>,
)
    requires
        call_ensures(eval_op, (op, req, ctx, info, codec, env, st, ans, out), turn),
        old(ctx).cfh is Some,
        info.writable,
        ans@.len() == 0,
        match req@ {
            OpReq::Read { seq: q, other: o, .. } => q == seq && o == other,
            OpReq::Write { seq: q, other: o, .. } => q == seq && o == other,
            OpReq::Setattr { seq: q, other: o, set, .. } => q == seq && o == other && set.size is Some,
            _ => false,
        },
        !old(st).accepts(seq, other),
    ensures
        went_wrong(
            op,
            if old(st).is_stale(other) {
                10023int
            } else {
                10025int
            },
            old(out)@,
            final(out)@,
            turn,
        ),
        *final(st) == *old(st),
{
}

/// GETATTR tells the attributes of the current file that were asked for and are known, as the tree gave
/// them.
pub proof fn getattr_tells(
    op: u32,
    req: &OpReq,
    ctx: &mut Ctx,
    info: &SurfaceInfo,
    codec: &HandleCodec,
    env: &Env,
    st: &mut State,
    ans: &Vec<Answer>,
    out: &mut XdrWriter,
    turn: Turn41,
    share: u16,
    node: NodeKey,
    want: Words,
    a: Attr,
)
    requires
        call_ensures(eval_op, (op, req, ctx, info, codec, env, st, ans, out), turn),
        old(ctx).cfh == Some((share, node)),
        req@ == (OpSpec::Getattr { want }),
        ans@.len() == 1,
        ans@[0] == Answer::Attr(Ok(a)),
    ensures
        turn == Turn41::Done(0),
        values_of(
            final(out)@,
            old(out)@.put_u32(op).put_u32(0),
            want,
            true,
            Source {
                attr: a,
                fileid: node.ino,
                share,
                fh: Some(fh_bytes(codec.key(), share, node)),
                fsstat: info.fsstat,
            },
        ),
        *final(st) == *old(st),
        final(ctx)@ == old(ctx)@,
{
    crate::laws::attrs41::fattr_is_joined(
        old(out)@.put_u32(op).put_u32(0),
        want,
        Source {
            attr: a,
            fileid: node.ino,
            share,
            fh: Some(fh_bytes(codec.key(), share, node)),
            fsstat: info.fsstat,
        },
    );
}

} // verus!
