//! Changes: what the guest is asked for, and what follows from its answer.
use crate::bytes::to_vec;
use crate::share::attrs::{
    apply_mac_attr, apply_set_attr, next_optimistic_ts, next_tick, not_behind, squash, squashed,
    time_not_behind, ts_of,
};
use crate::share::guest::{
    attr_of, effects, entry_of, mutate_attr, mutate_entry, mutate_ok, mutate_piece, ok_of, opt_bytes,
    piece_of, Effect, MacOp, Rec, RpcReq, RpcResp,
};
use crate::surface::{CreateKind, DirEntry, NfsResult, ReadDirPage, SetAttr};
use crate::types::{Attr, Kind, NodeKey};
use vstd::prelude::*;

verus! {

/// Most bytes in one write to the guest.
pub const WRITE_CHUNK: usize = 1_048_576;

/// Who the Mac user is.
#[derive(Debug, Clone, Copy, PartialEq, Eq, Structural)]
pub struct Owner {
    pub uid: u32,
    pub gid: u32,
}

/// What the guest calls an object of this kind, with its device number.
pub open spec fn kind_of(kind: CreateKind<Seq<u8>>) -> (Kind, u64) {
    match kind {
        CreateKind::File { .. } => (Kind::Reg, 0),
        CreateKind::Dir => (Kind::Dir, 0),
        CreateKind::Symlink { .. } => (Kind::Symlink, 0),
        CreateKind::Fifo => (Kind::Fifo, 0),
        CreateKind::Socket => (Kind::Sock, 0),
        CreateKind::Device { is_block, major, minor } => (
            if is_block {
                Kind::Blk
            } else {
                Kind::Chr
            },
            (major * 0x1_0000_0000 + minor) as u64,
        ),
    }
}

/// The target of a new symbolic link.
pub open spec fn target_of(kind: CreateKind<Seq<u8>>) -> Option<Seq<u8>> {
    match kind {
        CreateKind::Symlink { target } => Some(target),
        _ => None,
    }
}

fn target(kind: &CreateKind) -> (t: Option<Vec<u8>>)
    ensures
        opt_bytes(t) == target_of(kind@),
{
    match kind {
        CreateKind::Symlink { target } => Some(to_vec(target.as_slice())),
        _ => None,
    }
}

/// The request that creates an object.
pub fn create_req(dir: NodeKey, name: &[u8], kind: &CreateKind, mode: u16) -> (r: RpcReq)
    ensures
        r@ == (RpcReq::Create {
            dir,
            name: name@,
            kind: kind_of(kind@).0,
            mode,
            rdev: kind_of(kind@).1,
            symlink_target: target_of(kind@),
            exclusive: kind@ == (CreateKind::<Seq<u8>>::File { exclusive: true }),
        }),
{
    let exclusive = match kind {
        CreateKind::File { exclusive } => *exclusive,
        _ => false,
    };
    let (k, rdev): (Kind, u64) = match kind {
        CreateKind::File { .. } => (Kind::Reg, 0),
        CreateKind::Dir => (Kind::Dir, 0),
        CreateKind::Symlink { .. } => (Kind::Symlink, 0),
        CreateKind::Fifo => (Kind::Fifo, 0),
        CreateKind::Socket => (Kind::Sock, 0),
        CreateKind::Device { is_block, major, minor } => (
            if *is_block {
                Kind::Blk
            } else {
                Kind::Chr
            },
            *major as u64 * 0x1_0000_0000 + *minor as u64,
        ),
    };
    RpcReq::Create {
        dir,
        name: to_vec(name),
        kind: k,
        mode,
        rdev,
        symlink_target: target(kind),
        exclusive,
    }
}

/// What follows from the answer to a create.
pub open spec fn created(
    dir: NodeKey,
    name: Seq<u8>,
    kind: CreateKind<Seq<u8>>,
    resp: Option<RpcResp>,
    owner: Owner,
) -> (NfsResult<(NodeKey, Attr)>, Seq<Effect<Seq<u8>>>) {
    match entry_of(resp) {
        Err(e) => (Err(e), seq![]),
        Ok((node, attr)) => (
            Ok((node, squashed(attr, owner.uid, owner.gid))),
            seq![
                Effect::Apply(
                    Rec::Created { parent: dir, name, node, attr, symlink_target: target_of(kind) },
                ),
                Effect::MacDirty(node),
                Effect::BumpDir(dir),
            ],
        ),
    }
}

pub fn create_done(
    dir: NodeKey,
    name: &[u8],
    kind: &CreateKind,
    resp: &Option<RpcResp>,
    owner: Owner,
) -> (r: (NfsResult<(NodeKey, Attr)>, Vec<Effect>))
    ensures
        (r.0, effects(r.1@)) == created(dir, name@, kind@, *resp, owner),
{
    let mut list: Vec<Effect> = Vec::new();
    match mutate_entry(resp) {
        Err(e) => {
            proof {
                assert(effects(list@) =~= seq![]);
            }
            (Err(e), list)
        },
        Ok((node, attr)) => {
            list.push(
                Effect::Apply(
                    Rec::Created {
                        parent: dir,
                        name: to_vec(name),
                        node,
                        attr,
                        symlink_target: target(kind),
                    },
                ),
            );
            list.push(Effect::MacDirty(node));
            list.push(Effect::BumpDir(dir));
            proof {
                assert(effects(list@) =~= created(dir, name@, kind@, *resp, owner).1);
            }
            (Ok((node, squash(attr, owner.uid, owner.gid))), list)
        },
    }
}

/// The entries of a page with the Mac user as the owner, or without attributes where none were
/// asked for.
pub open spec fn shown(e: DirEntry, want_attrs: bool, owner: Owner, r: DirEntry) -> bool {
    &&& r.name == e.name
    &&& r.node == e.node
    &&& r.cookie == e.cookie
    &&& r.attr == (if want_attrs && e.attr is Some {
        Some(squashed(e.attr->0, owner.uid, owner.gid))
    } else {
        None
    })
}

/// A page of the replica's listing, as the client sees it. `dirgen` is the directory's
/// generation.
pub fn list_page(
    entries: Vec<DirEntry>,
    eof: bool,
    dirgen: u64,
    want_attrs: bool,
    owner: Owner,
) -> (page: ReadDirPage)
    ensures
        page.entries@.len() == entries@.len(),
        forall|i: int|
            0 <= i < entries@.len() ==> shown(
                #[trigger] entries@[i],
                want_attrs,
                owner,
                page.entries@[i],
            ),
        page.eof == eof,
        page.cookieverf == dirgen,
{
    let ghost all = entries@;
    let mut rest = entries;
    let mut out: Vec<DirEntry> = Vec::new();
    while rest.len() > 0
        invariant
            rest@.len() + out@.len() == all.len(),
            rest@ == all.skip(out@.len() as int),
            forall|i: int|
                0 <= i < out@.len() ==> shown(#[trigger] all[i], want_attrs, owner, out@[i]),
        decreases rest@.len(),
    {
        let ghost k = out@.len() as int;
        let e = rest.remove(0);
        proof {
            assert(e == all[k]);
            assert(rest@ =~= all.skip(k + 1));
        }
        let attr = match e.attr {
            Some(a) => if want_attrs {
                Some(squash(a, owner.uid, owner.gid))
            } else {
                None
            },
            None => None,
        };
        out.push(DirEntry { name: e.name, node: e.node, cookie: e.cookie, attr });
    }
    ReadDirPage { entries: out, eof, cookieverf: dirgen }
}

/// The request that removes an object.
pub fn remove_req(dir: NodeKey, name: &[u8], is_dir: bool) -> (r: RpcReq)
    ensures
        r@ == (if is_dir {
            RpcReq::Rmdir { dir, name: name@ }
        } else {
            RpcReq::Unlink { dir, name: name@ }
        }),
{
    if is_dir {
        RpcReq::Rmdir { dir, name: to_vec(name) }
    } else {
        RpcReq::Unlink { dir, name: to_vec(name) }
    }
}

/// What follows from the answer to a remove; `doomed` is the node that the name stood for.
pub open spec fn removed(
    dir: NodeKey,
    name: Seq<u8>,
    doomed: Option<NodeKey>,
    resp: Option<RpcResp>,
) -> (NfsResult<()>, Seq<Effect<Seq<u8>>>) {
    match ok_of(resp) {
        Err(e) => (Err(e), seq![]),
        Ok(_) => (
            Ok(()),
            (match doomed {
                Some(n) => seq![
                    Effect::Conflict(n, MacOp::Remove),
                    Effect::Invalidate(n),
                    Effect::Forget(n),
                ],
                None => seq![],
            }) + seq![Effect::Apply(Rec::Removed { parent: dir, name }), Effect::BumpDir(dir)],
        ),
    }
}

pub fn remove_done(dir: NodeKey, name: &[u8], doomed: Option<NodeKey>, resp: &Option<RpcResp>) -> (r:
    (NfsResult<()>, Vec<Effect>))
    ensures
        (r.0, effects(r.1@)) == removed(dir, name@, doomed, *resp),
{
    let mut list: Vec<Effect> = Vec::new();
    match mutate_ok(resp) {
        Err(e) => {
            proof {
                assert(effects(list@) =~= seq![]);
            }
            (Err(e), list)
        },
        Ok(_) => {
            if let Some(n) = doomed {
                list.push(Effect::Conflict(n, MacOp::Remove));
                list.push(Effect::Invalidate(n));
                list.push(Effect::Forget(n));
            }
            list.push(Effect::Apply(Rec::Removed { parent: dir, name: to_vec(name) }));
            list.push(Effect::BumpDir(dir));
            proof {
                assert(effects(list@) =~= removed(dir, name@, doomed, *resp).1);
            }
            (Ok(()), list)
        },
    }
}

/// The request that renames an object.
pub fn rename_req(from_dir: NodeKey, from_name: &[u8], to_dir: NodeKey, to_name: &[u8]) -> (r:
    RpcReq)
    ensures
        r@ == (RpcReq::Rename { from_dir, from_name: from_name@, to_dir, to_name: to_name@ }),
{
    RpcReq::Rename { from_dir, from_name: to_vec(from_name), to_dir, to_name: to_vec(to_name) }
}

/// What follows from the answer to a rename: both directories changed.
pub open spec fn renamed(
    from_dir: NodeKey,
    from_name: Seq<u8>,
    to_dir: NodeKey,
    to_name: Seq<u8>,
    resp: Option<RpcResp>,
) -> (NfsResult<()>, Seq<Effect<Seq<u8>>>) {
    match ok_of(resp) {
        Err(e) => (Err(e), seq![]),
        Ok(_) => (
            Ok(()),
            seq![
                Effect::Apply(
                    Rec::Renamed { from_parent: from_dir, from_name, to_parent: to_dir, to_name },
                ),
                Effect::BumpDir(from_dir),
            ] + (if to_dir != from_dir {
                seq![Effect::BumpDir(to_dir)]
            } else {
                seq![]
            }),
        ),
    }
}

pub fn rename_done(
    from_dir: NodeKey,
    from_name: &[u8],
    to_dir: NodeKey,
    to_name: &[u8],
    resp: &Option<RpcResp>,
) -> (r: (NfsResult<()>, Vec<Effect>))
    ensures
        (r.0, effects(r.1@)) == renamed(from_dir, from_name@, to_dir, to_name@, *resp),
{
    let mut list: Vec<Effect> = Vec::new();
    match mutate_ok(resp) {
        Err(e) => {
            proof {
                assert(effects(list@) =~= seq![]);
            }
            (Err(e), list)
        },
        Ok(_) => {
            list.push(
                Effect::Apply(
                    Rec::Renamed {
                        from_parent: from_dir,
                        from_name: to_vec(from_name),
                        to_parent: to_dir,
                        to_name: to_vec(to_name),
                    },
                ),
            );
            list.push(Effect::BumpDir(from_dir));
            if to_dir != from_dir {
                list.push(Effect::BumpDir(to_dir));
            }
            proof {
                assert(effects(list@) =~= renamed(
                    from_dir,
                    from_name@,
                    to_dir,
                    to_name@,
                    *resp,
                ).1);
            }
            (Ok(()), list)
        },
    }
}

/// The request that sets attributes. A truncation waits for every batch of the node first: a late
/// write would bring the tail back.
pub fn setattr_req(node: NodeKey, set: SetAttr) -> (r: RpcReq)
    ensures
        r@ == (RpcReq::<Seq<u8>>::SetAttr { node, set }),
{
    RpcReq::SetAttr { node, set }
}

/// What follows from the answer to setting attributes; `cur` is what the replica has.
pub open spec fn set(
    node: NodeKey,
    set: SetAttr,
    cur: Option<Attr>,
    resp: Option<RpcResp>,
    owner: Owner,
) -> (NfsResult<Attr>, Seq<Effect<Seq<u8>>>) {
    match attr_of(resp) {
        Err(e) => (Err(e), seq![]),
        Ok(a) => {
            let attr = time_not_behind(cur, a);
            (
                Ok(squashed(attr, owner.uid, owner.gid)),
                seq![Effect::MacDirty(node), Effect::Conflict(node, MacOp::Setattr)] + (
                if set.size is Some {
                    seq![Effect::Invalidate(node)]
                } else {
                    seq![]
                }) + seq![Effect::Apply(Rec::AttrChanged { node, attr })],
            )
        },
    }
}

pub fn setattr_done(
    node: NodeKey,
    set: &SetAttr,
    cur: Option<Attr>,
    resp: &Option<RpcResp>,
    owner: Owner,
) -> (r: (NfsResult<Attr>, Vec<Effect>))
    ensures
        (r.0, effects(r.1@)) == self::set(node, *set, cur, *resp, owner),
{
    let mut list: Vec<Effect> = Vec::new();
    match mutate_attr(resp) {
        Err(e) => {
            proof {
                assert(effects(list@) =~= seq![]);
            }
            (Err(e), list)
        },
        Ok(a) => {
            list.push(Effect::MacDirty(node));
            list.push(Effect::Conflict(node, MacOp::Setattr));
            if set.size.is_some() {
                list.push(Effect::Invalidate(node));
            }
            let attr = apply_set_attr(cur, a);
            list.push(Effect::Apply(Rec::AttrChanged { node, attr }));
            proof {
                assert(effects(list@) =~= self::set(node, *set, cur, *resp, owner).1);
            }
            (Ok(squash(attr, owner.uid, owner.gid)), list)
        },
    }
}

/// A write cut into pieces that the guest takes, from the `i`-th byte on.
pub open spec fn pieces_of(node: NodeKey, offset: u64, data: Seq<u8>) -> Seq<RpcReq<Seq<u8>>>
    decreases data.len(),
{
    if data.len() == 0 {
        seq![]
    } else {
        let n: int = if data.len() < WRITE_CHUNK {
            data.len() as int
        } else {
            WRITE_CHUNK as int
        };
        seq![RpcReq::Write { node, off: offset, sync: false, data: data.take(n) }] + pieces_of(
            node,
            (offset + n) as u64,
            data.skip(n),
        )
    }
}

pub open spec fn reqs(list: Seq<RpcReq>) -> Seq<RpcReq<Seq<u8>>> {
    Seq::new(list.len(), |i: int| list[i]@)
}

/// A write cut into pieces that the guest takes.
pub fn write_pieces(node: NodeKey, offset: u64, data: &[u8]) -> (list: Vec<RpcReq>)
    requires
        offset + data@.len() <= u64::MAX,
    ensures
        reqs(list@) == pieces_of(node, offset, data@),
{
    let mut list: Vec<RpcReq> = Vec::new();
    let mut at: usize = 0;
    proof {
        assert(data@.skip(0) =~= data@);
        assert(reqs(list@) + pieces_of(node, offset, data@) =~= pieces_of(node, offset, data@));
    }
    while at < data.len()
        invariant
            offset + data@.len() <= u64::MAX,
            at <= data@.len(),
            reqs(list@) + pieces_of(node, (offset + at) as u64, data@.skip(at as int)) == pieces_of(
                node,
                offset,
                data@,
            ),
        decreases data@.len() - at,
    {
        let n: usize = if data.len() - at < WRITE_CHUNK {
            data.len() - at
        } else {
            WRITE_CHUNK
        };
        let ghost rest = data@.skip(at as int);
        let ghost before = reqs(list@);
        let piece = to_vec(vstd::slice::slice_subrange(data, at, at + n));
        proof {
            assert(piece@ =~= rest.take(n as int));
            assert(rest.skip(n as int) =~= data@.skip(at + n));
        }
        let req = RpcReq::Write { node, off: offset + at as u64, sync: false, data: piece };
        list.push(req);
        proof {
            assert(reqs(list@) =~= before.push(req@));
            assert(reqs(list@) + pieces_of(node, (offset + at + n) as u64, data@.skip(at + n))
                =~= before + pieces_of(node, (offset + at) as u64, rest));
        }
        at = at + n;
    }
    proof {
        assert(data@.skip(at as int) =~= Seq::<u8>::empty());
        assert(reqs(list@) =~= reqs(list@) + pieces_of(
            node,
            (offset + at) as u64,
            data@.skip(at as int),
        ));
    }
    list
}

/// The outcome of a write in pieces: that of the first piece that failed.
pub open spec fn first_failure(resps: Seq<Option<RpcResp>>) -> NfsResult<()>
    decreases resps.len(),
{
    if resps.len() == 0 {
        Ok(())
    } else {
        match piece_of(resps[0]) {
            Err(e) => Err(e),
            Ok(_) => first_failure(resps.skip(1)),
        }
    }
}

pub fn pieces_done(resps: &Vec<Option<RpcResp>>) -> (r: NfsResult<()>)
    ensures
        r == first_failure(resps@),
{
    let mut i: usize = 0;
    proof {
        assert(resps@.skip(0) =~= resps@);
    }
    while i < resps.len()
        invariant
            i <= resps@.len(),
            first_failure(resps@) == first_failure(resps@.skip(i as int)),
        decreases resps@.len() - i,
    {
        proof {
            assert(resps@.skip(i as int).skip(1) =~= resps@.skip(i + 1));
        }
        match mutate_piece(&resps[i]) {
            Err(e) => {
                return Err(e);
            },
            Ok(_) => {},
        }
        i = i + 1;
    }
    Ok(())
}

/// How a write is done.
#[derive(Debug)]
pub enum WritePlan {
    /// At once, in one durable write; its answer is the outcome.
    Inline(RpcReq),
    /// At once, in pieces, then made durable; the answer to that is the outcome.
    Through { pieces: Vec<RpcReq>, commit: RpcReq },
    /// Later: it is queued and answered.
    Behind,
}

/// How a write is done. One that has to be durable waits for every batch of the node first.
pub fn plan_write(node: NodeKey, offset: u64, data: &[u8], sync: bool) -> (p: WritePlan)
    requires
        offset + data@.len() <= u64::MAX,
    ensures
        if !sync && data@.len() > 0 {
            p is Behind
        } else if 0 < data@.len() <= WRITE_CHUNK {
            p is Inline && p->Inline_0@ == (RpcReq::Write {
                node,
                off: offset,
                sync: true,
                data: data@,
            })
        } else {
            p is Through && reqs(p->pieces@) == pieces_of(node, offset, data@) && p->commit@ == (
            RpcReq::<Seq<u8>>::Commit { node })
        },
{
    if sync || data.len() == 0 {
        if data.len() <= WRITE_CHUNK && data.len() != 0 {
            return WritePlan::Inline(
                RpcReq::Write { node, off: offset, sync: true, data: to_vec(data) },
            );
        }
        return WritePlan::Through {
            pieces: write_pieces(node, offset, data),
            commit: RpcReq::Commit { node },
        };
    }
    WritePlan::Behind
}

/// What every write brings with it: its echo is not news, the guest may have written too, and
/// what is cached of the node is out of date.
pub open spec fn write_noted(node: NodeKey) -> Seq<Effect<Seq<u8>>> {
    seq![Effect::MacDirty(node), Effect::Conflict(node, MacOp::Write), Effect::Invalidate(node)]
}

fn note_write(list: &mut Vec<Effect>, node: NodeKey)
    ensures
        effects(final(list)@) == effects(old(list)@) + write_noted(node),
{
    list.push(Effect::MacDirty(node));
    list.push(Effect::Conflict(node, MacOp::Write));
    list.push(Effect::Invalidate(node));
    proof {
        assert(effects(list@) =~= effects(old(list)@) + write_noted(node));
    }
}

/// What follows from the last answer to a durable write.
pub open spec fn written(node: NodeKey, cur: Option<Attr>, resp: Option<RpcResp>, owner: Owner) -> (
    NfsResult<Attr>,
    Seq<Effect<Seq<u8>>>,
) {
    match attr_of(resp) {
        Err(e) => (Err(e), seq![]),
        Ok(a) => {
            let attr = not_behind(cur, a);
            (
                Ok(squashed(attr, owner.uid, owner.gid)),
                write_noted(node) + seq![Effect::Apply(Rec::AttrChanged { node, attr })],
            )
        },
    }
}

pub fn write_done(node: NodeKey, cur: Option<Attr>, resp: &Option<RpcResp>, owner: Owner) -> (r: (
    NfsResult<Attr>,
    Vec<Effect>,
))
    ensures
        (r.0, effects(r.1@)) == written(node, cur, *resp, owner),
{
    let mut list: Vec<Effect> = Vec::new();
    proof {
        assert(effects(list@) =~= seq![]);
    }
    match mutate_attr(resp) {
        Err(e) => (Err(e), list),
        Ok(a) => {
            note_write(&mut list, node);
            let attr = apply_mac_attr(cur, a);
            list.push(Effect::Apply(Rec::AttrChanged { node, attr }));
            proof {
                assert(effects(list@) =~= written(node, cur, *resp, owner).1);
            }
            (Ok(squash(attr, owner.uid, owner.gid)), list)
        },
    }
}

/// The attributes that a queued write is answered with: the file has grown if it had to, and its
/// time has moved on.
pub open spec fn queued_attr(cur: Attr, offset: u64, len: nat, clock: u64, now: u64) -> Attr {
    Attr {
        size: if cur.size < offset + len {
            (offset + len) as u64
        } else {
            cur.size
        },
        mtime: ts_of(next_tick(clock, now, cur.mtime) as u64),
        ..cur
    }
}

/// What follows from queueing a write; `cur` is what the replica has, `clock` the process's clock
/// of stamps, `now` the wall clock in nanoseconds.
pub fn write_queued(
    node: NodeKey,
    cur: Attr,
    offset: u64,
    len: usize,
    clock: &mut u64,
    now: u64,
    owner: Owner,
) -> (r: (Attr, Vec<Effect>))
    requires
        offset + len <= u64::MAX,
        next_tick(*old(clock), now, cur.mtime) <= u64::MAX,
    ensures
        *final(clock) == next_tick(*old(clock), now, cur.mtime),
        ({
            let attr = queued_attr(cur, offset, len as nat, *old(clock), now);
            &&& r.0 == squashed(attr, owner.uid, owner.gid)
            &&& effects(r.1@) == seq![
                Effect::<Seq<u8>>::Apply(Rec::AttrChanged { node, attr }),
            ] + write_noted(node)
        }),
{
    let mut attr = cur;
    let end: u64 = offset + len as u64;
    if attr.size < end {
        attr.size = end;
    }
    attr.mtime = next_optimistic_ts(clock, now, cur.mtime);
    let mut list: Vec<Effect> = Vec::new();
    list.push(Effect::Apply(Rec::AttrChanged { node, attr }));
    proof {
        assert(effects(list@) =~= seq![
            Effect::<Seq<u8>>::Apply(Rec::AttrChanged { node, attr }),
        ]);
    }
    note_write(&mut list, node);
    (squash(attr, owner.uid, owner.gid), list)
}

/// The request that makes a part of a file durable; a length of 0 is the whole file.
pub fn commit_req(node: NodeKey, off: u64, len: u64) -> (r: RpcReq)
    ensures
        r@ == (RpcReq::<Seq<u8>>::CommitRange { node, off, len }),
{
    RpcReq::CommitRange { node, off, len }
}

/// How many bytes a commit waits for.
pub fn commit_span(len: u64) -> (n: u64)
    ensures
        n == if len == 0 {
            u64::MAX
        } else {
            len
        },
{
    if len == 0 {
        u64::MAX
    } else {
        len
    }
}

/// What follows from the answer to a commit.
pub open spec fn committed(node: NodeKey, cur: Option<Attr>, resp: Option<RpcResp>, owner: Owner) -> (
    NfsResult<Attr>,
    Seq<Effect<Seq<u8>>>,
) {
    match attr_of(resp) {
        Err(e) => (Err(e), seq![]),
        Ok(a) => {
            let attr = not_behind(cur, a);
            (
                Ok(squashed(attr, owner.uid, owner.gid)),
                seq![Effect::MacDirty(node), Effect::Apply(Rec::AttrChanged { node, attr })],
            )
        },
    }
}

pub fn commit_done(node: NodeKey, cur: Option<Attr>, resp: &Option<RpcResp>, owner: Owner) -> (r: (
    NfsResult<Attr>,
    Vec<Effect>,
))
    ensures
        (r.0, effects(r.1@)) == committed(node, cur, *resp, owner),
{
    let mut list: Vec<Effect> = Vec::new();
    match mutate_attr(resp) {
        Err(e) => {
            proof {
                assert(effects(list@) =~= seq![]);
            }
            (Err(e), list)
        },
        Ok(a) => {
            list.push(Effect::MacDirty(node));
            let attr = apply_mac_attr(cur, a);
            list.push(Effect::Apply(Rec::AttrChanged { node, attr }));
            proof {
                assert(effects(list@) =~= committed(node, cur, *resp, owner).1);
            }
            (Ok(squash(attr, owner.uid, owner.gid)), list)
        },
    }
}

/// The bytes of the pieces, one after the other.
pub open spec fn joined(list: Seq<RpcReq<Seq<u8>>>) -> Seq<u8>
    decreases list.len(),
{
    if list.len() == 0 {
        seq![]
    } else {
        (match list[0] {
            RpcReq::Write { data, .. } => data,
            _ => seq![],
        }) + joined(list.skip(1))
    }
}

/// The pieces of a write hold all its bytes, in order, and none is too large for the guest.
pub proof fn pieces_are_the_write(node: NodeKey, offset: u64, data: Seq<u8>)
    ensures
        joined(pieces_of(node, offset, data)) == data,
        forall|i: int|
            0 <= i < pieces_of(node, offset, data).len() ==> match #[trigger] pieces_of(
                node,
                offset,
                data,
            )[i] {
                RpcReq::Write { data, .. } => 0 < data.len() <= WRITE_CHUNK,
                _ => false,
            },
    decreases data.len(),
{
    if data.len() > 0 {
        let n: int = if data.len() < WRITE_CHUNK {
            data.len() as int
        } else {
            WRITE_CHUNK as int
        };
        let p = pieces_of(node, offset, data);
        let rest = pieces_of(node, (offset + n) as u64, data.skip(n));
        pieces_are_the_write(node, (offset + n) as u64, data.skip(n));
        assert(p.skip(1) =~= rest);
        assert(data.take(n) + data.skip(n) =~= data);
        assert forall|i: int| 0 <= i < p.len() implies match #[trigger] p[i] {
            RpcReq::Write { data, .. } => 0 < data.len() <= WRITE_CHUNK,
            _ => false,
        } by {
            if i > 0 {
                assert(p[i] == rest[i - 1]);
            }
        }
    }
}

/// A change that failed changes nothing: not the replica, not the cache, not the queues.
pub proof fn failure_has_no_effect(
    dir: NodeKey,
    name: Seq<u8>,
    kind: CreateKind<Seq<u8>>,
    doomed: Option<NodeKey>,
    to_dir: NodeKey,
    to_name: Seq<u8>,
    fields: SetAttr,
    cur: Option<Attr>,
    resp: Option<RpcResp>,
    owner: Owner,
)
    ensures
        created(dir, name, kind, resp, owner).0 is Err ==> created(
            dir,
            name,
            kind,
            resp,
            owner,
        ).1.len() == 0,
        removed(dir, name, doomed, resp).0 is Err ==> removed(dir, name, doomed, resp).1.len() == 0,
        renamed(dir, name, to_dir, to_name, resp).0 is Err ==> renamed(
            dir,
            name,
            to_dir,
            to_name,
            resp,
        ).1.len() == 0,
        set(dir, fields, cur, resp, owner).0 is Err ==> set(
            dir,
            fields,
            cur,
            resp,
            owner,
        ).1.len() == 0,
        written(dir, cur, resp, owner).0 is Err ==> written(dir, cur, resp, owner).1.len() == 0,
        committed(dir, cur, resp, owner).0 is Err ==> committed(dir, cur, resp, owner).1.len()
            == 0,
{
}

} // verus!
