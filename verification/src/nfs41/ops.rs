//! The operations of a COMPOUND, evaluated one step at a time: a step asks the exported tree
//! something, or ends the operation with its result.
use crate::handle::HandleCodec;
use crate::nfs3::fh_bytes;
use crate::nfs41::attrs::{
    change_attr, change_of, encode_fattr4, put_bitmap, put_fattr4, Bitmap, Source,
};
use crate::nfs41::deleg::unknown_stateid;
use crate::nfs41::request::{
    words_seq, OpReq, OpSpec, Words, ERR_ACCESS, ERR_BAD_STATEID, ERR_DELAY, ERR_EXIST, ERR_INVAL,
    ERR_IO, ERR_ISDIR, ERR_NAMETOOLONG, ERR_NOENT, ERR_NOFILEHANDLE, ERR_NOSPC, ERR_NOTDIR,
    ERR_NOTEMPTY, ERR_ROFS, ERR_STALE, ERR_STALE_STATEID, NFS4_OK,
};
use crate::nfs41::state::{all_zero, is_all, State};
use crate::surface::{
    attr_in, data_in, done_in, entry_in, page_in, parent_in, range_in, target_in, Answer, Ask,
    CreateKind, DirEntry, FsStat, NfsError, ReadDirPage, SendRange, SetAttr, SurfaceInfo,
};
use crate::types::{Attr, Kind, NodeKey, Ts};
use crate::xdr::{grows, Wire, XdrWriter};
use vstd::prelude::*;

verus! {

broadcast use crate::xdr::group_grows;

pub open spec fn status_number(e: NfsError) -> u32 {
    match e {
        NfsError::NoEnt => ERR_NOENT,
        NfsError::NotDir => ERR_NOTDIR,
        NfsError::IsDir => ERR_ISDIR,
        NfsError::NotSymlink => ERR_INVAL,
        NfsError::Stale => ERR_STALE,
        NfsError::Access => ERR_ACCESS,
        NfsError::Io => ERR_IO,
        NfsError::Jukebox => ERR_DELAY,
        NfsError::NameTooLong => ERR_NAMETOOLONG,
        NfsError::NotEmpty => ERR_NOTEMPTY,
        NfsError::Exist => ERR_EXIST,
        NfsError::NoSpace => ERR_NOSPC,
        NfsError::Rofs => ERR_ROFS,
    }
}

/// The nfsstat4 of an error.
pub fn status_of(e: NfsError) -> (st: u32)
    ensures
        st == status_number(e),
        st != NFS4_OK,
{
    match e {
        NfsError::NoEnt => ERR_NOENT,
        NfsError::NotDir => ERR_NOTDIR,
        NfsError::IsDir => ERR_ISDIR,
        NfsError::NotSymlink => ERR_INVAL,
        NfsError::Stale => ERR_STALE,
        NfsError::Access => ERR_ACCESS,
        NfsError::Io => ERR_IO,
        NfsError::Jukebox => ERR_DELAY,
        NfsError::NameTooLong => ERR_NAMETOOLONG,
        NfsError::NotEmpty => ERR_NOTEMPTY,
        NfsError::Exist => ERR_EXIST,
        NfsError::NoSpace => ERR_NOSPC,
        NfsError::Rofs => ERR_ROFS,
    }
}

/// What a compound carries from operation to operation.
#[derive(Debug, Clone, Copy)]
pub struct Ctx<O = [u8; 12]> {
    /// Current and saved file: the share and the node.
    pub cfh: Option<(u16, NodeKey)>,
    pub sfh: Option<(u16, NodeKey)>,
    /// The `other` field of the last stateid that an operation produced.
    pub current: Option<O>,
    /// The operation is the compound's last.
    pub is_last: bool,
    /// The reply need not be cached, so a payload may bypass it.
    pub allow_sendfile: bool,
}

impl Ctx<[u8; 12]> {
    pub open spec fn view(&self) -> Ctx<Seq<u8>> {
        Ctx {
            cfh: self.cfh,
            sfh: self.sfh,
            current: match self.current {
                Some(o) => Some(o@),
                None => None,
            },
            is_last: self.is_last,
            allow_sendfile: self.allow_sendfile,
        }
    }
}

/// What an operation needs of the outside: an unguessable number, and a steady clock.
#[derive(Debug, Clone, Copy)]
pub struct Env {
    pub nonce: u64,
    pub now: u64,
}

/// The next move of an operation.
#[derive(Debug)]
pub enum Turn41 {
    Ask(Ask),
    /// The result is written; the operation's status.
    Done(u32),
    /// The result's head is written, the status is OK, and the payload follows from a local file.
    DoneFile(SendRange),
}

/// The next move of an operation that leaves the server's state alone.
pub enum Move41 {
    Ask(Ask<Seq<u8>>),
    Done { out: Seq<u8>, st: u32, ctx: Ctx<Seq<u8>> },
    DoneFile { out: Seq<u8>, range: SendRange },
}

/// That an operation did what `m` says.
pub open spec fn did41(
    m: Move41,
    turn: Turn41,
    out0: Seq<u8>,
    out1: Seq<u8>,
    ctx0: Ctx<Seq<u8>>,
    ctx1: Ctx<Seq<u8>>,
) -> bool {
    match m {
        Move41::Ask(ask) => turn is Ask && turn->Ask_0@ == ask && out1 == out0 && ctx1 == ctx0,
        Move41::Done { out, st, ctx } => turn == Turn41::Done(st) && out1 == out && ctx1 == ctx,
        Move41::DoneFile { out, range } => turn == Turn41::DoneFile(range) && out1 == out && ctx1
            == ctx0,
    }
}

/// The head of a result: the operation's number and its status.
pub open spec fn put_head(s: Seq<u8>, op: u32, st: u32) -> Seq<u8> {
    s.put_u32(op).put_u32(st)
}

/// A failed operation's result is its head alone.
pub open spec fn failed(s: Seq<u8>, op: u32, st: u32, ctx: Ctx<Seq<u8>>) -> Move41 {
    Move41::Done { out: put_head(s, op, st), st, ctx }
}

/// A successful operation's result: `out` starts with the head.
pub open spec fn okay(out: Seq<u8>, ctx: Ctx<Seq<u8>>) -> Move41 {
    Move41::Done { out, st: NFS4_OK, ctx }
}

pub(crate) fn end_with(out: &mut XdrWriter, op: u32, st: u32) -> (turn: Turn41)
    ensures
        grows(old(out)@, final(out)@),
        final(out)@ == put_head(old(out)@, op, st),
        turn == Turn41::Done(st),
{
    out.u32(op);
    out.u32(st);
    Turn41::Done(st)
}

/// The stateid that an argument stands for: the compound's current one for the special value,
/// otherwise itself.
pub open spec fn resolved(ctx: Ctx<Seq<u8>>, seq: u32, other: Seq<u8>) -> Seq<u8> {
    if all_zero(other) && seq == 1 && ctx.current is Some {
        ctx.current->0
    } else {
        other
    }
}

pub fn resolve_stateid(ctx: &Ctx, seq: u32, other: &[u8; 12]) -> (r: [u8; 12])
    ensures
        r@ == resolved(ctx@, seq, other@),
{
    if is_all(other, 0) && seq == 1 {
        if let Some(cur) = ctx.current {
            return cur;
        }
    }
    *other
}

/// Directory change information: the change is reported as atomic, as nothing else interleaves.
pub open spec fn put_change(s: Seq<u8>, before: u64, after: u64) -> Seq<u8> {
    s.put_bool(true).put_u64(before).put_u64(after)
}

pub(crate) fn change_info(w: &mut XdrWriter, before: u64, after: u64)
    ensures
        grows(old(w)@, final(w)@),
        final(w)@ == put_change(old(w)@, before, after),
{
    w.bool(true);
    w.u64(before);
    w.u64(after);
}

/// The change attribute in an answer, zero where there is none.
pub open spec fn change_in(a: Answer) -> u64 {
    match attr_in(a) {
        Ok(attr) => change_attr(attr),
        Err(_) => 0,
    }
}

pub(crate) fn dir_change(a: &Answer) -> (c: u64)
    ensures
        c == change_in(*a),
{
    match a.attr() {
        Ok(attr) => change_of(&attr),
        Err(_) => 0,
    }
}

/// Channel attributes as granted.
pub open spec fn put_chan(s: Seq<u8>, max_req: u32, slots: u32) -> Seq<u8> {
    s.put_u32(0).put_u32(max_req).put_u32(max_req).put_u32(0x1_0000).put_u32(64).put_u32(
        slots,
    ).put_u32(0)
}

pub(crate) fn write_chan_attrs(w: &mut XdrWriter, max_req: u32, slots: u32)
    ensures
        grows(old(w)@, final(w)@),
        final(w)@ == put_chan(old(w)@, max_req, slots),
{
    w.u32(0);
    w.u32(max_req);
    w.u32(max_req);
    w.u32(0x1_0000);
    w.u32(64);
    w.u32(slots);
    w.u32(0);
}

fn words_bitmap(w: Words) -> (b: Bitmap)
    ensures
        b.words@ == words_seq(w),
{
    let b = Bitmap { words: [w.0, w.1, w.2] };
    proof {
        assert(b.words@ =~= words_seq(w));
    }
    b
}

// ---- operations on the tree --------------------------------------------------------------------

/// The attributes of a listed entry that came without any.
pub open spec fn blank_attr() -> Attr {
    Attr {
        kind: Kind::Reg,
        mode: 0,
        nlink: 1,
        uid: 0,
        gid: 0,
        size: 0,
        blocks: 0,
        mtime: Ts { sec: 0, nsec: 0 },
        ctime: Ts { sec: 0, nsec: 0 },
        rdev: 0,
        content_version: 0,
    }
}

fn attr_or_blank(a: Option<Attr>) -> (r: Attr)
    ensures
        r == (match a {
            Some(a) => a,
            None => blank_attr(),
        }),
{
    match a {
        Some(a) => a,
        None => Attr {
            kind: Kind::Reg,
            mode: 0,
            nlink: 1,
            uid: 0,
            gid: 0,
            size: 0,
            blocks: 0,
            mtime: Ts { sec: 0, nsec: 0 },
            ctime: Ts { sec: 0, nsec: 0 },
            rdev: 0,
            content_version: 0,
        },
    }
}

/// Where a node's attributes come from.
pub open spec fn source_of(
    attr: Attr,
    share: u16,
    node: NodeKey,
    key: Seq<u8>,
    fsstat: FsStat,
) -> Source<Seq<u8>> {
    Source { attr, fileid: node.ino, share, fh: Some(fh_bytes(key, share, node)), fsstat }
}

fn write_attrs(
    w: &mut XdrWriter,
    want: Words,
    attr: Attr,
    share: u16,
    node: NodeKey,
    codec: &HandleCodec,
    fsstat: FsStat,
)
    ensures
        grows(old(w)@, final(w)@),
        final(w)@ == put_fattr4(
            old(w)@,
            words_seq(want),
            source_of(attr, share, node, codec.key(), fsstat),
        ),
{
    let fh = codec.encode(share, node);
    let bm = words_bitmap(want);
    let src = Source { attr, fileid: node.ino, share, fh: Some(fh.as_slice()), fsstat };
    encode_fattr4(w, &bm, &src);
}

/// One entry of a listing: a cookie that is never a reserved one, the name, the attributes.
pub open spec fn entry_bytes(
    e: DirEntry,
    want: Words,
    share: u16,
    key: Seq<u8>,
    fsstat: FsStat,
) -> Seq<u8> {
    let cookie = if e.cookie < 3 {
        3
    } else {
        e.cookie
    };
    let attr = match e.attr {
        Some(a) => a,
        None => blank_attr(),
    };
    put_fattr4(
        Seq::<u8>::empty().put_u64(cookie).put_opaque(e.name@),
        words_seq(want),
        source_of(attr, share, e.node, key, fsstat),
    )
}

/// The entries from the `i`-th on, up to the first that does not fit in `budget`: the bytes, and
/// whether all went in.
pub open spec fn put_listing(
    s: Seq<u8>,
    entries: Seq<DirEntry>,
    i: nat,
    budget: int,
    want: Words,
    share: u16,
    key: Seq<u8>,
    fsstat: FsStat,
) -> (Seq<u8>, bool)
    decreases entries.len() - i,
{
    if i >= entries.len() {
        (s, true)
    } else {
        let ent = entry_bytes(entries[i as int], want, share, key, fsstat);
        if ent.len() + 8 > budget {
            (s, false)
        } else {
            put_listing(
                s.put_bool(true).put_fixed(ent),
                entries,
                i + 1,
                budget - (ent.len() + 4),
                want,
                share,
                key,
                fsstat,
            )
        }
    }
}

/// How many bytes of entries a listing may take.
pub open spec fn listing_budget(maxcount: u32) -> int {
    if maxcount <= 2_096_640 {
        maxcount as int
    } else {
        2_096_640
    }
}

pub open spec fn readdir_result(
    s: Seq<u8>,
    op: u32,
    page: ReadDirPage,
    maxcount: u32,
    want: Words,
    share: u16,
    key: Seq<u8>,
    fsstat: FsStat,
) -> Seq<u8> {
    let head = put_head(s, op, NFS4_OK).put_u64(page.cookieverf);
    let (body, all) = put_listing(
        head,
        page.entries@,
        0,
        listing_budget(maxcount),
        want,
        share,
        key,
        fsstat,
    );
    body.put_bool(false).put_bool(page.eof && all)
}

fn op_readdir(
    out: &mut XdrWriter,
    op: u32,
    page: &ReadDirPage,
    maxcount: u32,
    want: Words,
    share: u16,
    codec: &HandleCodec,
    fsstat: FsStat,
)
    ensures
        grows(old(out)@, final(out)@),
        final(out)@ == readdir_result(
            old(out)@,
            op,
            *page,
            maxcount,
            want,
            share,
            codec.key(),
            fsstat,
        ),
{
    out.u32(op);
    out.u32(NFS4_OK);
    out.u64(page.cookieverf);
    let ghost whole = put_listing(
        out@,
        page.entries@,
        0,
        listing_budget(maxcount),
        want,
        share,
        codec.key(),
        fsstat,
    );
    let mut budget: u32 = if maxcount <= 2_096_640 {
        maxcount
    } else {
        2_096_640
    };
    let mut all = true;
    let mut i: usize = 0;
    while i < page.entries.len()
        invariant_except_break
            i <= page.entries@.len(),
            all,
            grows(old(out)@, out@),
            whole == put_listing(
                out@,
                page.entries@,
                i as nat,
                budget as int,
                want,
                share,
                codec.key(),
                fsstat,
            ),
        ensures
            whole == (out@, all),
            grows(old(out)@, out@),
        decreases page.entries@.len() - i,
    {
        let e = &page.entries[i];
        let mut ent = XdrWriter::new();
        ent.u64(
            if e.cookie < 3 {
                3
            } else {
                e.cookie
            },
        );
        ent.opaque(e.name.as_slice());
        let attr = attr_or_blank(e.attr);
        write_attrs(&mut ent, want, attr, share, e.node, codec, fsstat);
        if ent.len() as u128 + 8 > budget as u128 {
            all = false;
            break;
        }
        budget = budget - (ent.len() as u32 + 4);
        out.bool(true);
        out.fixed(ent.into_bytes().as_slice());
        i = i + 1;
    }
    out.bool(false);
    out.bool(page.eof && all);
}

/// The access bits of a node: reading always, lookup on directories, execution elsewhere, and
/// modify, extend and delete where the tree is writable. The guest enforces the rest.
pub open spec fn access41(kind: Kind, writable: bool) -> u32 {
    if kind == Kind::Dir {
        if writable {
            0x1f
        } else {
            0x03
        }
    } else {
        if writable {
            0x3d
        } else {
            0x21
        }
    }
}

/// What an operation that leaves the server's state alone does: those on files, directories and
/// attributes. A stateid is looked at once, before the tree is asked anything.
pub open spec fn tree_move(
    op: u32,
    req: OpSpec,
    ctx: Ctx<Seq<u8>>,
    info: SurfaceInfo,
    key: Seq<u8>,
    st: State,
    ans: Seq<Answer>,
    s: Seq<u8>,
) -> Move41 {
    let (share, node) = ctx.cfh->0;
    if ctx.cfh is None {
        failed(s, op, ERR_NOFILEHANDLE, ctx)
    } else {
        match req {
            OpReq::Lookup { name } => if name.len() > 255 {
                failed(s, op, ERR_NAMETOOLONG, ctx)
            } else if ans.len() == 0 {
                Move41::Ask(Ask::Lookup { dir: node, name })
            } else {
                match entry_in(ans[0]) {
                    Ok((child, _)) => okay(
                        put_head(s, op, NFS4_OK),
                        Ctx { cfh: Some((share, child)), ..ctx },
                    ),
                    Err(e) => failed(s, op, status_number(e), ctx),
                }
            },
            OpReq::Lookupp => if ans.len() == 0 {
                Move41::Ask(Ask::Parent(node))
            } else {
                match parent_in(ans[0]) {
                    Ok(parent) => okay(
                        put_head(s, op, NFS4_OK),
                        Ctx { cfh: Some((share, parent)), ..ctx },
                    ),
                    Err(e) => failed(s, op, status_number(e), ctx),
                }
            },
            OpReq::Getattr { want } => if ans.len() == 0 {
                Move41::Ask(Ask::Getattr(node))
            } else {
                match attr_in(ans[0]) {
                    Ok(attr) => okay(
                        put_fattr4(
                            put_head(s, op, NFS4_OK),
                            words_seq(want),
                            source_of(attr, share, node, key, info.fsstat),
                        ),
                        ctx,
                    ),
                    Err(e) => failed(s, op, status_number(e), ctx),
                }
            },
            OpReq::Access { want } => if ans.len() == 0 {
                Move41::Ask(Ask::Getattr(node))
            } else {
                match attr_in(ans[0]) {
                    Ok(attr) => {
                        let g = access41(attr.kind, info.writable);
                        okay(
                            put_head(s, op, NFS4_OK).put_u32((g & want) | (g & 0x3f)).put_u32(
                                g & want,
                            ),
                            ctx,
                        )
                    },
                    Err(e) => failed(s, op, status_number(e), ctx),
                }
            },
            OpReq::Readlink => if ans.len() == 0 {
                Move41::Ask(Ask::Readlink(node))
            } else {
                match target_in(ans[0]) {
                    Ok(target) => okay(put_head(s, op, NFS4_OK).put_opaque(target@), ctx),
                    Err(e) => failed(s, op, status_number(e), ctx),
                }
            },
            OpReq::Readdir { cookie, maxcount, want } => if ans.len() == 0 {
                Move41::Ask(
                    Ask::Readdir { dir: node, cookie, max_entries: 4096, want_attrs: true },
                )
            } else {
                match page_in(ans[0]) {
                    Ok(page) => okay(
                        readdir_result(s, op, page, maxcount, want, share, key, info.fsstat),
                        ctx,
                    ),
                    Err(e) => failed(s, op, status_number(e), ctx),
                }
            },
            OpReq::Read { seq, other, offset, count } => if ans.len() == 0 && !st.accepts(
                seq,
                other,
            ) {
                failed(s, op, unknown_stateid(st, other), ctx)
            } else {
                read_move41(op, node, offset, count, ctx, ans, s)
            },
            OpReq::Write { seq, other, offset, stable, data } => if !info.writable {
                failed(s, op, ERR_ROFS, ctx)
            } else if ans.len() == 0 && !st.accepts(seq, other) {
                failed(s, op, unknown_stateid(st, other), ctx)
            } else if ans.len() == 0 {
                Move41::Ask(Ask::Write { node, offset, data, sync: stable != 0 })
            } else {
                match attr_in(ans[0]) {
                    Ok(_) => okay(
                        put_head(s, op, NFS4_OK).put_u32(data.len() as u32).put_u32(
                            if stable != 0 || info.stable_writes {
                                2
                            } else {
                                0
                            },
                        ).put_fixed(st.boot_verifier@),
                        ctx,
                    ),
                    Err(e) => failed(s, op, status_number(e), ctx),
                }
            },
            OpReq::Commit { offset, count } => if ans.len() == 0 {
                Move41::Ask(Ask::Commit { node, off: offset, len: count as u64 })
            } else {
                match attr_in(ans[0]) {
                    Ok(_) => okay(put_head(s, op, NFS4_OK).put_fixed(st.boot_verifier@), ctx),
                    Err(e) => failed(s, op, status_number(e), ctx),
                }
            },
            OpReq::Setattr { seq, other, set, want } => if !info.writable {
                failed(s, op, ERR_ROFS, ctx)
            } else if ans.len() == 0 && set.size is Some && !st.accepts(seq, other) {
                failed(s, op, unknown_stateid(st, other), ctx)
            } else if ans.len() == 0 {
                Move41::Ask(Ask::Setattr { node, set })
            } else {
                match attr_in(ans[0]) {
                    Ok(_) => okay(put_bitmap(put_head(s, op, NFS4_OK), words_seq(want)), ctx),
                    Err(e) => failed(s, op, status_number(e), ctx),
                }
            },
            _ => change_move(op, req, ctx, info.writable, ans, s),
        }
    }
}

/// READ, its stateid accepted: where the payload may bypass the reply, a local file is tried
/// first.
pub open spec fn read_move41(
    op: u32,
    node: NodeKey,
    offset: u64,
    count: u32,
    ctx: Ctx<Seq<u8>>,
    ans: Seq<Answer>,
    s: Seq<u8>,
) -> Move41 {
    let tries = ctx.is_last && ctx.allow_sendfile;
    let k: nat = if tries {
        1
    } else {
        0
    };
    if tries && ans.len() == 0 {
        Move41::Ask(Ask::ReadSendable { node, offset, count })
    } else if tries && range_in(ans[0]) is Some {
        let range = range_in(ans[0])->0;
        Move41::DoneFile {
            out: put_head(s, op, NFS4_OK).put_bool(range.eof).put_u32(range.len),
            range,
        }
    } else if ans.len() == k {
        Move41::Ask(Ask::Read { node, offset, count })
    } else {
        match data_in(ans[k as int]) {
            Ok(res) => okay(
                put_head(s, op, NFS4_OK).put_bool(res.eof).put_opaque(res.data@),
                ctx,
            ),
            Err(e) => failed(s, op, status_number(e), ctx),
        }
    }
}

/// CREATE, REMOVE and RENAME report how the directories' change attributes moved.
pub open spec fn change_move(
    op: u32,
    req: OpSpec,
    ctx: Ctx<Seq<u8>>,
    writable: bool,
    ans: Seq<Answer>,
    s: Seq<u8>,
) -> Move41 {
    let (share, dir) = ctx.cfh->0;
    match req {
        OpReq::Create { kind, name, mode } => if name.len() > 255 {
            failed(s, op, ERR_NAMETOOLONG, ctx)
        } else if !writable {
            failed(s, op, ERR_ROFS, ctx)
        } else if ans.len() == 0 {
            Move41::Ask(Ask::Getattr(dir))
        } else if ans.len() == 1 {
            Move41::Ask(
                Ask::Create {
                    dir,
                    name,
                    kind,
                    mode: match mode {
                        Some(m) => m,
                        None => 0o755,
                    },
                },
            )
        } else {
            match entry_in(ans[1]) {
                Err(e) => failed(s, op, status_number(e), ctx),
                Ok((node, _)) => if ans.len() == 2 {
                    Move41::Ask(Ask::Getattr(dir))
                } else {
                    okay(
                        put_bitmap(
                            put_change(
                                put_head(s, op, NFS4_OK),
                                change_in(ans[0]),
                                change_in(ans[2]),
                            ),
                            mode_words(mode is Some),
                        ),
                        Ctx { cfh: Some((share, node)), ..ctx },
                    )
                },
            }
        },
        OpReq::Remove { name } => if name.len() > 255 {
            failed(s, op, ERR_NAMETOOLONG, ctx)
        } else if !writable {
            failed(s, op, ERR_ROFS, ctx)
        } else if ans.len() == 0 {
            Move41::Ask(Ask::Lookup { dir, name })
        } else if ans.len() == 1 {
            Move41::Ask(Ask::Getattr(dir))
        } else if ans.len() == 2 {
            Move41::Ask(Ask::Remove { dir, name, is_dir: names_dir(ans[0]) })
        } else {
            match done_in(ans[2]) {
                Err(e) => failed(s, op, status_number(e), ctx),
                Ok(_) => if ans.len() == 3 {
                    Move41::Ask(Ask::Getattr(dir))
                } else {
                    okay(
                        put_change(
                            put_head(s, op, NFS4_OK),
                            change_in(ans[1]),
                            change_in(ans[3]),
                        ),
                        ctx,
                    )
                },
            }
        },
        OpReq::Rename { from, to } => match ctx.sfh {
            None => failed(s, op, ERR_NOFILEHANDLE, ctx),
            Some((_, src)) => if from.len() > 255 || to.len() > 255 {
                failed(s, op, ERR_NAMETOOLONG, ctx)
            } else if !writable {
                failed(s, op, ERR_ROFS, ctx)
            } else if ans.len() == 0 {
                Move41::Ask(Ask::Getattr(src))
            } else if ans.len() == 1 {
                Move41::Ask(Ask::Getattr(dir))
            } else if ans.len() == 2 {
                Move41::Ask(
                    Ask::Rename { from_dir: src, from_name: from, to_dir: dir, to_name: to },
                )
            } else {
                match done_in(ans[2]) {
                    Err(e) => failed(s, op, status_number(e), ctx),
                    Ok(_) => if ans.len() == 3 {
                        Move41::Ask(Ask::Getattr(src))
                    } else if ans.len() == 4 {
                        Move41::Ask(Ask::Getattr(dir))
                    } else {
                        okay(
                            put_change(
                                put_change(
                                    put_head(s, op, NFS4_OK),
                                    change_in(ans[0]),
                                    change_in(ans[3]),
                                ),
                                change_in(ans[1]),
                                change_in(ans[4]),
                            ),
                            ctx,
                        )
                    },
                }
            },
        },
        _ => failed(s, op, ERR_NOFILEHANDLE, ctx),
    }
}

/// The bitmap of the attributes that a creation set: the mode, or nothing.
pub open spec fn mode_words(set: bool) -> Seq<u32> {
    if set {
        seq![0u32, 2, 0]
    } else {
        seq![0u32, 0, 0]
    }
}

pub(crate) fn write_mode_words(w: &mut XdrWriter, set: bool)
    ensures
        grows(old(w)@, final(w)@),
        final(w)@ == put_bitmap(old(w)@, mode_words(set)),
{
    let b = Bitmap {
        words: [
            0,
            if set {
                2
            } else {
                0
            },
            0,
        ],
    };
    proof {
        assert(b.words@ =~= mode_words(set));
    }
    b.encode(w);
}

/// Whether a looked-up name is a directory.
pub open spec fn names_dir(a: Answer) -> bool {
    match entry_in(a) {
        Ok((_, attr)) => attr.kind == Kind::Dir,
        Err(_) => false,
    }
}

fn step_lookup(
    op: u32,
    name: &Vec<u8>,
    ctx: &mut Ctx,
    info: &SurfaceInfo,
    codec: &HandleCodec,
    st: &State,
    ans: &Vec<Answer>,
    out: &mut XdrWriter,
) -> (turn: Turn41)
    requires
        old(ctx).cfh is Some,
        st.wf(),
    ensures
        grows(old(out)@, final(out)@),
        did41(
            tree_move(
                op,
                OpReq::Lookup { name: name@ },
                old(ctx)@,
                *info,
                codec.key(),
                *st,
                ans@,
                old(out)@,
            ),
            turn,
            old(out)@,
            final(out)@,
            old(ctx)@,
            final(ctx)@,
        ),
{
    let (share, node) = match ctx.cfh {
        Some(fh) => fh,
        None => {
            return end_with(out, op, ERR_NOFILEHANDLE);
        },
    };
    if name.len() > 255 {
        return end_with(out, op, ERR_NAMETOOLONG);
    }
    if ans.len() == 0 {
        return Turn41::Ask(Ask::Lookup { dir: node, name: name.clone() });
    }
    match ans[0].entry() {
        Ok((child, _)) => {
            ctx.cfh = Some((share, child));
            end_with(out, op, NFS4_OK)
        },
        Err(e) => end_with(out, op, status_of(e)),
    }
}

fn step_lookupp(
    op: u32,
    ctx: &mut Ctx,
    info: &SurfaceInfo,
    codec: &HandleCodec,
    st: &State,
    ans: &Vec<Answer>,
    out: &mut XdrWriter,
) -> (turn: Turn41)
    requires
        old(ctx).cfh is Some,
        st.wf(),
    ensures
        grows(old(out)@, final(out)@),
        did41(
            tree_move(op, OpReq::Lookupp, old(ctx)@, *info, codec.key(), *st, ans@, old(out)@),
            turn,
            old(out)@,
            final(out)@,
            old(ctx)@,
            final(ctx)@,
        ),
{
    let (share, node) = match ctx.cfh {
        Some(fh) => fh,
        None => {
            return end_with(out, op, ERR_NOFILEHANDLE);
        },
    };
    if ans.len() == 0 {
        return Turn41::Ask(Ask::Parent(node));
    }
    match ans[0].parent() {
        Ok(parent) => {
            ctx.cfh = Some((share, parent));
            end_with(out, op, NFS4_OK)
        },
        Err(e) => end_with(out, op, status_of(e)),
    }
}

fn step_getattr(
    op: u32,
    want: Words,
    ctx: &mut Ctx,
    info: &SurfaceInfo,
    codec: &HandleCodec,
    st: &State,
    ans: &Vec<Answer>,
    out: &mut XdrWriter,
) -> (turn: Turn41)
    requires
        old(ctx).cfh is Some,
        st.wf(),
    ensures
        grows(old(out)@, final(out)@),
        did41(
            tree_move(
                op,
                OpReq::Getattr { want },
                old(ctx)@,
                *info,
                codec.key(),
                *st,
                ans@,
                old(out)@,
            ),
            turn,
            old(out)@,
            final(out)@,
            old(ctx)@,
            final(ctx)@,
        ),
{
    let (share, node) = match ctx.cfh {
        Some(fh) => fh,
        None => {
            return end_with(out, op, ERR_NOFILEHANDLE);
        },
    };
    if ans.len() == 0 {
        return Turn41::Ask(Ask::Getattr(node));
    }
    match ans[0].attr() {
        Ok(attr) => {
            out.u32(op);
            out.u32(NFS4_OK);
            write_attrs(out, want, attr, share, node, codec, info.fsstat);
            Turn41::Done(NFS4_OK)
        },
        Err(e) => end_with(out, op, status_of(e)),
    }
}

fn step_access(
    op: u32,
    want: u32,
    ctx: &mut Ctx,
    info: &SurfaceInfo,
    codec: &HandleCodec,
    st: &State,
    ans: &Vec<Answer>,
    out: &mut XdrWriter,
) -> (turn: Turn41)
    requires
        old(ctx).cfh is Some,
        st.wf(),
    ensures
        grows(old(out)@, final(out)@),
        did41(
            tree_move(
                op,
                OpReq::Access { want },
                old(ctx)@,
                *info,
                codec.key(),
                *st,
                ans@,
                old(out)@,
            ),
            turn,
            old(out)@,
            final(out)@,
            old(ctx)@,
            final(ctx)@,
        ),
{
    let (share, node) = match ctx.cfh {
        Some(fh) => fh,
        None => {
            return end_with(out, op, ERR_NOFILEHANDLE);
        },
    };
    if ans.len() == 0 {
        return Turn41::Ask(Ask::Getattr(node));
    }
    match ans[0].attr() {
        Ok(attr) => {
            let g: u32 = if attr.kind == Kind::Dir {
                if info.writable {
                    0x1f
                } else {
                    0x03
                }
            } else {
                if info.writable {
                    0x3d
                } else {
                    0x21
                }
            };
            out.u32(op);
            out.u32(NFS4_OK);
            out.u32((g & want) | (g & 0x3f));
            out.u32(g & want);
            Turn41::Done(NFS4_OK)
        },
        Err(e) => end_with(out, op, status_of(e)),
    }
}

fn step_readlink(
    op: u32,
    ctx: &mut Ctx,
    info: &SurfaceInfo,
    codec: &HandleCodec,
    st: &State,
    ans: &Vec<Answer>,
    out: &mut XdrWriter,
) -> (turn: Turn41)
    requires
        old(ctx).cfh is Some,
        st.wf(),
    ensures
        grows(old(out)@, final(out)@),
        did41(
            tree_move(op, OpReq::Readlink, old(ctx)@, *info, codec.key(), *st, ans@, old(out)@),
            turn,
            old(out)@,
            final(out)@,
            old(ctx)@,
            final(ctx)@,
        ),
{
    let (share, node) = match ctx.cfh {
        Some(fh) => fh,
        None => {
            return end_with(out, op, ERR_NOFILEHANDLE);
        },
    };
    if ans.len() == 0 {
        return Turn41::Ask(Ask::Readlink(node));
    }
    match ans[0].target() {
        Ok(target) => {
            out.u32(op);
            out.u32(NFS4_OK);
            out.opaque(target.as_slice());
            Turn41::Done(NFS4_OK)
        },
        Err(e) => end_with(out, op, status_of(e)),
    }
}

fn step_readdir(
    op: u32,
    cookie: u64,
    maxcount: u32,
    want: Words,
    ctx: &mut Ctx,
    info: &SurfaceInfo,
    codec: &HandleCodec,
    st: &State,
    ans: &Vec<Answer>,
    out: &mut XdrWriter,
) -> (turn: Turn41)
    requires
        old(ctx).cfh is Some,
        st.wf(),
    ensures
        grows(old(out)@, final(out)@),
        did41(
            tree_move(
                op,
                OpReq::Readdir { cookie, maxcount, want },
                old(ctx)@,
                *info,
                codec.key(),
                *st,
                ans@,
                old(out)@,
            ),
            turn,
            old(out)@,
            final(out)@,
            old(ctx)@,
            final(ctx)@,
        ),
{
    let (share, node) = match ctx.cfh {
        Some(fh) => fh,
        None => {
            return end_with(out, op, ERR_NOFILEHANDLE);
        },
    };
    if ans.len() == 0 {
        return Turn41::Ask(
            Ask::Readdir { dir: node, cookie, max_entries: 4096, want_attrs: true },
        );
    }
    match ans[0].page() {
        Ok(page) => {
            op_readdir(out, op, page, maxcount, want, share, codec, info.fsstat);
            Turn41::Done(NFS4_OK)
        },
        Err(e) => end_with(out, op, status_of(e)),
    }
}

pub(crate) fn refused_stateid(st: &State, other: &[u8; 12]) -> (code: u32)
    ensures
        code == unknown_stateid(*st, other@),
{
    if st.stateid_is_stale(other) {
        ERR_STALE_STATEID
    } else {
        ERR_BAD_STATEID
    }
}

fn step_read(
    op: u32,
    seq: u32,
    other: &[u8; 12],
    offset: u64,
    count: u32,
    ctx: &mut Ctx,
    info: &SurfaceInfo,
    codec: &HandleCodec,
    st: &State,
    ans: &Vec<Answer>,
    out: &mut XdrWriter,
) -> (turn: Turn41)
    requires
        old(ctx).cfh is Some,
        st.wf(),
    ensures
        grows(old(out)@, final(out)@),
        did41(
            tree_move(
                op,
                OpReq::Read { seq, other: other@, offset, count },
                old(ctx)@,
                *info,
                codec.key(),
                *st,
                ans@,
                old(out)@,
            ),
            turn,
            old(out)@,
            final(out)@,
            old(ctx)@,
            final(ctx)@,
        ),
{
    let (share, node) = match ctx.cfh {
        Some(fh) => fh,
        None => {
            return end_with(out, op, ERR_NOFILEHANDLE);
        },
    };
    if ans.len() == 0 && !st.stateid_ok(seq, other) {
        return end_with(out, op, refused_stateid(st, other));
    }
    let mut k: usize = 0;
    if ctx.is_last && ctx.allow_sendfile {
        if ans.len() == 0 {
            return Turn41::Ask(Ask::ReadSendable { node, offset, count });
        }
        if let Some(range) = ans[0].range() {
            out.u32(op);
            out.u32(NFS4_OK);
            out.bool(range.eof);
            out.u32(range.len);
            return Turn41::DoneFile(range);
        }
        k = 1;
    }
    if ans.len() == k {
        return Turn41::Ask(Ask::Read { node, offset, count });
    }
    match ans[k].data() {
        Ok(res) => {
            out.u32(op);
            out.u32(NFS4_OK);
            out.bool(res.eof);
            out.opaque(res.data.as_slice());
            Turn41::Done(NFS4_OK)
        },
        Err(e) => end_with(out, op, status_of(e)),
    }
}

fn step_write(
    op: u32,
    seq: u32,
    other: &[u8; 12],
    offset: u64,
    stable: u32,
    data: &Vec<u8>,
    ctx: &mut Ctx,
    info: &SurfaceInfo,
    codec: &HandleCodec,
    st: &State,
    ans: &Vec<Answer>,
    out: &mut XdrWriter,
) -> (turn: Turn41)
    requires
        old(ctx).cfh is Some,
        st.wf(),
    ensures
        grows(old(out)@, final(out)@),
        did41(
            tree_move(
                op,
                OpReq::Write { seq, other: other@, offset, stable, data: data@ },
                old(ctx)@,
                *info,
                codec.key(),
                *st,
                ans@,
                old(out)@,
            ),
            turn,
            old(out)@,
            final(out)@,
            old(ctx)@,
            final(ctx)@,
        ),
{
    let (share, node) = match ctx.cfh {
        Some(fh) => fh,
        None => {
            return end_with(out, op, ERR_NOFILEHANDLE);
        },
    };
    if !info.writable {
        return end_with(out, op, ERR_ROFS);
    }
    if ans.len() == 0 && !st.stateid_ok(seq, other) {
        return end_with(out, op, refused_stateid(st, other));
    }
    if ans.len() == 0 {
        return Turn41::Ask(Ask::Write { node, offset, data: data.clone(), sync: stable != 0 });
    }
    match ans[0].attr() {
        Ok(_) => {
            out.u32(op);
            out.u32(NFS4_OK);
            out.u32(#[verifier::truncate] (data.len() as u32));
            out.u32(
                if stable != 0 || info.stable_writes {
                    2
                } else {
                    0
                },
            );
            out.fixed(st.boot_verifier.as_slice());
            Turn41::Done(NFS4_OK)
        },
        Err(e) => end_with(out, op, status_of(e)),
    }
}

fn step_commit(
    op: u32,
    offset: u64,
    count: u32,
    ctx: &mut Ctx,
    info: &SurfaceInfo,
    codec: &HandleCodec,
    st: &State,
    ans: &Vec<Answer>,
    out: &mut XdrWriter,
) -> (turn: Turn41)
    requires
        old(ctx).cfh is Some,
        st.wf(),
    ensures
        grows(old(out)@, final(out)@),
        did41(
            tree_move(
                op,
                OpReq::Commit { offset, count },
                old(ctx)@,
                *info,
                codec.key(),
                *st,
                ans@,
                old(out)@,
            ),
            turn,
            old(out)@,
            final(out)@,
            old(ctx)@,
            final(ctx)@,
        ),
{
    let (share, node) = match ctx.cfh {
        Some(fh) => fh,
        None => {
            return end_with(out, op, ERR_NOFILEHANDLE);
        },
    };
    if ans.len() == 0 {
        return Turn41::Ask(Ask::Commit { node, off: offset, len: count as u64 });
    }
    match ans[0].attr() {
        Ok(_) => {
            out.u32(op);
            out.u32(NFS4_OK);
            out.fixed(st.boot_verifier.as_slice());
            Turn41::Done(NFS4_OK)
        },
        Err(e) => end_with(out, op, status_of(e)),
    }
}

fn step_setattr(
    op: u32,
    seq: u32,
    other: &[u8; 12],
    set: SetAttr,
    want: Words,
    ctx: &mut Ctx,
    info: &SurfaceInfo,
    codec: &HandleCodec,
    st: &State,
    ans: &Vec<Answer>,
    out: &mut XdrWriter,
) -> (turn: Turn41)
    requires
        old(ctx).cfh is Some,
        st.wf(),
    ensures
        grows(old(out)@, final(out)@),
        did41(
            tree_move(
                op,
                OpReq::Setattr { seq, other: other@, set, want },
                old(ctx)@,
                *info,
                codec.key(),
                *st,
                ans@,
                old(out)@,
            ),
            turn,
            old(out)@,
            final(out)@,
            old(ctx)@,
            final(ctx)@,
        ),
{
    let (share, node) = match ctx.cfh {
        Some(fh) => fh,
        None => {
            return end_with(out, op, ERR_NOFILEHANDLE);
        },
    };
    if !info.writable {
        return end_with(out, op, ERR_ROFS);
    }
    if ans.len() == 0 && set.size.is_some() && !st.stateid_ok(seq, other) {
        return end_with(out, op, refused_stateid(st, other));
    }
    if ans.len() == 0 {
        return Turn41::Ask(Ask::Setattr { node, set });
    }
    match ans[0].attr() {
        Ok(_) => {
            out.u32(op);
            out.u32(NFS4_OK);
            let bm = words_bitmap(want);
            bm.encode(out);
            Turn41::Done(NFS4_OK)
        },
        Err(e) => end_with(out, op, status_of(e)),
    }
}

fn step_create(
    op: u32,
    kind: &CreateKind,
    name: &Vec<u8>,
    mode: Option<u16>,
    ctx: &mut Ctx,
    info: &SurfaceInfo,
    codec: &HandleCodec,
    st: &State,
    ans: &Vec<Answer>,
    out: &mut XdrWriter,
) -> (turn: Turn41)
    requires
        old(ctx).cfh is Some,
        st.wf(),
    ensures
        grows(old(out)@, final(out)@),
        did41(
            tree_move(
                op,
                OpReq::Create { kind: kind@, name: name@, mode },
                old(ctx)@,
                *info,
                codec.key(),
                *st,
                ans@,
                old(out)@,
            ),
            turn,
            old(out)@,
            final(out)@,
            old(ctx)@,
            final(ctx)@,
        ),
{
    let (share, node) = match ctx.cfh {
        Some(fh) => fh,
        None => {
            return end_with(out, op, ERR_NOFILEHANDLE);
        },
    };
    if name.len() > 255 {
        return end_with(out, op, ERR_NAMETOOLONG);
    }
    if !info.writable {
        return end_with(out, op, ERR_ROFS);
    }
    if ans.len() == 0 {
        return Turn41::Ask(Ask::Getattr(node));
    }
    if ans.len() == 1 {
        let m: u16 = match mode {
            Some(m) => m,
            None => 0o755,
        };
        return Turn41::Ask(
            Ask::Create { dir: node, name: name.clone(), kind: kind.copy(), mode: m },
        );
    }
    match ans[1].entry() {
        Ok((child, _)) => {
            if ans.len() == 2 {
                return Turn41::Ask(Ask::Getattr(node));
            }
            ctx.cfh = Some((share, child));
            out.u32(op);
            out.u32(NFS4_OK);
            change_info(out, dir_change(&ans[0]), dir_change(&ans[2]));
            write_mode_words(out, mode.is_some());
            Turn41::Done(NFS4_OK)
        },
        Err(e) => end_with(out, op, status_of(e)),
    }
}

fn step_remove(
    op: u32,
    name: &Vec<u8>,
    ctx: &mut Ctx,
    info: &SurfaceInfo,
    codec: &HandleCodec,
    st: &State,
    ans: &Vec<Answer>,
    out: &mut XdrWriter,
) -> (turn: Turn41)
    requires
        old(ctx).cfh is Some,
        st.wf(),
    ensures
        grows(old(out)@, final(out)@),
        did41(
            tree_move(
                op,
                OpReq::Remove { name: name@ },
                old(ctx)@,
                *info,
                codec.key(),
                *st,
                ans@,
                old(out)@,
            ),
            turn,
            old(out)@,
            final(out)@,
            old(ctx)@,
            final(ctx)@,
        ),
{
    let (share, node) = match ctx.cfh {
        Some(fh) => fh,
        None => {
            return end_with(out, op, ERR_NOFILEHANDLE);
        },
    };
    if name.len() > 255 {
        return end_with(out, op, ERR_NAMETOOLONG);
    }
    if !info.writable {
        return end_with(out, op, ERR_ROFS);
    }
    if ans.len() == 0 {
        return Turn41::Ask(Ask::Lookup { dir: node, name: name.clone() });
    }
    if ans.len() == 1 {
        return Turn41::Ask(Ask::Getattr(node));
    }
    if ans.len() == 2 {
        let is_dir = match ans[0].entry() {
            Ok((_, attr)) => attr.kind == Kind::Dir,
            Err(_) => false,
        };
        return Turn41::Ask(Ask::Remove { dir: node, name: name.clone(), is_dir });
    }
    match ans[2].done() {
        Ok(()) => {
            if ans.len() == 3 {
                return Turn41::Ask(Ask::Getattr(node));
            }
            out.u32(op);
            out.u32(NFS4_OK);
            change_info(out, dir_change(&ans[1]), dir_change(&ans[3]));
            Turn41::Done(NFS4_OK)
        },
        Err(e) => end_with(out, op, status_of(e)),
    }
}

fn step_rename(
    op: u32,
    from: &Vec<u8>,
    to: &Vec<u8>,
    ctx: &mut Ctx,
    info: &SurfaceInfo,
    codec: &HandleCodec,
    st: &State,
    ans: &Vec<Answer>,
    out: &mut XdrWriter,
) -> (turn: Turn41)
    requires
        old(ctx).cfh is Some,
        st.wf(),
    ensures
        grows(old(out)@, final(out)@),
        did41(
            tree_move(
                op,
                OpReq::Rename { from: from@, to: to@ },
                old(ctx)@,
                *info,
                codec.key(),
                *st,
                ans@,
                old(out)@,
            ),
            turn,
            old(out)@,
            final(out)@,
            old(ctx)@,
            final(ctx)@,
        ),
{
    let (share, node) = match ctx.cfh {
        Some(fh) => fh,
        None => {
            return end_with(out, op, ERR_NOFILEHANDLE);
        },
    };
    let src = match ctx.sfh {
        Some((_, src)) => src,
        None => {
            return end_with(out, op, ERR_NOFILEHANDLE);
        },
    };
    if from.len() > 255 || to.len() > 255 {
        return end_with(out, op, ERR_NAMETOOLONG);
    }
    if !info.writable {
        return end_with(out, op, ERR_ROFS);
    }
    if ans.len() == 0 {
        return Turn41::Ask(Ask::Getattr(src));
    }
    if ans.len() == 1 {
        return Turn41::Ask(Ask::Getattr(node));
    }
    if ans.len() == 2 {
        return Turn41::Ask(
            Ask::Rename {
                from_dir: src,
                from_name: from.clone(),
                to_dir: node,
                to_name: to.clone(),
            },
        );
    }
    match ans[2].done() {
        Ok(()) => {
            if ans.len() == 3 {
                return Turn41::Ask(Ask::Getattr(src));
            }
            if ans.len() == 4 {
                return Turn41::Ask(Ask::Getattr(node));
            }
            out.u32(op);
            out.u32(NFS4_OK);
            change_info(out, dir_change(&ans[0]), dir_change(&ans[3]));
            change_info(out, dir_change(&ans[1]), dir_change(&ans[4]));
            Turn41::Done(NFS4_OK)
        },
        Err(e) => end_with(out, op, status_of(e)),
    }
}

/// Whether an operation is one on files, directories or attributes.
pub open spec fn on_tree(req: OpSpec) -> bool {
    match req {
        OpReq::Lookup { .. } => true,
        OpReq::Lookupp => true,
        OpReq::Getattr { .. } => true,
        OpReq::Access { .. } => true,
        OpReq::Readlink => true,
        OpReq::Readdir { .. } => true,
        OpReq::Read { .. } => true,
        OpReq::Write { .. } => true,
        OpReq::Commit { .. } => true,
        OpReq::Setattr { .. } => true,
        OpReq::Create { .. } => true,
        OpReq::Remove { .. } => true,
        OpReq::Rename { .. } => true,
        _ => false,
    }
}

/// One step of an operation on files, directories or attributes.
pub fn step_tree(
    op: u32,
    req: &OpReq,
    ctx: &mut Ctx,
    info: &SurfaceInfo,
    codec: &HandleCodec,
    st: &State,
    ans: &Vec<Answer>,
    out: &mut XdrWriter,
) -> (turn: Turn41)
    requires
        st.wf(),
        on_tree(req@),
    ensures
        grows(old(out)@, final(out)@),
        did41(
            tree_move(op, req@, old(ctx)@, *info, codec.key(), *st, ans@, old(out)@),
            turn,
            old(out)@,
            final(out)@,
            old(ctx)@,
            final(ctx)@,
        ),
{
    if ctx.cfh.is_none() {
        return end_with(out, op, ERR_NOFILEHANDLE);
    }
    match req {
        OpReq::Lookup { name } => step_lookup(op, name, ctx, info, codec, st, ans, out),
        OpReq::Lookupp => step_lookupp(op, ctx, info, codec, st, ans, out),
        OpReq::Getattr { want } => step_getattr(op, *want, ctx, info, codec, st, ans, out),
        OpReq::Access { want } => step_access(op, *want, ctx, info, codec, st, ans, out),
        OpReq::Readlink => step_readlink(op, ctx, info, codec, st, ans, out),
        OpReq::Readdir { cookie, maxcount, want } => step_readdir(
            op,
            *cookie,
            *maxcount,
            *want,
            ctx,
            info,
            codec,
            st,
            ans,
            out,
        ),
        OpReq::Read { seq, other, offset, count } => step_read(
            op,
            *seq,
            other,
            *offset,
            *count,
            ctx,
            info,
            codec,
            st,
            ans,
            out,
        ),
        OpReq::Write { seq, other, offset, stable, data } => step_write(
            op,
            *seq,
            other,
            *offset,
            *stable,
            data,
            ctx,
            info,
            codec,
            st,
            ans,
            out,
        ),
        OpReq::Commit { offset, count } => step_commit(
            op,
            *offset,
            *count,
            ctx,
            info,
            codec,
            st,
            ans,
            out,
        ),
        OpReq::Setattr { seq, other, set, want } => step_setattr(
            op,
            *seq,
            other,
            *set,
            *want,
            ctx,
            info,
            codec,
            st,
            ans,
            out,
        ),
        OpReq::Create { kind, name, mode } => step_create(
            op,
            kind,
            name,
            *mode,
            ctx,
            info,
            codec,
            st,
            ans,
            out,
        ),
        OpReq::Remove { name } => step_remove(op, name, ctx, info, codec, st, ans, out),
        OpReq::Rename { from, to } => step_rename(op, from, to, ctx, info, codec, st, ans, out),
        _ => end_with(out, op, ERR_NOFILEHANDLE),
    }
}

} // verus!
