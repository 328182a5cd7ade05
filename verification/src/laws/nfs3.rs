//! NFSv3: what a call means, what the tree is asked, and what the reply says.
use crate::handle::{handle_target, HandleCodec};
use crate::laws::wire::{as_bytes, as_flag, as_item, as_u32, as_u64, group_reads};
use crate::nfs3::{decode, sattr_of, Req3};
use crate::surface::{CreateKind, SetAttr};
use crate::types::{NodeKey, Ts};
use crate::xdr::XdrReader;
use vstd::prelude::*;

verus! {

/// A handle that the codec takes for a node.
pub open spec fn valid(codec: HandleCodec, fh: Seq<u8>, node: NodeKey) -> bool {
    fh.len() <= 64 && handle_target(codec.key(), fh) is Some && (handle_target(
        codec.key(),
        fh,
    )->0).1 == node
}

/// A number that may be missing, with a flag before it.
pub open spec fn opt_u32(v: Option<u32>) -> Seq<u8> {
    match v {
        Some(v) => as_flag(true) + as_u32(v),
        None => as_flag(false),
    }
}

pub open spec fn opt_u64(v: Option<u64>) -> Seq<u8> {
    match v {
        Some(v) => as_flag(true) + as_u64(v),
        None => as_flag(false),
    }
}

/// A time that the client gives, or none.
pub open spec fn opt_time(t: Option<(u32, u32)>) -> Seq<u8> {
    match t {
        Some((sec, nsec)) => as_u32(2) + (as_u32(sec) + as_u32(nsec)),
        None => as_u32(0),
    }
}

/// The attributes to set as a client writes them, without an access time.
pub open spec fn sattr(
    mode: Option<u32>,
    uid: Option<u32>,
    gid: Option<u32>,
    size: Option<u64>,
    mtime: Option<(u32, u32)>,
) -> Seq<u8> {
    opt_u32(mode) + (opt_u32(uid) + (opt_u32(gid) + (opt_u64(size) + (as_u32(0) + opt_time(
        mtime,
    )))))
}

pub open spec fn low16(mode: Option<u32>) -> Option<u16> {
    match mode {
        Some(m) => Some((m % 0x1_0000) as u16),
        None => None,
    }
}

pub open spec fn as_time(t: Option<(u32, u32)>) -> Option<Ts> {
    match t {
        Some((sec, nsec)) => Some(Ts { sec: sec as i64, nsec }),
        None => None,
    }
}

proof fn opt_u32_is_read(v: Option<u32>, rest: Seq<u8>)
    ensures
        crate::nfs3::set_u32(opt_u32(v) + rest) == (v, rest),
{
    broadcast use group_reads;

    match v {
        Some(n) => {
            assert(opt_u32(v) + rest =~= as_flag(true) + (as_u32(n) + rest));
        },
        None => {},
    }
}

proof fn opt_u64_is_read(v: Option<u64>, rest: Seq<u8>)
    ensures
        crate::nfs3::set_u64(opt_u64(v) + rest) == (v, rest),
{
    broadcast use group_reads;

    match v {
        Some(n) => {
            assert(opt_u64(v) + rest =~= as_flag(true) + (as_u64(n) + rest));
        },
        None => {},
    }
}

proof fn truncated(m: u32)
    ensures
        m as u16 == (m % 0x1_0000) as u16,
{
    assert(m as u16 == (m % 0x1_0000) as u16) by (bit_vector);
}

proof fn regroup(
    a: Seq<u8>,
    b: Seq<u8>,
    c: Seq<u8>,
    d: Seq<u8>,
    e: Seq<u8>,
    f: Seq<u8>,
    rest: Seq<u8>,
)
    ensures
        (a + (b + (c + (d + (e + f))))) + rest == a + (b + (c + (d + (e + (f + rest))))),
{
    assert((a + (b + (c + (d + (e + f))))) + rest =~= a + (b + (c + (d + (e + (f + rest))))));
}

proof fn regroup3(a: Seq<u8>, b: Seq<u8>, c: Seq<u8>, rest: Seq<u8>)
    ensures
        (a + (b + c)) + rest == a + (b + (c + rest)),
{
    assert((a + (b + c)) + rest =~= a + (b + (c + rest)));
}

proof fn sattr_is_read(
    mode: Option<u32>,
    uid: Option<u32>,
    gid: Option<u32>,
    size: Option<u64>,
    mtime: Option<(u32, u32)>,
    rest: Seq<u8>,
)
    ensures
        sattr_of(sattr(mode, uid, gid, size, mtime) + rest) == (
            SetAttr { mode: low16(mode), uid, gid, size, mtime: as_time(mtime) },
            rest,
        ),
{
    broadcast use group_reads;

    let t6 = opt_time(mtime) + rest;
    let t5 = as_u32(0) + t6;
    let t4 = opt_u64(size) + t5;
    let t3 = opt_u32(gid) + t4;
    let t2 = opt_u32(uid) + t3;
    regroup(
        opt_u32(mode),
        opt_u32(uid),
        opt_u32(gid),
        opt_u64(size),
        as_u32(0),
        opt_time(mtime),
        rest,
    );
    opt_u32_is_read(mode, t2);
    opt_u32_is_read(uid, t3);
    opt_u32_is_read(gid, t4);
    opt_u64_is_read(size, t5);
    if let Some(m) = mode {
        truncated(m);
    }
    match mtime {
        Some((sec, nsec)) => {
            regroup3(as_u32(2), as_u32(sec), as_u32(nsec), rest);
        },
        None => {},
    }
}

/// GETATTR is procedure 1: it asks for the attributes of the node.
pub proof fn getattr_is_decoded(
    codec: &HandleCodec,
    args: XdrReader<'_>,
    req: Req3,
    fh: Seq<u8>,
    node: NodeKey,
    rest: Seq<u8>,
)
    requires
        valid(*codec, fh, node),
        args@ == as_item(fh) + (rest),
        call_ensures(decode, (1u32, args, codec), req),
    ensures
        req@ == (Req3::<Seq<u8>>::Getattr { node }),
{
    broadcast use group_reads;

}

/// LOOKUP is procedure 3: it asks for a name in a directory; a name of more than 255 bytes is too
/// long.
pub proof fn lookup_is_decoded(
    codec: &HandleCodec,
    args: XdrReader<'_>,
    req: Req3,
    fh: Seq<u8>,
    node: NodeKey,
    name: Seq<u8>,
    rest: Seq<u8>,
)
    requires
        valid(*codec, fh, node),
        name.len() <= 255,
        args@ == as_item(fh) + (as_item(name) + rest),
        call_ensures(decode, (3u32, args, codec), req),
    ensures
        req@ == (Req3::<Seq<u8>>::Lookup { dir: node, name }),
{
    broadcast use group_reads;

}

/// A name of more than 255 bytes is told from a shorter one, and the call is not stale.
pub proof fn long_lookup_is_decoded(
    codec: &HandleCodec,
    args: XdrReader<'_>,
    req: Req3,
    fh: Seq<u8>,
    node: NodeKey,
    name: Seq<u8>,
    rest: Seq<u8>,
)
    requires
        valid(*codec, fh, node),
        255 < name.len() <= 4096,
        args@ == as_item(fh) + (as_item(name) + rest),
        call_ensures(decode, (3u32, args, codec), req),
    ensures
        req@ == (Req3::<Seq<u8>>::LookupLong { dir: node }),
{
    broadcast use group_reads;

}

/// ACCESS is procedure 4: it asks for the rights that the client names.
pub proof fn access_is_decoded(
    codec: &HandleCodec,
    args: XdrReader<'_>,
    req: Req3,
    fh: Seq<u8>,
    node: NodeKey,
    requested: u32,
    rest: Seq<u8>,
)
    requires
        valid(*codec, fh, node),
        args@ == as_item(fh) + (as_u32(requested) + rest),
        call_ensures(decode, (4u32, args, codec), req),
    ensures
        req@ == (Req3::<Seq<u8>>::Access { node, requested }),
{
    broadcast use group_reads;

}

/// READLINK is procedure 5.
pub proof fn readlink_is_decoded(
    codec: &HandleCodec,
    args: XdrReader<'_>,
    req: Req3,
    fh: Seq<u8>,
    node: NodeKey,
    rest: Seq<u8>,
)
    requires
        valid(*codec, fh, node),
        args@ == as_item(fh) + (rest),
        call_ensures(decode, (5u32, args, codec), req),
    ensures
        req@ == (Req3::<Seq<u8>>::Readlink { node }),
{
    broadcast use group_reads;

}

/// READ is procedure 6: it asks for the bytes that the client names, a mebibyte at most.
pub proof fn read_is_decoded(
    codec: &HandleCodec,
    args: XdrReader<'_>,
    req: Req3,
    fh: Seq<u8>,
    node: NodeKey,
    offset: u64,
    count: u32,
    rest: Seq<u8>,
)
    requires
        valid(*codec, fh, node),
        args@ == as_item(fh) + (as_u64(offset) + (as_u32(count) + rest)),
        call_ensures(decode, (6u32, args, codec), req),
    ensures
        req@ == (Req3::<Seq<u8>>::Read {
            node,
            offset,
            count: if count <= 0x10_0000 {
                count
            } else {
                0x10_0000
            },
        }),
{
    broadcast use group_reads;

}

/// WRITE is procedure 7: the data goes to the offset that the client names, and is to be durable
/// unless the client says that it need not be.
pub proof fn write_is_decoded(
    codec: &HandleCodec,
    args: XdrReader<'_>,
    req: Req3,
    fh: Seq<u8>,
    node: NodeKey,
    offset: u64,
    count: u32,
    stable: u32,
    data: Seq<u8>,
    rest: Seq<u8>,
)
    requires
        valid(*codec, fh, node),
        data.len() <= 0x10_0000,
        args@ == as_item(fh) + (as_u64(offset) + (as_u32(count) + (as_u32(stable) + (as_item(data) + rest)))),
        call_ensures(decode, (7u32, args, codec), req),
    ensures
        req@ == (Req3::<Seq<u8>>::Write { node, offset, data, sync: stable != 0 }),
{
    broadcast use group_reads;

}

/// REMOVE is procedure 12: it takes a name that is no directory out of a directory.
pub proof fn remove_is_decoded(
    codec: &HandleCodec,
    args: XdrReader<'_>,
    req: Req3,
    fh: Seq<u8>,
    node: NodeKey,
    name: Seq<u8>,
    rest: Seq<u8>,
)
    requires
        valid(*codec, fh, node),
        name.len() <= 255,
        args@ == as_item(fh) + (as_item(name) + rest),
        call_ensures(decode, (12u32, args, codec), req),
    ensures
        req@ == (Req3::<Seq<u8>>::Remove { dir: node, name, is_dir: false }),
{
    broadcast use group_reads;

}

/// RMDIR is procedure 13: it takes a directory out of a directory.
pub proof fn rmdir_is_decoded(
    codec: &HandleCodec,
    args: XdrReader<'_>,
    req: Req3,
    fh: Seq<u8>,
    node: NodeKey,
    name: Seq<u8>,
    rest: Seq<u8>,
)
    requires
        valid(*codec, fh, node),
        name.len() <= 255,
        args@ == as_item(fh) + (as_item(name) + rest),
        call_ensures(decode, (13u32, args, codec), req),
    ensures
        req@ == (Req3::<Seq<u8>>::Remove { dir: node, name, is_dir: true }),
{
    broadcast use group_reads;

}

/// RENAME is procedure 14: what has the first name in the first directory gets the second name in
/// the second.
pub proof fn rename_is_decoded(
    codec: &HandleCodec,
    args: XdrReader<'_>,
    req: Req3,
    fh: Seq<u8>,
    node: NodeKey,
    from_name: Seq<u8>,
    to_fh: Seq<u8>,
    to_dir: NodeKey,
    to_name: Seq<u8>,
    rest: Seq<u8>,
)
    requires
        valid(*codec, fh, node),
        valid(*codec, to_fh, to_dir),
        from_name.len() <= 255,
        to_name.len() <= 255,
        args@ == as_item(fh) + (as_item(from_name) + (as_item(to_fh) + (as_item(to_name) + rest))),
        call_ensures(decode, (14u32, args, codec), req),
    ensures
        req@ == (Req3::<Seq<u8>>::Rename { from_dir: node, from_name, to_dir, to_name }),
{
    broadcast use group_reads;

}

/// READDIR is procedure 16: the listing goes on after the cookie, within the size that the client
/// names.
pub proof fn readdir_is_decoded(
    codec: &HandleCodec,
    args: XdrReader<'_>,
    req: Req3,
    fh: Seq<u8>,
    node: NodeKey,
    cookie: u64,
    verf: Seq<u8>,
    maxcount: u32,
    rest: Seq<u8>,
)
    requires
        valid(*codec, fh, node),
        verf.len() == 8,
        args@ == as_item(fh) + (as_u64(cookie) + (as_bytes(verf) + (as_u32(maxcount) + rest))),
        call_ensures(decode, (16u32, args, codec), req),
    ensures
        req@ == (Req3::<Seq<u8>>::Readdir { dir: node, cookie, maxcount, plus: false }),
{
    broadcast use group_reads;

}

/// READDIRPLUS is procedure 17: of its two sizes the second one counts.
pub proof fn readdirplus_is_decoded(
    codec: &HandleCodec,
    args: XdrReader<'_>,
    req: Req3,
    fh: Seq<u8>,
    node: NodeKey,
    cookie: u64,
    verf: Seq<u8>,
    dircount: u32,
    maxcount: u32,
    rest: Seq<u8>,
)
    requires
        valid(*codec, fh, node),
        verf.len() == 8,
        args@ == as_item(fh) + (as_u64(cookie) + (as_bytes(verf) + (as_u32(dircount) + (as_u32(maxcount) + rest)))),
        call_ensures(decode, (17u32, args, codec), req),
    ensures
        req@ == (Req3::<Seq<u8>>::Readdir { dir: node, cookie, maxcount, plus: true }),
{
    broadcast use group_reads;

}

/// COMMIT is procedure 21: it makes durable the bytes that the client names.
pub proof fn commit_is_decoded(
    codec: &HandleCodec,
    args: XdrReader<'_>,
    req: Req3,
    fh: Seq<u8>,
    node: NodeKey,
    offset: u64,
    count: u32,
    rest: Seq<u8>,
)
    requires
        valid(*codec, fh, node),
        args@ == as_item(fh) + (as_u64(offset) + (as_u32(count) + rest)),
        call_ensures(decode, (21u32, args, codec), req),
    ensures
        req@ == (Req3::<Seq<u8>>::Commit { node, offset, count }),
{
    broadcast use group_reads;

}

/// SETATTR is procedure 2: it sets the fields that the client gives, and no others. Of the mode the
/// low sixteen bits count.
pub proof fn setattr_is_decoded(
    codec: &HandleCodec,
    args: XdrReader<'_>,
    req: Req3,
    fh: Seq<u8>,
    node: NodeKey,
    mode: Option<u32>,
    uid: Option<u32>,
    gid: Option<u32>,
    size: Option<u64>,
    mtime: Option<(u32, u32)>,
    rest: Seq<u8>,
)
    requires
        valid(*codec, fh, node),
        args@ == as_item(fh) + (sattr(mode, uid, gid, size, mtime) + rest),
        call_ensures(decode, (2u32, args, codec), req),
    ensures
        req@ == (Req3::<Seq<u8>>::Setattr {
            node,
            set: SetAttr { mode: low16(mode), uid, gid, size, mtime: as_time(mtime) },
        }),
{
    broadcast use group_reads;

    sattr_is_read(mode, uid, gid, size, mtime, rest);
}

/// CREATE is procedure 8: a file with the mode that the client gives, 0644 without one; if it is to
/// be new, that is asked for.
pub proof fn create_is_decoded(
    codec: &HandleCodec,
    args: XdrReader<'_>,
    req: Req3,
    fh: Seq<u8>,
    node: NodeKey,
    name: Seq<u8>,
    how: u32,
    mode: Option<u32>,
    uid: Option<u32>,
    gid: Option<u32>,
    size: Option<u64>,
    mtime: Option<(u32, u32)>,
    rest: Seq<u8>,
)
    requires
        valid(*codec, fh, node),
        name.len() <= 255,
        how <= 1,
        args@ == as_item(fh) + (as_item(name) + (as_u32(how) + (sattr(mode, uid, gid, size, mtime) + rest))),
        call_ensures(decode, (8u32, args, codec), req),
    ensures
        req@ == (Req3::<Seq<u8>>::Create {
            dir: node,
            name,
            kind: CreateKind::File { exclusive: how == 1 },
            mode: match low16(mode) {
                Some(m) => m,
                None => 0o644,
            },
        }),
{
    broadcast use group_reads;

    sattr_is_read(mode, uid, gid, size, mtime, rest);
}

/// MKDIR is procedure 9: a directory with the mode that the client gives, 0755 without one.
pub proof fn mkdir_is_decoded(
    codec: &HandleCodec,
    args: XdrReader<'_>,
    req: Req3,
    fh: Seq<u8>,
    node: NodeKey,
    name: Seq<u8>,
    mode: Option<u32>,
    uid: Option<u32>,
    gid: Option<u32>,
    size: Option<u64>,
    mtime: Option<(u32, u32)>,
    rest: Seq<u8>,
)
    requires
        valid(*codec, fh, node),
        name.len() <= 255,
        args@ == as_item(fh) + (as_item(name) + (sattr(mode, uid, gid, size, mtime) + rest)),
        call_ensures(decode, (9u32, args, codec), req),
    ensures
        req@ == (Req3::<Seq<u8>>::Create {
            dir: node,
            name,
            kind: CreateKind::Dir,
            mode: match low16(mode) {
                Some(m) => m,
                None => 0o755,
            },
        }),
{
    broadcast use group_reads;

    sattr_is_read(mode, uid, gid, size, mtime, rest);
}

/// SYMLINK is procedure 10: a link to the target that the client gives.
pub proof fn symlink_is_decoded(
    codec: &HandleCodec,
    args: XdrReader<'_>,
    req: Req3,
    fh: Seq<u8>,
    node: NodeKey,
    name: Seq<u8>,
    mode: Option<u32>,
    uid: Option<u32>,
    gid: Option<u32>,
    size: Option<u64>,
    mtime: Option<(u32, u32)>,
    target: Seq<u8>,
    rest: Seq<u8>,
)
    requires
        valid(*codec, fh, node),
        name.len() <= 255,
        target.len() <= 4096,
        args@ == as_item(fh) + (as_item(name) + (sattr(mode, uid, gid, size, mtime) + (as_item(target) + rest))),
        call_ensures(decode, (10u32, args, codec), req),
    ensures
        req@ == (Req3::<Seq<u8>>::Create {
            dir: node,
            name,
            kind: CreateKind::Symlink { target },
            mode: 0o777,
        }),
{
    broadcast use group_reads;

    sattr_is_read(mode, uid, gid, size, mtime, as_item(target) + rest);
}

} // verus!
