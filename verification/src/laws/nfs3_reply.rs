//! NFSv3: what the tree is asked, and what the reply says.
use crate::handle::{
    handle_fields_round_trip, handle_target, minted_handle_accepted, tag_of, HandleCodec,
};
use crate::laws::wire::{begins_with, bytes_at, bytes_stay, group_places, padded, u32_at, u64_at};
use crate::nfs3::{
    access_granted, fh_bytes, put_entries, put_entry, put_fattr3, put_post_op_attr, put_post_op_fh,
    put_wcc, step, Req3,
};
use crate::surface::{
    attr_opt, Answer, Ask, CreateKind, DirEntry, NfsError, NfsResult, ReadDirPage, ReadResult,
    SendRange, SetAttr, SurfaceInfo, Turn,
};
use crate::types::{Attr, Kind, NodeKey, Ts};
use crate::xdr::{Wire, XdrWriter};
use vstd::prelude::*;

verus! {

broadcast use group_places;

/// The number of a kind of node.
pub open spec fn type_number(kind: Kind) -> int {
    match kind {
        Kind::Reg => 1,
        Kind::Dir => 2,
        Kind::Blk => 3,
        Kind::Chr => 4,
        Kind::Symlink => 5,
        Kind::Sock => 6,
        Kind::Fifo => 7,
    }
}

/// The number of an error.
pub open spec fn error_number(e: NfsError) -> int {
    match e {
        NfsError::NoEnt => 2,
        NfsError::Io => 5,
        NfsError::Access => 13,
        NfsError::Exist => 17,
        NfsError::NotDir => 20,
        NfsError::IsDir => 21,
        NfsError::NotSymlink => 22,
        NfsError::NoSpace => 28,
        NfsError::Rofs => 30,
        NfsError::NameTooLong => 63,
        NfsError::NotEmpty => 66,
        NfsError::Stale => 70,
        NfsError::Jukebox => 10008,
    }
}

/// A time of the years that a client knows.
pub open spec fn time_at(out: Seq<u8>, b: int, t: Ts) -> bool {
    &&& 0 <= t.sec <= u32::MAX ==> u32_at(out, b) == t.sec
    &&& u32_at(out, b + 4) == t.nsec
}

/// From a place on, the bytes are the attributes of a node.
pub open spec fn attrs_at(out: Seq<u8>, b: int, share: u16, node: NodeKey, a: Attr) -> bool {
    &&& out.len() >= b + 84
    &&& u32_at(out, b) == type_number(a.kind)
    &&& u32_at(out, b + 4) == a.mode
    &&& u32_at(out, b + 8) == a.nlink
    &&& u32_at(out, b + 12) == a.uid
    &&& u32_at(out, b + 16) == a.gid
    &&& u64_at(out, b + 20) == a.size
    &&& u64_at(out, b + 28) == a.blocks * 512 % 0x1_0000_0000_0000_0000
    &&& u32_at(out, b + 36) == a.rdev / 0x1_0000_0000
    &&& u32_at(out, b + 40) == a.rdev % 0x1_0000_0000
    &&& u64_at(out, b + 44) == share
    &&& u64_at(out, b + 52) == node.ino
    &&& time_at(out, b + 60, a.mtime)
    &&& time_at(out, b + 68, a.mtime)
    &&& time_at(out, b + 76, a.ctime)
}

/// How many bytes attributes take that may be missing.
pub open spec fn opt_len(a: Option<Attr>) -> int {
    if a is Some {
        88
    } else {
        4
    }
}

/// From a place on, the bytes are attributes that may be missing.
pub open spec fn opt_attrs_at(
    out: Seq<u8>,
    b: int,
    share: u16,
    node: NodeKey,
    a: Option<Attr>,
) -> bool {
    match a {
        Some(a) => u32_at(out, b) == 1 && attrs_at(out, b + 4, share, node, a),
        None => out.len() >= b + 4 && u32_at(out, b) == 0,
    }
}

proof fn halves(d: u64)
    ensures
        (d >> 32) as u32 == d / 0x1_0000_0000,
        d as u32 == d % 0x1_0000_0000,
{
    assert((d >> 32) as u32 == d / 0x1_0000_0000) by (bit_vector);
    assert(d as u32 == d % 0x1_0000_0000) by (bit_vector);
}

proof fn attrs_are_written(s: Seq<u8>, share: u16, node: NodeKey, a: Attr)
    ensures
        put_fattr3(s, share, node, a).len() == s.len() as int + 84,
        begins_with(put_fattr3(s, share, node, a), s),
        attrs_at(put_fattr3(s, share, node, a), s.len() as int, share, node, a),
{
    reveal(put_fattr3);
    halves(a.rdev);
}

proof fn opt_attrs_are_written(s: Seq<u8>, share: u16, node: NodeKey, a: Option<Attr>)
    ensures
        put_post_op_attr(s, share, node, a).len() == s.len() + opt_len(a),
        begins_with(put_post_op_attr(s, share, node, a), s),
        opt_attrs_at(put_post_op_attr(s, share, node, a), s.len() as int, share, node, a),
{
    if let Some(v) = a {
        let t = s.put_bool(true);
        attrs_are_written(t, share, node, v);
        assert(u32_at(put_fattr3(t, share, node, v), s.len() as int) == u32_at(t, s.len() as int));
    }
}

proof fn wcc_is_written(s: Seq<u8>, share: u16, node: NodeKey, a: Option<Attr>)
    ensures
        put_wcc(s, share, node, a).len() == s.len() + 4 + opt_len(a),
        begins_with(put_wcc(s, share, node, a), s),
        u32_at(put_wcc(s, share, node, a), s.len() as int) == 0,
        opt_attrs_at(put_wcc(s, share, node, a), s.len() as int + 4, share, node, a),
{
    let t = s.put_bool(false);
    opt_attrs_are_written(t, share, node, a);
    assert(u32_at(put_wcc(s, share, node, a), s.len() as int) == u32_at(t, s.len() as int));
}

/// From a place on, the bytes are an entry of a listing.
#[verifier::opaque]
pub open spec fn entry_at(
    out: Seq<u8>,
    b: int,
    share: u16,
    key: Seq<u8>,
    e: DirEntry,
    plus: bool,
) -> bool {
    let n = b + 16 + padded(e.name@.len());
    &&& u32_at(out, b) == 1
    &&& u64_at(out, b + 4) == e.node.ino
    &&& e.name@.len() <= u32::MAX ==> u32_at(out, b + 12) == e.name@.len()
    &&& bytes_at(out, b + 16, e.name@.len()) == e.name@
    &&& u64_at(out, n) == e.cookie
    &&& plus ==> {
        &&& opt_attrs_at(out, n + 8, share, e.node, e.attr)
        &&& u32_at(out, n + 8 + opt_len(e.attr)) == 1
        &&& u32_at(out, n + 12 + opt_len(e.attr)) == 28
        &&& handle_target(key, bytes_at(out, n + 16 + opt_len(e.attr), 28)) == Some(
            (share, e.node),
        )
    }
}

/// How many bytes an entry of a listing takes.
pub open spec fn entry_size(e: DirEntry, plus: bool) -> int {
    24 + padded(e.name@.len()) + if plus {
        36 + opt_len(e.attr)
    } else {
        0
    }
}

/// The bytes from `b` to `end` are these entries, one after the other.
pub open spec fn lists(
    out: Seq<u8>,
    b: int,
    end: int,
    share: u16,
    key: Seq<u8>,
    entries: Seq<DirEntry>,
    plus: bool,
) -> bool
    decreases entries.len(),
{
    if entries.len() == 0 {
        b == end
    } else {
        let e = entries.last();
        let at = end - entry_size(e, plus);
        &&& b <= at
        &&& entry_at(out, at, share, key, e, plus)
        &&& lists(out, b, at, share, key, entries.drop_last(), plus)
    }
}

proof fn listing_stays(
    out: Seq<u8>,
    s: Seq<u8>,
    b: int,
    end: int,
    share: u16,
    key: Seq<u8>,
    entries: Seq<DirEntry>,
    plus: bool,
)
    requires
        begins_with(out, s),
        0 <= b,
        end <= s.len(),
        lists(s, b, end, share, key, entries, plus),
    ensures
        lists(out, b, end, share, key, entries, plus),
    decreases entries.len(),
{
    if entries.len() > 0 {
        reveal(entry_at);
        let e = entries.last();
        let at = end - entry_size(e, plus);
        let n = at + 16 + padded(e.name@.len());
        bytes_stay(out, s, at + 16, e.name@.len());
        if plus {
            bytes_stay(out, s, n + 16 + opt_len(e.attr), 28);
        }
        listing_stays(out, s, b, at, share, key, entries.drop_last(), plus);
    }
}

proof fn entry_is_written(s: Seq<u8>, share: u16, key: Seq<u8>, e: DirEntry, plus: bool)
    ensures
        begins_with(put_entry(s, share, key, e, plus), s),
        put_entry(s, share, key, e, plus).len() == s.len() + entry_size(e, plus),
        entry_at(put_entry(s, share, key, e, plus), s.len() as int, share, key, e, plus),
{
    reveal(entry_at);
    let s1 = s.put_bool(true).put_u64(e.node.ino).put_opaque(e.name@).put_u64(e.cookie);
    let b = s.len() as int;
    let n = b + 16 + padded(e.name@.len());
    if plus {
        let s2 = put_post_op_attr(s1, share, e.node, e.attr);
        opt_attrs_are_written(s1, share, e.node, e.attr);
        minted(key, share, e.node);
        let out = put_entry(s, share, key, e, plus);
        bytes_stay(out, s1, b + 16, e.name@.len());
        assert(begins_with(out, s2));
        assert(u32_at(out, b) == u32_at(s1, b));
        assert(u32_at(out, b + 12) == u32_at(s1, b + 12));
    }
}

proof fn entries_are_listed(
    s: Seq<u8>,
    share: u16,
    key: Seq<u8>,
    entries: Seq<DirEntry>,
    i: nat,
    plus: bool,
    budget: u32,
    start: Seq<u8>,
)
    requires
        i <= entries.len(),
        lists(
            s,
            start.len() as int,
            s.len() as int,
            share,
            key,
            entries.take(i as int),
            plus,
        ),
    ensures
        begins_with(put_entries(s, share, key, entries, i, plus, budget).0, s),
        ({
            let (out, all) = put_entries(s, share, key, entries, i, plus, budget);
            exists|k: nat|
                k <= entries.len() && #[trigger] lists(
                    out,
                    start.len() as int,
                    out.len() as int,
                    share,
                    key,
                    entries.take(k as int),
                    plus,
                ) && (all <==> k == entries.len()) && (k < entries.len() ==> out.len() + (if plus {
                    160int
                } else {
                    40int
                }) + entries[k as int].name@.len() > budget)
        }),
    decreases entries.len() - i,
{
    let (out, all) = put_entries(s, share, key, entries, i, plus, budget);
    if i < entries.len() && s.len() + crate::nfs3::entry_cost(plus) + entries[i as int].name@.len()
        <= budget {
        let e = entries[i as int];
        let next = put_entry(s, share, key, e, plus);
        entry_is_written(s, share, key, e, plus);
        listing_stays(
            next,
            s,
            start.len() as int,
            s.len() as int,
            share,
            key,
            entries.take(i as int),
            plus,
        );
        assert(entries.take(i as int + 1).drop_last() =~= entries.take(i as int));
        assert(entries.take(i as int + 1).last() == e);
        entries_are_listed(next, share, key, entries, i + 1, plus, budget, start);
    } else {
        assert(lists(
            out,
            start.len() as int,
            out.len() as int,
            share,
            key,
            entries.take(i as int),
            plus,
        ));
    }
}

/// The attributes in an answer that went well.
pub open spec fn opt(r: NfsResult<Attr>) -> Option<Attr> {
    match r {
        Ok(a) => Some(a),
        Err(_) => None,
    }
}

/// The number for something that was done, or refused.
pub open spec fn done_number(r: NfsResult<()>) -> int {
    match r {
        Ok(_) => 0,
        Err(e) => error_number(e),
    }
}

/// The rights that are granted of those that are asked for: 1 to read, 2 to look up, 4 to change, 8
/// to extend, 16 to delete, 32 to run.
pub open spec fn rights(granted: u32, requested: u32, a: Attr, writable: bool) -> bool {
    &&& granted & requested == granted
    &&& granted & 2 != 0 ==> a.kind == Kind::Dir
    &&& a.kind == Kind::Dir && requested & 2 != 0 ==> granted & 2 != 0
    &&& granted & 32 != 0 ==> a.kind != Kind::Dir
    &&& granted & 28 != 0 ==> writable
    &&& writable ==> granted & 28 == requested & 28
    &&& granted & 1 != 0 ==> a.mode & 0o400 != 0
    &&& a.mode & 0o400 != 0 ==> granted & 1 == requested & 1
}

proof fn access_rights(a: Attr, requested: u32, writable: bool)
    ensures
        rights(access_granted(a, requested, writable), requested, a, writable),
{
    let r = if a.mode & 0o400 != 0 { 1u32 } else { 0u32 };
    let l = if a.kind == Kind::Dir { 2u32 } else { 0u32 };
    let m = if writable { 0x1cu32 } else { 0u32 };
    let x = if a.mode & 0o100 != 0 && a.kind != Kind::Dir { 0x20u32 } else { 0u32 };
    let g = (r | l | m | x) & requested;
    let q = requested;
    assert(g == access_granted(a, requested, writable));
    assert(((r | l | m | x) & q) & q == (r | l | m | x) & q) by (bit_vector);
    assert((r == 0 || r == 1) && (l == 0 || l == 2) && (m == 0 || m == 0x1c) && (x == 0 || x
        == 0x20) ==> {
        &&& ((r | l | m | x) & q) & 2 == l & q
        &&& ((r | l | m | x) & q) & 32 == x & q
        &&& ((r | l | m | x) & q) & 28 == m & q
        &&& ((r | l | m | x) & q) & 1 == r & q
    }) by (bit_vector);
    assert(0u32 & q == 0) by (bit_vector);
    assert(2u32 & q == q & 2) by (bit_vector);
    assert(0x1cu32 & q == q & 28) by (bit_vector);
    assert(1u32 & q == q & 1) by (bit_vector);
}

proof fn minted(key: Seq<u8>, share: u16, node: NodeKey)
    ensures
        fh_bytes(key, share, node).len() == 28,
        handle_target(key, fh_bytes(key, share, node)) == Some((share, node)),
{
    minted_handle_accepted(key, share, node);
    handle_fields_round_trip(share, 0, node, tag_of(key, share, 0, node));
}

/// GETATTR asks the tree for the attributes of the node.
pub proof fn getattr_asks(
    req: &Req3,
    info: &SurfaceInfo,
    codec: &HandleCodec,
    ans: &Vec<Answer>,
    w: &mut XdrWriter,
    turn: Turn,
    node: NodeKey,
)
    requires
        call_ensures(step, (req, info, codec, ans, w), turn),
        req@ == (Req3::<Seq<u8>>::Getattr { node }),
        ans@.len() == 0,
    ensures
        turn is Ask,
        turn->Ask_0@ == (Ask::<Seq<u8>>::Getattr(node)),
        final(w)@ == old(w)@,
{
}

/// LOOKUP asks the tree for the name in the directory, after the directory's own attributes.
pub proof fn lookup_asks(
    req: &Req3,
    info: &SurfaceInfo,
    codec: &HandleCodec,
    ans: &Vec<Answer>,
    w: &mut XdrWriter,
    turn: Turn,
    dir: NodeKey,
    name: Seq<u8>,
)
    requires
        call_ensures(step, (req, info, codec, ans, w), turn),
        req@ == (Req3::<Seq<u8>>::Lookup { dir, name }),
        ans@.len() == 1,
    ensures
        turn is Ask,
        turn->Ask_0@ == (Ask::<Seq<u8>>::Lookup { dir, name }),
        final(w)@ == old(w)@,
{
}

/// ACCESS asks the tree for the attributes of the node.
pub proof fn access_asks(
    req: &Req3,
    info: &SurfaceInfo,
    codec: &HandleCodec,
    ans: &Vec<Answer>,
    w: &mut XdrWriter,
    turn: Turn,
    node: NodeKey,
    requested: u32,
)
    requires
        call_ensures(step, (req, info, codec, ans, w), turn),
        req@ == (Req3::<Seq<u8>>::Access { node, requested }),
        ans@.len() == 0,
    ensures
        turn is Ask,
        turn->Ask_0@ == (Ask::<Seq<u8>>::Getattr(node)),
        final(w)@ == old(w)@,
{
}

/// READLINK asks the tree for the target of the link.
pub proof fn readlink_asks(
    req: &Req3,
    info: &SurfaceInfo,
    codec: &HandleCodec,
    ans: &Vec<Answer>,
    w: &mut XdrWriter,
    turn: Turn,
    node: NodeKey,
)
    requires
        call_ensures(step, (req, info, codec, ans, w), turn),
        req@ == (Req3::<Seq<u8>>::Readlink { node }),
        ans@.len() == 1,
    ensures
        turn is Ask,
        turn->Ask_0@ == (Ask::<Seq<u8>>::Readlink(node)),
        final(w)@ == old(w)@,
{
}

/// READ asks first whether a local file can serve it: the same node, offset and count.
pub proof fn read_asks_for_a_file(
    req: &Req3,
    info: &SurfaceInfo,
    codec: &HandleCodec,
    ans: &Vec<Answer>,
    w: &mut XdrWriter,
    turn: Turn,
    node: NodeKey,
    offset: u64,
    count: u32,
)
    requires
        call_ensures(step, (req, info, codec, ans, w), turn),
        req@ == (Req3::<Seq<u8>>::Read { node, offset, count }),
        ans@.len() == 0,
    ensures
        turn is Ask,
        turn->Ask_0@ == (Ask::<Seq<u8>>::ReadSendable { node, offset, count }),
        final(w)@ == old(w)@,
{
}

/// READ asks the tree for the bytes that the client names, where no local file can serve them.
pub proof fn read_asks(
    req: &Req3,
    info: &SurfaceInfo,
    codec: &HandleCodec,
    ans: &Vec<Answer>,
    w: &mut XdrWriter,
    turn: Turn,
    node: NodeKey,
    offset: u64,
    count: u32,
)
    requires
        call_ensures(step, (req, info, codec, ans, w), turn),
        req@ == (Req3::<Seq<u8>>::Read { node, offset, count }),
        ans@.len() == 2,
        ans@[0] == Answer::Range(None),
    ensures
        turn is Ask,
        turn->Ask_0@ == (Ask::<Seq<u8>>::Read { node, offset, count }),
        final(w)@ == old(w)@,
{
}

/// A listing is asked for from where the client stands, with attributes if the client wants them, and
/// for one entry at least.
pub proof fn readdir_asks(
    req: &Req3,
    info: &SurfaceInfo,
    codec: &HandleCodec,
    ans: &Vec<Answer>,
    w: &mut XdrWriter,
    turn: Turn,
    dir: NodeKey,
    cookie: u64,
    maxcount: u32,
    plus: bool,
)
    requires
        call_ensures(step, (req, info, codec, ans, w), turn),
        req@ == (Req3::<Seq<u8>>::Readdir { dir, cookie, maxcount, plus }),
        ans@.len() == 1,
    ensures
        turn is Ask,
        match turn->Ask_0@ {
            Ask::Readdir { dir: d, cookie: c, max_entries, want_attrs } => d == dir && c == cookie
                && want_attrs == plus && 1 <= max_entries <= 4096,
            _ => false,
        },
        final(w)@ == old(w)@,
{
}

/// SETATTR hands the tree the fields to set, as they are.
pub proof fn setattr_asks(
    req: &Req3,
    info: &SurfaceInfo,
    codec: &HandleCodec,
    ans: &Vec<Answer>,
    w: &mut XdrWriter,
    turn: Turn,
    node: NodeKey,
    set: SetAttr,
)
    requires
        call_ensures(step, (req, info, codec, ans, w), turn),
        req@ == (Req3::<Seq<u8>>::Setattr { node, set }),
        ans@.len() == 0,
        info.writable,
    ensures
        turn is Ask,
        turn->Ask_0@ == (Ask::<Seq<u8>>::Setattr { node, set }),
        final(w)@ == old(w)@,
{
}

/// WRITE hands the tree the data for the offset, as they are.
pub proof fn write_asks(
    req: &Req3,
    info: &SurfaceInfo,
    codec: &HandleCodec,
    ans: &Vec<Answer>,
    w: &mut XdrWriter,
    turn: Turn,
    node: NodeKey,
    offset: u64,
    data: Seq<u8>,
    sync: bool,
)
    requires
        call_ensures(step, (req, info, codec, ans, w), turn),
        req@ == (Req3::<Seq<u8>>::Write { node, offset, data, sync }),
        ans@.len() == 1,
        info.writable,
    ensures
        turn is Ask,
        turn->Ask_0@ == (Ask::<Seq<u8>>::Write { node, offset, data, sync }),
        final(w)@ == old(w)@,
{
}

/// CREATE, MKDIR and SYMLINK hand the tree the name, the kind and the mode, as they are.
pub proof fn create_asks(
    req: &Req3,
    info: &SurfaceInfo,
    codec: &HandleCodec,
    ans: &Vec<Answer>,
    w: &mut XdrWriter,
    turn: Turn,
    dir: NodeKey,
    name: Seq<u8>,
    kind: CreateKind<Seq<u8>>,
    mode: u16,
)
    requires
        call_ensures(step, (req, info, codec, ans, w), turn),
        req@ == (Req3::<Seq<u8>>::Create { dir, name, kind, mode }),
        ans@.len() == 0,
        info.writable,
    ensures
        turn is Ask,
        turn->Ask_0@ == (Ask::<Seq<u8>>::Create { dir, name, kind, mode }),
        final(w)@ == old(w)@,
{
}

/// REMOVE and RMDIR hand the tree the name, as it is.
pub proof fn remove_asks(
    req: &Req3,
    info: &SurfaceInfo,
    codec: &HandleCodec,
    ans: &Vec<Answer>,
    w: &mut XdrWriter,
    turn: Turn,
    dir: NodeKey,
    name: Seq<u8>,
    is_dir: bool,
)
    requires
        call_ensures(step, (req, info, codec, ans, w), turn),
        req@ == (Req3::<Seq<u8>>::Remove { dir, name, is_dir }),
        ans@.len() == 0,
        info.writable,
    ensures
        turn is Ask,
        turn->Ask_0@ == (Ask::<Seq<u8>>::Remove { dir, name, is_dir }),
        final(w)@ == old(w)@,
{
}

/// RENAME hands the tree both directories and names, in their order.
pub proof fn rename_asks(
    req: &Req3,
    info: &SurfaceInfo,
    codec: &HandleCodec,
    ans: &Vec<Answer>,
    w: &mut XdrWriter,
    turn: Turn,
    from_dir: NodeKey,
    from_name: Seq<u8>,
    to_dir: NodeKey,
    to_name: Seq<u8>,
)
    requires
        call_ensures(step, (req, info, codec, ans, w), turn),
        req@ == (Req3::<Seq<u8>>::Rename { from_dir, from_name, to_dir, to_name }),
        ans@.len() == 0,
        info.writable,
    ensures
        turn is Ask,
        turn->Ask_0@ == (Ask::<Seq<u8>>::Rename { from_dir, from_name, to_dir, to_name }),
        final(w)@ == old(w)@,
{
}

/// COMMIT hands the tree the range, as it is.
pub proof fn commit_asks(
    req: &Req3,
    info: &SurfaceInfo,
    codec: &HandleCodec,
    ans: &Vec<Answer>,
    w: &mut XdrWriter,
    turn: Turn,
    node: NodeKey,
    offset: u64,
    count: u32,
)
    requires
        call_ensures(step, (req, info, codec, ans, w), turn),
        req@ == (Req3::<Seq<u8>>::Commit { node, offset, count }),
        ans@.len() == 0,
    ensures
        turn is Ask,
        turn->Ask_0@ == (Ask::<Seq<u8>>::Commit { node, off: offset, len: count as u64 }),
        final(w)@ == old(w)@,
{
}

/// GETATTR tells the attributes that the tree gave.
pub proof fn getattr_tells(
    req: &Req3,
    info: &SurfaceInfo,
    codec: &HandleCodec,
    ans: &Vec<Answer>,
    w: &mut XdrWriter,
    turn: Turn,
    node: NodeKey,
    a: Attr,
)
    requires
        call_ensures(step, (req, info, codec, ans, w), turn),
        req@ == (Req3::<Seq<u8>>::Getattr { node }),
        ans@.len() == 1,
        ans@[0] == Answer::Attr(Ok(a)),
    ensures
        turn is Done,
        begins_with(final(w)@, old(w)@),
        u32_at(final(w)@, old(w)@.len() as int) == 0,
        attrs_at(final(w)@, old(w)@.len() as int + 4, info.share, node, a),
        final(w)@.len() == old(w)@.len() as int + 88,
{
    attrs_are_written(old(w)@.put_u32(0), info.share, node, a);
    assert(u32_at(final(w)@, old(w)@.len() as int) == u32_at(
        old(w)@.put_u32(0),
        old(w)@.len() as int,
    ));
}

/// LOOKUP tells a handle of the node that the tree found, its attributes and the directory's. The
/// handle is one that is taken for that node.
pub proof fn lookup_tells(
    req: &Req3,
    info: &SurfaceInfo,
    codec: &HandleCodec,
    ans: &Vec<Answer>,
    w: &mut XdrWriter,
    turn: Turn,
    dir: NodeKey,
    name: Seq<u8>,
    d: NfsResult<Attr>,
    node: NodeKey,
    a: Attr,
)
    requires
        call_ensures(step, (req, info, codec, ans, w), turn),
        req@ == (Req3::<Seq<u8>>::Lookup { dir, name }),
        ans@.len() == 2,
        ans@[0] == Answer::Attr(d),
        ans@[1] == Answer::Entry(Ok((node, a))),
    ensures
        turn is Done,
        begins_with(final(w)@, old(w)@),
        u32_at(final(w)@, old(w)@.len() as int) == 0,
        u32_at(final(w)@, old(w)@.len() as int + 4) == 28,
        handle_target(codec.key(), bytes_at(final(w)@, old(w)@.len() as int + 8, 28)) == Some((info.share, node)),
        opt_attrs_at(final(w)@, old(w)@.len() as int + 36, info.share, node, Some(a)),
        opt_attrs_at(final(w)@, old(w)@.len() as int + 124, info.share, dir, opt(d)),
{
    let s = old(w)@;
    let fh = fh_bytes(codec.key(), info.share, node);
    minted(codec.key(), info.share, node);
    let s1 = s.put_u32(0).put_opaque(fh);
    let s2 = put_post_op_attr(s1, info.share, node, Some(a));
    opt_attrs_are_written(s1, info.share, node, Some(a));
    opt_attrs_are_written(s2, info.share, dir, opt(d));
    bytes_stay(final(w)@, s1, s.len() as int + 8, 28);
    assert(u32_at(final(w)@, s.len() as int) == u32_at(s1, s.len() as int));
    assert(u32_at(final(w)@, s.len() as int + 4) == u32_at(s1, s.len() as int + 4));
}

/// ACCESS tells no right that was not asked for, the right to look a name up only in directories, the
/// right to run only of the others, and the rights to change, extend and delete only in a tree that
/// takes changes; there it grants them where they are asked for.
pub proof fn access_tells(
    req: &Req3,
    info: &SurfaceInfo,
    codec: &HandleCodec,
    ans: &Vec<Answer>,
    w: &mut XdrWriter,
    turn: Turn,
    node: NodeKey,
    requested: u32,
    a: Attr,
)
    requires
        call_ensures(step, (req, info, codec, ans, w), turn),
        req@ == (Req3::<Seq<u8>>::Access { node, requested }),
        ans@.len() == 1,
        ans@[0] == Answer::Attr(Ok(a)),
    ensures
        turn is Done,
        begins_with(final(w)@, old(w)@),
        u32_at(final(w)@, old(w)@.len() as int) == 0,
        opt_attrs_at(final(w)@, old(w)@.len() as int + 4, info.share, node, Some(a)),
        rights(u32_at(final(w)@, old(w)@.len() as int + 92) as u32, requested, a, info.writable),
{
    let s1 = old(w)@.put_u32(0);
    opt_attrs_are_written(s1, info.share, node, Some(a));
    access_rights(a, requested, info.writable);
    assert(u32_at(final(w)@, old(w)@.len() as int) == u32_at(s1, old(w)@.len() as int));
}

/// READLINK tells the target that the tree gave.
pub proof fn readlink_tells(
    req: &Req3,
    info: &SurfaceInfo,
    codec: &HandleCodec,
    ans: &Vec<Answer>,
    w: &mut XdrWriter,
    turn: Turn,
    node: NodeKey,
    d: NfsResult<Attr>,
    target: Vec<u8>,
)
    requires
        call_ensures(step, (req, info, codec, ans, w), turn),
        req@ == (Req3::<Seq<u8>>::Readlink { node }),
        ans@.len() == 2,
        ans@[0] == Answer::Attr(d),
        ans@[1] == Answer::Target(Ok(target)),
        target@.len() <= u32::MAX,
    ensures
        turn is Done,
        begins_with(final(w)@, old(w)@),
        u32_at(final(w)@, old(w)@.len() as int) == 0,
        opt_attrs_at(final(w)@, old(w)@.len() as int + 4, info.share, node, opt(d)),
        u32_at(final(w)@, old(w)@.len() as int + 4 + opt_len(opt(d))) == target@.len(),
        bytes_at(final(w)@, old(w)@.len() as int + 8 + opt_len(opt(d)), target@.len()) == target@,
{
    let s1 = old(w)@.put_u32(0);
    let s2 = put_post_op_attr(s1, info.share, node, opt(d));
    opt_attrs_are_written(s1, info.share, node, opt(d));
    assert(u32_at(final(w)@, old(w)@.len() as int) == u32_at(s1, old(w)@.len() as int));
}

/// READ tells the bytes that the tree gave, how many they are, and whether they end the file.
pub proof fn read_tells(
    req: &Req3,
    info: &SurfaceInfo,
    codec: &HandleCodec,
    ans: &Vec<Answer>,
    w: &mut XdrWriter,
    turn: Turn,
    node: NodeKey,
    offset: u64,
    count: u32,
    d: NfsResult<Attr>,
    r: ReadResult,
)
    requires
        call_ensures(step, (req, info, codec, ans, w), turn),
        req@ == (Req3::<Seq<u8>>::Read { node, offset, count }),
        ans@.len() == 3,
        ans@[0] == Answer::Range(None),
        ans@[1] == Answer::Attr(d),
        ans@[2] == Answer::Data(Ok(r)),
        r.data@.len() <= u32::MAX,
    ensures
        turn is Done,
        begins_with(final(w)@, old(w)@),
        u32_at(final(w)@, old(w)@.len() as int) == 0,
        opt_attrs_at(final(w)@, old(w)@.len() as int + 4, info.share, node, opt(d)),
        u32_at(final(w)@, old(w)@.len() as int + 4 + opt_len(opt(d))) == r.data@.len(),
        u32_at(final(w)@, old(w)@.len() as int + 8 + opt_len(opt(d))) == (if r.eof { 1int } else { 0int }),
        u32_at(final(w)@, old(w)@.len() as int + 12 + opt_len(opt(d))) == r.data@.len(),
        bytes_at(final(w)@, old(w)@.len() as int + 16 + opt_len(opt(d)), r.data@.len()) == r.data@,
{
    let s1 = old(w)@.put_u32(0);
    let s2 = put_post_op_attr(s1, info.share, node, opt(d));
    opt_attrs_are_written(s1, info.share, node, opt(d));
    assert(u32_at(final(w)@, old(w)@.len() as int) == u32_at(s1, old(w)@.len() as int));
}

/// READ from a local file tells how many bytes follow, twice, and whether they end the file; the
/// range is the one that the tree gave.
pub proof fn read_from_a_file_tells(
    req: &Req3,
    info: &SurfaceInfo,
    codec: &HandleCodec,
    ans: &Vec<Answer>,
    w: &mut XdrWriter,
    turn: Turn,
    node: NodeKey,
    offset: u64,
    count: u32,
    d: NfsResult<Attr>,
    r: SendRange,
)
    requires
        call_ensures(step, (req, info, codec, ans, w), turn),
        req@ == (Req3::<Seq<u8>>::Read { node, offset, count }),
        ans@.len() == 2,
        ans@[0] == Answer::Range(Some(r)),
        ans@[1] == Answer::Attr(d),
    ensures
        turn == Turn::DoneFile(r),
        u32_at(final(w)@, old(w)@.len() as int) == 0,
        u32_at(final(w)@, old(w)@.len() as int + 4 + opt_len(opt(d))) == r.len,
        u32_at(final(w)@, old(w)@.len() as int + 8 + opt_len(opt(d))) == (if r.eof { 1int } else { 0int }),
        u32_at(final(w)@, old(w)@.len() as int + 12 + opt_len(opt(d))) == r.len,
        final(w)@.len() == old(w)@.len() as int + 16 + opt_len(opt(d)),
{
    let s1 = old(w)@.put_u32(0);
    let s2 = put_post_op_attr(s1, info.share, node, opt(d));
    opt_attrs_are_written(s1, info.share, node, opt(d));
    assert(u32_at(final(w)@, old(w)@.len() as int) == u32_at(s1, old(w)@.len() as int));
}

/// WRITE tells how many bytes were taken, all of them, and that they are durable only where the client
/// asked for it or the tree makes every write so.
pub proof fn write_tells(
    req: &Req3,
    info: &SurfaceInfo,
    codec: &HandleCodec,
    ans: &Vec<Answer>,
    w: &mut XdrWriter,
    turn: Turn,
    node: NodeKey,
    offset: u64,
    data: Seq<u8>,
    sync: bool,
    d: NfsResult<Attr>,
    a: Attr,
)
    requires
        call_ensures(step, (req, info, codec, ans, w), turn),
        info.writable,
        req@ == (Req3::<Seq<u8>>::Write { node, offset, data, sync }),
        data.len() <= u32::MAX,
        ans@.len() == 2,
        ans@[0] == Answer::Attr(d),
        ans@[1] == Answer::Attr(Ok(a)),
    ensures
        turn is Done,
        begins_with(final(w)@, old(w)@),
        u32_at(final(w)@, old(w)@.len() as int) == 0,
        opt_attrs_at(final(w)@, old(w)@.len() as int + 8, info.share, node, Some(a)),
        u32_at(final(w)@, old(w)@.len() as int + 96) == data.len(),
        u32_at(final(w)@, old(w)@.len() as int + 100) == (if sync || info.stable_writes { 2int } else { 0int }),
        final(w)@.len() == old(w)@.len() as int + 112,
{
    let s1 = old(w)@.put_u32(0);
    wcc_is_written(s1, info.share, node, Some(a));
    assert(u32_at(final(w)@, old(w)@.len() as int) == u32_at(s1, old(w)@.len() as int));
}

/// CREATE, MKDIR and SYMLINK tell a handle of the node that the tree made, and its attributes. The
/// handle is one that is taken for that node.
pub proof fn create_tells(
    req: &Req3,
    info: &SurfaceInfo,
    codec: &HandleCodec,
    ans: &Vec<Answer>,
    w: &mut XdrWriter,
    turn: Turn,
    dir: NodeKey,
    name: Seq<u8>,
    kind: CreateKind<Seq<u8>>,
    mode: u16,
    node: NodeKey,
    a: Attr,
    d: NfsResult<Attr>,
)
    requires
        call_ensures(step, (req, info, codec, ans, w), turn),
        info.writable,
        req@ == (Req3::<Seq<u8>>::Create { dir, name, kind, mode }),
        ans@.len() == 2,
        ans@[0] == Answer::Entry(Ok((node, a))),
        ans@[1] == Answer::Attr(d),
    ensures
        turn is Done,
        begins_with(final(w)@, old(w)@),
        u32_at(final(w)@, old(w)@.len() as int) == 0,
        u32_at(final(w)@, old(w)@.len() as int + 4) == 1,
        u32_at(final(w)@, old(w)@.len() as int + 8) == 28,
        handle_target(codec.key(), bytes_at(final(w)@, old(w)@.len() as int + 12, 28)) == Some((info.share, node)),
        opt_attrs_at(final(w)@, old(w)@.len() as int + 40, info.share, node, Some(a)),
        opt_attrs_at(final(w)@, old(w)@.len() as int + 132, info.share, dir, opt(d)),
{
    let s = old(w)@;
    minted(codec.key(), info.share, node);
    let s1 = put_post_op_fh(s.put_u32(0), codec.key(), info.share, node);
    let s2 = put_post_op_attr(s1, info.share, node, Some(a));
    opt_attrs_are_written(s1, info.share, node, Some(a));
    wcc_is_written(s2, info.share, dir, opt(d));
    bytes_stay(final(w)@, s1, s.len() as int + 12, 28);
    assert(u32_at(final(w)@, s.len() as int) == u32_at(s1, s.len() as int));
    assert(u32_at(final(w)@, s.len() as int + 4) == u32_at(s1, s.len() as int + 4));
    assert(u32_at(final(w)@, s.len() as int + 8) == u32_at(s1, s.len() as int + 8));
}

/// SETATTR and COMMIT that went well tell the attributes afterwards.
pub proof fn changes_tell(
    req: &Req3,
    info: &SurfaceInfo,
    codec: &HandleCodec,
    ans: &Vec<Answer>,
    w: &mut XdrWriter,
    turn: Turn,
    node: NodeKey,
    a: Attr,
)
    requires
        call_ensures(step, (req, info, codec, ans, w), turn),
        info.writable,
        req@ is Setattr || req@ is Commit,
        req@ is Setattr ==> req@->Setattr_node == node,
        req@ is Commit ==> req@->Commit_node == node,
        ans@.len() == 1,
        ans@[0] == Answer::Attr(Ok(a)),
    ensures
        turn is Done,
        begins_with(final(w)@, old(w)@),
        u32_at(final(w)@, old(w)@.len() as int) == 0,
        opt_attrs_at(final(w)@, old(w)@.len() as int + 8, info.share, node, Some(a)),
{
    let s1 = old(w)@.put_u32(0);
    wcc_is_written(s1, info.share, node, Some(a));
    assert(u32_at(final(w)@, old(w)@.len() as int) == u32_at(s1, old(w)@.len() as int));
}

/// REMOVE and RMDIR tell what the tree said: that it is done, or the error.
pub proof fn removal_tells(
    req: &Req3,
    info: &SurfaceInfo,
    codec: &HandleCodec,
    ans: &Vec<Answer>,
    w: &mut XdrWriter,
    turn: Turn,
    dir: NodeKey,
    name: Seq<u8>,
    is_dir: bool,
    r: NfsResult<()>,
    d: NfsResult<Attr>,
)
    requires
        call_ensures(step, (req, info, codec, ans, w), turn),
        info.writable,
        req@ == (Req3::<Seq<u8>>::Remove { dir, name, is_dir }),
        ans@.len() == 2,
        ans@[0] == Answer::Done(r),
        ans@[1] == Answer::Attr(d),
    ensures
        turn is Done,
        begins_with(final(w)@, old(w)@),
        u32_at(final(w)@, old(w)@.len() as int) == done_number(r),
        opt_attrs_at(final(w)@, old(w)@.len() as int + 8, info.share, dir, opt(d)),
{
    let s1 = old(w)@.put_u32(done_number(r) as u32);
    wcc_is_written(s1, info.share, dir, opt(d));
    assert(u32_at(final(w)@, old(w)@.len() as int) == u32_at(s1, old(w)@.len() as int));
}

/// RENAME tells what the tree said: that it is done, or the error.
pub proof fn renaming_tells(
    req: &Req3,
    info: &SurfaceInfo,
    codec: &HandleCodec,
    ans: &Vec<Answer>,
    w: &mut XdrWriter,
    turn: Turn,
    r: NfsResult<()>,
    d1: NfsResult<Attr>,
    d2: NfsResult<Attr>,
)
    requires
        call_ensures(step, (req, info, codec, ans, w), turn),
        info.writable,
        req@ is Rename,
        ans@.len() == 3,
        ans@[0] == Answer::Done(r),
        ans@[1] == Answer::Attr(d1),
        ans@[2] == Answer::Attr(d2),
    ensures
        turn is Done,
        begins_with(final(w)@, old(w)@),
        u32_at(final(w)@, old(w)@.len() as int) == done_number(r),
{
    let s1 = old(w)@.put_u32(done_number(r) as u32);
    let s2 = put_wcc(s1, info.share, req@->Rename_from_dir, opt(d1));
    wcc_is_written(s1, info.share, req@->Rename_from_dir, opt(d1));
    wcc_is_written(s2, info.share, req@->Rename_to_dir, opt(d2));
    assert(u32_at(final(w)@, old(w)@.len() as int) == u32_at(s1, old(w)@.len() as int));
}

/// What the tree refused is told as its own error, whatever was asked.
pub proof fn errors_are_told(
    req: &Req3,
    info: &SurfaceInfo,
    codec: &HandleCodec,
    ans: &Vec<Answer>,
    w: &mut XdrWriter,
    turn: Turn,
    e: NfsError,
)
    requires
        call_ensures(step, (req, info, codec, ans, w), turn),
        info.writable,
        match req@ {
            Req3::Getattr { .. } => ans@.len() == 1 && ans@[0] == Answer::Attr(Err(e)),
            Req3::Lookup { .. } => ans@.len() == 2 && ans@[1] == Answer::Entry(Err(e)),
            Req3::Access { .. } => ans@.len() == 1 && ans@[0] == Answer::Attr(Err(e)),
            Req3::Readlink { .. } => ans@.len() == 2 && ans@[1] == Answer::Target(Err(e)),
            Req3::Read { .. } => ans@.len() == 3 && ans@[0] == Answer::Range(None) && ans@[2]
                == Answer::Data(Err(e)),
            Req3::Readdir { .. } => ans@.len() == 2 && ans@[1] == Answer::Page(Err(e)),
            Req3::Setattr { .. } => ans@.len() == 2 && ans@[0] == Answer::Attr(Err(e)),
            Req3::Commit { .. } => ans@.len() == 2 && ans@[0] == Answer::Attr(Err(e)),
            Req3::Write { .. } => ans@.len() == 2 && ans@[1] == Answer::Attr(Err(e)),
            Req3::Create { .. } => ans@.len() == 2 && ans@[0] == Answer::Entry(Err(e)),
            _ => false,
        },
    ensures
        turn is Done,
        u32_at(final(w)@, old(w)@.len() as int) == error_number(e),
{
    let s1 = old(w)@.put_u32(error_number(e) as u32);
    let n = old(w)@.len() as int;
    let share = info.share;
    match req@ {
        Req3::Lookup { dir, .. } => opt_attrs_are_written(s1, share, dir, attr_opt(ans@[0])),
        Req3::Readlink { node } => opt_attrs_are_written(s1, share, node, attr_opt(ans@[0])),
        Req3::Read { node, .. } => opt_attrs_are_written(s1, share, node, attr_opt(ans@[1])),
        Req3::Readdir { dir, .. } => opt_attrs_are_written(s1, share, dir, attr_opt(ans@[0])),
        Req3::Setattr { node, .. } => wcc_is_written(s1, share, node, attr_opt(ans@[1])),
        Req3::Commit { node, .. } => wcc_is_written(s1, share, node, attr_opt(ans@[1])),
        Req3::Write { node, .. } => wcc_is_written(s1, share, node, attr_opt(ans@[0])),
        Req3::Create { dir, .. } => wcc_is_written(s1, share, dir, attr_opt(ans@[1])),
        _ => {},
    }
    assert(u32_at(final(w)@, n) == u32_at(s1, n));
}

/// A listing has the entries that the tree gave, from the first one on, until one might not fit: of each
/// its number, its name and the cookie after it. It ends with the mark of the last entry and whether the directory is at its end,
/// which it is not while an entry is left out.
pub proof fn listing_tells(
    req: &Req3,
    info: &SurfaceInfo,
    codec: &HandleCodec,
    ans: &Vec<Answer>,
    w: &mut XdrWriter,
    turn: Turn,
    dir: NodeKey,
    cookie: u64,
    maxcount: u32,
    plus: bool,
    d: NfsResult<Attr>,
    page: ReadDirPage,
)
    requires
        call_ensures(step, (req, info, codec, ans, w), turn),
        req@ == (Req3::<Seq<u8>>::Readdir { dir, cookie, maxcount, plus }),
        ans@.len() == 2,
        ans@[0] == Answer::Attr(d),
        ans@[1] == Answer::Page(Ok(page)),
    ensures
        turn is Done,
        u32_at(final(w)@, old(w)@.len() as int) == 0,
        opt_attrs_at(final(w)@, old(w)@.len() as int + 4, info.share, dir, opt(d)),
        u64_at(final(w)@, old(w)@.len() as int + 4 + opt_len(opt(d))) == page.cookieverf,
        u32_at(final(w)@, final(w)@.len() - 8) == 0,
        u32_at(final(w)@, final(w)@.len() - 4) == 1 ==> page.eof,
        exists|k: nat|
            k <= page.entries@.len() && #[trigger] lists(
                final(w)@,
                old(w)@.len() as int + 12 + opt_len(opt(d)),
                final(w)@.len() - 8,
                info.share,
                codec.key(),
                page.entries@.take(k as int),
                plus,
            ) && (u32_at(final(w)@, final(w)@.len() - 4) == 1 <==> page.eof && k
                == page.entries@.len()) && (k < page.entries@.len() ==> final(w)@.len() - 8 + (if plus {
                160int
            } else {
                40int
            }) + page.entries@[k as int].name@.len() > maxcount),
{
    let s1 = old(w)@.put_u32(0);
    let n = old(w)@.len() as int;
    let s2 = put_post_op_attr(s1, info.share, dir, opt(d));
    opt_attrs_are_written(s1, info.share, dir, opt(d));
    let h = s2.put_u64(page.cookieverf);
    entries_are_listed(h, info.share, codec.key(), page.entries@, 0, plus, maxcount, h);
    let body = put_entries(h, info.share, codec.key(), page.entries@, 0, plus, maxcount).0;
    assert(u32_at(final(w)@, n) == u32_at(s1, n));
    let k = choose|k: nat|
        k <= page.entries@.len() && #[trigger] lists(
            body,
            h.len() as int,
            body.len() as int,
            info.share,
            codec.key(),
            page.entries@.take(k as int),
            plus,
        ) && (put_entries(h, info.share, codec.key(), page.entries@, 0, plus, maxcount).1 <==> k
            == page.entries@.len()) && (k < page.entries@.len() ==> body.len() + (if plus {
            160int
        } else {
            40int
        }) + page.entries@[k as int].name@.len() > maxcount);
    listing_stays(
        final(w)@,
        body,
        h.len() as int,
        body.len() as int,
        info.share,
        codec.key(),
        page.entries@.take(k as int),
        plus,
    );
    assert(begins_with(final(w)@, body));
    assert(h.len() == n + 12 + opt_len(opt(d)));
    assert(body.len() == final(w)@.len() - 8);
    assert(lists(
        final(w)@,
        n + 12 + opt_len(opt(d)),
        final(w)@.len() - 8,
        info.share,
        codec.key(),
        page.entries@.take(k as int),
        plus,
    ));
}

/// FSSTAT tells the sizes and numbers that the tree says of itself.
pub proof fn fsstat_tells(
    req: &Req3,
    info: &SurfaceInfo,
    codec: &HandleCodec,
    ans: &Vec<Answer>,
    w: &mut XdrWriter,
    turn: Turn,
)
    requires
        call_ensures(step, (req, info, codec, ans, w), turn),
        req@ is Fsstat,
    ensures
        turn is Done,
        u32_at(final(w)@, old(w)@.len() as int) == 0,
        u32_at(final(w)@, old(w)@.len() as int + 4) == 0,
        u64_at(final(w)@, old(w)@.len() as int + 8) == info.fsstat.total_bytes,
        u64_at(final(w)@, old(w)@.len() as int + 16) == info.fsstat.free_bytes,
        u64_at(final(w)@, old(w)@.len() as int + 24) == info.fsstat.avail_bytes,
        u64_at(final(w)@, old(w)@.len() as int + 32) == info.fsstat.total_files,
        u64_at(final(w)@, old(w)@.len() as int + 40) == info.fsstat.free_files,
        u64_at(final(w)@, old(w)@.len() as int + 48) == info.fsstat.free_files,
{
    reveal(crate::nfs3::fsstat_reply);
}

/// FSINFO tells that a mebibyte can be read or written at a time, that files can be as large as can be
/// said, and that links and times can be set.
pub proof fn fsinfo_tells(
    req: &Req3,
    info: &SurfaceInfo,
    codec: &HandleCodec,
    ans: &Vec<Answer>,
    w: &mut XdrWriter,
    turn: Turn,
)
    requires
        call_ensures(step, (req, info, codec, ans, w), turn),
        req@ is Fsinfo,
    ensures
        turn is Done,
        u32_at(final(w)@, old(w)@.len() as int) == 0,
        u32_at(final(w)@, old(w)@.len() as int + 8) == 0x10_0000,
        u32_at(final(w)@, old(w)@.len() as int + 12) == 0x10_0000,
        u32_at(final(w)@, old(w)@.len() as int + 20) == 0x10_0000,
        u32_at(final(w)@, old(w)@.len() as int + 24) == 0x10_0000,
        u64_at(final(w)@, old(w)@.len() as int + 36) == u64::MAX,
        u32_at(final(w)@, old(w)@.len() as int + 52) == 0x1b,
{
    reveal(crate::nfs3::fsinfo_reply);
}

/// PATHCONF tells that a name has 255 bytes at most, that case counts and is kept, and that a name is
/// not cut short in silence.
pub proof fn pathconf_tells(
    req: &Req3,
    info: &SurfaceInfo,
    codec: &HandleCodec,
    ans: &Vec<Answer>,
    w: &mut XdrWriter,
    turn: Turn,
)
    requires
        call_ensures(step, (req, info, codec, ans, w), turn),
        req@ is Pathconf,
    ensures
        turn is Done,
        u32_at(final(w)@, old(w)@.len() as int) == 0,
        u32_at(final(w)@, old(w)@.len() as int + 12) == 255,
        u32_at(final(w)@, old(w)@.len() as int + 16) == 1,
        u32_at(final(w)@, old(w)@.len() as int + 24) == 0,
        u32_at(final(w)@, old(w)@.len() as int + 28) == 1,
{
    reveal(crate::nfs3::pathconf_reply);
}

/// A stale handle, an unknown procedure and a name that is too long are told as such; so is a change of
/// a tree that takes none, which the tree is not asked for.
pub proof fn refusals_are_told(
    req: &Req3,
    info: &SurfaceInfo,
    codec: &HandleCodec,
    ans: &Vec<Answer>,
    w: &mut XdrWriter,
    turn: Turn,
)
    requires
        call_ensures(step, (req, info, codec, ans, w), turn),
        req@ is Stale || req@ is Unsupported || (req@ is LookupLong && ans@.len() == 1) || ((req@ is ChangeLong || req@ is Mknod) && ans@.len() == 1),
    ensures
        turn is Done,
        u32_at(final(w)@, old(w)@.len() as int) == (if req@ is Stale {
            70int
        } else if req@ is Unsupported || req@ is Mknod {
            10004int
        } else {
            63int
        }),
{
    let n = old(w)@.len() as int;
    let share = info.share;
    match req@ {
        Req3::LookupLong { dir } => opt_attrs_are_written(
            old(w)@.put_u32(63),
            share,
            dir,
            attr_opt(ans@[0]),
        ),
        Req3::ChangeLong { dir } => wcc_is_written(old(w)@.put_u32(63), share, dir, attr_opt(ans@[0])),
        Req3::Mknod { dir } => {
            if let Some(d) = dir {
                wcc_is_written(old(w)@.put_u32(10004), share, d, attr_opt(ans@[0]));
            }
        },
        _ => {},
    }
}

} // verus!
