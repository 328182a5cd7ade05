//! Calls, replies, records, mounts and file handles on the wire.
use crate::digest::blake3_keyed;
use crate::handle::{tag_of, HandleCodec};
use crate::laws::wire::{
    as_item, as_u32, begins_with, bytes_at, group_places, group_reads, u32_at, u64_at,
};
use crate::mount3::dispatch;
use crate::nfs3::fh_bytes;
use crate::nfs41::call::{handle_call, Call41};
use crate::rpc::{parse_call, reply_accepted, reply_prog_mismatch, RpcCall, RpcDecodeError};
use crate::server::{
    finish, handle_record, record_marker, reply_marker, RecordReader, RecordTooLarge, Reply, Served,
};
use crate::surface::{SendRange, SurfaceInfo};
use crate::types::NodeKey;
use crate::xdr::{Wire, XdrReader, XdrWriter};
use vstd::prelude::*;

verus! {

broadcast use {group_places, group_reads};

/// A call on the wire: its number, that it is a call, the RPC version, program, version, procedure,
/// credentials, a verifier, and the arguments.
pub open spec fn call_sent(
    xid: u32,
    program: u32,
    version: u32,
    procedure: u32,
    flavor: u32,
    cred: Seq<u8>,
    vflavor: u32,
    verf: Seq<u8>,
    args: Seq<u8>,
) -> Seq<u8> {
    as_u32(xid) + (as_u32(0) + (as_u32(2) + (as_u32(program) + (as_u32(version) + (as_u32(procedure)
        + (as_u32(flavor) + (as_item(cred) + (as_u32(vflavor) + (as_item(verf) + args)))))))))
}

/// A call without Unix credentials is read as it was sent.
pub proof fn calls_are_read<'a>(
    buf: &'a [u8],
    res: Result<(RpcCall, XdrReader<'a>), RpcDecodeError>,
    xid: u32,
    program: u32,
    version: u32,
    procedure: u32,
    flavor: u32,
    cred: Seq<u8>,
    vflavor: u32,
    verf: Seq<u8>,
    args: Seq<u8>,
)
    requires
        call_ensures(parse_call, (buf,), res),
        buf@ == call_sent(xid, program, version, procedure, flavor, cred, vflavor, verf, args),
        flavor != 1,
        cred.len() <= 1024,
        verf.len() <= 1024,
    ensures
        res is Ok,
        (res->Ok_0).0 == (RpcCall { xid, program, version, procedure, uid: 0, gid: 0 }),
        (res->Ok_0).1@ == args,
{
}

/// A call with Unix credentials is read with the user and group that they name.
pub proof fn unix_calls_are_read<'a>(
    buf: &'a [u8],
    res: Result<(RpcCall, XdrReader<'a>), RpcDecodeError>,
    xid: u32,
    program: u32,
    version: u32,
    procedure: u32,
    stamp: u32,
    machine: Seq<u8>,
    uid: u32,
    gid: u32,
    more: Seq<u8>,
    vflavor: u32,
    verf: Seq<u8>,
    args: Seq<u8>,
)
    requires
        call_ensures(parse_call, (buf,), res),
        buf@ == call_sent(
            xid,
            program,
            version,
            procedure,
            1,
            as_u32(stamp) + (as_item(machine) + (as_u32(uid) + (as_u32(gid) + more))),
            vflavor,
            verf,
            args,
        ),
        machine.len() <= 255,
        (as_u32(stamp) + (as_item(machine) + (as_u32(uid) + (as_u32(gid) + more)))).len() <= 1024,
        verf.len() <= 1024,
    ensures
        res is Ok,
        (res->Ok_0).0 == (RpcCall { xid, program, version, procedure, uid, gid }),
        (res->Ok_0).1@ == args,
{
}

/// A reply, or a call of another RPC version, is no call.
pub proof fn other_messages_are_no_calls<'a>(
    buf: &'a [u8],
    res: Result<(RpcCall, XdrReader<'a>), RpcDecodeError>,
    xid: u32,
    kind: u32,
    vers: u32,
    rest: Seq<u8>,
)
    requires
        call_ensures(parse_call, (buf,), res),
        buf@ == as_u32(xid) + (as_u32(kind) + (as_u32(vers) + rest)),
    ensures
        kind != 0 ==> res is Err && res->Err_0 is NotCall,
        kind == 0 && vers != 2 ==> res is Err && res->Err_0 == RpcDecodeError::BadVersion(vers),
{
}

/// An accepted reply: the call's number, that it is a reply, that it was accepted, an empty
/// verifier and how it went.
pub open spec fn accepted(w: Seq<u8>, xid: u32, status: u32) -> bool {
    &&& w.len() >= 24
    &&& u32_at(w, 0) == xid
    &&& u32_at(w, 4) == 1
    &&& u32_at(w, 8) == 0
    &&& u32_at(w, 12) == 0
    &&& u32_at(w, 16) == 0
    &&& u32_at(w, 20) == status
}

proof fn header_is_accepted(xid: u32, status: u32)
    ensures
        accepted(crate::rpc::accepted_header(xid, status), xid, status),
        crate::rpc::accepted_header(xid, status).len() == 24,
{
    let e = Seq::<u8>::empty();
    let a = e.put_u32(xid).put_u32(1).put_u32(0).put_u32(0);
    let b = a.put_opaque(e).put_u32(status);
    assert(begins_with(b, a));
}

/// A reply tells its call's number and how it went.
pub proof fn replies_name_their_call(xid: u32, status: u32, w: XdrWriter)
    requires
        call_ensures(reply_accepted, (xid, status), w),
    ensures
        accepted(w@, xid, status),
        w@.len() == 24,
{
    header_is_accepted(xid, status);
}

/// A call of another version is told which versions there are.
pub proof fn versions_are_told(xid: u32, low: u32, high: u32, w: XdrWriter)
    requires
        call_ensures(reply_prog_mismatch, (xid, low, high), w),
    ensures
        accepted(w@, xid, 2),
        u32_at(w@, 24) == low,
        u32_at(w@, 28) == high,
        w@.len() == 32,
{
    header_is_accepted(xid, 2);
}

/// MNT gives the handle of the export's root and the two flavors; EXPORT lists the root; any other
/// procedure is answered with nothing.
pub proof fn mounts_give_the_root(
    proc: u32,
    info: &SurfaceInfo,
    codec: &HandleCodec,
    w: &mut XdrWriter,
)
    requires
        call_ensures(dispatch, (proc, info, codec, w), ()),
        fh_bytes(codec.key(), info.share, info.root).len() == 28,
    ensures
        ({
            let at = old(w)@.len() as int;
            let s = final(w)@;
            &&& begins_with(s, old(w)@)
            &&& proc == 1 ==> {
                &&& s.len() == at + 48
                &&& u32_at(s, at) == 0
                &&& u32_at(s, at + 4) == 28
                &&& bytes_at(s, at + 8, 28) == fh_bytes(codec.key(), info.share, info.root)
                &&& u32_at(s, at + 36) == 2
                &&& u32_at(s, at + 40) == 1
                &&& u32_at(s, at + 44) == 0
            }
            &&& proc == 5 ==> {
                &&& s.len() == at + 20
                &&& u32_at(s, at) == 1
                &&& u32_at(s, at + 4) == 1
                &&& bytes_at(s, at + 8, 1) == seq![47u8]
                &&& u32_at(s, at + 12) == 0
                &&& u32_at(s, at + 16) == 0
            }
            &&& proc != 1 && proc != 5 ==> s == old(w)@
        }),
{
    assert(seq![47u8].len() == 1);
}

/// A record's marker is its length with the high bit set.
pub proof fn markers_hold_the_length(len: usize, m: u32)
    requires
        call_ensures(record_marker, (len,), m),
        len < 0x8000_0000,
    ensures
        m == 0x8000_0000 + len,
{
}

/// A fragment's marker tells its length and whether it is the last; a record may have 2 MiB.
pub proof fn fragments_are_bounded(
    r: &RecordReader,
    marker: u32,
    res: Result<(bool, usize), RecordTooLarge>,
)
    requires
        call_ensures(RecordReader::expect, (r, marker), res),
    ensures
        ({
            let len: int = if marker >= 0x8000_0000 {
                marker - 0x8000_0000
            } else {
                marker as int
            };
            &&& res is Ok <==> r@.len() + len <= 2_097_152
            &&& res is Ok ==> (res->Ok_0).0 == (marker >= 0x8000_0000) && (res->Ok_0).1 == len
        }),
{
}

/// A record is its fragments, one after the other.
pub proof fn fragments_make_the_record(r: &mut RecordReader, fragment: &[u8])
    requires
        call_ensures(RecordReader::push, (r, fragment), ()),
    ensures
        final(r)@ == old(r)@ + fragment@,
        final(r).started(),
{
}

/// The stream may end only before a record.
pub proof fn streams_end_between_records(r: &RecordReader, mark_read: usize, res: bool)
    requires
        call_ensures(RecordReader::at_boundary, (r, mark_read), res),
    ensures
        res <==> mark_read == 0 && !r.started(),
{
}

/// A reply is sent under the length of all that it puts on the wire; an empty one is not sent.
pub proof fn replies_are_marked(reply: &Reply, m: Option<u32>)
    requires
        call_ensures(reply_marker, (reply,), m),
    ensures
        *reply is Whole && reply->Whole_0@.len() == 0 ==> m is None,
        *reply is Whole && 0 < reply->Whole_0@.len() < 0x8000_0000 ==> m == Some(
            (0x8000_0000 + reply->Whole_0@.len()) as u32,
        ),
        *reply is HeadAndFile && reply->head@.len() + reply->body.len + reply->pad < 0x8000_0000
            ==> m == Some((0x8000_0000 + reply->head@.len() + reply->body.len + reply->pad) as u32),
{
}

/// A reply is what was rendered; a payload from a file follows it, padded to a multiple of four.
pub proof fn payloads_are_padded(w: XdrWriter, body: Option<SendRange>, reply: Reply)
    requires
        call_ensures(finish, (w, body), reply),
    ensures
        body is None <==> reply is Whole,
        body is None ==> reply->Whole_0@ == w@,
        body is Some ==> {
            &&& reply->head@ == w@
            &&& reply->body == body->0
            &&& reply->pad < 4
            &&& (body->0.len + reply->pad) % 4 == 0
        },
{
}

/// A record is served by its program and version: NFS 3 and MOUNT 3 are served, their other
/// versions are told so, and other programs are not there.
pub proof fn programs_are_served(
    record: &[u8],
    info: &SurfaceInfo,
    codec: &HandleCodec,
    out: Served,
    xid: u32,
    program: u32,
    version: u32,
    procedure: u32,
    flavor: u32,
    cred: Seq<u8>,
    args: Seq<u8>,
)
    requires
        call_ensures(handle_record, (record, info, codec), out),
        record@ == call_sent(
            xid,
            program,
            version,
            procedure,
            flavor,
            cred,
            0,
            Seq::empty(),
            args,
        ),
        flavor != 1,
        cred.len() <= 1024,
        fh_bytes(codec.key(), info.share, info.root).len() == 28,
    ensures
        out is Nfs3 <==> program == 100003 && version == 3,
        out is Nfs3 ==> accepted(out->Nfs3_1@, xid, 0) && out->Nfs3_1@.len() == 24,
        program == 100005 && version == 3 ==> out is Reply && accepted(out->Reply_0@, xid, 0),
        program == 100005 && version == 3 && procedure == 1 ==> bytes_at(
            out->Reply_0@,
            32,
            28,
        ) == fh_bytes(codec.key(), info.share, info.root),
        (program == 100003 || program == 100005) && version != 3 ==> out is Reply && accepted(
            out->Reply_0@,
            xid,
            2,
        ) && u32_at(out->Reply_0@, 24) == 3 && u32_at(out->Reply_0@, 28) == 3,
        program != 100003 && program != 100005 ==> out is Reply && accepted(out->Reply_0@, xid, 1)
            && out->Reply_0@.len() == 24,
{
    assert(crate::rpc::call_of(record@) == Ok::<_, RpcDecodeError>(
        (RpcCall { xid, program, version, procedure, uid: 0, gid: 0 }, args),
    ));
    header_is_accepted(xid, 0);
    header_is_accepted(xid, 1);
    header_is_accepted(xid, 2);
    let h = crate::rpc::accepted_header(xid, 0);
    let root = fh_bytes(codec.key(), info.share, info.root);
    let m = h.put_u32(0).put_opaque(root).put_u32(2).put_u32(1).put_u32(0);
    assert(begins_with(m, h));
    let slash = seq![47u8];
    assert(slash.len() == 1);
    let x = h.put_bool(true).put_opaque(slash).put_bool(false).put_bool(false);
    assert(begins_with(x, h));
}

/// A call of NFS 4 is a compound, or nothing; other versions and programs are told apart.
pub proof fn compounds_are_served<'a>(
    record: &'a [u8],
    out: Call41<'a>,
    xid: u32,
    program: u32,
    version: u32,
    procedure: u32,
    flavor: u32,
    cred: Seq<u8>,
    args: Seq<u8>,
)
    requires
        call_ensures(handle_call, (record,), out),
        record@ == call_sent(
            xid,
            program,
            version,
            procedure,
            flavor,
            cred,
            0,
            Seq::empty(),
            args,
        ),
        flavor != 1,
        cred.len() <= 1024,
    ensures
        out is Compound <==> program == 100003 && version == 4 && procedure == 1,
        out is Compound ==> out->Compound_0@ == args && accepted(out->Compound_1@, xid, 0),
        program != 100003 ==> out is Reply && accepted(out->Reply_0@, xid, 1),
        program == 100003 && version != 4 ==> out is Reply && accepted(out->Reply_0@, xid, 2)
            && u32_at(out->Reply_0@, 24) == 4 && u32_at(out->Reply_0@, 28) == 4,
        program == 100003 && version == 4 && procedure == 0 ==> out is Reply && accepted(
            out->Reply_0@,
            xid,
            0,
        ),
        program == 100003 && version == 4 && procedure > 1 ==> out is Reply && accepted(
            out->Reply_0@,
            xid,
            3,
        ),
{
    assert(crate::rpc::call_of(record@) == Ok::<_, RpcDecodeError>(
        (RpcCall { xid, program, version, procedure, uid: 0, gid: 0 }, args),
    ));
    header_is_accepted(xid, 0);
    header_is_accepted(xid, 1);
    header_is_accepted(xid, 2);
    header_is_accepted(xid, 3);
}

/// The number in two bytes, the most significant first.
pub open spec fn u16_at(s: Seq<u8>, i: int) -> int {
    s[i] * 0x100 + s[i + 1]
}

/// A handle is 28 bytes: `MST1`, the share, no flags, the inode, the generation, and eight bytes of
/// the keyed digest of all these.
pub open spec fn handle_says(fh: Seq<u8>, key: Seq<u8>, share: u16, node: NodeKey) -> bool {
    &&& fh.len() == 28
    &&& fh[0] == 77 && fh[1] == 83 && fh[2] == 84 && fh[3] == 49
    &&& u16_at(fh, 4) == share
    &&& u64_at(fh, 8) == node.ino
    &&& u32_at(fh, 16) == node.generation
    &&& tagged(fh, key)
}

/// The last eight bytes of a handle are the first of the keyed digest of the others, which is at
/// least as long.
pub open spec fn tagged(fh: Seq<u8>, key: Seq<u8>) -> bool {
    let d = blake3_keyed(key, fh.take(20));
    d.len() >= 8 ==> u64_at(fh, 20) == u64_at(d, 0)
}

/// A handle names the share and the node, under the key's tag.
pub proof fn handles_name_the_node(codec: &HandleCodec, share: u16, node: NodeKey, fh: Vec<u8>)
    requires
        call_ensures(HandleCodec::encode, (codec, share, node), fh),
    ensures
        handle_says(fh@, codec.key(), share, node),
        u16_at(fh@, 6) == 0,
{
    let e = Seq::<u8>::empty();
    let start = crate::handle::magic() + crate::bytes::be16(share) + crate::bytes::be16(0);
    let head = start.put_u64(node.ino).put_u32(node.generation);
    let tag = tag_of(codec.key(), share, 0, node);
    let d = blake3_keyed(codec.key(), head);
    assert(start.len() == 8);
    assert(head.len() == 20);
    let f = head.put_u64(tag);
    assert(begins_with(f, head) && begins_with(f, start)) by {
        crate::laws::wire::begins_with_beginning(head, start.put_u64(node.ino), start);
        crate::laws::wire::begins_with_beginning(f, head, start);
    }
    assert(f.take(20) =~= head) by {
        reveal(begins_with);
    }
    assert(forall|i: int| 0 <= i < 8 ==> f[i] == start[i]) by {
        reveal(begins_with);
        assert forall|i: int| 0 <= i < 8 implies f[i] == start[i] by {
            assert(f.take(8)[i] == f[i]);
        }
    }
    if d.len() >= 8 {
        tag_is_read(d);
    }
}

proof fn tag_is_read(d: Seq<u8>)
    requires
        d.len() >= 8,
    ensures
        crate::xdr::de64(d) == u64_at(d, 0),
{
    reveal(u32_at);
    reveal(crate::xdr::de32);
    assert(d.skip(4)[0] == d[4] && d.skip(4)[1] == d[5] && d.skip(4)[2] == d[6] && d.skip(4)[3]
        == d[7]);
}

/// A handle gives access to what it names exactly where it has the right shape and the key's tag.
pub proof fn handles_are_checked(codec: &HandleCodec, fh: &[u8], res: Option<(u16, NodeKey)>)
    requires
        call_ensures(HandleCodec::decode, (codec, fh), res),
    ensures
        res is Some ==> handle_says(fh@, codec.key(), (res->0).0, (res->0).1),
        res is None && blake3_keyed(codec.key(), fh@.take(20)).len() >= 8 ==> fh@.len() != 28
            || fh@[0] != 77 || fh@[1] != 83 || fh@[2] != 84 || fh@[3] != 49 || !tagged(
            fh@,
            codec.key(),
        ),
{
    let s = fh@;
    if s.len() == 28 && s[0] == 77 && s[1] == 83 && s[2] == 84 && s[3] == 49 {
        assert(s.take(4) =~= crate::handle::magic());
        let share = crate::bytes::de16(s.skip(4));
        let flags = crate::bytes::de16(s.skip(6));
        let node = NodeKey {
            ino: crate::xdr::de64(s.skip(8)),
            generation: crate::xdr::de32(s.skip(16)),
        };
        place_of(s, 8);
        place_of(s, 20);
        reveal(u32_at);
        reveal(crate::xdr::de32);
        let head = crate::handle::handle_head(share, flags, node);
        let d = blake3_keyed(codec.key(), head);
        if d.len() >= 8 {
            tag_is_read(d);
        }
        head_is_there(s, share, flags, node);
    } else {
        assert(s.len() == 28 ==> s.take(4)[0] == s[0] && s.take(4)[1] == s[1] && s.take(4)[2]
            == s[2] && s.take(4)[3] == s[3]);
    }
}

proof fn place_of(s: Seq<u8>, i: int)
    requires
        0 <= i,
        i + 8 <= s.len(),
    ensures
        crate::xdr::de64(s.skip(i)) == u64_at(s, i),
{
    reveal(u32_at);
    reveal(crate::xdr::de32);
    let t = s.skip(i);
    assert(t.skip(4)[0] == s[i + 4] && t.skip(4)[1] == s[i + 5] && t.skip(4)[2] == s[i + 6]
        && t.skip(4)[3] == s[i + 7]);
}

proof fn same_places(a: Seq<u8>, b: Seq<u8>)
    requires
        a.len() == 20,
        b.len() == 20,
        forall|i: int| 0 <= i < 8 ==> a[i] == b[i],
        u64_at(a, 8) == u64_at(b, 8),
        u32_at(a, 16) == u32_at(b, 16),
    ensures
        a == b,
{
    same_words(a, b, 16);
    word_fits(a, 8);
    word_fits(b, 8);
    word_fits(a, 12);
    word_fits(b, 12);
    same_words(a, b, 8);
    same_words(a, b, 12);
    assert(a =~= b);
}

proof fn word_fits(a: Seq<u8>, i: int)
    ensures
        0 <= u32_at(a, i) < 0x1_0000_0000,
{
    reveal(u32_at);
}

proof fn same_words(a: Seq<u8>, b: Seq<u8>, i: int)
    requires
        u32_at(a, i) == u32_at(b, i),
    ensures
        a[i] == b[i],
        a[i + 1] == b[i + 1],
        a[i + 2] == b[i + 2],
        a[i + 3] == b[i + 3],
{
    reveal(u32_at);
    digits_are_same(
        a[i] as int,
        a[i + 1] as int,
        a[i + 2] as int,
        a[i + 3] as int,
        b[i] as int,
        b[i + 1] as int,
        b[i + 2] as int,
        b[i + 3] as int,
    );
}

proof fn digits_are_same(
    a0: int,
    a1: int,
    a2: int,
    a3: int,
    b0: int,
    b1: int,
    b2: int,
    b3: int,
)
    requires
        0 <= a0 < 256 && 0 <= a1 < 256 && 0 <= a2 < 256 && 0 <= a3 < 256,
        0 <= b0 < 256 && 0 <= b1 < 256 && 0 <= b2 < 256 && 0 <= b3 < 256,
        a0 * 0x100_0000 + a1 * 0x1_0000 + a2 * 0x100 + a3 == b0 * 0x100_0000 + b1 * 0x1_0000 + b2
            * 0x100 + b3,
    ensures
        a0 == b0 && a1 == b1 && a2 == b2 && a3 == b3,
{
    assert(a0 == b0);
    assert(a1 == b1);
    assert(a2 == b2);
}

proof fn head_is_there(s: Seq<u8>, share: u16, flags: u16, node: NodeKey)
    requires
        s.len() == 28,
        s[0] == 77 && s[1] == 83 && s[2] == 84 && s[3] == 49,
        share == s[4] * 0x100 + s[5],
        flags == s[6] * 0x100 + s[7],
        node.ino == u64_at(s, 8),
        node.generation == u32_at(s, 16),
    ensures
        crate::handle::handle_head(share, flags, node) == s.take(20),
{
    let start = crate::handle::magic() + crate::bytes::be16(share) + crate::bytes::be16(flags);
    let a = start.put_u64(node.ino);
    let head = a.put_u32(node.generation);
    assert(start.len() == 8);
    crate::laws::wire::begins_with_beginning(head, a, start);
    let t = s.take(20);
    assert forall|i: int| 0 <= i < 8 implies head[i] == t[i] by {
        reveal(begins_with);
        assert(head.take(8)[i] == head[i]);
        assert(start[i] == t[i]);
    }
    assert(u64_at(t, 8) == u64_at(s, 8) && u32_at(t, 16) == u32_at(s, 16)) by {
        reveal(u32_at);
    }
    same_places(head, t);
}

} // verus!
