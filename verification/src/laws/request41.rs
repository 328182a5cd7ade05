//! NFSv4.1: what an operation means.
use crate::laws::attrs41::{meant, sent_values, settable_reads};
use crate::laws::wire::{as_bytes, as_flag, as_item, as_u32, as_u64, group_reads};
use crate::nfs41::attrs::{bitmap_round_trip, in_words, put_bitmap};
use crate::nfs41::request::{chan_of, decode_op, stateid_of, Claim, OpReq, OpSpec, OpenHow};
use crate::surface::CreateKind;
use crate::types::Ts;
use crate::xdr::XdrReader;
use vstd::prelude::*;

verus! {

/// A stateid: its number and its twelve bytes.
pub open spec fn stateid(seq: u32, other: Seq<u8>) -> Seq<u8> {
    as_u32(seq) + as_bytes(other)
}

proof fn stateid_is_read(seq: u32, other: Seq<u8>, rest: Seq<u8>)
    requires
        other.len() == 12,
    ensures
        stateid_of(stateid(seq, other) + rest) == Some(((seq, other), rest)),
{
    broadcast use group_reads;

    regroup(as_u32(seq), as_bytes(other), rest);
}

proof fn regroup(a: Seq<u8>, b: Seq<u8>, c: Seq<u8>)
    ensures
        (a + b) + c == a + (b + c),
{
    assert((a + b) + c =~= a + (b + c));
}

/// The attributes of a channel, of which the second is the largest request.
pub open spec fn chan(max_req: u32) -> Seq<u8> {
    as_u32(0) + (as_u32(max_req) + (as_u32(0) + (as_u32(0) + (as_u32(0) + (as_u32(0) + as_u32(
        0,
    ))))))
}

proof fn chan_is_read(max_req: u32, rest: Seq<u8>)
    ensures
        chan_of(chan(max_req) + rest) == Some((max_req, rest)),
{
    broadcast use group_reads;

    let z = as_u32(0);
    regroup(z, rest, rest);
    regroup7(z, as_u32(max_req), z, z, z, z, z, rest);
    assert(rest.skip(0) =~= rest);
}

proof fn regroup7(
    a: Seq<u8>,
    b: Seq<u8>,
    c: Seq<u8>,
    d: Seq<u8>,
    e: Seq<u8>,
    f: Seq<u8>,
    g: Seq<u8>,
    rest: Seq<u8>,
)
    ensures
        (a + (b + (c + (d + (e + (f + g)))))) + rest == a + (b + (c + (d + (e + (f + (g + rest)))))),
{
    assert((a + (b + (c + (d + (e + (f + g)))))) + rest =~= a + (b + (c + (d + (e + (f + (g
        + rest)))))));
}

/// PUTFH is operation 22: the handle that follows becomes the current file.
pub proof fn putfh_is_decoded(
    r: &mut XdrReader<'_>,
    now: Ts,
    has_cfh: bool,
    res: Result<OpReq, u32>,
    fh: Seq<u8>,
    rest: Seq<u8>,
)
    requires
        call_ensures(decode_op, (22u32, r, now, has_cfh), res),
        fh.len() <= 128,
        old(r)@ == as_item(fh) + rest,
    ensures
        res is Ok,
        res->Ok_0@ == (OpSpec::PutFh { fh }),
        final(r)@ == rest,
{
    broadcast use group_reads;

}

/// PUTROOTFH is operation 24.
pub proof fn putrootfh_is_decoded(
    r: &mut XdrReader<'_>,
    now: Ts,
    has_cfh: bool,
    res: Result<OpReq, u32>,
    rest: Seq<u8>,
)
    requires
        call_ensures(decode_op, (24u32, r, now, has_cfh), res),
        old(r)@ == rest,
    ensures
        res is Ok,
        res->Ok_0@ == (OpSpec::PutRootFh),
        final(r)@ == rest,
{
    broadcast use group_reads;

}

/// GETFH is operation 10.
pub proof fn getfh_is_decoded(
    r: &mut XdrReader<'_>,
    now: Ts,
    has_cfh: bool,
    res: Result<OpReq, u32>,
    rest: Seq<u8>,
)
    requires
        call_ensures(decode_op, (10u32, r, now, has_cfh), res),
        old(r)@ == rest,
    ensures
        res is Ok,
        res->Ok_0@ == (OpSpec::GetFh),
        final(r)@ == rest,
{
    broadcast use group_reads;

}

/// SAVEFH is operation 32.
pub proof fn savefh_is_decoded(
    r: &mut XdrReader<'_>,
    now: Ts,
    has_cfh: bool,
    res: Result<OpReq, u32>,
    rest: Seq<u8>,
)
    requires
        call_ensures(decode_op, (32u32, r, now, has_cfh), res),
        old(r)@ == rest,
    ensures
        res is Ok,
        res->Ok_0@ == (OpSpec::SaveFh),
        final(r)@ == rest,
{
    broadcast use group_reads;

}

/// RESTOREFH is operation 31.
pub proof fn restorefh_is_decoded(
    r: &mut XdrReader<'_>,
    now: Ts,
    has_cfh: bool,
    res: Result<OpReq, u32>,
    rest: Seq<u8>,
)
    requires
        call_ensures(decode_op, (31u32, r, now, has_cfh), res),
        old(r)@ == rest,
    ensures
        res is Ok,
        res->Ok_0@ == (OpSpec::RestoreFh),
        final(r)@ == rest,
{
    broadcast use group_reads;

}

/// LOOKUP is operation 15: it looks a name up.
pub proof fn lookup_is_decoded(
    r: &mut XdrReader<'_>,
    now: Ts,
    has_cfh: bool,
    res: Result<OpReq, u32>,
    name: Seq<u8>,
    rest: Seq<u8>,
)
    requires
        call_ensures(decode_op, (15u32, r, now, has_cfh), res),
        name.len() <= 4096,
        old(r)@ == as_item(name) + rest,
    ensures
        res is Ok,
        res->Ok_0@ == (OpSpec::Lookup { name }),
        final(r)@ == rest,
{
    broadcast use group_reads;

}

/// LOOKUPP is operation 16: it goes up.
pub proof fn lookupp_is_decoded(
    r: &mut XdrReader<'_>,
    now: Ts,
    has_cfh: bool,
    res: Result<OpReq, u32>,
    rest: Seq<u8>,
)
    requires
        call_ensures(decode_op, (16u32, r, now, has_cfh), res),
        old(r)@ == rest,
    ensures
        res is Ok,
        res->Ok_0@ == (OpSpec::Lookupp),
        final(r)@ == rest,
{
    broadcast use group_reads;

}

/// ACCESS is operation 3: it asks for the rights that the client names.
pub proof fn access_is_decoded(
    r: &mut XdrReader<'_>,
    now: Ts,
    has_cfh: bool,
    res: Result<OpReq, u32>,
    want: u32,
    rest: Seq<u8>,
)
    requires
        call_ensures(decode_op, (3u32, r, now, has_cfh), res),
        old(r)@ == as_u32(want) + rest,
    ensures
        res is Ok,
        res->Ok_0@ == (OpSpec::Access { want }),
        final(r)@ == rest,
{
    broadcast use group_reads;

}

/// READLINK is operation 27.
pub proof fn readlink_is_decoded(
    r: &mut XdrReader<'_>,
    now: Ts,
    has_cfh: bool,
    res: Result<OpReq, u32>,
    rest: Seq<u8>,
)
    requires
        call_ensures(decode_op, (27u32, r, now, has_cfh), res),
        old(r)@ == rest,
    ensures
        res is Ok,
        res->Ok_0@ == (OpSpec::Readlink),
        final(r)@ == rest,
{
    broadcast use group_reads;

}

/// GETATTR is operation 9: it asks for the attributes of a bitmap.
pub proof fn getattr_is_decoded(
    r: &mut XdrReader<'_>,
    now: Ts,
    has_cfh: bool,
    res: Result<OpReq, u32>,
    a: u32,
    b: u32,
    c: u32,
    rest: Seq<u8>,
)
    requires
        call_ensures(decode_op, (9u32, r, now, has_cfh), res),
        old(r)@ == put_bitmap(Seq::empty(), seq![a, b, c]) + rest,
    ensures
        res is Ok,
        res->Ok_0@ == (OpSpec::Getattr { want: (a, b, c) }),
        final(r)@ == rest,
{
    broadcast use group_reads;

    bitmap_round_trip(seq![a, b, c], rest);
}

/// READDIR is operation 26: the listing goes on after the cookie, within the second size, with the
/// attributes of a bitmap.
pub proof fn readdir_is_decoded(
    r: &mut XdrReader<'_>,
    now: Ts,
    has_cfh: bool,
    res: Result<OpReq, u32>,
    cookie: u64,
    verf: Seq<u8>,
    dircount: u32,
    maxcount: u32,
    a: u32,
    b: u32,
    c: u32,
    rest: Seq<u8>,
)
    requires
        call_ensures(decode_op, (26u32, r, now, has_cfh), res),
        verf.len() == 8,
        old(r)@ == as_u64(cookie) + (as_bytes(verf) + (as_u32(dircount) + (as_u32(maxcount) + (put_bitmap(Seq::empty(), seq![a, b, c]) + rest)))),
    ensures
        res is Ok,
        res->Ok_0@ == (OpSpec::Readdir { cookie, maxcount, want: (a, b, c) }),
        final(r)@ == rest,
{
    broadcast use group_reads;

    bitmap_round_trip(seq![a, b, c], rest);
}

/// READ is operation 25: it asks for the bytes that the client names, a mebibyte at most.
pub proof fn read_is_decoded(
    r: &mut XdrReader<'_>,
    now: Ts,
    has_cfh: bool,
    res: Result<OpReq, u32>,
    seq: u32,
    other: Seq<u8>,
    offset: u64,
    count: u32,
    rest: Seq<u8>,
)
    requires
        call_ensures(decode_op, (25u32, r, now, has_cfh), res),
        other.len() == 12,
        old(r)@ == stateid(seq, other) + (as_u64(offset) + (as_u32(count) + rest)),
    ensures
        res is Ok,
        res->Ok_0@ == (OpSpec::Read {
            seq,
            other,
            offset,
            count: if count <= 0x10_0000 {
                count
            } else {
                0x10_0000
            },
        }),
        final(r)@ == rest,
{
    broadcast use group_reads;

    stateid_is_read(seq, other, as_u64(offset) + (as_u32(count) + rest));
}

/// WRITE is operation 38: the data goes to the offset that the client names.
pub proof fn write_is_decoded(
    r: &mut XdrReader<'_>,
    now: Ts,
    has_cfh: bool,
    res: Result<OpReq, u32>,
    seq: u32,
    other: Seq<u8>,
    offset: u64,
    stable: u32,
    data: Seq<u8>,
    rest: Seq<u8>,
)
    requires
        call_ensures(decode_op, (38u32, r, now, has_cfh), res),
        other.len() == 12,
        data.len() <= 0x10_0000,
        old(r)@ == stateid(seq, other) + (as_u64(offset) + (as_u32(stable) + (as_item(data) + rest))),
    ensures
        res is Ok,
        res->Ok_0@ == (OpSpec::Write { seq, other, offset, stable, data }),
        final(r)@ == rest,
{
    broadcast use group_reads;

    stateid_is_read(seq, other, as_u64(offset) + (as_u32(stable) + (as_item(data) + rest)));
}

/// COMMIT is operation 5: it makes durable the bytes that the client names.
pub proof fn commit_is_decoded(
    r: &mut XdrReader<'_>,
    now: Ts,
    has_cfh: bool,
    res: Result<OpReq, u32>,
    offset: u64,
    count: u32,
    rest: Seq<u8>,
)
    requires
        call_ensures(decode_op, (5u32, r, now, has_cfh), res),
        old(r)@ == as_u64(offset) + (as_u32(count) + rest),
    ensures
        res is Ok,
        res->Ok_0@ == (OpSpec::Commit { offset, count }),
        final(r)@ == rest,
{
    broadcast use group_reads;

}

/// REMOVE is operation 28: it takes a name out of the current directory.
pub proof fn remove_is_decoded(
    r: &mut XdrReader<'_>,
    now: Ts,
    has_cfh: bool,
    res: Result<OpReq, u32>,
    name: Seq<u8>,
    rest: Seq<u8>,
)
    requires
        call_ensures(decode_op, (28u32, r, now, has_cfh), res),
        name.len() <= 4096,
        old(r)@ == as_item(name) + rest,
    ensures
        res is Ok,
        res->Ok_0@ == (OpSpec::Remove { name }),
        final(r)@ == rest,
{
    broadcast use group_reads;

}

/// RENAME is operation 29: what has the first name gets the second.
pub proof fn rename_is_decoded(
    r: &mut XdrReader<'_>,
    now: Ts,
    has_cfh: bool,
    res: Result<OpReq, u32>,
    from: Seq<u8>,
    to: Seq<u8>,
    rest: Seq<u8>,
)
    requires
        call_ensures(decode_op, (29u32, r, now, has_cfh), res),
        from.len() <= 4096,
        to.len() <= 4096,
        old(r)@ == as_item(from) + (as_item(to) + rest),
    ensures
        res is Ok,
        res->Ok_0@ == (OpSpec::Rename { from, to }),
        final(r)@ == rest,
{
    broadcast use group_reads;

}

/// CLOSE is operation 4: its stateid comes after a number of its own.
pub proof fn close_is_decoded(
    r: &mut XdrReader<'_>,
    now: Ts,
    has_cfh: bool,
    res: Result<OpReq, u32>,
    own: u32,
    seq: u32,
    other: Seq<u8>,
    rest: Seq<u8>,
)
    requires
        call_ensures(decode_op, (4u32, r, now, has_cfh), res),
        other.len() == 12,
        old(r)@ == as_u32(own) + (stateid(seq, other) + rest),
    ensures
        res is Ok,
        res->Ok_0@ == (OpSpec::Close { seq, other }),
        final(r)@ == rest,
{
    broadcast use group_reads;

    stateid_is_read(seq, other, rest);
}

/// OPEN_DOWNGRADE is operation 21: its stateid comes first, and then a number of its own, the access that
/// stays, and what is denied.
pub proof fn downgrade_is_decoded(
    r: &mut XdrReader<'_>,
    now: Ts,
    has_cfh: bool,
    res: Result<OpReq, u32>,
    seq: u32,
    other: Seq<u8>,
    own: u32,
    access: u32,
    deny: u32,
    rest: Seq<u8>,
)
    requires
        call_ensures(decode_op, (21u32, r, now, has_cfh), res),
        other.len() == 12,
        old(r)@ == stateid(seq, other) + (as_u32(own) + (as_u32(access) + (as_u32(deny) + rest))),
    ensures
        res is Ok,
        res->Ok_0@ == (OpSpec::OpenDowngrade { seq, other, access }),
        final(r)@ == rest,
{
    broadcast use group_reads;

    stateid_is_read(seq, other, as_u32(own) + (as_u32(access) + (as_u32(deny) + rest)));
}

/// DELEGRETURN is operation 8: it gives the delegation of a stateid back.
pub proof fn delegreturn_is_decoded(
    r: &mut XdrReader<'_>,
    now: Ts,
    has_cfh: bool,
    res: Result<OpReq, u32>,
    seq: u32,
    other: Seq<u8>,
    rest: Seq<u8>,
)
    requires
        call_ensures(decode_op, (8u32, r, now, has_cfh), res),
        other.len() == 12,
        old(r)@ == stateid(seq, other) + rest,
    ensures
        res is Ok,
        res->Ok_0@ == (OpSpec::DelegReturn { other }),
        final(r)@ == rest,
{
    broadcast use group_reads;

    stateid_is_read(seq, other, rest);
}

/// FREE_STATEID is operation 45.
pub proof fn free_stateid_is_decoded(
    r: &mut XdrReader<'_>,
    now: Ts,
    has_cfh: bool,
    res: Result<OpReq, u32>,
    seq: u32,
    other: Seq<u8>,
    rest: Seq<u8>,
)
    requires
        call_ensures(decode_op, (45u32, r, now, has_cfh), res),
        other.len() == 12,
        old(r)@ == stateid(seq, other) + rest,
    ensures
        res is Ok,
        res->Ok_0@ == (OpSpec::FreeStateid { other }),
        final(r)@ == rest,
{
    broadcast use group_reads;

    stateid_is_read(seq, other, rest);
}

/// LOCK is operation 12: a lock of a new owner is one on the open of its stateid.
pub proof fn lock_is_decoded(
    r: &mut XdrReader<'_>,
    now: Ts,
    has_cfh: bool,
    res: Result<OpReq, u32>,
    locktype: u32,
    reclaim: bool,
    offset: u64,
    length: u64,
    open_seq: u32,
    seq: u32,
    other: Seq<u8>,
    lock_seq: u32,
    clientid: u64,
    owner: Seq<u8>,
    rest: Seq<u8>,
)
    requires
        call_ensures(decode_op, (12u32, r, now, has_cfh), res),
        other.len() == 12,
        owner.len() <= 1024,
        old(r)@ == as_u32(locktype) + (as_flag(reclaim) + (as_u64(offset) + (as_u64(length) + (as_flag(true) + (as_u32(open_seq) + (stateid(seq, other) + (as_u32(lock_seq) + (as_u64(clientid) + (as_item(owner) + rest))))))))),
    ensures
        res is Ok,
        res->Ok_0@ == (OpSpec::LockNew { seq, other }),
        final(r)@ == rest,
{
    broadcast use group_reads;

    stateid_is_read(seq, other, as_u32(lock_seq) + (as_u64(clientid) + (as_item(owner) + rest)));
}

/// LOCKU is operation 14.
pub proof fn unlock_is_decoded(
    r: &mut XdrReader<'_>,
    now: Ts,
    has_cfh: bool,
    res: Result<OpReq, u32>,
    locktype: u32,
    own: u32,
    seq: u32,
    other: Seq<u8>,
    offset: u64,
    length: u64,
    rest: Seq<u8>,
)
    requires
        call_ensures(decode_op, (14u32, r, now, has_cfh), res),
        other.len() == 12,
        old(r)@ == as_u32(locktype) + (as_u32(own) + (stateid(seq, other) + (as_u64(offset) + (as_u64(length) + rest)))),
    ensures
        res is Ok,
        res->Ok_0@ == (OpSpec::Locku { seq, other }),
        final(r)@ == rest,
{
    broadcast use group_reads;

    stateid_is_read(seq, other, as_u64(offset) + (as_u64(length) + rest));
}

/// EXCHANGE_ID is operation 42: a client names itself and its run.
pub proof fn exchange_id_is_decoded(
    r: &mut XdrReader<'_>,
    now: Ts,
    has_cfh: bool,
    res: Result<OpReq, u32>,
    verifier: Seq<u8>,
    owner: Seq<u8>,
    flags: u32,
    rest: Seq<u8>,
)
    requires
        call_ensures(decode_op, (42u32, r, now, has_cfh), res),
        verifier.len() == 8,
        owner.len() <= 1024,
        old(r)@ == as_bytes(verifier) + (as_item(owner) + (as_u32(flags) + (as_u32(0) + (as_u32(0) + rest)))),
    ensures
        res is Ok,
        res->Ok_0@ == (OpSpec::ExchangeId { verifier, owner }),
        final(r)@ == rest,
{
    broadcast use group_reads;

}

/// DESTROY_SESSION is operation 44.
pub proof fn destroy_session_is_decoded(
    r: &mut XdrReader<'_>,
    now: Ts,
    has_cfh: bool,
    res: Result<OpReq, u32>,
    sid: Seq<u8>,
    rest: Seq<u8>,
)
    requires
        call_ensures(decode_op, (44u32, r, now, has_cfh), res),
        sid.len() == 16,
        old(r)@ == as_bytes(sid) + rest,
    ensures
        res is Ok,
        res->Ok_0@ == (OpSpec::DestroySession { sid }),
        final(r)@ == rest,
{
    broadcast use group_reads;

}

/// DESTROY_CLIENTID is operation 57.
pub proof fn destroy_clientid_is_decoded(
    r: &mut XdrReader<'_>,
    now: Ts,
    has_cfh: bool,
    res: Result<OpReq, u32>,
    clientid: u64,
    rest: Seq<u8>,
)
    requires
        call_ensures(decode_op, (57u32, r, now, has_cfh), res),
        old(r)@ == as_u64(clientid) + rest,
    ensures
        res is Ok,
        res->Ok_0@ == (OpSpec::DestroyClientid { clientid }),
        final(r)@ == rest,
{
    broadcast use group_reads;

}

/// CREATE_SESSION is operation 43: the client, its number, its flags, the largest request that it sends
/// and the program of its callbacks.
pub proof fn create_session_is_decoded(
    r: &mut XdrReader<'_>,
    now: Ts,
    has_cfh: bool,
    res: Result<OpReq, u32>,
    clientid: u64,
    csa_seq: u32,
    flags: u32,
    max_req: u32,
    back: u32,
    cb_program: u32,
    rest: Seq<u8>,
)
    requires
        call_ensures(decode_op, (43u32, r, now, has_cfh), res),
        old(r)@ == as_u64(clientid) + (as_u32(csa_seq) + (as_u32(flags) + (chan(max_req) + (chan(back) + (as_u32(cb_program) + (as_u32(0) + rest)))))),
    ensures
        res is Ok,
        res->Ok_0@ == (OpSpec::CreateSession { clientid, csa_seq, flags, max_req, cb_program }),
        final(r)@ == rest,
{
    broadcast use group_reads;

    chan_is_read(max_req, chan(back) + (as_u32(cb_program) + (as_u32(0) + rest)));
    chan_is_read(back, as_u32(cb_program) + (as_u32(0) + rest));
}

/// SETATTR is operation 34: it sets the fields that the client names, and no other.
pub proof fn setattr_is_decoded(
    r: &mut XdrReader<'_>,
    now: Ts,
    has_cfh: bool,
    res: Result<OpReq, u32>,
    seq: u32,
    other: Seq<u8>,
    words: Seq<u32>,
    size: u64,
    mode: u32,
    uid: u32,
    gid: u32,
    mtime: Option<(u64, u32)>,
    rest: Seq<u8>,
)
    requires
        call_ensures(decode_op, (34u32, r, now, has_cfh), res),
        other.len() == 12,
        words.len() == 3,
        forall|a: u32| #[trigger]
            in_words(words, a) ==> a == 4 || a == 33 || a == 36 || a == 37 || a == 54,
        old(r)@ == stateid(seq, other) + (put_bitmap(Seq::empty(), words) + (as_item(sent_values(words, size, mode, uid, gid, mtime)) + rest)),
    ensures
        res is Ok,
        res->Ok_0@ == (OpSpec::Setattr { seq, other, set: meant(words, size, mode, uid, gid, mtime, now), want: (words[0], words[1], words[2]) }),
        final(r)@ == rest,
{
    broadcast use group_reads;

    settable_reads(words, size, mode, uid, gid, mtime, now, rest);
    stateid_is_read(seq, other, put_bitmap(Seq::empty(), words) + (as_item(sent_values(words, size, mode, uid, gid, mtime)) + rest));
}

/// CREATE is operation 6: of the type 2 it makes a directory.
pub proof fn mkdir_is_decoded(
    r: &mut XdrReader<'_>,
    now: Ts,
    has_cfh: bool,
    res: Result<OpReq, u32>,
    name: Seq<u8>,
    words: Seq<u32>,
    size: u64,
    mode: u32,
    uid: u32,
    gid: u32,
    mtime: Option<(u64, u32)>,
    rest: Seq<u8>,
)
    requires
        call_ensures(decode_op, (6u32, r, now, has_cfh), res),
        name.len() <= 4096,
        words.len() == 3,
        forall|a: u32| #[trigger]
            in_words(words, a) ==> a == 4 || a == 33 || a == 36 || a == 37 || a == 54,
        old(r)@ == as_u32(2) + (as_item(name) + (put_bitmap(Seq::empty(), words) + (as_item(sent_values(words, size, mode, uid, gid, mtime)) + rest))),
    ensures
        res is Ok,
        res->Ok_0@ == (OpSpec::Create { kind: CreateKind::Dir, name, mode: meant(words, size, mode, uid, gid, mtime, now).mode }),
        final(r)@ == rest,
{
    broadcast use group_reads;

    settable_reads(words, size, mode, uid, gid, mtime, now, rest);
}

/// CREATE of the type 5 makes a link to the target that the client gives.
pub proof fn symlink_is_decoded(
    r: &mut XdrReader<'_>,
    now: Ts,
    has_cfh: bool,
    res: Result<OpReq, u32>,
    target: Seq<u8>,
    name: Seq<u8>,
    words: Seq<u32>,
    size: u64,
    mode: u32,
    uid: u32,
    gid: u32,
    mtime: Option<(u64, u32)>,
    rest: Seq<u8>,
)
    requires
        call_ensures(decode_op, (6u32, r, now, has_cfh), res),
        name.len() <= 4096,
        target.len() <= 4096,
        words.len() == 3,
        forall|a: u32| #[trigger]
            in_words(words, a) ==> a == 4 || a == 33 || a == 36 || a == 37 || a == 54,
        old(r)@ == as_u32(5) + (as_item(target) + (as_item(name) + (put_bitmap(Seq::empty(), words) + (as_item(sent_values(words, size, mode, uid, gid, mtime)) + rest)))),
    ensures
        res is Ok,
        res->Ok_0@ == (OpSpec::Create { kind: CreateKind::Symlink { target }, name, mode: meant(words, size, mode, uid, gid, mtime, now).mode }),
        final(r)@ == rest,
{
    broadcast use group_reads;

    settable_reads(words, size, mode, uid, gid, mtime, now, rest);
}

/// OPEN is operation 18: without creation it opens the name in the current directory.
pub proof fn open_is_decoded(
    r: &mut XdrReader<'_>,
    now: Ts,
    has_cfh: bool,
    res: Result<OpReq, u32>,
    own: u32,
    share_access: u32,
    deny: u32,
    clientid: u64,
    owner: Seq<u8>,
    name: Seq<u8>,
    rest: Seq<u8>,
)
    requires
        call_ensures(decode_op, (18u32, r, now, has_cfh), res),
        has_cfh,
        owner.len() <= 1024,
        name.len() <= 4096,
        old(r)@ == as_u32(own) + (as_u32(share_access) + (as_u32(deny) + (as_u64(clientid) + (as_item(owner) + (as_u32(0) + (as_u32(0) + (as_item(name) + rest))))))),
    ensures
        res is Ok,
        res->Ok_0@ == (OpSpec::Open {
            share_access,
            owner,
            how: OpenHow { create: false, guarded: false, exclusive: false, attrs: None },
            claim: Claim::Null { name },
        }),
        final(r)@ == rest,
{
    broadcast use group_reads;

}

/// OPEN by the handle opens the current file.
pub proof fn open_by_handle_is_decoded(
    r: &mut XdrReader<'_>,
    now: Ts,
    has_cfh: bool,
    res: Result<OpReq, u32>,
    own: u32,
    share_access: u32,
    deny: u32,
    clientid: u64,
    owner: Seq<u8>,
    rest: Seq<u8>,
)
    requires
        call_ensures(decode_op, (18u32, r, now, has_cfh), res),
        has_cfh,
        owner.len() <= 1024,
        old(r)@ == as_u32(own) + (as_u32(share_access) + (as_u32(deny) + (as_u64(clientid) + (as_item(owner) + (as_u32(0) + (as_u32(4) + rest)))))),
    ensures
        res is Ok,
        res->Ok_0@ == (OpSpec::Open {
            share_access,
            owner,
            how: OpenHow { create: false, guarded: false, exclusive: false, attrs: None },
            claim: Claim::File,
        }),
        final(r)@ == rest,
{
    broadcast use group_reads;

}

/// OPEN creates a file with what the client sets; if the client says so, only one that is new.
pub proof fn creating_open_is_decoded(
    r: &mut XdrReader<'_>,
    now: Ts,
    has_cfh: bool,
    res: Result<OpReq, u32>,
    own: u32,
    share_access: u32,
    deny: u32,
    clientid: u64,
    owner: Seq<u8>,
    how: u32,
    name: Seq<u8>,
    words: Seq<u32>,
    size: u64,
    mode: u32,
    uid: u32,
    gid: u32,
    mtime: Option<(u64, u32)>,
    rest: Seq<u8>,
)
    requires
        call_ensures(decode_op, (18u32, r, now, has_cfh), res),
        has_cfh,
        how <= 1,
        owner.len() <= 1024,
        name.len() <= 4096,
        words.len() == 3,
        forall|a: u32| #[trigger]
            in_words(words, a) ==> a == 4 || a == 33 || a == 36 || a == 37 || a == 54,
        old(r)@ == as_u32(own) + (as_u32(share_access) + (as_u32(deny) + (as_u64(clientid) + (as_item(owner) + (as_u32(1) + (as_u32(how) + (put_bitmap(Seq::empty(), words) + (as_item(sent_values(words, size, mode, uid, gid, mtime)) + (as_u32(0) + (as_item(name) + rest)))))))))),
    ensures
        res is Ok,
        res->Ok_0@ == (OpSpec::Open {
            share_access,
            owner,
            how: OpenHow {
                create: true,
                guarded: how == 1,
                exclusive: false,
                attrs: Some(meant(words, size, mode, uid, gid, mtime, now)),
            },
            claim: Claim::Null { name },
        }),
        final(r)@ == rest,
{
    broadcast use group_reads;

    settable_reads(words, size, mode, uid, gid, mtime, now, as_u32(0) + (as_item(name) + rest));
}

} // verus!
