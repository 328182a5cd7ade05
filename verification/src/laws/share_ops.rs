//! Changes to a share: what the guest is asked, what the client is answered, and what the replica
//! is told.
use crate::share::attrs::{
    apply_mac_attr, apply_set_attr, bump_dir, content_fingerprint, fingerprint_rotates,
    next_optimistic_ts, squash,
};
use crate::share::guest::{
    effects, map_err, mutate_attr, mutate_entry, mutate_ok, mutate_piece, opt_bytes, Effect, MacOp,
    ReplicaError, RpcReq, RpcResp,
};
use crate::share::ops::{
    commit_done, commit_req, commit_span, create_done, create_req, list_page, pieces_done,
    pieces_of, plan_write, remove_done, remove_req, rename_done, rename_req, reqs, setattr_done,
    setattr_req, write_done, write_pieces, write_queued, Owner, WritePlan,
};
use crate::surface::{CreateKind, DirEntry, NfsError, NfsResult, ReadDirPage, SetAttr};
use crate::types::{Attr, NodeKey, Ts};
use vstd::prelude::*;

verus! {

/// A time, counted in nanoseconds from the epoch.
pub open spec fn nanoseconds(t: Ts) -> int {
    t.sec * 1_000_000_000 + t.nsec
}

/// Two descriptions of a node that tell its owner apart, and nothing else.
pub open spec fn same_but_owner(a: Attr, b: Attr) -> bool {
    &&& a.kind == b.kind
    &&& a.mode == b.mode
    &&& a.nlink == b.nlink
    &&& a.size == b.size
    &&& a.blocks == b.blocks
    &&& a.mtime == b.mtime
    &&& a.ctime == b.ctime
    &&& a.rdev == b.rdev
    &&& a.content_version == b.content_version
}

/// What the client sees is the node as the replica has it, owned by the Mac user.
pub open spec fn as_owned(seen: Attr, a: Attr, owner: Owner) -> bool {
    same_but_owner(seen, a) && seen.uid == owner.uid && seen.gid == owner.gid
}

/// Squashing gives the node to the user and leaves everything else.
pub proof fn squash_changes_the_owner(a: Attr, uid: u32, gid: u32, r: Attr)
    requires
        call_ensures(squash, (a, uid, gid), r),
    ensures
        as_owned(r, a, Owner { uid, gid }),
{
}

/// After a write or commit neither the size nor the time goes back, each is the guest's or the
/// replica's, and the rest is the guest's.
pub proof fn writes_never_step_back(cur: Option<Attr>, a: Attr, r: Attr)
    requires
        call_ensures(apply_mac_attr, (cur, a), r),
    ensures
        cur is None ==> r == a,
        cur is Some ==> {
            &&& r.size >= a.size && r.size >= cur->0.size
            &&& r.size == a.size || r.size == cur->0.size
            &&& r.mtime.sec >= a.mtime.sec && r.mtime.sec >= cur->0.mtime.sec
            &&& r.mtime.sec == a.mtime.sec ==> r.mtime.nsec >= a.mtime.nsec
            &&& r.mtime.sec == cur->0.mtime.sec ==> r.mtime.nsec >= cur->0.mtime.nsec
            &&& r.mtime == a.mtime || r.mtime == cur->0.mtime
            &&& r == (Attr { size: r.size, mtime: r.mtime, ..a })
        },
{
}

/// Setting attributes may shrink the file, but its time does not go back.
pub proof fn truncation_shrinks(cur: Option<Attr>, a: Attr, r: Attr)
    requires
        call_ensures(apply_set_attr, (cur, a), r),
    ensures
        r.size == a.size,
        r == (Attr { mtime: r.mtime, ..a }),
        cur is None ==> r == a,
        cur is Some ==> {
            &&& r.mtime.sec >= a.mtime.sec && r.mtime.sec >= cur->0.mtime.sec
            &&& r.mtime.sec == a.mtime.sec ==> r.mtime.nsec >= a.mtime.nsec
            &&& r.mtime.sec == cur->0.mtime.sec ==> r.mtime.nsec >= cur->0.mtime.nsec
            &&& r.mtime == a.mtime || r.mtime == cur->0.mtime
        },
{
}

/// A change in a directory moves its times strictly on: to now, or by one nanosecond where now is
/// not later.
pub proof fn directory_times_move(a: Attr, now: Ts, r: Attr)
    requires
        call_ensures(bump_dir, (a, now), r),
        a.mtime.nsec < u32::MAX,
    ensures
        r.mtime == r.ctime,
        r == (Attr { mtime: r.mtime, ctime: r.ctime, ..a }),
        now.sec > a.mtime.sec || (now.sec == a.mtime.sec && now.nsec > a.mtime.nsec) ==> r.mtime
            == now,
        now.sec < a.mtime.sec || (now.sec == a.mtime.sec && now.nsec <= a.mtime.nsec)
            ==> nanoseconds(r.mtime) == nanoseconds(a.mtime) + 1 && r.mtime.sec == a.mtime.sec,
{
}

/// A stamp is the first nanosecond past now, past the time that it may not fall behind, and past
/// the stamp before; the clock remembers it.
pub proof fn stamps_are_new(clock: &mut u64, now: u64, floor: Ts, t: Ts)
    requires
        call_ensures(next_optimistic_ts, (clock, now, floor), t),
        0 <= floor.sec <= 18_446_744_072,
        floor.nsec < 1_000_000_000,
        *old(clock) < u64::MAX,
        now < u64::MAX,
    ensures
        nanoseconds(t) == *final(clock),
        0 <= t.nsec < 1_000_000_000,
        nanoseconds(t) > now,
        nanoseconds(t) > *old(clock),
        nanoseconds(t) > nanoseconds(floor),
        nanoseconds(t) == now + 1 || nanoseconds(t) == *old(clock) + 1 || nanoseconds(t)
            == nanoseconds(floor) + 1,
{
}

/// The fingerprint tells contents apart: it is the same where time, size and version are the
/// same, and another one where just one of them differs.
pub proof fn fingerprints_tell(a: &Attr, b: &Attr, ha: u64, hb: u64)
    requires
        call_ensures(content_fingerprint, (a,), ha),
        call_ensures(content_fingerprint, (b,), hb),
    ensures
        a.mtime == b.mtime && a.size == b.size && a.content_version == b.content_version ==> ha
            == hb,
        a.mtime.sec != b.mtime.sec && a.mtime.nsec == b.mtime.nsec && a.size == b.size
            && a.content_version == b.content_version ==> ha != hb,
        a.mtime.sec == b.mtime.sec && a.mtime.nsec != b.mtime.nsec && a.size == b.size
            && a.content_version == b.content_version ==> ha != hb,
        a.mtime == b.mtime && a.size != b.size && a.content_version == b.content_version ==> ha
            != hb,
        a.mtime == b.mtime && a.size == b.size && a.content_version != b.content_version ==> ha
            != hb,
{
    fingerprint_rotates(*a, *b);
}

/// Where the replica has no answer, the client is told what is missing; where the tree is not
/// complete yet, it is told to try again.
pub proof fn replica_errors_are_told(e: ReplicaError, r: NfsError)
    requires
        call_ensures(map_err, (e,), r),
    ensures
        e is NoEnt || e is BadPath <==> r is NoEnt,
        e is NotDir <==> r is NotDir,
        e is NotSymlink <==> r is NotSymlink,
        e is Incomplete <==> r is Jukebox,
{
}

/// The error that a guest's error number means to the client.
pub open spec fn errno_means(errno: i32, e: NfsError) -> bool {
    &&& e is NoEnt <==> errno == 2
    &&& e is Access <==> errno == 1 || errno == 13
    &&& e is Exist <==> errno == 17
    &&& e is NotDir <==> errno == 20
    &&& e is IsDir <==> errno == 21
    &&& e is NoSpace <==> errno == 28
    &&& e is Rofs <==> errno == 30
    &&& e is NameTooLong <==> errno == 36
    &&& e is NotEmpty <==> errno == 39
    &&& e is Stale <==> errno == 116
    &&& !(e is Jukebox) && !(e is NotSymlink)
}

/// A guest's error number keeps its meaning.
pub proof fn error_numbers_are_told(errno: i32, e: NfsError)
    requires
        call_ensures(NfsError::from_errno, (errno,), e),
    ensures
        errno_means(errno, e),
{
}

/// What a change comes to when it did not work: without an answer the client tries again, a
/// guest's error is told, and an answer to something else is an I/O error.
pub open spec fn failed_as(resp: Option<RpcResp>, e: NfsError) -> bool {
    match resp {
        None => e is Jukebox,
        Some(RpcResp::Failed { errno }) => errno_means(errno, e),
        Some(_) => e is Io,
    }
}

/// A change that gives nothing back works exactly where the guest says that it is done.
pub proof fn done_is_done(resp: &Option<RpcResp>, r: NfsResult<()>)
    requires
        call_ensures(mutate_ok, (resp,), r),
    ensures
        r is Ok <==> *resp == Some(RpcResp::Done),
        r is Err ==> failed_as(*resp, r->Err_0),
{
}

/// A change that gives attributes back gives the guest's.
pub proof fn attributes_come_back(resp: &Option<RpcResp>, r: NfsResult<Attr>)
    requires
        call_ensures(mutate_attr, (resp,), r),
    ensures
        r is Ok <==> *resp is Some && (*resp)->0 is Attr,
        r is Ok ==> *resp == Some(RpcResp::Attr(r->Ok_0)),
        r is Err ==> failed_as(*resp, r->Err_0),
{
}

/// A change that gives a node back gives the guest's.
pub proof fn node_comes_back(resp: &Option<RpcResp>, r: NfsResult<(NodeKey, Attr)>)
    requires
        call_ensures(mutate_entry, (resp,), r),
    ensures
        r is Ok <==> *resp is Some && (*resp)->0 is Entry,
        r is Ok ==> *resp == Some(RpcResp::Entry { node: r->Ok_0.0, attr: r->Ok_0.1 }),
        r is Err ==> failed_as(*resp, r->Err_0),
{
}

/// A piece of a write worked where the guest says so, with attributes or without.
pub proof fn piece_is_done(resp: &Option<RpcResp>, r: NfsResult<()>)
    requires
        call_ensures(mutate_piece, (resp,), r),
    ensures
        r is Ok <==> *resp is Some && ((*resp)->0 is Done || (*resp)->0 is Attr),
        r is Err ==> failed_as(*resp, r->Err_0),
{
}

/// The guest is asked to create what the client wants, where the client wants it.
pub proof fn create_asks(dir: NodeKey, name: &[u8], kind: &CreateKind, mode: u16, r: RpcReq)
    requires
        call_ensures(create_req, (dir, name, kind, mode), r),
    ensures
        r is Create,
        r->Create_dir == dir,
        r->Create_name@ == name@,
        r->mode == mode,
        *kind is File <==> r->kind is Reg,
        *kind is Dir <==> r->kind is Dir,
        *kind is Symlink <==> r->kind is Symlink,
        *kind is Fifo <==> r->kind is Fifo,
        *kind is Socket <==> r->kind is Sock,
        *kind is Device && kind->is_block <==> r->kind is Blk,
        *kind is Device && !kind->is_block <==> r->kind is Chr,
        r->exclusive <==> *kind is File && kind->exclusive,
        *kind is Device ==> r->rdev == kind->major * 0x1_0000_0000 + kind->minor,
        !(*kind is Device) ==> r->rdev == 0,
        r->symlink_target is Some <==> *kind is Symlink,
        *kind is Symlink ==> r->symlink_target->0@ == kind->target@,
{
    let v = r@;
    assert(v is Create);
    if *kind is Symlink {
        assert(opt_bytes(r->symlink_target) == Some(kind->target@));
    }
}

/// What is done about a change, item by item.
proof fn effect_at(list: Seq<Effect>, i: int)
    requires
        0 <= i < list.len(),
    ensures
        effects(list)[i] == list[i]@,
{
}

/// A new node is answered and told to the replica under its name, its echo is not news, and its
/// directory changed.
pub proof fn create_is_noted(
    dir: NodeKey,
    name: &[u8],
    kind: &CreateKind,
    resp: &Option<RpcResp>,
    owner: Owner,
    r: (NfsResult<(NodeKey, Attr)>, Vec<Effect>),
)
    requires
        call_ensures(create_done, (dir, name, kind, resp, owner), r),
    ensures
        r.0 is Ok <==> *resp is Some && (*resp)->0 is Entry,
        r.0 is Err ==> r.1@.len() == 0 && failed_as(*resp, r.0->Err_0),
        r.0 is Ok ==> {
            let node = (*resp)->0->Entry_node;
            let attr = (*resp)->0->Entry_attr;
            let rec = r.1@[0]->Apply_0;
            &&& r.0->Ok_0.0 == node
            &&& as_owned(r.0->Ok_0.1, attr, owner)
            &&& r.1@.len() == 3
            &&& r.1@[0] is Apply && rec is Created
            &&& rec->Created_parent == dir && rec->Created_name@ == name@
            &&& rec->Created_node == node && rec->Created_attr == attr
            &&& rec->symlink_target is Some <==> *kind is Symlink
            &&& *kind is Symlink ==> rec->symlink_target->0@ == kind->target@
            &&& r.1@[1] == Effect::<Vec<u8>>::MacDirty(node)
            &&& r.1@[2] == Effect::<Vec<u8>>::BumpDir(dir)
        },
{
    let l = effects(r.1@);
    assert(l.len() == r.1@.len());
    if r.0 is Ok {
        effect_at(r.1@, 0);
        effect_at(r.1@, 1);
        effect_at(r.1@, 2);
    }
}

/// A page of a listing has every entry, in order; each has its attributes, as the user's own, if
/// they were asked for.
pub proof fn page_shows_the_entries(
    entries: Vec<DirEntry>,
    eof: bool,
    dirgen: u64,
    want_attrs: bool,
    owner: Owner,
    page: ReadDirPage,
    i: int,
)
    requires
        call_ensures(list_page, (entries, eof, dirgen, want_attrs, owner), page),
        0 <= i < entries@.len(),
    ensures
        page.eof == eof,
        page.cookieverf == dirgen,
        page.entries@.len() == entries@.len(),
        page.entries@[i].name == entries@[i].name,
        page.entries@[i].node == entries@[i].node,
        page.entries@[i].cookie == entries@[i].cookie,
        page.entries@[i].attr is Some <==> want_attrs && entries@[i].attr is Some,
        page.entries@[i].attr is Some ==> as_owned(
            page.entries@[i].attr->0,
            entries@[i].attr->0,
            owner,
        ),
{
    let e = entries@[i];
}

/// The guest is asked to remove the name, as a directory or not.
pub proof fn remove_asks(dir: NodeKey, name: &[u8], is_dir: bool, r: RpcReq)
    requires
        call_ensures(remove_req, (dir, name, is_dir), r),
    ensures
        is_dir ==> r is Rmdir && r->Rmdir_dir == dir && r->Rmdir_name@ == name@,
        !is_dir ==> r is Unlink && r->Unlink_dir == dir && r->Unlink_name@ == name@,
{
    let v = r@;
}

/// What is gone is noted and forgotten, its name leaves the replica, and its directory changed.
pub proof fn remove_is_noted(
    dir: NodeKey,
    name: &[u8],
    doomed: Option<NodeKey>,
    resp: &Option<RpcResp>,
    r: (NfsResult<()>, Vec<Effect>),
)
    requires
        call_ensures(remove_done, (dir, name, doomed, resp), r),
    ensures
        r.0 is Ok <==> *resp == Some(RpcResp::Done),
        r.0 is Err ==> r.1@.len() == 0 && failed_as(*resp, r.0->Err_0),
        r.0 is Ok ==> {
            let n: int = if doomed is Some {
                3
            } else {
                0
            };
            let rec = r.1@[n]->Apply_0;
            &&& r.1@.len() == n + 2
            &&& doomed is Some ==> {
                &&& r.1@[0] == Effect::<Vec<u8>>::Conflict(doomed->0, MacOp::Remove)
                &&& r.1@[1] == Effect::<Vec<u8>>::Invalidate(doomed->0)
                &&& r.1@[2] == Effect::<Vec<u8>>::Forget(doomed->0)
            }
            &&& r.1@[n] is Apply && rec is Removed
            &&& rec->Removed_parent == dir && rec->Removed_name@ == name@
            &&& r.1@[n + 1] == Effect::<Vec<u8>>::BumpDir(dir)
        },
{
    let l = effects(r.1@);
    assert(l.len() == r.1@.len());
    if r.0 is Ok {
        effect_at(r.1@, 0);
        effect_at(r.1@, 1);
        if doomed is Some {
            effect_at(r.1@, 2);
            effect_at(r.1@, 3);
            effect_at(r.1@, 4);
        }
    }
}

/// The guest is asked to move the one name to the other.
pub proof fn rename_asks(
    from_dir: NodeKey,
    from_name: &[u8],
    to_dir: NodeKey,
    to_name: &[u8],
    r: RpcReq,
)
    requires
        call_ensures(rename_req, (from_dir, from_name, to_dir, to_name), r),
    ensures
        r is Rename,
        r->from_dir == from_dir,
        r->from_name@ == from_name@,
        r->to_dir == to_dir,
        r->to_name@ == to_name@,
{
    let v = r@;
}

/// The replica is told the move, and each directory that it concerns changed, once.
pub proof fn rename_is_noted(
    from_dir: NodeKey,
    from_name: &[u8],
    to_dir: NodeKey,
    to_name: &[u8],
    resp: &Option<RpcResp>,
    r: (NfsResult<()>, Vec<Effect>),
)
    requires
        call_ensures(rename_done, (from_dir, from_name, to_dir, to_name, resp), r),
    ensures
        r.0 is Ok <==> *resp == Some(RpcResp::Done),
        r.0 is Err ==> r.1@.len() == 0 && failed_as(*resp, r.0->Err_0),
        r.0 is Ok ==> {
            let rec = r.1@[0]->Apply_0;
            &&& r.1@[0] is Apply && rec is Renamed
            &&& rec->from_parent == from_dir && rec->from_name@ == from_name@
            &&& rec->to_parent == to_dir && rec->to_name@ == to_name@
            &&& r.1@[1] == Effect::<Vec<u8>>::BumpDir(from_dir)
            &&& from_dir == to_dir ==> r.1@.len() == 2
            &&& from_dir != to_dir ==> r.1@.len() == 3 && r.1@[2] == Effect::<Vec<u8>>::BumpDir(
                to_dir,
            )
        },
{
    let l = effects(r.1@);
    assert(l.len() == r.1@.len());
    if r.0 is Ok {
        effect_at(r.1@, 0);
        effect_at(r.1@, 1);
        if to_dir != from_dir {
            effect_at(r.1@, 2);
        }
    }
}

/// The guest is asked to set what the client sets.
pub proof fn setattr_asks(node: NodeKey, set: SetAttr, r: RpcReq)
    requires
        call_ensures(setattr_req, (node, set), r),
    ensures
        r is SetAttr,
        r->SetAttr_node == node,
        r->set == set,
{
    let v = r@;
}

/// What the guest made of the attributes is answered and told to the replica; the size is the
/// guest's, and the time does not go back. What is cached goes where the size was set.
pub proof fn setattr_is_noted(
    node: NodeKey,
    set: &SetAttr,
    cur: Option<Attr>,
    resp: &Option<RpcResp>,
    owner: Owner,
    r: (NfsResult<Attr>, Vec<Effect>),
)
    requires
        call_ensures(setattr_done, (node, set, cur, resp, owner), r),
    ensures
        r.0 is Ok <==> *resp is Some && (*resp)->0 is Attr,
        r.0 is Err ==> r.1@.len() == 0 && failed_as(*resp, r.0->Err_0),
        r.0 is Ok ==> {
            let a = (*resp)->0->Attr_0;
            let n: int = if set.size is Some {
                3
            } else {
                2
            };
            let rec = r.1@[n]->Apply_0;
            &&& r.1@.len() == n + 1
            &&& r.1@[0] == Effect::<Vec<u8>>::MacDirty(node)
            &&& r.1@[1] == Effect::<Vec<u8>>::Conflict(node, MacOp::Setattr)
            &&& set.size is Some ==> r.1@[2] == Effect::<Vec<u8>>::Invalidate(node)
            &&& r.1@[n] is Apply && rec is AttrChanged && rec->AttrChanged_node == node
            &&& as_owned(r.0->Ok_0, rec->AttrChanged_attr, owner)
            &&& rec->AttrChanged_attr.size == a.size
            &&& rec->AttrChanged_attr == (Attr { mtime: rec->AttrChanged_attr.mtime, ..a })
            &&& rec->AttrChanged_attr.mtime == a.mtime || cur is Some && rec->AttrChanged_attr.mtime == cur->0.mtime
            &&& nanoseconds(rec->AttrChanged_attr.mtime) == nanoseconds(a.mtime) || cur is Some
            &&& cur is Some ==> rec->AttrChanged_attr.mtime.sec >= cur->0.mtime.sec && rec->AttrChanged_attr.mtime.sec
                >= a.mtime.sec
            &&& cur is Some && rec->AttrChanged_attr.mtime.sec == cur->0.mtime.sec ==> rec->AttrChanged_attr.mtime.nsec
                >= cur->0.mtime.nsec
        },
{
    let l = effects(r.1@);
    assert(l.len() == r.1@.len());
    if r.0 is Ok {
        effect_at(r.1@, 0);
        effect_at(r.1@, 1);
        effect_at(r.1@, 2);
        if set.size is Some {
            effect_at(r.1@, 3);
        }
    }
}

/// The pieces are writes to the node, one after the other, of 1 MiB each but for the last.
proof fn pieces_lie_in_a_row(node: NodeKey, offset: u64, data: Seq<u8>, i: int)
    requires
        offset + data.len() <= u64::MAX,
        0 <= i < pieces_of(node, offset, data).len(),
    ensures
        0 <= i * 1_048_576 < data.len(),
        ({
            let p = pieces_of(node, offset, data)[i];
            let end: int = if data.len() < (i + 1) * 1_048_576 {
                data.len() as int
            } else {
                (i + 1) * 1_048_576
            };
            &&& p is Write
            &&& p->Write_node == node
            &&& !p->Write_sync
            &&& p->Write_off == offset + i * 1_048_576
            &&& p->Write_data == data.subrange(i * 1_048_576, end)
        }),
    decreases data.len(),
{
    if data.len() > 0 {
        let n: int = if data.len() < 1_048_576 {
            data.len() as int
        } else {
            1_048_576
        };
        let rest = pieces_of(node, (offset + n) as u64, data.skip(n));
        let all = pieces_of(node, offset, data);
        assert(all.len() == rest.len() + 1);
        if i > 0 {
            assert(all[i] == rest[i - 1]);
            assert(n == 1_048_576) by {
                if data.len() < 1_048_576 {
                    assert(data.skip(n).len() == 0);
                    assert(rest.len() == 0);
                }
            }
            pieces_lie_in_a_row(node, (offset + n) as u64, data.skip(n), i - 1);
            let end: int = if data.len() < (i + 1) * 1_048_576 {
                data.len() as int
            } else {
                (i + 1) * 1_048_576
            };
            assert(data.skip(n).subrange((i - 1) * 1_048_576, end - n) =~= data.subrange(
                i * 1_048_576,
                end,
            ));
        } else {
            assert(all[0]->Write_data =~= data.take(n));
            assert(data.take(n) =~= data.subrange(0, n));
        }
    }
}

proof fn pieces_are_enough(node: NodeKey, offset: u64, data: Seq<u8>)
    requires
        offset + data.len() <= u64::MAX,
    ensures
        pieces_of(node, offset, data).len() == (data.len() + 1_048_575) / 1_048_576,
    decreases data.len(),
{
    if data.len() > 0 {
        let n: int = if data.len() < 1_048_576 {
            data.len() as int
        } else {
            1_048_576
        };
        pieces_are_enough(node, (offset + n) as u64, data.skip(n));
    }
}

/// A write is cut every 1 MiB: the `i`-th piece holds what lies there and says where it goes.
pub open spec fn cut_up(node: NodeKey, offset: u64, data: Seq<u8>, list: Seq<RpcReq>) -> bool {
    &&& list.len() == (data.len() + 1_048_575) / 1_048_576
    &&& forall|i: int|
        #![trigger list[i]]
        0 <= i < list.len() ==> {
            let end: int = if data.len() < (i + 1) * 1_048_576 {
                data.len() as int
            } else {
                (i + 1) * 1_048_576
            };
            &&& list[i] is Write
            &&& list[i]->Write_node == node
            &&& !list[i]->Write_sync
            &&& list[i]->Write_off == offset + i * 1_048_576
            &&& list[i]->Write_data@ == data.subrange(i * 1_048_576, end)
        }
}

proof fn reqs_are_cut_up(node: NodeKey, offset: u64, data: Seq<u8>, list: Seq<RpcReq>)
    requires
        offset + data.len() <= u64::MAX,
        reqs(list) == pieces_of(node, offset, data),
    ensures
        cut_up(node, offset, data, list),
{
    pieces_are_enough(node, offset, data);
    assert(reqs(list).len() == list.len());
    assert forall|i: int| #![trigger list[i]] 0 <= i < list.len() implies {
        let end: int = if data.len() < (i + 1) * 1_048_576 {
            data.len() as int
        } else {
            (i + 1) * 1_048_576
        };
        &&& list[i] is Write
        &&& list[i]->Write_node == node
        &&& !list[i]->Write_sync
        &&& list[i]->Write_off == offset + i * 1_048_576
        &&& list[i]->Write_data@ == data.subrange(i * 1_048_576, end)
    } by {
        pieces_lie_in_a_row(node, offset, data, i);
        assert(reqs(list)[i] == list[i]@);
    }
}

/// A write in pieces is cut every 1 MiB.
pub proof fn write_is_cut_up(node: NodeKey, offset: u64, data: &[u8], list: Vec<RpcReq>)
    requires
        call_ensures(write_pieces, (node, offset, data), list),
        offset + data@.len() <= u64::MAX,
    ensures
        cut_up(node, offset, data@, list@),
{
    reqs_are_cut_up(node, offset, data@, list@);
}

/// How a write is done: one that need not be durable is queued; a durable one goes at once, in
/// one durable request if it is small, else in pieces that a commit of the node follows.
pub proof fn durable_writes_go_at_once(
    node: NodeKey,
    offset: u64,
    data: &[u8],
    sync: bool,
    p: WritePlan,
)
    requires
        call_ensures(plan_write, (node, offset, data, sync), p),
        offset + data@.len() <= u64::MAX,
    ensures
        p is Behind <==> !sync && data@.len() > 0,
        p is Inline <==> sync && 0 < data@.len() <= 1_048_576,
        p is Inline ==> {
            let w = p->Inline_0;
            w is Write && w->Write_node == node && w->Write_off == offset && w->Write_sync
                && w->Write_data@ == data@
        },
        p is Through ==> {
            &&& cut_up(node, offset, data@, p->pieces@)
            &&& p->commit is Commit && p->commit->Commit_node == node
        },
{
    if p is Through {
        reqs_are_cut_up(node, offset, data@, p->pieces@);
        let v = p->commit@;
    }
    if p is Inline {
        let v = p->Inline_0@;
    }
}

proof fn first_failure_is_told(resps: Seq<Option<RpcResp>>)
    ensures
        match crate::share::ops::first_failure(resps) {
            Ok(_) => forall|i: int|
                0 <= i < resps.len() ==> (#[trigger] resps[i]) is Some && (resps[i]->0 is Done
                    || resps[i]->0 is Attr),
            Err(e) => exists|i: int|
                #![trigger resps[i]]
                {
                    &&& 0 <= i < resps.len()
                    &&& failed_as(resps[i], e)
                    &&& !(resps[i] is Some && (resps[i]->0 is Done || resps[i]->0 is Attr))
                    &&& forall|j: int|
                        0 <= j < i ==> (#[trigger] resps[j]) is Some && (resps[j]->0 is Done
                            || resps[j]->0 is Attr)
                },
        },
    decreases resps.len(),
{
    if resps.len() > 0 {
        let rest = resps.skip(1);
        first_failure_is_told(rest);
        if resps[0] is Some && (resps[0]->0 is Done || resps[0]->0 is Attr) {
            match crate::share::ops::first_failure(rest) {
                Ok(_) => {
                    assert forall|i: int| 0 <= i < resps.len() implies (#[trigger] resps[i]) is Some
                        && (resps[i]->0 is Done || resps[i]->0 is Attr) by {
                        if i > 0 {
                            assert(resps[i] == rest[i - 1]);
                        }
                    }
                },
                Err(e) => {
                    let i = choose|i: int|
                        #![trigger rest[i]]
                        {
                            &&& 0 <= i < rest.len()
                            &&& failed_as(rest[i], e)
                            &&& !(rest[i] is Some && (rest[i]->0 is Done || rest[i]->0 is Attr))
                            &&& forall|j: int|
                                0 <= j < i ==> (#[trigger] rest[j]) is Some && (rest[j]->0 is Done
                                    || rest[j]->0 is Attr)
                        };
                    assert(resps[i + 1] == rest[i]);
                    assert forall|j: int| 0 <= j < i + 1 implies (#[trigger] resps[j]) is Some && (
                    resps[j]->0 is Done || resps[j]->0 is Attr) by {
                        if j > 0 {
                            assert(resps[j] == rest[j - 1]);
                        }
                    }
                },
            }
        } else {
            assert(failed_as(resps[0], crate::share::ops::first_failure(resps)->Err_0));
        }
    }
}

/// A write in pieces worked where every piece did; else its error is that of the first that did
/// not.
pub proof fn every_piece_counts(resps: &Vec<Option<RpcResp>>, r: NfsResult<()>)
    requires
        call_ensures(pieces_done, (resps,), r),
    ensures
        r is Ok <==> forall|i: int|
            0 <= i < resps@.len() ==> (#[trigger] resps@[i]) is Some && (resps@[i]->0 is Done
                || resps@[i]->0 is Attr),
        r is Err ==> exists|i: int|
            #![trigger resps@[i]]
            {
                &&& 0 <= i < resps@.len()
                &&& failed_as(resps@[i], r->Err_0)
                &&& !(resps@[i] is Some && (resps@[i]->0 is Done || resps@[i]->0 is Attr))
                &&& forall|j: int|
                    0 <= j < i ==> (#[trigger] resps@[j]) is Some && (resps@[j]->0 is Done
                        || resps@[j]->0 is Attr)
            },
{
    first_failure_is_told(resps@);
}

/// What a write or commit came to: the guest's attributes, behind neither the size nor the time
/// that the replica has.
pub open spec fn kept_up(attr: Attr, a: Attr, cur: Option<Attr>) -> bool {
    &&& cur is None ==> attr == a
    &&& attr == (Attr { size: attr.size, mtime: attr.mtime, ..a })
    &&& attr.size >= a.size
    &&& attr.mtime.sec >= a.mtime.sec
    &&& cur is Some ==> {
        &&& attr.size >= cur->0.size
        &&& attr.size == a.size || attr.size == cur->0.size
        &&& attr.mtime == a.mtime || attr.mtime == cur->0.mtime
        &&& attr.mtime.sec >= cur->0.mtime.sec
        &&& attr.mtime.sec == a.mtime.sec ==> attr.mtime.nsec >= a.mtime.nsec
        &&& attr.mtime.sec == cur->0.mtime.sec ==> attr.mtime.nsec >= cur->0.mtime.nsec
    }
}

/// A durable write is answered with what the guest says, told to the replica, and noted: its echo
/// is not news, the guest may have written too, and what is cached is out of date.
pub proof fn write_is_noted(
    node: NodeKey,
    cur: Option<Attr>,
    resp: &Option<RpcResp>,
    owner: Owner,
    r: (NfsResult<Attr>, Vec<Effect>),
)
    requires
        call_ensures(write_done, (node, cur, resp, owner), r),
    ensures
        r.0 is Ok <==> *resp is Some && (*resp)->0 is Attr,
        r.0 is Err ==> r.1@.len() == 0 && failed_as(*resp, r.0->Err_0),
        r.0 is Ok ==> {
            let rec = r.1@[3]->Apply_0;
            &&& r.1@.len() == 4
            &&& r.1@[0] == Effect::<Vec<u8>>::MacDirty(node)
            &&& r.1@[1] == Effect::<Vec<u8>>::Conflict(node, MacOp::Write)
            &&& r.1@[2] == Effect::<Vec<u8>>::Invalidate(node)
            &&& r.1@[3] is Apply && rec is AttrChanged && rec->AttrChanged_node == node
            &&& as_owned(r.0->Ok_0, rec->AttrChanged_attr, owner)
            &&& kept_up(rec->AttrChanged_attr, (*resp)->0->Attr_0, cur)
        },
{
    let l = effects(r.1@);
    assert(l.len() == r.1@.len());
    if r.0 is Ok {
        effect_at(r.1@, 0);
        effect_at(r.1@, 1);
        effect_at(r.1@, 2);
        effect_at(r.1@, 3);
    }
}

/// A queued write never shrinks the file and covers what was written: the answered size is at
/// least the file's and at least the write's end, and it is one of the two. Its time is a new
/// stamp. The replica is told the same, and the write is noted.
pub proof fn queued_writes_cover(
    node: NodeKey,
    cur: Attr,
    offset: u64,
    len: usize,
    clock: &mut u64,
    now: u64,
    owner: Owner,
    r: (Attr, Vec<Effect>),
)
    requires
        call_ensures(write_queued, (node, cur, offset, len, clock, now, owner), r),
        offset + len <= u64::MAX,
        0 <= cur.mtime.sec <= 18_446_744_072,
        cur.mtime.nsec < 1_000_000_000,
        *old(clock) < u64::MAX,
        now < u64::MAX,
    ensures
        r.0.size >= cur.size,
        r.0.size >= offset + len,
        r.0.size == cur.size || r.0.size == offset + len,
        r.0 == (Attr {
            size: r.0.size,
            mtime: r.0.mtime,
            uid: owner.uid,
            gid: owner.gid,
            ..cur
        }),
        nanoseconds(r.0.mtime) == *final(clock),
        *final(clock) > now,
        *final(clock) > *old(clock),
        *final(clock) > nanoseconds(cur.mtime),
        *final(clock) == now + 1 || *final(clock) == *old(clock) + 1 || *final(clock)
            == nanoseconds(cur.mtime) + 1,
        ({
            let rec = r.1@[0]->Apply_0;
            &&& r.1@.len() == 4
            &&& r.1@[0] is Apply && rec is AttrChanged && rec->AttrChanged_node == node
            &&& as_owned(r.0, rec->AttrChanged_attr, owner)
            &&& rec->AttrChanged_attr.uid == cur.uid && rec->AttrChanged_attr.gid == cur.gid
            &&& r.1@[1] == Effect::<Vec<u8>>::MacDirty(node)
            &&& r.1@[2] == Effect::<Vec<u8>>::Conflict(node, MacOp::Write)
            &&& r.1@[3] == Effect::<Vec<u8>>::Invalidate(node)
        }),
{
    let l = effects(r.1@);
    assert(l.len() == r.1@.len());
    effect_at(r.1@, 0);
    effect_at(r.1@, 1);
    effect_at(r.1@, 2);
    effect_at(r.1@, 3);
}

/// The size that a queued write is answered with covers the file and the write, whatever the
/// clocks say.
pub proof fn queued_writes_never_shrink(
    node: NodeKey,
    cur: Attr,
    offset: u64,
    len: usize,
    clock: &mut u64,
    now: u64,
    owner: Owner,
    r: (Attr, Vec<Effect>),
)
    requires
        call_ensures(write_queued, (node, cur, offset, len, clock, now, owner), r),
        offset + len <= u64::MAX,
    ensures
        r.0.size >= cur.size,
        r.0.size >= offset + len,
        r.0.size == cur.size || r.0.size == offset + len,
{
}

/// The guest is asked to make just that part durable.
pub proof fn commit_asks(node: NodeKey, off: u64, len: u64, r: RpcReq)
    requires
        call_ensures(commit_req, (node, off, len), r),
    ensures
        r is CommitRange,
        r->CommitRange_node == node,
        r->CommitRange_off == off,
        r->CommitRange_len == len,
{
    let v = r@;
}

/// A commit of no length waits for the whole file, another one for its length.
pub proof fn commit_without_length_is_the_file(len: u64, n: u64)
    requires
        call_ensures(commit_span, (len,), n),
    ensures
        len > 0 ==> n == len,
        len == 0 ==> n == 0xffff_ffff_ffff_ffff,
{
}

/// A commit is answered with what the guest says and told to the replica; its echo is not news.
pub proof fn commit_is_noted(
    node: NodeKey,
    cur: Option<Attr>,
    resp: &Option<RpcResp>,
    owner: Owner,
    r: (NfsResult<Attr>, Vec<Effect>),
)
    requires
        call_ensures(commit_done, (node, cur, resp, owner), r),
    ensures
        r.0 is Ok <==> *resp is Some && (*resp)->0 is Attr,
        r.0 is Err ==> r.1@.len() == 0 && failed_as(*resp, r.0->Err_0),
        r.0 is Ok ==> {
            let rec = r.1@[1]->Apply_0;
            &&& r.1@.len() == 2
            &&& r.1@[0] == Effect::<Vec<u8>>::MacDirty(node)
            &&& r.1@[1] is Apply && rec is AttrChanged && rec->AttrChanged_node == node
            &&& as_owned(r.0->Ok_0, rec->AttrChanged_attr, owner)
            &&& kept_up(rec->AttrChanged_attr, (*resp)->0->Attr_0, cur)
        },
{
    let l = effects(r.1@);
    assert(l.len() == r.1@.len());
    if r.0 is Ok {
        effect_at(r.1@, 0);
        effect_at(r.1@, 1);
    }
}

/// The operations of the Mac are logged by their names.
pub proof fn operations_have_names(op: &MacOp, s: &'static str)
    requires
        call_ensures(MacOp::name, (op,), s),
    ensures
        *op is Write ==> s@ == "write"@,
        *op is Remove ==> s@ == "remove"@,
        *op is Setattr ==> s@ == "setattr"@,
{
}

/// A time is earlier than another by its seconds, and by its nanoseconds where these are the same.
pub proof fn times_are_compared(a: &Ts, b: &Ts, r: bool)
    requires
        call_ensures(Ts::is_earlier, (a, b), r),
        a.nsec < 1_000_000_000,
        b.nsec < 1_000_000_000,
    ensures
        r <==> nanoseconds(*a) < nanoseconds(*b),
{
}

} // verus!
