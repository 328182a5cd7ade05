//! The side store: whose names are kept beside the tree, and what is done with them.
use crate::bytes::below;
use crate::sidestore::evict::{oldest_out, total_of};
use crate::sidestore::gc::{anchor, companion, Fate, GcAsk};
use crate::sidestore::list::names_in;
use crate::sidestore::rows::{
    attr_for, is_side_name, is_side_node, synth_key, synth_of, Row, RowKey, SideStore,
};
use crate::sidestore::saved::{load, saved_key, saved_value, saved_view, SavedRow};
use crate::sidestore::surface::{
    does_pass, is_unsettled, owns, read_row, replaced_and_trimmed, written_row, Served,
    SideStoreSurface,
};
use crate::surface::{Answer, Ask, NfsError, NfsResult, ReadDirPage, ReadResult};
use crate::table::Key;
use crate::types::{Attr, NodeKey};
use vstd::prelude::*;
use vstd::string::StringSliceAdditionalSpecFns;

verus! {

/// The names of the Mac's own noise.
pub open spec fn noise(name: Seq<u8>) -> bool {
    ||| name == ".DS_Store".spec_bytes()
    ||| (name.len() >= "._".spec_bytes().len() && name.take("._".spec_bytes().len() as int)
        == "._".spec_bytes())
    ||| name == ".fseventsd".spec_bytes()
    ||| name == ".Spotlight-V100".spec_bytes()
    ||| name == ".Trashes".spec_bytes()
    ||| name == ".TemporaryItems".spec_bytes()
    ||| name == ".metadata_never_index".spec_bytes()
    ||| name == ".hidden".spec_bytes()
}

/// A node of the side store has the highest bit of its inode set.
pub open spec fn aside(node: NodeKey) -> bool {
    node.ino >= 0x8000_0000_0000_0000
}

/// A name is kept aside in a directory of the side store, and elsewhere if it is noise and the
/// tree has no such entry.
pub open spec fn kept_aside(dir: NodeKey, name: Seq<u8>, is_real: bool) -> bool {
    aside(dir) || (noise(name) && !is_real)
}

/// Noise is told by its name.
pub proof fn noise_is_told(name: &[u8], r: bool)
    requires
        call_ensures(is_side_name, (name,), r),
    ensures
        r <==> noise(name@),
{
}

/// Nodes of the side store are told by their inodes.
pub proof fn side_nodes_are_told(node: NodeKey, r: bool)
    requires
        call_ensures(is_side_node, (node,), r),
    ensures
        r <==> aside(node),
{
}

/// A row's node is one of the side store.
pub proof fn rows_have_side_nodes(parent: NodeKey, name: &[u8], node: NodeKey)
    requires
        call_ensures(synth_key, (parent, name), node),
    ensures
        aside(node),
        node.generation == 0xffff_ffff,
{
}

/// Whose a name is.
pub proof fn names_are_owned(dir: NodeKey, name: &[u8], is_real: bool, r: bool)
    requires
        call_ensures(owns, (dir, name, is_real), r),
    ensures
        r <==> kept_aside(dir, name@, is_real),
{
}

/// An operation passes to the tree exactly where its node is the tree's, or none of its names is
/// kept aside.
pub proof fn the_tree_gets_its_own(ask: &Ask, is_real: bool, is_real_to: bool, r: bool)
    requires
        call_ensures(does_pass, (ask, is_real, is_real_to), r),
    ensures
        *ask is Getattr ==> (r <==> !aside(ask->Getattr_0)),
        *ask is Lookup ==> (r <==> !kept_aside(ask->Lookup_dir, ask->Lookup_name@, is_real)),
        *ask is Readdir ==> (r <==> !aside(ask->Readdir_dir)),
        *ask is Readlink ==> (r <==> !aside(ask->Readlink_0)),
        *ask is Parent ==> (r <==> !aside(ask->Parent_0)),
        *ask is ReadSendable ==> (r <==> !aside(ask->ReadSendable_node)),
        *ask is Read ==> (r <==> !aside(ask->Read_node)),
        *ask is Create ==> (r <==> !kept_aside(ask->Create_dir, ask->Create_name@, is_real)),
        *ask is Remove ==> (r <==> !kept_aside(ask->Remove_dir, ask->Remove_name@, is_real)),
        *ask is Rename ==> (r <==> !kept_aside(ask->from_dir, ask->from_name@, is_real)
            && !kept_aside(ask->to_dir, ask->to_name@, is_real_to)),
        *ask is Setattr ==> (r <==> !aside(ask->Setattr_node)),
        *ask is Write ==> (r <==> !aside(ask->Write_node)),
        *ask is Commit ==> (r <==> !aside(ask->Commit_node)),
{
    let v = ask@;
}

/// The attributes of a row: a file or directory with one link, as large as its bytes, changed when
/// it was last written, of the user's own.
pub open spec fn attrs_of_row(a: Attr, row: Row, uid: u32, gid: u32) -> bool {
    &&& a.kind is Dir <==> row.kind == 1
    &&& a.kind is Reg <==> row.kind != 1
    &&& a.mode == row.mode
    &&& a.nlink == 1
    &&& a.uid == uid
    &&& a.gid == gid
    &&& a.size == row.data@.len()
    &&& a.blocks * 512 >= a.size
    &&& a.blocks * 512 < a.size + 512
    &&& a.mtime.sec == row.mtime_sec && a.mtime.nsec == 0
    &&& a.ctime.sec == row.mtime_sec && a.ctime.nsec == 0
    &&& a.rdev == 0
    &&& a.content_version == row.version
}

/// Rows are described by what they hold.
pub proof fn rows_are_described(row: &Row, uid: u32, gid: u32, a: Attr)
    requires
        call_ensures(attr_for, (row, uid, gid), a),
        row.data@.len() <= u64::MAX - 511,
    ensures
        attrs_of_row(a, *row, uid, gid),
{
}

/// A read of a row gives its bytes from the offset on, as many as were asked for or as there are,
/// and says whether it comes to the end.
pub proof fn rows_are_read(row: &Row, offset: u64, count: u32, r: ReadResult, i: int)
    requires
        call_ensures(read_row, (row, offset, count), r),
    ensures
        offset >= row.data@.len() ==> r.data@.len() == 0 && r.eof,
        offset < row.data@.len() && offset + count < row.data@.len() ==> r.data@.len() == count
            && !r.eof,
        offset < row.data@.len() && offset + count >= row.data@.len() ==> r.data@.len()
            == row.data@.len() - offset && r.eof,
        0 <= i < r.data@.len() ==> r.data@[i] == row.data@[offset + i],
{
}

/// The row of a directory and name.
pub open spec fn there(s: SideStore, dir: NodeKey, name: Seq<u8>) -> bool {
    s.rows@.contains_key((dir, name))
}

proof fn row_is_seen(s: SideStore, dir: NodeKey, name: Seq<u8>)
    ensures
        s@.rows.contains_key((dir, name)) == there(s, dir, name),
        there(s, dir, name) ==> s@.rows[(dir, name)] == s.rows@[(dir, name)]@,
{
}

/// A row that is put is found under its directory and name, and by its node; rows of other names
/// are as they were.
pub proof fn rows_are_put(
    s: &mut SideStore,
    dir: NodeKey,
    name: &[u8],
    row: Row,
    node: NodeKey,
    d: NodeKey,
    n: Seq<u8>,
)
    requires
        call_ensures(SideStore::put, (s, dir, name, row), ()),
        call_ensures(synth_key, (dir, name), node),
    ensures
        there(*final(s), dir, name@),
        final(s).rows@[(dir, name@)]@ == row@,
        final(s).by_node@.contains_key(node),
        final(s).by_node@[node].0 == dir && final(s).by_node@[node].1@ == name@,
        (d, n) != (dir, name@) ==> (there(*final(s), d, n) <==> there(*old(s), d, n)),
        (d, n) != (dir, name@) && there(*old(s), d, n) ==> final(s).rows@[(d, n)]@ == old(
            s).rows@[(d, n)]@,
{
    let a = old(s)@;
    let b = final(s)@;
    row_is_seen(*final(s), dir, name@);
    row_is_seen(*final(s), d, n);
    row_is_seen(*old(s), d, n);
    assert(a.put((dir, name@), row@).by_node.contains_key(node));
    assert(b.by_node.contains_key(node));
    assert(b.by_node[node] == (final(s).by_node@[node].0, final(s).by_node@[node].1@));
}

/// A row that is dropped is there no more; the others are as they were.
pub proof fn rows_are_dropped(
    s: &mut SideStore,
    dir: NodeKey,
    name: &[u8],
    row: Option<Row>,
    d: NodeKey,
    n: Seq<u8>,
)
    requires
        call_ensures(SideStore::drop_row, (s, dir, name), row),
    ensures
        row is Some <==> there(*old(s), dir, name@),
        row is Some ==> row->0@ == old(s).rows@[(dir, name@)]@,
        there(*final(s), d, n) <==> there(*old(s), d, n) && (d, n) != (dir, name@),
        there(*final(s), d, n) ==> final(s).rows@[(d, n)]@ == old(s).rows@[(d, n)]@,
{
    let a = old(s)@;
    let b = final(s)@;
    row_is_seen(*old(s), dir, name@);
    row_is_seen(*final(s), d, n);
    row_is_seen(*old(s), d, n);
}

/// A name that is kept aside is looked up among the rows.
pub proof fn names_are_looked_up(
    s: &mut SideStoreSurface,
    ask: &Ask,
    is_real: bool,
    is_real_to: bool,
    now: i64,
    out: Served,
)
    requires
        call_ensures(SideStoreSurface::serve, (s, ask, is_real, is_real_to, now), out),
        *ask is Lookup,
        kept_aside(ask->Lookup_dir, ask->Lookup_name@, is_real),
    ensures
        ({
            let dir = ask->Lookup_dir;
            let name = ask->Lookup_name@;
            let key = (dir, name);
            let r = out->Reply_0->Entry_0;
            &&& *final(s) == *old(s)
            &&& out is Reply && out->Reply_0 is Entry
            &&& r is Ok <==> there(old(s).store, dir, name)
            &&& r is Err ==> r->Err_0 is NoEnt
            &&& r is Ok && old(s).store.rows@[key].data@.len() <= u64::MAX - 511 ==> attrs_of_row(
                (r->Ok_0).1,
                old(s).store.rows@[key],
                old(s).uid,
                old(s).gid,
            ) && aside((r->Ok_0).0)
        }),
{
    let v = ask@;
    let side = old(s).store@;
    let key = (ask->Lookup_dir, ask->Lookup_name@);
    assert(side.rows.contains_key(key) == old(s).store.rows@.contains_key(key));
    if side.rows.contains_key(key) {
        assert(side.rows[key] == old(s).store.rows@[key]@);
    }
}

/// The row that a node stands for, if it stands for one.
pub open spec fn stands(s: SideStore, node: NodeKey) -> bool {
    s.by_node@.contains_key(node) && there(s, s.by_node@[node].0, s.by_node@[node].1@)
}

/// The row that a node stands for.
pub open spec fn row_of(s: SideStore, node: NodeKey) -> Row {
    s.rows@[(s.by_node@[node].0, s.by_node@[node].1@)]
}

proof fn row_is_at(s: SideStore, node: NodeKey)
    ensures
        stands(s, node) <==> s@.at(node) is Some,
        stands(s, node) ==> s@.at(node) == Some(row_of(s, node)@),
{
    let side = s@;
    assert(side.by_node.contains_key(node) == s.by_node@.contains_key(node));
    if s.by_node@.contains_key(node) {
        let key = (s.by_node@[node].0, s.by_node@[node].1@);
        assert(side.by_node[node] == key);
        assert(side.rows.contains_key(key) == s.rows@.contains_key(key));
        if s.rows@.contains_key(key) {
            assert(side.rows[key] == s.rows@[key]@);
        }
    }
}

/// A node of the side store is described by its row; one that stands for nothing is stale.
pub proof fn side_nodes_are_described(
    s: &mut SideStoreSurface,
    ask: &Ask,
    is_real: bool,
    is_real_to: bool,
    now: i64,
    out: Served,
    node: NodeKey,
)
    requires
        call_ensures(SideStoreSurface::serve, (s, ask, is_real, is_real_to, now), out),
        (*ask is Getattr && ask->Getattr_0 == node) || (*ask is Commit && ask->Commit_node == node),
        aside(node),
    ensures
        ({
            let r = out->Reply_0->Attr_0;
            &&& *final(s) == *old(s)
            &&& out is Reply && out->Reply_0 is Attr
            &&& r is Ok <==> stands(old(s).store, node)
            &&& r is Err ==> r->Err_0 is Stale
            &&& r is Ok && row_of(old(s).store, node).data@.len() <= u64::MAX - 511
                ==> attrs_of_row(r->Ok_0, row_of(old(s).store, node), old(s).uid, old(s).gid)
        }),
{
    let v = ask@;
    row_is_at(old(s).store, node);
}

/// A read of a node of the side store gives its row's bytes.
pub proof fn side_nodes_are_read(
    s: &mut SideStoreSurface,
    ask: &Ask,
    is_real: bool,
    is_real_to: bool,
    now: i64,
    out: Served,
    i: int,
)
    requires
        call_ensures(SideStoreSurface::serve, (s, ask, is_real, is_real_to, now), out),
        *ask is Read,
        aside(ask->Read_node),
    ensures
        ({
            let node = ask->Read_node;
            let r = out->Reply_0->Data_0;
            let data = row_of(old(s).store, node).data@;
            let offset = ask->Read_offset;
            let count = ask->Read_count;
            &&& *final(s) == *old(s)
            &&& out is Reply && out->Reply_0 is Data
            &&& r is Ok <==> stands(old(s).store, node)
            &&& r is Err ==> r->Err_0 is Stale
            &&& r is Ok ==> r->Ok_0.data@.len() <= count
            &&& r is Ok && offset + count <= data.len() ==> r->Ok_0.data@.len() == count
            &&& r is Ok && offset < data.len() < offset + count ==> r->Ok_0.data@.len()
                == data.len() - offset
            &&& r is Ok ==> (r->Ok_0.eof <==> offset + count >= data.len())
            &&& r is Ok && 0 <= i < r->Ok_0.data@.len() ==> r->Ok_0.data@[i] == data[offset + i]
        }),
{
    let v = ask@;
    row_is_at(old(s).store, ask->Read_node);
}

/// A file or directory that is created aside is there, with what it held before or empty; an
/// exclusive create of a name that is there is refused, and so is anything else than a file or a
/// directory.
pub proof fn side_files_are_created(
    s: &mut SideStoreSurface,
    ask: &Ask,
    is_real: bool,
    is_real_to: bool,
    now: i64,
    out: Served,
)
    requires
        call_ensures(SideStoreSurface::serve, (s, ask, is_real, is_real_to, now), out),
        *ask is Create,
        kept_aside(ask->Create_dir, ask->Create_name@, is_real),
    ensures
        ({
            let dir = ask->Create_dir;
            let key = (dir, ask->Create_name@);
            let kind = ask->Create_kind;
            let was = there(old(s).store, key.0, key.1);
            let row = final(s).store.rows@[key];
            let taken = kind is File && kind->exclusive && was;
            let made = (kind is File || kind is Dir) && !taken;
            &&& out is Created <==> made
            &&& taken ==> out == Served::Reply(Answer::Entry(Err(NfsError::Exist)))
            &&& !(kind is File || kind is Dir) ==> out == Served::Reply(
                Answer::Entry(Err(NfsError::Access)),
            )
            &&& out is Created ==> {
                &&& out->Created_dir == dir
                &&& aside(out->Created_node)
                &&& there(final(s).store, key.0, key.1)
                &&& kind is File ==> row.kind == 0
                &&& kind is Dir ==> row.kind == 1
                &&& row.mtime_sec == now
                &&& was ==> row.data@ == old(s).store.rows@[key].data@ && row.mode == old(
                    s).store.rows@[key].mode
                &&& !was ==> row.data@.len() == 0 && row.mode == ask->Create_mode && row.version
                    == 1
                &&& final(s).store.dirty
            }
            &&& !(out is Created) ==> final(s).store@ == old(s).store@
        }),
{
    let v = ask@;
    let key = (ask->Create_dir, ask->Create_name@);
    let a = old(s).store@;
    let b = final(s).store@;
    assert(a.rows.contains_key(key) == old(s).store.rows@.contains_key(key));
    assert(b.rows.contains_key(key) == final(s).store.rows@.contains_key(key));
    if a.rows.contains_key(key) {
        assert(a.rows[key] == old(s).store.rows@[key]@);
    }
    if b.rows.contains_key(key) {
        assert(b.rows[key] == final(s).store.rows@[key]@);
    }
    crate::sidestore::laws::synth_is_a_side_node(key);
}

/// A row that is removed is gone, and its directory counts as changed; a directory is removed only
/// as one, and only if it is empty.
pub proof fn side_files_are_removed(
    s: &mut SideStoreSurface,
    ask: &Ask,
    is_real: bool,
    is_real_to: bool,
    now: i64,
    out: Served,
    d: NodeKey,
    n: Seq<u8>,
    node: NodeKey,
)
    requires
        call_ensures(SideStoreSurface::serve, (s, ask, is_real, is_real_to, now), out),
        *ask is Remove,
        kept_aside(ask->Remove_dir, ask->Remove_name@, is_real),
        node == synth_of((ask->Remove_dir, ask->Remove_name@)),
    ensures
        ({
            let key = (ask->Remove_dir, ask->Remove_name@);
            let was = there(old(s).store, key.0, key.1);
            let done = out == (Served::Touched {
                answer: Answer::Done(Ok(())),
                dir: ask->Remove_dir,
            });
            &&& !was ==> out == Served::Reply(Answer::Done(Err(NfsError::NoEnt)))
            &&& was && !ask->Remove_is_dir ==> done
            &&& was && ask->Remove_is_dir && old(s).store.rows@[key].kind != 1 ==> out
                == Served::Reply(Answer::Done(Err(NfsError::NotDir)))
            &&& was && ask->Remove_is_dir && there(old(s).store, node, n) ==> !done
            &&& done ==> (there(final(s).store, d, n) <==> there(old(s).store, d, n) && (d, n)
                != key)
            &&& done && there(final(s).store, d, n) ==> final(s).store.rows@[(d, n)]@ == old(
                s).store.rows@[(d, n)]@
            &&& !done ==> final(s).store@ == old(s).store@
        }),
{
    let v = ask@;
    let key = (ask->Remove_dir, ask->Remove_name@);
    let a = old(s).store@;
    let b = final(s).store@;
    assert(a.rows.contains_key(key) == old(s).store.rows@.contains_key(key));
    row_is_seen(old(s).store, d, n);
    row_is_seen(final(s).store, d, n);
    row_is_seen(old(s).store, node, n);
    if a.rows.contains_key(key) {
        assert(a.rows[key] == old(s).store.rows@[key]@);
    }
}

/// A row that is renamed aside is there under the new name with what it held, and no longer under
/// the old; nothing moves between the store and the tree.
pub proof fn side_files_are_renamed(
    s: &mut SideStoreSurface,
    ask: &Ask,
    is_real: bool,
    is_real_to: bool,
    now: i64,
    out: Served,
)
    requires
        call_ensures(SideStoreSurface::serve, (s, ask, is_real, is_real_to, now), out),
        *ask is Rename,
    ensures
        ({
            let from = (ask->from_dir, ask->from_name@);
            let to = (ask->to_dir, ask->to_name@);
            let a = kept_aside(from.0, from.1, is_real);
            let b = kept_aside(to.0, to.1, is_real_to);
            let was = there(old(s).store, from.0, from.1);
            &&& !a && !b ==> out is Pass
            &&& a != b ==> out == Served::Reply(Answer::Done(Err(NfsError::Access)))
            &&& a && b && !was ==> out == Served::Reply(Answer::Done(Err(NfsError::NoEnt)))
            &&& a && b && was ==> {
                &&& out == Served::Reply(Answer::Done(Ok(())))
                &&& there(final(s).store, to.0, to.1)
                &&& final(s).store.rows@[to]@ == old(s).store.rows@[from]@
                &&& from != to ==> !there(final(s).store, from.0, from.1)
                &&& final(s).store.dirty
            }
            &&& !(a && b && was) ==> final(s).store@ == old(s).store@
        }),
{
    let v = ask@;
    let from = (ask->from_dir, ask->from_name@);
    let to = (ask->to_dir, ask->to_name@);
    let x = old(s).store@;
    let y = final(s).store@;
    assert(x.rows.contains_key(from) == old(s).store.rows@.contains_key(from));
    assert(y.rows.contains_key(from) == final(s).store.rows@.contains_key(from));
    assert(y.rows.contains_key(to) == final(s).store.rows@.contains_key(to));
    if x.rows.contains_key(from) {
        assert(x.rows[from] == old(s).store.rows@[from]@);
    }
    if y.rows.contains_key(to) {
        assert(y.rows[to] == final(s).store.rows@[to]@);
    }
}

/// Setting attributes of a row: the mode that is set; the size that is set, with zeros where it
/// grows; a size over 1 MiB is refused.
pub proof fn side_attributes_are_set(
    s: &mut SideStoreSurface,
    ask: &Ask,
    is_real: bool,
    is_real_to: bool,
    now: i64,
    out: Served,
    i: int,
)
    requires
        call_ensures(SideStoreSurface::serve, (s, ask, is_real, is_real_to, now), out),
        *ask is Setattr,
        aside(ask->Setattr_node),
    ensures
        ({
            let node = ask->Setattr_node;
            let set = ask->Setattr_set;
            let was = stands(old(s).store, node);
            let o = row_of(old(s).store, node);
            let n = row_of(final(s).store, node);
            let large = set.size is Some && set.size->0 > 1_048_576;
            &&& !was ==> out == Served::Reply(Answer::Attr(Err(NfsError::Stale))) && final(s).store@
                == old(s).store@
            &&& was ==> stands(final(s).store, node) && n.kind == o.kind
            &&& was && set.mode is Some ==> n.mode == set.mode->0
            &&& was && set.mode is None ==> n.mode == o.mode
            &&& was && large ==> out == Served::Reply(Answer::Attr(Err(NfsError::NoSpace)))
                && n.data@ == o.data@
            &&& was && !large ==> {
                &&& out is Reply && out->Reply_0 is Attr && out->Reply_0->Attr_0 is Ok
                &&& set.size is None ==> n.data@ == o.data@
                &&& set.size is Some ==> n.data@.len() == set.size->0
                &&& set.size is Some && 0 <= i < set.size->0 && i < o.data@.len() ==> n.data@[i]
                    == o.data@[i]
                &&& set.size is Some && o.data@.len() <= i < set.size->0 ==> n.data@[i] == 0
                &&& set.mtime is Some ==> n.mtime_sec == set.mtime->0.sec
                &&& set.mtime is None && set.size is Some ==> n.mtime_sec == now
                &&& set.mtime is None && set.size is None ==> n.mtime_sec == o.mtime_sec
                &&& o.version < u64::MAX ==> n.version == o.version + 1
                &&& n.data@.len() <= u64::MAX - 511 ==> attrs_of_row(
                    out->Reply_0->Attr_0->Ok_0,
                    n,
                    old(s).uid,
                    old(s).gid,
                )
            }
        }),
{
    let v = ask@;
    row_is_at(old(s).store, ask->Setattr_node);
    row_is_at(final(s).store, ask->Setattr_node);
}

/// A write to a row: the bytes are there, those before and behind stay, and a gap is zeros. One
/// that goes over 1 MiB is refused.
pub proof fn side_rows_are_written(
    s: &mut SideStoreSurface,
    ask: &Ask,
    is_real: bool,
    is_real_to: bool,
    now: i64,
    out: Served,
    i: int,
)
    requires
        call_ensures(SideStoreSurface::serve, (s, ask, is_real, is_real_to, now), out),
        *ask is Write,
        aside(ask->Write_node),
    ensures
        ({
            let node = ask->Write_node;
            let offset = ask->Write_offset;
            let data = ask->Write_data@;
            let was = stands(old(s).store, node);
            let o = row_of(old(s).store, node);
            let n = row_of(final(s).store, node);
            let end = offset + data.len();
            &&& !was ==> out == Served::Reply(Answer::Attr(Err(NfsError::Stale)))
            &&& was && end > 1_048_576 ==> out == Served::Reply(
                Answer::Attr(Err(NfsError::NoSpace)),
            )
            &&& !was || end > 1_048_576 ==> final(s).store@ == old(s).store@
            &&& was && end <= 1_048_576 ==> out is Reply && out->Reply_0 is Attr && final(
                s).store.dirty && bytes_kept(final(s).store.rows.rows@) <= 67_108_864
            &&& was && end <= 1_048_576 && stands(final(s).store, node) ==> {
                &&& n.data@.len() >= end && n.data@.len() >= o.data@.len()
                &&& n.data@.len() == end || n.data@.len() == o.data@.len()
                &&& offset <= i < end ==> n.data@[i] == data[i - offset]
                &&& 0 <= i < o.data@.len() && !(offset <= i < end) ==> n.data@[i] == o.data@[i]
                &&& o.data@.len() <= i < offset ==> n.data@[i] == 0
                &&& n.mtime_sec == now
                &&& n.kind == o.kind && n.mode == o.mode
                &&& o.version < u64::MAX ==> n.version == o.version + 1
                &&& n.data@.len() <= u64::MAX - 511 ==> out->Reply_0->Attr_0 is Ok && attrs_of_row(
                    out->Reply_0->Attr_0->Ok_0,
                    n,
                    old(s).uid,
                    old(s).gid,
                )
            }
        }),
{
    let v = ask@;
    bytes_are_counted(final(s).store.rows.rows@);
    let node = ask->Write_node;
    row_is_at(old(s).store, node);
    row_is_at(final(s).store, node);
    let o = row_of(old(s).store, node);
    if stands(old(s).store, node) && ask->Write_offset + ask->Write_data@.len() <= 1_048_576 {
        let row = written_row(o@, ask->Write_offset, ask->Write_data@, now);
        assert(replaced_and_trimmed(old(s).store, final(s).store, node, row));
        let mid = choose|mid: SideStore| #[trigger]
            mid.wf() && mid@ == old(s).store@.with(node, row) && oldest_out(mid, final(s).store);
        if stands(final(s).store, node) {
            let key = final(s).store@.by_node[node];
            assert(final(s).store@.rows.contains_key(key));
        }
    }
}

/// A name of the Mac's companion file is its file's with a mark before it.
pub proof fn companions_have_a_mark(name: &[u8], c: Vec<u8>)
    requires
        call_ensures(companion, (name,), c),
    ensures
        c@ == "._".spec_bytes() + name@,
{
}

/// A companion belongs to the file whose name follows the mark.
pub proof fn companions_have_a_file(name: &[u8], r: Option<Vec<u8>>)
    requires
        call_ensures(anchor, (name,), r),
    ensures
        ({
            let m = "._".spec_bytes();
            &&& r is Some <==> name@.len() > m.len() && name@.take(m.len() as int) == m
            &&& r is Some ==> m + r->0@ == name@
        }),
{
    let m = "._".spec_bytes();
    if r is Some {
        assert(name@.take(m.len() as int) + name@.skip(m.len() as int) =~= name@);
    }
}

/// A row goes in a sweep where its directory is gone, or where it is the companion of a file that
/// is gone and it was not changed for a minute; and only there.
pub proof fn sweeps_take_orphans(
    s: &mut SideStore,
    fates: &Vec<Fate>,
    now: i64,
    i: int,
)
    requires
        call_ensures(SideStore::gc_sweep, (s, fates, now), ()),
        old(s).wf(),
        fates@.len() == old(s).rows.rows@.len(),
        0 <= i < old(s).rows.rows@.len(),
    ensures
        ({
            let row = old(s).rows.rows@[i];
            let dir = row.0.0;
            let name = row.0.1@;
            let m = "._".spec_bytes();
            let mark = name.len() > m.len() && name.take(m.len() as int) == m;
            let f = fates@[i];
            let orphan = if aside(dir) {
                !old(s).by_node@.contains_key(dir)
            } else {
                f.parent is Err && (f.parent->Err_0 is NoEnt || f.parent->Err_0 is Stale) || (mark
                    && f.anchor is Err && f.anchor->Err_0 is NoEnt && now - row.1.mtime_sec > 60)
            };
            &&& there(*final(s), dir, name) <==> !orphan
            &&& !orphan ==> final(s).rows@[(dir, name)]@ == row.1@
        }),
{
    let row = old(s).rows.rows@[i];
    let key = (row.0.0, row.0.1@);
    let a = old(s)@;
    let b = final(s)@;
    old(s).rows.row_in_map(i);
    assert(old(s).rows.has_row(key)) by {
        assert(old(s).rows.rows@[i].0.id() == key);
    }
    let k = old(s).rows.row_of(key);
    if k < i || i < k {
        assert(old(s).rows.rows@[k].0.id() == old(s).rows.rows@[i].0.id());
        assert(false);
    }
    assert(a.rows.contains_key(key));
    assert(a.rows[key] == row.1@);
    assert(b.rows.contains_key(key) == final(s).rows@.contains_key(key));
    assert(a.by_node.contains_key(key.0) == old(s).by_node@.contains_key(key.0));
    if b.rows.contains_key(key) {
        assert(b.rows[key] == final(s).rows@[key]@);
    }
}

/// How many bytes some rows hold.
pub open spec fn bytes_kept(rows: Seq<(RowKey, Row)>) -> int {
    rows.fold_left(0int, |n: int, r: (RowKey, Row)| n + r.1.data@.len())
}

proof fn bytes_are_counted(rows: Seq<(RowKey, Row)>)
    ensures
        bytes_kept(rows) == total_of(rows),
    decreases rows.len(),
{
    if rows.len() > 0 {
        bytes_are_counted(rows.drop_last());
    }
}

/// What is kept afterwards is at most 64 MiB, and nothing goes while it is; what goes is no younger
/// than what stays.
pub proof fn oldest_rows_go(
    s: &mut SideStore,
    d: NodeKey,
    n: Seq<u8>,
    e: NodeKey,
    m: Seq<u8>,
)
    requires
        call_ensures(SideStore::evict, (s,), ()),
    ensures
        bytes_kept(final(s).rows.rows@) <= 67_108_864,
        bytes_kept(old(s).rows.rows@) <= 67_108_864 ==> *final(s) == *old(s),
        there(*final(s), d, n) ==> there(*old(s), d, n) && final(s).rows@[(d, n)]@ == old(
            s).rows@[(d, n)]@,
        there(*old(s), d, n) && !there(*final(s), d, n) && there(*final(s), e, m) ==> old(
            s).rows@[(d, n)].mtime_sec <= old(s).rows@[(e, m)].mtime_sec,
{
    bytes_are_counted(old(s).rows.rows@);
    bytes_are_counted(final(s).rows.rows@);
    let a = old(s)@;
    let b = final(s)@;
    assert(a.rows.contains_key((d, n)) == old(s).rows@.contains_key((d, n)));
    assert(b.rows.contains_key((d, n)) == final(s).rows@.contains_key((d, n)));
    assert(a.rows.contains_key((e, m)) == old(s).rows@.contains_key((e, m)));
    assert(b.rows.contains_key((e, m)) == final(s).rows@.contains_key((e, m)));
    if a.rows.contains_key((d, n)) {
        assert(a.rows[(d, n)] == old(s).rows@[(d, n)]@);
    }
    if a.rows.contains_key((e, m)) {
        assert(a.rows[(e, m)] == old(s).rows@[(e, m)]@);
    }
    if b.rows.contains_key((d, n)) {
        assert(b.rows[(d, n)] == final(s).rows@[(d, n)]@);
    }
}

/// A page of a directory of the side store: the names after the cookie, in the order of their
/// bytes, each once, with the rows' attributes where they were asked for.
pub proof fn side_directories_are_listed(
    s: &SideStore,
    dir: NodeKey,
    cookie: u64,
    max_entries: usize,
    want_attrs: bool,
    uid: u32,
    gid: u32,
    page: ReadDirPage,
    k: int,
)
    requires
        call_ensures(
            SideStore::readdir,
            (s, dir, cookie, max_entries, want_attrs, uid, gid),
            page,
        ),
    ensures
        page.entries@.len() <= max_entries,
        page.eof || page.entries@.len() == max_entries,
        0 <= k < page.entries@.len() ==> ({
            let e = page.entries@[k];
            let key = (dir, e.name@);
            &&& there(*s, dir, e.name@)
            &&& aside(e.node)
            &&& cookie < 3 ==> e.cookie == (k + 3) as u64
            &&& cookie >= 3 && cookie + 1 + k <= u64::MAX ==> e.cookie == cookie + 1 + k
            &&& k > 0 ==> below(page.entries@[k - 1].name@, e.name@)
            &&& e.attr is Some <==> want_attrs
            &&& want_attrs && s.rows@[key].data@.len() <= u64::MAX - 511 ==> attrs_of_row(
                e.attr->0,
                s.rows@[key],
                uid,
                gid,
            )
        }),
{
    let side = s@;
    let names = choose|names: Seq<Seq<u8>>| #[trigger]
        names_in(side, dir, names) && crate::sidestore::list::page_is(
            page,
            side,
            dir,
            names,
            cookie,
            max_entries,
            want_attrs,
            uid,
            gid,
        );
    assert(names_in(side, dir, names));
    if 0 <= k < page.entries@.len() {
        let e = page.entries@[k];
        let start = crate::sidestore::list::seen(names.len(), cookie);
        let key = (dir, names[start + k]);
        assert(side.rows.contains_key(key));
        assert(side.rows[key] == s.rows@[key]@);
        crate::sidestore::laws::synth_is_a_side_node(key);
        if k > 0 {
            let f = page.entries@[k - 1];
            assert(below(names[start + k - 1], names[start + k]));
        }
    }
}

/// Every name of a directory of the side store is on the first page if that page is the last.
pub proof fn whole_listings_miss_nothing(
    s: &SideStore,
    dir: NodeKey,
    cookie: u64,
    max_entries: usize,
    want_attrs: bool,
    uid: u32,
    gid: u32,
    page: ReadDirPage,
    name: Seq<u8>,
) -> (k: int)
    requires
        call_ensures(
            SideStore::readdir,
            (s, dir, cookie, max_entries, want_attrs, uid, gid),
            page,
        ),
        cookie < 3,
        page.eof,
        there(*s, dir, name),
    ensures
        0 <= k < page.entries@.len(),
        page.entries@[k].name@ == name,
{
    let side = s@;
    let names = choose|names: Seq<Seq<u8>>| #[trigger]
        names_in(side, dir, names) && crate::sidestore::list::page_is(
            page,
            side,
            dir,
            names,
            cookie,
            max_entries,
            want_attrs,
            uid,
            gid,
        );
    assert(names_in(side, dir, names));
    assert(side.rows.contains_key((dir, name)));
    let k = choose|k: int| 0 <= k < names.len() && names[k] == name;
    assert(names.contains(name));
    let e = page.entries@[k];
    k
}

proof fn loaded_last(rows: Seq<crate::sidestore::saved::SavedView>, i: int)
    requires
        0 <= i < rows.len(),
        forall|j: int|
            i < j < rows.len() ==> saved_key(#[trigger] rows[j]) != saved_key(rows[i]),
    ensures
        crate::sidestore::saved::loaded(rows).rows.contains_key(saved_key(rows[i])),
        crate::sidestore::saved::loaded(rows).rows[saved_key(rows[i])] == saved_value(rows[i]),
    decreases rows.len(),
{
    let p = rows.drop_last();
    if i < rows.len() - 1 {
        assert(p[i] == rows[i]);
        assert forall|j: int| i < j < p.len() implies saved_key(#[trigger] p[j]) != saved_key(
            p[i],
        ) by {
            assert(p[j] == rows[j]);
        }
        loaded_last(p, i);
        assert(saved_key(rows[rows.len() - 1]) != saved_key(rows[i]));
    }
}

/// A row that was saved is there again when the rows are loaded, unless a later one has its name.
pub proof fn saved_rows_come_back(rows: &Vec<SavedRow>, s: SideStore, i: int)
    requires
        call_ensures(load, (rows,), s),
        0 <= i < rows@.len(),
        forall|j: int|
            i < j < rows@.len() ==> ((#[trigger] rows@[j]).0 != rows@[i].0 || rows@[j].1@
                != rows@[i].1@),
    ensures
        ({
            let r = rows@[i];
            let dir = NodeKey { ino: r.0.0, generation: r.0.1 };
            let row = s.rows@[(dir, r.1@)];
            &&& there(s, dir, r.1@)
            &&& row.kind == r.2.0 && row.mode == r.2.1 && row.mtime_sec == r.2.2 && row.version
                == r.2.3
            &&& row.data@ == r.2.4@
            &&& !s.dirty
        }),
{
    let all = saved_view(rows@);
    assert forall|j: int| i < j < all.len() implies saved_key(#[trigger] all[j]) != saved_key(
        all[i],
    ) by {
        let r = rows@[j];
    }
    loaded_last(all, i);
    let key = saved_key(all[i]);
    assert(s@.rows.contains_key(key) == s.rows@.contains_key(key));
    assert(s@.rows[key] == s.rows@[key]@);
}

/// A row is found by its directory and name, and by its node.
pub proof fn rows_are_found(
    s: &SideStore,
    dir: NodeKey,
    name: &[u8],
    has: bool,
    row: Option<&Row>,
    node: NodeKey,
    at: Option<&Row>,
    uid: u32,
    gid: u32,
    attr: NfsResult<Attr>,
)
    requires
        call_ensures(SideStore::has_row, (s, dir, name), has),
        call_ensures(SideStore::row, (s, dir, name), row),
        call_ensures(SideStore::row_at, (s, node), at),
        call_ensures(SideStore::row_attr, (s, node, uid, gid), attr),
    ensures
        has <==> there(*s, dir, name@),
        row is Some <==> has,
        row is Some ==> row->0@ == s.rows@[(dir, name@)]@,
        at is Some <==> stands(*s, node),
        at is Some ==> at->0@ == row_of(*s, node)@,
        attr is Ok <==> stands(*s, node),
        attr is Err ==> attr->Err_0 is Stale,
        attr is Ok && row_of(*s, node).data@.len() <= u64::MAX - 511 ==> attrs_of_row(
            attr->Ok_0,
            row_of(*s, node),
            uid,
            gid,
        ),
{
    row_is_seen(*s, dir, name@);
    row_is_at(*s, node);
}

/// When a file of the tree is removed, its companion goes with it, and nothing else.
pub proof fn companions_go_with_the_file(
    s: &mut SideStoreSurface,
    dir: NodeKey,
    name: &[u8],
    d: NodeKey,
    n: Seq<u8>,
)
    requires
        call_ensures(SideStoreSurface::removed, (s, dir, name), ()),
    ensures
        ({
            let c = "._".spec_bytes() + name@;
            &&& !noise(name@) ==> !there(final(s).store, dir, c)
            &&& there(final(s).store, d, n) <==> there(old(s).store, d, n) && (noise(name@) || (
            d, n) != (dir, c))
            &&& there(final(s).store, d, n) ==> final(s).store.rows@[(d, n)]@ == old(
                s).store.rows@[(d, n)]@
        }),
{
    let c = "._".spec_bytes() + name@;
    row_is_seen(final(s).store, dir, c);
    row_is_seen(old(s).store, dir, c);
    row_is_seen(final(s).store, d, n);
    row_is_seen(old(s).store, d, n);
}

/// The tree is asked for a real entry only where the name is noise in one of its own directories.
pub proof fn noise_is_settled_first(dir: NodeKey, name: &[u8], r: bool)
    requires
        call_ensures(is_unsettled, (dir, name), r),
    ensures
        r <==> !aside(dir) && noise(name@),
{
}

/// Before a sweep the tree is asked for the directory of each row that is not in the store's own, and
/// for the file of each companion.
pub proof fn sweeps_ask_for_the_surroundings(s: &SideStore, asks: Vec<GcAsk>, i: int)
    requires
        call_ensures(SideStore::gc_asks, (s,), asks),
        0 <= i < s.rows.rows@.len(),
    ensures
        asks@.len() == s.rows.rows@.len(),
        ({
            let dir = s.rows.rows@[i].0.0;
            let name = s.rows.rows@[i].0.1@;
            let m = "._".spec_bytes();
            let mark = name.len() > m.len() && name.take(m.len() as int) == m;
            &&& aside(dir) ==> asks@[i].parent is None && asks@[i].anchor is None
            &&& !aside(dir) ==> asks@[i].parent == Some(dir) && (asks@[i].anchor is Some <==> mark)
            &&& !aside(dir) && mark ==> m + asks@[i].anchor->0@ == name
        }),
{
    let a = asks@[i];
    let name = s.rows.rows@[i].0.1@;
    let m = "._".spec_bytes();
    if name.len() > m.len() && name.take(m.len() as int) == m {
        assert(name.take(m.len() as int) + name.skip(m.len() as int) =~= name);
    }
}

/// What is written out is each row of the store, once.
pub proof fn every_row_is_saved(s: &SideStore, rows: Vec<SavedRow>, i: int, d: NodeKey, n: Seq<u8>)
    requires
        call_ensures(SideStore::saved, (s,), rows),
    ensures
        0 <= i < rows@.len() ==> ({
            let r = rows@[i];
            let dir = NodeKey { ino: r.0.0, generation: r.0.1 };
            let row = s.rows@[(dir, r.1@)];
            &&& there(*s, dir, r.1@)
            &&& row.kind == r.2.0 && row.mode == r.2.1 && row.mtime_sec == r.2.2 && row.version
                == r.2.3
            &&& row.data@ == r.2.4@
        }),
        there(*s, d, n) ==> exists|k: int|
            0 <= k < rows@.len() && (#[trigger] rows@[k]).0 == (d.ino, d.generation) && rows@[k].1@
                == n,
{
    let all = saved_view(rows@);
    assert(all.len() == rows@.len());
    if 0 <= i < rows@.len() {
        let key = saved_key(all[i]);
        row_is_seen(*s, key.0, key.1);
    }
    if there(*s, d, n) {
        row_is_seen(*s, d, n);
        assert(crate::sidestore::saved::row_listed(all, (d, n)));
        let k = choose|k: int| 0 <= k < all.len() && saved_key(#[trigger] all[k]) == (d, n);
        assert(rows@[k].0 == (d.ino, d.generation));
    }
}

/// The rows are written out where something changed since they were last, and then they are clean.
pub proof fn changed_rows_are_written_out(s: &mut SideStore, bytes: Option<Vec<u8>>)
    requires
        call_ensures(SideStore::flush_if_dirty, (s,), bytes),
    ensures
        bytes is Some <==> old(s).dirty,
        !final(s).dirty,
        final(s).rows == old(s).rows,
        final(s).by_node == old(s).by_node,
{
}

/// After the sweep a new row is answered with its node and attributes, if it is still there.
pub proof fn created_rows_are_answered(
    s: &mut SideStoreSurface,
    node: NodeKey,
    fates: &Vec<Fate>,
    now: i64,
    answer: Answer,
)
    requires
        call_ensures(SideStoreSurface::created, (s, node, fates, now), answer),
    ensures
        answer is Entry,
        answer->Entry_0 is Ok <==> stands(final(s).store, node),
        answer->Entry_0 is Ok ==> (answer->Entry_0->Ok_0).0 == node,
        answer->Entry_0 is Ok && row_of(final(s).store, node).data@.len() <= u64::MAX - 511
            ==> attrs_of_row(
            (answer->Entry_0->Ok_0).1,
            row_of(final(s).store, node),
            old(s).uid,
            old(s).gid,
        ),
        answer->Entry_0 is Err ==> answer->Entry_0->Err_0 is Stale,
{
    row_is_at(final(s).store, node);
}

} // verus!
