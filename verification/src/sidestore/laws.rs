//! What the side store promises.
use crate::sidestore::gc::{companion_of, orphaned, sweep_of, Fate, LINGER_SECS};
use crate::sidestore::rows::{side_name, side_node, synth_of, Row, Side};
use crate::sidestore::surface::{
    create_of, overlaid, owned, passes, read_of, remove_of, rename_of, written_row,
};
use crate::surface::{Ask, CreateKind, NfsError, SetAttr};
use crate::types::NodeKey;
use vstd::prelude::*;

verus! {

/// Nothing that the side store owns reaches the tree: no operation on a name of its own that the
/// tree does not have, and none on a node of its own.
pub proof fn noise_never_reaches_the_tree(
    dir: NodeKey,
    name: Seq<u8>,
    to_dir: NodeKey,
    to_name: Seq<u8>,
    kind: CreateKind<Seq<u8>>,
    mode: u16,
    is_dir: bool,
    is_real: bool,
    is_real_to: bool,
)
    requires
        owned(dir, name, is_real),
    ensures
        !passes(Ask::Lookup { dir, name }, is_real, is_real_to),
        !passes(Ask::Create { dir, name, kind, mode }, is_real, is_real_to),
        !passes(Ask::Remove { dir, name, is_dir }, is_real, is_real_to),
        !passes(
            Ask::Rename { from_dir: dir, from_name: name, to_dir, to_name },
            is_real,
            is_real_to,
        ),
{
}

/// No operation on a node of the side store reaches the tree.
pub proof fn side_nodes_never_reach_the_tree(
    node: NodeKey,
    offset: u64,
    count: u32,
    data: Seq<u8>,
    sync: bool,
    set: SetAttr,
    len: u64,
    is_real: bool,
    is_real_to: bool,
)
    requires
        side_node(node),
    ensures
        !passes(Ask::Getattr(node), is_real, is_real_to),
        !passes(Ask::Readlink(node), is_real, is_real_to),
        !passes(Ask::Parent(node), is_real, is_real_to),
        !passes(Ask::Read { node, offset, count }, is_real, is_real_to),
        !passes(Ask::ReadSendable { node, offset, count }, is_real, is_real_to),
        !passes(Ask::Write { node, offset, data, sync }, is_real, is_real_to),
        !passes(Ask::Setattr { node, set }, is_real, is_real_to),
        !passes(Ask::Commit { node, off: offset, len }, is_real, is_real_to),
{
}

/// An operation has to do with the side store: it is on one of its nodes, or on a name of its
/// kind.
pub open spec fn concerns_side(ask: Ask<Seq<u8>>) -> bool {
    match ask {
        Ask::Getattr(node) => side_node(node),
        Ask::Lookup { dir, name } => side_node(dir) || side_name(name),
        Ask::Readdir { dir, .. } => side_node(dir),
        Ask::Readlink(node) => side_node(node),
        Ask::Parent(node) => side_node(node),
        Ask::ReadSendable { node, .. } => side_node(node),
        Ask::Read { node, .. } => side_node(node),
        Ask::Create { dir, name, .. } => side_node(dir) || side_name(name),
        Ask::Remove { dir, name, .. } => side_node(dir) || side_name(name),
        Ask::Rename { from_dir, from_name, to_dir, to_name } => side_node(from_dir) || side_name(
            from_name,
        ) || side_node(to_dir) || side_name(to_name),
        Ask::Setattr { node, .. } => side_node(node),
        Ask::Write { node, .. } => side_node(node),
        Ask::Commit { node, .. } => side_node(node),
    }
}

/// Everything else passes through.
pub proof fn everything_else_passes(ask: Ask<Seq<u8>>, is_real: bool, is_real_to: bool)
    requires
        !concerns_side(ask),
    ensures
        passes(ask, is_real, is_real_to),
{
}

/// A real entry wins: a name that a directory of the tree has is the tree's, whatever it is.
pub proof fn real_entry_wins(
    dir: NodeKey,
    name: Seq<u8>,
    kind: CreateKind<Seq<u8>>,
    mode: u16,
    is_dir: bool,
    is_real_to: bool,
    to_dir: NodeKey,
    to_name: Seq<u8>,
)
    requires
        !side_node(dir),
        !side_node(to_dir),
    ensures
        passes(
            Ask::Rename { from_dir: dir, from_name: name, to_dir, to_name },
            true,
            true,
        ),
        passes(Ask::Lookup { dir, name }, true, is_real_to),
        passes(Ask::Create { dir, name, kind, mode }, true, is_real_to),
        passes(Ask::Remove { dir, name, is_dir }, true, is_real_to),
{
}

/// Rows are hidden from listings: the listing of a directory of the tree is the tree's own.
pub proof fn listings_are_clean(
    dir: NodeKey,
    cookie: u64,
    max_entries: usize,
    want_attrs: bool,
    is_real: bool,
    is_real_to: bool,
)
    requires
        !side_node(dir),
    ensures
        passes(Ask::Readdir { dir, cookie, max_entries, want_attrs }, is_real, is_real_to),
{
}

/// What was created is found: under its name and by its node.
pub proof fn created_is_found(
    side: Side,
    dir: NodeKey,
    name: Seq<u8>,
    kind: CreateKind<Seq<u8>>,
    mode: u16,
    now: i64,
)
    requires
        create_of(side, dir, name, kind, mode, now).0 is Ok,
    ensures
        ({
            let (r, s) = create_of(side, dir, name, kind, mode, now);
            &&& s.rows.contains_key((dir, name))
            &&& s.at(r->Ok_0) == Some(s.rows[(dir, name)])
            &&& side_node(r->Ok_0)
        }),
{
    synth_is_a_side_node((dir, name));
}

/// The node of a row is the side store's.
pub proof fn synth_is_a_side_node(key: (NodeKey, Seq<u8>))
    ensures
        side_node(synth_of(key)),
{
}

/// What was removed is gone.
pub proof fn removed_is_gone(side: Side, dir: NodeKey, name: Seq<u8>, is_dir: bool)
    requires
        remove_of(side, dir, name, is_dir).0 is Ok,
    ensures
        !remove_of(side, dir, name, is_dir).1.rows.contains_key((dir, name)),
        remove_of(side, dir, name, is_dir).1.at(synth_of((dir, name))) is None,
{
}

/// A rename takes the row along as it is.
pub proof fn renamed_is_found(
    side: Side,
    from: (NodeKey, Seq<u8>),
    to: (NodeKey, Seq<u8>),
    is_real: bool,
    is_real_to: bool,
)
    requires
        rename_of(side, from, to, is_real, is_real_to).0 is Ok,
    ensures
        ({
            let s = rename_of(side, from, to, is_real, is_real_to).1;
            &&& s.at(synth_of(to)) == Some(side.rows[from])
            &&& from != to ==> !s.rows.contains_key(from)
        }),
{
}

/// A read gives back what a write wrote.
pub proof fn written_reads_back(row: Row<Seq<u8>>, offset: u64, data: Seq<u8>, now: i64, count: u32)
    requires
        data.len() == count,
        offset + data.len() <= u64::MAX,
    ensures
        read_of(written_row(row, offset, data, now).data, offset, count).0 == data,
{
    let d = overlaid(row.data, offset as nat, data);
    if data.len() > 0 {
        assert(d.subrange(offset as int, offset + count) =~= data);
    } else {
        assert(read_of(d, offset, count).0 =~= data);
    }
}

/// An AppleDouble row whose file is gone does not survive a sweep once it has not been changed
/// for longer than the linger.
pub proof fn orphan_is_swept(
    side: Side,
    fate: spec_fn((NodeKey, Seq<u8>)) -> Fate,
    now: i64,
    dir: NodeKey,
    name: Seq<u8>,
)
    requires
        !side_node(dir),
        name.len() > 0,
        side.rows.contains_key((dir, companion_of(name))),
        now - side.rows[(dir, companion_of(name))].mtime_sec > LINGER_SECS,
        fate((dir, companion_of(name))).anchor is Err,
        fate((dir, companion_of(name))).anchor->Err_0 == NfsError::NoEnt,
    ensures
        !sweep_of(side, fate, now).rows.contains_key((dir, companion_of(name))),
{
    let key = (dir, companion_of(name));
    crate::sidestore::gc::companion_is_anchored(name);
    assert(orphaned(side, key, fate(key), now));
}

} // verus!
