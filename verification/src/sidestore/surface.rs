//! What the side store does with each operation on the exported tree.
//!
//! An operation either passes to the tree unchanged or is answered here. Whether a name is the
//! store's depends on whether the tree has a real entry of that name, so that is asked first.
use crate::bytes::to_vec;
use crate::sidestore::evict::{oldest_out, total_of};
use crate::sidestore::gc::{companion, companion_of, sweep_of, Fate};
use crate::sidestore::list::listed;
use crate::sidestore::rows::{
    attr_for, attr_of, is_side_name, is_side_node, side_name, side_node, synth_key, synth_of, Row,
    Side, SideStore, MAX_ROW,
};
use crate::surface::{Answer, Ask, CreateKind, NfsError, NfsResult, ReadResult, SetAttr};
use crate::types::{Attr, Kind, NodeKey};
use vstd::prelude::*;
use vstd::string::StringSliceAdditionalSpecFns;

verus! {

/// Whether the tree has to be asked for a real entry before it is known whose a name is.
pub open spec fn unsettled(dir: NodeKey, name: Seq<u8>) -> bool {
    !side_node(dir) && side_name(name)
}

/// Whether a name is the side store's; `is_real` says that the tree has such an entry.
pub open spec fn owned(dir: NodeKey, name: Seq<u8>, is_real: bool) -> bool {
    side_node(dir) || (side_name(name) && !is_real)
}

pub fn is_unsettled(dir: NodeKey, name: &[u8]) -> (r: bool)
    ensures
        r == unsettled(dir, name@),
{
    !is_side_node(dir) && is_side_name(name)
}

pub fn owns(dir: NodeKey, name: &[u8], is_real: bool) -> (r: bool)
    ensures
        r == owned(dir, name@, is_real),
{
    if is_side_node(dir) {
        return true;
    }
    is_side_name(name) && !is_real
}

/// Whether an operation passes to the tree. `is_real` says that the tree has an entry of the name,
/// `is_real_to` the same of a rename's new name.
pub open spec fn passes(ask: Ask<Seq<u8>>, is_real: bool, is_real_to: bool) -> bool {
    match ask {
        Ask::Getattr(node) => !side_node(node),
        Ask::Lookup { dir, name } => !owned(dir, name, is_real),
        Ask::Readdir { dir, .. } => !side_node(dir),
        Ask::Readlink(node) => !side_node(node),
        Ask::Parent(node) => !side_node(node),
        Ask::ReadSendable { node, .. } => !side_node(node),
        Ask::Read { node, .. } => !side_node(node),
        Ask::Create { dir, name, .. } => !owned(dir, name, is_real),
        Ask::Remove { dir, name, .. } => !owned(dir, name, is_real),
        Ask::Rename { from_dir, from_name, to_dir, to_name } => !owned(from_dir, from_name, is_real)
            && !owned(to_dir, to_name, is_real_to),
        Ask::Setattr { node, .. } => !side_node(node),
        Ask::Write { node, .. } => !side_node(node),
        Ask::Commit { node, .. } => !side_node(node),
    }
}

/// A counter of changes, one further; it starts over after the last number.
pub open spec fn bumped(v: u64) -> u64 {
    if v == u64::MAX {
        0
    } else {
        (v + 1) as u64
    }
}

/// The bytes, cut or padded with zeros to `n`.
pub open spec fn resized(data: Seq<u8>, n: nat) -> Seq<u8> {
    Seq::new(
        n,
        |i: int|
            if i < data.len() {
                data[i]
            } else {
                0u8
            },
    )
}

/// The bytes with `new` written at `offset`; a gap before it is zeros.
pub open spec fn overlaid(data: Seq<u8>, offset: nat, new: Seq<u8>) -> Seq<u8> {
    let end = offset + new.len();
    let n = if data.len() < end {
        end
    } else {
        data.len()
    };
    Seq::new(
        n,
        |i: int|
            if offset <= i < end {
                new[i - offset]
            } else if i < data.len() {
                data[i]
            } else {
                0u8
            },
    )
}

/// What a read of a row gives, and whether it comes to the end.
pub open spec fn read_of(data: Seq<u8>, offset: u64, count: u32) -> (Seq<u8>, bool) {
    let s = if offset < data.len() {
        offset as int
    } else {
        data.len() as int
    };
    let e = if s + count < data.len() {
        s + count
    } else {
        data.len() as int
    };
    (data.subrange(s, e), e == data.len())
}

/// The store after a create, and the new node. Files and directories only; an exclusive create
/// of a name that is there is refused, another one keeps what the row holds.
pub open spec fn create_of(
    side: Side,
    dir: NodeKey,
    name: Seq<u8>,
    kind: CreateKind<Seq<u8>>,
    mode: u16,
    now: i64,
) -> (NfsResult<NodeKey>, Side) {
    let key = (dir, name);
    let there = side.rows.contains_key(key);
    match kind {
        CreateKind::File { exclusive } if exclusive && there => (Err(NfsError::Exist), side),
        CreateKind::File { .. } => (
            Ok(synth_of(key)),
            side.put(key, created_row(side, key, 0, mode, now)),
        ),
        CreateKind::Dir => (Ok(synth_of(key)), side.put(key, created_row(side, key, 1, mode, now))),
        _ => (Err(NfsError::Access), side),
    }
}

pub open spec fn created_row(
    side: Side,
    key: (NodeKey, Seq<u8>),
    kind: u8,
    mode: u16,
    now: i64,
) -> Row<Seq<u8>> {
    if side.rows.contains_key(key) {
        let was = side.rows[key];
        Row { kind, mtime_sec: now, version: bumped(was.version), ..was }
    } else {
        Row { kind, mode, mtime_sec: now, version: 1, data: seq![] }
    }
}

/// Whether a directory of the side store has entries.
pub open spec fn has_child(side: Side, dir: NodeKey) -> bool {
    exists|k: (NodeKey, Seq<u8>)| #[trigger] side.rows.contains_key(k) && k.0 == dir
}

/// The store after a remove.
pub open spec fn remove_of(
    side: Side,
    dir: NodeKey,
    name: Seq<u8>,
    is_dir: bool,
) -> (NfsResult<()>, Side) {
    let key = (dir, name);
    if !side.rows.contains_key(key) {
        (Err(NfsError::NoEnt), side)
    } else if is_dir && side.rows[key].kind_of() != Kind::Dir {
        (Err(NfsError::NotDir), side)
    } else if is_dir && has_child(side, synth_of(key)) {
        (Err(NfsError::NotEmpty), side)
    } else {
        (Ok(()), side.dropped(key))
    }
}

/// The store after a rename that does not pass: rows do not move between the store and the tree.
pub open spec fn rename_of(
    side: Side,
    from: (NodeKey, Seq<u8>),
    to: (NodeKey, Seq<u8>),
    is_real: bool,
    is_real_to: bool,
) -> (NfsResult<()>, Side) {
    let from_side = owned(from.0, from.1, is_real);
    let to_side = owned(to.0, to.1, is_real_to);
    if from_side != to_side {
        (Err(NfsError::Access), side)
    } else if !side.rows.contains_key(from) {
        (Err(NfsError::NoEnt), side)
    } else {
        (Ok(()), side.dropped(from).put(to, side.rows[from]))
    }
}

/// A row with a new mode, if one is set.
pub open spec fn with_mode(row: Row<Seq<u8>>, set: SetAttr) -> Row<Seq<u8>> {
    Row {
        mode: match set.mode {
            Some(m) => m,
            None => row.mode,
        },
        ..row
    }
}

/// The store after attributes were set. A size beyond the row's cap is refused; the mode is set
/// all the same.
pub open spec fn setattr_of(side: Side, node: NodeKey, set: SetAttr, now: i64) -> (
    Option<NfsError>,
    Side,
) {
    match side.at(node) {
        None => (Some(NfsError::Stale), side),
        Some(row) => {
            let row = with_mode(row, set);
            if set.size is Some && set.size->0 > MAX_ROW {
                (Some(NfsError::NoSpace), side.with(node, row))
            } else {
                let data = match set.size {
                    Some(n) => resized(row.data, n as nat),
                    None => row.data,
                };
                let mtime_sec = match set.mtime {
                    Some(t) => t.sec,
                    None => if set.size is Some {
                        now
                    } else {
                        row.mtime_sec
                    },
                };
                (
                    None,
                    side.with(node, Row { data, mtime_sec, version: bumped(row.version), ..row }),
                )
            }
        },
    }
}

/// A row after a write.
pub open spec fn written_row(row: Row<Seq<u8>>, offset: u64, data: Seq<u8>, now: i64) -> Row<Seq<u8>> {
    Row {
        data: overlaid(row.data, offset as nat, data),
        mtime_sec: now,
        version: bumped(row.version),
        ..row
    }
}

/// The row of a node was replaced, and the oldest rows went where there was too much.
pub open spec fn replaced_and_trimmed(
    before: SideStore,
    after: SideStore,
    node: NodeKey,
    row: Row<Seq<u8>>,
) -> bool {
    exists|mid: SideStore| #[trigger]
        mid.wf() && mid@ == before@.with(node, row) && oldest_out(mid, after) && (total_of(
            mid.rows.rows@,
        ) <= crate::sidestore::evict::MAX_TOTAL ==> after@ == mid@)
}

/// The side store in front of an exported tree.
#[derive(Debug)]
pub struct SideStoreSurface {
    pub store: SideStore,
    /// The owner of every row.
    pub uid: u32,
    pub gid: u32,
}

/// What became of an operation.
#[derive(Debug)]
pub enum Served {
    /// The tree does it.
    Pass,
    /// This is the answer.
    Reply(Answer),
    /// This is the answer, and the directory `dir` of the tree counts as changed.
    Touched { answer: Answer, dir: NodeKey },
    /// The row of this node was made; a sweep follows, then `created` gives the answer, and the
    /// directory `dir` of the tree counts as changed.
    Created { node: NodeKey, dir: NodeKey },
}

/// An operation that the store answers without changing was answered like this.
pub open spec fn read_answer(
    side: Side,
    ask: Ask<Seq<u8>>,
    uid: u32,
    gid: u32,
    answer: Answer,
) -> bool {
    match ask {
        Ask::Getattr(node) => answer == Answer::Attr(side.attr_at(node, uid, gid)),
        Ask::Lookup { dir, name } => answer == Answer::Entry(
            if side.rows.contains_key((dir, name)) {
                Ok((synth_of((dir, name)), attr_of(side.rows[(dir, name)], uid, gid)))
            } else {
                Err(NfsError::NoEnt)
            },
        ),
        Ask::Readdir { dir, cookie, max_entries, want_attrs } => match answer {
            Answer::Page(Ok(page)) => listed(
                page,
                side,
                dir,
                cookie,
                max_entries,
                want_attrs,
                uid,
                gid,
            ),
            _ => false,
        },
        Ask::Readlink(_) => answer == Answer::Target(Err(NfsError::NotSymlink)),
        Ask::Parent(_) => answer == Answer::Parent(Err(NfsError::NoEnt)),
        Ask::ReadSendable { .. } => answer == Answer::Range(None),
        Ask::Read { node, offset, count } => match side.at(node) {
            None => answer == Answer::Data(Err(NfsError::Stale)),
            Some(row) => match answer {
                Answer::Data(Ok(d)) => (d.data@, d.eof) == read_of(row.data, offset, count),
                _ => false,
            },
        },
        Ask::Commit { node, .. } => answer == Answer::Attr(side.attr_at(node, uid, gid)),
        _ => false,
    }
}

/// Whether an operation leaves the store as it is.
pub open spec fn only_reads(ask: Ask<Seq<u8>>) -> bool {
    match ask {
        Ask::Create { .. } => false,
        Ask::Remove { .. } => false,
        Ask::Rename { .. } => false,
        Ask::Setattr { .. } => false,
        Ask::Write { .. } => false,
        _ => true,
    }
}

/// What an operation that does not pass does to the store, and how it is answered.
pub open spec fn write_answer(
    pre: SideStoreSurface,
    post: SideStoreSurface,
    ask: Ask<Seq<u8>>,
    is_real: bool,
    is_real_to: bool,
    now: i64,
    out: Served,
) -> bool {
    let side = pre.store@;
    let after = post.store@;
    match ask {
        Ask::Create { dir, name, kind, mode } => {
            let (r, s) = create_of(side, dir, name, kind, mode, now);
            &&& after == s
            &&& match r {
                Ok(node) => out == (Served::Created { node, dir }) && post.store.dirty,
                Err(e) => out == Served::Reply(Answer::Entry(Err(e))) && post.store.dirty
                    == pre.store.dirty,
            }
        },
        Ask::Remove { dir, name, is_dir } => {
            let (r, s) = remove_of(side, dir, name, is_dir);
            &&& after == s
            &&& match r {
                Ok(_) => out == (Served::Touched { answer: Answer::Done(Ok(())), dir })
                    && post.store.dirty,
                Err(e) => out == Served::Reply(Answer::Done(Err(e))) && post.store.dirty
                    == pre.store.dirty,
            }
        },
        Ask::Rename { from_dir, from_name, to_dir, to_name } => {
            let (r, s) = rename_of(side, (from_dir, from_name), (to_dir, to_name), is_real, is_real_to);
            &&& after == s
            &&& out == Served::Reply(Answer::Done(r))
            &&& post.store.dirty == (pre.store.dirty || r is Ok)
        },
        Ask::Setattr { node, set } => {
            let (e, s) = setattr_of(side, node, set, now);
            &&& after == s
            &&& match e {
                None => out == Served::Reply(Answer::Attr(after.attr_at(node, pre.uid, pre.gid)))
                    && post.store.dirty,
                Some(e) => out == Served::Reply(Answer::Attr(Err(e))) && post.store.dirty
                    == pre.store.dirty,
            }
        },
        Ask::Write { node, offset, data, sync } => match side.at(node) {
            None => after == side && out == Served::Reply(Answer::Attr(Err(NfsError::Stale)))
                && post.store.dirty == pre.store.dirty,
            Some(row) => if offset + data.len() > MAX_ROW {
                after == side && out == Served::Reply(Answer::Attr(Err(NfsError::NoSpace)))
                    && post.store.dirty == pre.store.dirty
            } else {
                &&& replaced_and_trimmed(
                    pre.store,
                    post.store,
                    node,
                    written_row(row, offset, data, now),
                )
                &&& out == Served::Reply(Answer::Attr(after.attr_at(node, pre.uid, pre.gid)))
                &&& post.store.dirty
            },
        },
        _ => false,
    }
}

/// What the side store does with an operation.
pub open spec fn served(
    pre: SideStoreSurface,
    post: SideStoreSurface,
    ask: Ask<Seq<u8>>,
    is_real: bool,
    is_real_to: bool,
    now: i64,
    out: Served,
) -> bool {
    if passes(ask, is_real, is_real_to) {
        out == Served::Pass && post == pre
    } else if only_reads(ask) {
        &&& post == pre
        &&& out is Reply
        &&& read_answer(pre.store@, ask, pre.uid, pre.gid, out->Reply_0)
    } else {
        write_answer(pre, post, ask, is_real, is_real_to, now, out)
    }
}

/// The row that keeps the Mac's indexer off the tree.
pub open spec fn no_index_row(now: i64) -> Row<Seq<u8>> {
    Row { kind: 0, mode: 0o444, mtime_sec: now, version: 1, data: seq![] }
}

fn bump(v: u64) -> (r: u64)
    ensures
        r == bumped(v),
{
    v.wrapping_add(1)
}

/// Whether an operation passes to the tree.
pub fn does_pass(ask: &Ask, is_real: bool, is_real_to: bool) -> (r: bool)
    ensures
        r == passes(ask@, is_real, is_real_to),
{
    match ask {
        Ask::Getattr(node) => !is_side_node(*node),
        Ask::Lookup { dir, name } => !owns(*dir, name.as_slice(), is_real),
        Ask::Readdir { dir, .. } => !is_side_node(*dir),
        Ask::Readlink(node) => !is_side_node(*node),
        Ask::Parent(node) => !is_side_node(*node),
        Ask::ReadSendable { node, .. } => !is_side_node(*node),
        Ask::Read { node, .. } => !is_side_node(*node),
        Ask::Create { dir, name, .. } => !owns(*dir, name.as_slice(), is_real),
        Ask::Remove { dir, name, .. } => !owns(*dir, name.as_slice(), is_real),
        Ask::Rename { from_dir, from_name, to_dir, to_name } => !owns(
            *from_dir,
            from_name.as_slice(),
            is_real,
        ) && !owns(*to_dir, to_name.as_slice(), is_real_to),
        Ask::Setattr { node, .. } => !is_side_node(*node),
        Ask::Write { node, .. } => !is_side_node(*node),
        Ask::Commit { node, .. } => !is_side_node(*node),
    }
}

impl SideStoreSurface {
    /// The store in front of a tree; the indexer's marker is put at the tree's root.
    pub fn new(root: NodeKey, store: SideStore, uid: u32, gid: u32, now: i64) -> (s: Self)
        requires
            store.wf(),
        ensures
            s.store.wf(),
            s.uid == uid,
            s.gid == gid,
            s.store.dirty == store.dirty,
            ({
                let key = (root, ".metadata_never_index".spec_bytes());
                s.store@ == if store@.rows.contains_key(key) {
                    store@
                } else {
                    store@.put(key, no_index_row(now))
                }
            }),
    {
        let mut store = store;
        let name = ".metadata_never_index".as_bytes();
        if !store.has_row(root, name) {
            let row = Row {
                kind: 0u8,
                mode: 0o444u16,
                mtime_sec: now,
                version: 1u64,
                data: Vec::new(),
            };
            proof {
                assert(row@.data =~= no_index_row(now).data);
            }
            store.put(root, name, row);
        }
        SideStoreSurface { store, uid, gid }
    }

    fn has_entries(&self, dir: NodeKey) -> (r: bool)
        requires
            self.store.wf(),
        ensures
            r == has_child(self.store@, dir),
    {
        let mut i: usize = 0;
        while i < self.store.rows.rows.len()
            invariant
                self.store.wf(),
                i <= self.store.rows.rows@.len(),
                forall|j: int| 0 <= j < i ==> (#[trigger] self.store.rows.rows@[j]).0.0 != dir,
            decreases self.store.rows.rows@.len() - i,
        {
            if self.store.rows.rows[i].0.0 == dir {
                proof {
                    self.store.rows.row_in_map(i as int);
                    let key = self.store.rows.rows@[i as int].0;
                    assert(self.store@.rows.contains_key((key.0, key.1@)));
                }
                return true;
            }
            i = i + 1;
        }
        proof {
            if has_child(self.store@, dir) {
                let k = choose|k: (NodeKey, Seq<u8>)| #[trigger]
                    self.store@.rows.contains_key(k) && k.0 == dir;
                assert(self.store.rows.has_row(k));
                let r = self.store.rows.row_of(k);
                assert(self.store.rows.rows@[r].0.0 == dir);
            }
        }
        false
    }

    /// Answer an operation that leaves the store as it is.
    fn serve_read(&self, ask: &Ask) -> (answer: Answer)
        requires
            self.store.wf(),
            only_reads(ask@),
        ensures
            read_answer(self.store@, ask@, self.uid, self.gid, answer),
    {
        match ask {
            Ask::Getattr(node) => Answer::Attr(self.store.row_attr(*node, self.uid, self.gid)),
            Ask::Lookup { dir, name } => match self.store.row(*dir, name.as_slice()) {
                Some(row) => Answer::Entry(
                    Ok((synth_key(*dir, name.as_slice()), attr_for(row, self.uid, self.gid))),
                ),
                None => Answer::Entry(Err(NfsError::NoEnt)),
            },
            Ask::Readdir { dir, cookie, max_entries, want_attrs } => Answer::Page(
                Ok(
                    self.store.readdir(
                        *dir,
                        *cookie,
                        *max_entries,
                        *want_attrs,
                        self.uid,
                        self.gid,
                    ),
                ),
            ),
            Ask::Readlink(_) => Answer::Target(Err(NfsError::NotSymlink)),
            Ask::Parent(_) => Answer::Parent(Err(NfsError::NoEnt)),
            Ask::ReadSendable { .. } => Answer::Range(None),
            Ask::Read { node, offset, count } => match self.store.row_at(*node) {
                Some(row) => Answer::Data(Ok(read_row(row, *offset, *count))),
                None => Answer::Data(Err(NfsError::Stale)),
            },
            Ask::Commit { node, .. } => Answer::Attr(
                self.store.row_attr(*node, self.uid, self.gid),
            ),
            _ => Answer::Done(Err(NfsError::Io)),
        }
    }

    fn create(
        &mut self,
        dir: NodeKey,
        name: &[u8],
        kind: &CreateKind,
        mode: u16,
        now: i64,
    ) -> (r: NfsResult<NodeKey>)
        requires
            old(self).store.wf(),
        ensures
            final(self).store.wf(),
            (r, final(self).store@) == create_of(old(self).store@, dir, name@, kind@, mode, now),
            final(self).store.dirty == (old(self).store.dirty || r is Ok),
            final(self).uid == old(self).uid,
            final(self).gid == old(self).gid,
    {
        let there = self.store.has_row(dir, name);
        let row_kind: u8 = match kind {
            CreateKind::File { exclusive } => {
                if *exclusive && there {
                    return Err(NfsError::Exist);
                }
                0
            },
            CreateKind::Dir => 1,
            _ => {
                return Err(NfsError::Access);
            },
        };
        let row = match self.store.row(dir, name) {
            Some(was) => Row {
                kind: row_kind,
                mode: was.mode,
                mtime_sec: now,
                version: bump(was.version),
                data: to_vec(was.data.as_slice()),
            },
            None => Row { kind: row_kind, mode, mtime_sec: now, version: 1, data: Vec::new() },
        };
        proof {
            let c = created_row(old(self).store@, (dir, name@), row_kind, mode, now);
            assert(row@.data =~= c.data);
            assert(row@ == c);
        }
        self.store.put(dir, name, row);
        self.store.dirty = true;
        Ok(synth_key(dir, name))
    }

    /// The answer to a create whose row was made: the rows that the sweep finds orphaned go, and
    /// the new row may be among them.
    pub fn created(&mut self, node: NodeKey, fates: &Vec<Fate>, now: i64) -> (answer: Answer)
        requires
            old(self).store.wf(),
            fates@.len() == old(self).store.rows.rows@.len(),
        ensures
            final(self).store.wf(),
            final(self).store@ == sweep_of(
                old(self).store@,
                |k: (NodeKey, Seq<u8>)| old(self).store.fate_at(fates@, k),
                now,
            ),
            final(self).uid == old(self).uid,
            final(self).gid == old(self).gid,
            answer == Answer::Entry(
                match final(self).store@.attr_at(node, old(self).uid, old(self).gid) {
                    Ok(a) => Ok((node, a)),
                    Err(e) => Err(e),
                },
            ),
    {
        self.store.gc_sweep(fates, now);
        match self.store.row_attr(node, self.uid, self.gid) {
            Ok(a) => Answer::Entry(Ok((node, a))),
            Err(e) => Answer::Entry(Err(e)),
        }
    }

    fn remove(&mut self, dir: NodeKey, name: &[u8], is_dir: bool) -> (r: NfsResult<()>)
        requires
            old(self).store.wf(),
        ensures
            final(self).store.wf(),
            (r, final(self).store@) == remove_of(old(self).store@, dir, name@, is_dir),
            final(self).store.dirty == (old(self).store.dirty || r is Ok),
            final(self).uid == old(self).uid,
            final(self).gid == old(self).gid,
    {
        let kind = match self.store.row(dir, name) {
            Some(row) => row.kind(),
            None => {
                return Err(NfsError::NoEnt);
            },
        };
        if is_dir {
            if kind != Kind::Dir {
                return Err(NfsError::NotDir);
            }
            let me = synth_key(dir, name);
            if self.has_entries(me) {
                return Err(NfsError::NotEmpty);
            }
        }
        let _row = self.store.drop_row(dir, name);
        self.store.dirty = true;
        Ok(())
    }

    /// The tree removed a real file: its AppleDouble row goes with it.
    pub fn removed(&mut self, dir: NodeKey, name: &[u8])
        requires
            old(self).store.wf(),
        ensures
            final(self).store.wf(),
            ({
                let key = (dir, companion_of(name@));
                if !side_name(name@) && old(self).store@.rows.contains_key(key) {
                    final(self).store@ == old(self).store@.dropped(key) && final(self).store.dirty
                } else {
                    final(self).store@ == old(self).store@ && final(self).store.dirty
                        == old(self).store.dirty
                }
            }),
            final(self).uid == old(self).uid,
            final(self).gid == old(self).gid,
    {
        if !is_side_name(name) {
            let c = companion(name);
            if self.store.drop_row(dir, c.as_slice()).is_some() {
                self.store.dirty = true;
            }
        }
    }

    fn rename(
        &mut self,
        from_dir: NodeKey,
        from_name: &[u8],
        to_dir: NodeKey,
        to_name: &[u8],
        is_real: bool,
        is_real_to: bool,
    ) -> (r: NfsResult<()>)
        requires
            old(self).store.wf(),
        ensures
            final(self).store.wf(),
            (r, final(self).store@) == rename_of(
                old(self).store@,
                (from_dir, from_name@),
                (to_dir, to_name@),
                is_real,
                is_real_to,
            ),
            final(self).store.dirty == (old(self).store.dirty || r is Ok),
            final(self).uid == old(self).uid,
            final(self).gid == old(self).gid,
    {
        let from_side = owns(from_dir, from_name, is_real);
        let to_side = owns(to_dir, to_name, is_real_to);
        if from_side != to_side {
            return Err(NfsError::Access);
        }
        match self.store.drop_row(from_dir, from_name) {
            Some(row) => {
                self.store.put(to_dir, to_name, row);
                self.store.dirty = true;
                Ok(())
            },
            None => Err(NfsError::NoEnt),
        }
    }

    fn setattr(&mut self, node: NodeKey, set: &SetAttr, now: i64) -> (e: Option<NfsError>)
        requires
            old(self).store.wf(),
        ensures
            final(self).store.wf(),
            (e, final(self).store@) == setattr_of(old(self).store@, node, *set, now),
            final(self).store.dirty == (old(self).store.dirty || e is None),
            final(self).uid == old(self).uid,
            final(self).gid == old(self).gid,
    {
        let ghost before = self.store;
        let (key, mut row) = match self.store.take_at(node) {
            Some(kr) => kr,
            None => {
                return Some(NfsError::Stale);
            },
        };
        let ghost was = row@;
        if let Some(m) = set.mode {
            row.mode = m;
        }
        if let Some(sz) = set.size {
            if sz > MAX_ROW as u64 {
                self.store.put_back(node, key, row, Ghost(before));
                return Some(NfsError::NoSpace);
            }
            row.data.resize(sz as usize, 0);
            proof {
                assert(row.data@ =~= resized(was.data, sz as nat));
            }
        }
        if let Some(t) = set.mtime {
            row.mtime_sec = t.sec;
        } else if set.size.is_some() {
            row.mtime_sec = now;
        }
        row.version = bump(row.version);
        self.store.put_back(node, key, row, Ghost(before));
        self.store.dirty = true;
        None
    }

    fn write(&mut self, node: NodeKey, offset: u64, data: &[u8], now: i64) -> (e: Option<NfsError>)
        requires
            old(self).store.wf(),
        ensures
            final(self).store.wf(),
            final(self).uid == old(self).uid,
            final(self).gid == old(self).gid,
            final(self).store.dirty == (old(self).store.dirty || e is None),
            match old(self).store@.at(node) {
                None => e == Some(NfsError::Stale) && final(self).store@ == old(self).store@,
                Some(row) => if offset + data@.len() > MAX_ROW {
                    e == Some(NfsError::NoSpace) && final(self).store@ == old(self).store@
                } else {
                    &&& e is None
                    &&& replaced_and_trimmed(
                        old(self).store,
                        final(self).store,
                        node,
                        written_row(row, offset, data@, now),
                    )
                },
            },
    {
        if self.store.row_at(node).is_none() {
            return Some(NfsError::Stale);
        }
        if data.len() > MAX_ROW || offset > (MAX_ROW - data.len()) as u64 {
            return Some(NfsError::NoSpace);
        }
        let ghost before = self.store;
        let (key, mut row) = match self.store.take_at(node) {
            Some(kr) => kr,
            None => {
                return Some(NfsError::Stale);
            },
        };
        let ghost was = row@;
        let at: usize = offset as usize;
        let end: usize = at + data.len();
        if row.data.len() < end {
            row.data.resize(end, 0);
        }
        let ghost padded = row.data@;
        proof {
            assert forall|j: int| 0 <= j < padded.len() implies padded[j] == (if j
                < was.data.len() {
                was.data[j]
            } else {
                0u8
            }) by {}
        }
        let mut i: usize = 0;
        while i < data.len()
            invariant
                i <= data@.len(),
                at + data@.len() == end,
                end <= row.data@.len(),
                row.data@.len() == padded.len(),
                row.mode == was.mode,
                row.kind == was.kind,
                row.version == was.version,
                forall|j: int| 0 <= j < i ==> row.data@[at + j] == data@[j],
                forall|j: int|
                    0 <= j < row.data@.len() && !(at <= j < at + i) ==> row.data@[j] == padded[j],
            decreases data@.len() - i,
        {
            row.data.set(at + i, data[i]);
            i = i + 1;
        }
        row.mtime_sec = now;
        row.version = bump(row.version);
        proof {
            let new = overlaid(was.data, offset as nat, data@);
            assert forall|j: int| 0 <= j < row.data@.len() implies row.data@[j] == new[j] by {
                if at <= j < end {
                    assert(row.data@[at + (j - at)] == data@[j - at]);
                } else {
                    assert(row.data@[j] == padded[j]);
                }
            }
            assert(row.data@ =~= new);
            assert(row@ == written_row(was, offset, data@, now));
        }
        self.store.put_back(node, key, row, Ghost(before));
        let ghost mid = self.store;
        self.store.evict();
        self.store.dirty = true;
        proof {
            assert(mid.wf());
            assert(oldest_out(mid, self.store));
            assert(replaced_and_trimmed(before, self.store, node, row@));
        }
        None
    }

    /// What the side store does with an operation. `is_real` and `is_real_to` say whether the tree has
    /// a real entry of the operation's name, and of a rename's new name; they matter where
    /// `is_unsettled` says so.
    pub fn serve(&mut self, ask: &Ask, is_real: bool, is_real_to: bool, now: i64) -> (out: Served)
        requires
            old(self).store.wf(),
        ensures
            final(self).store.wf(),
            final(self).uid == old(self).uid,
            final(self).gid == old(self).gid,
            served(*old(self), *final(self), ask@, is_real, is_real_to, now, out),
    {
        if does_pass(ask, is_real, is_real_to) {
            return Served::Pass;
        }
        match ask {
            Ask::Create { dir, name, kind, mode } => {
                match self.create(*dir, name.as_slice(), kind, *mode, now) {
                    Ok(node) => Served::Created { node, dir: *dir },
                    Err(e) => Served::Reply(Answer::Entry(Err(e))),
                }
            },
            Ask::Remove { dir, name, is_dir } => {
                match self.remove(*dir, name.as_slice(), *is_dir) {
                    Ok(_) => Served::Touched { answer: Answer::Done(Ok(())), dir: *dir },
                    Err(e) => Served::Reply(Answer::Done(Err(e))),
                }
            },
            Ask::Rename { from_dir, from_name, to_dir, to_name } => {
                let r = self.rename(
                    *from_dir,
                    from_name.as_slice(),
                    *to_dir,
                    to_name.as_slice(),
                    is_real,
                    is_real_to,
                );
                Served::Reply(Answer::Done(r))
            },
            Ask::Setattr { node, set } => {
                match self.setattr(*node, set, now) {
                    Some(e) => Served::Reply(Answer::Attr(Err(e))),
                    None => Served::Reply(
                        Answer::Attr(self.store.row_attr(*node, self.uid, self.gid)),
                    ),
                }
            },
            Ask::Write { node, offset, data, .. } => {
                match self.write(*node, *offset, data.as_slice(), now) {
                    Some(e) => Served::Reply(Answer::Attr(Err(e))),
                    None => Served::Reply(
                        Answer::Attr(self.store.row_attr(*node, self.uid, self.gid)),
                    ),
                }
            },
            _ => Served::Reply(self.serve_read(ask)),
        }
    }
}

/// A read of a row.
pub fn read_row(row: &Row, offset: u64, count: u32) -> (r: ReadResult)
    ensures
        (r.data@, r.eof) == read_of(row.data@, offset, count),
{
    let n: usize = row.data.len();
    let s: usize = if offset < n as u64 {
        offset as usize
    } else {
        n
    };
    let e: usize = if (n - s) as u64 > count as u64 {
        s + count as usize
    } else {
        n
    };
    let data = to_vec(vstd::slice::slice_subrange(row.data.as_slice(), s, e));
    ReadResult { data, eof: e >= n }
}

} // verus!
