//! Names of the side store, and its rows.
use crate::bytes::{has_prefix, le_bytes, le_u64, le_value, put_le, same_bytes, starts_with, to_vec};
use crate::digest::{blake3_hash, hash};
use crate::surface::{NfsError, NfsResult};
use crate::table::KeyTable;
use crate::types::{Attr, Kind, NodeKey, Ts};
use vstd::prelude::*;
use vstd::string::StringSliceAdditionalSpecFns;

verus! {

/// Inode numbers from here on are the side store's: those of real files are far below.
pub const SIDE_INO_BIT: u64 = 0x8000_0000_0000_0000;

/// The generation of every node of the side store.
pub const SIDE_GEN: u32 = u32::MAX;

/// Most bytes in one row.
pub const MAX_ROW: usize = 1_048_576;

/// Whether this is a name that the side store owns where the guest has no such entry.
pub open spec fn side_name(name: Seq<u8>) -> bool {
    ||| name == ".DS_Store".spec_bytes()
    ||| starts_with(name, "._".spec_bytes())
    ||| name == ".fseventsd".spec_bytes()
    ||| name == ".Spotlight-V100".spec_bytes()
    ||| name == ".Trashes".spec_bytes()
    ||| name == ".TemporaryItems".spec_bytes()
    ||| name == ".metadata_never_index".spec_bytes()
    ||| name == ".hidden".spec_bytes()
}

/// Is this a name the side store owns (when no real guest entry exists)?
pub fn is_side_name(name: &[u8]) -> (r: bool)
    ensures
        r == side_name(name@),
{
    same_bytes(name, ".DS_Store".as_bytes()) || has_prefix(name, "._".as_bytes()) || same_bytes(
        name,
        ".fseventsd".as_bytes(),
    ) || same_bytes(name, ".Spotlight-V100".as_bytes()) || same_bytes(name, ".Trashes".as_bytes())
        || same_bytes(name, ".TemporaryItems".as_bytes()) || same_bytes(
        name,
        ".metadata_never_index".as_bytes(),
    ) || same_bytes(name, ".hidden".as_bytes())
}

/// Whether this is a node of the side store.
pub open spec fn side_node(node: NodeKey) -> bool {
    node.ino >= SIDE_INO_BIT
}

pub fn is_side_node(node: NodeKey) -> (r: bool)
    ensures
        r == side_node(node),
{
    node.ino >= SIDE_INO_BIT
}

/// What names a row: the directory that it is in and its name there.
pub type RowKey = (NodeKey, Vec<u8>);

/// What the digest of a row's name is taken over.
pub open spec fn name_bytes(key: (NodeKey, Seq<u8>)) -> Seq<u8> {
    le_bytes(key.0.ino as nat, 8) + le_bytes(key.0.generation as nat, 4) + key.1
}

/// The node of a row: the upper sixty-three bits of its name's digest.
pub open spec fn synth_of(key: (NodeKey, Seq<u8>)) -> NodeKey {
    NodeKey {
        ino: (SIDE_INO_BIT + le_value(blake3_hash(name_bytes(key)).take(8)) / 2 % (SIDE_INO_BIT as nat)) as u64,
        generation: SIDE_GEN,
    }
}

pub fn synth_key(parent: NodeKey, name: &[u8]) -> (node: NodeKey)
    ensures
        node == synth_of((parent, name@)),
        side_node(node),
{
    let mut b: Vec<u8> = Vec::new();
    put_le(&mut b, parent.ino, 8);
    put_le(&mut b, parent.generation as u64, 4);
    b.extend_from_slice(name);
    proof {
        assert(b@ =~= name_bytes((parent, name@)));
    }
    let d = hash(b.as_slice());
    let v = le_u64(d.as_slice());
    NodeKey { ino: SIDE_INO_BIT + v / 2, generation: SIDE_GEN }
}

/// One file or directory of the side store.
#[derive(Debug)]
pub struct Row<D = Vec<u8>> {
    /// 1 is a directory, anything else a file.
    pub kind: u8,
    pub mode: u16,
    pub mtime_sec: i64,
    pub version: u64,
    pub data: D,
}

impl<D> Row<D> {
    pub open spec fn kind_of(&self) -> Kind {
        if self.kind == 1 {
            Kind::Dir
        } else {
            Kind::Reg
        }
    }

    pub fn kind(&self) -> (k: Kind)
        ensures
            k == self.kind_of(),
    {
        if self.kind == 1 {
            Kind::Dir
        } else {
            Kind::Reg
        }
    }
}

impl Row<Vec<u8>> {
    pub open spec fn view(&self) -> Row<Seq<u8>> {
        Row {
            kind: self.kind,
            mode: self.mode,
            mtime_sec: self.mtime_sec,
            version: self.version,
            data: self.data@,
        }
    }
}

/// The attributes of a row, which belong to the user that runs the host side.
pub open spec fn attr_of(row: Row<Seq<u8>>, uid: u32, gid: u32) -> Attr {
    let t = Ts { sec: row.mtime_sec, nsec: 0 };
    Attr {
        kind: row.kind_of(),
        mode: row.mode,
        nlink: 1,
        uid,
        gid,
        size: row.data.len() as u64,
        blocks: ((row.data.len() + 511) / 512) as u64,
        mtime: t,
        ctime: t,
        rdev: 0,
        content_version: row.version,
    }
}

pub fn attr_for(row: &Row, uid: u32, gid: u32) -> (a: Attr)
    ensures
        a == attr_of(row@, uid, gid),
{
    let t = Ts { sec: row.mtime_sec, nsec: 0 };
    let n: u64 = row.data.len() as u64;
    Attr {
        kind: row.kind(),
        mode: row.mode,
        nlink: 1,
        uid,
        gid,
        size: n,
        blocks: if n % 512 == 0 {
            n / 512
        } else {
            n / 512 + 1
        },
        mtime: t,
        ctime: t,
        rdev: 0,
        content_version: row.version,
    }
}

/// What the side store holds: its rows by directory and name, and the row that each node stands
/// for.
pub ghost struct Side {
    pub rows: Map<(NodeKey, Seq<u8>), Row<Seq<u8>>>,
    pub by_node: Map<NodeKey, (NodeKey, Seq<u8>)>,
}

impl Side {
    pub open spec fn empty() -> Side {
        Side { rows: Map::empty(), by_node: Map::empty() }
    }

    /// A node stands for a row that is there, and that names the node.
    pub open spec fn linked(self) -> bool {
        forall|node: NodeKey| #[trigger]
            self.by_node.contains_key(node) ==> synth_of(self.by_node[node]) == node
                && self.rows.contains_key(self.by_node[node])
    }

    pub open spec fn put(self, key: (NodeKey, Seq<u8>), row: Row<Seq<u8>>) -> Side {
        Side {
            rows: self.rows.insert(key, row),
            by_node: self.by_node.insert(synth_of(key), key),
        }
    }

    pub open spec fn dropped(self, key: (NodeKey, Seq<u8>)) -> Side {
        Side { rows: self.rows.remove(key), by_node: self.by_node.remove(synth_of(key)) }
    }

    /// The row that a node stands for.
    pub open spec fn at(self, node: NodeKey) -> Option<Row<Seq<u8>>> {
        if self.by_node.contains_key(node) && self.rows.contains_key(self.by_node[node]) {
            Some(self.rows[self.by_node[node]])
        } else {
            None
        }
    }

    /// The store with another row in the place of the one that a node stands for.
    pub open spec fn with(self, node: NodeKey, row: Row<Seq<u8>>) -> Side {
        Side { rows: self.rows.insert(self.by_node[node], row), by_node: self.by_node }
    }

    /// What `getattr` says of a node of the side store: a node that stands for nothing is stale.
    pub open spec fn attr_at(self, node: NodeKey, uid: u32, gid: u32) -> NfsResult<Attr> {
        match self.at(node) {
            Some(row) => Ok(attr_of(row, uid, gid)),
            None => Err(NfsError::Stale),
        }
    }
}

/// Rows and nodes stay linked whatever is put, dropped or changed in place.
pub proof fn links_are_kept(s: Side, key: (NodeKey, Seq<u8>), node: NodeKey, row: Row<Seq<u8>>)
    requires
        s.linked(),
    ensures
        Side::empty().linked(),
        s.put(key, row).linked(),
        s.dropped(key).linked(),
        s.with(node, row).linked(),
{
}

/// No two rows of the store have the same node.
pub open spec fn nodes_are_distinct(s: Side) -> bool {
    forall|a: (NodeKey, Seq<u8>), b: (NodeKey, Seq<u8>)|
        #![trigger s.rows.contains_key(a), s.rows.contains_key(b)]
        s.rows.contains_key(a) && s.rows.contains_key(b) && synth_of(a) == synth_of(b) ==> a == b
}

/// Every row is found by its node.
pub open spec fn rows_are_reached(s: Side) -> bool {
    forall|a: (NodeKey, Seq<u8>)| #[trigger]
        s.rows.contains_key(a) ==> s.by_node.contains_key(synth_of(a)) && s.by_node[synth_of(a)]
            == a
}

/// Where no two rows have the same node, every row is found by its node, and stays so.
pub proof fn rows_stay_reached(s: Side, key: (NodeKey, Seq<u8>), row: Row<Seq<u8>>)
    requires
        rows_are_reached(s),
    ensures
        nodes_are_distinct(s.put(key, row)) ==> rows_are_reached(s.put(key, row)),
        s.rows.contains_key(key) ==> rows_are_reached(s.dropped(key)),
{
    let p = s.put(key, row);
    if nodes_are_distinct(p) {
        assert forall|a: (NodeKey, Seq<u8>)| #[trigger] p.rows.contains_key(a) implies p.by_node.contains_key(
            synth_of(a),
        ) && p.by_node[synth_of(a)] == a by {
            assert(p.rows.contains_key(key));
            if a != key {
                assert(s.rows.contains_key(a));
            }
        }
    }
    let d = s.dropped(key);
    if s.rows.contains_key(key) {
        assert forall|a: (NodeKey, Seq<u8>)| #[trigger] d.rows.contains_key(a) implies d.by_node.contains_key(
            synth_of(a),
        ) && d.by_node[synth_of(a)] == a by {
            assert(s.rows.contains_key(a));
        }
    }
}

/// The rows of one exported tree.
#[derive(Debug)]
pub struct SideStore {
    pub rows: KeyTable<RowKey, Row>,
    pub by_node: KeyTable<NodeKey, RowKey>,
    /// Whether something changed since the rows were last written out.
    pub dirty: bool,
}

impl SideStore {
    pub open spec fn view(&self) -> Side {
        Side {
            rows: self.rows@.map_values(|r: Row| r@),
            by_node: self.by_node@.map_values(|k: RowKey| (k.0, k.1@)),
        }
    }

    pub open spec fn wf(&self) -> bool {
        self.rows.wf() && self.by_node.wf()
    }

    /// A store without rows.
    pub fn new() -> (s: Self)
        ensures
            s.wf(),
            s@ == Side::empty(),
            !s.dirty,
    {
        let s = SideStore { rows: KeyTable::new(), by_node: KeyTable::new(), dirty: false };
        proof {
            assert(s@.rows =~= Side::empty().rows);
            assert(s@.by_node =~= Side::empty().by_node);
        }
        s
    }

    pub fn has_row(&self, dir: NodeKey, name: &[u8]) -> (r: bool)
        requires
            self.wf(),
        ensures
            r == self@.rows.contains_key((dir, name@)),
    {
        self.rows.contains(&(dir, to_vec(name)))
    }

    /// The row of a name.
    pub fn row(&self, dir: NodeKey, name: &[u8]) -> (r: Option<&Row>)
        requires
            self.wf(),
        ensures
            match r {
                Some(row) => self@.rows.contains_key((dir, name@)) && self@.rows[(dir, name@)]
                    == row@,
                None => !self@.rows.contains_key((dir, name@)),
            },
    {
        self.rows.get(&(dir, to_vec(name)))
    }

    /// The row that a node stands for.
    pub fn row_at(&self, node: NodeKey) -> (r: Option<&Row>)
        requires
            self.wf(),
        ensures
            match r {
                Some(row) => self@.at(node) == Some(row@),
                None => self@.at(node) is None,
            },
    {
        match self.by_node.get(&node) {
            Some(key) => {
                proof {
                    assert(self@.by_node.contains_key(node));
                }
                self.rows.get(key)
            },
            None => None,
        }
    }

    pub fn row_attr(&self, node: NodeKey, uid: u32, gid: u32) -> (r: NfsResult<Attr>)
        requires
            self.wf(),
        ensures
            r == self@.attr_at(node, uid, gid),
    {
        match self.row_at(node) {
            Some(row) => Ok(attr_for(row, uid, gid)),
            None => Err(NfsError::Stale),
        }
    }

    /// Set the row of a name.
    pub fn put(&mut self, dir: NodeKey, name: &[u8], row: Row)
        requires
            old(self).wf(),
        ensures
            final(self).wf(),
            final(self)@ == old(self)@.put((dir, name@), row@),
            final(self).dirty == old(self).dirty,
    {
        let node = synth_key(dir, name);
        let _was = self.by_node.insert(node, (dir, to_vec(name)));
        let _old = self.rows.insert((dir, to_vec(name)), row);
        proof {
            let p = old(self)@.put((dir, name@), row@);
            assert(self@.rows =~= p.rows);
            assert(self@.by_node =~= p.by_node);
        }
    }

    /// Drop the row of a name, if there is one.
    pub fn drop_row(&mut self, dir: NodeKey, name: &[u8]) -> (row: Option<Row>)
        requires
            old(self).wf(),
        ensures
            final(self).wf(),
            match row {
                Some(row) => {
                    &&& old(self)@.rows.contains_key((dir, name@))
                    &&& old(self)@.rows[(dir, name@)] == row@
                    &&& final(self)@ == old(self)@.dropped((dir, name@))
                },
                None => !old(self)@.rows.contains_key((dir, name@)) && final(self)@ == old(self)@,
            },
            final(self).dirty == old(self).dirty,
    {
        let row = self.rows.remove(&(dir, to_vec(name)));
        if row.is_none() {
            return None;
        }
        let node = synth_key(dir, name);
        let _was = self.by_node.remove(&node);
        proof {
            let d = old(self)@.dropped((dir, name@));
            assert(self@.rows =~= d.rows);
            assert(self@.by_node =~= d.by_node);
        }
        row
    }

    /// Take out the row that a node stands for, to be changed and put back with `put_back`.
    pub(crate) fn take_at(&mut self, node: NodeKey) -> (r: Option<(RowKey, Row)>)
        requires
            old(self).wf(),
        ensures
            match r {
                Some((key, row)) => {
                    &&& old(self)@.at(node) == Some(row@)
                    &&& old(self)@.by_node[node] == (key.0, key.1@)
                    &&& final(self).rows.wf()
                    &&& final(self).rows@ == old(self).rows@.remove((key.0, key.1@))
                    &&& final(self).by_node == old(self).by_node
                    &&& final(self).dirty == old(self).dirty
                },
                None => old(self)@.at(node) is None && *final(self) == *old(self),
            },
    {
        let i = match self.by_node.find(&node) {
            Some(i) => i,
            None => {
                return None;
            },
        };
        let j = match self.rows.find(&self.by_node.rows[i].1) {
            Some(j) => j,
            None => {
                return None;
            },
        };
        proof {
            assert(self@.by_node.contains_key(node));
        }
        Some(self.rows.remove_at(j))
    }

    /// Put back what `take_at` took from `before`.
    pub(crate) fn put_back(&mut self, node: NodeKey, key: RowKey, row: Row, Ghost(before): Ghost<SideStore>)
        requires
            before.wf(),
            before@.at(node) is Some,
            before@.by_node[node] == (key.0, key.1@),
            old(self).rows.wf(),
            old(self).rows@ == before.rows@.remove((key.0, key.1@)),
            old(self).by_node == before.by_node,
        ensures
            final(self).wf(),
            final(self)@ == before@.with(node, row@),
            final(self).dirty == old(self).dirty,
    {
        let ghost id = (key.0, key.1@);
        let _was = self.rows.insert(key, row);
        proof {
            assert(self@.rows =~= before@.rows.insert(id, row@));
            assert(self@.by_node =~= before@.by_node);
        }
    }
}

} // verus!
