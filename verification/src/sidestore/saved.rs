//! The side store on disk.
use crate::bytes::to_vec;
use crate::sidestore::rows::{Row, Side, SideStore};
use crate::table::Key;
use crate::types::NodeKey;
use vstd::prelude::*;

verus! {

/// A row as it is stored: inode and generation of the directory, name, and the row's fields.
pub type SavedRow = ((u64, u32), Vec<u8>, (u8, u16, i64, u64, Vec<u8>));

/// A stored row, by value.
pub type SavedView = ((u64, u32), Seq<u8>, (u8, u16, i64, u64, Seq<u8>));

pub open spec fn saved_view(rows: Seq<SavedRow>) -> Seq<SavedView> {
    Seq::new(
        rows.len(),
        |i: int|
            (
                rows[i].0,
                rows[i].1@,
                (rows[i].2.0, rows[i].2.1, rows[i].2.2, rows[i].2.3, rows[i].2.4@),
            ),
    )
}

/// The stored form of a list of rows.
pub uninterp spec fn side_bytes(rows: Seq<((u64, u32), Seq<u8>, (u8, u16, i64, u64, Seq<u8>))>) -> Seq<u8>;

/// The list of rows that stored bytes hold, if they hold one.
pub uninterp spec fn side_rows(bytes: Seq<u8>) -> Option<Seq<((u64, u32), Seq<u8>, (u8, u16, i64, u64, Seq<u8>))>>;

/// Calls `postcard::to_allocvec` on a list of rows. The bytes are a function of the list, named
/// [`side_bytes`], and `postcard::from_bytes` reads the list back from them. Encoding a list of
/// known length into a growing vector does not fail.
#[verifier::external_body]
fn encode_side(rows: &Vec<SavedRow>) -> (bytes: Vec<u8>)
    ensures
        bytes@ == side_bytes(saved_view(rows@)),
        side_rows(bytes@) == Some(saved_view(rows@)),
{
    postcard::to_allocvec(rows).expect("a list of known length encodes")
}

/// Calls `postcard::from_bytes` for a list of rows. What it gives is a function of the bytes,
/// named [`side_rows`]; bytes that it refuses give none.
#[verifier::external_body]
fn decode_side(bytes: &[u8]) -> (rows: Option<Vec<SavedRow>>)
    ensures
        match rows {
            Some(rows) => side_rows(bytes@) == Some(saved_view(rows@)),
            None => side_rows(bytes@) is None,
        },
{
    postcard::from_bytes(bytes).ok()
}

pub open spec fn saved_key(r: SavedView) -> (NodeKey, Seq<u8>) {
    (NodeKey { ino: r.0.0, generation: r.0.1 }, r.1)
}

pub open spec fn saved_value(r: SavedView) -> Row<Seq<u8>> {
    Row { kind: r.2.0, mode: r.2.1, mtime_sec: r.2.2, version: r.2.3, data: r.2.4 }
}

/// The store that a list of rows makes: a later row of the same name wins.
pub open spec fn loaded(rows: Seq<SavedView>) -> Side
    decreases rows.len(),
{
    if rows.len() == 0 {
        Side::empty()
    } else {
        loaded(rows.drop_last()).put(saved_key(rows.last()), saved_value(rows.last()))
    }
}

/// A list that holds each row of a store once, under its own name.
pub open spec fn lists(rows: Seq<SavedView>, side: Side) -> bool {
    &&& forall|i: int, j: int|
        0 <= i < j < rows.len() ==> saved_key(#[trigger] rows[i]) != saved_key(#[trigger] rows[j])
    &&& forall|i: int|
        0 <= i < rows.len() ==> side.rows.contains_key(saved_key(#[trigger] rows[i]))
            && side.rows[saved_key(rows[i])] == saved_value(rows[i])
    &&& forall|k: (NodeKey, Seq<u8>)| #[trigger] side.rows.contains_key(k) ==> row_listed(rows, k)
}

pub open spec fn row_listed(rows: Seq<SavedView>, k: (NodeKey, Seq<u8>)) -> bool {
    exists|i: int| 0 <= i < rows.len() && saved_key(#[trigger] rows[i]) == k
}

/// The store that a list of rows makes.
pub fn load(rows: &Vec<SavedRow>) -> (s: SideStore)
    ensures
        s.wf(),
        s@ == loaded(saved_view(rows@)),
        !s.dirty,
{
    let ghost all = saved_view(rows@);
    let mut s = SideStore::new();
    let mut i: usize = 0;
    proof {
        assert(all.take(0) =~= Seq::empty());
    }
    while i < rows.len()
        invariant
            i <= rows@.len(),
            all == saved_view(rows@),
            s.wf(),
            s@ == loaded(all.take(i as int)),
            !s.dirty,
        decreases rows@.len() - i,
    {
        let r = &rows[i];
        let dir = NodeKey { ino: r.0.0, generation: r.0.1 };
        let row = Row {
            kind: r.2.0,
            mode: r.2.1,
            mtime_sec: r.2.2,
            version: r.2.3,
            data: to_vec(r.2.4.as_slice()),
        };
        proof {
            assert(row@ == saved_value(all[i as int]));
            assert(all.take(i + 1).drop_last() =~= all.take(i as int));
            assert(all.take(i + 1).last() == all[i as int]);
        }
        s.put(dir, r.1.as_slice(), row);
        i = i + 1;
    }
    proof {
        assert(all.take(i as int) =~= all);
    }
    s
}

impl SideStore {
    /// The store that a file holds; a file that is not there or cannot be read as rows makes an
    /// empty one.
    pub fn open(bytes: Option<&[u8]>) -> (s: SideStore)
        ensures
            s.wf(),
            !s.dirty,
            match bytes {
                Some(b) => match side_rows(b@) {
                    Some(rows) => s@ == loaded(rows),
                    None => s@ == Side::empty(),
                },
                None => s@ == Side::empty(),
            },
    {
        match bytes {
            Some(b) => match decode_side(b) {
                Some(rows) => load(&rows),
                None => SideStore::new(),
            },
            None => SideStore::new(),
        }
    }

    /// The rows as they are stored.
    pub fn saved(&self) -> (rows: Vec<SavedRow>)
        requires
            self.wf(),
        ensures
            lists(saved_view(rows@), self@),
    {
        let mut rows: Vec<SavedRow> = Vec::new();
        let mut i: usize = 0;
        while i < self.rows.rows.len()
            invariant
                self.wf(),
                i <= self.rows.rows@.len(),
                rows@.len() == i,
                forall|j: int|
                    0 <= j < i ==> saved_key(#[trigger] saved_view(rows@)[j])
                        == self.rows.rows@[j].0.id() && saved_value(saved_view(rows@)[j])
                        == self.rows.rows@[j].1@,
            decreases self.rows.rows@.len() - i,
        {
            let key = &self.rows.rows[i].0;
            let row = &self.rows.rows[i].1;
            let ghost was = rows@;
            rows.push(
                (
                    (key.0.ino, key.0.generation),
                    to_vec(key.1.as_slice()),
                    (row.kind, row.mode, row.mtime_sec, row.version, to_vec(row.data.as_slice())),
                ),
            );
            proof {
                assert forall|j: int| 0 <= j < i + 1 implies saved_key(
                    #[trigger] saved_view(rows@)[j],
                ) == self.rows.rows@[j].0.id() && saved_value(saved_view(rows@)[j])
                    == self.rows.rows@[j].1@ by {
                    if j < i {
                        assert(saved_view(rows@)[j] == saved_view(was)[j]);
                    }
                }
            }
            i = i + 1;
        }
        proof {
            let v = saved_view(rows@);
            assert forall|a: int, b: int| 0 <= a < b < v.len() implies saved_key(#[trigger] v[a])
                != saved_key(#[trigger] v[b]) by {
                assert(self.rows.rows@[a].0.id() != self.rows.rows@[b].0.id());
            }
            assert forall|a: int| 0 <= a < v.len() implies self@.rows.contains_key(
                saved_key(#[trigger] v[a]),
            ) && self@.rows[saved_key(v[a])] == saved_value(v[a]) by {
                self.rows.row_in_map(a);
            }
            assert forall|k: (NodeKey, Seq<u8>)| #[trigger] self@.rows.contains_key(k) implies row_listed(
                v,
                k,
            ) by {
                assert(self.rows.has_row(k));
                let r = self.rows.row_of(k);
                assert(self.rows.rows@[r].0.id() == k);
                assert(saved_key(v[r]) == k);
            }
        }
        rows
    }

    /// What to write to disk, if anything changed since the last time.
    pub fn flush_if_dirty(&mut self) -> (bytes: Option<Vec<u8>>)
        requires
            old(self).wf(),
        ensures
            final(self).wf(),
            final(self).rows == old(self).rows,
            final(self).by_node == old(self).by_node,
            !final(self).dirty,
            bytes is Some == old(self).dirty,
            match bytes {
                Some(b) => match side_rows(b@) {
                    Some(rows) => b@ == side_bytes(rows) && lists(rows, old(self)@),
                    None => false,
                },
                None => true,
            },
    {
        if !self.dirty {
            return None;
        }
        self.dirty = false;
        let rows = self.saved();
        Some(encode_side(&rows))
    }
}

/// What was written out is what is there after a restart: a store that is made from a list of its
/// rows has the same rows.
pub proof fn reopened_is_the_same(rows: Seq<SavedView>, side: Side)
    requires
        lists(rows, side),
    ensures
        loaded(rows).rows == side.rows,
{
    loaded_rows(rows);
    let l = loaded(rows);
    assert forall|k: (NodeKey, Seq<u8>)| side.rows.contains_key(k) == l.rows.contains_key(k) by {
        if side.rows.contains_key(k) {
            assert(row_listed(rows, k));
            let i = choose|i: int| 0 <= i < rows.len() && saved_key(#[trigger] rows[i]) == k;
            assert(l.rows.contains_key(saved_key(rows[i])));
        }
        if l.rows.contains_key(k) {
            let i = choose|i: int| 0 <= i < rows.len() && saved_key(#[trigger] rows[i]) == k;
            assert(side.rows.contains_key(saved_key(rows[i])));
        }
    }
    assert forall|k: (NodeKey, Seq<u8>)| side.rows.contains_key(k) implies side.rows[k] == l.rows[k] by {
        assert(row_listed(rows, k));
        let i = choose|i: int| 0 <= i < rows.len() && saved_key(#[trigger] rows[i]) == k;
        assert(l.rows[saved_key(rows[i])] == saved_value(rows[i]));
    }
    assert(l.rows =~= side.rows);
}

proof fn loaded_rows(rows: Seq<SavedView>)
    requires
        forall|i: int, j: int|
            0 <= i < j < rows.len() ==> saved_key(#[trigger] rows[i]) != saved_key(
                #[trigger] rows[j],
            ),
    ensures
        forall|i: int|
            0 <= i < rows.len() ==> loaded(rows).rows.contains_key(saved_key(#[trigger] rows[i]))
                && loaded(rows).rows[saved_key(rows[i])] == saved_value(rows[i]),
        forall|k: (NodeKey, Seq<u8>)| #[trigger]
            loaded(rows).rows.contains_key(k) ==> row_listed(rows, k),
    decreases rows.len(),
{
    if rows.len() > 0 {
        let p = rows.drop_last();
        let n = rows.len() - 1;
        assert forall|i: int, j: int| 0 <= i < j < p.len() implies saved_key(#[trigger] p[i])
            != saved_key(#[trigger] p[j]) by {
            assert(p[i] == rows[i] && p[j] == rows[j]);
        }
        loaded_rows(p);
        assert forall|i: int| 0 <= i < rows.len() implies loaded(rows).rows.contains_key(
            saved_key(#[trigger] rows[i]),
        ) && loaded(rows).rows[saved_key(rows[i])] == saved_value(rows[i]) by {
            if i < n {
                assert(p[i] == rows[i]);
                assert(saved_key(rows[i]) != saved_key(rows[n]));
            }
        }
        assert forall|k: (NodeKey, Seq<u8>)| #[trigger] loaded(rows).rows.contains_key(k) implies row_listed(
            rows,
            k,
        ) by {
            if k == saved_key(rows[n]) {
                assert(saved_key(rows[n]) == k);
            } else {
                assert(loaded(p).rows.contains_key(k));
                let i = choose|i: int| 0 <= i < p.len() && saved_key(#[trigger] p[i]) == k;
                assert(saved_key(rows[i]) == k);
            }
        }
    }
}

} // verus!
