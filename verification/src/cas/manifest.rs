//! Manifests: the chunk list of one version of a file, and its stored form.
use crate::sort::{ordered, sort_order, spans};
use crate::table::Key;
use vstd::prelude::*;

verus! {

/// Identifies one immutable version of a file's content.
#[derive(Debug, Clone, Copy, PartialEq, Eq, Hash, Structural)]
pub struct ManifestKey {
    pub share: u16,
    pub ino: u64,
    pub generation: u32,
    pub content_version: u64,
}

impl ManifestKey {
    pub fn tuple(&self) -> (t: (u16, u64, u32, u64))
        ensures
            t == (self.share, self.ino, self.generation, self.content_version),
    {
        (self.share, self.ino, self.generation, self.content_version)
    }

    /// The same file, whatever the version.
    pub open spec fn same_node(self, other: ManifestKey) -> bool {
        self.share == other.share && self.ino == other.ino && self.generation == other.generation
    }

    /// Another version of the same file.
    pub open spec fn stale_for(self, key: ManifestKey) -> bool {
        self.same_node(key) && self.content_version != key.content_version
    }

    pub fn is_stale_for(&self, key: &ManifestKey) -> (r: bool)
        ensures
            r == self.stale_for(*key),
    {
        self.share == key.share && self.ino == key.ino && self.generation == key.generation
            && self.content_version != key.content_version
    }
}

impl Key for ManifestKey {
    type Id = ManifestKey;

    open spec fn id(&self) -> ManifestKey {
        *self
    }

    fn same(&self, other: &Self) -> (r: bool) {
        *self == *other
    }
}

/// One chunk of a file: `len` bytes at `off`, stored as the blob `hash`.
#[derive(Debug, Clone, Copy, PartialEq, Eq)]
pub struct ChunkRef {
    pub off: u64,
    pub len: u32,
    pub hash: [u8; 32],
}

/// A chunk as a row: offset, length, digest.
pub type Row = (u64, u32, Seq<u8>);

impl ChunkRef {
    pub open spec fn view(&self) -> Row {
        (self.off, self.len, self.hash@)
    }
}

pub open spec fn refs_view(refs: Seq<ChunkRef>) -> Seq<Row> {
    Seq::new(refs.len(), |i: int| refs[i]@)
}

pub open spec fn tuples_view(rows: Seq<(u64, u32, [u8; 32])>) -> Seq<Row> {
    Seq::new(rows.len(), |i: int| (rows[i].0, rows[i].1, rows[i].2@))
}

/// The stored form of a chunk list.
pub uninterp spec fn manifest_bytes(rows: Seq<(u64, u32, Seq<u8>)>) -> Seq<u8>;

/// The chunk list that stored bytes hold, if they hold one.
pub uninterp spec fn manifest_rows(bytes: Seq<u8>) -> Option<Seq<(u64, u32, Seq<u8>)>>;

/// Calls `postcard::to_allocvec` on a list of offset, length and digest. The bytes are a function
/// of the list, named [`manifest_bytes`], and `postcard::from_bytes` reads the list back from
/// them. Encoding a list of known length into a growing vector does not fail.
#[verifier::external_body]
fn encode_rows(rows: &Vec<(u64, u32, [u8; 32])>) -> (bytes: Vec<u8>)
    ensures
        bytes@ == manifest_bytes(tuples_view(rows@)),
        manifest_rows(bytes@) == Some(tuples_view(rows@)),
{
    postcard::to_allocvec(rows).expect("a list of known length encodes")
}

/// Calls `postcard::from_bytes` for a list of offset, length and digest. What it gives is a
/// function of the bytes, named [`manifest_rows`]; bytes that it refuses give none.
#[verifier::external_body]
fn decode_rows(bytes: &[u8]) -> (rows: Option<Vec<(u64, u32, [u8; 32])>>)
    ensures
        match rows {
            Some(rows) => manifest_rows(bytes@) == Some(tuples_view(rows@)),
            None => manifest_rows(bytes@) is None,
        },
{
    postcard::from_bytes(bytes).ok()
}

/// The stored form of a chunk list.
pub fn encode_manifest(refs: &Vec<ChunkRef>) -> (bytes: Vec<u8>)
    ensures
        bytes@ == manifest_bytes(refs_view(refs@)),
        manifest_rows(bytes@) == Some(refs_view(refs@)),
{
    let mut rows: Vec<(u64, u32, [u8; 32])> = Vec::new();
    let mut i: usize = 0;
    while i < refs.len()
        invariant
            i <= refs@.len(),
            rows@.len() == i,
            forall|j: int|
                0 <= j < i ==> (#[trigger] rows@[j]) == (refs@[j].off, refs@[j].len, refs@[j].hash),
        decreases refs@.len() - i,
    {
        let c = &refs[i];
        rows.push((c.off, c.len, c.hash));
        i = i + 1;
    }
    proof {
        assert(tuples_view(rows@) =~= refs_view(refs@));
    }
    encode_rows(&rows)
}

/// The chunk list that stored bytes hold.
pub fn decode_manifest(bytes: &[u8]) -> (refs: Option<Vec<ChunkRef>>)
    ensures
        match refs {
            Some(refs) => manifest_rows(bytes@) == Some(refs_view(refs@)),
            None => manifest_rows(bytes@) is None,
        },
{
    let rows = match decode_rows(bytes) {
        Some(rows) => rows,
        None => {
            return None;
        },
    };
    Some(refs_of(&rows))
}

/// The chunks that decoded rows describe.
pub fn refs_of(rows: &Vec<(u64, u32, [u8; 32])>) -> (refs: Vec<ChunkRef>)
    ensures
        refs_view(refs@) == tuples_view(rows@),
{
    let mut refs: Vec<ChunkRef> = Vec::new();
    let mut i: usize = 0;
    while i < rows.len()
        invariant
            i <= rows@.len(),
            refs@.len() == i,
            forall|j: int|
                0 <= j < i ==> (#[trigger] refs@[j])@ == (rows@[j].0, rows@[j].1, rows@[j].2@),
        decreases rows@.len() - i,
    {
        let r = &rows[i];
        refs.push(ChunkRef { off: r.0, len: r.1, hash: r.2 });
        i = i + 1;
    }
    proof {
        assert(refs_view(refs@) =~= tuples_view(rows@));
    }
    refs
}

/// How many leading rows lie before `off`.
pub open spec fn place_of(rows: Seq<Row>, off: u64) -> int
    decreases rows.len(),
{
    if rows.len() == 0 || rows[0].0 >= off {
        0
    } else {
        1 + place_of(rows.skip(1), off)
    }
}

/// A chunk list with one chunk put in: in the place of the chunk at the same offset, or before
/// the first that lies behind it.
pub open spec fn merged(rows: Seq<Row>, c: Row) -> Seq<Row> {
    let p = place_of(rows, c.0);
    if p < rows.len() && rows[p].0 == c.0 {
        rows.update(p, c)
    } else {
        rows.insert(p, c)
    }
}

proof fn place_found(rows: Seq<Row>, off: u64, p: int)
    requires
        0 <= p <= rows.len(),
        forall|j: int| 0 <= j < p ==> (#[trigger] rows[j]).0 < off,
        p < rows.len() ==> rows[p].0 >= off,
    ensures
        place_of(rows, off) == p,
    decreases p,
{
    if p > 0 {
        assert(rows[0].0 < off);
        let t = rows.skip(1);
        assert forall|j: int| 0 <= j < p - 1 implies (#[trigger] t[j]).0 < off by {
            assert(t[j] == rows[j + 1]);
        }
        place_found(t, off, p - 1);
    }
}

/// Put one chunk into a chunk list.
pub fn merge(refs: &mut Vec<ChunkRef>, c: ChunkRef)
    ensures
        refs_view(final(refs)@) == merged(refs_view(old(refs)@), c@),
{
    let mut p: usize = 0;
    while p < refs.len()
        invariant
            p <= refs@.len(),
            refs@ == old(refs)@,
            forall|j: int| 0 <= j < p ==> (#[trigger] refs_view(refs@)[j]).0 < c.off,
        ensures
            p <= refs@.len(),
            refs@ == old(refs)@,
            forall|j: int| 0 <= j < p ==> (#[trigger] refs_view(refs@)[j]).0 < c.off,
            p < refs@.len() ==> refs@[p as int].off >= c.off,
        decreases refs@.len() - p,
    {
        if refs[p].off >= c.off {
            break;
        }
        p = p + 1;
    }
    proof {
        place_found(refs_view(refs@), c.off, p as int);
    }
    if p < refs.len() && refs[p].off == c.off {
        refs[p] = c;
        proof {
            assert(refs_view(refs@) =~= merged(refs_view(old(refs)@), c@));
        }
    } else {
        refs.insert(p, c);
        proof {
            assert(refs_view(refs@) =~= merged(refs_view(old(refs)@), c@));
        }
    }
}

/// Offsets ascend strictly.
pub open spec fn ascending(rows: Seq<Row>) -> bool {
    forall|i: int, j: int| 0 <= i < j < rows.len() ==> (#[trigger] rows[i]).0 < (#[trigger] rows[j]).0
}

/// Merging keeps a list ascending; afterwards the list has the chunk at its offset, and every
/// other chunk that it had, and no more.
pub proof fn merge_replaces_or_inserts(rows: Seq<Row>, c: Row)
    requires
        ascending(rows),
    ensures
        ascending(merged(rows, c)),
        forall|r: Row| #[trigger]
            merged(rows, c).contains(r) <==> (r == c || (r.0 != c.0 && rows.contains(r))),
{
    place_splits(rows, c.0);
    let p = place_of(rows, c.0);
    let m = merged(rows, c);
    if p < rows.len() && rows[p].0 == c.0 {
        assert forall|r: Row|
            m.contains(r) <==> (r == c || (r.0 != c.0 && rows.contains(r))) by {
            if m.contains(r) {
                let k = m.index_of(r);
                if k != p {
                    assert(rows[k] == r);
                }
            }
            if r == c {
                assert(m[p] == r);
            }
            if r.0 != c.0 && rows.contains(r) {
                let k = rows.index_of(r);
                assert(m[k] == r);
            }
        }
    } else {
        assert forall|i: int, j: int| 0 <= i < j < m.len() implies (#[trigger] m[i]).0 < (
        #[trigger] m[j]).0 by {
            let i0 = if i < p {
                i
            } else {
                i - 1
            };
            let j0 = if j < p {
                j
            } else {
                j - 1
            };
            if i != p {
                assert(m[i] == rows[i0]);
            }
            if j != p {
                assert(m[j] == rows[j0]);
            }
            if i == p {
                assert(rows[p].0 > c.0);
                assert(rows[j0].0 >= rows[p].0);
            }
        }
        assert forall|r: Row|
            m.contains(r) <==> (r == c || (r.0 != c.0 && rows.contains(r))) by {
            if m.contains(r) {
                let k = m.index_of(r);
                if k != p {
                    let k0 = if k < p {
                        k
                    } else {
                        k - 1
                    };
                    assert(rows[k0] == r);
                    if k0 >= p {
                        assert(rows[p].0 > c.0);
                        assert(rows[k0].0 >= rows[p].0);
                    }
                }
            }
            if r == c {
                assert(m[p] == r);
            }
            if r.0 != c.0 && rows.contains(r) {
                let k = rows.index_of(r);
                if k < p {
                    assert(m[k] == r);
                } else {
                    assert(m[k + 1] == r);
                }
            }
        }
    }
}

proof fn place_splits(rows: Seq<Row>, off: u64)
    ensures
        0 <= place_of(rows, off) <= rows.len(),
        forall|j: int| 0 <= j < place_of(rows, off) ==> (#[trigger] rows[j]).0 < off,
        place_of(rows, off) < rows.len() ==> rows[place_of(rows, off)].0 >= off,
    decreases rows.len(),
{
    if rows.len() > 0 && rows[0].0 < off {
        let t = rows.skip(1);
        place_splits(t, off);
        assert forall|j: int| 0 <= j < place_of(rows, off) implies (#[trigger] rows[j]).0 < off by {
            if j > 0 {
                assert(t[j - 1] == rows[j]);
            }
        }
        let p = place_of(rows, off);
        if p < rows.len() {
            assert(t[p - 1] == rows[p]);
        }
    }
}

/// The rows in the stable order of their offsets.
pub open spec fn by_offset(rows: Seq<Row>, sorted: Seq<Row>) -> bool {
    exists|list: Seq<usize>| #[trigger]
        spans(list, 0, rows.len() as int) && ordered(offsets(rows), list) && sorted == Seq::new(
            rows.len(),
            |i: int| rows[list[i] as int],
        )
}

pub open spec fn offsets(rows: Seq<Row>) -> Seq<u64> {
    Seq::new(rows.len(), |i: int| rows[i].0)
}

/// Sort a chunk list by offset; chunks at equal offsets keep their order.
pub fn sort_by_offset(refs: &Vec<ChunkRef>) -> (sorted: Vec<ChunkRef>)
    ensures
        by_offset(refs_view(refs@), refs_view(sorted@)),
{
    let mut keys: Vec<u64> = Vec::new();
    let mut i: usize = 0;
    while i < refs.len()
        invariant
            i <= refs@.len(),
            keys@.len() == i,
            forall|j: int| 0 <= j < i ==> #[trigger] keys@[j] == refs@[j].off,
        decreases refs@.len() - i,
    {
        keys.push(refs[i].off);
        i = i + 1;
    }
    proof {
        assert(keys@ =~= offsets(refs_view(refs@)));
    }
    let list = sort_order(&keys);
    let mut sorted: Vec<ChunkRef> = Vec::new();
    let mut k: usize = 0;
    while k < list.len()
        invariant
            k <= list@.len(),
            spans(list@, 0, refs@.len() as int),
            sorted@.len() == k,
            forall|j: int| 0 <= j < k ==> (#[trigger] sorted@[j]) == refs@[list@[j] as int],
        decreases list@.len() - k,
    {
        proof {
            assert(list@.contains(list@[k as int]));
        }
        sorted.push(refs[list[k]]);
        k = k + 1;
    }
    proof {
        let rows = refs_view(refs@);
        assert forall|j: int| 0 <= j < list@.len() implies 0 <= #[trigger] list@[j] < refs@.len() by {
            assert(list@.contains(list@[j]));
        }
        assert(refs_view(sorted@) =~= Seq::new(rows.len(), |i: int| rows[list@[i] as int]));
        assert(spans(list@, 0, rows.len() as int));
    }
    sorted
}

} // verus!
