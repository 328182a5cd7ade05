//! The index of the cache.
use crate::bytes::to_vec;
use crate::cas::chunks::{ChunkRow, ChunkTable, Entry};
use crate::cas::manifest::{
    decode_manifest, encode_manifest, manifest_bytes, manifest_rows, merge, merged, refs_view,
    ChunkRef, ManifestKey, Row,
};
use crate::digest::hash;
use crate::table::{kept, sweep_drop, sweeping, swept, KeyTable};
use vstd::prelude::*;

verus! {

/// A stored last access is rewritten only when it is older than this many seconds.
pub const ACCESS_WRITE_GRANULARITY: u64 = 3600;

#[derive(Debug, Clone, Copy, PartialEq, Eq, Structural)]
pub struct CasStats {
    pub hits: u64,
    pub misses: u64,
    pub blobs: u64,
    pub total_bytes: u64,
    pub max_bytes: u64,
    pub ingested_bytes: u64,
    pub evictions: u64,
    pub evicted_bytes: u64,
    pub corrupt_dropped: u64,
}

#[derive(Debug, Clone, Copy, PartialEq, Eq, Structural)]
pub struct ScrubReport {
    pub checked: u64,
    pub corrupt: u64,
    pub missing: u64,
}

/// Running totals.
#[derive(Debug, Clone, Copy, PartialEq, Eq, Structural)]
pub struct Counters {
    pub hits: u64,
    pub misses: u64,
    pub ingested_bytes: u64,
    pub evictions: u64,
    pub evicted_bytes: u64,
    pub corrupt_dropped: u64,
}

/// A sum that wraps round.
pub open spec fn plus(a: u64, b: int) -> u64 {
    ((a + b) % 0x1_0000_0000_0000_0000) as u64
}

/// The index: stored manifests, stored chunks, and when each chunk was last used.
#[derive(Debug)]
pub struct CasStore {
    pub manifests: KeyTable<ManifestKey, Vec<u8>>,
    pub chunks: ChunkTable,
    /// Last uses of this run, finer than what is written down.
    pub recency: KeyTable<[u8; 32], u64>,
    /// The sum of the chunk lengths.
    pub total_bytes: u64,
    pub blobs: u64,
    /// An ingest that takes the total over this starts an eviction ...
    pub max_bytes: u64,
    /// ... down to this.
    pub target: u64,
    pub c: Counters,
}

/// The digests of a list.
pub open spec fn digests(list: Seq<[u8; 32]>) -> Set<Seq<u8>> {
    Set::new(|h: Seq<u8>| exists|i: int| 0 <= i < list.len() && (#[trigger] list[i])@ == h)
}

/// The rows that are not marked, in order.
pub open spec fn unmarked_rows(rows: Seq<ChunkRow>, mask: Seq<bool>) -> Seq<ChunkRow>
    decreases rows.len(),
{
    if rows.len() == 0 {
        Seq::empty()
    } else {
        let r = unmarked_rows(rows.drop_last(), mask.drop_last());
        if mask.last() {
            r
        } else {
            r.push(rows.last())
        }
    }
}

/// The digests of the marked rows, in order.
pub open spec fn marked_hashes(rows: Seq<ChunkRow>, mask: Seq<bool>) -> Seq<[u8; 32]>
    decreases rows.len(),
{
    if rows.len() == 0 {
        Seq::empty()
    } else {
        let r = marked_hashes(rows.drop_last(), mask.drop_last());
        if mask.last() {
            r.push(rows.last().hash)
        } else {
            r
        }
    }
}

impl CasStore {
    /// The accounting is exact.
    pub open spec fn wf(&self) -> bool {
        &&& self.manifests.wf()
        &&& self.chunks.wf()
        &&& self.recency.wf()
        &&& self.total_bytes == self.chunks.total()
        &&& self.blobs == self.chunks.rows@.len()
    }

    /// The chunk list under a key: there is one if a stored manifest can be read.
    pub open spec fn manifest(&self, key: ManifestKey) -> Option<Seq<Row>> {
        if self.manifests@.contains_key(key) {
            manifest_rows(self.manifests@[key]@)
        } else {
            None
        }
    }

    /// When the `i`-th chunk was last used, by either record.
    pub open spec fn last_use(&self, i: int) -> u64 {
        let row = self.chunks.rows@[i];
        let mem = if self.recency@.contains_key(row.hash@) {
            self.recency@[row.hash@]
        } else {
            0
        };
        if mem > row.access {
            mem
        } else {
            row.access
        }
    }

    pub open spec fn last_uses(&self) -> Seq<u64> {
        Seq::new(self.chunks.rows@.len(), |i: int| self.last_use(i))
    }

    /// An empty cache.
    pub fn new(max_bytes: u64, target: u64) -> (s: Self)
        ensures
            s.wf(),
            s.manifests@ == Map::<ManifestKey, Vec<u8>>::empty(),
            s.chunks@ == Map::<Seq<u8>, Entry>::empty(),
            s.recency@ == Map::<Seq<u8>, u64>::empty(),
            s.total_bytes == 0,
            s.blobs == 0,
            s.max_bytes == max_bytes,
            s.target == target,
            s.c == zero_counters(),
    {
        CasStore {
            manifests: KeyTable::new(),
            chunks: ChunkTable::new(),
            recency: KeyTable::new(),
            total_bytes: 0,
            blobs: 0,
            max_bytes,
            target,
            c: Counters {
                hits: 0,
                misses: 0,
                ingested_bytes: 0,
                evictions: 0,
                evicted_bytes: 0,
                corrupt_dropped: 0,
            },
        }
    }

    /// Take over a chunk row from an earlier run; the accounting follows.
    pub fn load_chunk(&mut self, hash: [u8; 32], len: u32, access: u64)
        requires
            old(self).wf(),
            old(self).total_bytes + len <= u64::MAX,
            old(self).blobs < u64::MAX,
        ensures
            final(self).wf(),
            final(self).chunks@ == old(self).chunks@.insert(hash@, (len, access)),
            *final(self) == (CasStore {
                chunks: final(self).chunks,
                total_bytes: final(self).total_bytes,
                blobs: final(self).blobs,
                ..*old(self)
            }),
    {
        let _fresh = self.set_chunk(hash, len, access);
    }

    /// Take over a stored manifest from an earlier run.
    pub fn load_manifest(&mut self, key: ManifestKey, bytes: Vec<u8>)
        requires
            old(self).wf(),
        ensures
            final(self).wf(),
            final(self).manifests@ == old(self).manifests@.insert(key, bytes),
            *final(self) == (CasStore { manifests: final(self).manifests, ..*old(self) }),
    {
        let _was = self.manifests.insert(key, bytes);
    }

    /// Set a chunk row and account for it; whether there was none before.
    pub(crate) fn set_chunk(&mut self, hash: [u8; 32], len: u32, access: u64) -> (fresh: bool)
        requires
            old(self).wf(),
            old(self).total_bytes + len <= u64::MAX,
            old(self).blobs < u64::MAX,
        ensures
            final(self).wf(),
            fresh == !old(self).chunks@.contains_key(hash@),
            final(self).chunks@ == old(self).chunks@.insert(hash@, (len, access)),
            final(self).total_bytes <= old(self).total_bytes + len,
            final(self).blobs <= old(self).blobs + 1,
            *final(self) == (CasStore {
                chunks: final(self).chunks,
                total_bytes: final(self).total_bytes,
                blobs: final(self).blobs,
                ..*old(self)
            }),
    {
        let was = self.chunks.set(hash, len, access);
        match was {
            Some(l) => {
                proof {
                    assert(self.chunks.total() + l == old(self).chunks.total() + len);
                }
                let sum: u128 = self.total_bytes as u128 + len as u128 - l as u128;
                self.total_bytes = sum as u64;
                false
            },
            None => {
                self.total_bytes = self.total_bytes + len as u64;
                self.blobs = self.blobs + 1;
                true
            },
        }
    }

    // ---- manifests -----------------------------------------------------------------------------

    /// Drop the other versions of a file; their keys.
    fn drop_stale(&mut self, key: &ManifestKey) -> (gone: Vec<ManifestKey>)
        requires
            old(self).wf(),
        ensures
            final(self).wf(),
            dropped(*old(self), *final(self), |k: ManifestKey| k.stale_for(*key), gone@),
    {
        let mut gone: Vec<ManifestKey> = Vec::new();
        let ghost doomed = |k: ManifestKey| k.stale_for(*key);
        let ghost keep = |k: ManifestKey, v: Vec<u8>| !doomed(k);
        let ghost before = self.manifests@;
        let mut i: usize = 0;
        while i < self.manifests.rows.len()
            invariant
                sweeping(before, self.manifests, i as int, keep),
                doomed == (|k: ManifestKey| k.stale_for(*key)),
                keep == (|k: ManifestKey, v: Vec<u8>| !doomed(k)),
                before == old(self).manifests@,
                *self == (CasStore { manifests: self.manifests, ..*old(self) }),
                listed(gone@, before, self.manifests@, doomed),
            decreases self.manifests.rows@.len() - i,
        {
            let k = self.manifests.rows[i].0;
            if k.is_stale_for(key) {
                let ghost then = self.manifests;
                proof {
                    then.row_in_map(i as int);
                }
                let _row = self.manifests.remove_at(i);
                proof {
                    sweep_drop(before, then, self.manifests, i as int, keep);
                    list_grows(gone@, before, then@, self.manifests@, doomed, k);
                }
                gone.push(k);
            } else {
                i = i + 1;
            }
        }
        proof {
            swept(before, self.manifests, keep);
            list_is_whole(gone@, before, self.manifests@, doomed);
        }
        gone
    }

    /// Store the bytes of a manifest under its key, in place of every other version of the file.
    fn store_manifest(&mut self, key: ManifestKey, bytes: Vec<u8>) -> (gone: Vec<ManifestKey>)
        requires
            old(self).wf(),
        ensures
            final(self).wf(),
            manifest_stored(*old(self), *final(self), key, bytes, gone@),
    {
        let gone = self.drop_stale(&key);
        let _was = self.manifests.insert(key, bytes);
        gone
    }

    /// Record the chunk list of one version of a file, dropping the other versions; their
    /// chunks age out. Gives back the keys dropped and the bytes stored.
    pub fn put_manifest(&mut self, key: ManifestKey, refs: &Vec<ChunkRef>) -> (res: (
        Vec<ManifestKey>,
        Vec<u8>,
    ))
        requires
            old(self).wf(),
        ensures
            final(self).wf(),
            manifest_put(*old(self), *final(self), key, refs_view(refs@), res.0@, res.1@),
    {
        let bytes = encode_manifest(refs);
        let stored = to_vec(bytes.as_slice());
        let gone = self.store_manifest(key, stored);
        (gone, bytes)
    }

    /// Insert or replace one chunk in a manifest, dropping the other versions of the file.
    pub fn merge_chunk(&mut self, key: ManifestKey, chunk: ChunkRef) -> (res: (
        Vec<ManifestKey>,
        Vec<u8>,
    ))
        requires
            old(self).wf(),
        ensures
            final(self).wf(),
            manifest_put(
                *old(self),
                *final(self),
                key,
                merged(rows_or_none(old(self).manifest(key)), chunk@),
                res.0@,
                res.1@,
            ),
    {
        let mut refs = match self.get_manifest(&key) {
            Some(refs) => refs,
            None => {
                let none: Vec<ChunkRef> = Vec::new();
                proof {
                    assert(refs_view(none@) =~= Seq::<Row>::empty());
                }
                none
            },
        };
        merge(&mut refs, chunk);
        self.put_manifest(key, &refs)
    }

    /// The chunk list of exactly this version of a file.
    pub fn get_manifest(&self, key: &ManifestKey) -> (refs: Option<Vec<ChunkRef>>)
        requires
            self.wf(),
        ensures
            match refs {
                Some(refs) => self.manifest(*key) == Some(refs_view(refs@)),
                None => self.manifest(*key) is None,
            },
    {
        match self.manifests.get(key) {
            Some(bytes) => decode_manifest(bytes.as_slice()),
            None => None,
        }
    }

    /// Move a manifest to another key, in place of every other version of that file. Gives back
    /// the keys dropped, if there was a manifest to move.
    pub fn rebind_manifest(&mut self, from: ManifestKey, to: ManifestKey) -> (res: Option<
        Vec<ManifestKey>,
    >)
        requires
            old(self).wf(),
        ensures
            final(self).wf(),
            match res {
                None => !old(self).manifests@.contains_key(from) && *final(self) == *old(self),
                Some(gone) => rebound(*old(self), *final(self), from, to, gone@),
            },
    {
        match self.manifests.remove(&from) {
            Some(bytes) => Some(self.store_manifest(to, bytes)),
            None => None,
        }
    }

    /// Drop all versions of a file; their keys.
    pub fn drop_node(&mut self, share: u16, ino: u64, generation: u32) -> (gone: Vec<ManifestKey>)
        requires
            old(self).wf(),
        ensures
            final(self).wf(),
            dropped(
                *old(self),
                *final(self),
                |k: ManifestKey|
                    k.share == share && k.ino == ino && k.generation == generation,
                gone@,
            ),
    {
        let mut gone: Vec<ManifestKey> = Vec::new();
        let ghost doomed = |k: ManifestKey|
            k.share == share && k.ino == ino && k.generation == generation;
        let ghost keep = |k: ManifestKey, v: Vec<u8>| !doomed(k);
        let ghost before = self.manifests@;
        let mut i: usize = 0;
        while i < self.manifests.rows.len()
            invariant
                sweeping(before, self.manifests, i as int, keep),
                doomed == (|k: ManifestKey|
                    k.share == share && k.ino == ino && k.generation == generation),
                keep == (|k: ManifestKey, v: Vec<u8>| !doomed(k)),
                before == old(self).manifests@,
                *self == (CasStore { manifests: self.manifests, ..*old(self) }),
                listed(gone@, before, self.manifests@, doomed),
            decreases self.manifests.rows@.len() - i,
        {
            let k = self.manifests.rows[i].0;
            if k.share == share && k.ino == ino && k.generation == generation {
                let ghost then = self.manifests;
                proof {
                    then.row_in_map(i as int);
                }
                let _row = self.manifests.remove_at(i);
                proof {
                    sweep_drop(before, then, self.manifests, i as int, keep);
                    list_grows(gone@, before, then@, self.manifests@, doomed, k);
                }
                gone.push(k);
            } else {
                i = i + 1;
            }
        }
        proof {
            swept(before, self.manifests, keep);
            list_is_whole(gone@, before, self.manifests@, doomed);
        }
        gone
    }

    /// Drop every manifest of a share; their keys.
    pub fn drop_share(&mut self, share: u16) -> (gone: Vec<ManifestKey>)
        requires
            old(self).wf(),
        ensures
            final(self).wf(),
            dropped(*old(self), *final(self), |k: ManifestKey| k.share == share, gone@),
    {
        let mut gone: Vec<ManifestKey> = Vec::new();
        let ghost doomed = |k: ManifestKey| k.share == share;
        let ghost keep = |k: ManifestKey, v: Vec<u8>| !doomed(k);
        let ghost before = self.manifests@;
        let mut i: usize = 0;
        while i < self.manifests.rows.len()
            invariant
                sweeping(before, self.manifests, i as int, keep),
                doomed == (|k: ManifestKey| k.share == share),
                keep == (|k: ManifestKey, v: Vec<u8>| !doomed(k)),
                before == old(self).manifests@,
                *self == (CasStore { manifests: self.manifests, ..*old(self) }),
                listed(gone@, before, self.manifests@, doomed),
            decreases self.manifests.rows@.len() - i,
        {
            let k = self.manifests.rows[i].0;
            if k.share == share {
                let ghost then = self.manifests;
                proof {
                    then.row_in_map(i as int);
                }
                let _row = self.manifests.remove_at(i);
                proof {
                    sweep_drop(before, then, self.manifests, i as int, keep);
                    list_grows(gone@, before, then@, self.manifests@, doomed, k);
                }
                gone.push(k);
            } else {
                i = i + 1;
            }
        }
        proof {
            swept(before, self.manifests, keep);
            list_is_whole(gone@, before, self.manifests@, doomed);
        }
        gone
    }
}

pub open spec fn zero_counters() -> Counters {
    Counters {
        hits: 0,
        misses: 0,
        ingested_bytes: 0,
        evictions: 0,
        evicted_bytes: 0,
        corrupt_dropped: 0,
    }
}

/// A chunk list, empty where there is none.
pub open spec fn rows_or_none(m: Option<Seq<Row>>) -> Seq<Row> {
    match m {
        Some(rows) => rows,
        None => Seq::empty(),
    }
}

/// The bytes of a manifest were stored under a key, in place of every other version of the file,
/// whose keys are listed.
pub open spec fn manifest_stored(
    pre: CasStore,
    post: CasStore,
    key: ManifestKey,
    bytes: Vec<u8>,
    gone: Seq<ManifestKey>,
) -> bool {
    &&& post.manifests@.contains_key(key)
    &&& post.manifests@[key] == bytes
    &&& forall|k: ManifestKey|
        k != key ==> #[trigger] post.manifests@.contains_key(k) == (pre.manifests@.contains_key(k)
            && !k.stale_for(key))
    &&& forall|k: ManifestKey|
        k != key && #[trigger] post.manifests@.contains_key(k) ==> post.manifests@[k]
            == pre.manifests@[k]
    &&& forall|k: ManifestKey|
        gone.contains(k) <==> (pre.manifests@.contains_key(k) && k.stale_for(key))
    &&& post == (CasStore { manifests: post.manifests, ..pre })
}

/// A chunk list was stored under a key: it can be read back, its bytes are given, every other
/// version of the file is gone, and the manifests of other files stand.
pub open spec fn manifest_put(
    pre: CasStore,
    post: CasStore,
    key: ManifestKey,
    rows: Seq<Row>,
    gone: Seq<ManifestKey>,
    bytes: Seq<u8>,
) -> bool {
    &&& bytes == manifest_bytes(rows)
    &&& post.manifests@.contains_key(key)
    &&& post.manifests@[key]@ == bytes
    &&& post.manifest(key) == Some(rows)
    &&& forall|k: ManifestKey|
        k != key ==> #[trigger] post.manifests@.contains_key(k) == (pre.manifests@.contains_key(k)
            && !k.stale_for(key))
    &&& forall|k: ManifestKey|
        k != key && #[trigger] post.manifests@.contains_key(k) ==> post.manifests@[k]
            == pre.manifests@[k]
    &&& forall|k: ManifestKey|
        gone.contains(k) <==> (pre.manifests@.contains_key(k) && k.stale_for(key))
    &&& post == (CasStore { manifests: post.manifests, ..pre })
}

/// A manifest moved to another key, and the other versions of that key's file went.
pub open spec fn rebound(
    pre: CasStore,
    post: CasStore,
    from: ManifestKey,
    to: ManifestKey,
    gone: Seq<ManifestKey>,
) -> bool {
    &&& pre.manifests@.contains_key(from)
    &&& post.manifests@.contains_key(to)
    &&& post.manifests@[to] == pre.manifests@[from]
    &&& forall|k: ManifestKey|
        k != to ==> #[trigger] post.manifests@.contains_key(k) == (pre.manifests@.contains_key(k)
            && k != from && !k.stale_for(to))
    &&& forall|k: ManifestKey|
        k != to && #[trigger] post.manifests@.contains_key(k) ==> post.manifests@[k]
            == pre.manifests@[k]
    &&& forall|k: ManifestKey|
        gone.contains(k) <==> (pre.manifests@.contains_key(k) && k != from && k.stale_for(to))
    &&& post == (CasStore { manifests: post.manifests, ..pre })
}

/// The manifests under doomed keys are gone, and their keys are listed.
pub open spec fn dropped(
    pre: CasStore,
    post: CasStore,
    doomed: spec_fn(ManifestKey) -> bool,
    gone: Seq<ManifestKey>,
) -> bool {
    &&& forall|k: ManifestKey| #[trigger]
        post.manifests@.contains_key(k) == (pre.manifests@.contains_key(k) && !doomed(k))
    &&& forall|k: ManifestKey| #[trigger]
        post.manifests@.contains_key(k) ==> post.manifests@[k] == pre.manifests@[k]
    &&& forall|k: ManifestKey| gone.contains(k) <==> (pre.manifests@.contains_key(k) && doomed(k))
    &&& post == (CasStore { manifests: post.manifests, ..pre })
}

/// The list holds the doomed keys that are gone so far.
spec fn listed(
    gone: Seq<ManifestKey>,
    before: Map<ManifestKey, Vec<u8>>,
    now: Map<ManifestKey, Vec<u8>>,
    doomed: spec_fn(ManifestKey) -> bool,
) -> bool {
    forall|k: ManifestKey|
        gone.contains(k) <==> (before.contains_key(k) && doomed(k) && !now.contains_key(k))
}

proof fn list_grows(
    gone: Seq<ManifestKey>,
    before: Map<ManifestKey, Vec<u8>>,
    then: Map<ManifestKey, Vec<u8>>,
    now: Map<ManifestKey, Vec<u8>>,
    doomed: spec_fn(ManifestKey) -> bool,
    k: ManifestKey,
)
    requires
        listed(gone, before, then, doomed),
        before.contains_key(k),
        doomed(k),
        now == then.remove(k),
    ensures
        listed(gone.push(k), before, now, doomed),
{
    let g1 = gone.push(k);
    assert forall|x: ManifestKey|
        g1.contains(x) <==> (before.contains_key(x) && doomed(x) && !now.contains_key(x)) by {
        if g1.contains(x) {
            let n = g1.index_of(x);
            if n < gone.len() {
                assert(gone[n] == x);
                assert(gone.contains(x));
            }
        }
        if gone.contains(x) {
            let n = gone.index_of(x);
            assert(g1[n] == x);
        }
        if x == k {
            assert(g1[gone.len() as int] == x);
        }
    }
}

proof fn list_is_whole(
    gone: Seq<ManifestKey>,
    before: Map<ManifestKey, Vec<u8>>,
    now: Map<ManifestKey, Vec<u8>>,
    doomed: spec_fn(ManifestKey) -> bool,
)
    requires
        listed(gone, before, now, doomed),
        now == kept(before, |k: ManifestKey, v: Vec<u8>| !doomed(k)),
    ensures
        forall|k: ManifestKey| gone.contains(k) <==> (before.contains_key(k) && doomed(k)),
{
}

} // verus!
