//! Blobs: ingest, reads that verify themselves, eviction and scrubbing.
use crate::bytes::{same_bytes, to_vec};
use crate::bytes::below;
use crate::cas::chunks::{total_len, ChunkRow, ChunkTable, Entry};
use crate::cas::evict::{marked_len, plan, Scene};
use crate::cas::manifest::{
    by_offset, merged, refs_view, sort_by_offset, ChunkRef, ManifestKey, Row,
};
use crate::cas::store::{
    digests, manifest_put, marked_hashes, plus, rows_or_none, unmarked_rows, CasStats, CasStore,
    Counters, ScrubReport, ACCESS_WRITE_GRANULARITY,
};
use crate::digest::{blake3_hash, hash};
use crate::hex::{hex, hex_of};
use vstd::prelude::*;
use vstd::slice::slice_subrange;

verus! {

// ---- eviction ----------------------------------------------------------------------------------

/// What an eviction frees and which chunks it drops.
#[derive(Debug)]
pub struct Evicted {
    pub freed: u64,
    pub victims: Vec<[u8; 32]>,
}

/// The chunks marked by `mask` are dropped: their rows, their last uses, their share of the
/// accounts.
pub open spec fn evicted_by(pre: CasStore, post: CasStore, mask: Seq<bool>, res: Evicted) -> bool {
    let rows = pre.chunks.rows@;
    &&& res.freed == marked_len(rows, mask)
    &&& res.victims@ == marked_hashes(rows, mask)
    &&& post.chunks.rows@ == unmarked_rows(rows, mask)
    &&& post.recency@ == pre.recency@.remove_keys(digests(res.victims@))
    &&& post == (CasStore {
        chunks: post.chunks,
        recency: post.recency,
        total_bytes: (pre.total_bytes - res.freed) as u64,
        blobs: (pre.blobs - res.victims@.len()) as u64,
        c: Counters {
            evictions: plus(pre.c.evictions, res.victims@.len() as int),
            evicted_bytes: plus(pre.c.evicted_bytes, res.freed as int),
            ..pre.c
        },
        ..pre
    })
}

/// What an eviction looks at, its chunks taken in the order `list`.
pub open spec fn scene_of(st: CasStore, list: Seq<usize>, now: u64) -> Scene {
    Scene { rows: st.chunks.rows@, lasts: st.last_uses(), list, now, target: st.target }
}

/// What an eviction does: nothing while the total is within the target; otherwise the least
/// recently used go, protected ones only where the hard cap asks for it.
pub open spec fn evicted(pre: CasStore, post: CasStore, now: u64, res: Evicted) -> bool {
    if pre.total_bytes <= pre.target {
        post == pre && res.freed == 0 && res.victims@.len() == 0
    } else {
        exists|list: Seq<usize>| #[trigger]
            scene_of(pre, list, now).wf() && evicted_by(
                pre,
                post,
                scene_of(pre, list, now).victims(pre.max_bytes),
                res,
            )
    }
}

/// What follows an ingest: an eviction if the total is over the hard cap.
pub open spec fn settled(mid: CasStore, post: CasStore, now: u64, victims: Seq<[u8; 32]>) -> bool {
    if mid.total_bytes > mid.max_bytes {
        exists|res: Evicted| #[trigger] evicted(mid, post, now, res) && res.victims@ == victims
    } else {
        post == mid && victims.len() == 0
    }
}

/// Taking marked rows out: lengths add up, and what is left stays in order.
proof fn split_rows(rows: Seq<ChunkRow>, mask: Seq<bool>)
    requires
        rows.len() == mask.len(),
        forall|i: int, j: int|
            0 <= i < j < rows.len() ==> below((#[trigger] rows[i]).hash@, (#[trigger] rows[j]).hash@),
    ensures
        total_len(unmarked_rows(rows, mask)) + marked_len(rows, mask) == total_len(rows),
        unmarked_rows(rows, mask).len() + marked_hashes(rows, mask).len() == rows.len(),
        forall|i: int, j: int|
            0 <= i < j < unmarked_rows(rows, mask).len() ==> below(
                (#[trigger] unmarked_rows(rows, mask)[i]).hash@,
                (#[trigger] unmarked_rows(rows, mask)[j]).hash@,
            ),
        forall|i: int|
            0 <= i < unmarked_rows(rows, mask).len() ==> rows.contains(
                #[trigger] unmarked_rows(rows, mask)[i],
            ),
    decreases rows.len(),
{
    if rows.len() > 0 {
        let r1 = rows.drop_last();
        let m1 = mask.drop_last();
        split_rows(r1, m1);
        let u1 = unmarked_rows(r1, m1);
        let u = unmarked_rows(rows, mask);
        if !mask.last() {
            assert(u.drop_last() =~= u1);
            assert forall|i: int, j: int| 0 <= i < j < u.len() implies below(
                (#[trigger] u[i]).hash@,
                (#[trigger] u[j]).hash@,
            ) by {
                assert(u[i] == u1[i]);
                if j < u1.len() {
                    assert(u[j] == u1[j]);
                } else {
                    assert(r1.contains(u1[i]));
                    let k = r1.index_of(u1[i]);
                    assert(rows[k] == r1[k]);
                    assert(rows[rows.len() - 1] == rows.last());
                    assert(below(rows[k].hash@, rows[rows.len() - 1].hash@));
                }
            }
        }
        assert forall|i: int| 0 <= i < u.len() implies rows.contains(#[trigger] u[i]) by {
            if i < u1.len() {
                assert(u[i] == u1[i]);
                assert(r1.contains(u1[i]));
                let k = r1.index_of(u1[i]);
                assert(rows[k] == u[i]);
            } else {
                assert(rows[rows.len() - 1] == u[i]);
            }
        }
    }
}

impl CasStore {
    /// Evict down to the target, least recently used first. Chunks used within the protection
    /// window are spared while that keeps the total within the hard cap.
    pub fn evict(&mut self, now: u64) -> (res: Evicted)
        requires
            old(self).wf(),
        ensures
            final(self).wf(),
            evicted(*old(self), *final(self), now, res),
            final(self).total_bytes <= old(self).target || final(self).total_bytes <= old(
                self,
            ).max_bytes,
            final(self).total_bytes <= old(self).total_bytes,
            final(self).blobs <= old(self).blobs,
    {
        if self.total_bytes <= self.target {
            return Evicted { freed: 0, victims: Vec::new() };
        }
        let ghost pre = *self;
        let lasts = self.last_use_list();
        let (mask, freed, list) = plan(
            &self.chunks.rows,
            &lasts,
            self.total_bytes,
            self.target,
            self.max_bytes,
            now,
        );
        let victims = self.drop_marked(&mask);
        self.total_bytes = self.total_bytes - freed;
        self.blobs = self.blobs - victims.len() as u64;
        self.c.evictions = self.c.evictions.wrapping_add(victims.len() as u64);
        self.c.evicted_bytes = self.c.evicted_bytes.wrapping_add(freed);
        let res = Evicted { freed, victims };
        proof {
            assert(scene_of(pre, list@, now).wf());
            assert(evicted_by(pre, *self, mask@, res));
        }
        res
    }

    fn last_use_list(&self) -> (lasts: Vec<u64>)
        requires
            self.wf(),
        ensures
            lasts@ == self.last_uses(),
    {
        let mut lasts: Vec<u64> = Vec::new();
        let mut i: usize = 0;
        while i < self.chunks.rows.len()
            invariant
                self.wf(),
                i <= self.chunks.rows@.len(),
                lasts@.len() == i,
                forall|j: int| 0 <= j < i ==> #[trigger] lasts@[j] == self.last_use(j),
            decreases self.chunks.rows@.len() - i,
        {
            let row = self.chunks.rows[i];
            let mem: u64 = match self.recency.get(&row.hash) {
                Some(t) => *t,
                None => 0,
            };
            lasts.push(
                if mem > row.access {
                    mem
                } else {
                    row.access
                },
            );
            i = i + 1;
        }
        proof {
            assert(lasts@ =~= self.last_uses());
        }
        lasts
    }

    /// Take the marked rows out of the table, and their last uses.
    fn drop_marked(&mut self, mask: &Vec<bool>) -> (victims: Vec<[u8; 32]>)
        requires
            old(self).chunks.wf(),
            old(self).recency.wf(),
            mask@.len() == old(self).chunks.rows@.len(),
        ensures
            final(self).chunks.wf(),
            final(self).recency.wf(),
            final(self).chunks.rows@ == unmarked_rows(old(self).chunks.rows@, mask@),
            victims@ == marked_hashes(old(self).chunks.rows@, mask@),
            final(self).recency@ == old(self).recency@.remove_keys(digests(victims@)),
            final(self).chunks.total() + marked_len(old(self).chunks.rows@, mask@) == old(
                self,
            ).chunks.total(),
            final(self).chunks.rows@.len() + victims@.len() == old(self).chunks.rows@.len(),
            *final(self) == (CasStore {
                chunks: final(self).chunks,
                recency: final(self).recency,
                ..*old(self)
            }),
    {
        let ghost rows = self.chunks.rows@;
        let mut left: Vec<ChunkRow> = Vec::new();
        let mut victims: Vec<[u8; 32]> = Vec::new();
        let mut i: usize = 0;
        proof {
            assert(rows.take(0) =~= Seq::<ChunkRow>::empty());
            assert(mask@.take(0) =~= Seq::<bool>::empty());
            assert(self.recency@ =~= old(self).recency@.remove_keys(digests(victims@)));
        }
        while i < self.chunks.rows.len()
            invariant
                i <= rows.len(),
                self.chunks.rows@ == rows,
                rows == old(self).chunks.rows@,
                mask@.len() == rows.len(),
                self.recency.wf(),
                left@ == unmarked_rows(rows.take(i as int), mask@.take(i as int)),
                victims@ == marked_hashes(rows.take(i as int), mask@.take(i as int)),
                self.recency@ == old(self).recency@.remove_keys(digests(victims@)),
                *self == (CasStore { recency: self.recency, ..*old(self) }),
            decreases rows.len() - i,
        {
            let row = self.chunks.rows[i];
            proof {
                assert(rows.take(i + 1).drop_last() =~= rows.take(i as int));
                assert(mask@.take(i + 1).drop_last() =~= mask@.take(i as int));
            }
            if mask[i] {
                let ghost before = victims@;
                let _last = self.recency.remove(&row.hash);
                victims.push(row.hash);
                proof {
                    assert forall|h: Seq<u8>| #[trigger]
                        digests(victims@).contains(h) == (digests(before).contains(h) || h
                            == row.hash@) by {
                        if digests(victims@).contains(h) {
                            let k = choose|k: int|
                                0 <= k < victims@.len() && (#[trigger] victims@[k])@ == h;
                            if k < before.len() {
                                assert(before[k]@ == h);
                            }
                        }
                        if digests(before).contains(h) {
                            let k = choose|k: int|
                                0 <= k < before.len() && (#[trigger] before[k])@ == h;
                            assert(victims@[k]@ == h);
                        }
                        if h == row.hash@ {
                            assert(victims@[before.len() as int]@ == h);
                        }
                    }
                    assert(self.recency@ =~= old(self).recency@.remove_keys(digests(victims@)));
                }
            } else {
                left.push(row);
            }
            i = i + 1;
        }
        self.chunks = ChunkTable { rows: left };
        proof {
            assert(rows.take(i as int) =~= rows);
            assert(mask@.take(i as int) =~= mask@);
            split_rows(rows, mask@);
        }
        victims
    }

    // ---- ingest --------------------------------------------------------------------------------

    /// Evict if the total is over the hard cap; the chunks dropped.
    fn settle(&mut self, now: u64) -> (victims: Vec<[u8; 32]>)
        requires
            old(self).wf(),
        ensures
            final(self).wf(),
            settled(*old(self), *final(self), now, victims@),
            final(self).total_bytes <= old(self).max_bytes || final(self).total_bytes <= old(
                self,
            ).target,
    {
        if self.total_bytes > self.max_bytes {
            let ghost mid = *self;
            let res = self.evict(now);
            proof {
                assert(evicted(mid, *self, now, res));
            }
            res.victims
        } else {
            Vec::new()
        }
    }

    /// A blob was ingested: count it, and note that it was used.
    fn note_ingest(&mut self, h: [u8; 32], len: usize, now: u64)
        requires
            old(self).wf(),
        ensures
            final(self).wf(),
            final(self).recency@ == old(self).recency@.insert(h@, now),
            *final(self) == (CasStore {
                recency: final(self).recency,
                c: Counters {
                    ingested_bytes: plus(old(self).c.ingested_bytes, len as int),
                    ..old(self).c
                },
                ..*old(self)
            }),
    {
        self.c.ingested_bytes = self.c.ingested_bytes.wrapping_add(len as u64);
        let _was = self.recency.insert(h, now);
    }

    /// Ingest one blob: its digest, and the chunks that an eviction dropped for it.
    pub fn put_blob(&mut self, data: &[u8], now: u64) -> (res: ([u8; 32], Vec<[u8; 32]>))
        requires
            old(self).wf(),
            data@.len() <= u32::MAX,
            old(self).total_bytes + data@.len() <= u64::MAX,
            old(self).blobs < u64::MAX,
        ensures
            final(self).wf(),
            res.0@ == blake3_hash(data@),
            blob_put(*old(self), *final(self), res.0@, data@.len(), now, res.1@),
            final(self).total_bytes <= old(self).max_bytes || final(self).total_bytes <= old(
                self,
            ).target,
    {
        let h = hash(data);
        let _fresh = self.set_chunk(h, data.len() as u32, now);
        self.note_ingest(h, data.len(), now);
        let ghost mid = *self;
        let victims = self.settle(now);
        proof {
            assert(blob_added(*old(self), mid, h@, data@.len(), now));
        }
        (h, victims)
    }

    /// Ingest one chunk of a file: its blob, and its place in the file's manifest. Gives back
    /// the digest, the manifest's stored bytes, the manifests dropped, and the chunks that an
    /// eviction dropped.
    pub fn ingest_chunk(&mut self, key: ManifestKey, off: u64, data: &[u8], now: u64) -> (res: (
        [u8; 32],
        Vec<u8>,
        Vec<ManifestKey>,
        Vec<[u8; 32]>,
    ))
        requires
            old(self).wf(),
            data@.len() <= u32::MAX,
            old(self).total_bytes + data@.len() <= u64::MAX,
            old(self).blobs < u64::MAX,
        ensures
            final(self).wf(),
            res.0@ == blake3_hash(data@),
            chunk_ingested(
                *old(self),
                *final(self),
                key,
                off,
                res.0@,
                data@.len(),
                now,
                res.1@,
                res.2@,
                res.3@,
            ),
            final(self).total_bytes <= old(self).max_bytes || final(self).total_bytes <= old(
                self,
            ).target,
    {
        let h = hash(data);
        let len: u32 = data.len() as u32;
        let ghost s0 = *self;
        let (gone, bytes) = self.merge_chunk(key, ChunkRef { off, len, hash: h });
        let ghost s1 = *self;
        let _fresh = self.set_chunk(h, len, now);
        self.note_ingest(h, data.len(), now);
        let ghost s2 = *self;
        let victims = self.settle(now);
        proof {
            assert(manifest_put(
                s0,
                s1,
                key,
                merged(rows_or_none(s0.manifest(key)), (off, len, h@)),
                gone@,
                bytes@,
            ));
            assert(blob_added(s1, s2, h@, data@.len(), now));
            assert(blob_put(s1, *self, h@, data@.len(), now, victims@));
        }
        (h, bytes, gone, victims)
    }

    /// Ingest all chunks of a file at once; the manifest lists exactly them, by offset. Gives
    /// back the manifest's stored bytes, the manifests dropped, and the chunks that an eviction
    /// dropped.
    pub fn ingest_chunks(&mut self, key: ManifestKey, list: &Vec<(u64, Vec<u8>)>, now: u64) -> (res: (
        Vec<u8>,
        Vec<ManifestKey>,
        Vec<[u8; 32]>,
    ))
        requires
            old(self).wf(),
            forall|i: int| 0 <= i < list@.len() ==> (#[trigger] list@[i]).1@.len() <= u32::MAX,
            old(self).total_bytes + list@.len() * u32::MAX <= u64::MAX,
            old(self).blobs + list@.len() <= u64::MAX,
        ensures
            final(self).wf(),
            chunks_ingested(
                *old(self),
                *final(self),
                key,
                list@,
                now,
                res.0@,
                res.1@,
                res.2@,
            ),
            final(self).total_bytes <= old(self).max_bytes || final(self).total_bytes <= old(
                self,
            ).target,
    {
        let ghost s0 = *self;
        let mut refs: Vec<ChunkRef> = Vec::new();
        let mut i: usize = 0;
        proof {
            assert(list@.take(0) =~= Seq::<(u64, Vec<u8>)>::empty());
            assert(refs_view(refs@) =~= Seq::<Row>::empty());
        }
        while i < list.len()
            invariant
                self.wf(),
                i <= list@.len(),
                forall|j: int| 0 <= j < list@.len() ==> (#[trigger] list@[j]).1@.len() <= u32::MAX,
                s0 == *old(self),
                s0.total_bytes + list@.len() * u32::MAX <= u64::MAX,
                s0.blobs + list@.len() <= u64::MAX,
                self.total_bytes <= s0.total_bytes + i * u32::MAX,
                self.blobs <= s0.blobs + i,
                self.max_bytes == s0.max_bytes,
                self.target == s0.target,
                refs@.len() == i,
                refs_view(refs@) == rows_of(list@.take(i as int)),
                all_added(s0, *self, list@.take(i as int), now),
            decreases list@.len() - i,
        {
            let data = &list[i].1;
            let h = hash(data.as_slice());
            let len: u32 = data.len() as u32;
            let ghost before = *self;
            proof {
                assert((i + 1) * u32::MAX <= list@.len() * u32::MAX) by (nonlinear_arith)
                    requires
                        i + 1 <= list@.len(),
                ;
                assert((i + 1) * u32::MAX == i * u32::MAX + u32::MAX) by (nonlinear_arith);
            }
            let _fresh = self.set_chunk(h, len, now);
            self.note_ingest(h, data.len(), now);
            let ghost refs0 = refs@;
            refs.push(ChunkRef { off: list[i].0, len, hash: h });
            proof {
                let t = list@.take(i as int);
                let t1 = list@.take(i + 1);
                assert(t1.drop_last() =~= t);
                assert(t1.last() == list@[i as int]);
                assert forall|k: int| 0 <= k < t1.len() implies #[trigger] refs_view(refs@)[k]
                    == rows_of(t1)[k] by {
                    if k < i {
                        assert(refs_view(refs0)[k] == rows_of(t)[k]);
                        assert(refs@[k] == refs0[k]);
                        assert(t[k] == t1[k]);
                    }
                }
                assert(refs_view(refs@) =~= rows_of(t1));
                assert(all_added(s0, before, t1.drop_last(), now));
                assert(blob_added(
                    before,
                    *self,
                    blake3_hash(t1.last().1@),
                    t1.last().1@.len(),
                    now,
                ));
                assert(all_added(s0, *self, t1, now));
            }
            i = i + 1;
        }
        proof {
            assert(list@.take(i as int) =~= list@);
        }
        let ghost s1 = *self;
        let sorted = sort_by_offset(&refs);
        let (gone, bytes) = self.put_manifest(key, &sorted);
        let ghost s2 = *self;
        let victims = self.settle(now);
        proof {
            assert(all_added(s0, s1, list@, now));
            assert(manifest_put(s1, s2, key, refs_view(sorted@), gone@, bytes@));
            assert(listing_put(s1, s2, key, list@, gone@, bytes@));
            assert(settled(s2, *self, now, victims@));
        }
        (bytes, gone, victims)
    }

    // ---- reads ---------------------------------------------------------------------------------

    /// A chunk was used: note it, and rewrite its stored last access if that is old. Whether the
    /// stored row changed.
    pub fn touch(&mut self, h: &[u8; 32], now: u64) -> (rewritten: bool)
        requires
            old(self).wf(),
        ensures
            final(self).wf(),
            touched(*old(self), *final(self), h@, now),
            rewritten == rewrites(*old(self), h@, now),
    {
        let stale = match self.recency.insert(*h, now) {
            Some(prev) => {
                let age: u64 = if now >= prev {
                    now - prev
                } else {
                    0
                };
                age >= ACCESS_WRITE_GRANULARITY
            },
            None => true,
        };
        if !stale {
            return false;
        }
        match self.chunks.get(h) {
            Some((len, _)) => {
                let _was = self.chunks.set(*h, len, now);
                true
            },
            None => false,
        }
    }

    /// Drop a chunk that turned out corrupt or missing.
    pub fn drop_corrupt(&mut self, h: &[u8; 32])
        requires
            old(self).wf(),
        ensures
            final(self).wf(),
            chunk_dropped(*old(self), *final(self), h@),
    {
        let was = self.chunks.remove(h);
        if let Some(len) = was {
            self.total_bytes = self.total_bytes - len as u64;
            self.blobs = self.blobs - 1;
        }
        let _last = self.recency.remove(h);
        self.c.corrupt_dropped = self.c.corrupt_dropped.wrapping_add(1);
    }

    fn miss(&mut self)
        requires
            old(self).wf(),
        ensures
            final(self).wf(),
            missed(*old(self), *final(self)),
    {
        self.c.misses = self.c.misses.wrapping_add(1);
    }

    /// A blob was served: it counts as a hit and as used now. Says whether the last access that is
    /// written down is to be rewritten.
    pub fn hit(&mut self, h: &[u8; 32], now: u64) -> (rewritten: bool)
        requires
            old(self).wf(),
        ensures
            final(self).wf(),
            was_hit(*old(self), *final(self), h@, now),
            rewritten == rewrites(*old(self), h@, now),
    {
        let ghost pre = *self;
        let rewritten = self.touch(h, now);
        let ghost mid = *self;
        self.c.hits = self.c.hits.wrapping_add(1);
        proof {
            assert(touched(pre, mid, h@, now));
        }
        rewritten
    }

    /// Read `len` bytes at `off` of a blob, given what reading its file gave. `None` is a miss: the
    /// file is not there, or it is damaged, and then the blob is dropped so that the caller fetches
    /// it again. With `verify` the file must have the blob's digest; without, it must only reach
    /// far enough.
    pub fn get_blob_range(
        &mut self,
        h: &[u8; 32],
        off: u32,
        len: u32,
        verify: bool,
        file: &BlobFile,
        now: u64,
    ) -> (res: Option<Vec<u8>>)
        requires
            old(self).wf(),
        ensures
            final(self).wf(),
            range_got(*old(self), *final(self), h@, off, len, verify, *file, now, opt_bytes(res)),
    {
        match file {
            BlobFile::Missing => {
                self.miss();
                None
            },
            BlobFile::Unreadable => {
                self.corrupt(h);
                None
            },
            BlobFile::Bytes(b) => {
                let end: u64 = off as u64 + len as u64;
                let damaged = if verify {
                    !same_bytes(hash(b.as_slice()).as_slice(), h.as_slice()) || end
                        > b.len() as u64
                } else {
                    len > 0 && end > b.len() as u64
                };
                if damaged {
                    self.corrupt(h);
                    return None;
                }
                let _rewritten = self.hit(h, now);
                if len == 0 {
                    let none: Vec<u8> = Vec::new();
                    proof {
                        assert(none@ =~= Seq::<u8>::empty());
                    }
                    return Some(none);
                }
                Some(to_vec(slice_subrange(b.as_slice(), off as usize, end as usize)))
            },
        }
    }

    /// Read a whole blob, by the length that is stored of it, without verifying it. One that is
    /// not stored is a miss.
    pub fn get_blob(&mut self, h: &[u8; 32], file: &BlobFile, now: u64) -> (res: Option<Vec<u8>>)
        requires
            old(self).wf(),
        ensures
            final(self).wf(),
            if old(self).chunks@.contains_key(h@) {
                range_got(
                    *old(self),
                    *final(self),
                    h@,
                    0,
                    old(self).chunks@[h@].0,
                    false,
                    *file,
                    now,
                    opt_bytes(res),
                )
            } else {
                res is None && missed(*old(self), *final(self))
            },
    {
        match self.chunks.get(h) {
            Some((len, _)) => self.get_blob_range(h, 0, len, false, file, now),
            None => {
                self.miss();
                None
            },
        }
    }

    fn corrupt(&mut self, h: &[u8; 32])
        requires
            old(self).wf(),
        ensures
            final(self).wf(),
            found_corrupt(*old(self), *final(self), h@),
    {
        let ghost pre = *self;
        self.drop_corrupt(h);
        let ghost mid = *self;
        self.miss();
        proof {
            assert(chunk_dropped(pre, mid, h@));
        }
    }

    // ---- scrub ---------------------------------------------------------------------------------

    /// The blobs to scrub: the first `sample` in digest order, or all of them for 0.
    pub fn scrub_list(&self, sample: usize) -> (list: Vec<[u8; 32]>)
        ensures
            list@.len() == (if sample == 0 || sample > self.chunks.rows@.len() {
                self.chunks.rows@.len()
            } else {
                sample as nat
            }),
            forall|i: int| 0 <= i < list@.len() ==> #[trigger] list@[i] == self.chunks.rows@[i].hash,
    {
        let n: usize = if sample == 0 || sample > self.chunks.rows.len() {
            self.chunks.rows.len()
        } else {
            sample
        };
        let mut list: Vec<[u8; 32]> = Vec::new();
        let mut i: usize = 0;
        while i < n
            invariant
                i <= n <= self.chunks.rows@.len(),
                list@.len() == i,
                forall|j: int| 0 <= j < i ==> #[trigger] list@[j] == self.chunks.rows@[j].hash,
            decreases n - i,
        {
            list.push(self.chunks.rows[i].hash);
            i = i + 1;
        }
        list
    }

    /// Scrub one blob, given its file: a wrong digest is corrupt, no readable file is missing,
    /// and either drops the chunk.
    pub fn scrub_one(&mut self, h: &[u8; 32], file: &BlobFile, rep: &mut ScrubReport)
        requires
            old(self).wf(),
            old(rep).checked < u64::MAX,
            old(rep).corrupt < u64::MAX,
            old(rep).missing < u64::MAX,
        ensures
            final(self).wf(),
            match *file {
                BlobFile::Bytes(b) => if blake3_hash(b@) == h@ {
                    &&& *final(self) == *old(self)
                    &&& *final(rep) == (ScrubReport {
                        checked: (old(rep).checked + 1) as u64,
                        ..*old(rep)
                    })
                } else {
                    &&& chunk_dropped(*old(self), *final(self), h@)
                    &&& *final(rep) == (ScrubReport {
                        checked: (old(rep).checked + 1) as u64,
                        corrupt: (old(rep).corrupt + 1) as u64,
                        ..*old(rep)
                    })
                },
                _ => {
                    &&& chunk_dropped(*old(self), *final(self), h@)
                    &&& *final(rep) == (ScrubReport {
                        checked: (old(rep).checked + 1) as u64,
                        missing: (old(rep).missing + 1) as u64,
                        ..*old(rep)
                    })
                },
            },
    {
        rep.checked = rep.checked + 1;
        match file {
            BlobFile::Bytes(b) => {
                if !same_bytes(hash(b.as_slice()).as_slice(), h.as_slice()) {
                    rep.corrupt = rep.corrupt + 1;
                    self.drop_corrupt(h);
                }
            },
            _ => {
                rep.missing = rep.missing + 1;
                self.drop_corrupt(h);
            },
        }
    }

    /// Drop everything; the totals of the run are kept.
    pub fn clear(&mut self)
        requires
            old(self).wf(),
        ensures
            final(self).wf(),
            final(self).manifests@ == Map::<ManifestKey, Vec<u8>>::empty(),
            final(self).chunks@ == Map::<Seq<u8>, Entry>::empty(),
            final(self).recency@ == Map::<Seq<u8>, u64>::empty(),
            final(self).total_bytes == 0,
            final(self).blobs == 0,
            final(self).max_bytes == old(self).max_bytes,
            final(self).target == old(self).target,
            final(self).c == old(self).c,
    {
        self.manifests.clear();
        self.chunks = ChunkTable::new();
        self.recency.clear();
        self.total_bytes = 0;
        self.blobs = 0;
    }

    pub fn stats(&self) -> (s: CasStats)
        ensures
            s == (CasStats {
                hits: self.c.hits,
                misses: self.c.misses,
                blobs: self.blobs,
                total_bytes: self.total_bytes,
                max_bytes: self.max_bytes,
                ingested_bytes: self.c.ingested_bytes,
                evictions: self.c.evictions,
                evicted_bytes: self.c.evicted_bytes,
                corrupt_dropped: self.c.corrupt_dropped,
            }),
    {
        CasStats {
            hits: self.c.hits,
            misses: self.c.misses,
            blobs: self.blobs,
            total_bytes: self.total_bytes,
            max_bytes: self.max_bytes,
            ingested_bytes: self.c.ingested_bytes,
            evictions: self.c.evictions,
            evicted_bytes: self.c.evicted_bytes,
            corrupt_dropped: self.c.corrupt_dropped,
        }
    }
}

/// Where a blob's file lies: under the first two digits of its digest, named by all of them.
pub fn blob_path(h: &[u8; 32]) -> (path: (Vec<u8>, Vec<u8>))
    ensures
        path.0@ == hex_of(h@).take(2),
        path.1@ == hex_of(h@),
{
    let name = hex(h.as_slice());
    let mut dir: Vec<u8> = Vec::new();
    dir.push(name[0]);
    dir.push(name[1]);
    proof {
        assert(dir@ =~= hex_of(h@).take(2));
    }
    (dir, name)
}

/// What reading a blob's file gave.
#[derive(Debug)]
pub enum BlobFile {
    /// It could not be opened.
    Missing,
    /// It could not be read.
    Unreadable,
    Bytes(Vec<u8>),
}

// ---- what the operations do ----------------------------------------------------------------------

/// A blob came in: its row, its share of the accounts, its last use.
pub open spec fn blob_added(pre: CasStore, post: CasStore, h: Seq<u8>, len: nat, now: u64) -> bool {
    &&& post.wf()
    &&& post.chunks@ == pre.chunks@.insert(h, (len as u32, now))
    &&& post.recency@ == pre.recency@.insert(h, now)
    &&& post == (CasStore {
        chunks: post.chunks,
        recency: post.recency,
        total_bytes: post.total_bytes,
        blobs: post.blobs,
        c: Counters { ingested_bytes: plus(pre.c.ingested_bytes, len as int), ..pre.c },
        ..pre
    })
}

/// A blob came in, and an eviction followed if the total went over the hard cap.
pub open spec fn blob_put(
    pre: CasStore,
    post: CasStore,
    h: Seq<u8>,
    len: nat,
    now: u64,
    victims: Seq<[u8; 32]>,
) -> bool {
    exists|mid: CasStore| #[trigger]
        blob_added(pre, mid, h, len, now) && settled(mid, post, now, victims)
}

/// A chunk was merged into its file's manifest, and its blob came in.
pub open spec fn chunk_ingested(
    pre: CasStore,
    post: CasStore,
    key: ManifestKey,
    off: u64,
    h: Seq<u8>,
    len: nat,
    now: u64,
    bytes: Seq<u8>,
    gone: Seq<ManifestKey>,
    victims: Seq<[u8; 32]>,
) -> bool {
    exists|mid: CasStore| #[trigger]
        manifest_put(
            pre,
            mid,
            key,
            merged(rows_or_none(pre.manifest(key)), (off, len as u32, h)),
            gone,
            bytes,
        ) && blob_put(mid, post, h, len, now, victims)
}

/// The rows that chunks make.
pub open spec fn rows_of(list: Seq<(u64, Vec<u8>)>) -> Seq<Row> {
    Seq::new(
        list.len(),
        |i: int| (list[i].0, list[i].1@.len() as u32, blake3_hash(list[i].1@)),
    )
}

/// The blobs of all chunks of a list came in, one after the other.
pub open spec fn all_added(
    pre: CasStore,
    post: CasStore,
    list: Seq<(u64, Vec<u8>)>,
    now: u64,
) -> bool
    decreases list.len(),
{
    if list.len() == 0 {
        post == pre
    } else {
        exists|mid: CasStore|
            all_added(pre, mid, list.drop_last(), now) && #[trigger] blob_added(
                mid,
                post,
                blake3_hash(list.last().1@),
                list.last().1@.len(),
                now,
            )
    }
}

/// The manifest of a list of chunks was put: the chunks by offset.
pub open spec fn listing_put(
    pre: CasStore,
    post: CasStore,
    key: ManifestKey,
    list: Seq<(u64, Vec<u8>)>,
    gone: Seq<ManifestKey>,
    bytes: Seq<u8>,
) -> bool {
    exists|sorted: Seq<Row>| #[trigger]
        by_offset(rows_of(list), sorted) && manifest_put(pre, post, key, sorted, gone, bytes)
}

/// All chunks of a file came in, and its manifest lists them by offset.
pub open spec fn chunks_ingested(
    pre: CasStore,
    post: CasStore,
    key: ManifestKey,
    list: Seq<(u64, Vec<u8>)>,
    now: u64,
    bytes: Seq<u8>,
    gone: Seq<ManifestKey>,
    victims: Seq<[u8; 32]>,
) -> bool {
    exists|s1: CasStore, s2: CasStore|
        {
            &&& #[trigger] all_added(pre, s1, list, now)
            &&& #[trigger] listing_put(s1, s2, key, list, gone, bytes)
            &&& settled(s2, post, now, victims)
        }
}

/// Whether a use rewrites the stored last access: the chunk is stored, and was not used for a
/// while, or not in this run.
pub open spec fn rewrites(st: CasStore, h: Seq<u8>, now: u64) -> bool {
    &&& st.chunks@.contains_key(h)
    &&& st.recency@.contains_key(h) ==> now >= st.recency@[h] + ACCESS_WRITE_GRANULARITY
}

/// A chunk was used.
pub open spec fn touched(pre: CasStore, post: CasStore, h: Seq<u8>, now: u64) -> bool {
    &&& post.recency@ == pre.recency@.insert(h, now)
    &&& post.chunks@ == (if rewrites(pre, h, now) {
        pre.chunks@.insert(h, (pre.chunks@[h].0, now))
    } else {
        pre.chunks@
    })
    &&& post == (CasStore { recency: post.recency, chunks: post.chunks, ..pre })
}

/// A chunk went, with its share of the accounts.
pub open spec fn chunk_dropped(pre: CasStore, post: CasStore, h: Seq<u8>) -> bool {
    let known = pre.chunks@.contains_key(h);
    &&& post.chunks@ == pre.chunks@.remove(h)
    &&& post.recency@ == pre.recency@.remove(h)
    &&& post == (CasStore {
        chunks: post.chunks,
        recency: post.recency,
        total_bytes: if known {
            (pre.total_bytes - pre.chunks@[h].0) as u64
        } else {
            pre.total_bytes
        },
        blobs: if known {
            (pre.blobs - 1) as u64
        } else {
            pre.blobs
        },
        c: Counters { corrupt_dropped: plus(pre.c.corrupt_dropped, 1), ..pre.c },
        ..pre
    })
}

/// What a read gives of a blob whose file holds `b`: the part that was asked for, if the file
/// reaches that far, and where that is to be verified, if it has the blob's digest.
pub open spec fn blob_read(h: Seq<u8>, off: u32, len: u32, verify: bool, b: Seq<u8>) -> Option<
    Seq<u8>,
> {
    if verify && !(blake3_hash(b) == h && off + len <= b.len()) {
        None
    } else if len == 0 {
        Some(Seq::empty())
    } else if off + len <= b.len() {
        Some(b.subrange(off as int, off + len))
    } else {
        None
    }
}

/// Bytes that may be missing, by value.
pub open spec fn opt_bytes(v: Option<Vec<u8>>) -> Option<Seq<u8>> {
    match v {
        Some(v) => Some(v@),
        None => None,
    }
}

/// A range of a blob was read, and this came of it.
pub open spec fn range_got(
    pre: CasStore,
    post: CasStore,
    h: Seq<u8>,
    off: u32,
    len: u32,
    verify: bool,
    file: BlobFile,
    now: u64,
    res: Option<Seq<u8>>,
) -> bool {
    match file {
        BlobFile::Missing => res is None && missed(pre, post),
        BlobFile::Unreadable => res is None && found_corrupt(pre, post, h),
        BlobFile::Bytes(b) => {
            &&& res == blob_read(h, off, len, verify, b@)
            &&& if res is Some {
                was_hit(pre, post, h, now)
            } else {
                found_corrupt(pre, post, h)
            }
        },
    }
}

pub open spec fn missed(pre: CasStore, post: CasStore) -> bool {
    post == (CasStore { c: Counters { misses: plus(pre.c.misses, 1), ..pre.c }, ..pre })
}

/// A damaged blob was dropped, and the read is a miss.
pub open spec fn found_corrupt(pre: CasStore, post: CasStore, h: Seq<u8>) -> bool {
    exists|mid: CasStore| #[trigger] chunk_dropped(pre, mid, h) && missed(mid, post)
}

pub open spec fn was_hit(pre: CasStore, post: CasStore, h: Seq<u8>, now: u64) -> bool {
    exists|mid: CasStore| #[trigger]
        touched(pre, mid, h, now) && post == (CasStore {
            c: Counters { hits: plus(mid.c.hits, 1), ..mid.c },
            ..mid
        })
}

} // verus!
