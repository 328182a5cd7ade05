//! The cache: what reads back, what goes, and what is never served.
use crate::cas::blobs::{
    all_added, blob_added, blob_path, blob_put, chunk_dropped, evicted, evicted_by, found_corrupt,
    listing_put, rows_of, scene_of, settled, touched, BlobFile, Evicted,
};
use crate::cas::chunks::{ChunkRow, ChunkTable};
use crate::cas::evict::Scene;
use crate::cas::manifest::{
    by_offset, merge, merged, offsets, place_of, refs_view, sort_by_offset, ChunkRef, ManifestKey,
    Row,
};
use crate::cas::store::{
    manifest_put, marked_hashes, rows_or_none, unmarked_rows, CasStats, CasStore, ScrubReport,
};
use crate::digest::blake3_hash;
use crate::sort::{ordered, precedes, sort_order, spans};
use vstd::prelude::*;

verus! {

/// The same file, in whatever version.
pub open spec fn same_file(a: ManifestKey, b: ManifestKey) -> bool {
    a.share == b.share && a.ino == b.ino && a.generation == b.generation
}

/// A chunk list reads back as it was put, under its key; other versions of the file are gone, and
/// other files read as before.
pub proof fn manifests_read_back(
    st: &mut CasStore,
    key: ManifestKey,
    refs: &Vec<ChunkRef>,
    res: (Vec<ManifestKey>, Vec<u8>),
    other: ManifestKey,
    got: Option<Vec<ChunkRef>>,
    before: Option<Vec<ChunkRef>>,
    after: Option<Vec<ChunkRef>>,
)
    requires
        call_ensures(CasStore::put_manifest, (st, key, refs), res),
        call_ensures(CasStore::get_manifest, (&*final(st), &key), got),
        call_ensures(CasStore::get_manifest, (&*old(st), &other), before),
        call_ensures(CasStore::get_manifest, (&*final(st), &other), after),
    ensures
        got is Some,
        refs_view(got->0@) == refs_view(refs@),
        same_file(key, other) && other.content_version != key.content_version ==> after is None,
        !same_file(key, other) ==> (after is Some <==> before is Some),
        !same_file(key, other) && before is Some ==> refs_view(after->0@) == refs_view(before->0@),
{
    assert(other != key ==> final(st).manifests@.contains_key(other) == (old(
        st).manifests@.contains_key(other) && !other.stale_for(key)));
}

proof fn place_is_right(rows: Seq<Row>, off: u64)
    ensures
        0 <= place_of(rows, off) <= rows.len(),
        forall|j: int| 0 <= j < place_of(rows, off) ==> (#[trigger] rows[j]).0 < off,
        place_of(rows, off) < rows.len() ==> rows[place_of(rows, off)].0 >= off,
    decreases rows.len(),
{
    if rows.len() > 0 && rows[0].0 < off {
        let t = rows.skip(1);
        place_is_right(t, off);
        let p = place_of(rows, off);
        assert forall|j: int| 0 <= j < p implies (#[trigger] rows[j]).0 < off by {
            if j > 0 {
                assert(t[j - 1] == rows[j]);
            }
        }
        if p < rows.len() {
            assert(t[p - 1] == rows[p]);
        }
    }
}

/// The rows rise by their offsets.
pub open spec fn rising(rows: Seq<Row>) -> bool {
    forall|i: int, j: int|
        0 <= i < j < rows.len() ==> (#[trigger] rows[i]).0 < (#[trigger] rows[j]).0
}

/// A row is put into a list that rises: it is there, the others are those of other offsets, and
/// the list still rises.
pub open spec fn put_in(before: Seq<Row>, c: Row, after: Seq<Row>) -> bool {
    &&& after.contains(c)
    &&& forall|r: Row| #[trigger]
        after.contains(r) ==> r == c || (before.contains(r) && r.0 != c.0)
    &&& forall|r: Row| #[trigger] before.contains(r) && r.0 != c.0 ==> after.contains(r)
    &&& rising(after)
}

proof fn merged_is_put_in(rows: Seq<Row>, c: Row)
    requires
        rising(rows),
    ensures
        put_in(rows, c, merged(rows, c)),
{
    place_is_right(rows, c.0);
    let p = place_of(rows, c.0);
    let m = merged(rows, c);
    assert(m[p] == c);
    let same = p < rows.len() && rows[p].0 == c.0;
    assert forall|r: Row| #[trigger] m.contains(r) implies r == c || (rows.contains(r) && r.0
        != c.0) by {
        let k = choose|k: int| 0 <= k < m.len() && m[k] == r;
        if same {
            if k != p {
                assert(rows[k] == r);
            }
        } else if k < p {
            assert(rows[k] == r);
        } else if k > p {
            assert(rows[k - 1] == r);
            assert(rows[p].0 > c.0);
        }
    }
    assert forall|r: Row| #[trigger] rows.contains(r) && r.0 != c.0 implies m.contains(r) by {
        let k = choose|k: int| 0 <= k < rows.len() && rows[k] == r;
        if same || k < p {
            assert(m[k] == r);
        } else {
            assert(m[k + 1] == r);
        }
    }
    assert forall|i: int, j: int| 0 <= i < j < m.len() implies (#[trigger] m[i]).0 < (
    #[trigger] m[j]).0 by {
        if same {
            assert(i != p ==> m[i] == rows[i]);
            assert(j != p ==> m[j] == rows[j]);
            let a = rows[i];
            let b = rows[j];
        } else {
            let i0 = if i < p {
                i
            } else {
                i - 1
            };
            let j0 = if j < p {
                j
            } else {
                j - 1
            };
            if i != p {
                assert(m[i] == rows[i0]);
            }
            if j != p {
                assert(m[j] == rows[j0]);
            }
            if i == p {
                assert(rows[p].0 > c.0);
            }
        }
    }
}

/// A chunk put into a list takes the place of the one at its offset, and no other one's.
pub proof fn chunks_are_put_in(refs: &mut Vec<ChunkRef>, c: ChunkRef)
    requires
        call_ensures(merge, (refs, c), ()),
        rising(refs_view(old(refs)@)),
    ensures
        put_in(
            refs_view(old(refs)@),
            (c.off, c.len, c.hash@),
            refs_view(final(refs)@),
        ),
{
    merged_is_put_in(refs_view(old(refs)@), c@);
}

/// A chunk that is merged into a file's list reads back with those at other offsets.
pub proof fn merged_chunks_read_back(
    st: &mut CasStore,
    key: ManifestKey,
    chunk: ChunkRef,
    res: (Vec<ManifestKey>, Vec<u8>),
    before: Option<Vec<ChunkRef>>,
    after: Option<Vec<ChunkRef>>,
)
    requires
        call_ensures(CasStore::merge_chunk, (st, key, chunk), res),
        call_ensures(CasStore::get_manifest, (&*old(st), &key), before),
        call_ensures(CasStore::get_manifest, (&*final(st), &key), after),
        before is Some ==> rising(refs_view(before->0@)),
    ensures
        after is Some,
        put_in(
            if before is Some {
                refs_view(before->0@)
            } else {
                Seq::empty()
            },
            (chunk.off, chunk.len, chunk.hash@),
            refs_view(after->0@),
        ),
{
    let was = rows_or_none(old(st).manifest(key));
    merged_is_put_in(was, chunk@);
}

/// What is sorted by offset has the same chunks, and no offset comes after a greater one.
pub proof fn sorting_keeps_the_chunks(refs: &Vec<ChunkRef>, sorted: Vec<ChunkRef>)
    requires
        call_ensures(sort_by_offset, (refs,), sorted),
        refs@.len() <= usize::MAX,
    ensures
        sorted@.len() == refs@.len(),
        forall|i: int, j: int|
            0 <= i < j < sorted@.len() ==> (#[trigger] sorted@[i]).off <= (#[trigger] sorted@[j]).off,
        forall|r: Row| #[trigger]
            refs_view(sorted@).contains(r) <==> refs_view(refs@).contains(r),
{
    by_offset_sorts(refs_view(refs@), refs_view(sorted@));
    let v = refs_view(sorted@);
    assert forall|i: int, j: int| 0 <= i < j < sorted@.len() implies (#[trigger] sorted@[i]).off <= (
    #[trigger] sorted@[j]).off by {
        assert(v[i].0 <= v[j].0);
    }
}

proof fn by_offset_sorts(rows: Seq<Row>, sorted: Seq<Row>)
    requires
        by_offset(rows, sorted),
        rows.len() <= usize::MAX,
    ensures
        sorted.len() == rows.len(),
        forall|i: int, j: int|
            0 <= i < j < sorted.len() ==> (#[trigger] sorted[i]).0 <= (#[trigger] sorted[j]).0,
        forall|r: Row| #[trigger] sorted.contains(r) <==> rows.contains(r),
{
    let list = choose|list: Seq<usize>| #[trigger]
        spans(list, 0, rows.len() as int) && ordered(offsets(rows), list) && sorted == Seq::new(
            rows.len(),
            |i: int| rows[list[i] as int],
        );
    assert(spans(list, 0, rows.len() as int));
    assert forall|i: int, j: int| 0 <= i < j < sorted.len() implies (#[trigger] sorted[i]).0 <= (
    #[trigger] sorted[j]).0 by {
        assert(list.contains(list[i]) && list.contains(list[j]));
        assert(precedes(offsets(rows), list[i], list[j]));
    }
    assert forall|r: Row| #[trigger] sorted.contains(r) <==> rows.contains(r) by {
        if sorted.contains(r) {
            let k = choose|k: int| 0 <= k < sorted.len() && sorted[k] == r;
            assert(list.contains(list[k]));
            assert(rows[list[k] as int] == r);
        }
        if rows.contains(r) {
            let k = choose|k: int| 0 <= k < rows.len() && rows[k] == r;
            assert(list.contains(k as usize));
            let q = choose|q: int| 0 <= q < list.len() && list[q] == k as usize;
            assert(sorted[q] == r);
        }
    }
}

/// The indices of a list of numbers, sorted by them: every one of them once, a smaller number first,
/// and of equal numbers the earlier.
pub proof fn sorting_is_stable(keys: &Vec<u64>, list: Vec<usize>, i: int, j: int)
    requires
        call_ensures(sort_order, (keys,), list),
        0 <= i < j < list@.len(),
    ensures
        list@.len() == keys@.len(),
        list@[i] < keys@.len() && list@[j] < keys@.len(),
        list@[i] != list@[j],
        keys@[list@[i] as int] <= keys@[list@[j] as int],
        keys@[list@[i] as int] == keys@[list@[j] as int] ==> list@[i] < list@[j],
{
    assert(list@.contains(list@[i]) && list@.contains(list@[j]));
    assert(precedes(keys@, list@[i], list@[j]));
}

/// A dropped file reads in no version, and every other file as before.
pub proof fn dropped_nodes_miss(
    st: &mut CasStore,
    share: u16,
    ino: u64,
    generation: u32,
    gone: Vec<ManifestKey>,
    key: ManifestKey,
    before: Option<Vec<ChunkRef>>,
    after: Option<Vec<ChunkRef>>,
)
    requires
        call_ensures(CasStore::drop_node, (st, share, ino, generation), gone),
        call_ensures(CasStore::get_manifest, (&*old(st), &key), before),
        call_ensures(CasStore::get_manifest, (&*final(st), &key), after),
    ensures
        ({
            let hit = key.share == share && key.ino == ino && key.generation == generation;
            &&& hit ==> after is None
            &&& !hit ==> (after is Some <==> before is Some)
            &&& !hit && before is Some ==> refs_view(after->0@) == refs_view(before->0@)
            &&& gone@.contains(key) <==> hit && old(st).manifests@.contains_key(key)
        }),
        final(st).chunks == old(st).chunks,
{
    assert(final(st).manifests@.contains_key(key) == (old(st).manifests@.contains_key(key) && !(
    key.share == share && key.ino == ino && key.generation == generation)));
}

/// A dropped share reads in no file, and the files of others as before.
pub proof fn dropped_shares_miss(
    st: &mut CasStore,
    share: u16,
    gone: Vec<ManifestKey>,
    key: ManifestKey,
    before: Option<Vec<ChunkRef>>,
    after: Option<Vec<ChunkRef>>,
)
    requires
        call_ensures(CasStore::drop_share, (st, share), gone),
        call_ensures(CasStore::get_manifest, (&*old(st), &key), before),
        call_ensures(CasStore::get_manifest, (&*final(st), &key), after),
    ensures
        key.share == share ==> after is None,
        key.share != share ==> (after is Some <==> before is Some),
        key.share != share && before is Some ==> refs_view(after->0@) == refs_view(before->0@),
        gone@.contains(key) <==> key.share == share && old(st).manifests@.contains_key(key),
        final(st).chunks == old(st).chunks,
{
    assert(final(st).manifests@.contains_key(key) == (old(st).manifests@.contains_key(key)
        && key.share != share));
}

/// What was kept under one key reads under the other, and no longer under the first; there is
/// nothing to move where nothing was kept.
pub proof fn rebound_manifests_read(
    st: &mut CasStore,
    from: ManifestKey,
    to: ManifestKey,
    res: Option<Vec<ManifestKey>>,
    was: Option<Vec<ChunkRef>>,
    now: Option<Vec<ChunkRef>>,
    left: Option<Vec<ChunkRef>>,
)
    requires
        call_ensures(CasStore::rebind_manifest, (st, from, to), res),
        call_ensures(CasStore::get_manifest, (&*old(st), &from), was),
        call_ensures(CasStore::get_manifest, (&*final(st), &to), now),
        call_ensures(CasStore::get_manifest, (&*final(st), &from), left),
    ensures
        res is Some <==> old(st).manifests@.contains_key(from),
        res is None ==> *final(st) == *old(st),
        res is Some ==> (now is Some <==> was is Some),
        res is Some && was is Some ==> refs_view(now->0@) == refs_view(was->0@),
        res is Some && from != to ==> left is None,
{
    if res is Some {
        assert(from != to ==> !final(st).manifests@.contains_key(from));
    }
}

/// The bytes that a read of a blob gives are those of its file at that place, all of them; a
/// verified read gives none of bytes with another digest.
pub proof fn damage_is_not_served(
    st: &mut CasStore,
    h: &[u8; 32],
    off: u32,
    len: u32,
    verify: bool,
    file: &BlobFile,
    now: u64,
    res: Option<Vec<u8>>,
)
    requires
        call_ensures(CasStore::get_blob_range, (st, h, off, len, verify, file, now), res),
    ensures
        res is Some ==> *file is Bytes,
        res is Some ==> res->0@.len() == len,
        res is Some && (len > 0 || verify) ==> off + len <= file->Bytes_0@.len() && res->0@
            == file->Bytes_0@.subrange(off as int, off + len),
        res is Some && verify ==> blake3_hash(file->Bytes_0@) == h@,
        *file is Bytes && off + len <= file->Bytes_0@.len() && (!verify || blake3_hash(
            file->Bytes_0@,
        ) == h@) ==> res is Some,
        *file is Missing ==> final(st).chunks == old(st).chunks,
        res is None && !(*file is Missing) ==> !final(st).chunks@.contains_key(h@),
        res is Some && old(st).c.hits < u64::MAX ==> final(st).c.hits == old(st).c.hits + 1
            && final(st).c.misses == old(st).c.misses,
        res is None && old(st).c.misses < u64::MAX ==> final(st).c.misses == old(st).c.misses + 1
            && final(st).c.hits == old(st).c.hits,
        final(st).manifests == old(st).manifests,
{
    if *file is Bytes && len == 0 && res is Some {
        let b = file->Bytes_0@;
        assert(verify ==> res->0@ =~= b.subrange(off as int, off + len));
    }
    if res is Some {
        let mid = choose|mid: CasStore| #[trigger]
            touched(*old(st), mid, h@, now) && final(st).c.hits == crate::cas::store::plus(
                mid.c.hits,
                1,
            );
        assert(touched(*old(st), mid, h@, now));
    } else if !(*file is Missing) {
        assert(found_corrupt(*old(st), *final(st), h@));
        let mid = choose|mid: CasStore| #[trigger]
            chunk_dropped(*old(st), mid, h@) && crate::cas::blobs::missed(mid, *final(st));
        assert(chunk_dropped(*old(st), mid, h@));
    }
}

/// A read of a whole blob gives as many bytes as were stored.
pub proof fn whole_blobs_are_read(
    st: &mut CasStore,
    h: &[u8; 32],
    file: &BlobFile,
    now: u64,
    res: Option<Vec<u8>>,
)
    requires
        call_ensures(CasStore::get_blob, (st, h, file, now), res),
    ensures
        res is Some ==> *file is Bytes && old(st).chunks@.contains_key(h@),
        res is Some ==> res->0@.len() == old(st).chunks@[h@].0,
        res is Some && res->0@.len() > 0 ==> res->0@ == file->Bytes_0@.take(
            res->0@.len() as int,
        ),
        old(st).chunks@.contains_key(h@) && *file is Bytes && file->Bytes_0@.len() >= old(
            st).chunks@[h@].0 ==> res is Some,
{
    if res is Some && res->0@.len() > 0 {
        let b = file->Bytes_0@;
        let n = res->0@.len() as int;
        assert(b.subrange(0, n) =~= b.take(n));
    }
}

/// A blob is stored under its digest with its length, unless it went again; the cache is then
/// within its cap or its target.
pub proof fn blobs_are_stored(
    st: &mut CasStore,
    data: &[u8],
    now: u64,
    res: ([u8; 32], Vec<[u8; 32]>),
)
    requires
        call_ensures(CasStore::put_blob, (st, data, now), res),
        data@.len() <= u32::MAX,
    ensures
        res.0@ == blake3_hash(data@),
        final(st).total_bytes <= old(st).max_bytes || final(st).total_bytes <= old(st).target,
        final(st).manifests == old(st).manifests,
        final(st).max_bytes == old(st).max_bytes,
        res.1@.len() == 0 ==> final(st).chunks@.contains_key(res.0@),
        res.1@.len() == 0 ==> final(st).chunks@[res.0@].0 == data@.len(),
        res.1@.len() == 0 ==> final(st).chunks@[res.0@].1 == now,
        res.1@.len() == 0 && old(st).c.ingested_bytes + data@.len() <= u64::MAX ==> final(
            st).c.ingested_bytes == old(st).c.ingested_bytes + data@.len(),
{
    assert(blob_put(*old(st), *final(st), res.0@, data@.len(), now, res.1@));
    let mid = choose|mid: CasStore| #[trigger]
        blob_added(*old(st), mid, res.0@, data@.len(), now) && settled(
            mid,
            *final(st),
            now,
            res.1@,
        );
    assert(blob_added(*old(st), mid, res.0@, data@.len(), now));
    if mid.total_bytes > mid.max_bytes {
        let e = choose|e: Evicted| #[trigger]
            evicted(mid, *final(st), now, e) && e.victims@ == res.1@;
        assert(evicted(mid, *final(st), now, e));
        if mid.total_bytes > mid.target {
            let list = choose|list: Seq<usize>| #[trigger]
                scene_of(mid, list, now).wf() && evicted_by(
                    mid,
                    *final(st),
                    scene_of(mid, list, now).victims(mid.max_bytes),
                    e,
                );
            let scene = scene_of(mid, list, now);
            assert(scene.wf());
            let mask = scene.victims(mid.max_bytes);
            victims_len(scene, mid.max_bytes);
            if res.1@.len() == 0 {
                none_marked(mid.chunks.rows@, mask);
                assert(final(st).chunks.rows@ =~= mid.chunks.rows@);
                assert(final(st).chunks@ =~= mid.chunks@);
            }
        }
    }
}

proof fn none_marked(rows: Seq<ChunkRow>, mask: Seq<bool>)
    requires
        rows.len() == mask.len(),
        marked_hashes(rows, mask).len() == 0,
    ensures
        unmarked_rows(rows, mask) == rows,
    decreases rows.len(),
{
    if rows.len() > 0 {
        assert(!mask.last());
        none_marked(rows.drop_last(), mask.drop_last());
        assert(unmarked_rows(rows, mask) =~= rows);
    } else {
        assert(unmarked_rows(rows, mask) =~= rows);
    }
}

proof fn victims_len(scene: Scene, max: u64)
    requires
        scene.wf(),
    ensures
        scene.victims(max).len() == scene.rows.len(),
{
    scene.lists_chunks();
    spare_marks(scene, 0, scene.unmarked());
    force_len(scene, 0, scene.spare(0, scene.unmarked()));
}

proof fn force_len(scene: Scene, k: nat, mask: Seq<bool>)
    requires
        scene.wf(),
        mask.len() == scene.rows.len(),
    ensures
        scene.force(k, mask).len() == mask.len(),
        forall|i: int| 0 <= i < mask.len() && mask[i] ==> #[trigger] scene.force(k, mask)[i],
    decreases scene.list.len() - k,
{
    if k < scene.list.len() && !scene.enough(mask) {
        let j = scene.list[k as int] as int;
        assert(scene.list.contains(scene.list[k as int]));
        if mask[j] {
            force_len(scene, k + 1, mask);
        } else {
            force_len(scene, k + 1, mask.update(j, true));
        }
    }
}

/// A chunk is protected that was used less than ten minutes ago.
pub open spec fn recent(now: u64, last: u64) -> bool {
    now < last + 600
}

proof fn spare_marks(scene: Scene, k: nat, mask: Seq<bool>)
    requires
        scene.wf(),
        mask.len() == scene.rows.len(),
        k <= scene.list.len(),
        forall|q: int| k <= q < scene.list.len() ==> !mask[#[trigger] scene.list[q] as int],
    ensures
        scene.spare(k, mask).len() == mask.len(),
        forall|p: int, q: int|
            k <= p < q < scene.list.len() && !recent(
                scene.now,
                scene.lasts[(#[trigger] scene.list[p]) as int],
            ) && scene.spare(k, mask)[(#[trigger] scene.list[q]) as int] ==> scene.spare(
                k,
                mask,
            )[scene.list[p] as int],
        forall|q: int|
            k <= q < scene.list.len() && recent(
                scene.now,
                scene.lasts[(#[trigger] scene.list[q]) as int],
            ) ==> !scene.spare(k, mask)[scene.list[q] as int],
        forall|i: int| 0 <= i < mask.len() && mask[i] ==> #[trigger] scene.spare(k, mask)[i],
    decreases scene.list.len() - k,
{
    scene.lists_chunks();
    if k < scene.list.len() && !scene.enough(mask) {
        let j = scene.list[k as int] as int;
        let hot = recent(scene.now, scene.lasts[j]);
        let next = if hot {
            mask
        } else {
            mask.update(j, true)
        };
        assert forall|q: int| k + 1 <= q < scene.list.len() implies !next[#[trigger] scene.list[q]
            as int] by {
            assert(scene.list[k as int] != scene.list[q]);
        }
        spare_marks(scene, k + 1, next);
        let r = scene.spare(k, mask);
        assert(r == scene.spare(k + 1, next));
        if hot {
            spared_stays(scene, k + 1, mask, j);
        } else {
            assert(next[j]);
        }
    }
}

proof fn spared_stays(scene: Scene, k: nat, mask: Seq<bool>, i: int)
    requires
        scene.wf(),
        mask.len() == scene.rows.len(),
        0 <= i < mask.len(),
        recent(scene.now, scene.lasts[i]),
        !mask[i],
    ensures
        !scene.spare(k, mask)[i],
    decreases scene.list.len() - k,
{
    if k < scene.list.len() && !scene.enough(mask) {
        let j = scene.list[k as int] as int;
        assert(scene.list.contains(scene.list[k as int]));
        if recent(scene.now, scene.lasts[j]) {
            spared_stays(scene, k + 1, mask, i);
        } else {
            spared_stays(scene, k + 1, mask.update(j, true), i);
        }
    }
}

proof fn left_iff_unmarked(rows: Seq<ChunkRow>, mask: Seq<bool>, i: int)
    requires
        rows.len() == mask.len(),
        0 <= i < rows.len(),
        forall|a: int, b: int|
            0 <= a < b < rows.len() ==> (#[trigger] rows[a]).hash@ != (#[trigger] rows[b]).hash@,
    ensures
        (exists|k: int|
            0 <= k < unmarked_rows(rows, mask).len() && (#[trigger] unmarked_rows(
                rows,
                mask,
            )[k]).hash@ == rows[i].hash@) <==> !mask[i],
    decreases rows.len(),
{
    let n = rows.len() - 1;
    let r1 = rows.drop_last();
    let m1 = mask.drop_last();
    let u = unmarked_rows(rows, mask);
    let u1 = unmarked_rows(r1, m1);
    assert forall|a: int, b: int| 0 <= a < b < r1.len() implies (#[trigger] r1[a]).hash@ != (
    #[trigger] r1[b]).hash@ by {
        assert(r1[a] == rows[a] && r1[b] == rows[b]);
    }
    unmarked_are_rows(r1, m1);
    if i < n {
        assert(r1[i] == rows[i] && m1[i] == mask[i]);
        left_iff_unmarked(r1, m1, i);
        assert(rows[i].hash@ != rows[n].hash@);
        if exists|k: int| 0 <= k < u1.len() && (#[trigger] u1[k]).hash@ == rows[i].hash@ {
            let k = choose|k: int| 0 <= k < u1.len() && (#[trigger] u1[k]).hash@ == rows[i].hash@;
            assert(u[k] == u1[k]);
        }
        if exists|k: int| 0 <= k < u.len() && (#[trigger] u[k]).hash@ == rows[i].hash@ {
            let k = choose|k: int| 0 <= k < u.len() && (#[trigger] u[k]).hash@ == rows[i].hash@;
            if k < u1.len() {
                assert(u1[k] == u[k]);
            } else {
                assert(u[k] == rows[n]);
            }
        }
    } else {
        if !mask[n] {
            assert(u[u.len() - 1] == rows[n]);
        } else if exists|k: int| 0 <= k < u.len() && (#[trigger] u[k]).hash@ == rows[i].hash@ {
            let k = choose|k: int| 0 <= k < u.len() && (#[trigger] u[k]).hash@ == rows[i].hash@;
            let q = choose|q: int| 0 <= q < r1.len() && r1[q] == u1[k];
            assert(r1.contains(u1[k]));
            assert(rows[q] == r1[q]);
            assert(rows[q].hash@ != rows[n].hash@);
        }
    }
}

proof fn unmarked_are_rows(rows: Seq<ChunkRow>, mask: Seq<bool>)
    requires
        rows.len() == mask.len(),
    ensures
        forall|k: int|
            0 <= k < unmarked_rows(rows, mask).len() ==> rows.contains(
                #[trigger] unmarked_rows(rows, mask)[k],
            ),
    decreases rows.len(),
{
    if rows.len() > 0 {
        let r1 = rows.drop_last();
        let m1 = mask.drop_last();
        unmarked_are_rows(r1, m1);
        let u = unmarked_rows(rows, mask);
        let u1 = unmarked_rows(r1, m1);
        assert forall|k: int| 0 <= k < u.len() implies rows.contains(#[trigger] u[k]) by {
            if k < u1.len() {
                assert(u[k] == u1[k]);
                let q = choose|q: int| 0 <= q < r1.len() && r1[q] == u1[k];
                assert(r1.contains(u1[k]));
                assert(rows[q] == u[k]);
            } else {
                assert(rows[rows.len() - 1] == u[k]);
            }
        }
    }
}

/// When a chunk was last used: as it is written down, or later in this run.
pub open spec fn used_last(st: CasStore, i: int) -> u64 {
    let row = st.chunks.rows@[i];
    if st.recency@.contains_key(row.hash@) && st.recency@[row.hash@] > row.access {
        st.recency@[row.hash@]
    } else {
        row.access
    }
}

/// A chunk is there after an eviction.
pub open spec fn survives(st: CasStore, h: Seq<u8>) -> bool {
    exists|k: int| 0 <= k < st.chunks.rows@.len() && (#[trigger] st.chunks.rows@[k]).hash@ == h
}

/// Nothing goes while the cache is within its target. Otherwise, of two chunks that were not used
/// for ten minutes the one used longer ago goes first; and as long as that brings the cache within
/// its hard cap, none goes that was used since.
pub proof fn oldest_go_first(
    st: &mut CasStore,
    now: u64,
    res: Evicted,
    i: int,
    j: int,
)
    requires
        call_ensures(CasStore::evict, (st, now), res),
        old(st).wf(),
        forall|a: int, b: int|
            0 <= a < b < old(st).chunks.rows@.len() ==> (#[trigger] old(st).chunks.rows@[a]).hash@
                != (#[trigger] old(st).chunks.rows@[b]).hash@,
        0 <= i < old(st).chunks.rows@.len(),
        0 <= j < old(st).chunks.rows@.len(),
    ensures
        old(st).total_bytes <= old(st).target ==> *final(st) == *old(st) && res.victims@.len() == 0,
        final(st).total_bytes <= old(st).target || final(st).total_bytes <= old(st).max_bytes,
        ({
            let a = old(st).chunks.rows@[i].hash@;
            let b = old(st).chunks.rows@[j].hash@;
            let last_a = used_last(*old(st), i);
            let last_b = used_last(*old(st), j);
            &&& !recent(now, last_a) && !recent(now, last_b) && last_a < last_b && survives(
                *final(st),
                a,
            ) ==> survives(*final(st), b)
            &&& recent(now, last_b) && old(st).total_bytes <= old(st).max_bytes ==> survives(
                *final(st),
                b,
            )
        }),
        final(st).manifests == old(st).manifests,
{
    let rows = old(st).chunks.rows@;
    if old(st).total_bytes <= old(st).target {
        assert(rows[i].hash@ == old(st).chunks.rows@[i].hash@);
        assert(rows[j].hash@ == old(st).chunks.rows@[j].hash@);
    } else {
        let list = choose|list: Seq<usize>| #[trigger]
            scene_of(*old(st), list, now).wf() && evicted_by(
                *old(st),
                *final(st),
                scene_of(*old(st), list, now).victims(old(st).max_bytes),
                res,
            );
        let scene = scene_of(*old(st), list, now);
        let max = old(st).max_bytes;
        let mask = scene.victims(max);
        assert(scene.wf());
        victims_len(scene, max);
        left_iff_unmarked(rows, mask, i);
        left_iff_unmarked(rows, mask, j);
        let spared = scene.spare(0, scene.unmarked());
        scene.lists_chunks();
        spare_marks(scene, 0, scene.unmarked());
        assert(old(st).chunks.rows.len() == rows.len());
        assert(list.contains(i as usize) && list.contains(j as usize)) by {
            assert(spans(list, 0, rows.len() as int));
        }
        let p = choose|p: int| 0 <= p < list.len() && list[p] == i as usize;
        let q = choose|q: int| 0 <= q < list.len() && list[q] == j as usize;
        let last_a = used_last(*old(st), i);
        let last_b = used_last(*old(st), j);
        assert(scene.lasts[i] == last_a && scene.lasts[j] == last_b);
        if !recent(now, last_a) && !recent(now, last_b) && last_a < last_b && mask[j] && !mask[i] {
            if q < p {
                assert(precedes(scene.lasts, list[q], list[p]));
            }
            assert(p < q);
            if spared[j] {
                assert(spared[i]);
                force_len(scene, 0, spared);
            } else {
                forced_order(scene, 0, spared, p, q);
            }
            assert(false);
        }
        if recent(now, last_b) {
            assert(!spared[j]) by {
                assert(scene.list[q] as int == j);
            }
        }
    }
}

/// Where all are taken in turn, an earlier one is taken if a later one is.
proof fn forced_order(scene: Scene, k: nat, mask: Seq<bool>, p: int, q: int)
    requires
        scene.wf(),
        mask.len() == scene.rows.len(),
        k <= p < q < scene.list.len(),
        !mask[scene.list[q] as int],
        scene.force(k, mask)[scene.list[q] as int],
    ensures
        scene.force(k, mask)[scene.list[p] as int],
    decreases scene.list.len() - k,
{
    scene.lists_chunks();
    if k < scene.list.len() && !scene.enough(mask) {
        let j = scene.list[k as int] as int;
        let next = if mask[j] {
            mask
        } else {
            mask.update(j, true)
        };
        assert(scene.list[k as int] != scene.list[q]);
        force_len(scene, k + 1, next);
        if k == p {
            assert(next[j]);
        } else {
            forced_order(scene, k + 1, next, p, q);
        }
    }
}

/// Using a chunk notes the time, and writes it down where it was not used for an hour or in this
/// run.
pub proof fn uses_are_noted(st: &mut CasStore, h: &[u8; 32], now: u64, rewritten: bool, other: Seq<u8>)
    requires
        call_ensures(CasStore::touch, (st, h, now), rewritten),
    ensures
        final(st).recency@.contains_key(h@) && final(st).recency@[h@] == now,
        rewritten <==> old(st).chunks@.contains_key(h@) && (!old(st).recency@.contains_key(h@)
            || now >= old(st).recency@[h@] + 3600),
        rewritten ==> final(st).chunks@.contains_key(h@) && final(st).chunks@[h@].1 == now
            && final(st).chunks@[h@].0 == old(st).chunks@[h@].0,
        !rewritten ==> final(st).chunks@ == old(st).chunks@,
        other != h@ ==> (final(st).chunks@.contains_key(other) <==> old(
            st).chunks@.contains_key(other)),
        other != h@ && old(st).chunks@.contains_key(other) ==> final(st).chunks@[other] == old(
            st).chunks@[other],
        final(st).total_bytes == old(st).total_bytes,
        final(st).c == old(st).c,
{
}

/// A damaged chunk goes with its share of the accounts, and is counted.
pub proof fn damaged_chunks_go(st: &mut CasStore, h: &[u8; 32], other: Seq<u8>)
    requires
        call_ensures(CasStore::drop_corrupt, (st, h), ()),
        old(st).chunks@.contains_key(h@) ==> old(st).chunks@[h@].0 <= old(st).total_bytes && old(
            st).blobs > 0,
    ensures
        final(st).chunks@.contains_key(other) <==> old(st).chunks@.contains_key(other) && other
            != h@,
        old(st).chunks@.contains_key(h@) ==> final(st).total_bytes + old(st).chunks@[h@].0 == old(
            st).total_bytes && final(st).blobs + 1 == old(st).blobs,
        !old(st).chunks@.contains_key(h@) ==> final(st).total_bytes == old(st).total_bytes
            && final(st).blobs == old(st).blobs,
        old(st).c.corrupt_dropped < u64::MAX ==> final(st).c.corrupt_dropped == old(
            st).c.corrupt_dropped + 1,
        final(st).manifests == old(st).manifests,
{
}

/// A scrub drops a chunk whose file is missing or has another digest, and no other; it says so.
pub proof fn scrubs_find_damage(
    st: &mut CasStore,
    h: &[u8; 32],
    file: &BlobFile,
    rep: &mut ScrubReport,
    other: Seq<u8>,
)
    requires
        call_ensures(CasStore::scrub_one, (st, h, file, rep), ()),
        old(rep).checked < u64::MAX,
        old(rep).corrupt < u64::MAX,
        old(rep).missing < u64::MAX,
    ensures
        ({
            let sound = *file is Bytes && blake3_hash(file->Bytes_0@) == h@;
            &&& final(rep).checked == old(rep).checked + 1
            &&& sound ==> *final(st) == *old(st) && final(rep).corrupt == old(rep).corrupt && final(
                rep).missing == old(rep).missing
            &&& !sound ==> !final(st).chunks@.contains_key(h@)
            &&& !sound && *file is Bytes ==> final(rep).corrupt == old(rep).corrupt + 1 && final(
                rep).missing == old(rep).missing
            &&& !(*file is Bytes) ==> final(rep).missing == old(rep).missing + 1 && final(
                rep).corrupt == old(rep).corrupt
            &&& other != h@ ==> (final(st).chunks@.contains_key(other) <==> old(
                st).chunks@.contains_key(other))
        }),
{
}

/// The figures are told as they are kept.
pub proof fn figures_are_told(st: &CasStore, s: CasStats)
    requires
        call_ensures(CasStore::stats, (st,), s),
    ensures
        s.hits == st.c.hits,
        s.misses == st.c.misses,
        s.blobs == st.blobs,
        s.total_bytes == st.total_bytes,
        s.max_bytes == st.max_bytes,
        s.ingested_bytes == st.c.ingested_bytes,
        s.evictions == st.c.evictions,
        s.evicted_bytes == st.c.evicted_bytes,
        s.corrupt_dropped == st.c.corrupt_dropped,
{
}

proof fn settling_keeps_manifests(
    mid: CasStore,
    post: CasStore,
    now: u64,
    victims: Seq<[u8; 32]>,
)
    requires
        settled(mid, post, now, victims),
    ensures
        post.manifests == mid.manifests,
{
    if mid.total_bytes > mid.max_bytes {
        let e = choose|e: Evicted| #[trigger]
            evicted(mid, post, now, e) && e.victims@ == victims;
        assert(evicted(mid, post, now, e));
    }
}

/// A chunk that is ingested is stored under its digest, and the file's list names it at its offset,
/// beside the chunks at other offsets; the cache is then within its cap or its target.
pub proof fn ingested_chunks_are_listed(
    st: &mut CasStore,
    key: ManifestKey,
    off: u64,
    data: &[u8],
    now: u64,
    res: ([u8; 32], Vec<u8>, Vec<ManifestKey>, Vec<[u8; 32]>),
    before: Option<Vec<ChunkRef>>,
    after: Option<Vec<ChunkRef>>,
)
    requires
        call_ensures(CasStore::ingest_chunk, (st, key, off, data, now), res),
        call_ensures(CasStore::get_manifest, (&*old(st), &key), before),
        call_ensures(CasStore::get_manifest, (&*final(st), &key), after),
        before is Some ==> rising(refs_view(before->0@)),
        data@.len() <= u32::MAX,
    ensures
        res.0@ == blake3_hash(data@),
        after is Some,
        put_in(
            if before is Some {
                refs_view(before->0@)
            } else {
                Seq::empty()
            },
            (off, data@.len() as u32, blake3_hash(data@)),
            refs_view(after->0@),
        ),
        final(st).total_bytes <= old(st).max_bytes || final(st).total_bytes <= old(st).target,
{
    let was = rows_or_none(old(st).manifest(key));
    let row = (off, data@.len() as u32, res.0@);
    merged_is_put_in(was, row);
    let mid = choose|mid: CasStore| #[trigger]
        manifest_put(*old(st), mid, key, merged(was, row), res.2@, res.1@) && blob_put(
            mid,
            *final(st),
            res.0@,
            data@.len(),
            now,
            res.3@,
        );
    assert(manifest_put(*old(st), mid, key, merged(was, row), res.2@, res.1@));
    let mid2 = choose|mid2: CasStore| #[trigger]
        blob_added(mid, mid2, res.0@, data@.len(), now) && settled(
            mid2,
            *final(st),
            now,
            res.3@,
        );
    assert(blob_added(mid, mid2, res.0@, data@.len(), now));
    settling_keeps_manifests(mid2, *final(st), now, res.3@);
}

/// The chunks of a file that are ingested at once are its list: each at its offset, in rising order,
/// and no others.
pub proof fn ingested_files_are_listed(
    st: &mut CasStore,
    key: ManifestKey,
    list: &Vec<(u64, Vec<u8>)>,
    now: u64,
    res: (Vec<u8>, Vec<ManifestKey>, Vec<[u8; 32]>),
    after: Option<Vec<ChunkRef>>,
    i: int,
)
    requires
        call_ensures(CasStore::ingest_chunks, (st, key, list, now), res),
        call_ensures(CasStore::get_manifest, (&*final(st), &key), after),
        list@.len() <= usize::MAX,
        forall|k: int| 0 <= k < list@.len() ==> (#[trigger] list@[k]).1@.len() <= u32::MAX,
    ensures
        after is Some,
        after->0@.len() == list@.len(),
        0 <= i < list@.len() ==> refs_view(after->0@).contains(
            (list@[i].0, list@[i].1@.len() as u32, blake3_hash(list@[i].1@)),
        ),
        0 < i < after->0@.len() ==> after->0@[i - 1].off <= after->0@[i].off,
        final(st).total_bytes <= old(st).max_bytes || final(st).total_bytes <= old(st).target,
{
    let (s1, s2) = choose|s1: CasStore, s2: CasStore|
        {
            &&& #[trigger] all_added(*old(st), s1, list@, now)
            &&& #[trigger] listing_put(s1, s2, key, list@, res.1@, res.0@)
            &&& settled(s2, *final(st), now, res.2@)
        };
    assert(listing_put(s1, s2, key, list@, res.1@, res.0@));
    settling_keeps_manifests(s2, *final(st), now, res.2@);
    let rows = rows_of(list@);
    let sorted = refs_view(after->0@);
    assert(s2.manifest(key) == Some(sorted));
    assert(by_offset(rows, sorted));
    by_offset_sorts(rows, sorted);
    assert(sorted.len() == after->0@.len());
    if 0 <= i < list@.len() {
        assert(rows[i] == (list@[i].0, list@[i].1@.len() as u32, blake3_hash(list@[i].1@)));
        assert(rows.contains(rows[i]));
    }
    if 0 < i < after->0@.len() {
        assert(sorted[i - 1].0 <= sorted[i].0);
    }
}

/// A scrub looks at as many chunks as it is told, or at all of them, in the order of their digests.
pub proof fn scrubs_look_in_order(st: &CasStore, sample: usize, list: Vec<[u8; 32]>, i: int)
    requires
        call_ensures(CasStore::scrub_list, (st, sample), list),
    ensures
        sample == 0 ==> list@.len() == st.chunks.rows@.len(),
        0 < sample <= st.chunks.rows@.len() ==> list@.len() == sample,
        list@.len() <= st.chunks.rows@.len(),
        0 <= i < list@.len() ==> list@[i] == st.chunks.rows@[i].hash,
{
}

/// A cache that is cleared holds nothing, and keeps its limits and figures.
pub proof fn cleared_caches_hold_nothing(st: &mut CasStore, h: Seq<u8>, key: ManifestKey)
    requires
        call_ensures(CasStore::clear, (st,), ()),
    ensures
        !final(st).chunks@.contains_key(h),
        !final(st).manifests@.contains_key(key),
        final(st).total_bytes == 0 && final(st).blobs == 0,
        final(st).max_bytes == old(st).max_bytes && final(st).target == old(st).target,
        final(st).c == old(st).c,
{
}

/// A blob lies in a directory of its digest's first two digits, under all of them.
pub proof fn blobs_lie_by_digest(h: &[u8; 32], path: (Vec<u8>, Vec<u8>), d: Vec<u8>, s: &[u8])
    requires
        call_ensures(blob_path, (h,), path),
        s@ == h@,
        call_ensures(crate::hex::hex, (s,), d),
    ensures
        path.1@ == d@,
        path.0@ == d@.take(2),
{
}

/// Another version of the same file is stale, and nothing else is.
pub proof fn other_versions_are_stale(a: &ManifestKey, b: &ManifestKey, r: bool)
    requires
        call_ensures(ManifestKey::is_stale_for, (a, b), r),
    ensures
        r <==> same_file(*a, *b) && a.content_version != b.content_version,
{
}

/// A chunk in the table is found by its digest, with the length and the time that were set last.
pub proof fn chunks_are_found(
    t: &mut ChunkTable,
    hash: [u8; 32],
    len: u32,
    access: u64,
    was: Option<u32>,
    other: &[u8; 32],
    before: Option<(u32, u64)>,
    after: Option<(u32, u64)>,
)
    requires
        call_ensures(ChunkTable::set, (t, hash, len, access), was),
        call_ensures(ChunkTable::get, (&*old(t), other), before),
        call_ensures(ChunkTable::get, (&*final(t), other), after),
    ensures
        other@ == hash@ ==> after == Some((len, access)) && (was is Some <==> before is Some),
        other@ != hash@ ==> after == before,
{
}

/// A chunk that is removed from the table is there no more; the others are.
pub proof fn chunks_are_removed(
    t: &mut ChunkTable,
    hash: &[u8; 32],
    was: Option<u32>,
    other: &[u8; 32],
    before: Option<(u32, u64)>,
    after: Option<(u32, u64)>,
)
    requires
        call_ensures(ChunkTable::remove, (t, hash), was),
        call_ensures(ChunkTable::get, (&*old(t), other), before),
        call_ensures(ChunkTable::get, (&*final(t), other), after),
    ensures
        other@ == hash@ ==> after is None && (was is Some <==> before is Some),
        other@ != hash@ ==> after == before,
{
}

} // verus!
