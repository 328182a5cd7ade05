//! What holds of the cache across operations.
use crate::cas::blobs::{
    blob_read, chunk_ingested, chunks_ingested, rewrites, rows_of, touched,
};
use crate::cas::chunks::total_len;
use crate::cas::evict::{hot, marked_len, protected_are_spared, Scene};
use crate::cas::manifest::{by_offset, merged, place_of, ManifestKey, Row};
use crate::cas::store::{
    dropped, manifest_put, rebound, rows_or_none, CasStore, ACCESS_WRITE_GRANULARITY,
};
use crate::digest::blake3_hash;
use crate::sort::spans;
use vstd::prelude::*;

verus! {

/// A manifest reads back as it was put, every other version of the file misses, and the
/// manifests of other files read as before.
pub proof fn put_reads_back(
    pre: CasStore,
    post: CasStore,
    key: ManifestKey,
    rows: Seq<Row>,
    gone: Seq<ManifestKey>,
    bytes: Seq<u8>,
    other: ManifestKey,
)
    requires
        manifest_put(pre, post, key, rows, gone, bytes),
    ensures
        post.manifest(key) == Some(rows),
        other.stale_for(key) ==> post.manifest(other) is None,
        !other.same_node(key) ==> post.manifest(other) == pre.manifest(other),
{
    assert(other != key ==> post.manifests@.contains_key(other) == (pre.manifests@.contains_key(
        other,
    ) && !other.stale_for(key)));
}

/// What was ingested reads back: the file's manifest names the chunk's digest at its offset, and a
/// read of a blob file that holds the chunk's bytes gives every part of them, verified or not.
pub proof fn ingested_chunk_reads_back(
    pre: CasStore,
    post: CasStore,
    key: ManifestKey,
    off: u64,
    data: Seq<u8>,
    now: u64,
    bytes: Seq<u8>,
    gone: Seq<ManifestKey>,
    victims: Seq<[u8; 32]>,
    from: u32,
    len: u32,
    verify: bool,
)
    requires
        chunk_ingested(
            pre,
            post,
            key,
            off,
            blake3_hash(data),
            data.len(),
            now,
            bytes,
            gone,
            victims,
        ),
        from + len <= data.len(),
    ensures
        post.manifest(key) is Some,
        (post.manifest(key)->0).contains((off, data.len() as u32, blake3_hash(data))),
        blob_read(blake3_hash(data), from, len, verify, data) == Some(
            data.subrange(from as int, from + len),
        ),
{
    if len == 0 {
        assert(data.subrange(from as int, from + len) =~= Seq::<u8>::empty());
    }
    let row = (off, data.len() as u32, blake3_hash(data));
    let was = rows_or_none(pre.manifest(key));
    let p = place_of(was, off);
    let m = merged(was, row);
    place_in_range(was, off);
    assert(m[p] == row);
}

proof fn place_in_range(rows: Seq<Row>, off: u64)
    ensures
        0 <= place_of(rows, off) <= rows.len(),
    decreases rows.len(),
{
    if rows.len() > 0 {
        place_in_range(rows.skip(1), off);
    }
}

/// After all chunks of a file were ingested, its manifest names the digest of each at its offset.
pub proof fn ingested_chunks_are_listed(
    pre: CasStore,
    post: CasStore,
    key: ManifestKey,
    list: Seq<(u64, Vec<u8>)>,
    now: u64,
    bytes: Seq<u8>,
    gone: Seq<ManifestKey>,
    victims: Seq<[u8; 32]>,
    i: usize,
)
    requires
        chunks_ingested(pre, post, key, list, now, bytes, gone, victims),
        i < list.len(),
    ensures
        post.manifest(key) is Some,
        (post.manifest(key)->0).len() == list.len(),
        (post.manifest(key)->0).contains(
            (
                list[i as int].0,
                list[i as int].1@.len() as u32,
                blake3_hash(list[i as int].1@),
            ),
        ),
{
    let rows = rows_of(list);
    let sorted = post.manifest(key)->0;
    assert(by_offset(rows, sorted));
    let l = choose|l: Seq<usize>| #[trigger]
        spans(l, 0, rows.len() as int) && sorted == Seq::new(
            rows.len(),
            |k: int| rows[l[k] as int],
        );
    assert(l.contains(i));
    let k = l.index_of(i);
    assert(sorted[k] == rows[i as int]);
}

/// Damage is never served: a verified read gives nothing of bytes that have another digest, and no
/// read gives less than was asked for.
pub proof fn damage_is_never_served(h: Seq<u8>, off: u32, len: u32, verify: bool, b: Seq<u8>)
    ensures
        verify && blake3_hash(b) != h ==> blob_read(h, off, len, verify, b) is None,
        blob_read(h, off, len, verify, b) is Some ==> (blob_read(h, off, len, verify, b)->0).len()
            == len,
{
}

/// Once a file is dropped, no version of it reads, and every other file reads as before.
pub proof fn dropped_file_misses(
    pre: CasStore,
    post: CasStore,
    share: u16,
    ino: u64,
    generation: u32,
    gone: Seq<ManifestKey>,
    key: ManifestKey,
)
    requires
        dropped(
            pre,
            post,
            |k: ManifestKey| k.share == share && k.ino == ino && k.generation == generation,
            gone,
        ),
    ensures
        key.share == share && key.ino == ino && key.generation == generation ==> post.manifest(key)
            is None,
        !(key.share == share && key.ino == ino && key.generation == generation) ==> post.manifest(
            key,
        ) == pre.manifest(key),
{
    assert(post.manifests@.contains_key(key) == (pre.manifests@.contains_key(key) && !(key.share
        == share && key.ino == ino && key.generation == generation)));
}

/// Once a share is dropped, no file of it reads, and the files of other shares read as before.
pub proof fn dropped_share_misses(
    pre: CasStore,
    post: CasStore,
    share: u16,
    gone: Seq<ManifestKey>,
    key: ManifestKey,
)
    requires
        dropped(pre, post, |k: ManifestKey| k.share == share, gone),
    ensures
        key.share == share ==> post.manifest(key) is None,
        key.share != share ==> post.manifest(key) == pre.manifest(key),
{
    assert(post.manifests@.contains_key(key) == (pre.manifests@.contains_key(key) && key.share
        != share));
}

/// What was assembled under one key reads the same under the key that it is bound to, and no longer
/// under the old one; other files read as before.
pub proof fn rebound_reads_the_same(
    pre: CasStore,
    post: CasStore,
    from: ManifestKey,
    to: ManifestKey,
    gone: Seq<ManifestKey>,
    other: ManifestKey,
)
    requires
        rebound(pre, post, from, to, gone),
    ensures
        post.manifest(to) == pre.manifest(from),
        from != to ==> post.manifest(from) is None,
        !other.same_node(to) && other != from ==> post.manifest(other) == pre.manifest(other),
{
    assert(from != to ==> !post.manifests@.contains_key(from));
    assert(other != to ==> post.manifests@.contains_key(other) == (pre.manifests@.contains_key(
        other,
    ) && other != from && !other.stale_for(to)));
}

/// The stored last access of a chunk is written at most once in an interval, however often the
/// chunk is used.
pub proof fn access_is_written_once_an_interval(
    pre: CasStore,
    post: CasStore,
    h: Seq<u8>,
    first: u64,
    second: u64,
)
    requires
        touched(pre, post, h, first),
        second < first + ACCESS_WRITE_GRANULARITY,
    ensures
        !rewrites(post, h, second),
{
}

/// While sparing the protected keeps the cache within its hard cap, no protected chunk goes.
pub proof fn protected_survive_below_the_cap(scene: Scene, max: u64, i: int)
    requires
        scene.wf(),
        0 <= i < scene.rows.len(),
        hot(scene.now, scene.lasts[i]),
        total_len(scene.rows) - marked_len(
            scene.rows,
            scene.spare(0, scene.unmarked()),
        ) <= max,
    ensures
        !scene.victims(max)[i],
{
    protected_are_spared(scene, 0, scene.unmarked(), i);
}

} // verus!
