use mist::cas::blobs::{blob_path, BlobFile};
use mist::cas::manifest::{decode_manifest, encode_manifest, ChunkRef, ManifestKey};
use mist::cas::store::{CasStore, ScrubReport};
use std::collections::HashMap;

/// A cache whose files are in memory.
struct Disk {
    cas: CasStore,
    files: HashMap<[u8; 32], Vec<u8>>,
    now: u64,
}

impl Disk {
    fn new(max: u64) -> Disk {
        Disk {
            cas: CasStore::new(max, (max as f64 * 0.9) as u64),
            files: HashMap::new(),
            now: 1_000_000,
        }
    }

    fn put(&mut self, data: &[u8]) -> [u8; 32] {
        let (hash, victims) = self.cas.put_blob(data, self.now);
        self.files.insert(hash, data.to_vec());
        for v in victims {
            self.files.remove(&v);
        }
        hash
    }

    fn file(&self, h: &[u8; 32]) -> BlobFile {
        match self.files.get(h) {
            None => BlobFile::Missing,
            Some(b) => BlobFile::Bytes(b.clone()),
        }
    }

    fn get(&mut self, h: &[u8; 32]) -> Option<Vec<u8>> {
        let file = self.file(h);
        self.settle(h, |cas, now| cas.get_blob(h, &file, now))
    }

    fn get_range(&mut self, h: &[u8; 32], off: u32, len: u32, verify: bool) -> Option<Vec<u8>> {
        let file = self.file(h);
        self.settle(h, |cas, now| cas.get_blob_range(h, off, len, verify, &file, now))
    }

    fn settle(
        &mut self,
        h: &[u8; 32],
        f: impl FnOnce(&mut CasStore, u64) -> Option<Vec<u8>>,
    ) -> Option<Vec<u8>> {
        let before = self.cas.stats().corrupt_dropped;
        let now = self.now;
        let r = f(&mut self.cas, now);
        if self.cas.stats().corrupt_dropped != before {
            self.files.remove(h);
        }
        r
    }
}

fn key(ino: u64, version: u64) -> ManifestKey {
    ManifestKey {
        share: 0,
        ino,
        generation: 1,
        content_version: version,
    }
}

#[test]
fn roundtrip_blob_and_manifest() {
    let mut d = Disk::new(1 << 30);
    let data = vec![7u8; 300_000];
    let hash = d.put(&data);
    assert_eq!(hash, *blake3::hash(&data).as_bytes());
    let chunks = vec![ChunkRef {
        off: 0,
        len: data.len() as u32,
        hash,
    }];
    d.cas.put_manifest(key(42, 5), &chunks);

    let m = d.cas.get_manifest(&key(42, 5)).unwrap();
    assert_eq!(m, chunks);
    let got = d.get(&hash).unwrap();
    assert_eq!(got, data);
    let part = d.get_range(&hash, 100, 50, false).unwrap();
    assert_eq!(part, &data[100..150]);
    let s = d.cas.stats();
    assert_eq!(s.blobs, 1);
    assert_eq!(s.total_bytes, data.len() as u64);
    assert!(s.hits >= 2);
}

#[test]
fn version_mismatch_misses_and_new_version_drops_stale() {
    let mut d = Disk::new(1 << 30);
    let h = d.put(b"v1 content");
    d.cas.put_manifest(
        key(7, 1),
        &vec![ChunkRef {
            off: 0,
            len: 10,
            hash: h,
        }],
    );
    assert!(d.cas.get_manifest(&key(7, 2)).is_none());
    let h2 = d.put(b"v2 content!");
    d.cas.put_manifest(
        key(7, 2),
        &vec![ChunkRef {
            off: 0,
            len: 11,
            hash: h2,
        }],
    );
    assert!(d.cas.get_manifest(&key(7, 1)).is_none());
    assert!(d.cas.get_manifest(&key(7, 2)).is_some());
}

#[test]
fn corrupt_blob_drill() {
    let mut d = Disk::new(1 << 30);
    let data = vec![9u8; 100_000];
    let hash = d.put(&data);
    d.files.get_mut(&hash).unwrap()[50_000] ^= 0xff;

    assert!(d.get_range(&hash, 0, 1000, false).is_some());
    assert!(d.get_range(&hash, 0, 1000, true).is_none());
    assert!(!d.files.contains_key(&hash));
    assert!(d.get(&hash).is_none());
    let s = d.cas.stats();
    assert_eq!(s.corrupt_dropped, 1);
    assert_eq!(s.blobs, 0);
    assert_eq!(s.total_bytes, 0);

    let h2 = d.put(&data);
    d.files.insert(h2, data[..10].to_vec());
    assert!(d.get_range(&h2, 0, data.len() as u32, false).is_none());
    assert_eq!(d.cas.stats().corrupt_dropped, 2);
}

#[test]
fn scrub_detects_corruption() {
    let mut d = Disk::new(1 << 30);
    let h1 = d.put(&vec![1u8; 50_000]);
    let h2 = d.put(&vec![2u8; 50_000]);
    d.files.get_mut(&h2).unwrap()[0] ^= 1;

    let mut rep = ScrubReport {
        checked: 0,
        corrupt: 0,
        missing: 0,
    };
    for h in d.cas.scrub_list(0) {
        let file = d.file(&h);
        d.cas.scrub_one(&h, &file, &mut rep);
    }
    assert_eq!(rep.checked, 2);
    assert_eq!(rep.corrupt, 1);
    assert!(d.get(&h1).is_some());
    assert!(d.get(&h2).is_none());
}

#[test]
fn eviction_honors_watermarks() {
    let mut d = Disk::new(1 << 20);
    let mut hashes = Vec::new();
    for i in 0..9u8 {
        let h = d.put(&vec![i; 100_000]);
        hashes.push(h);
    }
    assert_eq!(d.cas.stats().total_bytes, 900_000);
    let old = d.now - 7200;
    d.cas.recency.clear();
    for (i, h) in hashes.iter().enumerate() {
        let len = d.cas.chunks.get(h).unwrap().0;
        d.cas.load_chunk(*h, len, old + i as u64);
    }
    for i in 9..11u8 {
        d.put(&vec![i; 100_000]);
    }
    let s = d.cas.stats();
    assert!(
        s.total_bytes <= (1u64 << 20) * 9 / 10,
        "total {} above low watermark",
        s.total_bytes
    );
    assert!(s.evictions >= 1);
    assert!(d.get(&hashes[0]).is_none());
    let s2 = d.cas.stats();
    assert!(s2.total_bytes <= s.total_bytes);
    assert!(d.get(&hashes[8]).is_some());
}

#[test]
fn eviction_hard_cap_beats_protection_window() {
    let mut d = Disk::new(1 << 20);
    for i in 0..12u8 {
        d.put(&vec![i; 100_000]);
    }
    let s = d.cas.stats();
    assert!(
        s.total_bytes <= 1 << 20,
        "total {} exceeds hard cap",
        s.total_bytes
    );
    assert!(s.evictions >= 1);
}

#[test]
fn reopen_rebuilds_accounting() {
    let mut d = Disk::new(1 << 30);
    let hash = d.put(&vec![3u8; 123_456]);
    d.cas.put_manifest(
        key(1, 1),
        &vec![ChunkRef {
            off: 0,
            len: 123_456,
            hash,
        }],
    );
    let mut again = Disk::new(1 << 30);
    again.files = d.files.clone();
    for row in &d.cas.chunks.rows {
        again.cas.load_chunk(row.hash, row.len, row.access);
    }
    for (k, bytes) in &d.cas.manifests.rows {
        again.cas.load_manifest(*k, bytes.clone());
    }
    let s = again.cas.stats();
    assert_eq!(s.blobs, 1);
    assert_eq!(s.total_bytes, 123_456);
    assert!(again.cas.get_manifest(&key(1, 1)).is_some());
    assert_eq!(again.get(&hash).unwrap().len(), 123_456);
}

#[test]
fn drop_node_invalidates_all_versions() {
    let mut d = Disk::new(1 << 30);
    let h = d.put(b"x");
    let c = vec![ChunkRef {
        off: 0,
        len: 1,
        hash: h,
    }];
    d.cas.put_manifest(key(5, 1), &c);
    d.cas.drop_node(0, 5, 1);
    assert!(d.cas.get_manifest(&key(5, 1)).is_none());
}

#[test]
fn chunks_are_merged_by_offset() {
    let mut d = Disk::new(1 << 30);
    let k = key(3, 1);
    d.cas.ingest_chunk(k, 4096, b"second", d.now);
    d.cas.ingest_chunk(k, 0, b"first", d.now);
    d.cas.ingest_chunk(k, 4096, b"again", d.now);
    let m = d.cas.get_manifest(&k).unwrap();
    assert_eq!(m.iter().map(|c| (c.off, c.len)).collect::<Vec<_>>(), vec![(0, 5), (4096, 5)]);
    let to = key(3, 9);
    assert!(d.cas.rebind_manifest(k, to).is_some());
    assert!(d.cas.get_manifest(&k).is_none());
    assert_eq!(d.cas.get_manifest(&to).unwrap(), m);
    d.cas.ingest_chunks(to, &vec![(8, b"b".to_vec()), (0, b"a".to_vec())], d.now);
    let m = d.cas.get_manifest(&to).unwrap();
    assert_eq!(m.iter().map(|c| c.off).collect::<Vec<_>>(), vec![0, 8]);
    d.cas.drop_share(0);
    assert!(d.cas.get_manifest(&to).is_none());
}

#[test]
fn stored_manifest_is_postcard() {
    let refs = vec![ChunkRef {
        off: 300,
        len: 5,
        hash: [1; 32],
    }];
    let bytes = encode_manifest(&refs);
    let plain: Vec<(u64, u32, [u8; 32])> = vec![(300, 5, [1; 32])];
    assert_eq!(bytes, postcard::to_allocvec(&plain).unwrap());
    assert_eq!(decode_manifest(&bytes).unwrap(), refs);
    assert!(decode_manifest(&[0xff, 0xff]).is_none());
}

#[test]
fn clear_forgets_everything() {
    let mut d = Disk::new(1 << 30);
    d.put(b"abc");
    d.cas.clear();
    assert_eq!(d.cas.stats().blobs, 0);
    assert_eq!(d.cas.stats().total_bytes, 0);
    let h = [0xabu8; 32];
    assert_eq!(blob_path(&h).0, b"ab");
    assert_eq!(blob_path(&h).1.len(), 64);
}

#[test]
fn part_reads_check_only_the_length() {
    let mut d = Disk::new(1 << 20);
    let h = d.put(b"0123456789");
    d.files.insert(h, b"X123456789 and more".to_vec());
    assert_eq!(d.get_range(&h, 2, 3, false).unwrap(), b"234");
    assert_eq!(d.get(&h).unwrap(), b"X123456789");
    assert_eq!(d.get_range(&h, 100, 0, false).unwrap(), b"");
    assert!(d.get_range(&h, 2, 3, true).is_none());
    assert!(d.get(&h).is_none());
    let s = d.cas.stats();
    assert_eq!((s.hits, s.misses, s.corrupt_dropped), (3, 2, 1));
}

#[test]
fn served_file_counts_as_a_hit() {
    let mut d = Disk::new(1 << 20);
    let h = d.put(b"abc");
    d.now += 10;
    assert!(!d.cas.hit(&h, d.now));
    d.now += 3600;
    assert!(d.cas.hit(&h, d.now));
    assert_eq!(d.cas.stats().hits, 2);
    assert_eq!(d.cas.chunks.get(&h), Some((3, d.now)));
}
