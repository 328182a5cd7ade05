//! Reads: from the cache where it can serve them, from the guest where it cannot.
use crate::bytes::to_vec;
use crate::cas::manifest::{refs_view, ChunkRef, ManifestKey, Row};
use crate::cas::store::CasStore;
use crate::share::attrs::{content_fingerprint, fingerprint};
use crate::share::guest::{error_of_replica, map_err, ReplicaError};
use crate::share::stash::{
    chunk_count, chunks_of, covered_chunks, fits, list_view, span_of, Stash, CAS_CHUNK,
};
use crate::surface::{NfsError, NfsResult, ReadResult};
use crate::table::KeyTable;
use crate::types::{Attr, NodeKey};
use vstd::prelude::*;

verus! {

/// The version under which chunks are cached while the file is still being written.
pub const WIP_FP: u64 = u64::MAX;

/// Most manifests that are kept in memory.
pub const MANIFESTS_KEPT: usize = 256;

/// What came of a read from the guest.
#[derive(Debug)]
pub enum GuestRead {
    /// There is no connection.
    NoLink,
    Failed,
    Data { data: Vec<u8>, eof: bool },
}

/// The outcome of a read that goes straight to the guest: without a connection the client tries
/// again.
pub fn guest_read(got: GuestRead) -> (r: NfsResult<ReadResult>)
    ensures
        r == match got {
            GuestRead::NoLink => Err::<ReadResult, _>(NfsError::Jukebox),
            GuestRead::Failed => Err::<ReadResult, _>(NfsError::Io),
            GuestRead::Data { data, eof } => Ok::<_, NfsError>(ReadResult { data, eof }),
        },
{
    match got {
        GuestRead::NoLink => Err(NfsError::Jukebox),
        GuestRead::Failed => Err(NfsError::Io),
        GuestRead::Data { data, eof } => Ok(ReadResult { data, eof }),
    }
}

pub open spec fn min2(a: int, b: int) -> int {
    if a < b {
        a
    } else {
        b
    }
}

/// The chunk that a position lies in.
pub open spec fn chunk_start(pos: u64) -> int {
    pos as int / CAS_CHUNK as int * CAS_CHUNK as int
}

/// A part of one chunk: `want` bytes from `inner` on in the chunk at `chunk_off`, which is
/// `chunk_len` bytes long.
#[derive(Debug, Clone, Copy, PartialEq, Eq, Structural)]
pub struct Piece {
    pub chunk_off: u64,
    pub chunk_len: u64,
    pub inner: u64,
    pub want: u64,
}

/// The part of a chunk that serves a read of `[pos, end)` first, in a file of `size` bytes.
pub open spec fn piece_at(pos: u64, end: u64, size: u64) -> Piece {
    let chunk_off = chunk_start(pos);
    let chunk_len = min2(CAS_CHUNK as int, size - chunk_off);
    let inner = pos - chunk_off;
    Piece {
        chunk_off: chunk_off as u64,
        chunk_len: chunk_len as u64,
        inner: inner as u64,
        want: min2(end - pos, chunk_len - inner) as u64,
    }
}

fn piece(pos: u64, end: u64, size: u64) -> (p: Piece)
    requires
        pos < end <= size,
    ensures
        p == piece_at(pos, end, size),
        0 < p.want <= end - pos,
        p.chunk_off + p.chunk_len <= size,
        p.inner + p.want <= p.chunk_len,
        p.chunk_off + p.inner == pos,
{
    let chunk_off: u64 = pos / CAS_CHUNK * CAS_CHUNK;
    let chunk_len: u64 = if size - chunk_off < CAS_CHUNK {
        size - chunk_off
    } else {
        CAS_CHUNK
    };
    let inner: u64 = pos - chunk_off;
    let want: u64 = if end - pos < chunk_len - inner {
        end - pos
    } else {
        chunk_len - inner
    };
    Piece { chunk_off, chunk_len, inner, want }
}

/// A read that is put together from parts of chunks.
#[derive(Debug)]
pub struct ReadRun {
    pub pos: u64,
    pub end: u64,
    pub size: u64,
    /// A part came out short: the file shrank.
    pub short: bool,
    pub data: Vec<u8>,
}

/// Where a read of `count` bytes ends in a file of `size` bytes.
pub open spec fn read_end(offset: u64, count: u32, size: u64) -> int {
    min2(offset + count, size as int)
}

/// How a read is to be served.
#[derive(Debug)]
pub enum ReadPlan {
    /// By the guest.
    Guest,
    Fail(NfsError),
    /// There is nothing there: the read is past the end.
    PastEnd,
    /// Part by part, through the cache.
    Chunks(ReadRun),
}

/// How a read is served, once no batch of the node is on its way. `cached` says that there is a
/// cache; `mac_dirty` that the Mac wrote the node a moment ago, when only the guest is sure to
/// have it as it is.
pub fn plan_read(
    cached: bool,
    mac_dirty: bool,
    attr: Result<Attr, ReplicaError>,
    offset: u64,
    count: u32,
) -> (p: ReadPlan)
    ensures
        if !cached || mac_dirty {
            p is Guest
        } else {
            match attr {
                Err(e) => p == ReadPlan::Fail(error_of_replica(e)),
                Ok(a) => if offset >= a.size {
                    p is PastEnd
                } else {
                    &&& p is Chunks
                    &&& p->Chunks_0.wf()
                    &&& p->Chunks_0.pos == offset
                    &&& p->Chunks_0.end == read_end(offset, count, a.size)
                    &&& p->Chunks_0.size == a.size
                    &&& !p->Chunks_0.short
                    &&& p->Chunks_0.data@.len() == 0
                },
            }
        },
{
    if !cached || mac_dirty {
        return ReadPlan::Guest;
    }
    match attr {
        Err(e) => ReadPlan::Fail(map_err(e)),
        Ok(a) => {
            if offset >= a.size {
                return ReadPlan::PastEnd;
            }
            let left: u64 = a.size - offset;
            let end: u64 = if left < count as u64 {
                a.size
            } else {
                offset + count as u64
            };
            ReadPlan::Chunks(
                ReadRun { pos: offset, end, size: a.size, short: false, data: Vec::new() },
            )
        },
    }
}

impl ReadRun {
    pub open spec fn wf(&self) -> bool {
        self.pos <= self.end <= self.size
    }

    /// The part to get next, until the read is complete or a part came out short.
    pub fn next(&self) -> (p: Option<Piece>)
        requires
            self.wf(),
        ensures
            p == if self.pos < self.end && !self.short {
                Some(piece_at(self.pos, self.end, self.size))
            } else {
                None
            },
            p is Some ==> 0 < p->0.want <= self.end - self.pos && p->0.inner + p->0.want
                <= p->0.chunk_len && p->0.chunk_off + p->0.inner == self.pos
                && p->0.chunk_off + p->0.chunk_len <= self.size,
    {
        if self.pos < self.end && !self.short {
            Some(piece(self.pos, self.end, self.size))
        } else {
            None
        }
    }

    /// A part came.
    pub fn got(&mut self, part: &[u8])
        requires
            old(self).wf(),
            old(self).pos < old(self).end,
            part@.len() <= piece_at(old(self).pos, old(self).end, old(self).size).want,
        ensures
            final(self).wf(),
            final(self).pos == old(self).pos + part@.len(),
            final(self).end == old(self).end,
            final(self).size == old(self).size,
            final(self).short == (part@.len() < piece_at(
                old(self).pos,
                old(self).end,
                old(self).size,
            ).want),
            final(self).data@ == old(self).data@ + part@,
    {
        let p = piece(self.pos, self.end, self.size);
        self.data.extend_from_slice(part);
        self.pos = self.pos + part.len() as u64;
        self.short = (part.len() as u64) < p.want;
        proof {
            assert(self.data@ =~= old(self).data@ + part@);
        }
    }

    /// What the read gives.
    pub fn finish(self) -> (r: ReadResult)
        ensures
            r.data == self.data,
            r.eof == (self.pos >= self.size),
    {
        let eof = self.pos >= self.size;
        ReadResult { data: self.data, eof }
    }

    /// So far the read holds what the file holds.
    pub open spec fn faithful(&self, content: Seq<u8>, offset: u64) -> bool {
        &&& self.wf()
        &&& content.len() == self.size
        &&& offset <= self.pos
        &&& self.data@ == content.subrange(offset as int, self.pos as int)
    }
}

/// How many parts a read of `[pos, end)` is put together from.
pub open spec fn part_count(pos: u64, end: u64, size: u64) -> nat
    decreases end - pos,
{
    let next = pos + piece_at(pos, end, size).want;
    if pos < next <= end {
        1 + part_count(next as u64, end, size)
    } else {
        0
    }
}

/// A read has a part in each chunk that it touches.
proof fn parts_by_chunks(pos: u64, end: u64, size: u64)
    requires
        pos < end <= size,
    ensures
        part_count(pos, end, size) == (end - 1) / CAS_CHUNK as int - pos as int / CAS_CHUNK as int
            + 1,
    decreases end - pos,
{
    let p = piece_at(pos, end, size);
    let next = (pos + p.want) as u64;
    assert(0 < p.want <= end - pos);
    if next < end {
        assert(next as int / CAS_CHUNK as int == pos as int / CAS_CHUNK as int + 1);
        parts_by_chunks(next, end, size);
    } else {
        assert(piece_at(end, end, size).want == 0);
        assert(part_count(end, end, size) == 0);
    }
}

/// A read is served from few chunks: at most one more than its length fills.
pub proof fn parts_are_few(offset: u64, count: u32, size: u64)
    requires
        offset < size,
        count > 0,
    ensures
        part_count(offset, read_end(offset, count, size) as u64, size) <= (count + CAS_CHUNK - 1)
            / CAS_CHUNK as int + 1,
{
    parts_by_chunks(offset, read_end(offset, count, size) as u64, size);
}

/// A read that is given the right part each time gives the right bytes: it holds what the file
/// holds, comes nearer to its end with each part, and says whether it reached the file's end.
pub proof fn parts_make_the_whole(
    before: ReadRun,
    after: ReadRun,
    part: Seq<u8>,
    content: Seq<u8>,
    offset: u64,
)
    requires
        before.faithful(content, offset),
        before.pos < before.end,
        part == content.subrange(
            before.pos as int,
            before.pos + piece_at(before.pos, before.end, before.size).want,
        ),
        after.wf(),
        after.pos == before.pos + part.len(),
        after.end == before.end,
        after.size == before.size,
        after.data@ == before.data@ + part,
    ensures
        after.faithful(content, offset),
        before.pos < after.pos <= before.end,
        after.pos == after.end ==> after.data@ == content.subrange(
            offset as int,
            after.end as int,
        ),
{
    let p = piece_at(before.pos, before.end, before.size);
    assert(0 < p.want <= before.end - before.pos);
    assert(after.data@ =~= content.subrange(offset as int, after.pos as int));
}

/// What a read takes out of a chunk that came from the guest, which may be shorter than it should
/// be.
pub open spec fn slice_of(data: Seq<u8>, inner: u64, want: u64) -> Seq<u8> {
    let end = min2(data.len() as int, inner + want);
    if inner <= end {
        data.subrange(inner as int, end)
    } else {
        seq![]
    }
}

pub fn slice_chunk(data: &[u8], inner: u64, want: u64) -> (r: Vec<u8>)
    requires
        inner + want <= u64::MAX,
    ensures
        r@ == slice_of(data@, inner, want),
        r@.len() <= want,
{
    let n: u64 = data.len() as u64;
    let end: u64 = if n < inner + want {
        n
    } else {
        inner + want
    };
    if inner <= end {
        to_vec(vstd::slice::slice_subrange(data, inner as usize, end as usize))
    } else {
        let none: Vec<u8> = Vec::new();
        proof {
            assert(none@ =~= slice_of(data@, inner, want));
        }
        none
    }
}

/// The chunk to fetch ahead after the one at `chunk_off`: its offset and length.
pub open spec fn ahead_of(chunk_off: u64, size: u64) -> Option<(u64, u64)> {
    let next = chunk_off + CAS_CHUNK;
    if next >= size {
        None
    } else {
        Some((next as u64, min2(CAS_CHUNK as int, size - next) as u64))
    }
}

pub fn prefetch(chunk_off: u64, size: u64) -> (r: Option<(u64, u64)>)
    ensures
        r == ahead_of(chunk_off, size),
{
    if size <= CAS_CHUNK || chunk_off >= size - CAS_CHUNK {
        return None;
    }
    let next: u64 = chunk_off + CAS_CHUNK;
    let len: u64 = if size - next < CAS_CHUNK {
        size - next
    } else {
        CAS_CHUNK
    };
    Some((next, len))
}

/// What becomes of a chunk that came from the guest.
#[derive(Debug)]
pub struct Fetched {
    /// The part that was asked for, as far as it came.
    pub part: Vec<u8>,
    /// The chunk is whole: it goes to the cache.
    pub whole: bool,
    /// The chunk to fetch ahead, and its length.
    pub ahead: Option<(u64, u64)>,
}

/// A chunk came from the guest. One that is cut short means that the file changed: it is not
/// cached, and nothing is fetched ahead.
pub fn chunk_fetched(piece: &Piece, data: &[u8], size: u64) -> (f: Fetched)
    requires
        piece.inner + piece.want <= u64::MAX,
    ensures
        f.part@ == slice_of(data@, piece.inner, piece.want),
        f.part@.len() <= piece.want,
        f.whole == (data@.len() == piece.chunk_len),
        f.ahead == (if f.whole {
            ahead_of(piece.chunk_off, size)
        } else {
            None
        }),
{
    let whole = data.len() as u64 == piece.chunk_len;
    Fetched {
        part: slice_chunk(data, piece.inner, piece.want),
        whole,
        ahead: if whole {
            prefetch(piece.chunk_off, size)
        } else {
            None
        },
    }
}

/// Whether a chunk that was fetched ahead goes to the cache: it must be whole.
pub fn keeps_ahead(ahead: (u64, u64), data: &[u8]) -> (r: bool)
    ensures
        r == (data@.len() == ahead.1),
{
    data.len() as u64 == ahead.1
}

/// A read that lies within one chunk.
#[derive(Debug, Clone, Copy, PartialEq, Eq, Structural)]
pub struct Single {
    pub chunk_off: u64,
    pub inner: u32,
    pub len: u32,
    /// The read comes to the file's end.
    pub eof: bool,
}

/// The one chunk that serves a read, if there is something to read and it lies in one chunk.
pub open spec fn single_of(offset: u64, count: u32, size: u64) -> Option<Single> {
    if offset >= size || count == 0 {
        None
    } else {
        let end = read_end(offset, count, size);
        if chunk_start(offset) != chunk_start((end - 1) as u64) {
            None
        } else {
            Some(
                Single {
                    chunk_off: chunk_start(offset) as u64,
                    inner: (offset - chunk_start(offset)) as u32,
                    len: (end - offset) as u32,
                    eof: end >= size,
                },
            )
        }
    }
}

pub fn single_chunk(offset: u64, count: u32, size: u64) -> (r: Option<Single>)
    ensures
        r == single_of(offset, count, size),
{
    if offset >= size || count == 0 {
        return None;
    }
    let end: u64 = if size - offset < count as u64 {
        size
    } else {
        offset + count as u64
    };
    if offset / CAS_CHUNK != (end - 1) / CAS_CHUNK {
        return None;
    }
    let chunk_off: u64 = offset / CAS_CHUNK * CAS_CHUNK;
    Some(
        Single {
            chunk_off,
            inner: (offset - chunk_off) as u32,
            len: (end - offset) as u32,
            eof: end >= size,
        },
    )
}

/// The part of a cached chunk that serves a read alone, straight from the chunk's file: only while
/// nothing of the node is on its way to the guest (`pending`).
pub fn plan_send(pending: bool, attr: Result<Attr, ReplicaError>, offset: u64, count: u32) -> (r:
    Option<Single>)
    ensures
        r == match attr {
            Ok(a) => if pending {
                None
            } else {
                single_of(offset, count, a.size)
            },
            Err(_) => None,
        },
{
    match attr {
        Ok(a) => if pending {
            None
        } else {
            single_chunk(offset, count, a.size)
        },
        Err(_) => None,
    }
}

/// What one chunk serves alone is the whole of what the read would be put together from.
pub proof fn single_is_the_whole_read(offset: u64, count: u32, size: u64, s: Single)
    requires
        single_of(offset, count, size) == Some(s),
    ensures
        s.chunk_off + s.inner == offset,
        s.inner + s.len <= CAS_CHUNK,
        offset + s.len == read_end(offset, count, size),
        s.eof == (read_end(offset, count, size) >= size),
        part_count(offset, read_end(offset, count, size) as u64, size) == 1,
{
    parts_by_chunks(offset, read_end(offset, count, size) as u64, size);
}

/// The key under which a version of a file is cached.
pub open spec fn key_of(share: u16, node: NodeKey, version: u64) -> ManifestKey {
    ManifestKey { share, ino: node.ino, generation: node.generation, content_version: version }
}

pub fn manifest_key(share: u16, node: NodeKey, attr: &Attr) -> (k: ManifestKey)
    ensures
        k == key_of(share, node, fingerprint(*attr)),
{
    ManifestKey {
        share,
        ino: node.ino,
        generation: node.generation,
        content_version: content_fingerprint(attr),
    }
}

/// The first chunk of a list that is at `off`.
pub open spec fn chunk_in(rows: Seq<Row>, off: u64) -> Option<Row>
    decreases rows.len(),
{
    if rows.len() == 0 {
        None
    } else if rows[0].0 == off {
        Some(rows[0])
    } else {
        chunk_in(rows.skip(1), off)
    }
}

pub fn find_chunk(refs: &Vec<ChunkRef>, off: u64) -> (r: Option<ChunkRef>)
    ensures
        match r {
            Some(c) => chunk_in(refs_view(refs@), off) == Some(c@),
            None => chunk_in(refs_view(refs@), off) is None,
        },
{
    let ghost rows = refs_view(refs@);
    let mut i: usize = 0;
    proof {
        assert(rows.skip(0) =~= rows);
    }
    while i < refs.len()
        invariant
            i <= refs@.len(),
            rows == refs_view(refs@),
            chunk_in(rows, off) == chunk_in(rows.skip(i as int), off),
        decreases refs@.len() - i,
    {
        let c = refs[i];
        proof {
            assert(rows.skip(i as int)[0] == c@);
            assert(rows.skip(i as int).skip(1) =~= rows.skip(i + 1));
        }
        if c.off == off {
            return Some(c);
        }
        i = i + 1;
    }
    None
}

/// Manifests in memory. The key tells the content's version, so an entry goes stale by never
/// being asked for again.
#[derive(Debug)]
pub struct Manifests {
    pub rows: KeyTable<ManifestKey, Vec<ChunkRef>>,
}

/// The chunk list that is found under a key: in memory, else in the cache's index.
pub open spec fn found(mem: Manifests, cas: CasStore, key: ManifestKey) -> Option<Seq<Row>> {
    if mem.rows@.contains_key(key) {
        Some(refs_view(mem.rows@[key]@))
    } else {
        cas.manifest(key)
    }
}

impl Manifests {
    pub fn new() -> (m: Self)
        ensures
            m.rows.wf(),
            m.rows@ == Map::<ManifestKey, Vec<ChunkRef>>::empty(),
    {
        Manifests { rows: KeyTable::new() }
    }

    /// The chunk at `off` of a version of a file. A chunk list that comes from the index is kept;
    /// a memory that is full is emptied first.
    pub fn chunk(&mut self, cas: &CasStore, key: &ManifestKey, off: u64) -> (r: Option<ChunkRef>)
        requires
            old(self).rows.wf(),
            cas.wf(),
        ensures
            final(self).rows.wf(),
            match found(*old(self), *cas, *key) {
                Some(rows) => {
                    &&& match r {
                        Some(c) => chunk_in(rows, off) == Some(c@),
                        None => chunk_in(rows, off) is None,
                    }
                    &&& final(self).rows@.contains_key(*key)
                    &&& refs_view(final(self).rows@[*key]@) == rows
                },
                None => r is None && *final(self) == *old(self),
            },
            final(self).rows@.remove(*key) == if !old(self).rows@.contains_key(*key) && cas.manifest(
                *key,
            ) is Some && old(self).rows@.len() >= MANIFESTS_KEPT {
                Map::<ManifestKey, Vec<ChunkRef>>::empty()
            } else {
                old(self).rows@.remove(*key)
            },
    {
        if let Some(refs) = self.rows.get(key) {
            return find_chunk(refs, off);
        }
        let refs = match cas.get_manifest(key) {
            Some(refs) => refs,
            None => {
                return None;
            },
        };
        let c = find_chunk(&refs, off);
        if self.rows.len() >= MANIFESTS_KEPT {
            self.rows.clear();
        }
        let ghost mid = self.rows@;
        let _was = self.rows.insert(*key, refs);
        proof {
            assert(self.rows@.remove(*key) =~= mid.remove(*key));
            assert(Map::<ManifestKey, Vec<ChunkRef>>::empty().remove(*key) =~= Map::<
                ManifestKey,
                Vec<ChunkRef>,
            >::empty());
        }
        c
    }
}

/// What takes the written bytes of a node into the cache: the chunks that they cover are cached
/// under the working key, and what is under it then moves to the key of the settled version.
#[derive(Debug)]
pub struct Finale {
    pub wip: ManifestKey,
    pub fin: ManifestKey,
    pub tail: Vec<(u64, Vec<u8>)>,
}

pub fn finalize_stash(share: u16, node: NodeKey, attr: &Attr, stash: &Stash) -> (f: Finale)
    requires
        fits(stash@),
    ensures
        f.wip == key_of(share, node, WIP_FP),
        f.fin == key_of(share, node, fingerprint(*attr)),
        list_view(f.tail@) == chunks_of(
            stash@,
            Some(attr.size),
            chunk_count(span_of(stash@, Some(attr.size))),
        ),
{
    Finale {
        wip: ManifestKey {
            share,
            ino: node.ino,
            generation: node.generation,
            content_version: WIP_FP,
        },
        fin: manifest_key(share, node, attr),
        tail: covered_chunks(stash.as_slice(), Some(attr.size)),
    }
}

} // verus!
