//! Reads of a share: which bytes they come to, and from where.
use crate::cas::manifest::{refs_view, ChunkRef, ManifestKey};
use crate::cas::store::CasStore;
use crate::share::attrs::content_fingerprint;
use crate::share::guest::ReplicaError;
use crate::share::read::{
    chunk_fetched, chunk_in, finalize_stash, find_chunk, guest_read, keeps_ahead, manifest_key,
    plan_read, plan_send, prefetch, single_chunk, slice_chunk, Fetched, Finale, GuestRead,
    Manifests, Piece, ReadPlan, ReadRun, Single,
};
use crate::share::stash::{
    byte_at, chunk_count, chunks_of, covered_chunks, end_of, fits, list_view, span_of, Stash,
};
use crate::surface::{NfsResult, ReadResult};
use crate::types::{Attr, NodeKey};
use std::sync::Arc;
use vstd::prelude::*;

verus! {

/// A read by the guest gives what the guest gave; without a connection the client tries again.
pub proof fn guest_reads_are_told(got: GuestRead, r: NfsResult<ReadResult>)
    requires
        call_ensures(guest_read, (got,), r),
    ensures
        r is Ok <==> got is Data,
        got is Data ==> r->Ok_0.data == got->data && r->Ok_0.eof == got->eof,
        got is NoLink ==> r->Err_0 is Jukebox,
        got is Failed ==> r->Err_0 is Io,
{
}

/// Only the guest serves a read where there is no cache or the Mac wrote a moment ago; a read past
/// the end is empty; any other one runs from its offset for its length, or to the file's end.
pub proof fn reads_are_planned(
    cached: bool,
    mac_dirty: bool,
    attr: Result<Attr, ReplicaError>,
    offset: u64,
    count: u32,
    p: ReadPlan,
)
    requires
        call_ensures(plan_read, (cached, mac_dirty, attr, offset, count), p),
    ensures
        p is Guest <==> !cached || mac_dirty,
        p is Fail <==> cached && !mac_dirty && attr is Err,
        p is Fail ==> {
            &&& p->Fail_0 is Jukebox <==> attr->Err_0 is Incomplete
            &&& p->Fail_0 is NotDir <==> attr->Err_0 is NotDir
            &&& p->Fail_0 is NotSymlink <==> attr->Err_0 is NotSymlink
            &&& p->Fail_0 is NoEnt <==> attr->Err_0 is NoEnt || attr->Err_0 is BadPath
        },
        p is PastEnd <==> cached && !mac_dirty && attr is Ok && offset >= attr->Ok_0.size,
        p is Chunks ==> {
            let run = p->Chunks_0;
            &&& run.pos == offset
            &&& run.size == attr->Ok_0.size
            &&& run.end <= offset + count
            &&& run.end <= attr->Ok_0.size
            &&& run.end == offset + count || run.end == attr->Ok_0.size
            &&& !run.short
            &&& run.data@.len() == 0
        },
{
}

/// The next part of a read is in the chunk of 4 MiB that the read has come to, starts there, and
/// goes to the chunk's end, the file's or the read's, whichever comes first.
pub proof fn next_part_goes_on(run: &ReadRun, p: Option<Piece>)
    requires
        call_ensures(ReadRun::next, (run,), p),
        run.pos <= run.end <= run.size,
    ensures
        p is Some <==> run.pos < run.end && !run.short,
        p is Some ==> {
            let c = p->0;
            &&& c.chunk_off % 4_194_304 == 0
            &&& c.chunk_off <= run.pos < c.chunk_off + 4_194_304
            &&& c.chunk_off + c.inner == run.pos
            &&& c.chunk_len <= 4_194_304
            &&& c.chunk_off + c.chunk_len <= run.size
            &&& c.chunk_len == 4_194_304 || c.chunk_off + c.chunk_len == run.size
            &&& c.want > 0
            &&& c.inner + c.want <= c.chunk_len
            &&& run.pos + c.want <= run.end
            &&& c.inner + c.want == c.chunk_len || run.pos + c.want == run.end
        },
{
}

/// A part that came is appended, and the read moves on by its length; a part shorter than was
/// asked for ends it.
pub proof fn parts_are_appended(run: &mut ReadRun, part: &[u8], p: Option<Piece>)
    requires
        call_ensures(ReadRun::next, (&*old(run),), p),
        p is Some,
        part@.len() <= p->0.want,
        call_ensures(ReadRun::got, (run, part), ()),
        old(run).pos <= old(run).end <= old(run).size,
    ensures
        final(run).data@ == old(run).data@ + part@,
        final(run).pos == old(run).pos + part@.len(),
        final(run).end == old(run).end,
        final(run).size == old(run).size,
        final(run).short <==> part@.len() < p->0.want,
{
}

/// A read gives what was put together, and says whether the file's end was reached.
pub proof fn read_is_finished(run: ReadRun, r: ReadResult)
    requires
        call_ensures(ReadRun::finish, (run,), r),
    ensures
        r.data@ == run.data@,
        r.eof <==> run.pos >= run.size,
{
}

/// What is taken out of a chunk is the bytes from `inner` on, `want` of them or as many as there
/// are.
pub proof fn slice_takes_the_middle(data: &[u8], inner: u64, want: u64, r: Vec<u8>, i: int)
    requires
        call_ensures(slice_chunk, (data, inner, want), r),
        inner + want <= u64::MAX,
    ensures
        r@.len() <= want,
        inner + want <= data@.len() ==> r@.len() == want,
        inner <= data@.len() < inner + want ==> r@.len() == data@.len() - inner,
        data@.len() < inner ==> r@.len() == 0,
        0 <= i < r@.len() ==> r@[i] == data@[inner + i],
{
}

/// The chunk of 4 MiB that follows is fetched ahead, up to the file's end, if the file has one
/// there.
pub proof fn next_chunk_is_fetched_ahead(chunk_off: u64, size: u64, r: Option<(u64, u64)>)
    requires
        call_ensures(prefetch, (chunk_off, size), r),
    ensures
        r is Some <==> chunk_off + 4_194_304 < size,
        r is Some ==> {
            let (off, len) = r->0;
            &&& off == chunk_off + 4_194_304
            &&& 0 < len <= 4_194_304
            &&& off + len <= size
            &&& len == 4_194_304 || off + len == size
        },
{
}

/// A chunk that came whole is cached and the next one fetched ahead; one cut short is neither.
pub proof fn short_chunks_are_not_cached(piece: &Piece, data: &[u8], size: u64, f: Fetched, i: int)
    requires
        call_ensures(chunk_fetched, (piece, data, size), f),
        piece.inner + piece.want <= u64::MAX,
    ensures
        f.whole <==> data@.len() == piece.chunk_len,
        f.ahead is Some <==> f.whole && piece.chunk_off + 4_194_304 < size,
        f.ahead is Some ==> {
            let (off, len) = f.ahead->0;
            &&& off == piece.chunk_off + 4_194_304
            &&& 0 < len <= 4_194_304
            &&& off + len <= size
            &&& len == 4_194_304 || off + len == size
        },
        f.part@.len() <= piece.want,
        piece.inner + piece.want <= data@.len() ==> f.part@.len() == piece.want,
        piece.inner <= data@.len() < piece.inner + piece.want ==> f.part@.len() == data@.len()
            - piece.inner,
        data@.len() < piece.inner ==> f.part@.len() == 0,
        0 <= i < f.part@.len() ==> f.part@[i] == data@[piece.inner + i],
{
}

/// What was fetched ahead is kept if it is whole.
pub proof fn whole_chunks_are_kept(ahead: (u64, u64), data: &[u8], r: bool)
    requires
        call_ensures(keeps_ahead, (ahead, data), r),
    ensures
        r <==> data@.len() == ahead.1,
{
}

/// A read that one chunk serves alone.
pub open spec fn in_one_chunk(offset: u64, count: u32, size: u64) -> bool {
    let end: int = if offset + count < size {
        offset + count
    } else {
        size as int
    };
    offset < size && count > 0 && offset as int / 4_194_304 == (end - 1) / 4_194_304
}

/// The chunk that serves such a read, and the place in it.
pub open spec fn serves(s: Single, offset: u64, count: u32, size: u64) -> bool {
    &&& s.chunk_off % 4_194_304 == 0
    &&& s.inner < 4_194_304
    &&& s.chunk_off + s.inner == offset
    &&& s.len <= count
    &&& offset + s.len <= size
    &&& s.len == count || offset + s.len == size
    &&& s.inner + s.len <= 4_194_304
    &&& s.eof <==> offset + s.len == size
}

/// A read is served by one chunk exactly where it lies within one.
pub proof fn one_chunk_serves(offset: u64, count: u32, size: u64, r: Option<Single>)
    requires
        call_ensures(single_chunk, (offset, count, size), r),
    ensures
        r is Some <==> in_one_chunk(offset, count, size),
        r is Some ==> serves(r->0, offset, count, size),
{
    let end = if offset + count < size {
        offset + count
    } else {
        size as int
    };
    assert(offset as int / 4_194_304 * 4_194_304 == ((end - 1) as int / 4_194_304) * 4_194_304
        <==> offset as int / 4_194_304 == (end - 1) / 4_194_304);
}

/// A read goes straight from a chunk's file only while nothing is on its way to the guest.
pub proof fn nothing_is_sent_while_writes_are_pending(
    pending: bool,
    attr: Result<Attr, ReplicaError>,
    offset: u64,
    count: u32,
    r: Option<Single>,
)
    requires
        call_ensures(plan_send, (pending, attr, offset, count), r),
    ensures
        r is Some <==> !pending && attr is Ok && in_one_chunk(offset, count, attr->Ok_0.size),
        r is Some ==> serves(r->0, offset, count, attr->Ok_0.size),
{
    if attr is Ok {
        let size = attr->Ok_0.size;
        let end = if offset + count < size {
            offset + count
        } else {
            size as int
        };
        assert(offset as int / 4_194_304 * 4_194_304 == ((end - 1) as int / 4_194_304) * 4_194_304
            <==> offset as int / 4_194_304 == (end - 1) / 4_194_304);
    }
}

/// A version of a file is cached under the share, the node and the content's fingerprint.
pub proof fn versions_are_told_apart(share: u16, node: NodeKey, attr: &Attr, k: ManifestKey, h: u64)
    requires
        call_ensures(manifest_key, (share, node, attr), k),
        call_ensures(content_fingerprint, (attr,), h),
    ensures
        k.share == share,
        k.ino == node.ino,
        k.generation == node.generation,
        k.content_version == h,
{
}

proof fn chunk_in_finds(refs: Seq<ChunkRef>, off: u64)
    ensures
        match chunk_in(refs_view(refs), off) {
            Some(row) => exists|i: int|
                #![trigger refs[i]]
                {
                    &&& 0 <= i < refs.len()
                    &&& refs[i]@ == row
                    &&& refs[i].off == off
                    &&& forall|j: int| 0 <= j < i ==> (#[trigger] refs[j]).off != off
                },
            None => forall|i: int| 0 <= i < refs.len() ==> (#[trigger] refs[i]).off != off,
        },
    decreases refs.len(),
{
    let rows = refs_view(refs);
    if refs.len() > 0 {
        let rest = refs.skip(1);
        assert(rows.skip(1) =~= refs_view(rest));
        assert(rows[0] == refs[0]@);
        chunk_in_finds(rest, off);
        if refs[0].off != off {
            match chunk_in(refs_view(rest), off) {
                Some(row) => {
                    let i = choose|i: int|
                        #![trigger rest[i]]
                        {
                            &&& 0 <= i < rest.len()
                            &&& rest[i]@ == row
                            &&& rest[i].off == off
                            &&& forall|j: int| 0 <= j < i ==> (#[trigger] rest[j]).off != off
                        };
                    assert(refs[i + 1] == rest[i]);
                    assert forall|j: int| 0 <= j < i + 1 implies (#[trigger] refs[j]).off != off by {
                        if j > 0 {
                            assert(refs[j] == rest[j - 1]);
                        }
                    }
                },
                None => {
                    assert forall|i: int| 0 <= i < refs.len() implies (#[trigger] refs[i]).off
                        != off by {
                        if i > 0 {
                            assert(refs[i] == rest[i - 1]);
                        }
                    }
                },
            }
        }
    }
}

/// A chunk that is found is in the list, at the offset that was asked for, and no chunk before it
/// is; none is found only where no chunk of the list has that offset.
pub proof fn found_chunk_is_at_the_offset(refs: &Vec<ChunkRef>, off: u64, r: Option<ChunkRef>)
    requires
        call_ensures(find_chunk, (refs, off), r),
    ensures
        r is Some ==> r->0.off == off && exists|i: int|
            #![trigger refs@[i]]
            {
                &&& 0 <= i < refs@.len()
                &&& refs@[i]@ == r->0@
                &&& refs@[i].off == off
                &&& forall|j: int| 0 <= j < i ==> (#[trigger] refs@[j]).off != off
            },
        r is None ==> forall|i: int| 0 <= i < refs@.len() ==> (#[trigger] refs@[i]).off != off,
{
    chunk_in_finds(refs@, off);
}

/// A chunk that the manifests in memory give is of the list that is kept under the key, at the
/// offset that was asked for; where a list is kept and none is given, no chunk of it is there.
pub proof fn kept_chunk_is_at_the_offset(
    mem: &mut Manifests,
    cas: &CasStore,
    key: &ManifestKey,
    off: u64,
    r: Option<ChunkRef>,
)
    requires
        call_ensures(Manifests::chunk, (mem, cas, key, off), r),
    ensures
        ({
            let refs = final(mem).rows@[*key]@;
            &&& r is Some ==> r->0.off == off && final(mem).rows@.contains_key(*key) && exists|
                i: int,
            |
                #![trigger refs[i]]
                0 <= i < refs.len() && refs[i]@ == r->0@ && refs[i].off == off
            &&& r is None && final(mem).rows@.contains_key(*key) ==> forall|i: int|
                0 <= i < refs.len() ==> (#[trigger] refs[i]).off != off
        }),
        old(mem).rows@.contains_key(*key) ==> final(mem).rows@.contains_key(*key),
{
    if final(mem).rows@.contains_key(*key) {
        chunk_in_finds(final(mem).rows@[*key]@, off);
    }
}

/// The write at `w` is the last one that covers the position.
pub open spec fn last_cover(stash: Seq<(u64, Arc<Vec<u8>>)>, pos: int, w: int) -> bool {
    &&& 0 <= w < stash.len()
    &&& stash[w].0 <= pos < stash[w].0 + stash[w].1@.len()
    &&& forall|v: int|
        w < v < stash.len() ==> !((#[trigger] stash[v]).0 <= pos < stash[v].0 + stash[v].1@.len())
}

proof fn byte_is_the_last_write(stash: Seq<(u64, Arc<Vec<u8>>)>, pos: int)
    ensures
        match byte_at(stash, pos) {
            Some(b) => exists|w: int| #[trigger]
                last_cover(stash, pos, w) && b == stash[w].1@[pos - stash[w].0],
            None => forall|w: int|
                0 <= w < stash.len() ==> !((#[trigger] stash[w]).0 <= pos < stash[w].0
                    + stash[w].1@.len()),
        },
    decreases stash.len(),
{
    if stash.len() > 0 {
        let n = stash.len() - 1;
        let p = stash.drop_last();
        byte_is_the_last_write(p, pos);
        if stash[n].0 <= pos < stash[n].0 + stash[n].1@.len() {
            assert(last_cover(stash, pos, n));
        } else if byte_at(p, pos) is Some {
            let w = choose|w: int| #[trigger]
                last_cover(p, pos, w) && byte_at(p, pos)->0 == p[w].1@[pos - p[w].0];
            assert(p[w] == stash[w]);
            assert forall|v: int| w < v < stash.len() implies !((#[trigger] stash[v]).0 <= pos
                < stash[v].0 + stash[v].1@.len()) by {
                if v < n {
                    assert(p[v] == stash[v]);
                }
            }
            assert(last_cover(stash, pos, w));
        } else {
            assert forall|w: int| 0 <= w < stash.len() implies !((#[trigger] stash[w]).0 <= pos
                < stash[w].0 + stash[w].1@.len()) by {
                if w < n {
                    assert(p[w] == stash[w]);
                }
            }
        }
    }
}

proof fn end_is_past_the_writes(stash: Seq<(u64, Arc<Vec<u8>>)>, w: int)
    requires
        0 <= w < stash.len(),
    ensures
        stash[w].0 + stash[w].1@.len() <= end_of(stash),
    decreases stash.len(),
{
    if w < stash.len() - 1 {
        assert(stash.drop_last()[w] == stash[w]);
        end_is_past_the_writes(stash.drop_last(), w);
    }
}

proof fn end_fits(stash: Seq<(u64, Arc<Vec<u8>>)>)
    requires
        fits(stash),
    ensures
        end_of(stash) <= u64::MAX,
    decreases stash.len(),
{
    if stash.len() > 0 {
        let p = stash.drop_last();
        assert forall|i: int| 0 <= i < p.len() implies (#[trigger] p[i]).0 + p[i].1@.len()
            <= u64::MAX by {
            assert(p[i] == stash[i]);
        }
        end_fits(p);
        let l = stash[stash.len() - 1];
    }
}

/// How long the chunk at `off` is in a file of that size, or whole where the size is not known.
pub open spec fn chunk_length(size: Option<u64>, off: int) -> int {
    match size {
        Some(sz) => if sz - off < 4_194_304 {
            sz - off
        } else {
            4_194_304
        },
        None => 4_194_304,
    }
}

proof fn chunks_are_whole(stash: Seq<(u64, Arc<Vec<u8>>)>, size: Option<u64>, n: nat, k: int)
    requires
        0 <= k < chunks_of(stash, size, n).len(),
        n <= chunk_count(span_of(stash, size)),
        span_of(stash, size) <= u64::MAX,
    ensures
        ({
            let (off, data) = chunks_of(stash, size, n)[k];
            &&& off % 4_194_304 == 0
            &&& off < n * 4_194_304
            &&& data.len() == chunk_length(size, off as int)
            &&& k > 0 ==> chunks_of(stash, size, n)[k - 1].0 < off
        }),
    decreases n,
{
    let before = chunks_of(stash, size, (n - 1) as nat);
    let off = (n - 1) as nat * 4_194_304;
    let span = span_of(stash, size);
    assert(off < span) by {
        assert(n <= (span + 4_194_303) / 4_194_304);
    }
    if k < before.len() {
        chunks_are_whole(stash, size, (n - 1) as nat, k);
    } else if k > 0 {
        chunks_are_whole(stash, size, (n - 1) as nat, k - 1);
    }
}

proof fn written_chunks_are_there(
    stash: Seq<(u64, Arc<Vec<u8>>)>,
    size: Option<u64>,
    n: nat,
    c: nat,
) -> (k: int)
    requires
        c < n <= chunk_count(span_of(stash, size)),
        span_of(stash, size) <= u64::MAX,
        size is None ==> (c + 1) * 4_194_304 <= span_of(stash, size),
        forall|i: int|
            0 <= i < chunk_length(size, c as int * 4_194_304) ==> (#[trigger] byte_at(
                stash,
                c * 4_194_304 + i,
            )) is Some,
    ensures
        0 <= k < chunks_of(stash, size, n).len(),
        chunks_of(stash, size, n)[k].0 == c * 4_194_304,
    decreases n,
{
    let before = chunks_of(stash, size, (n - 1) as nat);
    let span = span_of(stash, size);
    assert(c * 4_194_304 < span) by {
        assert(n <= (span + 4_194_303) / 4_194_304);
    }
    if c == n - 1 {
        before.len() as int
    } else {
        let k = written_chunks_are_there(stash, size, (n - 1) as nat, c);
        assert(chunks_of(stash, size, n)[k] == before[k]);
        k
    }
}

/// A chunk that the writes cover starts at a multiple of 4 MiB, is as long as the file lets it be,
/// comes after the one before it, and holds at each place what the last write there left.
pub proof fn chunks_hold_the_last_writes(
    stash: &[(u64, Arc<Vec<u8>>)],
    size: Option<u64>,
    list: Vec<(u64, Vec<u8>)>,
    k: int,
    i: int,
)
    requires
        call_ensures(covered_chunks, (stash, size), list),
        fits(stash@),
        0 <= k < list@.len(),
    ensures
        list@[k].0 % 4_194_304 == 0,
        list@[k].1@.len() == chunk_length(size, list@[k].0 as int),
        k > 0 ==> list@[k - 1].0 < list@[k].0,
        0 <= i < list@[k].1@.len() ==> exists|w: int| #[trigger]
            last_cover(stash@, list@[k].0 + i, w) && list@[k].1@[i] == stash@[w].1@[list@[k].0 + i
                - stash@[w].0],
{
    let s = stash@;
    end_fits(s);
    let n = chunk_count(span_of(s, size));
    chunks_are_whole(s, size, n, k);
    assert(list_view(list@)[k] == (list@[k].0, list@[k].1@));
    if k > 0 {
        assert(list_view(list@)[k - 1] == (list@[k - 1].0, list@[k - 1].1@));
    }
    if 0 <= i < list@[k].1@.len() {
        holds_bytes(s, size, n, k, i);
        byte_is_the_last_write(s, list@[k].0 + i);
    }
}

proof fn holds_bytes(
    stash: Seq<(u64, Arc<Vec<u8>>)>,
    size: Option<u64>,
    n: nat,
    k: int,
    i: int,
)
    requires
        0 <= k < chunks_of(stash, size, n).len(),
        0 <= i < chunks_of(stash, size, n)[k].1.len(),
        n <= chunk_count(span_of(stash, size)),
        span_of(stash, size) <= u64::MAX,
    ensures
        byte_at(stash, chunks_of(stash, size, n)[k].0 + i) == Some(
            chunks_of(stash, size, n)[k].1[i],
        ),
    decreases n,
{
    let before = chunks_of(stash, size, (n - 1) as nat);
    let off = (n - 1) as nat * 4_194_304;
    let span = span_of(stash, size);
    assert(off < span) by {
        assert(n <= (span + 4_194_303) / 4_194_304);
    }
    if k < before.len() {
        holds_bytes(stash, size, (n - 1) as nat, k, i);
    } else {
        assert(byte_at(stash, off + i) is Some);
    }
}

/// A chunk of the file that some write covers at each place is handed on.
pub proof fn covered_chunks_are_handed_on(
    stash: &[(u64, Arc<Vec<u8>>)],
    size: Option<u64>,
    list: Vec<(u64, Vec<u8>)>,
    c: nat,
) -> (k: int)
    requires
        call_ensures(covered_chunks, (stash, size), list),
        fits(stash@),
        size is Some ==> c * 4_194_304 < size->0,
        forall|i: int|
            c * 4_194_304 <= i < c * 4_194_304 + chunk_length(size, c as int * 4_194_304)
                ==> #[trigger] covered(stash@, i),
    ensures
        0 <= k < list@.len(),
        list@[k].0 == c * 4_194_304,
{
    let s = stash@;
    end_fits(s);
    let len = chunk_length(size, c as int * 4_194_304);
    assert forall|i: int| 0 <= i < len implies (#[trigger] byte_at(s, c * 4_194_304 + i)) is Some by {
        assert(covered(s, c * 4_194_304 + i));
        byte_is_the_last_write(s, c * 4_194_304 + i);
    }
    let last = c * 4_194_304 + len - 1;
    assert(covered(s, last));
    let w = choose|w: int|
        #![trigger s[w]]
        0 <= w < s.len() && s[w].0 <= last < s[w].0 + s[w].1@.len();
    end_is_past_the_writes(s, w);
    let n = chunk_count(span_of(s, size));
    assert(c < n);
    let k = written_chunks_are_there(s, size, n, c);
    assert(list_view(list@)[k] == (list@[k].0, list@[k].1@));
    k
}

/// Some write covers the position.
pub open spec fn covered(stash: Seq<(u64, Arc<Vec<u8>>)>, pos: int) -> bool {
    exists|w: int|
        #![trigger stash[w]]
        0 <= w < stash.len() && stash[w].0 <= pos < stash[w].0 + stash[w].1@.len()
}

/// What was written goes to the cache under the working key first and then under that of the
/// settled version; the chunks are those that the writes cover in a file of that size.
pub proof fn finale_names_the_version(
    share: u16,
    node: NodeKey,
    attr: &Attr,
    stash: &Stash,
    f: Finale,
    h: u64,
    k: int,
    i: int,
)
    requires
        call_ensures(finalize_stash, (share, node, attr, stash), f),
        call_ensures(content_fingerprint, (attr,), h),
        fits(stash@),
    ensures
        f.wip.share == share && f.wip.ino == node.ino && f.wip.generation == node.generation,
        f.wip.content_version == 0xffff_ffff_ffff_ffff,
        f.fin.share == share && f.fin.ino == node.ino && f.fin.generation == node.generation,
        f.fin.content_version == h,
        0 <= k < f.tail@.len() ==> {
            &&& f.tail@[k].0 % 4_194_304 == 0
            &&& f.tail@[k].1@.len() == chunk_length(Some(attr.size), f.tail@[k].0 as int)
            &&& 0 <= i < f.tail@[k].1@.len() ==> exists|w: int| #[trigger]
                last_cover(stash@, f.tail@[k].0 + i, w) && f.tail@[k].1@[i]
                    == stash@[w].1@[f.tail@[k].0 + i - stash@[w].0]
        },
{
    if 0 <= k < f.tail@.len() {
        let s = stash@;
        let size = Some(attr.size);
        end_fits(s);
        let n = chunk_count(span_of(s, size));
        chunks_are_whole(s, size, n, k);
        assert(list_view(f.tail@)[k] == (f.tail@[k].0, f.tail@[k].1@));
        if 0 <= i < f.tail@[k].1@.len() {
            holds_bytes(s, size, n, k, i);
            byte_is_the_last_write(s, f.tail@[k].0 + i);
        }
    }
}

} // verus!
