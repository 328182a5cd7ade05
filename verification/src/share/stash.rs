//! Written bytes that are kept until the cache can take them.
use std::sync::Arc;
use vstd::prelude::*;

verus! {

/// The cache's chunk size: what is fetched from the guest is aligned to it.
pub const CAS_CHUNK: u64 = 4_194_304;

/// Writes in the order in which they came, each with its offset.
pub type Stash = Vec<(u64, Arc<Vec<u8>>)>;

/// Every write ends within the range of offsets.
pub open spec fn fits(stash: Seq<(u64, Arc<Vec<u8>>)>) -> bool {
    forall|i: int|
        0 <= i < stash.len() ==> (#[trigger] stash[i]).0 + stash[i].1@.len() <= u64::MAX
}

/// The byte that the writes left at a position: the last write that covers it wins.
pub open spec fn byte_at(stash: Seq<(u64, Arc<Vec<u8>>)>, pos: int) -> Option<u8>
    decreases stash.len(),
{
    if stash.len() == 0 {
        None
    } else {
        let (off, data) = stash.last();
        if off <= pos < off + data@.len() {
            Some(data@[pos - off])
        } else {
            byte_at(stash.drop_last(), pos)
        }
    }
}

/// Where the writes end.
pub open spec fn end_of(stash: Seq<(u64, Arc<Vec<u8>>)>) -> nat
    decreases stash.len(),
{
    if stash.len() == 0 {
        0
    } else {
        let e = stash.last().0 as nat + stash.last().1@.len();
        let r = end_of(stash.drop_last());
        if r < e {
            e
        } else {
            r
        }
    }
}

/// Every byte of a range was written.
pub open spec fn range_written(stash: Seq<(u64, Arc<Vec<u8>>)>, off: int, len: nat) -> bool {
    forall|i: int| 0 <= i < len ==> (#[trigger] byte_at(stash, off + i)) is Some
}

/// What the writes left in a range.
pub open spec fn range_of(stash: Seq<(u64, Arc<Vec<u8>>)>, off: int, len: nat) -> Seq<u8> {
    Seq::new(len, |i: int| byte_at(stash, off + i)->0)
}

/// Up to where chunks are looked at: the end of the file, where it is known, or of the writes.
pub open spec fn span_of(stash: Seq<(u64, Arc<Vec<u8>>)>, size: Option<u64>) -> nat {
    let e = end_of(stash);
    match size {
        Some(sz) => if sz < e {
            sz as nat
        } else {
            e
        },
        None => e,
    }
}

/// The length of the chunk at `off`: a chunk that the file's end cuts short counts only where
/// that end is known.
pub open spec fn chunk_len(size: Option<u64>, span: nat, off: nat) -> Option<nat> {
    match size {
        Some(sz) => Some(
            if sz - off < CAS_CHUNK {
                (sz - off) as nat
            } else {
                CAS_CHUNK as nat
            },
        ),
        None => if off + CAS_CHUNK > span {
            None
        } else {
            Some(CAS_CHUNK as nat)
        },
    }
}

/// Of the first `n` chunks those that were written in full, with what was written.
pub open spec fn chunks_of(stash: Seq<(u64, Arc<Vec<u8>>)>, size: Option<u64>, n: nat) -> Seq<
    (u64, Seq<u8>),
>
    decreases n,
{
    if n == 0 {
        seq![]
    } else {
        let before = chunks_of(stash, size, (n - 1) as nat);
        let off = (n - 1) as nat * CAS_CHUNK as nat;
        match chunk_len(size, span_of(stash, size), off) {
            Some(len) => if range_written(stash, off as int, len) {
                before.push((off as u64, range_of(stash, off as int, len)))
            } else {
                before
            },
            None => before,
        }
    }
}

/// How many chunks a span touches.
pub open spec fn chunk_count(span: nat) -> nat {
    (span + CAS_CHUNK - 1) as nat / CAS_CHUNK as nat
}

pub open spec fn list_view(list: Seq<(u64, Vec<u8>)>) -> Seq<(u64, Seq<u8>)> {
    Seq::new(list.len(), |i: int| (list[i].0, list[i].1@))
}

fn end(stash: &[(u64, Arc<Vec<u8>>)]) -> (e: u64)
    requires
        fits(stash@),
    ensures
        e == end_of(stash@),
{
    let mut e: u64 = 0;
    let mut i: usize = 0;
    proof {
        assert(stash@.take(0) =~= Seq::empty());
    }
    while i < stash.len()
        invariant
            fits(stash@),
            i <= stash@.len(),
            e == end_of(stash@.take(i as int)),
        decreases stash@.len() - i,
    {
        proof {
            let t = stash@.take(i + 1);
            assert(t.drop_last() =~= stash@.take(i as int));
            assert(t.last() == stash@[i as int]);
        }
        let x: u64 = stash[i].0 + stash[i].1.len() as u64;
        if e < x {
            e = x;
        }
        i = i + 1;
    }
    proof {
        assert(stash@.take(i as int) =~= stash@);
    }
    e
}

/// What is known of a range after some writes: which bytes were written, and what they are.
spec fn filled(
    stash: Seq<(u64, Arc<Vec<u8>>)>,
    off: int,
    buf: Seq<u8>,
    seen: Seq<bool>,
) -> bool {
    &&& buf.len() == seen.len()
    &&& forall|i: int|
        #![trigger seen[i]]
        #![trigger buf[i]]
        0 <= i < seen.len() ==> match byte_at(stash, off + i) {
            Some(b) => seen[i] && buf[i] == b,
            None => !seen[i],
        }
}

/// Lay one more write over the range.
fn overlay(
    buf: &mut Vec<u8>,
    seen: &mut Vec<bool>,
    c_off: u64,
    off: u64,
    data: &Vec<u8>,
    Ghost(stash): Ghost<Seq<(u64, Arc<Vec<u8>>)>>,
)
    requires
        stash.len() > 0,
        stash.last().0 == off,
        stash.last().1@ == data@,
        off + data@.len() <= u64::MAX,
        c_off + old(buf)@.len() <= u64::MAX,
        filled(stash.drop_last(), c_off as int, old(buf)@, old(seen)@),
    ensures
        final(buf)@.len() == old(buf)@.len(),
        filled(stash, c_off as int, final(buf)@, final(seen)@),
{
    let c_len: usize = buf.len();
    let d_len: usize = data.len();
    let c_end: u64 = c_off + c_len as u64;
    let d_end: u64 = off + d_len as u64;
    let s: u64 = if off < c_off {
        c_off
    } else {
        off
    };
    let e: u64 = if d_end < c_end {
        d_end
    } else {
        c_end
    };
    let ghost b0 = buf@;
    let ghost s0 = seen@;
    let mut p: u64 = s;
    while p < e
        invariant
            off <= s,
            c_off <= s,
            s <= p,
            p <= e || p == s,
            e <= d_end,
            e <= c_end,
            c_end == c_off + c_len,
            d_end == off + d_len,
            buf@.len() == c_len,
            data@.len() == d_len,
            buf@.len() == b0.len(),
            seen@.len() == buf@.len(),
            s0.len() == b0.len(),
            forall|i: int|
                #![trigger seen@[i]]
                #![trigger buf@[i]]
                0 <= i < buf@.len() ==> if s <= c_off + i < p {
                    seen@[i] && buf@[i] == data@[c_off + i - off]
                } else {
                    seen@[i] == s0[i] && buf@[i] == b0[i]
                },
        decreases e - p,
    {
        let at: usize = (p - c_off) as usize;
        let from: usize = (p - off) as usize;
        buf.set(at, data[from]);
        seen.set(at, true);
        p = p + 1;
    }
    proof {
        let before = stash.drop_last();
        assert forall|i: int|
            #![trigger seen@[i]]
            #![trigger buf@[i]]
            0 <= i < seen@.len() implies match byte_at(stash, c_off + i) {
            Some(b) => seen@[i] && buf@[i] == b,
            None => !seen@[i],
        } by {
            let pos = c_off + i;
            if off <= pos < off + data@.len() {
                assert(byte_at(stash, pos) == Some(data@[pos - off]));
            } else {
                assert(byte_at(stash, pos) == byte_at(before, pos));
                assert(match byte_at(before, pos) {
                    Some(b) => s0[i] && b0[i] == b,
                    None => !s0[i],
                });
            }
        }
    }
}

fn all_true(v: &Vec<bool>) -> (r: bool)
    ensures
        r == forall|i: int| 0 <= i < v@.len() ==> #[trigger] v@[i],
{
    let mut i: usize = 0;
    while i < v.len()
        invariant
            i <= v@.len(),
            forall|j: int| 0 <= j < i ==> #[trigger] v@[j],
        decreases v@.len() - i,
    {
        if !v[i] {
            return false;
        }
        i = i + 1;
    }
    true
}

/// The bytes of a range, if every one of them was written.
fn range(stash: &[(u64, Arc<Vec<u8>>)], off: u64, len: usize) -> (r: Option<Vec<u8>>)
    requires
        fits(stash@),
        off + len <= u64::MAX,
    ensures
        match r {
            Some(b) => range_written(stash@, off as int, len as nat) && b@ == range_of(
                stash@,
                off as int,
                len as nat,
            ),
            None => !range_written(stash@, off as int, len as nat),
        },
{
    let mut buf: Vec<u8> = vec![0u8; len];
    let mut seen: Vec<bool> = vec![false; len];
    let mut k: usize = 0;
    proof {
        assert(stash@.take(0) =~= Seq::empty());
    }
    while k < stash.len()
        invariant
            fits(stash@),
            off + len <= u64::MAX,
            k <= stash@.len(),
            buf@.len() == len,
            filled(stash@.take(k as int), off as int, buf@, seen@),
        decreases stash@.len() - k,
    {
        proof {
            let t = stash@.take(k + 1);
            assert(t.drop_last() =~= stash@.take(k as int));
            assert(t.last() == stash@[k as int]);
        }
        overlay(&mut buf, &mut seen, off, stash[k].0, &stash[k].1, Ghost(stash@.take(k + 1)));
        k = k + 1;
    }
    proof {
        assert(stash@.take(k as int) =~= stash@);
    }
    if all_true(&seen) {
        proof {
            assert forall|i: int| 0 <= i < len implies (#[trigger] byte_at(
                stash@,
                off + i,
            )) is Some by {
                assert(seen@[i]);
            }
            assert(buf@ =~= range_of(stash@, off as int, len as nat)) by {
                assert forall|i: int| 0 <= i < len implies #[trigger] buf@[i] == byte_at(
                    stash@,
                    off + i,
                )->0 by {
                    assert(seen@[i]);
                }
            }
        }
        Some(buf)
    } else {
        proof {
            if range_written(stash@, off as int, len as nat) {
                assert forall|i: int| 0 <= i < seen@.len() implies #[trigger] seen@[i] by {
                    assert(byte_at(stash@, off + i) is Some);
                }
            }
        }
        None
    }
}

/// The chunks that the writes cover in full, each with what they left in it. `size` is the file's
/// size; without it only whole chunks count.
pub fn covered_chunks(stash: &[(u64, Arc<Vec<u8>>)], size: Option<u64>) -> (list: Vec<
    (u64, Vec<u8>),
>)
    requires
        fits(stash@),
    ensures
        list_view(list@) == chunks_of(stash@, size, chunk_count(span_of(stash@, size))),
{
    let e: u64 = end(stash);
    let span: u64 = match size {
        Some(sz) => if sz < e {
            sz
        } else {
            e
        },
        None => e,
    };
    let n: u64 = if span % CAS_CHUNK == 0 {
        span / CAS_CHUNK
    } else {
        span / CAS_CHUNK + 1
    };
    let mut list: Vec<(u64, Vec<u8>)> = Vec::new();
    let mut c: u64 = 0;
    proof {
        assert(list_view(list@) =~= chunks_of(stash@, size, 0));
    }
    while c < n
        invariant
            fits(stash@),
            span == span_of(stash@, size),
            n == chunk_count(span as nat),
            c <= n,
            list_view(list@) == chunks_of(stash@, size, c as nat),
        decreases n - c,
    {
        let off: u64 = c * CAS_CHUNK;
        let ghost before = list@;
        let len: Option<u64> = match size {
            Some(sz) => Some(
                if sz - off < CAS_CHUNK {
                    sz - off
                } else {
                    CAS_CHUNK
                },
            ),
            None => if span - off < CAS_CHUNK {
                None
            } else {
                Some(CAS_CHUNK)
            },
        };
        if let Some(len) = len {
            if let Some(buf) = range(stash, off, len as usize) {
                list.push((off, buf));
                proof {
                    assert(list_view(list@) =~= list_view(before).push((off, buf@)));
                }
            }
        }
        c = c + 1;
    }
    list
}

/// A chunk that is handed on holds, byte for byte, what the last writes left there.
pub proof fn chunks_hold_what_was_written(
    stash: Seq<(u64, Arc<Vec<u8>>)>,
    size: Option<u64>,
    n: nat,
    k: int,
    i: int,
)
    requires
        0 <= k < chunks_of(stash, size, n).len(),
        0 <= i < chunks_of(stash, size, n)[k].1.len(),
        n * CAS_CHUNK <= u64::MAX,
    ensures
        byte_at(stash, chunks_of(stash, size, n)[k].0 + i) == Some(
            chunks_of(stash, size, n)[k].1[i],
        ),
    decreases n,
{
    let before = chunks_of(stash, size, (n - 1) as nat);
    let off = (n - 1) as nat * CAS_CHUNK as nat;
    if k < before.len() {
        chunks_hold_what_was_written(stash, size, (n - 1) as nat, k, i);
    } else {
        assert(byte_at(stash, off + i) is Some);
    }
}

} // verus!
