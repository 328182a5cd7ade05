//! Large-buffer pool for the streaming read path.
//!
//! A fresh buffer of a mebibyte pays page faults on first touch; recycling buffers keeps the
//! pages resident. Strictly an optimization: [`take`] falls back to a fresh allocation.
use vstd::prelude::*;

verus! {

/// Most buffers the pool keeps.
pub const POOL_CAP: usize = 32;

/// Smallest capacity worth keeping.
pub const MIN_KEEP: usize = 0x10_0000;

/// Largest capacity kept.
pub const MAX_KEEP: usize = 0x40_1000;

/// The buffers waiting for reuse.
#[derive(Debug)]
pub struct Pool {
    bufs: Vec<Vec<u8>>,
}

/// Calls `Vec::capacity`: how many bytes the buffer can hold without reallocating, which is
/// never less than what it holds. The allocator decides the rest.
#[verifier::external_body]
fn capacity(buf: &Vec<u8>) -> (n: usize)
    ensures
        n >= buf@.len(),
{
    buf.capacity()
}

impl Pool {
    pub closed spec fn view(&self) -> Seq<Vec<u8>> {
        self.bufs@
    }

    /// The pool never holds more than [`POOL_CAP`] buffers.
    pub open spec fn wf(&self) -> bool {
        self@.len() <= POOL_CAP
    }

    pub fn new() -> (p: Pool)
        ensures
            p.wf(),
            p@.len() == 0,
    {
        Pool { bufs: Vec::new() }
    }

    /// Take out the first buffer whose capacity, as listed in `caps`, is at least `min_cap`. It
    /// comes back empty; the last buffer moves into its place.
    pub fn take_listed(&mut self, caps: &Vec<usize>, min_cap: usize) -> (res: Option<Vec<u8>>)
        requires
            old(self).wf(),
            caps@.len() == old(self)@.len(),
        ensures
            final(self).wf(),
            match res {
                Some(buf) => {
                    &&& buf@.len() == 0
                    &&& exists|i: int|
                        #![trigger caps@[i]]
                        {
                            &&& 0 <= i < caps@.len()
                            &&& caps@[i] >= min_cap
                            &&& forall|j: int| 0 <= j < i ==> caps@[j] < min_cap
                            &&& final(self)@ == old(self)@.update(i, old(self)@.last()).drop_last()
                        }
                },
                None => {
                    &&& forall|j: int| 0 <= j < caps@.len() ==> caps@[j] < min_cap
                    &&& final(self)@ == old(self)@
                },
            },
    {
        let mut i: usize = 0;
        while i < caps.len()
            invariant
                i <= caps@.len(),
                caps@.len() == self@.len(),
                self@ == old(self)@,
                self.wf(),
                forall|j: int| 0 <= j < i ==> caps@[j] < min_cap,
            decreases caps@.len() - i,
        {
            if caps[i] >= min_cap {
                let mut buf = self.bufs.swap_remove(i);
                buf.clear();
                proof {
                    assert(caps@[i as int] >= min_cap);
                }
                return Some(buf);
            }
            i = i + 1;
        }
        None
    }

    /// Keep `buf`, of capacity `cap`, unless it is too small, too large, or the pool is full.
    pub fn give_sized(&mut self, buf: Vec<u8>, cap: usize)
        requires
            old(self).wf(),
        ensures
            final(self).wf(),
            final(self)@ == (if MIN_KEEP <= cap <= MAX_KEEP && old(self)@.len() < POOL_CAP {
                old(self)@.push(buf)
            } else {
                old(self)@
            }),
    {
        if cap < MIN_KEEP || cap > MAX_KEEP {
            return;
        }
        if self.bufs.len() < POOL_CAP {
            self.bufs.push(buf);
        }
    }
}

/// The buffer at `i` left the pool, and the last one moved into its place. None before it holds
/// `min_cap` bytes: such a one would have been large enough.
pub open spec fn taken_at(pre: Seq<Vec<u8>>, post: Seq<Vec<u8>>, min_cap: usize, i: int) -> bool {
    &&& 0 <= i < pre.len()
    &&& post == pre.update(i, pre.last()).drop_last()
    &&& forall|j: int| 0 <= j < i ==> (#[trigger] pre[j])@.len() < min_cap
}

/// What taking a buffer of `min_cap` bytes does to a pool. Which one is recycled depends on the
/// capacities that the allocator gave. A buffer that holds `min_cap` bytes is large enough whatever
/// they are: where the pool has one, that one or one before it is recycled, and where nothing is
/// recycled, the pool has none.
pub open spec fn drawn(pre: Pool, post: Pool, min_cap: usize) -> bool {
    if post@ == pre@ {
        forall|j: int| 0 <= j < pre@.len() ==> (#[trigger] pre@[j])@.len() < min_cap
    } else {
        exists|i: int| #[trigger] taken_at(pre@, post@, min_cap, i)
    }
}

/// An empty buffer, recycled from the pool when one there is large enough.
pub fn take(pool: &mut Pool, min_cap: usize) -> (buf: Vec<u8>)
    requires
        old(pool).wf(),
    ensures
        final(pool).wf(),
        buf@.len() == 0,
        drawn(*old(pool), *final(pool), min_cap),
{
    let mut caps: Vec<usize> = Vec::new();
    let mut i: usize = 0;
    while i < pool.bufs.len()
        invariant
            i <= pool@.len(),
            caps@.len() == i,
            pool@ == old(pool)@,
            pool.wf(),
            forall|j: int|
                0 <= j < i ==> (#[trigger] old(pool)@[j])@.len() <= caps@[j],
        decreases pool@.len() - i,
    {
        caps.push(capacity(&pool.bufs[i]));
        i = i + 1;
    }
    match pool.take_listed(&caps, min_cap) {
        Some(buf) => {
            proof {
                let k = choose|k: int|
                    #![trigger caps@[k]]
                    {
                        &&& 0 <= k < caps@.len()
                        &&& caps@[k] >= min_cap
                        &&& forall|j: int| 0 <= j < k ==> caps@[j] < min_cap
                        &&& pool@ == old(pool)@.update(k, old(pool)@.last()).drop_last()
                    };
                assert(taken_at(old(pool)@, pool@, min_cap, k));
            }
            buf
        },
        None => Vec::with_capacity(min_cap),
    }
}

/// Return a buffer to the pool, which drops it if it is tiny, huge, or the pool is full.
pub fn give(pool: &mut Pool, buf: Vec<u8>)
    requires
        old(pool).wf(),
    ensures
        final(pool).wf(),
        final(pool)@ == old(pool)@ || (old(pool)@.len() < POOL_CAP && final(pool)@ == old(
            pool,
        )@.push(buf)),
        buf@.len() > MAX_KEEP ==> final(pool)@ == old(pool)@,
{
    let cap: usize = capacity(&buf);
    pool.give_sized(buf, cap);
}

} // verus!
