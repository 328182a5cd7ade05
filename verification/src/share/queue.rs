//! Write-behind: writes that are answered before the guest has them.
//!
//! A write that need not be durable is answered as soon as it is queued; a commit is the barrier
//! for durability and for errors.
use crate::share::stash::{fits, Stash};
use crate::surface::NfsError;
use crate::table::{kept, sweep_drop, sweeping, swept, KeyTable};
use crate::types::NodeKey;
use std::sync::Arc;
use vstd::prelude::*;

verus! {

/// Most bytes kept per node for the cache; a node with more loses only the warm read.
pub const STASH_MAX_BYTES: u64 = 268_435_456;

/// After this many bytes the guest is asked to flush ahead of the commit.
pub const PRESYNC_BYTES: u64 = 16_777_216;

/// An idle queue is dropped after this many milliseconds.
pub const WRITE_IDLE_REAP_MS: u64 = 20_000;

/// The most write-behind batches of a share that may be on their way at a time.
pub const WRITE_BEHIND_SLOTS: usize = 96;

/// The writes of one node.
#[derive(Debug)]
pub struct NodeWrites {
    /// Batches that the guest has not taken yet.
    pub inflight: u32,
    /// Their offsets, lengths and numbers.
    pub ranges: Vec<(u64, u64, u32)>,
    pub next_batch: u32,
    /// The first batch that failed says why.
    pub err: Option<NfsError>,
    /// Bytes taken since the last flush ahead.
    pub presync: u64,
    /// Whether anything was queued since the last full commit.
    pub dirty: bool,
    /// What was written, for the cache; `None` where it became too much.
    pub stash: Option<Stash>,
    /// When a write was last queued, by a steady clock in milliseconds.
    pub last_active: Option<u64>,
}

/// The bytes in a stash.
pub open spec fn stashed(stash: Seq<(u64, Arc<Vec<u8>>)>) -> nat
    decreases stash.len(),
{
    if stash.len() == 0 {
        0
    } else {
        stashed(stash.drop_last()) + stash.last().1@.len()
    }
}

/// What became of a batch.
#[derive(Debug, Clone, Copy, PartialEq, Eq, Structural)]
pub struct Landed {
    /// The guest is to flush ahead.
    pub presync: bool,
    /// Nothing is on its way any more.
    pub idle: bool,
}

/// The ranges without a batch.
pub open spec fn without(ranges: Seq<(u64, u64, u32)>, batch: u32) -> Seq<(u64, u64, u32)>
    decreases ranges.len(),
{
    if ranges.len() == 0 {
        seq![]
    } else if ranges.last().2 == batch {
        without(ranges.drop_last(), batch)
    } else {
        without(ranges.drop_last(), batch).push(ranges.last())
    }
}

/// Where a range ends; a length that leads past the last offset means all the rest.
pub open spec fn end_of_range(off: u64, len: u64) -> int {
    if off + len > u64::MAX {
        u64::MAX as int
    } else {
        off + len
    }
}

/// A batch on its way touches the range.
pub open spec fn touches(r: (u64, u64, u32), off: u64, len: u64) -> bool {
    r.0 < end_of_range(off, len) && r.0 + r.1 > off
}

/// Some batch on its way touches the range; the greatest length stands for the whole file, which
/// every batch touches.
pub open spec fn any_touches(ranges: Seq<(u64, u64, u32)>, off: u64, len: u64) -> bool {
    if len == u64::MAX {
        ranges.len() > 0
    } else {
        exists|i: int| 0 <= i < ranges.len() && touches(#[trigger] ranges[i], off, len)
    }
}

/// A stash with one more write, unless that is too much.
pub open spec fn stash_more(
    stash: Option<Seq<(u64, Arc<Vec<u8>>)>>,
    off: u64,
    data: Arc<Vec<u8>>,
) -> Option<Seq<(u64, Arc<Vec<u8>>)>> {
    match stash {
        Some(s) => if stashed(s) + data@.len() > STASH_MAX_BYTES {
            None
        } else {
            Some(s.push((off, data)))
        },
        None => None,
    }
}

pub open spec fn stash_view(stash: Option<Stash>) -> Option<Seq<(u64, Arc<Vec<u8>>)>> {
    match stash {
        Some(s) => Some(s@),
        None => None,
    }
}

fn count_stashed(s: &Stash) -> (n: u128)
    ensures
        n == stashed(s@),
{
    let mut n: u128 = 0;
    let mut i: usize = 0;
    proof {
        assert(s@.take(0) =~= Seq::empty());
        assert(s@.len() == s.len());
    }
    while i < s.len()
        invariant
            i <= s@.len(),
            s@.len() == s.len(),
            n == stashed(s@.take(i as int)),
            n <= i * 0xffff_ffff_ffff_ffff,
        decreases s@.len() - i,
    {
        proof {
            let t = s@.take(i + 1);
            assert(t.drop_last() =~= s@.take(i as int));
            assert(t.last() == s@[i as int]);
        }
        n = n + s[i].1.len() as u128;
        i = i + 1;
    }
    proof {
        assert(s@.take(i as int) =~= s@);
    }
    n
}

impl NodeWrites {
    /// Every queued range and stashed write ends within the range of offsets.
    pub open spec fn wf(&self) -> bool {
        &&& forall|i: int|
            0 <= i < self.ranges@.len() ==> (#[trigger] self.ranges@[i]).0 + self.ranges@[i].1
                <= u64::MAX
        &&& match self.stash {
            Some(s) => fits(s@),
            None => true,
        }
    }

    /// Each batch on its way has one range, and each range is of one batch.
    pub open spec fn accounted(&self) -> bool {
        &&& self.inflight == self.ranges@.len()
        &&& forall|i: int, j: int|
            0 <= i < j < self.ranges@.len() ==> (#[trigger] self.ranges@[i]).2 != (
            #[trigger] self.ranges@[j]).2
    }

    pub open spec fn uses(&self, batch: u32) -> bool {
        exists|i: int| 0 <= i < self.ranges@.len() && (#[trigger] self.ranges@[i]).2 == batch
    }

    /// A queue to which nothing was written yet.
    pub fn new() -> (q: Self)
        ensures
            q.wf(),
            q.accounted(),
            q.inflight == 0,
            q.ranges@.len() == 0,
            q.next_batch == 0,
            q.err is None,
            q.presync == 0,
            !q.dirty,
            stash_view(q.stash) == Some(Seq::<(u64, Arc<Vec<u8>>)>::empty()),
            q.last_active is None,
    {
        let q = NodeWrites {
            inflight: 0,
            ranges: Vec::new(),
            next_batch: 0,
            err: None,
            presync: 0,
            dirty: false,
            stash: Some(Vec::new()),
            last_active: None,
        };
        proof {
            assert(q.stash->0@ =~= Seq::<(u64, Arc<Vec<u8>>)>::empty());
        }
        q
    }

    /// Queue a batch; gives its number.
    pub fn queue(&mut self, off: u64, data: Arc<Vec<u8>>, now: u64) -> (batch: u32)
        requires
            old(self).wf(),
            old(self).inflight < u32::MAX,
            off + data@.len() <= u64::MAX,
        ensures
            final(self).wf(),
            batch == old(self).next_batch,
            final(self).inflight == old(self).inflight + 1,
            final(self).ranges@ == old(self).ranges@.push((off, data@.len() as u64, batch)),
            final(self).next_batch == (if batch == u32::MAX {
                0
            } else {
                (batch + 1) as u32
            }),
            final(self).err == old(self).err,
            final(self).presync == old(self).presync,
            final(self).dirty,
            stash_view(final(self).stash) == stash_more(stash_view(old(self).stash), off, data),
            final(self).last_active == Some(now),
            old(self).accounted() && !old(self).uses(batch) ==> final(self).accounted(),
    {
        let len: usize = data.len();
        self.last_active = Some(now);
        self.inflight = self.inflight + 1;
        self.dirty = true;
        let batch: u32 = self.next_batch;
        self.next_batch = self.next_batch.wrapping_add(1);
        self.ranges.push((off, len as u64, batch));
        let stash = self.stash.take();
        if let Some(mut s) = stash {
            let total: u128 = count_stashed(&s);
            if total <= STASH_MAX_BYTES as u128 && len as u128 <= STASH_MAX_BYTES as u128 - total {
                s.push((off, data));
                self.stash = Some(s);
            }
        }
        batch
    }

    /// A batch came to its end: the guest took its `n` bytes, or it failed.
    pub fn landed(&mut self, batch: u32, n: u64, failed: Option<NfsError>) -> (l: Landed)
        requires
            old(self).wf(),
            old(self).inflight > 0,
        ensures
            final(self).wf(),
            final(self).inflight == old(self).inflight - 1,
            final(self).ranges@ == without(old(self).ranges@, batch),
            l.idle == (old(self).inflight == 1),
            final(self).err == (if old(self).err is Some {
                old(self).err
            } else {
                failed
            }),
            l.presync == (failed is None && old(self).presync + n >= PRESYNC_BYTES),
            final(self).presync == (if failed is Some {
                old(self).presync
            } else if l.presync {
                0
            } else {
                (old(self).presync + n) as u64
            }),
            final(self).next_batch == old(self).next_batch,
            final(self).dirty == old(self).dirty,
            final(self).stash == old(self).stash,
            final(self).last_active == old(self).last_active,
            old(self).accounted() && old(self).uses(batch) ==> final(self).accounted(),
    {
        let mut presync = false;
        if failed.is_some() {
            if self.err.is_none() {
                self.err = failed;
            }
        } else if self.presync >= PRESYNC_BYTES || n >= PRESYNC_BYTES - self.presync {
            self.presync = 0;
            presync = true;
        } else {
            self.presync = self.presync + n;
        }
        let mut left: Vec<(u64, u64, u32)> = Vec::new();
        let mut i: usize = 0;
        proof {
            assert(self.ranges@.take(0) =~= Seq::empty());
        }
        while i < self.ranges.len()
            invariant
                i <= self.ranges@.len(),
                left@ == without(self.ranges@.take(i as int), batch),
                forall|j: int|
                    0 <= j < self.ranges@.len() ==> (#[trigger] self.ranges@[j]).0
                        + self.ranges@[j].1 <= u64::MAX,
                forall|j: int|
                    0 <= j < left@.len() ==> (#[trigger] left@[j]).0 + left@[j].1 <= u64::MAX,
            decreases self.ranges@.len() - i,
        {
            proof {
                let t = self.ranges@.take(i + 1);
                assert(t.drop_last() =~= self.ranges@.take(i as int));
                assert(t.last() == self.ranges@[i as int]);
            }
            let r = self.ranges[i];
            if r.2 != batch {
                left.push(r);
            }
            i = i + 1;
        }
        proof {
            assert(self.ranges@.take(i as int) =~= self.ranges@);
            if old(self).accounted() && old(self).uses(batch) {
                let k = choose|k: int|
                    0 <= k < old(self).ranges@.len() && (#[trigger] old(self).ranges@[k]).2 == batch;
                without_one(old(self).ranges@, batch, k);
            }
        }
        self.ranges = left;
        let idle = self.inflight == 1;
        self.inflight = self.inflight - 1;
        Landed { presync, idle }
    }

    /// Whether a batch on its way touches `[off, off + len)`; the greatest length is the whole
    /// file.
    pub fn blocks(&self, off: u64, len: u64) -> (r: bool)
        requires
            self.wf(),
        ensures
            r == any_touches(self.ranges@, off, len),
    {
        if len == u64::MAX {
            return self.ranges.len() > 0;
        }
        let end: u64 = if len > u64::MAX - off {
            u64::MAX
        } else {
            off + len
        };
        let mut i: usize = 0;
        while i < self.ranges.len()
            invariant
                self.wf(),
                len != u64::MAX,
                end == end_of_range(off, len),
                i <= self.ranges@.len(),
                forall|j: int|
                    0 <= j < i ==> !touches(#[trigger] self.ranges@[j], off, len),
            decreases self.ranges@.len() - i,
        {
            let r = self.ranges[i];
            proof {
                assert(self.ranges@[i as int] == r);
            }
            if r.0 < end && r.0 + r.1 > off {
                return true;
            }
            i = i + 1;
        }
        false
    }
}

/// With one range per batch, taking a batch out takes one range out.
proof fn without_one(ranges: Seq<(u64, u64, u32)>, batch: u32, k: int)
    requires
        0 <= k < ranges.len(),
        ranges[k].2 == batch,
        forall|i: int, j: int|
            0 <= i < j < ranges.len() ==> (#[trigger] ranges[i]).2 != (#[trigger] ranges[j]).2,
    ensures
        without(ranges, batch) == ranges.remove(k),
        forall|i: int, j: int|
            0 <= i < j < ranges.remove(k).len() ==> (#[trigger] ranges.remove(k)[i]).2 != (
            #[trigger] ranges.remove(k)[j]).2,
    decreases ranges.len(),
{
    let p = ranges.drop_last();
    let n = ranges.len() - 1;
    assert forall|i: int, j: int| 0 <= i < j < p.len() implies (#[trigger] p[i]).2 != (
    #[trigger] p[j]).2 by {
        assert(p[i] == ranges[i] && p[j] == ranges[j]);
    }
    if k == n {
        assert forall|i: int| 0 <= i < p.len() implies (#[trigger] p[i]).2 != batch by {
            assert(p[i] == ranges[i]);
            assert(ranges[i].2 != ranges[n].2);
        }
        without_none(p, batch);
        assert(ranges.remove(k) =~= p);
    } else {
        assert(p[k] == ranges[k]);
        without_one(p, batch, k);
        assert(ranges[k].2 != ranges[n].2);
        assert(ranges.remove(k) =~= p.remove(k).push(ranges.last()));
    }
    let r = ranges.remove(k);
    assert forall|i: int, j: int| 0 <= i < j < r.len() implies (#[trigger] r[i]).2 != (
    #[trigger] r[j]).2 by {
        let i0 = if i < k {
            i
        } else {
            i + 1
        };
        let j0 = if j < k {
            j
        } else {
            j + 1
        };
        assert(r[i] == ranges[i0] && r[j] == ranges[j0]);
    }
}

proof fn without_none(ranges: Seq<(u64, u64, u32)>, batch: u32)
    requires
        forall|i: int| 0 <= i < ranges.len() ==> (#[trigger] ranges[i]).2 != batch,
    ensures
        without(ranges, batch) == ranges,
    decreases ranges.len(),
{
    if ranges.len() > 0 {
        let p = ranges.drop_last();
        assert forall|i: int| 0 <= i < p.len() implies (#[trigger] p[i]).2 != batch by {
            assert(p[i] == ranges[i]);
        }
        without_none(p, batch);
        assert(ranges[ranges.len() - 1].2 != batch);
        assert(p.push(ranges.last()) =~= ranges);
    } else {
        assert(without(ranges, batch) =~= ranges);
    }
}

/// A queue whose batches are all accounted for blocks nothing once nothing is on its way.
pub proof fn drained_blocks_nothing(q: NodeWrites, off: u64, len: u64)
    requires
        q.accounted(),
        q.inflight == 0,
    ensures
        !any_touches(q.ranges@, off, len),
{
}

/// Who waits for batches.
#[derive(Debug, Clone, Copy, PartialEq, Eq, Structural)]
pub enum Waiter {
    /// Another operation, which has not waited yet.
    Passing,
    /// Another operation, which has waited before.
    Waiting,
    /// A commit.
    Commit,
}

/// What a wait for batches comes to.
#[derive(Debug, Clone, Copy, PartialEq, Eq, Structural)]
pub enum Drain {
    /// A batch is in the way: look again when one has landed.
    Wait,
    /// Nothing is in the way; a batch may have failed.
    Clear(Option<NfsError>),
}

/// What a commit has to do.
#[derive(Debug, Clone, Copy, PartialEq, Eq, Structural)]
pub enum CommitPlan {
    /// Nothing was written since the last full commit: answer with the attributes as they are.
    Clean,
    /// The guest has to flush; then the stash may go to the cache.
    Flush { stash: bool },
}

/// The write queues of a share.
#[derive(Debug)]
pub struct Queues {
    pub nodes: KeyTable<NodeKey, NodeWrites>,
}

/// Whether a queue is still wanted: something is on its way, or it was used a moment ago.
pub open spec fn wanted(q: NodeWrites, now: u64) -> bool {
    q.inflight > 0 || match q.last_active {
        Some(t) => now < t + WRITE_IDLE_REAP_MS,
        None => false,
    }
}

/// The queues of other nodes are as they were.
pub open spec fn others_same(a: QueueMap, b: QueueMap, node: NodeKey) -> bool {
    a.remove(node) == b.remove(node)
}

/// The queues of the nodes of a share.
pub type QueueMap = Map<NodeKey, NodeWrites>;

/// Batches of a node are on their way.
pub open spec fn on_its_way(m: QueueMap, node: NodeKey) -> bool {
    m.contains_key(node) && m[node].inflight > 0
}

/// A batch of a node was queued.
pub open spec fn batch_queued(
    pre: QueueMap,
    post: QueueMap,
    node: NodeKey,
    off: u64,
    data: Arc<Vec<u8>>,
    now: u64,
    batch: u32,
) -> bool {
    let q = post[node];
    let was = if pre.contains_key(node) {
        stash_view(pre[node].stash)
    } else {
        Some(Seq::<(u64, Arc<Vec<u8>>)>::empty())
    };
    &&& post.contains_key(node)
    &&& others_same(post, pre, node)
    &&& stash_view(q.stash) == stash_more(was, off, data)
    &&& q.dirty
    &&& q.last_active == Some(now)
    &&& q.next_batch == (if batch == u32::MAX {
        0
    } else {
        (batch + 1) as u32
    })
    &&& if pre.contains_key(node) {
        let o = pre[node];
        &&& batch == o.next_batch
        &&& q.inflight == o.inflight + 1
        &&& q.ranges@ == o.ranges@.push((off, data@.len() as u64, batch))
        &&& q.err == o.err
        &&& q.presync == o.presync
        &&& o.accounted() && !o.uses(batch) ==> q.accounted()
    } else {
        &&& batch == 0
        &&& q.inflight == 1
        &&& q.ranges@ == seq![(off, data@.len() as u64, batch)]
        &&& q.err is None
        &&& q.presync == 0
        &&& q.accounted()
    }
}

/// A batch of a node came to its end.
pub open spec fn batch_landed(
    pre: QueueMap,
    post: QueueMap,
    node: NodeKey,
    batch: u32,
    n: u64,
    failed: Option<NfsError>,
    l: Landed,
) -> bool {
    if on_its_way(pre, node) {
        let o = pre[node];
        let q = post[node];
        &&& others_same(post, pre, node)
        &&& post.contains_key(node)
        &&& q.inflight == o.inflight - 1
        &&& q.ranges@ == without(o.ranges@, batch)
        &&& q.err == (if o.err is Some {
            o.err
        } else {
            failed
        })
        &&& q.dirty == o.dirty
        &&& q.stash == o.stash
        &&& q.last_active == o.last_active
        &&& q.next_batch == o.next_batch
        &&& q.presync == (if failed is Some {
            o.presync
        } else if l.presync {
            0
        } else {
            (o.presync + n) as u64
        })
        &&& o.accounted() && o.uses(batch) ==> q.accounted()
        &&& l.idle == (o.inflight == 1)
        &&& l.presync == (failed is None && o.presync + n >= PRESYNC_BYTES)
    } else {
        post == pre && !l.presync && !l.idle
    }
}

/// A batch is the first of its node's that are on their way: it may go to the guest now.
pub open spec fn goes_next(m: QueueMap, node: NodeKey, batch: u32) -> bool {
    m.contains_key(node) && m[node].ranges@.len() > 0 && m[node].ranges@[0].2 == batch
}

/// A wait for the batches of a node that touch a range came to `d`. A failure is told to whoever
/// waited for it and to the next commit, which takes it away.
pub open spec fn drained(
    pre: QueueMap,
    post: QueueMap,
    node: NodeKey,
    off: u64,
    len: u64,
    who: Waiter,
    d: Drain,
) -> bool {
    if !pre.contains_key(node) || (who == Waiter::Passing && !on_its_way(pre, node)) {
        d == Drain::Clear(None) && post == pre
    } else if any_touches(pre[node].ranges@, off, len) {
        d == Drain::Wait && post == pre
    } else {
        &&& d == Drain::Clear(pre[node].err)
        &&& post == (if who == Waiter::Commit {
            pre.insert(node, NodeWrites { err: None, ..pre[node] })
        } else {
            pre
        })
    }
}

/// A commit asked what it has to do.
pub open spec fn commit_planned(
    pre: QueueMap,
    post: QueueMap,
    node: NodeKey,
    len: u64,
    p: CommitPlan,
) -> bool {
    if len != 0 {
        p == (CommitPlan::Flush { stash: false }) && post == pre
    } else if !pre.contains_key(node) || !pre[node].dirty {
        p == CommitPlan::Clean && post == pre
    } else {
        &&& p == (CommitPlan::Flush { stash: pre[node].stash is Some })
        &&& post == pre.insert(node, NodeWrites { dirty: false, ..pre[node] })
    }
}

/// The writes of a node reach the guest in the order in which they came: a new one goes to the end,
/// none goes while one before it is on its way, and when the first has landed, the next is the one
/// that came next.
pub proof fn writes_land_in_order(
    m0: QueueMap,
    m1: QueueMap,
    m2: QueueMap,
    node: NodeKey,
    off: u64,
    data: Arc<Vec<u8>>,
    now: u64,
    batch: u32,
    first: (u32, u64, Option<NfsError>, Landed),
)
    requires
        on_its_way(m0, node),
        m0[node].accounted(),
        !m0[node].uses(batch),
        batch_queued(m0, m1, node, off, data, now, batch),
        goes_next(m1, node, first.0),
        batch_landed(m1, m2, node, first.0, first.1, first.2, first.3),
    ensures
        !goes_next(m1, node, batch),
        m1[node].ranges@.drop_last() == m0[node].ranges@,
        m1[node].ranges@.last() == (off, data@.len() as u64, batch),
        m2[node].ranges@ == m1[node].ranges@.skip(1),
        m2[node].accounted(),
{
    let r0 = m0[node].ranges@;
    let r1 = m1[node].ranges@;
    assert(r1.drop_last() =~= r0);
    assert(r1[0] == r0[0]);
    assert(m1[node].uses(first.0));
    without_one(r1, first.0, 0);
    assert(r1.remove(0) =~= r1.skip(1));
}

/// A write that failed behind its reply reaches a commit, and only one: whoever waits in between,
/// the first commit that finds nothing in its way is told, and the next is not.
pub proof fn failure_reaches_one_commit(
    m0: QueueMap,
    m1: QueueMap,
    m2: QueueMap,
    m3: QueueMap,
    m4: QueueMap,
    node: NodeKey,
    batch: u32,
    n: u64,
    e: NfsError,
    l: Landed,
    between: (u64, u64, Waiter, Drain),
    first: (u64, u64, Drain),
    second: (u64, u64, Drain),
)
    requires
        on_its_way(m0, node),
        m0[node].err is None,
        batch_landed(m0, m1, node, batch, n, Some(e), l),
        drained(m1, m2, node, between.0, between.1, between.2, between.3),
        between.2 != Waiter::Commit,
        drained(m2, m3, node, first.0, first.1, Waiter::Commit, first.2),
        first.2 != Drain::Wait,
        drained(m3, m4, node, second.0, second.1, Waiter::Commit, second.2),
        second.2 != Drain::Wait,
    ensures
        first.2 == Drain::Clear(Some(e)),
        second.2 == Drain::Clear(None),
{
}

/// A failure that is waiting for a commit stays the first one, whatever lands or is queued.
pub proof fn first_failure_stays(
    m0: QueueMap,
    m1: QueueMap,
    m2: QueueMap,
    node: NodeKey,
    e: NfsError,
    queued: (u64, Arc<Vec<u8>>, u64, u32),
    landed: (u32, u64, Option<NfsError>, Landed),
)
    requires
        m0.contains_key(node),
        m0[node].err == Some(e),
        batch_queued(m0, m1, node, queued.0, queued.1, queued.2, queued.3),
        batch_landed(m1, m2, node, landed.0, landed.1, landed.2, landed.3),
    ensures
        m1[node].err == Some(e),
        m2[node].err == Some(e),
{
}

/// A commit of a range that a queued write touches waits for it, and so does one of the whole
/// file.
pub proof fn commit_waits_for_the_write(
    m0: QueueMap,
    m1: QueueMap,
    m2: QueueMap,
    m3: QueueMap,
    node: NodeKey,
    off: u64,
    data: Arc<Vec<u8>>,
    now: u64,
    batch: u32,
    range: (u64, u64, Drain),
    whole: Drain,
)
    requires
        batch_queued(m0, m1, node, off, data, now, batch),
        touches((off, data@.len() as u64, batch), range.0, range.1),
        drained(m1, m2, node, range.0, range.1, Waiter::Commit, range.2),
        drained(m1, m3, node, 0, u64::MAX, Waiter::Commit, whole),
    ensures
        range.2 == Drain::Wait,
        whole == Drain::Wait,
{
    let r = (off, data@.len() as u64, batch);
    let ranges = m1[node].ranges@;
    assert(ranges.last() == r);
    assert(touches(ranges[ranges.len() - 1], range.0, range.1));
}

/// A full commit flushes what was written since the last one, and a second one in a row has
/// nothing to do.
pub proof fn commit_flushes_once(
    m0: QueueMap,
    m1: QueueMap,
    m2: QueueMap,
    m3: QueueMap,
    node: NodeKey,
    off: u64,
    data: Arc<Vec<u8>>,
    now: u64,
    batch: u32,
    first: CommitPlan,
    second: CommitPlan,
)
    requires
        batch_queued(m0, m1, node, off, data, now, batch),
        commit_planned(m1, m2, node, 0, first),
        commit_planned(m2, m3, node, 0, second),
    ensures
        first is Flush,
        second == CommitPlan::Clean,
{
}

impl Queues {
    pub open spec fn view(&self) -> Map<NodeKey, NodeWrites> {
        self.nodes@
    }

    pub open spec fn wf(&self) -> bool {
        &&& self.nodes.wf()
        &&& forall|n: NodeKey| #[trigger] self@.contains_key(n) ==> self@[n].wf()
    }

    pub fn new() -> (q: Self)
        ensures
            q.wf(),
            q@ == Map::<NodeKey, NodeWrites>::empty(),
    {
        Queues { nodes: KeyTable::new() }
    }

    /// Whether batches of a node are on their way.
    pub open spec fn flying(&self, node: NodeKey) -> bool {
        self@.contains_key(node) && self@[node].inflight > 0
    }

    pub fn in_flight(&self, node: NodeKey) -> (r: bool)
        requires
            self.wf(),
        ensures
            r == self.flying(node),
    {
        match self.nodes.get(&node) {
            Some(q) => q.inflight > 0,
            None => false,
        }
    }

    /// Queue a batch of a node; gives its number.
    pub fn queue(&mut self, node: NodeKey, off: u64, data: Arc<Vec<u8>>, now: u64) -> (batch: u32)
        requires
            old(self).wf(),
            old(self)@.contains_key(node) ==> old(self)@[node].inflight < u32::MAX,
            off + data@.len() <= u64::MAX,
        ensures
            final(self).wf(),
            batch_queued(old(self)@, final(self)@, node, off, data, now, batch),
    {
        let mut q = match self.nodes.remove(&node) {
            Some(q) => q,
            None => NodeWrites::new(),
        };
        let batch: u32 = q.queue(off, data, now);
        let ghost done = q;
        let _was = self.nodes.insert(node, q);
        proof {
            assert(self@.remove(node) =~= old(self)@.remove(node));
            if !old(self)@.contains_key(node) {
                assert(done.ranges@ =~= seq![(off, data@.len() as u64, batch)]);
            }
        }
        batch
    }

    /// Whether a batch is the first of its node's that are on their way.
    pub fn is_next(&self, node: NodeKey, batch: u32) -> (r: bool)
        requires
            self.wf(),
        ensures
            r == goes_next(self@, node, batch),
    {
        match self.nodes.get(&node) {
            Some(q) => q.ranges.len() > 0 && q.ranges[0].2 == batch,
            None => false,
        }
    }

    /// A batch of a node came to its end. A queue that was dropped meanwhile has nothing to note.
    pub fn landed(&mut self, node: NodeKey, batch: u32, n: u64, failed: Option<NfsError>) -> (l:
        Landed)
        requires
            old(self).wf(),
        ensures
            final(self).wf(),
            batch_landed(old(self)@, final(self)@, node, batch, n, failed, l),
            !old(self).flying(node) ==> *final(self) == *old(self),
    {
        if !self.in_flight(node) {
            return Landed { presync: false, idle: false };
        }
        match self.nodes.remove(&node) {
            Some(mut q) => {
                let l = q.landed(batch, n, failed);
                let _was = self.nodes.insert(node, q);
                proof {
                    assert(self@.remove(node) =~= old(self)@.remove(node));
                }
                l
            },
            None => Landed { presync: false, idle: false },
        }
    }

    /// Wait for the batches of a node that touch `[off, off + len)`. A commit is told of a failure
    /// once; another operation is told if it had to wait, and leaves the failure to the commit.
    pub fn drain(&mut self, node: NodeKey, off: u64, len: u64, who: Waiter) -> (d: Drain)
        requires
            old(self).wf(),
        ensures
            final(self).wf(),
            drained(old(self)@, final(self)@, node, off, len, who, d),
    {
        match self.nodes.get(&node) {
            None => {
                return Drain::Clear(None);
            },
            Some(q) => {
                if who == Waiter::Passing && q.inflight == 0 {
                    return Drain::Clear(None);
                }
                if q.blocks(off, len) {
                    return Drain::Wait;
                }
                if who != Waiter::Commit {
                    return Drain::Clear(q.err);
                }
            },
        }
        match self.nodes.remove(&node) {
            Some(mut q) => {
                let e = q.err.take();
                let _was = self.nodes.insert(node, q);
                proof {
                    assert(self@ =~= old(self)@.insert(
                        node,
                        NodeWrites { err: None, ..old(self)@[node] },
                    ));
                }
                Drain::Clear(e)
            },
            None => Drain::Clear(None),
        }
    }

    /// What a commit has to do once nothing is in its way; a length of 0 is the whole file. A
    /// full commit takes the node for clean from here on.
    pub fn commit_plan(&mut self, node: NodeKey, len: u64) -> (p: CommitPlan)
        requires
            old(self).wf(),
        ensures
            final(self).wf(),
            commit_planned(old(self)@, final(self)@, node, len, p),
    {
        if len != 0 {
            return CommitPlan::Flush { stash: false };
        }
        match self.nodes.get(&node) {
            Some(q) => {
                if !q.dirty {
                    return CommitPlan::Clean;
                }
            },
            None => {
                return CommitPlan::Clean;
            },
        }
        match self.nodes.remove(&node) {
            Some(mut q) => {
                q.dirty = false;
                let stash = q.stash.is_some();
                let _was = self.nodes.insert(node, q);
                proof {
                    assert(self@ =~= old(self)@.insert(
                        node,
                        NodeWrites { dirty: false, ..old(self)@[node] },
                    ));
                }
                CommitPlan::Flush { stash }
            },
            None => CommitPlan::Clean,
        }
    }

    /// The flush of a commit failed: the node is not clean.
    pub fn commit_failed(&mut self, node: NodeKey)
        requires
            old(self).wf(),
        ensures
            final(self).wf(),
            if old(self)@.contains_key(node) {
                final(self)@ == old(self)@.insert(
                    node,
                    NodeWrites { dirty: true, ..old(self)@[node] },
                )
            } else {
                *final(self) == *old(self)
            },
    {
        match self.nodes.remove(&node) {
            Some(mut q) => {
                q.dirty = true;
                let _was = self.nodes.insert(node, q);
                proof {
                    assert(self@ =~= old(self)@.insert(
                        node,
                        NodeWrites { dirty: true, ..old(self)@[node] },
                    ));
                }
            },
            None => {},
        }
    }

    /// Drop a node's queue if nothing of it is on its way.
    pub fn forget(&mut self, node: NodeKey)
        requires
            old(self).wf(),
        ensures
            final(self).wf(),
            final(self)@ == if old(self).flying(node) {
                old(self)@
            } else {
                old(self)@.remove(node)
            },
    {
        if self.in_flight(node) {
            return;
        }
        let _q = self.nodes.remove(&node);
    }

    /// Drop the queues that are not wanted any more.
    pub fn reap(&mut self, now: u64)
        requires
            old(self).wf(),
        ensures
            final(self).wf(),
            final(self)@ == kept(old(self)@, |n: NodeKey, q: NodeWrites| wanted(q, now)),
    {
        let ghost keep = |n: NodeKey, q: NodeWrites| wanted(q, now);
        let ghost before = self.nodes@;
        let mut i: usize = 0;
        while i < self.nodes.rows.len()
            invariant
                sweeping(before, self.nodes, i as int, keep),
                keep == (|n: NodeKey, q: NodeWrites| wanted(q, now)),
            decreases self.nodes.rows@.len() - i,
        {
            let q = &self.nodes.rows[i].1;
            let want = q.inflight > 0 || match q.last_active {
                Some(t) => (now as u128) < t as u128 + WRITE_IDLE_REAP_MS as u128,
                None => false,
            };
            if want {
                i = i + 1;
            } else {
                let ghost then = self.nodes;
                let _row = self.nodes.remove_at(i);
                proof {
                    sweep_drop(before, then, self.nodes, i as int, keep);
                }
            }
        }
        proof {
            swept(before, self.nodes, keep);
            assert forall|n: NodeKey| #[trigger] self@.contains_key(n) implies self@[n].wf() by {
                assert(old(self)@.contains_key(n));
            }
        }
    }
}

} // verus!
