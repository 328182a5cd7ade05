//! Write-behind and commits: what is on its way, who waits for it, and who is told of a failure.
use crate::laws::share_ops::{as_owned, failed_as, kept_up};
use crate::share::commit::{begin_commit, commit_begun, end_commit, CommitEnd, CommitMove};
use crate::share::guest::{effects, Effect, RpcResp};
use crate::share::ops::Owner;
use crate::share::queue::{
    stash_view, stashed, without, CommitPlan, Drain, Landed, NodeWrites, QueueMap, Queues, Waiter,
};
use crate::surface::NfsError;
use crate::types::{Attr, NodeKey};
use std::sync::Arc;
use vstd::prelude::*;

verus! {

/// How many bytes a list of writes holds.
pub open spec fn total(stash: Seq<(u64, Arc<Vec<u8>>)>) -> int {
    stash.fold_left(0int, |n: int, w: (u64, Arc<Vec<u8>>)| n + w.1@.len())
}

proof fn total_is_stashed(stash: Seq<(u64, Arc<Vec<u8>>)>)
    ensures
        total(stash) == stashed(stash),
    decreases stash.len(),
{
    if stash.len() > 0 {
        total_is_stashed(stash.drop_last());
    }
}

/// A range that a batch on its way reaches into; the greatest length is the whole file.
pub open spec fn in_the_way(ranges: Seq<(u64, u64, u32)>, off: u64, len: u64) -> bool {
    if len == 0xffff_ffff_ffff_ffff {
        ranges.len() > 0
    } else {
        exists|i: int|
            #![trigger ranges[i]]
            {
                &&& 0 <= i < ranges.len()
                &&& ranges[i].0 < off + len
                &&& ranges[i].0 < 0xffff_ffff_ffff_ffff
                &&& off < ranges[i].0 + ranges[i].1
            }
    }
}

proof fn ways_agree(ranges: Seq<(u64, u64, u32)>, off: u64, len: u64)
    ensures
        in_the_way(ranges, off, len) == crate::share::queue::any_touches(ranges, off, len),
{
    if len != 0xffff_ffff_ffff_ffff {
        if in_the_way(ranges, off, len) {
            let i = choose|i: int|
                #![trigger ranges[i]]
                {
                    &&& 0 <= i < ranges.len()
                    &&& ranges[i].0 < off + len
                    &&& ranges[i].0 < 0xffff_ffff_ffff_ffff
                    &&& off < ranges[i].0 + ranges[i].1
                };
            assert(crate::share::queue::touches(ranges[i], off, len));
        }
        if crate::share::queue::any_touches(ranges, off, len) {
            let i = choose|i: int|
                0 <= i < ranges.len() && crate::share::queue::touches(
                    #[trigger] ranges[i],
                    off,
                    len,
                );
            assert(ranges[i].0 < off + len);
        }
    }
}

/// A node's queue blocks a range exactly where a batch on its way reaches into it.
pub proof fn batches_block(q: &NodeWrites, off: u64, len: u64, r: bool)
    requires
        call_ensures(NodeWrites::blocks, (q, off, len), r),
    ensures
        r <==> in_the_way(q.ranges@, off, len),
{
    ways_agree(q.ranges@, off, len);
}

proof fn without_keeps_the_others(ranges: Seq<(u64, u64, u32)>, batch: u32)
    ensures
        forall|i: int|
            0 <= i < without(ranges, batch).len() ==> (#[trigger] without(ranges, batch)[i]).2
                != batch && ranges.contains(without(ranges, batch)[i]),
        forall|i: int|
            0 <= i < ranges.len() && (#[trigger] ranges[i]).2 != batch ==> without(
                ranges,
                batch,
            ).contains(ranges[i]),
        (forall|i: int| 0 <= i < ranges.len() ==> (#[trigger] ranges[i]).2 != batch) ==> without(
            ranges,
            batch,
        ) == ranges,
        ranges.len() > 0 && ranges[0].2 == batch && (forall|i: int|
            1 <= i < ranges.len() ==> (#[trigger] ranges[i]).2 != batch) ==> without(ranges, batch)
            == ranges.skip(1),
    decreases ranges.len(),
{
    let w = without(ranges, batch);
    if ranges.len() > 0 {
        let p = ranges.drop_last();
        let v = without(p, batch);
        without_keeps_the_others(p, batch);
        let n = ranges.len() - 1;
        assert forall|i: int| 0 <= i < w.len() implies (#[trigger] w[i]).2 != batch
            && ranges.contains(w[i]) by {
            if i < v.len() {
                assert(w[i] == v[i]);
                let k = choose|k: int| 0 <= k < p.len() && p[k] == v[i];
                assert(ranges[k] == w[i]);
            } else {
                assert(ranges[n] == w[i]);
            }
        }
        assert forall|i: int| 0 <= i < ranges.len() && (#[trigger] ranges[i]).2
            != batch implies w.contains(ranges[i]) by {
            if i < n {
                assert(p[i] == ranges[i]);
                assert(v.contains(p[i]));
                let k = choose|k: int| 0 <= k < v.len() && v[k] == p[i];
                assert(w[k] == v[k]);
            } else {
                assert(w[w.len() - 1] == ranges[n]);
            }
        }
        assert forall|i: int| 0 <= i < p.len() implies #[trigger] p[i] == ranges[i] by {}
        if forall|i: int| 0 <= i < ranges.len() ==> (#[trigger] ranges[i]).2 != batch {
            assert(ranges[n].2 != batch);
            assert(v == p);
            assert(w =~= ranges);
        }
        if ranges[0].2 == batch && (forall|i: int|
            1 <= i < ranges.len() ==> (#[trigger] ranges[i]).2 != batch) {
            if n == 0 {
                assert(w =~= ranges.skip(1));
            } else {
                assert(ranges[n].2 != batch);
                assert(p[0] == ranges[0]);
                assert(v == p.skip(1));
                assert(w =~= ranges.skip(1));
            }
        }
    } else {
        assert(w =~= ranges);
    }
}

/// The queues of all other nodes are as they were.
pub open spec fn only_this(a: QueueMap, b: QueueMap, node: NodeKey) -> bool {
    forall|n: NodeKey|
        #![trigger a.contains_key(n)]
        #![trigger b.contains_key(n)]
        n != node ==> (a.contains_key(n) <==> b.contains_key(n)) && (a.contains_key(n) ==> a[n]
            == b[n])
}

proof fn only_this_by_remove(a: QueueMap, b: QueueMap, node: NodeKey)
    requires
        a.remove(node) == b.remove(node),
    ensures
        only_this(a, b, node),
{
    assert forall|n: NodeKey|
        #![trigger a.contains_key(n)]
        #![trigger b.contains_key(n)]
        n != node implies (a.contains_key(n) <==> b.contains_key(n)) && (a.contains_key(n) ==> a[n]
        == b[n]) by {
        assert(a.remove(node).contains_key(n) == a.contains_key(n));
        assert(b.remove(node).contains_key(n) == b.contains_key(n));
        if a.contains_key(n) {
            assert(a.remove(node)[n] == a[n]);
            assert(b.remove(node)[n] == b[n]);
        }
    }
}

/// A batch that is queued comes last, under a number of its own, and makes the node dirty; what
/// was written is kept as long as it is at most 256 MiB in all.
pub proof fn batch_is_queued(
    q: &mut Queues,
    node: NodeKey,
    off: u64,
    data: Arc<Vec<u8>>,
    now: u64,
    batch: u32,
)
    requires
        call_ensures(Queues::queue, (q, node, off, data, now), batch),
    ensures
        only_this(old(q).nodes@, final(q).nodes@, node),
        final(q).nodes@.contains_key(node),
        ({
            let a = old(q).nodes@;
            let w = final(q).nodes@[node];
            &&& w.dirty
            &&& w.last_active == Some(now)
            &&& w.ranges@.len() > 0
            &&& w.ranges@.last() == (off, data@.len() as u64, batch)
            &&& a.contains_key(node) ==> {
                let o = a[node];
                &&& batch == o.next_batch
                &&& w.inflight == o.inflight + 1
                &&& w.ranges@.drop_last() == o.ranges@
                &&& w.err == o.err
                &&& w.presync == o.presync
                &&& o.stash is None ==> w.stash is None
                &&& o.stash is Some && total(o.stash->0@) + data@.len() > 268_435_456
                    ==> w.stash is None
                &&& o.stash is Some && total(o.stash->0@) + data@.len() <= 268_435_456
                    ==> w.stash is Some && w.stash->0@ == o.stash->0@.push((off, data))
            }
            &&& !a.contains_key(node) ==> {
                &&& batch == 0
                &&& w.inflight == 1
                &&& w.ranges@.len() == 1
                &&& w.err is None
                &&& w.presync == 0
                &&& data@.len() > 268_435_456 ==> w.stash is None
                &&& data@.len() <= 268_435_456 ==> w.stash is Some && w.stash->0@ == seq![
                    (off, data),
                ]
            }
            &&& batch < 0xffff_ffff ==> w.next_batch == batch + 1
            &&& batch == 0xffff_ffff ==> w.next_batch == 0
        }),
{
    let a = old(q).nodes@;
    let w = final(q).nodes@[node];
    only_this_by_remove(old(q).nodes@, final(q).nodes@, node);
    if a.contains_key(node) {
        let o = a[node];
        assert(w.ranges@.drop_last() =~= o.ranges@);
        if o.stash is Some {
            total_is_stashed(o.stash->0@);
        }
    } else {
        let none = Seq::<(u64, Arc<Vec<u8>>)>::empty();
        assert(stashed(none) == 0);
        if data@.len() <= 268_435_456 {
            assert(stash_view(w.stash) == Some(none.push((off, data))));
            assert(w.stash->0@ =~= seq![(off, data)]);
        }
    }
}

/// Writes go in order: only the batch that was queued first of those on their way goes next.
pub proof fn first_batch_goes_next(q: &Queues, node: NodeKey, batch: u32, r: bool)
    requires
        call_ensures(Queues::is_next, (q, node, batch), r),
    ensures
        r <==> q.nodes@.contains_key(node) && q.nodes@[node].ranges@.len() > 0
            && q.nodes@[node].ranges@[0].2 == batch,
{
}

/// Something of a node is on its way exactly while its queue counts a batch.
pub proof fn flight_is_told(q: &Queues, node: NodeKey, r: bool)
    requires
        call_ensures(Queues::in_flight, (q, node), r),
    ensures
        r <==> q.nodes@.contains_key(node) && q.nodes@[node].inflight > 0,
{
}

/// A batch that landed is on its way no more and in nobody's way; the first failure stays; and
/// after 16 MiB the guest is to flush ahead, when the count starts again.
pub proof fn batch_has_landed(
    q: &mut Queues,
    node: NodeKey,
    batch: u32,
    n: u64,
    failed: Option<NfsError>,
    l: Landed,
)
    requires
        call_ensures(Queues::landed, (q, node, batch, n, failed), l),
    ensures
        ({
            let a = old(q).nodes@;
            let b = final(q).nodes@;
            let flies = a.contains_key(node) && a[node].inflight > 0;
            &&& only_this(a, b, node)
            &&& !flies ==> b == a && !l.presync && !l.idle
            &&& flies ==> b.contains_key(node) && {
                let o = a[node];
                let w = b[node];
                &&& w.inflight == o.inflight - 1
                &&& l.idle <==> w.inflight == 0
                &&& forall|i: int| 0 <= i < w.ranges@.len() ==> (#[trigger] w.ranges@[i]).2 != batch
                    && o.ranges@.contains(w.ranges@[i])
                &&& forall|i: int|
                    0 <= i < o.ranges@.len() && (#[trigger] o.ranges@[i]).2 != batch
                        ==> w.ranges@.contains(o.ranges@[i])
                &&& o.ranges@.len() > 0 && o.ranges@[0].2 == batch && (forall|i: int|
                    1 <= i < o.ranges@.len() ==> (#[trigger] o.ranges@[i]).2 != batch)
                    ==> w.ranges@ == o.ranges@.skip(1)
                &&& o.err is Some ==> w.err == o.err
                &&& o.err is None ==> w.err == failed
                &&& l.presync <==> failed is None && o.presync + n >= 16_777_216
                &&& l.presync ==> w.presync == 0
                &&& failed is Some ==> w.presync == o.presync
                &&& failed is None && !l.presync ==> w.presync == o.presync + n
                &&& w.dirty == o.dirty && w.stash == o.stash && w.last_active == o.last_active
                    && w.next_batch == o.next_batch
            }
        }),
{
    let a = old(q).nodes@;
    if a.contains_key(node) && a[node].inflight > 0 {
        without_keeps_the_others(a[node].ranges@, batch);
        only_this_by_remove(final(q).nodes@, old(q).nodes@, node);
    }
}

/// Whoever waits is let through when nothing is in the way. A commit is told of a failure and
/// takes it away; another operation is told if it had to wait, and leaves it.
pub proof fn waits_end(q: &mut Queues, node: NodeKey, off: u64, len: u64, who: Waiter, d: Drain)
    requires
        call_ensures(Queues::drain, (q, node, off, len, who), d),
    ensures
        ({
            let a = old(q).nodes@;
            let b = final(q).nodes@;
            let here = a.contains_key(node);
            let passes = !here || who is Passing && a[node].inflight == 0;
            &&& passes ==> d == Drain::Clear(None)
            &&& !passes ==> (d is Wait <==> in_the_way(a[node].ranges@, off, len))
            &&& !passes && d is Clear ==> d == Drain::Clear(a[node].err)
            &&& d is Wait || !(who is Commit) || !here ==> b == a
            &&& d is Clear && who is Commit && here ==> {
                &&& only_this(a, b, node)
                &&& b.contains_key(node)
                &&& b[node].err is None
                &&& b[node].inflight == a[node].inflight && b[node].ranges == a[node].ranges
                    && b[node].next_batch == a[node].next_batch && b[node].presync
                    == a[node].presync && b[node].dirty == a[node].dirty && b[node].stash
                    == a[node].stash && b[node].last_active == a[node].last_active
            }
        }),
{
    let a = old(q).nodes@;
    if a.contains_key(node) {
        ways_agree(a[node].ranges@, off, len);
    }
}

/// A full commit of a node that nothing was written to has nothing to do; any other commit has the
/// guest flush, and a full one takes the node for clean.
pub proof fn commits_flush_what_is_new(q: &mut Queues, node: NodeKey, len: u64, p: CommitPlan)
    requires
        call_ensures(Queues::commit_plan, (q, node, len), p),
    ensures
        ({
            let a = old(q).nodes@;
            let b = final(q).nodes@;
            let new = a.contains_key(node) && a[node].dirty;
            &&& p is Clean <==> len == 0 && !new
            &&& p is Flush ==> (p->stash <==> len == 0 && a[node].stash is Some)
            &&& len != 0 || !new ==> b == a
            &&& len == 0 && new ==> {
                &&& only_this(a, b, node)
                &&& b.contains_key(node)
                &&& b[node] == (NodeWrites { dirty: false, ..a[node] })
            }
        }),
{
}

/// After a flush that failed the node is dirty, and nothing else changed.
pub proof fn failed_flush_leaves_it_dirty(q: &mut Queues, node: NodeKey)
    requires
        call_ensures(Queues::commit_failed, (q, node), ()),
    ensures
        only_this(old(q).nodes@, final(q).nodes@, node),
        final(q).nodes@.contains_key(node) <==> old(q).nodes@.contains_key(node),
        old(q).nodes@.contains_key(node) ==> final(q).nodes@[node] == (NodeWrites {
            dirty: true,
            ..old(q).nodes@[node]
        }),
{
}

/// A queue is forgotten unless something of it is on its way.
pub proof fn flying_queues_are_not_forgotten(q: &mut Queues, node: NodeKey)
    requires
        call_ensures(Queues::forget, (q, node), ()),
    ensures
        only_this(old(q).nodes@, final(q).nodes@, node),
        final(q).nodes@.contains_key(node) <==> old(q).nodes@.contains_key(node) && old(q).nodes@[node].inflight > 0,
        final(q).nodes@.contains_key(node) ==> final(q).nodes@[node] == old(q).nodes@[node],
{
}

/// A queue is dropped if nothing is on its way and nothing was queued for 20 seconds, and the
/// others are kept.
pub proof fn idle_queues_are_reaped(q: &mut Queues, now: u64, node: NodeKey)
    requires
        call_ensures(Queues::reap, (q, now), ()),
    ensures
        ({
            let a = old(q).nodes@;
            let b = final(q).nodes@;
            &&& b.contains_key(node) <==> a.contains_key(node) && (a[node].inflight > 0
                || a[node].last_active is Some && now < a[node].last_active->0 + 20_000)
            &&& b.contains_key(node) ==> b[node] == a[node]
        }),
{
}

/// How long a commit's range is: without a length it is the whole file.
pub open spec fn commit_length(len: u64) -> u64 {
    if len == 0 {
        0xffff_ffff_ffff_ffff
    } else {
        len
    }
}

/// A commit waits exactly while a batch is in its way, then says what failed, then has the guest
/// flush just that part unless it is a full commit of a node that nothing was written to.
pub proof fn commit_begins(q: &mut Queues, node: NodeKey, off: u64, len: u64, m: CommitMove)
    requires
        call_ensures(begin_commit, (q, node, off, len), m),
    ensures
        ({
            let a = old(q).nodes@;
            let b = final(q).nodes@;
            let here = a.contains_key(node);
            let waits = here && in_the_way(a[node].ranges@, off, commit_length(len));
            let fails = here && !waits && a[node].err is Some;
            let new = here && a[node].dirty;
            &&& m is Wait <==> waits
            &&& m is Fail <==> fails
            &&& m is Fail ==> m->Fail_0 == a[node].err->0
            &&& m is Attrs <==> !waits && !fails && len == 0 && !new
            &&& m is Send <==> !waits && !fails && (len != 0 || new)
            &&& m is Send ==> {
                &&& m->req is CommitRange
                &&& m->req->CommitRange_node == node
                &&& m->req->CommitRange_off == off
                &&& m->req->CommitRange_len == len
                &&& m->stash <==> len == 0 && a[node].stash is Some
            }
            &&& only_this(a, b, node)
            &&& here <==> b.contains_key(node)
            &&& waits || !here ==> b == a
            &&& here && !waits ==> b[node] == (NodeWrites {
                err: None,
                dirty: a[node].dirty && !(m is Send && len == 0),
                ..a[node]
            })
        }),
{
    let a = old(q).nodes@;
    if a.contains_key(node) {
        ways_agree(a[node].ranges@, off, commit_length(len));
    }
    let mid = choose|mid: QueueMap| #[trigger]
        commit_begun(a, mid, final(q).nodes@, node, off, len, m@);
    assert(commit_begun(a, mid, final(q).nodes@, node, off, len, m@));
    if m is Send {
        let v = m->req@;
    }
}

/// A commit ends with what the guest says; if it failed, the node is dirty again. What was written
/// goes to the cache only after it worked.
pub proof fn commit_ends(
    q: &mut Queues,
    node: NodeKey,
    stash: bool,
    cur: Option<Attr>,
    resp: &Option<RpcResp>,
    owner: Owner,
    end: CommitEnd,
)
    requires
        call_ensures(end_commit, (q, node, stash, cur, resp, owner), end),
    ensures
        end.result is Ok <==> *resp is Some && (*resp)->0 is Attr,
        end.result is Err ==> end.effects@.len() == 0 && failed_as(*resp, end.result->Err_0),
        end.result is Ok ==> {
            let rec = end.effects@[1]->Apply_0;
            &&& end.effects@.len() == 2
            &&& end.effects@[0] == Effect::<Vec<u8>>::MacDirty(node)
            &&& end.effects@[1] is Apply && rec is AttrChanged && rec->AttrChanged_node == node
            &&& as_owned(end.result->Ok_0, rec->AttrChanged_attr, owner)
            &&& kept_up(rec->AttrChanged_attr, (*resp)->0->Attr_0, cur)
        },
        end.warm <==> stash && end.result is Ok,
        only_this(old(q).nodes@, final(q).nodes@, node),
        final(q).nodes@.contains_key(node) <==> old(q).nodes@.contains_key(node),
        old(q).nodes@.contains_key(node) ==> final(q).nodes@[node] == (NodeWrites {
            dirty: old(q).nodes@[node].dirty || end.result is Err,
            ..old(q).nodes@[node]
        }),
{
    let l = effects(end.effects@);
    assert(l.len() == end.effects@.len());
    if end.result is Ok {
        assert(l[0] == end.effects@[0]@);
        assert(l[1] == end.effects@[1]@);
    }
}

} // verus!
