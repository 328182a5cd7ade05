//! Keeping the side store within its size.
use crate::sidestore::rows::{synth_key, synth_of, Row, RowKey, Side, SideStore};
use crate::table::{Key, KeyTable};
use crate::types::NodeKey;
use vstd::prelude::*;

verus! {

/// Most bytes in all rows together: beyond it the oldest go.
pub const MAX_TOTAL: usize = 67_108_864;

/// The bytes in all rows.
pub open spec fn total_of(rows: Seq<(RowKey, Row)>) -> nat
    decreases rows.len(),
{
    if rows.len() == 0 {
        0
    } else {
        total_of(rows.drop_last()) + rows.last().1.data@.len()
    }
}

proof fn total_without(rows: Seq<(RowKey, Row)>, i: int)
    requires
        0 <= i < rows.len(),
    ensures
        total_of(rows) == total_of(rows.remove(i)) + rows[i].1.data@.len(),
    decreases rows.len(),
{
    if i == rows.len() - 1 {
        assert(rows.remove(i) =~= rows.drop_last());
    } else {
        total_without(rows.drop_last(), i);
        assert(rows.remove(i).drop_last() =~= rows.drop_last().remove(i));
        assert(rows.remove(i).last() == rows.last());
    }
}

fn total(t: &KeyTable<RowKey, Row>) -> (n: u128)
    ensures
        n == total_of(t.rows@),
{
    let mut n: u128 = 0;
    let mut i: usize = 0;
    proof {
        assert(t.rows@.take(0) =~= Seq::empty());
        assert(t.rows@.len() == t.rows.len());
    }
    while i < t.rows.len()
        invariant
            i <= t.rows@.len(),
            t.rows@.len() == t.rows.len(),
            n == total_of(t.rows@.take(i as int)),
            n <= i * 0xffff_ffff_ffff_ffff,
        decreases t.rows@.len() - i,
    {
        proof {
            let now = t.rows@.take(i + 1);
            assert(now.drop_last() =~= t.rows@.take(i as int));
            assert(now.last() == t.rows@[i as int]);
        }
        n = n + t.rows[i].1.data.len() as u128;
        i = i + 1;
    }
    proof {
        assert(t.rows@.take(i as int) =~= t.rows@);
    }
    n
}

/// Some of the oldest rows went: what went is no younger than what stayed, and nothing went that
/// could have stayed.
pub open spec fn oldest_first(before: SideStore, after: SideStore) -> bool {
    &&& forall|k: (NodeKey, Seq<u8>)| #[trigger]
        after@.rows.contains_key(k) ==> before@.rows.contains_key(k) && after@.rows[k]
            == before@.rows[k]
    &&& forall|k: (NodeKey, Seq<u8>), m: (NodeKey, Seq<u8>)|
        #![trigger before@.rows.contains_key(k), after@.rows.contains_key(m)]
        before@.rows.contains_key(k) && !after@.rows.contains_key(k) && after@.rows.contains_key(m)
            ==> before@.rows[k].mtime_sec <= before@.rows[m].mtime_sec
    &&& after@ == before@ || last_out(before@, after@, total_of(after.rows.rows@))
    &&& forall|n: NodeKey| #[trigger]
        after@.by_node.contains_key(n) <==> before@.by_node.contains_key(n) && !node_out(
            before@,
            after@,
            n,
        )
    &&& forall|n: NodeKey| #[trigger]
        after@.by_node.contains_key(n) ==> after@.by_node[n] == before@.by_node[n]
}

/// What is left after the oldest rows went until the rest fits.
pub open spec fn oldest_out(before: SideStore, after: SideStore) -> bool {
    total_of(after.rows.rows@) <= MAX_TOTAL && oldest_first(before, after)
}

/// A row that went has this node.
pub open spec fn node_out(before: Side, after: Side, n: NodeKey) -> bool {
    exists|k: (NodeKey, Seq<u8>)| #[trigger]
        before.rows.contains_key(k) && !after.rows.contains_key(k) && synth_of(k) == n
}

/// A row went, and none that went is younger.
pub open spec fn youngest_out(before: Side, after: Side, k: (NodeKey, Seq<u8>)) -> bool {
    &&& before.rows.contains_key(k) && !after.rows.contains_key(k)
    &&& forall|j: (NodeKey, Seq<u8>)| #[trigger]
        before.rows.contains_key(j) && !after.rows.contains_key(j) ==> before.rows[j].mtime_sec
            <= before.rows[k].mtime_sec
}

/// The row that went last, the youngest of those that went, would not have fitted beside what
/// stayed.
pub open spec fn last_out(before: Side, after: Side, total: nat) -> bool {
    exists|k: (NodeKey, Seq<u8>)| #[trigger]
        youngest_out(before, after, k) && total + before.rows[k].data.len() > MAX_TOTAL
}

/// The first row of those that were changed longest ago.
fn oldest(t: &KeyTable<RowKey, Row>) -> (i: usize)
    requires
        t.rows@.len() > 0,
    ensures
        i < t.rows@.len(),
        forall|j: int|
            0 <= j < t.rows@.len() ==> t.rows@[i as int].1.mtime_sec <= (
            #[trigger] t.rows@[j]).1.mtime_sec,
{
    let mut best: usize = 0;
    let mut i: usize = 1;
    while i < t.rows.len()
        invariant
            1 <= i <= t.rows@.len(),
            best < i,
            forall|j: int|
                0 <= j < i ==> t.rows@[best as int].1.mtime_sec <= (
                #[trigger] t.rows@[j]).1.mtime_sec,
        decreases t.rows@.len() - i,
    {
        if t.rows[i].1.mtime_sec < t.rows[best].1.mtime_sec {
            best = i;
        }
        i = i + 1;
    }
    best
}

impl SideStore {
    /// Drop the oldest rows while there is too much.
    pub fn evict(&mut self)
        requires
            old(self).wf(),
        ensures
            final(self).wf(),
            oldest_out(*old(self), *final(self)),
            total_of(old(self).rows.rows@) <= MAX_TOTAL ==> *final(self) == *old(self),
            final(self).dirty == old(self).dirty,
    {
        let ghost before = *self;
        loop
            invariant
                self.wf(),
                oldest_first(before, *self),
                total_of(before.rows.rows@) <= MAX_TOTAL ==> *self == before,
                self.dirty == before.dirty,
            ensures
                total_of(self.rows.rows@) <= MAX_TOTAL,
            decreases self.rows.rows@.len(),
        {
            let n: u128 = total(&self.rows);
            if n <= MAX_TOTAL as u128 {
                break;
            }
            let i: usize = oldest(&self.rows);
            let ghost then = *self;
            let (key, _row) = self.rows.remove_at(i);
            let node = synth_key(key.0, key.1.as_slice());
            let _was = self.by_node.remove(&node);
            proof {
                total_without(then.rows.rows@, i as int);
                then.rows.row_in_map(i as int);
                let id = then.rows.rows@[i as int].0.id();
                assert(then@.rows.contains_key(id));
                assert(self@.rows =~= then@.dropped(id).rows);
                assert(self@.by_node =~= then@.dropped(id).by_node);
                assert forall|m: (NodeKey, Seq<u8>)| #[trigger] self@.rows.contains_key(m) implies before@.rows[id].mtime_sec
                    <= before@.rows[m].mtime_sec by {
                    assert(then@.rows.contains_key(m));
                    let r = then.rows.row_of(m);
                    assert(then.rows.has_row(m));
                    then.rows.row_in_map(r);
                    assert(then.rows.rows@[r].0.id() == m);
                }
                assert(before@.rows.contains_key(id) && !self@.rows.contains_key(id));
                assert(youngest_out(before@, self@, id)) by {
                    assert forall|j: (NodeKey, Seq<u8>)| #[trigger]
                        before@.rows.contains_key(j) && !self@.rows.contains_key(
                            j,
                        ) implies before@.rows[j].mtime_sec <= before@.rows[id].mtime_sec by {
                        if j != id {
                            assert(!then@.rows.contains_key(j));
                        }
                    }
                }
                assert(last_out(before@, self@, total_of(self.rows.rows@)));
                assert forall|n: NodeKey| #[trigger] self@.by_node.contains_key(n)
                    <==> before@.by_node.contains_key(n) && !node_out(before@, self@, n) by {
                    assert(then@.by_node.contains_key(n) <==> before@.by_node.contains_key(n)
                        && !node_out(before@, then@, n));
                    assert(node_out(before@, self@, n) <==> node_out(before@, then@, n) || n
                        == synth_of(id)) by {
                        if node_out(before@, then@, n) {
                            let k = choose|k: (NodeKey, Seq<u8>)| #[trigger]
                                before@.rows.contains_key(k) && !then@.rows.contains_key(k)
                                    && synth_of(k) == n;
                            assert(before@.rows.contains_key(k) && !self@.rows.contains_key(k));
                        }
                        if node_out(before@, self@, n) {
                            let k = choose|k: (NodeKey, Seq<u8>)| #[trigger]
                                before@.rows.contains_key(k) && !self@.rows.contains_key(k)
                                    && synth_of(k) == n;
                            if k != id {
                                assert(!then@.rows.contains_key(k));
                            }
                        }
                    }
                }
            }
        }
    }
}

/// Rows and nodes stay linked when the oldest rows go.
pub proof fn links_are_kept_by_evict(before: SideStore, after: SideStore)
    requires
        before@.linked(),
        oldest_first(before, after),
    ensures
        after@.linked(),
{
    assert forall|n: NodeKey| #[trigger] after@.by_node.contains_key(n) implies synth_of(
        after@.by_node[n],
    ) == n && after@.rows.contains_key(after@.by_node[n]) by {
        assert(before@.by_node.contains_key(n));
        let k = before@.by_node[n];
        assert(before@.rows.contains_key(k));
        if !after@.rows.contains_key(k) {
            assert(node_out(before@, after@, n));
        }
    }
}

} // verus!
