//! Nodes that the Mac wrote a moment ago, whose journal echoes are not news.
use crate::table::{kept, sweep_drop, sweeping, swept, KeyTable};
use crate::types::NodeKey;
use vstd::prelude::*;

verus! {

/// A journal record that comes within this many milliseconds of a Mac write is its echo.
pub const MAC_DIRTY_WINDOW_MS: u64 = 5000;

/// Most nodes remembered before old ones are dropped.
pub const MAX_DIRTY: usize = 4096;

/// When each node was last written, by a steady clock in milliseconds.
#[derive(Debug)]
pub struct MacDirty {
    pub nodes: KeyTable<(u16, NodeKey), u64>,
}

/// Whether a write at `t` is still fresh.
pub open spec fn fresh(now: u64, t: u64) -> bool {
    now < t + MAC_DIRTY_WINDOW_MS
}

fn is_fresh(now: u64, t: u64) -> (r: bool)
    ensures
        r == fresh(now, t),
{
    (now as u128) < t as u128 + MAC_DIRTY_WINDOW_MS as u128
}

impl MacDirty {
    pub open spec fn view(&self) -> Map<(u16, NodeKey), u64> {
        self.nodes@
    }

    pub open spec fn wf(&self) -> bool {
        self.nodes.wf()
    }

    /// Whether the Mac wrote the node a moment ago.
    pub open spec fn dirty(&self, share: u16, node: NodeKey, now: u64) -> bool {
        self@.contains_key((share, node)) && fresh(now, self@[(share, node)])
    }

    pub fn new() -> (d: Self)
        ensures
            d.wf(),
            d@ == Map::<(u16, NodeKey), u64>::empty(),
    {
        MacDirty { nodes: KeyTable::new() }
    }

    fn prune(&mut self, now: u64)
        requires
            old(self).wf(),
        ensures
            final(self).wf(),
            final(self)@ == kept(old(self)@, |k: (u16, NodeKey), t: u64| fresh(now, t)),
    {
        let ghost keep = |k: (u16, NodeKey), t: u64| fresh(now, t);
        let ghost before = self.nodes@;
        let mut i: usize = 0;
        while i < self.nodes.rows.len()
            invariant
                sweeping(before, self.nodes, i as int, keep),
                keep == (|k: (u16, NodeKey), t: u64| fresh(now, t)),
            decreases self.nodes.rows@.len() - i,
        {
            if is_fresh(now, self.nodes.rows[i].1) {
                i = i + 1;
            } else {
                let ghost then = self.nodes;
                let _row = self.nodes.remove_at(i);
                proof {
                    sweep_drop(before, then, self.nodes, i as int, keep);
                }
            }
        }
        proof {
            swept(before, self.nodes, keep);
        }
    }

    /// Mark a node as written by the Mac: its upcoming echoes are absorbed.
    pub fn note_mac_dirty(&mut self, share: u16, node: NodeKey, now: u64)
        requires
            old(self).wf(),
        ensures
            final(self).wf(),
            final(self)@ == (if old(self)@.len() > MAX_DIRTY {
                kept(old(self)@, |k: (u16, NodeKey), t: u64| fresh(now, t))
            } else {
                old(self)@
            }).insert((share, node), now),
            final(self).dirty(share, node, now),
    {
        if self.nodes.len() > MAX_DIRTY {
            self.prune(now);
        }
        let _was = self.nodes.insert((share, node), now);
    }

    pub fn is_mac_dirty(&self, share: u16, node: NodeKey, now: u64) -> (r: bool)
        requires
            self.wf(),
        ensures
            r == self.dirty(share, node, now),
    {
        match self.nodes.get(&(share, node)) {
            Some(t) => is_fresh(now, *t),
            None => false,
        }
    }
}

/// Pruning and marking other nodes make no node clean before its window is over.
pub proof fn dirty_for_the_window(
    m: Map<(u16, NodeKey), u64>,
    key: (u16, NodeKey),
    prune_at: u64,
    now: u64,
)
    requires
        m.contains_key(key),
        prune_at <= now,
        fresh(now, m[key]),
    ensures
        kept(m, |k: (u16, NodeKey), t: u64| fresh(prune_at, t)).contains_key(key),
        kept(m, |k: (u16, NodeKey), t: u64| fresh(prune_at, t))[key] == m[key],
{
}

} // verus!
