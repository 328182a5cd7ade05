//! Conflict detection: last close wins, with a visible log.
//!
//! A conflict is two sides changing the same node within a short window: a guest change soon
//! after one of the Mac's, or the other way round. Both are legal; the tracker makes them
//! observable.
use crate::table::{kept, sweep_drop, sweeping, swept, KeyTable};
use crate::types::NodeKey;
use std::collections::VecDeque;
use vstd::prelude::*;
use vstd::string::StringExecFns;

verus! {

/// Two changes of one node within this many milliseconds are a conflict.
pub const WINDOW_MS: u64 = 5000;

/// Most rows kept in the log.
pub const MAX_ROWS: usize = 1024;

/// Most nodes remembered before old ones are pruned.
pub const MAX_TRACKED: usize = 8192;

/// One conflict.
#[derive(Debug)]
pub struct ConflictRow {
    pub at_unix_ms: u64,
    pub share: u16,
    pub ino: u64,
    pub generation: u32,
    pub path: Option<String>,
    /// `mac-over-guest`: the Mac wrote soon after a guest change, and wins. `guest-over-mac`:
    /// the guest changed soon after a Mac write, and wins.
    pub kind: &'static str,
    pub detail: String,
}

/// A path as characters.
pub open spec fn path_chars(p: Option<String>) -> Option<Seq<char>> {
    match p {
        Some(s) => Some(s@),
        None => None,
    }
}

/// Nodes and when they were last changed, by a steady clock in milliseconds.
pub type Recent = KeyTable<(u16, NodeKey), u64>;

#[derive(Debug)]
pub struct ConflictTracker {
    pub recent_mac: Recent,
    pub recent_guest: Recent,
    pub rows: VecDeque<ConflictRow>,
    pub total: u64,
}

/// Whether `t` lies within the window before `now`.
pub open spec fn within(now: u64, t: u64) -> bool {
    now <= t + WINDOW_MS
}

fn is_within(now: u64, t: u64) -> (r: bool)
    ensures
        r == within(now, t),
{
    now as u128 <= t as u128 + WINDOW_MS as u128
}

/// Whether a node was changed within the window.
pub open spec fn recent(m: Map<(u16, NodeKey), u64>, key: (u16, NodeKey), now: u64) -> bool {
    m.contains_key(key) && within(now, m[key])
}

/// Too long a table forgets the nodes that were not changed within the window.
pub open spec fn pruned(m: Map<(u16, NodeKey), u64>, now: u64) -> Map<(u16, NodeKey), u64> {
    if m.len() > MAX_TRACKED {
        kept(m, |k: (u16, NodeKey), t: u64| within(now, t))
    } else {
        m
    }
}

fn prune(m: &mut Recent, now: u64)
    requires
        old(m).wf(),
    ensures
        final(m).wf(),
        final(m)@ == pruned(old(m)@, now),
{
    if m.len() <= MAX_TRACKED {
        return;
    }
    let ghost keep = |k: (u16, NodeKey), t: u64| within(now, t);
    let ghost before = m@;
    let mut i: usize = 0;
    while i < m.rows.len()
        invariant
            sweeping(before, *m, i as int, keep),
            keep == (|k: (u16, NodeKey), t: u64| within(now, t)),
        decreases m.rows@.len() - i,
    {
        if is_within(now, m.rows[i].1) {
            i = i + 1;
        } else {
            let ghost then = *m;
            let _row = m.remove_at(i);
            proof {
                sweep_drop(before, then, *m, i as int, keep);
            }
        }
    }
    proof {
        swept(before, *m, keep);
    }
}

/// What the log says of a conflict in which the Mac's `op` wins.
pub open spec fn mac_detail(op: Seq<char>) -> Seq<char> {
    "Mac "@ + op + " ≤5s after a guest-side change; last-close-wins → Mac version kept"@
}

/// What the log says of a conflict in which the guest wins.
pub open spec fn guest_detail() -> Seq<char> {
    "guest changed ≤5s after a Mac write; last-close-wins → guest version kept"@
}

/// The log with one more row: the oldest goes where it is full.
pub open spec fn logged(rows: Seq<ConflictRow>, row: ConflictRow) -> Seq<ConflictRow> {
    if rows.len() >= MAX_ROWS {
        rows.skip(1).push(row)
    } else {
        rows.push(row)
    }
}

/// A row says what it should.
pub open spec fn row_says(
    row: ConflictRow,
    at: u64,
    share: u16,
    node: NodeKey,
    path: Option<Seq<char>>,
    kind: Seq<char>,
    detail: Seq<char>,
) -> bool {
    &&& row.at_unix_ms == at
    &&& row.share == share
    &&& row.ino == node.ino
    &&& row.generation == node.generation
    &&& path_chars(row.path) == path
    &&& row.kind@ == kind
    &&& row.detail@ == detail
}

/// The log grew by a row that says this, and the total counts it.
pub open spec fn conflict_logged(
    pre: ConflictTracker,
    post: ConflictTracker,
    at: u64,
    share: u16,
    node: NodeKey,
    path: Option<Seq<char>>,
    kind: Seq<char>,
    detail: Seq<char>,
) -> bool {
    &&& post.total == (if pre.total == u64::MAX {
        0
    } else {
        (pre.total + 1) as u64
    })
    &&& exists|row: ConflictRow| #[trigger]
        row_says(row, at, share, node, path, kind, detail) && post.rows@ == logged(pre.rows@, row)
}

impl ConflictTracker {
    pub open spec fn wf(&self) -> bool {
        &&& self.recent_mac.wf()
        &&& self.recent_guest.wf()
        &&& self.rows@.len() <= MAX_ROWS
    }

    pub fn new() -> (t: Self)
        ensures
            t.wf(),
            t.recent_mac@ == Map::<(u16, NodeKey), u64>::empty(),
            t.recent_guest@ == Map::<(u16, NodeKey), u64>::empty(),
            t.rows@.len() == 0,
            t.total == 0,
    {
        ConflictTracker {
            recent_mac: KeyTable::new(),
            recent_guest: KeyTable::new(),
            rows: VecDeque::new(),
            total: 0,
        }
    }

    /// The Mac changed `node` by `op`, at `now` of the steady clock and `at` of the wall clock.
    /// A conflict is logged if the guest changed the same node within the window.
    pub fn note_mac(
        &mut self,
        share: u16,
        node: NodeKey,
        path: Option<String>,
        op: &str,
        now: u64,
        at: u64,
    )
        requires
            old(self).wf(),
        ensures
            final(self).wf(),
            final(self).recent_mac@ == pruned(
                old(self).recent_mac@.insert((share, node), now),
                now,
            ),
            final(self).recent_guest == old(self).recent_guest,
            if recent(old(self).recent_guest@, (share, node), now) {
                conflict_logged(
                    *old(self),
                    *final(self),
                    at,
                    share,
                    node,
                    path_chars(path),
                    "mac-over-guest"@,
                    mac_detail(op@),
                )
            } else {
                final(self).rows == old(self).rows && final(self).total == old(self).total
            },
    {
        let hit = match self.recent_guest.get(&(share, node)) {
            Some(t) => is_within(now, *t),
            None => false,
        };
        if hit {
            let mut detail: String = "Mac ".to_owned();
            detail.append(op);
            detail.append(" ≤5s after a guest-side change; last-close-wins → Mac version kept");
            let row = ConflictRow {
                at_unix_ms: at,
                share,
                ino: node.ino,
                generation: node.generation,
                path,
                kind: "mac-over-guest",
                detail,
            };
            proof {
                assert(row_says(
                    row,
                    at,
                    share,
                    node,
                    path_chars(path),
                    "mac-over-guest"@,
                    mac_detail(op@),
                ));
            }
            self.push(row);
        }
        let _was = self.recent_mac.insert((share, node), now);
        prune(&mut self.recent_mac, now);
    }

    /// The guest changed `node`. A conflict is logged if the Mac changed the same node within
    /// the window.
    pub fn note_guest(
        &mut self,
        share: u16,
        node: NodeKey,
        path: Option<String>,
        now: u64,
        at: u64,
    )
        requires
            old(self).wf(),
        ensures
            final(self).wf(),
            final(self).recent_guest@ == pruned(
                old(self).recent_guest@.insert((share, node), now),
                now,
            ),
            final(self).recent_mac == old(self).recent_mac,
            if recent(old(self).recent_mac@, (share, node), now) {
                conflict_logged(
                    *old(self),
                    *final(self),
                    at,
                    share,
                    node,
                    path_chars(path),
                    "guest-over-mac"@,
                    guest_detail(),
                )
            } else {
                final(self).rows == old(self).rows && final(self).total == old(self).total
            },
    {
        let hit = match self.recent_mac.get(&(share, node)) {
            Some(t) => is_within(now, *t),
            None => false,
        };
        if hit {
            let detail: String =
                "guest changed ≤5s after a Mac write; last-close-wins → guest version kept".to_owned();
            let row = ConflictRow {
                at_unix_ms: at,
                share,
                ino: node.ino,
                generation: node.generation,
                path,
                kind: "guest-over-mac",
                detail,
            };
            proof {
                assert(row_says(
                    row,
                    at,
                    share,
                    node,
                    path_chars(path),
                    "guest-over-mac"@,
                    guest_detail(),
                ));
            }
            self.push(row);
        }
        let _was = self.recent_guest.insert((share, node), now);
        prune(&mut self.recent_guest, now);
    }

    fn push(&mut self, row: ConflictRow)
        requires
            old(self).wf(),
        ensures
            final(self).wf(),
            final(self).rows@ == logged(old(self).rows@, row),
            final(self).total == (if old(self).total == u64::MAX {
                0
            } else {
                (old(self).total + 1) as u64
            }),
            final(self).recent_mac == old(self).recent_mac,
            final(self).recent_guest == old(self).recent_guest,
    {
        self.total = self.total.wrapping_add(1);
        if self.rows.len() >= MAX_ROWS {
            let _oldest = self.rows.pop_front();
            proof {
                assert(self.rows@ =~= old(self).rows@.skip(1));
            }
        }
        self.rows.push_back(row);
    }

    /// The log, oldest first.
    pub fn list(&self) -> (rows: &VecDeque<ConflictRow>)
        ensures
            *rows == self.rows,
    {
        &self.rows
    }

    /// How many conflicts there were, logged or not.
    pub fn total(&self) -> (n: u64)
        ensures
            n == self.total,
    {
        self.total
    }
}

/// Changes of different nodes never conflict: what the Mac does to one node says nothing of a
/// guest change of another.
pub proof fn distinct_nodes_do_not_conflict(
    m: Map<(u16, NodeKey), u64>,
    a: (u16, NodeKey),
    b: (u16, NodeKey),
    t: u64,
    now: u64,
)
    requires
        a != b,
    ensures
        recent(m.insert(a, t), b, now) == recent(m, b, now),
{
}

/// A change is remembered for the whole window: a change by the other side within it finds it,
/// even if the table is pruned in between.
pub proof fn remembered_for_the_window(
    m: Map<(u16, NodeKey), u64>,
    key: (u16, NodeKey),
    t: u64,
    prune_at: u64,
    now: u64,
)
    requires
        t <= prune_at <= now,
        within(now, t),
    ensures
        recent(pruned(m.insert(key, t), prune_at), key, now),
{
}

} // verus!
