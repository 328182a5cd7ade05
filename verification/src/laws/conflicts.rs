//! Conflicts: two sides that change one node within five seconds.
use crate::conflicts::{ConflictRow, ConflictTracker};
use crate::table::Key;
use crate::types::NodeKey;
use std::collections::VecDeque;
use vstd::prelude::*;

verus! {

/// The node was changed at most five seconds before.
pub open spec fn changed_lately(m: Map<(u16, NodeKey), u64>, share: u16, node: NodeKey, now: u64) -> bool {
    m.contains_key((share, node)) && now <= m[(share, node)] + 5000
}

/// The log has one row more, which comes last; of a log that was full the first row went.
pub open spec fn one_more(a: ConflictTracker, b: ConflictTracker) -> bool {
    &&& b.rows@.len() > 0
    &&& a.rows@.len() < 1024 ==> b.rows@.drop_last() == a.rows@
    &&& a.rows@.len() >= 1024 ==> b.rows@.drop_last() == a.rows@.skip(1)
    &&& a.total < u64::MAX ==> b.total == a.total + 1
}

/// A row of the log says when, where and which way.
pub open spec fn tells(
    row: ConflictRow,
    at: u64,
    share: u16,
    node: NodeKey,
    path: Option<String>,
    kind: Seq<char>,
) -> bool {
    &&& row.at_unix_ms == at
    &&& row.share == share
    &&& row.ino == node.ino
    &&& row.generation == node.generation
    &&& row.path is Some <==> path is Some
    &&& path is Some ==> row.path->0@ == path->0@
    &&& row.kind@ == kind
}

/// A change by the Mac is a conflict exactly where the guest changed the same node at most five
/// seconds before; it is then logged, and the Mac wins. The change is remembered.
pub proof fn mac_changes_are_compared(
    t: &mut ConflictTracker,
    share: u16,
    node: NodeKey,
    path: Option<String>,
    op: &str,
    now: u64,
    at: u64,
    s2: u16,
    n2: NodeKey,
    later: u64,
)
    requires
        call_ensures(ConflictTracker::note_mac, (t, share, node, path, op, now, at), ()),
        now <= later,
    ensures
        ({
            let hit = changed_lately(old(t).recent_guest@, share, node, now);
            &&& hit ==> one_more(*old(t), *final(t)) && tells(
                final(t).rows@.last(),
                at,
                share,
                node,
                path,
                "mac-over-guest"@,
            ) && final(t).rows@.last().detail@ == "Mac "@ + op@
                + " ≤5s after a guest-side change; last-close-wins → Mac version kept"@
            &&& !hit ==> final(t).rows == old(t).rows && final(t).total == old(t).total
        }),
        changed_lately(final(t).recent_mac@, share, node, later) <==> later <= now + 5000,
        (s2, n2) != (share, node) ==> (changed_lately(final(t).recent_mac@, s2, n2, later)
            <==> changed_lately(old(t).recent_mac@, s2, n2, later)),
        final(t).recent_guest == old(t).recent_guest,
{
    if changed_lately(old(t).recent_guest@, share, node, now) {
        logged_one(*old(t), *final(t));
    }
    let m = old(t).recent_mac@.insert((share, node), now);
    assert(m.contains_key((share, node)));
    assert(final(t).recent_mac@.contains_key((share, node)));
}

/// A change by the guest is a conflict exactly where the Mac changed the same node at most five
/// seconds before; it is then logged, and the guest wins. The change is remembered.
pub proof fn guest_changes_are_compared(
    t: &mut ConflictTracker,
    share: u16,
    node: NodeKey,
    path: Option<String>,
    now: u64,
    at: u64,
    s2: u16,
    n2: NodeKey,
    later: u64,
)
    requires
        call_ensures(ConflictTracker::note_guest, (t, share, node, path, now, at), ()),
        now <= later,
    ensures
        ({
            let hit = changed_lately(old(t).recent_mac@, share, node, now);
            &&& hit ==> one_more(*old(t), *final(t)) && tells(
                final(t).rows@.last(),
                at,
                share,
                node,
                path,
                "guest-over-mac"@,
            ) && final(t).rows@.last().detail@
                == "guest changed ≤5s after a Mac write; last-close-wins → guest version kept"@
            &&& !hit ==> final(t).rows == old(t).rows && final(t).total == old(t).total
        }),
        changed_lately(final(t).recent_guest@, share, node, later) <==> later <= now + 5000,
        (s2, n2) != (share, node) ==> (changed_lately(final(t).recent_guest@, s2, n2, later)
            <==> changed_lately(old(t).recent_guest@, s2, n2, later)),
        final(t).recent_mac == old(t).recent_mac,
{
    if changed_lately(old(t).recent_mac@, share, node, now) {
        logged_one(*old(t), *final(t));
    }
    let m = old(t).recent_guest@.insert((share, node), now);
    assert(m.contains_key((share, node)));
    assert(final(t).recent_guest@.contains_key((share, node)));
}

proof fn logged_one(a: ConflictTracker, b: ConflictTracker)
    ensures
        forall|row: ConflictRow|
            b.rows@ == #[trigger] crate::conflicts::logged(a.rows@, row) ==> b.rows@.len() > 0
                && b.rows@.last() == row && (a.rows@.len() < 1024 ==> b.rows@.drop_last()
                == a.rows@) && (a.rows@.len() >= 1024 ==> b.rows@.drop_last() == a.rows@.skip(1)),
{
    assert forall|row: ConflictRow| b.rows@ == #[trigger] crate::conflicts::logged(
        a.rows@,
        row,
    ) implies b.rows@.len() > 0 && b.rows@.last() == row && (a.rows@.len() < 1024
        ==> b.rows@.drop_last() == a.rows@) && (a.rows@.len() >= 1024 ==> b.rows@.drop_last()
        == a.rows@.skip(1)) by {
        assert(a.rows@.push(row).drop_last() =~= a.rows@);
        assert(a.rows@.skip(1).push(row).drop_last() =~= a.rows@.skip(1));
    }
}

/// The log and its count are told as they are kept.
pub proof fn log_is_told(t: &ConflictTracker, rows: &VecDeque<ConflictRow>, n: u64)
    requires
        call_ensures(ConflictTracker::list, (t,), rows),
        call_ensures(ConflictTracker::total, (t,), n),
    ensures
        *rows == t.rows,
        n == t.total,
{
}

/// Two nodes of shares are the same where share, inode and generation are.
pub proof fn nodes_of_shares_are_told_apart(a: &(u16, NodeKey), b: &(u16, NodeKey), r: bool)
    requires
        call_ensures(<(u16, NodeKey) as Key>::same, (a, b), r),
    ensures
        r <==> a.0 == b.0 && a.1.ino == b.1.ino && a.1.generation == b.1.generation,
{
}

} // verus!
