//! One journal record: what it means for conflicts, delegations, the replica and its directories.
use crate::session::dirty::MacDirty;
use crate::types::NodeKey;
use vstd::prelude::*;
use vstd::string::StringExecFns;

verus! {

/// What a journal record is about.
#[derive(Debug, Clone, Copy, PartialEq, Eq, Structural)]
pub enum JournalRec {
    Created { parent: NodeKey, node: NodeKey },
    /// Many at once; `first` is the first of them.
    CreatedBatch { parent: NodeKey, first: Option<NodeKey>, count: usize },
    Removed { parent: NodeKey },
    Renamed { from_parent: NodeKey, to_parent: NodeKey },
    AttrChanged { node: NodeKey },
    Content { node: NodeKey, size: u64 },
    SelfRemoved { node: NodeKey },
    Overflow,
    EchoMarker,
}

/// What to do about a record, in this order.
#[derive(Debug, Clone, Copy, PartialEq, Eq)]
pub struct RecPlan {
    /// The guest changed this node: note it for conflicts, and recall delegations of it.
    pub foreign: Option<NodeKey>,
    /// Tell the replica.
    pub apply: bool,
    /// These directories changed: move their times on.
    pub bump: (Option<NodeKey>, Option<NodeKey>),
}

/// The node whose content or attributes a record changes; `removed` is what a removed name stood
/// for.
pub open spec fn changed_node(rec: JournalRec, removed: Option<NodeKey>) -> Option<NodeKey> {
    match rec {
        JournalRec::Content { node, .. } => Some(node),
        JournalRec::AttrChanged { node } => Some(node),
        JournalRec::Removed { .. } => removed,
        _ => None,
    }
}

/// Whether a record is the echo of a Mac write.
pub open spec fn is_echo(
    dirty: MacDirty,
    share: u16,
    rec: JournalRec,
    removed: Option<NodeKey>,
    now: u64,
) -> bool {
    match changed_node(rec, removed) {
        Some(n) => dirty.dirty(share, n, now),
        None => false,
    }
}

/// What to do about a record. An echo is no foreign change, and the attributes that it brings are
/// dropped: those that the client was told are the right ones. A change of names by the guest
/// moves the directory's times, which no record of its own does.
pub open spec fn rec_plan_of(
    dirty: MacDirty,
    share: u16,
    rec: JournalRec,
    removed: Option<NodeKey>,
    now: u64,
) -> RecPlan {
    let echo = is_echo(dirty, share, rec, removed, now);
    RecPlan {
        foreign: if echo {
            None
        } else {
            changed_node(rec, removed)
        },
        apply: !(echo && (rec is Content || rec is AttrChanged)),
        bump: if echo && (rec is Content || rec is AttrChanged) {
            (None, None)
        } else {
            match rec {
                JournalRec::Created { parent, node } => if dirty.dirty(share, node, now) {
                    (None, None)
                } else {
                    (Some(parent), None)
                },
                JournalRec::CreatedBatch { parent, first, .. } => if first is Some && dirty.dirty(
                    share,
                    first->0,
                    now,
                ) {
                    (None, None)
                } else {
                    (Some(parent), None)
                },
                JournalRec::Removed { parent } => if echo {
                    (None, None)
                } else {
                    (Some(parent), None)
                },
                JournalRec::Renamed { from_parent, to_parent } => if dirty.dirty(
                    share,
                    from_parent,
                    now,
                ) || dirty.dirty(share, to_parent, now) {
                    (None, None)
                } else {
                    (Some(from_parent), Some(to_parent))
                },
                _ => (None, None),
            }
        },
    }
}

pub fn plan_record(
    dirty: &MacDirty,
    share: u16,
    rec: &JournalRec,
    removed: Option<NodeKey>,
    now: u64,
) -> (p: RecPlan)
    requires
        dirty.wf(),
    ensures
        p == rec_plan_of(*dirty, share, *rec, removed, now),
{
    let node = match rec {
        JournalRec::Content { node, .. } => Some(*node),
        JournalRec::AttrChanged { node } => Some(*node),
        JournalRec::Removed { .. } => removed,
        _ => None,
    };
    let echo = match node {
        Some(n) => dirty.is_mac_dirty(share, n, now),
        None => false,
    };
    let foreign = if echo {
        None
    } else {
        node
    };
    let attrs = match rec {
        JournalRec::Content { .. } => true,
        JournalRec::AttrChanged { .. } => true,
        _ => false,
    };
    if echo && attrs {
        return RecPlan { foreign, apply: false, bump: (None, None) };
    }
    let bump = match rec {
        JournalRec::Created { parent, node } => if dirty.is_mac_dirty(share, *node, now) {
            (None, None)
        } else {
            (Some(*parent), None)
        },
        JournalRec::CreatedBatch { parent, first, .. } => {
            let own = match first {
                Some(n) => dirty.is_mac_dirty(share, *n, now),
                None => false,
            };
            if own {
                (None, None)
            } else {
                (Some(*parent), None)
            }
        },
        JournalRec::Removed { parent } => if echo {
            (None, None)
        } else {
            (Some(*parent), None)
        },
        JournalRec::Renamed { from_parent, to_parent } => if dirty.is_mac_dirty(
            share,
            *from_parent,
            now,
        ) || dirty.is_mac_dirty(share, *to_parent, now) {
            (None, None)
        } else {
            (Some(*from_parent), Some(*to_parent))
        },
        _ => (None, None),
    };
    RecPlan { foreign, apply: true, bump }
}

/// The Mac's own writes never look like a foreign change: while a node is marked, no record of it
/// is noted, recalls a delegation or brings attributes.
pub proof fn own_writes_are_not_foreign(
    dirty: MacDirty,
    share: u16,
    node: NodeKey,
    size: u64,
    parent: NodeKey,
    now: u64,
)
    requires
        dirty.dirty(share, node, now),
    ensures
        ({
            let p = rec_plan_of(dirty, share, JournalRec::Content { node, size }, None, now);
            p.foreign is None && !p.apply && p.bump == (None::<NodeKey>, None::<NodeKey>)
        }),
        ({
            let p = rec_plan_of(dirty, share, JournalRec::AttrChanged { node }, None, now);
            p.foreign is None && !p.apply && p.bump == (None::<NodeKey>, None::<NodeKey>)
        }),
        ({
            let p = rec_plan_of(dirty, share, JournalRec::Removed { parent }, Some(node), now);
            p.foreign is None && p.apply && p.bump == (None::<NodeKey>, None::<NodeKey>)
        }),
        rec_plan_of(dirty, share, JournalRec::Created { parent, node }, None, now).bump == (
            None::<NodeKey>,
            None::<NodeKey>,
        ),
{
}

/// A change that the Mac had no part in is always noted, applied, and seen in the directory.
pub proof fn guest_changes_are_seen(
    dirty: MacDirty,
    share: u16,
    node: NodeKey,
    size: u64,
    parent: NodeKey,
    now: u64,
)
    requires
        !dirty.dirty(share, node, now),
    ensures
        ({
            let p = rec_plan_of(dirty, share, JournalRec::Content { node, size }, None, now);
            p.foreign == Some(node) && p.apply
        }),
        ({
            let p = rec_plan_of(dirty, share, JournalRec::Removed { parent }, Some(node), now);
            p.foreign == Some(node) && p.apply && p.bump.0 == Some(parent)
        }),
        rec_plan_of(dirty, share, JournalRec::Created { parent, node }, None, now).bump.0 == Some(
            parent,
        ),
{
}

/// The path of an entry of a directory; `dir` is the directory's path, if it is known.
pub open spec fn child_path_of(dir: Option<Seq<char>>, name: Seq<char>) -> Seq<char> {
    let p = match dir {
        Some(p) => p,
        None => seq![],
    };
    if p == "/"@ {
        "/"@ + name
    } else {
        p + "/"@ + name
    }
}

/// Text that may be missing, by value.
pub open spec fn opt_text(s: Option<String>) -> Option<Seq<char>> {
    match s {
        Some(s) => Some(s@),
        None => None,
    }
}

pub fn child_path(dir: &Option<String>, name: &str) -> (path: String)
    ensures
        path@ == child_path_of(opt_text(*dir), name@),
{
    let root: String = "/".to_owned();
    let mut p = match dir {
        Some(p) => p.clone(),
        None => String::new(),
    };
    if p == root {
        p.append(name);
        proof {
            assert(p@ =~= child_path_of(opt_text(*dir), name@));
        }
        p
    } else {
        p.append("/");
        p.append(name);
        proof {
            let start = match opt_text(*dir) {
                Some(p) => p,
                None => Seq::<char>::empty(),
            };
            assert(p@ =~= start + "/"@ + name@);
        }
        p
    }
}

/// A record, as it is shown to those who follow the changes.
#[derive(Debug)]
#[allow(inconsistent_fields)]
pub enum Event<S = String> {
    Created { path: S },
    CreatedBatch { dir: Option<S>, count: usize },
    Removed { path: Option<S> },
    Renamed { from: S, to: S },
    Attr { path: Option<S> },
    Content { path: Option<S>, size: u64 },
}

impl Event<String> {
    pub open spec fn view(&self) -> Event<Seq<char>> {
        match self {
            Event::Created { path } => Event::Created { path: path@ },
            Event::CreatedBatch { dir, count } => Event::CreatedBatch {
                dir: opt_text(*dir),
                count: *count,
            },
            Event::Removed { path } => Event::Removed { path: opt_text(*path) },
            Event::Renamed { from, to } => Event::Renamed { from: from@, to: to@ },
            Event::Attr { path } => Event::Attr { path: opt_text(*path) },
            Event::Content { path, size } => Event::Content { path: opt_text(*path), size: *size },
        }
    }
}

/// What is known of the places that a record speaks of: the paths of the first and the second
/// node that it names, and the names in them.
#[derive(Debug)]
pub struct Places<S = String> {
    pub first: Option<S>,
    pub second: Option<S>,
    pub name: S,
    pub to_name: S,
}

impl Places<String> {
    pub open spec fn view(&self) -> Places<Seq<char>> {
        Places {
            first: opt_text(self.first),
            second: opt_text(self.second),
            name: self.name@,
            to_name: self.to_name@,
        }
    }
}

pub open spec fn event_of(rec: JournalRec, at: Places<Seq<char>>) -> Option<Event<Seq<char>>> {
    match rec {
        JournalRec::Created { .. } => Some(
            Event::Created { path: child_path_of(at.first, at.name) },
        ),
        JournalRec::CreatedBatch { count, .. } => Some(
            Event::CreatedBatch { dir: at.first, count },
        ),
        JournalRec::Removed { .. } => Some(
            Event::Removed { path: Some(child_path_of(at.first, at.name)) },
        ),
        JournalRec::Renamed { .. } => Some(
            Event::Renamed {
                from: child_path_of(at.first, at.name),
                to: child_path_of(at.second, at.to_name),
            },
        ),
        JournalRec::AttrChanged { .. } => Some(Event::Attr { path: at.first }),
        JournalRec::Content { size, .. } => Some(Event::Content { path: at.first, size }),
        JournalRec::SelfRemoved { .. } => Some(Event::Removed { path: at.first }),
        _ => None,
    }
}

fn copy_text(s: &Option<String>) -> (r: Option<String>)
    ensures
        opt_text(r) == opt_text(*s),
{
    match s {
        Some(s) => Some(s.clone()),
        None => None,
    }
}

/// The event of a record, if it is one that is shown. Taken before the record is applied, while a
/// removed node still has a path.
pub fn event_line(rec: &JournalRec, at: &Places) -> (e: Option<Event>)
    ensures
        match e {
            Some(e) => event_of(*rec, at@) == Some(e@),
            None => event_of(*rec, at@) is None,
        },
{
    match rec {
        JournalRec::Created { .. } => Some(
            Event::Created { path: child_path(&at.first, at.name.as_str()) },
        ),
        JournalRec::CreatedBatch { count, .. } => Some(
            Event::CreatedBatch { dir: copy_text(&at.first), count: *count },
        ),
        JournalRec::Removed { .. } => Some(
            Event::Removed { path: Some(child_path(&at.first, at.name.as_str())) },
        ),
        JournalRec::Renamed { .. } => Some(
            Event::Renamed {
                from: child_path(&at.first, at.name.as_str()),
                to: child_path(&at.second, at.to_name.as_str()),
            },
        ),
        JournalRec::AttrChanged { .. } => Some(Event::Attr { path: copy_text(&at.first) }),
        JournalRec::Content { size, .. } => Some(
            Event::Content { path: copy_text(&at.first), size: *size },
        ),
        JournalRec::SelfRemoved { .. } => Some(Event::Removed { path: copy_text(&at.first) }),
        _ => None,
    }
}

} // verus!
