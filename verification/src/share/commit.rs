//! A commit from start to end: it waits for the writes in its way, hands out what failed of them,
//! and has the guest flush what is new.
use crate::share::guest::{effects, Effect, RpcReq, RpcResp};
use crate::share::ops::{commit_done, commit_req, commit_span, committed, Owner};
use crate::share::queue::{
    any_touches, batch_queued, commit_planned, drained, CommitPlan, Drain, QueueMap, Queues, Waiter,
};
use crate::surface::{NfsError, NfsResult};
use crate::types::{Attr, NodeKey};
use std::sync::Arc;
use vstd::prelude::*;

verus! {

/// What a commit does next.
#[derive(Debug)]
pub enum CommitMove<B = Vec<u8>> {
    /// A write is in the way: look again when one has landed.
    Wait,
    /// A write behind its reply failed: the commit says so.
    Fail(NfsError),
    /// There is nothing to flush: the attributes are the answer.
    Attrs,
    /// The guest has to flush; with `stash` the writes may go to the cache then.
    Send { req: RpcReq<B>, stash: bool },
}

impl CommitMove<Vec<u8>> {
    pub open spec fn view(&self) -> CommitMove<Seq<u8>> {
        match self {
            CommitMove::Wait => CommitMove::Wait,
            CommitMove::Fail(e) => CommitMove::Fail(*e),
            CommitMove::Attrs => CommitMove::Attrs,
            CommitMove::Send { req, stash } => CommitMove::Send { req: req@, stash: *stash },
        }
    }
}

/// The length that a commit waits for: 0 stands for the whole file.
pub open spec fn span_of(len: u64) -> u64 {
    if len == 0 {
        u64::MAX
    } else {
        len
    }
}

/// A commit was begun: the wait comes first, then what failed, then what is to be flushed.
pub open spec fn commit_begun(
    pre: QueueMap,
    mid: QueueMap,
    post: QueueMap,
    node: NodeKey,
    off: u64,
    len: u64,
    m: CommitMove<Seq<u8>>,
) -> bool {
    match m {
        CommitMove::Wait => {
            &&& drained(pre, mid, node, off, span_of(len), Waiter::Commit, Drain::Wait)
            &&& post == mid
        },
        CommitMove::Fail(e) => {
            &&& drained(pre, mid, node, off, span_of(len), Waiter::Commit, Drain::Clear(Some(e)))
            &&& post == mid
        },
        CommitMove::Attrs => {
            &&& drained(pre, mid, node, off, span_of(len), Waiter::Commit, Drain::Clear(None))
            &&& commit_planned(mid, post, node, len, CommitPlan::Clean)
        },
        CommitMove::Send { req, stash } => {
            &&& drained(pre, mid, node, off, span_of(len), Waiter::Commit, Drain::Clear(None))
            &&& commit_planned(mid, post, node, len, CommitPlan::Flush { stash })
            &&& req == (RpcReq::<Seq<u8>>::CommitRange { node, off, len })
        },
    }
}

/// A commit was begun, by way of some state after the wait.
pub open spec fn commit_started(
    pre: QueueMap,
    post: QueueMap,
    node: NodeKey,
    off: u64,
    len: u64,
    m: CommitMove<Seq<u8>>,
) -> bool {
    exists|mid: QueueMap| #[trigger] commit_begun(pre, mid, post, node, off, len, m)
}

/// Begin a commit of `[off, off + len)`, or of the whole file.
pub fn begin_commit(q: &mut Queues, node: NodeKey, off: u64, len: u64) -> (m: CommitMove)
    requires
        old(q).wf(),
    ensures
        final(q).wf(),
        commit_started(old(q)@, final(q)@, node, off, len, m@),
{
    let ghost pre = q@;
    let d = q.drain(node, off, commit_span(len), Waiter::Commit);
    let ghost mid = q@;
    match d {
        Drain::Wait => {
            proof {
                assert(commit_begun(pre, mid, q@, node, off, len, CommitMove::Wait));
            }
            CommitMove::Wait
        },
        Drain::Clear(Some(e)) => {
            proof {
                assert(commit_begun(pre, mid, q@, node, off, len, CommitMove::Fail(e)));
            }
            CommitMove::Fail(e)
        },
        Drain::Clear(None) => match q.commit_plan(node, len) {
            CommitPlan::Clean => {
                proof {
                    assert(commit_begun(pre, mid, q@, node, off, len, CommitMove::Attrs));
                }
                CommitMove::Attrs
            },
            CommitPlan::Flush { stash } => {
                let m = CommitMove::Send { req: commit_req(node, off, len), stash };
                proof {
                    assert(commit_begun(pre, mid, q@, node, off, len, m@));
                }
                m
            },
        },
    }
}

/// How a commit ended.
#[derive(Debug)]
pub struct CommitEnd {
    pub result: NfsResult<Attr>,
    pub effects: Vec<Effect>,
    /// The writes go to the cache.
    pub warm: bool,
}

/// End a commit with the guest's reply. If the flush failed, the node is not clean.
pub fn end_commit(
    q: &mut Queues,
    node: NodeKey,
    stash: bool,
    cur: Option<Attr>,
    resp: &Option<RpcResp>,
    owner: Owner,
) -> (end: CommitEnd)
    requires
        old(q).wf(),
    ensures
        final(q).wf(),
        (end.result, effects(end.effects@)) == committed(node, cur, *resp, owner),
        end.warm == (stash && end.result is Ok),
        if end.result is Err && old(q)@.contains_key(node) {
            final(q)@ == old(q)@.insert(
                node,
                crate::share::queue::NodeWrites { dirty: true, ..old(q)@[node] },
            )
        } else {
            final(q)@ == old(q)@
        },
{
    let (result, effects) = commit_done(node, cur, resp, owner);
    if result.is_err() {
        q.commit_failed(node);
    }
    let warm = stash && result.is_ok();
    CommitEnd { result, effects, warm }
}

/// A commit never hides a failure: where a write failed and nothing is in the way, the commit fails
/// with it and nothing is flushed.
pub proof fn commit_never_hides_a_failure(
    pre: QueueMap,
    post: QueueMap,
    node: NodeKey,
    off: u64,
    len: u64,
    m: CommitMove<Seq<u8>>,
    e: NfsError,
)
    requires
        commit_started(pre, post, node, off, len, m),
        pre.contains_key(node),
        pre[node].err == Some(e),
        !any_touches(pre[node].ranges@, off, span_of(len)),
    ensures
        m == CommitMove::<Seq<u8>>::Fail(e),
        post[node].err is None,
{
}

/// A full commit of a file to which something was written since the last one never ends without a
/// flush: it waits, fails or has the guest flush.
pub proof fn written_file_is_flushed(
    m0: QueueMap,
    m1: QueueMap,
    m2: QueueMap,
    node: NodeKey,
    at: u64,
    data: Arc<Vec<u8>>,
    now: u64,
    batch: u32,
    off: u64,
    m: CommitMove<Seq<u8>>,
)
    requires
        batch_queued(m0, m1, node, at, data, now, batch),
        commit_started(m1, m2, node, off, 0, m),
    ensures
        !(m is Attrs),
{
}

} // verus!
