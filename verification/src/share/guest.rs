//! What a share asks of the guest, and what it tells the replica.
use crate::surface::{error_of_errno, NfsError, NfsResult, SetAttr};
use crate::types::{Attr, Kind, NodeKey};
use vstd::prelude::*;

verus! {

/// What the replica of a guest tree says when it has no answer.
#[derive(Debug, Clone, Copy, PartialEq, Eq, Structural)]
pub enum ReplicaError {
    NoEnt,
    NotDir,
    NotSymlink,
    /// The tree is not complete yet.
    Incomplete,
    BadPath,
}

pub open spec fn error_of_replica(e: ReplicaError) -> NfsError {
    match e {
        ReplicaError::NoEnt => NfsError::NoEnt,
        ReplicaError::NotDir => NfsError::NotDir,
        ReplicaError::NotSymlink => NfsError::NotSymlink,
        ReplicaError::Incomplete => NfsError::Jukebox,
        ReplicaError::BadPath => NfsError::NoEnt,
    }
}

/// The error that a client sees; one that comes before the tree is complete makes it try again.
pub fn map_err(e: ReplicaError) -> (r: NfsError)
    ensures
        r == error_of_replica(e),
{
    match e {
        ReplicaError::NoEnt => NfsError::NoEnt,
        ReplicaError::NotDir => NfsError::NotDir,
        ReplicaError::NotSymlink => NfsError::NotSymlink,
        ReplicaError::Incomplete => NfsError::Jukebox,
        ReplicaError::BadPath => NfsError::NoEnt,
    }
}

/// A change that the guest is asked to make.
#[derive(Debug)]
pub enum RpcReq<B = Vec<u8>> {
    Create {
        dir: NodeKey,
        name: B,
        kind: Kind,
        mode: u16,
        rdev: u64,
        symlink_target: Option<B>,
        exclusive: bool,
    },
    Unlink { dir: NodeKey, name: B },
    Rmdir { dir: NodeKey, name: B },
    Rename { from_dir: NodeKey, from_name: B, to_dir: NodeKey, to_name: B },
    SetAttr { node: NodeKey, set: SetAttr },
    Write { node: NodeKey, off: u64, sync: bool, data: B },
    /// Make the whole file durable.
    Commit { node: NodeKey },
    /// Make a part of the file durable; a length of 0 is the whole file.
    CommitRange { node: NodeKey, off: u64, len: u64 },
}

/// Bytes that may be missing, by value.
pub open spec fn opt_bytes(b: Option<Vec<u8>>) -> Option<Seq<u8>> {
    match b {
        Some(v) => Some(v@),
        None => None,
    }
}

impl RpcReq<Vec<u8>> {
    pub open spec fn view(&self) -> RpcReq<Seq<u8>> {
        match self {
            RpcReq::Create { dir, name, kind, mode, rdev, symlink_target, exclusive } => RpcReq::Create {
                dir: *dir,
                name: name@,
                kind: *kind,
                mode: *mode,
                rdev: *rdev,
                symlink_target: opt_bytes(*symlink_target),
                exclusive: *exclusive,
            },
            RpcReq::Unlink { dir, name } => RpcReq::Unlink { dir: *dir, name: name@ },
            RpcReq::Rmdir { dir, name } => RpcReq::Rmdir { dir: *dir, name: name@ },
            RpcReq::Rename { from_dir, from_name, to_dir, to_name } => RpcReq::Rename {
                from_dir: *from_dir,
                from_name: from_name@,
                to_dir: *to_dir,
                to_name: to_name@,
            },
            RpcReq::SetAttr { node, set } => RpcReq::SetAttr { node: *node, set: *set },
            RpcReq::Write { node, off, sync, data } => RpcReq::Write {
                node: *node,
                off: *off,
                sync: *sync,
                data: data@,
            },
            RpcReq::Commit { node } => RpcReq::Commit { node: *node },
            RpcReq::CommitRange { node, off, len } => RpcReq::CommitRange {
                node: *node,
                off: *off,
                len: *len,
            },
        }
    }
}

/// What the guest answers.
#[derive(Debug, Clone, Copy)]
pub enum RpcResp {
    Done,
    Attr(Attr),
    Entry { node: NodeKey, attr: Attr },
    Failed { errno: i32 },
    /// An answer to something else.
    Other,
}

/// The error in an answer. No answer, because there is no connection or it broke, makes the
/// client try again; an error number is the guest's own.
pub open spec fn failure_of(resp: Option<RpcResp>) -> Option<NfsError> {
    match resp {
        None => Some(NfsError::Jukebox),
        Some(RpcResp::Failed { errno }) => Some(error_of_errno(errno)),
        Some(_) => None,
    }
}

/// The outcome of a change that gives nothing back.
pub open spec fn ok_of(resp: Option<RpcResp>) -> NfsResult<()> {
    match failure_of(resp) {
        Some(e) => Err(e),
        None => match resp {
            Some(RpcResp::Done) => Ok(()),
            _ => Err(NfsError::Io),
        },
    }
}

/// The outcome of a change that gives attributes back.
pub open spec fn attr_of(resp: Option<RpcResp>) -> NfsResult<Attr> {
    match failure_of(resp) {
        Some(e) => Err(e),
        None => match resp {
            Some(RpcResp::Attr(a)) => Ok(a),
            _ => Err(NfsError::Io),
        },
    }
}

/// The outcome of a change that gives a new node back.
pub open spec fn entry_of(resp: Option<RpcResp>) -> NfsResult<(NodeKey, Attr)> {
    match failure_of(resp) {
        Some(e) => Err(e),
        None => match resp {
            Some(RpcResp::Entry { node, attr }) => Ok((node, attr)),
            _ => Err(NfsError::Io),
        },
    }
}

/// The outcome of one piece of a write.
pub open spec fn piece_of(resp: Option<RpcResp>) -> NfsResult<()> {
    match failure_of(resp) {
        Some(e) => Err(e),
        None => match resp {
            Some(RpcResp::Done) => Ok(()),
            Some(RpcResp::Attr(_)) => Ok(()),
            _ => Err(NfsError::Io),
        },
    }
}

pub fn mutate_ok(resp: &Option<RpcResp>) -> (r: NfsResult<()>)
    ensures
        r == ok_of(*resp),
{
    match resp {
        None => Err(NfsError::Jukebox),
        Some(RpcResp::Failed { errno }) => Err(NfsError::from_errno(*errno)),
        Some(RpcResp::Done) => Ok(()),
        Some(_) => Err(NfsError::Io),
    }
}

pub fn mutate_attr(resp: &Option<RpcResp>) -> (r: NfsResult<Attr>)
    ensures
        r == attr_of(*resp),
{
    match resp {
        None => Err(NfsError::Jukebox),
        Some(RpcResp::Failed { errno }) => Err(NfsError::from_errno(*errno)),
        Some(RpcResp::Attr(a)) => Ok(*a),
        Some(_) => Err(NfsError::Io),
    }
}

pub fn mutate_entry(resp: &Option<RpcResp>) -> (r: NfsResult<(NodeKey, Attr)>)
    ensures
        r == entry_of(*resp),
{
    match resp {
        None => Err(NfsError::Jukebox),
        Some(RpcResp::Failed { errno }) => Err(NfsError::from_errno(*errno)),
        Some(RpcResp::Entry { node, attr }) => Ok((*node, *attr)),
        Some(_) => Err(NfsError::Io),
    }
}

pub fn mutate_piece(resp: &Option<RpcResp>) -> (r: NfsResult<()>)
    ensures
        r == piece_of(*resp),
{
    match resp {
        None => Err(NfsError::Jukebox),
        Some(RpcResp::Failed { errno }) => Err(NfsError::from_errno(*errno)),
        Some(RpcResp::Done) => Ok(()),
        Some(RpcResp::Attr(_)) => Ok(()),
        Some(_) => Err(NfsError::Io),
    }
}

/// A change of the guest tree, as the replica is told of it.
#[derive(Debug)]
pub enum Rec<B = Vec<u8>> {
    Created { parent: NodeKey, name: B, node: NodeKey, attr: Attr, symlink_target: Option<B> },
    Removed { parent: NodeKey, name: B },
    Renamed { from_parent: NodeKey, from_name: B, to_parent: NodeKey, to_name: B },
    AttrChanged { node: NodeKey, attr: Attr },
}

impl Rec<Vec<u8>> {
    pub open spec fn view(&self) -> Rec<Seq<u8>> {
        match self {
            Rec::Created { parent, name, node, attr, symlink_target } => Rec::Created {
                parent: *parent,
                name: name@,
                node: *node,
                attr: *attr,
                symlink_target: opt_bytes(*symlink_target),
            },
            Rec::Removed { parent, name } => Rec::Removed { parent: *parent, name: name@ },
            Rec::Renamed { from_parent, from_name, to_parent, to_name } => Rec::Renamed {
                from_parent: *from_parent,
                from_name: from_name@,
                to_parent: *to_parent,
                to_name: to_name@,
            },
            Rec::AttrChanged { node, attr } => Rec::AttrChanged { node: *node, attr: *attr },
        }
    }
}

/// The Mac's operation that a conflict is logged under.
#[derive(Debug, Clone, Copy, PartialEq, Eq, Structural)]
pub enum MacOp {
    Write,
    Remove,
    Setattr,
}

impl MacOp {
    pub open spec fn text(self) -> Seq<char> {
        match self {
            MacOp::Write => "write"@,
            MacOp::Remove => "remove"@,
            MacOp::Setattr => "setattr"@,
        }
    }

    pub fn name(&self) -> (s: &'static str)
        ensures
            s@ == self.text(),
    {
        match self {
            MacOp::Write => "write",
            MacOp::Remove => "remove",
            MacOp::Setattr => "setattr",
        }
    }
}

/// What is to be done, in this order, when a change was made.
#[derive(Debug)]
pub enum Effect<B = Vec<u8>> {
    /// Tell the replica.
    Apply(Rec<B>),
    /// The journal's echo of this change is not news.
    MacDirty(NodeKey),
    /// A directory changed: move its times on.
    BumpDir(NodeKey),
    /// Log a conflict, if the guest changed this node too.
    Conflict(NodeKey, MacOp),
    /// Drop what is cached of this node.
    Invalidate(NodeKey),
    /// Drop the node's write queue, if nothing of it is on its way.
    Forget(NodeKey),
}

impl Effect<Vec<u8>> {
    pub open spec fn view(&self) -> Effect<Seq<u8>> {
        match self {
            Effect::Apply(rec) => Effect::Apply(rec@),
            Effect::MacDirty(n) => Effect::MacDirty(*n),
            Effect::BumpDir(n) => Effect::BumpDir(*n),
            Effect::Conflict(n, op) => Effect::Conflict(*n, *op),
            Effect::Invalidate(n) => Effect::Invalidate(*n),
            Effect::Forget(n) => Effect::Forget(*n),
        }
    }
}

pub open spec fn effects(list: Seq<Effect>) -> Seq<Effect<Seq<u8>>> {
    Seq::new(list.len(), |i: int| list[i]@)
}

} // verus!
