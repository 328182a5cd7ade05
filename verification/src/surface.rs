//! The seam between the NFS servers and the file tree they export.
//!
//! The servers know nothing of how the tree is kept. What they need of it is an [`Ask`]; what
//! came back is an [`Answer`]. Every server step is a function of the request and the answers so
//! far, and says what to ask next or what to reply.
use crate::types::{Attr, NodeKey, Ts};
use vstd::prelude::*;

verus! {

/// NFS-facing error; the servers map it to their protocol's status.
#[derive(Debug, Clone, Copy, PartialEq, Eq, Structural)]
pub enum NfsError {
    NoEnt,
    NotDir,
    IsDir,
    NotSymlink,
    Stale,
    Access,
    Io,
    /// The tree is not complete yet: the client is told to try again.
    Jukebox,
    NameTooLong,
    NotEmpty,
    Exist,
    NoSpace,
    Rofs,
}

/// The error that a guest errno stands for; any other number is an I/O error.
pub open spec fn error_of_errno(errno: i32) -> NfsError {
    if errno == 2 {
        NfsError::NoEnt
    } else if errno == 13 || errno == 1 {
        NfsError::Access
    } else if errno == 17 {
        NfsError::Exist
    } else if errno == 20 {
        NfsError::NotDir
    } else if errno == 21 {
        NfsError::IsDir
    } else if errno == 28 {
        NfsError::NoSpace
    } else if errno == 30 {
        NfsError::Rofs
    } else if errno == 36 {
        NfsError::NameTooLong
    } else if errno == 39 {
        NfsError::NotEmpty
    } else if errno == 116 {
        NfsError::Stale
    } else {
        NfsError::Io
    }
}

impl NfsError {
    /// Map a guest errno to an NFS error.
    pub fn from_errno(errno: i32) -> (e: NfsError)
        ensures
            e == error_of_errno(errno),
    {
        match errno {
            2 => NfsError::NoEnt,
            13 | 1 => NfsError::Access,
            17 => NfsError::Exist,
            20 => NfsError::NotDir,
            21 => NfsError::IsDir,
            28 => NfsError::NoSpace,
            30 => NfsError::Rofs,
            36 => NfsError::NameTooLong,
            39 => NfsError::NotEmpty,
            116 => NfsError::Stale,
            _ => NfsError::Io,
        }
    }
}

pub type NfsResult<T> = Result<T, NfsError>;

#[derive(Debug, Clone)]
pub struct DirEntry {
    pub name: Vec<u8>,
    pub node: NodeKey,
    pub cookie: u64,
    /// Present only where attributes were asked for.
    pub attr: Option<Attr>,
}

#[derive(Debug, Clone)]
pub struct ReadDirPage {
    pub entries: Vec<DirEntry>,
    pub eof: bool,
    /// Directory generation, by which a client sees that the directory changed under it.
    pub cookieverf: u64,
}

#[derive(Debug, Clone)]
pub struct ReadResult {
    pub data: Vec<u8>,
    pub eof: bool,
}

#[derive(Debug, Clone, Copy, PartialEq, Eq, Structural)]
pub struct FsStat {
    pub total_bytes: u64,
    pub free_bytes: u64,
    pub avail_bytes: u64,
    pub total_files: u64,
    pub free_files: u64,
}

impl Default for FsStat {
    /// Plausible numbers: 1 PiB in all, half of it free; 2^30 files, half of them free.
    fn default() -> (s: Self)
        ensures
            s == (FsStat {
                total_bytes: 0x4_0000_0000_0000,
                free_bytes: 0x2_0000_0000_0000,
                avail_bytes: 0x2_0000_0000_0000,
                total_files: 0x4000_0000,
                free_files: 0x2000_0000,
            }),
    {
        FsStat {
            total_bytes: 0x4_0000_0000_0000,
            free_bytes: 0x2_0000_0000_0000,
            avail_bytes: 0x2_0000_0000_0000,
            total_files: 0x4000_0000,
            free_files: 0x2000_0000,
        }
    }
}

/// A read that is served straight from a local file: how many bytes, and whether they end the
/// exported file.
#[derive(Debug, Clone, Copy, PartialEq, Eq, Structural)]
pub struct SendRange {
    pub len: u32,
    pub eof: bool,
}

/// The kind of object to create.
#[derive(Debug, Clone)]
pub enum CreateKind<B = Vec<u8>> {
    File { exclusive: bool },
    Dir,
    Symlink { target: B },
    Fifo,
    Socket,
    Device { is_block: bool, major: u32, minor: u32 },
}

impl CreateKind<Vec<u8>> {
    pub open spec fn view(&self) -> CreateKind<Seq<u8>> {
        match self {
            CreateKind::File { exclusive } => CreateKind::File { exclusive: *exclusive },
            CreateKind::Dir => CreateKind::Dir,
            CreateKind::Symlink { target } => CreateKind::Symlink { target: target@ },
            CreateKind::Fifo => CreateKind::Fifo,
            CreateKind::Socket => CreateKind::Socket,
            CreateKind::Device { is_block, major, minor } => CreateKind::Device {
                is_block: *is_block,
                major: *major,
                minor: *minor,
            },
        }
    }

    pub fn copy(&self) -> (k: CreateKind)
        ensures
            k@ == self@,
    {
        match self {
            CreateKind::File { exclusive } => CreateKind::File { exclusive: *exclusive },
            CreateKind::Dir => CreateKind::Dir,
            CreateKind::Symlink { target } => CreateKind::Symlink { target: target.clone() },
            CreateKind::Fifo => CreateKind::Fifo,
            CreateKind::Socket => CreateKind::Socket,
            CreateKind::Device { is_block, major, minor } => CreateKind::Device {
                is_block: *is_block,
                major: *major,
                minor: *minor,
            },
        }
    }
}

/// Fields to change; `None` leaves a field untouched.
#[derive(Debug, Clone, Copy, PartialEq, Eq, Structural)]
pub struct SetAttr {
    pub mode: Option<u16>,
    pub uid: Option<u32>,
    pub gid: Option<u32>,
    pub size: Option<u64>,
    pub mtime: Option<Ts>,
}

/// No field changes.
pub open spec fn no_change() -> SetAttr {
    SetAttr { mode: None, uid: None, gid: None, size: None, mtime: None }
}

impl Default for SetAttr {
    fn default() -> (s: Self)
        ensures
            s == no_change(),
    {
        SetAttr { mode: None, uid: None, gid: None, size: None, mtime: None }
    }
}

/// What an exported tree says of itself.
#[derive(Debug, Clone, Copy, PartialEq, Eq, Structural)]
pub struct SurfaceInfo {
    pub share: u16,
    pub root: NodeKey,
    /// Whether mutations are accepted.
    pub writable: bool,
    /// Whether every write is as durable as it will ever get when it is answered.
    pub stable_writes: bool,
    pub fsstat: FsStat,
}

/// One question to, or operation on, the exported tree.
#[derive(Debug, Clone)]
pub enum Ask<B = Vec<u8>> {
    Getattr(NodeKey),
    Lookup { dir: NodeKey, name: B },
    Readdir { dir: NodeKey, cookie: u64, max_entries: usize, want_attrs: bool },
    Readlink(NodeKey),
    Parent(NodeKey),
    /// Can this read be served straight from one local file?
    ReadSendable { node: NodeKey, offset: u64, count: u32 },
    Read { node: NodeKey, offset: u64, count: u32 },
    Create { dir: NodeKey, name: B, kind: CreateKind<B>, mode: u16 },
    Remove { dir: NodeKey, name: B, is_dir: bool },
    Rename { from_dir: NodeKey, from_name: B, to_dir: NodeKey, to_name: B },
    Setattr { node: NodeKey, set: SetAttr },
    Write { node: NodeKey, offset: u64, data: B, sync: bool },
    /// Make `[off, off + len)` durable; `len == 0` is the whole file.
    Commit { node: NodeKey, off: u64, len: u64 },
}

impl Ask<Vec<u8>> {
    pub open spec fn view(&self) -> Ask<Seq<u8>> {
        match self {
            Ask::Getattr(node) => Ask::Getattr(*node),
            Ask::Lookup { dir, name } => Ask::Lookup { dir: *dir, name: name@ },
            Ask::Readdir { dir, cookie, max_entries, want_attrs } => Ask::Readdir {
                dir: *dir,
                cookie: *cookie,
                max_entries: *max_entries,
                want_attrs: *want_attrs,
            },
            Ask::Readlink(node) => Ask::Readlink(*node),
            Ask::Parent(node) => Ask::Parent(*node),
            Ask::ReadSendable { node, offset, count } => Ask::ReadSendable {
                node: *node,
                offset: *offset,
                count: *count,
            },
            Ask::Read { node, offset, count } => Ask::Read {
                node: *node,
                offset: *offset,
                count: *count,
            },
            Ask::Create { dir, name, kind, mode } => Ask::Create {
                dir: *dir,
                name: name@,
                kind: kind@,
                mode: *mode,
            },
            Ask::Remove { dir, name, is_dir } => Ask::Remove {
                dir: *dir,
                name: name@,
                is_dir: *is_dir,
            },
            Ask::Rename { from_dir, from_name, to_dir, to_name } => Ask::Rename {
                from_dir: *from_dir,
                from_name: from_name@,
                to_dir: *to_dir,
                to_name: to_name@,
            },
            Ask::Setattr { node, set } => Ask::Setattr { node: *node, set: *set },
            Ask::Write { node, offset, data, sync } => Ask::Write {
                node: *node,
                offset: *offset,
                data: data@,
                sync: *sync,
            },
            Ask::Commit { node, off, len } => Ask::Commit { node: *node, off: *off, len: *len },
        }
    }
}

/// Whether an ask would change the tree or make a change durable.
pub open spec fn is_mutation<B>(ask: Ask<B>) -> bool {
    match ask {
        Ask::Create { .. } => true,
        Ask::Remove { .. } => true,
        Ask::Rename { .. } => true,
        Ask::Setattr { .. } => true,
        Ask::Write { .. } => true,
        Ask::Commit { .. } => true,
        _ => false,
    }
}

/// What came back for an [`Ask`].
#[derive(Debug)]
pub enum Answer {
    Attr(NfsResult<Attr>),
    Entry(NfsResult<(NodeKey, Attr)>),
    Page(NfsResult<ReadDirPage>),
    Target(NfsResult<Vec<u8>>),
    Parent(NfsResult<NodeKey>),
    Range(Option<SendRange>),
    Data(NfsResult<ReadResult>),
    Done(NfsResult<()>),
}

/// The attributes that came back; an answer of another sort counts as an I/O error. The same
/// holds of the functions below.
pub open spec fn attr_in(a: Answer) -> NfsResult<Attr> {
    match a {
        Answer::Attr(r) => r,
        _ => Err(NfsError::Io),
    }
}

pub open spec fn entry_in(a: Answer) -> NfsResult<(NodeKey, Attr)> {
    match a {
        Answer::Entry(r) => r,
        _ => Err(NfsError::Io),
    }
}

pub open spec fn parent_in(a: Answer) -> NfsResult<NodeKey> {
    match a {
        Answer::Parent(r) => r,
        _ => Err(NfsError::Io),
    }
}

pub open spec fn done_in(a: Answer) -> NfsResult<()> {
    match a {
        Answer::Done(r) => r,
        _ => Err(NfsError::Io),
    }
}

pub open spec fn range_in(a: Answer) -> Option<SendRange> {
    match a {
        Answer::Range(r) => r,
        _ => None,
    }
}

pub open spec fn page_in(a: Answer) -> NfsResult<ReadDirPage> {
    match a {
        Answer::Page(r) => r,
        _ => Err(NfsError::Io),
    }
}

pub open spec fn target_in(a: Answer) -> NfsResult<Vec<u8>> {
    match a {
        Answer::Target(r) => r,
        _ => Err(NfsError::Io),
    }
}

pub open spec fn data_in(a: Answer) -> NfsResult<ReadResult> {
    match a {
        Answer::Data(r) => r,
        _ => Err(NfsError::Io),
    }
}

/// The attributes, if they came.
pub open spec fn attr_opt(a: Answer) -> Option<Attr> {
    match attr_in(a) {
        Ok(attr) => Some(attr),
        Err(_) => None,
    }
}

impl Answer {
    pub fn attr(&self) -> (r: NfsResult<Attr>)
        ensures
            r == attr_in(*self),
    {
        match self {
            Answer::Attr(r) => *r,
            _ => Err(NfsError::Io),
        }
    }

    pub fn attr_opt(&self) -> (r: Option<Attr>)
        ensures
            r == attr_opt(*self),
    {
        match self {
            Answer::Attr(Ok(a)) => Some(*a),
            _ => None,
        }
    }

    pub fn entry(&self) -> (r: NfsResult<(NodeKey, Attr)>)
        ensures
            r == entry_in(*self),
    {
        match self {
            Answer::Entry(r) => *r,
            _ => Err(NfsError::Io),
        }
    }

    pub fn parent(&self) -> (r: NfsResult<NodeKey>)
        ensures
            r == parent_in(*self),
    {
        match self {
            Answer::Parent(r) => *r,
            _ => Err(NfsError::Io),
        }
    }

    pub fn done(&self) -> (r: NfsResult<()>)
        ensures
            r == done_in(*self),
    {
        match self {
            Answer::Done(r) => *r,
            _ => Err(NfsError::Io),
        }
    }

    pub fn range(&self) -> (r: Option<SendRange>)
        ensures
            r == range_in(*self),
    {
        match self {
            Answer::Range(r) => *r,
            _ => None,
        }
    }

    pub fn page(&self) -> (r: Result<&ReadDirPage, NfsError>)
        ensures
            match r {
                Ok(p) => page_in(*self) == Ok::<_, NfsError>(*p),
                Err(e) => page_in(*self) == Err::<ReadDirPage, _>(e),
            },
    {
        match self {
            Answer::Page(Ok(p)) => Ok(p),
            Answer::Page(Err(e)) => Err(*e),
            _ => Err(NfsError::Io),
        }
    }

    pub fn target(&self) -> (r: Result<&Vec<u8>, NfsError>)
        ensures
            match r {
                Ok(t) => target_in(*self) == Ok::<_, NfsError>(*t),
                Err(e) => target_in(*self) == Err::<Vec<u8>, _>(e),
            },
    {
        match self {
            Answer::Target(Ok(t)) => Ok(t),
            Answer::Target(Err(e)) => Err(*e),
            _ => Err(NfsError::Io),
        }
    }

    pub fn data(&self) -> (r: Result<&ReadResult, NfsError>)
        ensures
            match r {
                Ok(d) => data_in(*self) == Ok::<_, NfsError>(*d),
                Err(e) => data_in(*self) == Err::<ReadResult, _>(e),
            },
    {
        match self {
            Answer::Data(Ok(d)) => Ok(d),
            Answer::Data(Err(e)) => Err(*e),
            _ => Err(NfsError::Io),
        }
    }
}

/// What a tree answers that implements nothing of its own: mutations are refused as read-only,
/// parents are not known, no read is served from a local file. The rest has no default.
pub open spec fn default_answer_of<B>(ask: Ask<B>) -> Option<Answer> {
    match ask {
        Ask::Create { .. } => Some(Answer::Entry(Err(NfsError::Rofs))),
        Ask::Remove { .. } => Some(Answer::Done(Err(NfsError::Rofs))),
        Ask::Rename { .. } => Some(Answer::Done(Err(NfsError::Rofs))),
        Ask::Setattr { .. } => Some(Answer::Attr(Err(NfsError::Rofs))),
        Ask::Write { .. } => Some(Answer::Attr(Err(NfsError::Rofs))),
        Ask::Commit { .. } => Some(Answer::Attr(Err(NfsError::Rofs))),
        Ask::Parent(_) => Some(Answer::Parent(Err(NfsError::NoEnt))),
        Ask::ReadSendable { .. } => Some(Answer::Range(None)),
        _ => None,
    }
}

pub fn default_answer(ask: &Ask) -> (r: Option<Answer>)
    ensures
        r == default_answer_of(ask@),
{
    match ask {
        Ask::Create { .. } => Some(Answer::Entry(Err(NfsError::Rofs))),
        Ask::Remove { .. } => Some(Answer::Done(Err(NfsError::Rofs))),
        Ask::Rename { .. } => Some(Answer::Done(Err(NfsError::Rofs))),
        Ask::Setattr { .. } => Some(Answer::Attr(Err(NfsError::Rofs))),
        Ask::Write { .. } => Some(Answer::Attr(Err(NfsError::Rofs))),
        Ask::Commit { .. } => Some(Answer::Attr(Err(NfsError::Rofs))),
        Ask::Parent(_) => Some(Answer::Parent(Err(NfsError::NoEnt))),
        Ask::ReadSendable { .. } => Some(Answer::Range(None)),
        _ => None,
    }
}

/// Every mutation has a default answer, and it is the read-only error.
pub proof fn read_only_tree_refuses_mutations<B>(ask: Ask<B>)
    requires
        is_mutation(ask),
    ensures
        match default_answer_of(ask) {
            Some(Answer::Entry(r)) => r == Err::<(NodeKey, Attr), _>(NfsError::Rofs),
            Some(Answer::Done(r)) => r == Err::<(), _>(NfsError::Rofs),
            Some(Answer::Attr(r)) => r == Err::<Attr, _>(NfsError::Rofs),
            _ => false,
        },
{
}

/// The next move of a server step.
#[derive(Debug)]
pub enum Turn {
    /// Put this to the tree and come back with the answer.
    Ask(Ask),
    /// The reply is complete.
    Done,
    /// The reply's head is complete; the payload follows it straight from a local file.
    DoneFile(SendRange),
}

/// The next move of a server step and the reply's bytes so far.
pub enum Move {
    Ask(Ask<Seq<u8>>),
    Done(Seq<u8>),
    DoneFile(Seq<u8>, SendRange),
}

/// That a server step did what `m` says: it asked and wrote nothing, or it wrote the reply.
pub open spec fn did(m: Move, turn: Turn, before: Seq<u8>, after: Seq<u8>) -> bool {
    match m {
        Move::Ask(ask) => turn is Ask && turn->Ask_0@ == ask && after == before,
        Move::Done(bytes) => turn is Done && after == bytes,
        Move::DoneFile(bytes, range) => turn == Turn::DoneFile(range) && after == bytes,
    }
}

} // verus!
