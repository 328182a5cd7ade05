//! The plain values that describe a file of the guest.
use vstd::prelude::*;

verus! {

/// Identity of a file: its inode number and the generation that tells reused inodes apart.
#[derive(Debug, Clone, Copy, PartialEq, Eq, Hash, Structural)]
pub struct NodeKey {
    pub ino: u64,
    pub generation: u32,
}

/// What sort of object a node is.
#[derive(Debug, Clone, Copy, PartialEq, Eq, Structural)]
pub enum Kind {
    Reg,
    Dir,
    Symlink,
    Blk,
    Chr,
    Sock,
    Fifo,
}

/// A point in time: seconds since the epoch and nanoseconds.
#[derive(Debug, Clone, Copy, PartialEq, Eq, Structural)]
pub struct Ts {
    pub sec: i64,
    pub nsec: u32,
}

impl Ts {
    /// Strictly earlier, by seconds and then nanoseconds.
    pub open spec fn earlier(self, other: Ts) -> bool {
        self.sec < other.sec || (self.sec == other.sec && self.nsec < other.nsec)
    }

    pub fn is_earlier(&self, other: &Ts) -> (r: bool)
        ensures
            r == self.earlier(*other),
    {
        self.sec < other.sec || (self.sec == other.sec && self.nsec < other.nsec)
    }
}

/// The attributes of a node.
#[derive(Debug, Clone, Copy, PartialEq, Eq, Structural)]
pub struct Attr {
    pub kind: Kind,
    pub mode: u16,
    pub nlink: u32,
    pub uid: u32,
    pub gid: u32,
    pub size: u64,
    /// Allocated blocks of 512 bytes.
    pub blocks: u64,
    pub mtime: Ts,
    pub ctime: Ts,
    /// Device number: major in the high half, minor in the low half.
    pub rdev: u64,
    /// The guest journal's write counter for this node.
    pub content_version: u64,
}

} // verus!
