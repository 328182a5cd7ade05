//! NFSv3 (RFC 1813) procedures over an exported tree. Program 100003, version 3.
//!
//! A call is served in three parts: [`decode`] makes a [`Req3`] of the arguments, [`step`] says
//! for the answers so far what to ask the tree next, and once they suffice writes the reply.
use crate::handle::{handle_bytes, handle_target, tag_of, HandleCodec};
use crate::surface::{
    attr_in, attr_opt, data_in, did, done_in, entry_in, no_change, page_in, range_in, target_in,
    Answer, Ask, CreateKind, DirEntry, Move, NfsError, NfsResult, ReadDirPage, SetAttr, SurfaceInfo,
    Turn,
};
use crate::types::{Attr, Kind, NodeKey, Ts};
use crate::xdr::{
    be32_len, get_bool, get_fixed, get_opaque, get_u32, get_u64, Wire, XdrReader, XdrWriter,
};
use vstd::prelude::*;

verus! {

pub const NFS_PROGRAM: u32 = 100003;

pub const NFS_VERSION: u32 = 3;

pub const PROC_NULL: u32 = 0;

pub const PROC_GETATTR: u32 = 1;

pub const PROC_SETATTR: u32 = 2;

pub const PROC_LOOKUP: u32 = 3;

pub const PROC_ACCESS: u32 = 4;

pub const PROC_READLINK: u32 = 5;

pub const PROC_READ: u32 = 6;

pub const PROC_WRITE: u32 = 7;

pub const PROC_CREATE: u32 = 8;

pub const PROC_MKDIR: u32 = 9;

pub const PROC_SYMLINK: u32 = 10;

pub const PROC_MKNOD: u32 = 11;

pub const PROC_REMOVE: u32 = 12;

pub const PROC_RMDIR: u32 = 13;

pub const PROC_RENAME: u32 = 14;

pub const PROC_LINK: u32 = 15;

pub const PROC_READDIR: u32 = 16;

pub const PROC_READDIRPLUS: u32 = 17;

pub const PROC_FSSTAT: u32 = 18;

pub const PROC_FSINFO: u32 = 19;

pub const PROC_PATHCONF: u32 = 20;

pub const PROC_COMMIT: u32 = 21;

pub const NFS3_OK: u32 = 0;

pub const NFS3ERR_NOENT: u32 = 2;

pub const NFS3ERR_IO: u32 = 5;

pub const NFS3ERR_ACCES: u32 = 13;

pub const NFS3ERR_EXIST: u32 = 17;

pub const NFS3ERR_NOTDIR: u32 = 20;

pub const NFS3ERR_ISDIR: u32 = 21;

pub const NFS3ERR_INVAL: u32 = 22;

pub const NFS3ERR_NOSPC: u32 = 28;

pub const NFS3ERR_ROFS: u32 = 30;

pub const NFS3ERR_NAMETOOLONG: u32 = 63;

pub const NFS3ERR_NOTEMPTY: u32 = 66;

pub const NFS3ERR_STALE: u32 = 70;

pub const NFS3ERR_NOTSUPP: u32 = 10004;

pub const NFS3ERR_JUKEBOX: u32 = 10008;

pub const NF3REG: u32 = 1;

pub const NF3DIR: u32 = 2;

pub const NF3BLK: u32 = 3;

pub const NF3CHR: u32 = 4;

pub const NF3LNK: u32 = 5;

pub const NF3SOCK: u32 = 6;

pub const NF3FIFO: u32 = 7;

/// Largest read served in one reply.
pub const MAX_READ: u32 = 0x10_0000;

/// Largest write taken in one call.
pub const MAX_WRITE: u32 = 0x10_0000;

pub const FSF_LINK: u32 = 0x1;

pub const FSF_SYMLINK: u32 = 0x2;

pub const FSF_HOMOGENEOUS: u32 = 0x8;

pub const FSF_CANSETTIME: u32 = 0x10;

/// [`FSF_LINK`], [`FSF_SYMLINK`], [`FSF_HOMOGENEOUS`] and [`FSF_CANSETTIME`] together.
pub const FSF_PROPERTIES: u32 = 0x1b;

/// The write verifier, `MIST-wv1`: a client compares it across writes to see a server restart.
pub open spec fn write_verf() -> Seq<u8> {
    seq![77u8, 73, 83, 84, 45, 119, 118, 49]
}

/// The longest file name, as on ext4.
pub const NAME_MAX: usize = 255;

pub open spec fn stat_of(e: NfsError) -> u32 {
    match e {
        NfsError::NoEnt => NFS3ERR_NOENT,
        NfsError::NotDir => NFS3ERR_NOTDIR,
        NfsError::IsDir => NFS3ERR_ISDIR,
        NfsError::NotSymlink => NFS3ERR_INVAL,
        NfsError::Stale => NFS3ERR_STALE,
        NfsError::Access => NFS3ERR_ACCES,
        NfsError::Io => NFS3ERR_IO,
        NfsError::Jukebox => NFS3ERR_JUKEBOX,
        NfsError::NameTooLong => NFS3ERR_NAMETOOLONG,
        NfsError::NotEmpty => NFS3ERR_NOTEMPTY,
        NfsError::Exist => NFS3ERR_EXIST,
        NfsError::NoSpace => NFS3ERR_NOSPC,
        NfsError::Rofs => NFS3ERR_ROFS,
    }
}

/// The nfsstat3 of an error.
pub fn nfsstat_of(e: NfsError) -> (st: u32)
    ensures
        st == stat_of(e),
{
    match e {
        NfsError::NoEnt => NFS3ERR_NOENT,
        NfsError::NotDir => NFS3ERR_NOTDIR,
        NfsError::IsDir => NFS3ERR_ISDIR,
        NfsError::NotSymlink => NFS3ERR_INVAL,
        NfsError::Stale => NFS3ERR_STALE,
        NfsError::Access => NFS3ERR_ACCES,
        NfsError::Io => NFS3ERR_IO,
        NfsError::Jukebox => NFS3ERR_JUKEBOX,
        NfsError::NameTooLong => NFS3ERR_NAMETOOLONG,
        NfsError::NotEmpty => NFS3ERR_NOTEMPTY,
        NfsError::Exist => NFS3ERR_EXIST,
        NfsError::NoSpace => NFS3ERR_NOSPC,
        NfsError::Rofs => NFS3ERR_ROFS,
    }
}

pub open spec fn ftype_of(kind: Kind) -> u32 {
    match kind {
        Kind::Reg => NF3REG,
        Kind::Dir => NF3DIR,
        Kind::Symlink => NF3LNK,
        Kind::Blk => NF3BLK,
        Kind::Chr => NF3CHR,
        Kind::Sock => NF3SOCK,
        Kind::Fifo => NF3FIFO,
    }
}

fn ftype3(kind: Kind) -> (t: u32)
    ensures
        t == ftype_of(kind),
{
    match kind {
        Kind::Reg => NF3REG,
        Kind::Dir => NF3DIR,
        Kind::Symlink => NF3LNK,
        Kind::Blk => NF3BLK,
        Kind::Chr => NF3CHR,
        Kind::Sock => NF3SOCK,
        Kind::Fifo => NF3FIFO,
    }
}

// ---- requests ----------------------------------------------------------------------------------

/// A decoded call. A call whose handle is refused is [`Req3::Stale`] whatever its procedure.
#[allow(inconsistent_fields)]
#[derive(Debug)]
pub enum Req3<B = Vec<u8>> {
    Null,
    Stale,
    Getattr { node: NodeKey },
    Lookup { dir: NodeKey, name: B },
    /// LOOKUP with an unreadable or overlong name.
    LookupLong { dir: NodeKey },
    Access { node: NodeKey, requested: u32 },
    Readlink { node: NodeKey },
    Read { node: NodeKey, offset: u64, count: u32 },
    Readdir { dir: NodeKey, cookie: u64, maxcount: u32, plus: bool },
    Fsstat,
    Fsinfo,
    Pathconf,
    Setattr { node: NodeKey, set: SetAttr },
    Write { node: NodeKey, offset: u64, data: B, sync: bool },
    Create { dir: NodeKey, name: B, kind: CreateKind<B>, mode: u16 },
    /// CREATE, MKDIR, SYMLINK, REMOVE or RMDIR with an unreadable or overlong name.
    ChangeLong { dir: NodeKey },
    Remove { dir: NodeKey, name: B, is_dir: bool },
    Rename { from_dir: NodeKey, from_name: B, to_dir: NodeKey, to_name: B },
    /// RENAME with an unreadable or overlong name.
    RenameLong { from_dir: NodeKey, to_dir: NodeKey },
    Commit { node: NodeKey, offset: u64, count: u32 },
    Mknod { dir: Option<NodeKey> },
    Link { file: Option<NodeKey>, dir: Option<NodeKey> },
    Unsupported,
}

impl Req3<Vec<u8>> {
    pub open spec fn view(&self) -> Req3<Seq<u8>> {
        match self {
            Req3::Null => Req3::Null,
            Req3::Stale => Req3::Stale,
            Req3::Getattr { node } => Req3::Getattr { node: *node },
            Req3::Lookup { dir, name } => Req3::Lookup { dir: *dir, name: name@ },
            Req3::LookupLong { dir } => Req3::LookupLong { dir: *dir },
            Req3::Access { node, requested } => Req3::Access { node: *node, requested: *requested },
            Req3::Readlink { node } => Req3::Readlink { node: *node },
            Req3::Read { node, offset, count } => Req3::Read {
                node: *node,
                offset: *offset,
                count: *count,
            },
            Req3::Readdir { dir, cookie, maxcount, plus } => Req3::Readdir {
                dir: *dir,
                cookie: *cookie,
                maxcount: *maxcount,
                plus: *plus,
            },
            Req3::Fsstat => Req3::Fsstat,
            Req3::Fsinfo => Req3::Fsinfo,
            Req3::Pathconf => Req3::Pathconf,
            Req3::Setattr { node, set } => Req3::Setattr { node: *node, set: *set },
            Req3::Write { node, offset, data, sync } => Req3::Write {
                node: *node,
                offset: *offset,
                data: data@,
                sync: *sync,
            },
            Req3::Create { dir, name, kind, mode } => Req3::Create {
                dir: *dir,
                name: name@,
                kind: kind@,
                mode: *mode,
            },
            Req3::ChangeLong { dir } => Req3::ChangeLong { dir: *dir },
            Req3::Remove { dir, name, is_dir } => Req3::Remove {
                dir: *dir,
                name: name@,
                is_dir: *is_dir,
            },
            Req3::Rename { from_dir, from_name, to_dir, to_name } => Req3::Rename {
                from_dir: *from_dir,
                from_name: from_name@,
                to_dir: *to_dir,
                to_name: to_name@,
            },
            Req3::RenameLong { from_dir, to_dir } => Req3::RenameLong {
                from_dir: *from_dir,
                to_dir: *to_dir,
            },
            Req3::Commit { node, offset, count } => Req3::Commit {
                node: *node,
                offset: *offset,
                count: *count,
            },
            Req3::Mknod { dir } => Req3::Mknod { dir: *dir },
            Req3::Link { file, dir } => Req3::Link { file: *file, dir: *dir },
            Req3::Unsupported => Req3::Unsupported,
        }
    }
}

/// A number, or `d` where the bytes run out; a failed read consumes nothing.
pub open spec fn u32_or(s: Seq<u8>, d: u32) -> (u32, Seq<u8>) {
    match get_u32(s) {
        (Some(v), rest) => (v, rest),
        (None, rest) => (d, rest),
    }
}

pub open spec fn u64_or(s: Seq<u8>, d: u64) -> (u64, Seq<u8>) {
    match get_u64(s) {
        (Some(v), rest) => (v, rest),
        (None, rest) => (d, rest),
    }
}

pub open spec fn flag_or_false(s: Seq<u8>) -> (bool, Seq<u8>) {
    match get_bool(s) {
        (Some(v), rest) => (v, rest),
        (None, rest) => (false, rest),
    }
}

fn read_u32_or(r: &mut XdrReader<'_>, d: u32) -> (v: u32)
    ensures
        (v, final(r)@) == u32_or(old(r)@, d),
{
    match r.u32() {
        Ok(v) => v,
        Err(_) => d,
    }
}

fn read_u64_or(r: &mut XdrReader<'_>, d: u64) -> (v: u64)
    ensures
        (v, final(r)@) == u64_or(old(r)@, d),
{
    match r.u64() {
        Ok(v) => v,
        Err(_) => d,
    }
}

fn read_flag(r: &mut XdrReader<'_>) -> (v: bool)
    ensures
        (v, final(r)@) == flag_or_false(old(r)@),
{
    match r.bool() {
        Ok(v) => v,
        Err(_) => false,
    }
}

/// A handle of at most 64 bytes and the node that it gives access to.
pub open spec fn fh_of(s: Seq<u8>, key: Seq<u8>) -> (Option<NodeKey>, Seq<u8>) {
    match get_opaque(s, 64) {
        (Some(fh), rest) => match handle_target(key, fh) {
            Some((_, node)) => (Some(node), rest),
            None => (None, rest),
        },
        (None, rest) => (None, rest),
    }
}

fn read_fh(r: &mut XdrReader<'_>, codec: &HandleCodec) -> (res: Option<NodeKey>)
    ensures
        (res, final(r)@) == fh_of(old(r)@, codec.key()),
{
    match r.opaque(64) {
        Ok(fh) => match codec.decode(fh) {
            Some((_, node)) => Some(node),
            None => None,
        },
        Err(_) => None,
    }
}

/// A file name of at most [`NAME_MAX`] bytes.
pub open spec fn name_of(s: Seq<u8>) -> (Option<Seq<u8>>, Seq<u8>) {
    match get_opaque(s, 4096) {
        (Some(n), rest) => if n.len() > NAME_MAX {
            (None, rest)
        } else {
            (Some(n), rest)
        },
        (None, rest) => (None, rest),
    }
}

/// Read a file name: a longer one than [`NAME_MAX`] gets a proper reply instead of a wire-parse
/// failure.
fn read_name(args: &mut XdrReader<'_>) -> (res: Result<Vec<u8>, ()>)
    ensures
        match res {
            Ok(n) => name_of(old(args)@) == (Some(n@), final(args)@),
            Err(_) => name_of(old(args)@) == (None::<Seq<u8>>, final(args)@),
        },
{
    match args.opaque(4096) {
        Ok(n) => {
            if n.len() > NAME_MAX {
                return Err(());
            }
            Ok(crate::bytes::to_vec(n))
        },
        Err(_) => Err(()),
    }
}

/// An optional number of sattr3: a flag, and the number if the flag is set.
pub open spec fn set_u32(s: Seq<u8>) -> (Option<u32>, Seq<u8>) {
    match flag_or_false(s) {
        (true, s1) => get_u32(s1),
        (false, s1) => (None, s1),
    }
}

pub open spec fn set_u64(s: Seq<u8>) -> (Option<u64>, Seq<u8>) {
    match flag_or_false(s) {
        (true, s1) => get_u64(s1),
        (false, s1) => (None, s1),
    }
}

/// The attributes that an sattr3 changes. Only a client-given modification time is taken; an
/// access time is skipped. The mode keeps its low 16 bits.
pub open spec fn sattr_of(s: Seq<u8>) -> (SetAttr, Seq<u8>) {
    let (mode, s1) = set_u32(s);
    let (uid, s2) = set_u32(s1);
    let (gid, s3) = set_u32(s2);
    let (size, s4) = set_u64(s3);
    let (atime_how, s5) = u32_or(s4, 0);
    let s6 = if atime_how == 2 {
        get_fixed(s5, 8).1
    } else {
        s5
    };
    let (mtime_how, s7) = u32_or(s6, 0);
    let (sec, s8) = u32_or(s7, 0);
    let (nsec, s9) = u32_or(s8, 0);
    let mode16 = match mode {
        Some(m) => Some(m as u16),
        None => None,
    };
    if mtime_how == 2 {
        (SetAttr { mode: mode16, uid, gid, size, mtime: Some(Ts { sec: sec as i64, nsec }) }, s9)
    } else {
        (SetAttr { mode: mode16, uid, gid, size, mtime: None }, s7)
    }
}

fn read_set_u32(r: &mut XdrReader<'_>) -> (v: Option<u32>)
    ensures
        (v, final(r)@) == set_u32(old(r)@),
{
    if read_flag(r) {
        match r.u32() {
            Ok(v) => Some(v),
            Err(_) => None,
        }
    } else {
        None
    }
}

fn read_set_u64(r: &mut XdrReader<'_>) -> (v: Option<u64>)
    ensures
        (v, final(r)@) == set_u64(old(r)@),
{
    if read_flag(r) {
        match r.u64() {
            Ok(v) => Some(v),
            Err(_) => None,
        }
    } else {
        None
    }
}

fn parse_sattr3(r: &mut XdrReader<'_>) -> (set: SetAttr)
    ensures
        (set, final(r)@) == sattr_of(old(r)@),
{
    let mode: Option<u16> = match read_set_u32(r) {
        Some(m) => Some(#[verifier::truncate] (m as u16)),
        None => None,
    };
    let uid: Option<u32> = read_set_u32(r);
    let gid: Option<u32> = read_set_u32(r);
    let size: Option<u64> = read_set_u64(r);
    if read_u32_or(r, 0) == 2 {
        let _atime = r.fixed(8);
    }
    let mut mtime: Option<Ts> = None;
    if read_u32_or(r, 0) == 2 {
        let sec: u32 = read_u32_or(r, 0);
        let nsec: u32 = read_u32_or(r, 0);
        mtime = Some(Ts { sec: sec as i64, nsec });
    }
    SetAttr { mode, uid, gid, size, mtime }
}

/// The kind and mode of a CREATE: unchecked or guarded with attributes, or exclusive with a
/// verifier. Guarded and exclusive both refuse an existing file.
pub open spec fn create_of(s: Seq<u8>, dir: NodeKey, name: Seq<u8>) -> Req3<Seq<u8>> {
    let (how, s1) = u32_or(s, 0);
    let set = if how == 2 {
        no_change()
    } else {
        sattr_of(s1).0
    };
    Req3::Create {
        dir,
        name,
        kind: CreateKind::File { exclusive: how != 0 },
        mode: match set.mode {
            Some(m) => m,
            None => 0o644,
        },
    }
}

pub open spec fn mkdir_of(s: Seq<u8>, dir: NodeKey, name: Seq<u8>) -> Req3<Seq<u8>> {
    Req3::Create {
        dir,
        name,
        kind: CreateKind::Dir,
        mode: match sattr_of(s).0.mode {
            Some(m) => m,
            None => 0o755,
        },
    }
}

/// The target of a SYMLINK follows its attributes; an unreadable one is empty.
pub open spec fn symlink_of(s: Seq<u8>, dir: NodeKey, name: Seq<u8>) -> Req3<Seq<u8>> {
    Req3::Create {
        dir,
        name,
        kind: CreateKind::Symlink {
            target: match get_opaque(sattr_of(s).1, 4096).0 {
                Some(t) => t,
                None => Seq::empty(),
            },
        },
        mode: 0o777,
    }
}

pub open spec fn write_of(s: Seq<u8>, node: NodeKey) -> Req3<Seq<u8>> {
    let (offset, s1) = u64_or(s, 0);
    let (count, s2) = u32_or(s1, 0);
    let (stable, s3) = u32_or(s2, 0);
    Req3::Write {
        node,
        offset,
        data: match get_opaque(s3, MAX_READ as nat).0 {
            Some(d) => d,
            None => Seq::empty(),
        },
        sync: stable != 0,
    }
}

pub open spec fn readdir_of(s: Seq<u8>, dir: NodeKey, plus: bool) -> Req3<Seq<u8>> {
    let (cookie, s1) = u64_or(s, 0);
    let s2 = get_fixed(s1, 8).1;
    let (first, s3) = u32_or(s2, 8192);
    Req3::Readdir {
        dir,
        cookie,
        maxcount: if plus {
            u32_or(s3, 32768).0
        } else {
            first
        },
        plus,
    }
}

pub open spec fn rename_of(s: Seq<u8>, from_dir: NodeKey, key: Seq<u8>) -> Req3<Seq<u8>> {
    let (from_name, s1) = name_of(s);
    let (to_dir, s2) = fh_of(s1, key);
    let (to_name, s3) = name_of(s2);
    match to_dir {
        None => Req3::Stale,
        Some(to_dir) => if from_name is None || to_name is None {
            Req3::RenameLong { from_dir, to_dir }
        } else {
            Req3::Rename { from_dir, from_name: from_name->0, to_dir, to_name: to_name->0 }
        },
    }
}

/// The request that a procedure number and its arguments make.
pub open spec fn req_of(proc: u32, s: Seq<u8>, key: Seq<u8>) -> Req3<Seq<u8>> {
    let (fh, s1) = fh_of(s, key);
    let (name, s2) = name_of(s1);
    if proc == PROC_NULL {
        Req3::Null
    } else if proc == PROC_FSSTAT {
        Req3::Fsstat
    } else if proc == PROC_FSINFO {
        Req3::Fsinfo
    } else if proc == PROC_PATHCONF {
        Req3::Pathconf
    } else if proc == PROC_MKNOD {
        Req3::Mknod { dir: fh }
    } else if proc == PROC_LINK {
        Req3::Link { file: fh, dir: fh_of(s1, key).0 }
    } else if proc > PROC_COMMIT {
        Req3::Unsupported
    } else if fh is None {
        Req3::Stale
    } else {
        let node = fh->0;
        if proc == PROC_GETATTR {
            Req3::Getattr { node }
        } else if proc == PROC_LOOKUP {
            match name {
                Some(n) => Req3::Lookup { dir: node, name: n },
                None => Req3::LookupLong { dir: node },
            }
        } else if proc == PROC_ACCESS {
            Req3::Access { node, requested: u32_or(s1, 0).0 }
        } else if proc == PROC_READLINK {
            Req3::Readlink { node }
        } else if proc == PROC_READ {
            let (offset, r1) = u64_or(s1, 0);
            let count = u32_or(r1, 0).0;
            Req3::Read {
                node,
                offset,
                count: if count <= MAX_READ {
                    count
                } else {
                    MAX_READ
                },
            }
        } else if proc == PROC_READDIR {
            readdir_of(s1, node, false)
        } else if proc == PROC_READDIRPLUS {
            readdir_of(s1, node, true)
        } else if proc == PROC_SETATTR {
            Req3::Setattr { node, set: sattr_of(s1).0 }
        } else if proc == PROC_WRITE {
            write_of(s1, node)
        } else if proc == PROC_COMMIT {
            let (offset, r1) = u64_or(s1, 0);
            Req3::Commit { node, offset, count: u32_or(r1, 0).0 }
        } else if proc == PROC_RENAME {
            rename_of(s1, node, key)
        } else {
            match name {
                None => Req3::ChangeLong { dir: node },
                Some(n) => if proc == PROC_CREATE {
                    create_of(s2, node, n)
                } else if proc == PROC_MKDIR {
                    mkdir_of(s2, node, n)
                } else if proc == PROC_SYMLINK {
                    symlink_of(s2, node, n)
                } else {
                    Req3::Remove { dir: node, name: n, is_dir: proc == PROC_RMDIR }
                },
            }
        }
    }
}

fn decode_write(r: &mut XdrReader<'_>, node: NodeKey) -> (req: Req3)
    ensures
        req@ == write_of(old(r)@, node),
{
    let offset: u64 = read_u64_or(r, 0);
    let _count: u32 = read_u32_or(r, 0);
    let stable: u32 = read_u32_or(r, 0);
    let data = match r.opaque(MAX_READ as usize) {
        Ok(d) => crate::bytes::to_vec(d),
        Err(_) => Vec::new(),
    };
    Req3::Write { node, offset, data, sync: stable != 0 }
}

fn decode_readdir(r: &mut XdrReader<'_>, dir: NodeKey, plus: bool) -> (req: Req3)
    ensures
        req@ == readdir_of(old(r)@, dir, plus),
{
    let cookie: u64 = read_u64_or(r, 0);
    let _cookieverf = r.fixed(8);
    let first: u32 = read_u32_or(r, 8192);
    let maxcount: u32 = if plus {
        read_u32_or(r, 32768)
    } else {
        first
    };
    Req3::Readdir { dir, cookie, maxcount, plus }
}

fn decode_rename(r: &mut XdrReader<'_>, from_dir: NodeKey, codec: &HandleCodec) -> (req: Req3)
    ensures
        req@ == rename_of(old(r)@, from_dir, codec.key()),
{
    let from = read_name(r);
    let to_dir = match read_fh(r, codec) {
        Some(d) => d,
        None => {
            return Req3::Stale;
        },
    };
    let to = read_name(r);
    match (from, to) {
        (Ok(from_name), Ok(to_name)) => Req3::Rename { from_dir, from_name, to_dir, to_name },
        _ => Req3::RenameLong { from_dir, to_dir },
    }
}

/// CREATE, MKDIR, SYMLINK, REMOVE and RMDIR: a name under the directory, and what follows it.
fn decode_change(proc: u32, r: &mut XdrReader<'_>, dir: NodeKey) -> (req: Req3)
    ensures
        req@ == (match name_of(old(r)@) {
            (None, _) => Req3::ChangeLong { dir },
            (Some(n), s2) => if proc == PROC_CREATE {
                create_of(s2, dir, n)
            } else if proc == PROC_MKDIR {
                mkdir_of(s2, dir, n)
            } else if proc == PROC_SYMLINK {
                symlink_of(s2, dir, n)
            } else {
                Req3::Remove { dir, name: n, is_dir: proc == PROC_RMDIR }
            },
        }),
{
    let name = match read_name(r) {
        Ok(n) => n,
        Err(_) => {
            return Req3::ChangeLong { dir };
        },
    };
    if proc == PROC_CREATE {
        let how: u32 = read_u32_or(r, 0);
        let set = if how == 2 {
            SetAttr::default()
        } else {
            parse_sattr3(r)
        };
        let mode: u16 = match set.mode {
            Some(m) => m,
            None => 0o644,
        };
        Req3::Create { dir, name, kind: CreateKind::File { exclusive: how != 0 }, mode }
    } else if proc == PROC_MKDIR {
        let set = parse_sattr3(r);
        let mode: u16 = match set.mode {
            Some(m) => m,
            None => 0o755,
        };
        Req3::Create { dir, name, kind: CreateKind::Dir, mode }
    } else if proc == PROC_SYMLINK {
        let _set = parse_sattr3(r);
        let target = match r.opaque(4096) {
            Ok(t) => crate::bytes::to_vec(t),
            Err(_) => Vec::new(),
        };
        Req3::Create { dir, name, kind: CreateKind::Symlink { target }, mode: 0o777 }
    } else {
        Req3::Remove { dir, name, is_dir: proc == PROC_RMDIR }
    }
}

/// Decode the arguments of a procedure. There is always a request: what cannot be read has its
/// default, as each procedure's own reply has no room for a parse error.
pub fn decode(proc: u32, args: XdrReader<'_>, codec: &HandleCodec) -> (req: Req3)
    ensures
        req@ == req_of(proc, args@, codec.key()),
{
    let mut reader = args;
    let args = &mut reader;
    if proc == PROC_NULL {
        return Req3::Null;
    } else if proc == PROC_FSSTAT {
        return Req3::Fsstat;
    } else if proc == PROC_FSINFO {
        return Req3::Fsinfo;
    } else if proc == PROC_PATHCONF {
        return Req3::Pathconf;
    } else if proc == PROC_MKNOD {
        return Req3::Mknod { dir: read_fh(args, codec) };
    } else if proc == PROC_LINK {
        let file = read_fh(args, codec);
        let dir = read_fh(args, codec);
        return Req3::Link { file, dir };
    } else if proc > PROC_COMMIT {
        return Req3::Unsupported;
    }
    let node = match read_fh(args, codec) {
        Some(n) => n,
        None => {
            return Req3::Stale;
        },
    };
    if proc == PROC_GETATTR {
        Req3::Getattr { node }
    } else if proc == PROC_LOOKUP {
        match read_name(args) {
            Ok(name) => Req3::Lookup { dir: node, name },
            Err(_) => Req3::LookupLong { dir: node },
        }
    } else if proc == PROC_ACCESS {
        Req3::Access { node, requested: read_u32_or(args, 0) }
    } else if proc == PROC_READLINK {
        Req3::Readlink { node }
    } else if proc == PROC_READ {
        let offset: u64 = read_u64_or(args, 0);
        let count: u32 = read_u32_or(args, 0);
        Req3::Read {
            node,
            offset,
            count: if count <= MAX_READ {
                count
            } else {
                MAX_READ
            },
        }
    } else if proc == PROC_READDIR {
        decode_readdir(args, node, false)
    } else if proc == PROC_READDIRPLUS {
        decode_readdir(args, node, true)
    } else if proc == PROC_SETATTR {
        // The guard that may follow is not looked at.
        Req3::Setattr { node, set: parse_sattr3(args) }
    } else if proc == PROC_WRITE {
        decode_write(args, node)
    } else if proc == PROC_COMMIT {
        let offset: u64 = read_u64_or(args, 0);
        let count: u32 = read_u32_or(args, 0);
        Req3::Commit { node, offset, count }
    } else if proc == PROC_RENAME {
        decode_rename(args, node, codec)
    } else {
        decode_change(proc, args, node)
    }
}

// ---- replies -----------------------------------------------------------------------------------

/// Seconds (their low 32 bits) and nanoseconds.
pub open spec fn put_time(s: Seq<u8>, t: Ts) -> Seq<u8> {
    s.put_u32(t.sec as u32).put_u32(t.nsec)
}

/// The attributes of a node: the access time is its modification time, the device's halves are
/// major and minor, the space used is the blocks times 512 (modulo 2^64).
#[verifier::opaque]
pub open spec fn put_fattr3(s: Seq<u8>, share: u16, node: NodeKey, a: Attr) -> Seq<u8> {
    let s1 = s.put_u32(ftype_of(a.kind)).put_u32(a.mode as u32).put_u32(a.nlink).put_u32(
        a.uid,
    ).put_u32(a.gid).put_u64(a.size).put_u64((a.blocks * 512 % 0x1_0000_0000_0000_0000) as u64);
    let s2 = s1.put_u32((a.rdev >> 32) as u32).put_u32(a.rdev as u32).put_u64(
        share as u64,
    ).put_u64(node.ino);
    put_time(put_time(put_time(s2, a.mtime), a.mtime), a.ctime)
}

pub open spec fn put_post_op_attr(s: Seq<u8>, share: u16, node: NodeKey, a: Option<Attr>) -> Seq<
    u8,
> {
    match a {
        Some(a) => put_fattr3(s.put_bool(true), share, node, a),
        None => s.put_bool(false),
    }
}

/// The handle that a node gets.
pub open spec fn fh_bytes(key: Seq<u8>, share: u16, node: NodeKey) -> Seq<u8> {
    handle_bytes(share, 0, node, tag_of(key, share, 0, node))
}

pub open spec fn put_post_op_fh(s: Seq<u8>, key: Seq<u8>, share: u16, node: NodeKey) -> Seq<u8> {
    s.put_bool(true).put_opaque(fh_bytes(key, share, node))
}

/// Weak cache consistency data: attributes before the operation are left out.
pub open spec fn put_wcc(s: Seq<u8>, share: u16, node: NodeKey, post: Option<Attr>) -> Seq<u8> {
    put_post_op_attr(s.put_bool(false), share, node, post)
}

fn write_time(w: &mut XdrWriter, t: Ts)
    ensures
        final(w)@ == put_time(old(w)@, t),
{
    w.u32(#[verifier::truncate] (t.sec as u32));
    w.u32(t.nsec);
}

fn write_fattr3(w: &mut XdrWriter, share: u16, node: NodeKey, a: &Attr)
    ensures
        final(w)@ == put_fattr3(old(w)@, share, node, *a),
{
    proof {
        reveal(put_fattr3);
    }
    w.u32(ftype3(a.kind));
    w.u32(a.mode as u32);
    w.u32(a.nlink);
    w.u32(a.uid);
    w.u32(a.gid);
    w.u64(a.size);
    w.u64(a.blocks.wrapping_mul(512));
    w.u32(#[verifier::truncate] ((a.rdev >> 32) as u32));
    w.u32(#[verifier::truncate] (a.rdev as u32));
    w.u64(share as u64);
    w.u64(node.ino);
    write_time(w, a.mtime);
    write_time(w, a.mtime);
    write_time(w, a.ctime);
}

fn write_post_op_attr(w: &mut XdrWriter, share: u16, node: NodeKey, a: Option<Attr>)
    ensures
        final(w)@ == put_post_op_attr(old(w)@, share, node, a),
{
    match a {
        Some(a) => {
            w.bool(true);
            write_fattr3(w, share, node, &a);
        },
        None => w.bool(false),
    }
}

fn write_post_op_fh(w: &mut XdrWriter, codec: &HandleCodec, share: u16, node: NodeKey)
    ensures
        final(w)@ == put_post_op_fh(old(w)@, codec.key(), share, node),
{
    w.bool(true);
    w.opaque(codec.encode(share, node).as_slice());
}

fn write_wcc_data(w: &mut XdrWriter, share: u16, node: NodeKey, post: Option<Attr>)
    ensures
        final(w)@ == put_wcc(old(w)@, share, node, post),
{
    w.bool(false);
    write_post_op_attr(w, share, node, post);
}

/// The access bits granted: read by the owner's read bit, lookup on every directory, execute by
/// the owner's execute bit except on directories, and modify, extend and delete wherever the
/// tree is writable. The owner is the client's user, and the guest enforces the rest.
pub open spec fn access_granted(a: Attr, requested: u32, writable: bool) -> u32 {
    let read = if a.mode & 0o400 != 0 {
        1u32
    } else {
        0u32
    };
    let lookup = if a.kind == Kind::Dir {
        2u32
    } else {
        0u32
    };
    let modify = if writable {
        0x1cu32
    } else {
        0u32
    };
    let execute = if a.mode & 0o100 != 0 && a.kind != Kind::Dir {
        0x20u32
    } else {
        0u32
    };
    (read | lookup | modify | execute) & requested
}

pub fn access_bits(a: &Attr, requested: u32, writable: bool) -> (granted: u32)
    ensures
        granted == access_granted(*a, requested, writable),
{
    let read: u32 = if a.mode & 0o400 != 0 {
        1
    } else {
        0
    };
    let lookup: u32 = if a.kind == Kind::Dir {
        2
    } else {
        0
    };
    let modify: u32 = if writable {
        0x1c
    } else {
        0
    };
    let execute: u32 = if a.mode & 0o100 != 0 && a.kind != Kind::Dir {
        0x20
    } else {
        0
    };
    (read | lookup | modify | execute) & requested
}

/// What is asked or replied first: the `n`-th ask of a procedure that asks `asks` in turn
/// whatever the answers, then the reply.
pub open spec fn in_turn(asks: Seq<Ask<Seq<u8>>>, n: nat, reply: Seq<u8>) -> Move {
    if n < asks.len() {
        Move::Ask(asks[n as int])
    } else {
        Move::Done(reply)
    }
}

pub open spec fn getattr_reply(s: Seq<u8>, share: u16, node: NodeKey, r: NfsResult<Attr>) -> Seq<
    u8,
> {
    match r {
        Ok(a) => put_fattr3(s.put_u32(NFS3_OK), share, node, a),
        Err(e) => s.put_u32(stat_of(e)),
    }
}

pub open spec fn lookup_reply(
    s: Seq<u8>,
    share: u16,
    key: Seq<u8>,
    dir: NodeKey,
    dir_attr: Option<Attr>,
    r: NfsResult<(NodeKey, Attr)>,
) -> Seq<u8> {
    match r {
        Ok((node, a)) => put_post_op_attr(
            put_post_op_attr(
                s.put_u32(NFS3_OK).put_opaque(fh_bytes(key, share, node)),
                share,
                node,
                Some(a),
            ),
            share,
            dir,
            dir_attr,
        ),
        Err(e) => put_post_op_attr(s.put_u32(stat_of(e)), share, dir, dir_attr),
    }
}

pub open spec fn access_reply(
    s: Seq<u8>,
    share: u16,
    node: NodeKey,
    requested: u32,
    writable: bool,
    r: NfsResult<Attr>,
) -> Seq<u8> {
    match r {
        Ok(a) => put_post_op_attr(s.put_u32(NFS3_OK), share, node, Some(a)).put_u32(
            access_granted(a, requested, writable),
        ),
        Err(e) => s.put_u32(stat_of(e)).put_bool(false),
    }
}

pub open spec fn readlink_reply(
    s: Seq<u8>,
    share: u16,
    node: NodeKey,
    attr: Option<Attr>,
    r: NfsResult<Vec<u8>>,
) -> Seq<u8> {
    match r {
        Ok(target) => put_post_op_attr(s.put_u32(NFS3_OK), share, node, attr).put_opaque(target@),
        Err(e) => put_post_op_attr(s.put_u32(stat_of(e)), share, node, attr),
    }
}

/// READ asks first whether a local file can serve it. If so the reply's head announces the
/// range and the payload follows from the file.
pub open spec fn read_move(
    s: Seq<u8>,
    info: SurfaceInfo,
    node: NodeKey,
    offset: u64,
    count: u32,
    ans: Seq<Answer>,
) -> Move {
    if ans.len() == 0 {
        Move::Ask(Ask::ReadSendable { node, offset, count })
    } else if ans.len() == 1 {
        Move::Ask(Ask::Getattr(node))
    } else {
        let pre = attr_opt(ans[1]);
        match range_in(ans[0]) {
            Some(range) => Move::DoneFile(
                put_post_op_attr(s.put_u32(NFS3_OK), info.share, node, pre).put_u32(
                    range.len,
                ).put_bool(range.eof).put_u32(range.len),
                range,
            ),
            None => if ans.len() == 2 {
                Move::Ask(Ask::Read { node, offset, count })
            } else {
                match data_in(ans[2]) {
                    Ok(res) => Move::Done(
                        put_post_op_attr(s.put_u32(NFS3_OK), info.share, node, pre).put_u32(
                            res.data@.len() as u32,
                        ).put_bool(res.eof).put_opaque(res.data@),
                    ),
                    Err(e) => Move::Done(
                        put_post_op_attr(s.put_u32(stat_of(e)), info.share, node, pre),
                    ),
                }
            },
        }
    }
}

/// What one entry of a listing is taken to cost, its name aside.
pub open spec fn entry_cost(plus: bool) -> int {
    if plus {
        160
    } else {
        40
    }
}

/// How many entries to ask for so that the reply stays under `maxcount`.
pub open spec fn entries_wanted(maxcount: u32, plus: bool) -> int {
    let room = if maxcount >= 128 {
        maxcount - 128
    } else {
        0
    };
    let n = room / entry_cost(plus);
    if n < 1 {
        1
    } else if n > 4096 {
        4096
    } else {
        n
    }
}

pub open spec fn put_entry(s: Seq<u8>, share: u16, key: Seq<u8>, e: DirEntry, plus: bool) -> Seq<
    u8,
> {
    let s1 = s.put_bool(true).put_u64(e.node.ino).put_opaque(e.name@).put_u64(e.cookie);
    if plus {
        put_post_op_fh(put_post_op_attr(s1, share, e.node, e.attr), key, share, e.node)
    } else {
        s1
    }
}

/// The entries of a listing from the `i`-th on, up to the first that might not fit: the bytes,
/// and whether all of them went in.
pub open spec fn put_entries(
    s: Seq<u8>,
    share: u16,
    key: Seq<u8>,
    entries: Seq<DirEntry>,
    i: nat,
    plus: bool,
    budget: u32,
) -> (Seq<u8>, bool)
    decreases entries.len() - i,
{
    if i >= entries.len() {
        (s, true)
    } else if s.len() + entry_cost(plus) + entries[i as int].name@.len() > budget {
        (s, false)
    } else {
        put_entries(
            put_entry(s, share, key, entries[i as int], plus),
            share,
            key,
            entries,
            i + 1,
            plus,
            budget,
        )
    }
}

/// A listing ends with the last entry's mark and the end-of-directory flag, which is false if an
/// entry was left out.
pub open spec fn readdir_reply(
    s: Seq<u8>,
    share: u16,
    key: Seq<u8>,
    dir: NodeKey,
    dir_attr: Option<Attr>,
    maxcount: u32,
    plus: bool,
    r: NfsResult<ReadDirPage>,
) -> Seq<u8> {
    match r {
        Err(e) => put_post_op_attr(s.put_u32(stat_of(e)), share, dir, dir_attr),
        Ok(page) => {
            let head = put_post_op_attr(s.put_u32(NFS3_OK), share, dir, dir_attr).put_u64(
                page.cookieverf,
            );
            let (body, all) = put_entries(head, share, key, page.entries@, 0, plus, maxcount);
            body.put_bool(false).put_bool(all && page.eof)
        },
    }
}

#[verifier::opaque]
pub open spec fn fsstat_reply(s: Seq<u8>, info: SurfaceInfo) -> Seq<u8> {
    s.put_u32(NFS3_OK).put_bool(false).put_u64(info.fsstat.total_bytes).put_u64(
        info.fsstat.free_bytes,
    ).put_u64(info.fsstat.avail_bytes).put_u64(info.fsstat.total_files).put_u64(
        info.fsstat.free_files,
    ).put_u64(info.fsstat.free_files).put_u32(0)
}

#[verifier::opaque]
pub open spec fn fsinfo_reply(s: Seq<u8>) -> Seq<u8> {
    put_time(
        s.put_u32(NFS3_OK).put_bool(false).put_u32(MAX_READ).put_u32(MAX_READ).put_u32(
            4096,
        ).put_u32(MAX_WRITE).put_u32(MAX_WRITE).put_u32(4096).put_u32(MAX_READ).put_u64(u64::MAX),
        Ts { sec: 0, nsec: 1 },
    ).put_u32(FSF_PROPERTIES)
}

#[verifier::opaque]
pub open spec fn pathconf_reply(s: Seq<u8>) -> Seq<u8> {
    s.put_u32(NFS3_OK).put_bool(false).put_u32(32000).put_u32(255).put_bool(true).put_bool(
        false,
    ).put_bool(false).put_bool(true)
}

/// SETATTR and COMMIT: the operation's own attributes on success, freshly asked ones otherwise.
/// `verf` is what a successful COMMIT adds.
pub open spec fn object_move(
    s: Seq<u8>,
    share: u16,
    node: NodeKey,
    ask: Ask<Seq<u8>>,
    verf: Seq<u8>,
    ans: Seq<Answer>,
) -> Move {
    if ans.len() == 0 {
        Move::Ask(ask)
    } else {
        match attr_in(ans[0]) {
            Ok(a) => Move::Done(put_wcc(s.put_u32(NFS3_OK), share, node, Some(a)).put_fixed(verf)),
            Err(e) => if ans.len() == 1 {
                Move::Ask(Ask::Getattr(node))
            } else {
                Move::Done(put_wcc(s.put_u32(stat_of(e)), share, node, attr_opt(ans[1])))
            },
        }
    }
}

/// A write is reported as stable if it was asked to be or the tree says that every write is.
pub open spec fn write_reply(
    s: Seq<u8>,
    info: SurfaceInfo,
    node: NodeKey,
    len: nat,
    sync: bool,
    pre: Option<Attr>,
    r: NfsResult<Attr>,
) -> Seq<u8> {
    match r {
        Ok(a) => put_wcc(s.put_u32(NFS3_OK), info.share, node, Some(a)).put_u32(
            len as u32,
        ).put_u32(
            if sync || info.stable_writes {
                2
            } else {
                0
            },
        ).put_fixed(write_verf()),
        Err(e) => put_wcc(s.put_u32(stat_of(e)), info.share, node, pre),
    }
}

pub open spec fn create_reply_of(
    s: Seq<u8>,
    share: u16,
    key: Seq<u8>,
    dir: NodeKey,
    r: NfsResult<(NodeKey, Attr)>,
    post: Option<Attr>,
) -> Seq<u8> {
    match r {
        Ok((node, a)) => put_wcc(
            put_post_op_attr(
                put_post_op_fh(s.put_u32(NFS3_OK), key, share, node),
                share,
                node,
                Some(a),
            ),
            share,
            dir,
            post,
        ),
        Err(e) => put_wcc(s.put_u32(stat_of(e)), share, dir, post),
    }
}

pub open spec fn status_of_done(r: NfsResult<()>) -> u32 {
    match r {
        Ok(_) => NFS3_OK,
        Err(e) => stat_of(e),
    }
}

pub open spec fn empty_wcc(s: Seq<u8>) -> Seq<u8> {
    s.put_bool(false).put_bool(false)
}

/// LINK is not supported; its reply carries what attributes the handles give.
pub open spec fn link_move(
    s: Seq<u8>,
    share: u16,
    file: Option<NodeKey>,
    dir: Option<NodeKey>,
    ans: Seq<Answer>,
) -> Move {
    let s0 = s.put_u32(NFS3ERR_NOTSUPP);
    match (file, dir) {
        (Some(n), Some(d)) => in_turn(
            seq![Ask::Getattr(n), Ask::Getattr(d)],
            ans.len(),
            put_wcc(put_post_op_attr(s0, share, n, attr_opt(ans[0])), share, d, attr_opt(ans[1])),
        ),
        (Some(n), None) => in_turn(
            seq![Ask::Getattr(n)],
            ans.len(),
            empty_wcc(put_post_op_attr(s0, share, n, attr_opt(ans[0]))),
        ),
        (None, Some(d)) => in_turn(
            seq![Ask::Getattr(d)],
            ans.len(),
            put_wcc(s0.put_bool(false), share, d, attr_opt(ans[0])),
        ),
        (None, None) => Move::Done(empty_wcc(s0.put_bool(false))),
    }
}

/// A change is refused with a status: the reply carries the attributes of the node that it was
/// about.
pub open spec fn refused_move(
    s: Seq<u8>,
    share: u16,
    status: u32,
    node: NodeKey,
    ans: Seq<Answer>,
) -> Move {
    in_turn(
        seq![Ask::Getattr(node)],
        ans.len(),
        put_wcc(s.put_u32(status), share, node, attr_opt(ans[0])),
    )
}

/// A rename is refused with a status: the reply carries the attributes of both directories.
pub open spec fn refused_rename(
    s: Seq<u8>,
    share: u16,
    status: u32,
    from_dir: NodeKey,
    to_dir: NodeKey,
    ans: Seq<Answer>,
) -> Move {
    in_turn(
        seq![Ask::Getattr(from_dir), Ask::Getattr(to_dir)],
        ans.len(),
        put_wcc(
            put_wcc(s.put_u32(status), share, from_dir, attr_opt(ans[0])),
            share,
            to_dir,
            attr_opt(ans[1]),
        ),
    )
}

/// A request that changes the tree.
pub open spec fn changes(req: Req3<Seq<u8>>) -> bool {
    req is Setattr || req is Write || req is Create || req is Remove || req is Rename
}

/// A request that changes the tree, over a tree that takes no changes.
pub open spec fn rofs_move(req: Req3<Seq<u8>>, share: u16, ans: Seq<Answer>, s: Seq<u8>) -> Move {
    match req {
        Req3::Setattr { node, .. } => refused_move(s, share, NFS3ERR_ROFS, node, ans),
        Req3::Write { node, .. } => refused_move(s, share, NFS3ERR_ROFS, node, ans),
        Req3::Create { dir, .. } => refused_move(s, share, NFS3ERR_ROFS, dir, ans),
        Req3::Remove { dir, .. } => refused_move(s, share, NFS3ERR_ROFS, dir, ans),
        Req3::Rename { from_dir, to_dir, .. } => refused_rename(
            s,
            share,
            NFS3ERR_ROFS,
            from_dir,
            to_dir,
            ans,
        ),
        _ => Move::Done(s),
    }
}

/// The next move of a request: `s` is the reply's header, `ans` what the tree answered so far. A
/// tree that is not writable is asked for no change.
pub open spec fn move_of(
    req: Req3<Seq<u8>>,
    info: SurfaceInfo,
    key: Seq<u8>,
    ans: Seq<Answer>,
    s: Seq<u8>,
) -> Move {
    if !info.writable && changes(req) {
        rofs_move(req, info.share, ans, s)
    } else {
        open_move(req, info, key, ans, s)
    }
}

/// The next move of a request that the tree may be asked for.
pub open spec fn open_move(
    req: Req3<Seq<u8>>,
    info: SurfaceInfo,
    key: Seq<u8>,
    ans: Seq<Answer>,
    s: Seq<u8>,
) -> Move {
    let share = info.share;
    match req {
        Req3::Null => Move::Done(s),
        Req3::Stale => Move::Done(s.put_u32(NFS3ERR_STALE)),
        Req3::Unsupported => Move::Done(s.put_u32(NFS3ERR_NOTSUPP)),
        Req3::Fsstat => Move::Done(fsstat_reply(s, info)),
        Req3::Fsinfo => Move::Done(fsinfo_reply(s)),
        Req3::Pathconf => Move::Done(pathconf_reply(s)),
        Req3::Getattr { node } => in_turn(
            seq![Ask::Getattr(node)],
            ans.len(),
            getattr_reply(s, share, node, attr_in(ans[0])),
        ),
        Req3::Lookup { dir, name } => in_turn(
            seq![Ask::Getattr(dir), Ask::Lookup { dir, name }],
            ans.len(),
            lookup_reply(s, share, key, dir, attr_opt(ans[0]), entry_in(ans[1])),
        ),
        Req3::LookupLong { dir } => in_turn(
            seq![Ask::Getattr(dir)],
            ans.len(),
            put_post_op_attr(s.put_u32(NFS3ERR_NAMETOOLONG), share, dir, attr_opt(ans[0])),
        ),
        Req3::Access { node, requested } => in_turn(
            seq![Ask::Getattr(node)],
            ans.len(),
            access_reply(s, share, node, requested, info.writable, attr_in(ans[0])),
        ),
        Req3::Readlink { node } => in_turn(
            seq![Ask::Getattr(node), Ask::Readlink(node)],
            ans.len(),
            readlink_reply(s, share, node, attr_opt(ans[0]), target_in(ans[1])),
        ),
        Req3::Read { node, offset, count } => read_move(s, info, node, offset, count, ans),
        Req3::Readdir { dir, cookie, maxcount, plus } => in_turn(
            seq![
                Ask::Getattr(dir),
                Ask::Readdir {
                    dir,
                    cookie,
                    max_entries: entries_wanted(maxcount, plus) as usize,
                    want_attrs: plus,
                },
            ],
            ans.len(),
            readdir_reply(
                s,
                share,
                key,
                dir,
                attr_opt(ans[0]),
                maxcount,
                plus,
                page_in(ans[1]),
            ),
        ),
        Req3::Setattr { node, set } => object_move(
            s,
            share,
            node,
            Ask::Setattr { node, set },
            Seq::empty(),
            ans,
        ),
        Req3::Commit { node, offset, count } => object_move(
            s,
            share,
            node,
            Ask::Commit { node, off: offset, len: count as u64 },
            write_verf(),
            ans,
        ),
        Req3::Write { node, offset, data, sync } => in_turn(
            seq![Ask::Getattr(node), Ask::Write { node, offset, data, sync }],
            ans.len(),
            write_reply(s, info, node, data.len(), sync, attr_opt(ans[0]), attr_in(ans[1])),
        ),
        Req3::Create { dir, name, kind, mode } => in_turn(
            seq![Ask::Create { dir, name, kind, mode }, Ask::Getattr(dir)],
            ans.len(),
            create_reply_of(s, share, key, dir, entry_in(ans[0]), attr_opt(ans[1])),
        ),
        Req3::ChangeLong { dir } => refused_move(s, share, NFS3ERR_NAMETOOLONG, dir, ans),
        Req3::Remove { dir, name, is_dir } => in_turn(
            seq![Ask::Remove { dir, name, is_dir }, Ask::Getattr(dir)],
            ans.len(),
            put_wcc(s.put_u32(status_of_done(done_in(ans[0]))), share, dir, attr_opt(ans[1])),
        ),
        Req3::Rename { from_dir, from_name, to_dir, to_name } => in_turn(
            seq![
                Ask::Rename { from_dir, from_name, to_dir, to_name },
                Ask::Getattr(from_dir),
                Ask::Getattr(to_dir),
            ],
            ans.len(),
            put_wcc(
                put_wcc(
                    s.put_u32(status_of_done(done_in(ans[0]))),
                    share,
                    from_dir,
                    attr_opt(ans[1]),
                ),
                share,
                to_dir,
                attr_opt(ans[2]),
            ),
        ),
        Req3::RenameLong { from_dir, to_dir } => refused_rename(
            s,
            share,
            NFS3ERR_NAMETOOLONG,
            from_dir,
            to_dir,
            ans,
        ),
        Req3::Mknod { dir } => match dir {
            Some(d) => in_turn(
                seq![Ask::Getattr(d)],
                ans.len(),
                put_wcc(s.put_u32(NFS3ERR_NOTSUPP), share, d, attr_opt(ans[0])),
            ),
            None => Move::Done(empty_wcc(s.put_u32(NFS3ERR_NOTSUPP))),
        },
        Req3::Link { file, dir } => link_move(s, share, file, dir, ans),
    }
}

fn write_verifier(w: &mut XdrWriter)
    ensures
        final(w)@ == old(w)@.put_fixed(write_verf()),
{
    let verf: [u8; 8] = [77, 73, 83, 84, 45, 119, 118, 49];
    proof {
        assert(verf@ =~= write_verf());
    }
    w.fixed(verf.as_slice());
}

fn step_read(
    node: NodeKey,
    offset: u64,
    count: u32,
    info: &SurfaceInfo,
    ans: &Vec<Answer>,
    w: &mut XdrWriter,
) -> (turn: Turn)
    ensures
        did(read_move(old(w)@, *info, node, offset, count, ans@), turn, old(w)@, final(w)@),
{
    if ans.len() == 0 {
        return Turn::Ask(Ask::ReadSendable { node, offset, count });
    }
    if ans.len() == 1 {
        return Turn::Ask(Ask::Getattr(node));
    }
    let pre = ans[1].attr_opt();
    if let Some(range) = ans[0].range() {
        w.u32(NFS3_OK);
        write_post_op_attr(w, info.share, node, pre);
        w.u32(range.len);
        w.bool(range.eof);
        w.u32(range.len);
        return Turn::DoneFile(range);
    }
    if ans.len() == 2 {
        return Turn::Ask(Ask::Read { node, offset, count });
    }
    match ans[2].data() {
        Ok(res) => {
            w.u32(NFS3_OK);
            write_post_op_attr(w, info.share, node, pre);
            w.u32(#[verifier::truncate] (res.data.len() as u32));
            w.bool(res.eof);
            w.opaque(res.data.as_slice());
        },
        Err(e) => {
            w.u32(nfsstat_of(e));
            write_post_op_attr(w, info.share, node, pre);
        },
    }
    Turn::Done
}

fn write_entry(w: &mut XdrWriter, share: u16, codec: &HandleCodec, e: &DirEntry, plus: bool)
    ensures
        final(w)@ == put_entry(old(w)@, share, codec.key(), *e, plus),
{
    w.bool(true);
    w.u64(e.node.ino);
    w.opaque(e.name.as_slice());
    w.u64(e.cookie);
    if plus {
        write_post_op_attr(w, share, e.node, e.attr);
        write_post_op_fh(w, codec, share, e.node);
    }
}

/// The reply to READDIR and READDIRPLUS: the page's entries as far as they fit under `maxcount`.
fn write_readdir(
    w: &mut XdrWriter,
    share: u16,
    codec: &HandleCodec,
    dir: NodeKey,
    dir_attr: Option<Attr>,
    maxcount: u32,
    plus: bool,
    page: &ReadDirPage,
)
    ensures
        final(w)@ == readdir_reply(
            old(w)@,
            share,
            codec.key(),
            dir,
            dir_attr,
            maxcount,
            plus,
            Ok(*page),
        ),
{
    w.u32(NFS3_OK);
    write_post_op_attr(w, share, dir, dir_attr);
    w.u64(page.cookieverf);
    let ghost head = w@;
    let ghost whole = put_entries(head, share, codec.key(), page.entries@, 0, plus, maxcount);
    let cost: u128 = if plus {
        160
    } else {
        40
    };
    let mut all = true;
    let mut i: usize = 0;
    while i < page.entries.len()
        invariant_except_break
            i <= page.entries@.len(),
            cost == entry_cost(plus),
            all,
            whole == put_entries(w@, share, codec.key(), page.entries@, i as nat, plus, maxcount),
        ensures
            whole == (w@, all),
        decreases page.entries@.len() - i,
    {
        let e = &page.entries[i];
        if w.len() as u128 + cost + e.name.len() as u128 > maxcount as u128 {
            all = false;
            break;
        }
        write_entry(w, share, codec, e, plus);
        i = i + 1;
    }
    w.bool(false);
    w.bool(all && page.eof);
}

fn want_entries(maxcount: u32, plus: bool) -> (n: usize)
    ensures
        n == entries_wanted(maxcount, plus),
{
    let room: u32 = if maxcount >= 128 {
        maxcount - 128
    } else {
        0
    };
    let n: u32 = if plus {
        room / 160
    } else {
        room / 40
    };
    if n < 1 {
        1
    } else if n > 4096 {
        4096
    } else {
        n as usize
    }
}

fn step_readdir(
    dir: NodeKey,
    cookie: u64,
    maxcount: u32,
    plus: bool,
    info: &SurfaceInfo,
    codec: &HandleCodec,
    ans: &Vec<Answer>,
    w: &mut XdrWriter,
) -> (turn: Turn)
    ensures
        did(
            open_move(
                Req3::Readdir { dir, cookie, maxcount, plus },
                *info,
                codec.key(),
                ans@,
                old(w)@,
            ),
            turn,
            old(w)@,
            final(w)@,
        ),
{
    if ans.len() == 0 {
        return Turn::Ask(Ask::Getattr(dir));
    }
    if ans.len() == 1 {
        let max_entries: usize = want_entries(maxcount, plus);
        return Turn::Ask(Ask::Readdir { dir, cookie, max_entries, want_attrs: plus });
    }
    let dir_attr = ans[0].attr_opt();
    match ans[1].page() {
        Ok(page) => {
            write_readdir(w, info.share, codec, dir, dir_attr, maxcount, plus, page);
        },
        Err(e) => {
            w.u32(nfsstat_of(e));
            write_post_op_attr(w, info.share, dir, dir_attr);
        },
    }
    Turn::Done
}

/// SETATTR (`commit` unset) and COMMIT.
fn step_object(
    node: NodeKey,
    ask: Ask,
    commit: bool,
    share: u16,
    ans: &Vec<Answer>,
    w: &mut XdrWriter,
) -> (turn: Turn)
    ensures
        did(
            object_move(
                old(w)@,
                share,
                node,
                ask@,
                if commit {
                    write_verf()
                } else {
                    Seq::empty()
                },
                ans@,
            ),
            turn,
            old(w)@,
            final(w)@,
        ),
{
    if ans.len() == 0 {
        return Turn::Ask(ask);
    }
    match ans[0].attr() {
        Ok(a) => {
            w.u32(NFS3_OK);
            write_wcc_data(w, share, node, Some(a));
            if commit {
                write_verifier(w);
            } else {
                proof {
                    assert(w@ =~= w@.put_fixed(Seq::empty()));
                }
            }
        },
        Err(e) => {
            if ans.len() == 1 {
                return Turn::Ask(Ask::Getattr(node));
            }
            w.u32(nfsstat_of(e));
            write_wcc_data(w, share, node, ans[1].attr_opt());
        },
    }
    Turn::Done
}

fn step_create(
    dir: NodeKey,
    name: &Vec<u8>,
    kind: &CreateKind,
    mode: u16,
    info: &SurfaceInfo,
    codec: &HandleCodec,
    ans: &Vec<Answer>,
    w: &mut XdrWriter,
) -> (turn: Turn)
    ensures
        did(
            open_move(
                Req3::Create { dir, name: name@, kind: kind@, mode },
                *info,
                codec.key(),
                ans@,
                old(w)@,
            ),
            turn,
            old(w)@,
            final(w)@,
        ),
{
    if ans.len() == 0 {
        return Turn::Ask(Ask::Create { dir, name: name.clone(), kind: kind.copy(), mode });
    }
    if ans.len() == 1 {
        return Turn::Ask(Ask::Getattr(dir));
    }
    let post = ans[1].attr_opt();
    match ans[0].entry() {
        Ok((node, attr)) => {
            w.u32(NFS3_OK);
            write_post_op_fh(w, codec, info.share, node);
            write_post_op_attr(w, info.share, node, Some(attr));
            write_wcc_data(w, info.share, dir, post);
        },
        Err(e) => {
            w.u32(nfsstat_of(e));
            write_wcc_data(w, info.share, dir, post);
        },
    }
    Turn::Done
}

fn done_status(a: &Answer) -> (st: u32)
    ensures
        st == status_of_done(done_in(*a)),
{
    match a.done() {
        Ok(()) => NFS3_OK,
        Err(e) => nfsstat_of(e),
    }
}

fn step_link(
    file: Option<NodeKey>,
    dir: Option<NodeKey>,
    share: u16,
    ans: &Vec<Answer>,
    w: &mut XdrWriter,
) -> (turn: Turn)
    ensures
        did(link_move(old(w)@, share, file, dir, ans@), turn, old(w)@, final(w)@),
{
    let mut used: usize = 0;
    if let Some(n) = file {
        if ans.len() == 0 {
            return Turn::Ask(Ask::Getattr(n));
        }
        used = 1;
    }
    if let Some(d) = dir {
        if ans.len() == used {
            return Turn::Ask(Ask::Getattr(d));
        }
    }
    w.u32(NFS3ERR_NOTSUPP);
    match file {
        Some(n) => write_post_op_attr(w, share, n, ans[0].attr_opt()),
        None => w.bool(false),
    }
    match dir {
        Some(d) => write_wcc_data(w, share, d, ans[used].attr_opt()),
        None => {
            w.bool(false);
            w.bool(false);
        },
    }
    Turn::Done
}

fn write_fsstat(w: &mut XdrWriter, info: &SurfaceInfo)
    ensures
        final(w)@ == fsstat_reply(old(w)@, *info),
{
    proof {
        reveal(fsstat_reply);
    }
    w.u32(NFS3_OK);
    w.bool(false);
    w.u64(info.fsstat.total_bytes);
    w.u64(info.fsstat.free_bytes);
    w.u64(info.fsstat.avail_bytes);
    w.u64(info.fsstat.total_files);
    w.u64(info.fsstat.free_files);
    w.u64(info.fsstat.free_files);
    w.u32(0);
}

fn write_fsinfo(w: &mut XdrWriter)
    ensures
        final(w)@ == fsinfo_reply(old(w)@),
{
    proof {
        reveal(fsinfo_reply);
    }
    w.u32(NFS3_OK);
    w.bool(false);
    w.u32(MAX_READ);
    w.u32(MAX_READ);
    w.u32(4096);
    w.u32(MAX_WRITE);
    w.u32(MAX_WRITE);
    w.u32(4096);
    w.u32(MAX_READ);
    w.u64(u64::MAX);
    write_time(w, Ts { sec: 0, nsec: 1 });
    w.u32(FSF_PROPERTIES);
}

fn write_pathconf(w: &mut XdrWriter)
    ensures
        final(w)@ == pathconf_reply(old(w)@),
{
    proof {
        reveal(pathconf_reply);
    }
    w.u32(NFS3_OK);
    w.bool(false);
    w.u32(32000);
    w.u32(255);
    w.bool(true);
    w.bool(false);
    w.bool(false);
    w.bool(true);
}

fn step_getattr(
    node: NodeKey,
    info: &SurfaceInfo,
    codec: &HandleCodec,
    ans: &Vec<Answer>,
    w: &mut XdrWriter,
) -> (turn: Turn)
    ensures
        did(
            open_move(Req3::Getattr { node }, *info, codec.key(), ans@, old(w)@),
            turn,
            old(w)@,
            final(w)@,
        ),
{
    let share: u16 = info.share;
    if ans.len() == 0 {
        return Turn::Ask(Ask::Getattr(node));
    }
    match ans[0].attr() {
        Ok(a) => {
            w.u32(NFS3_OK);
            write_fattr3(w, share, node, &a);
        },
        Err(e) => w.u32(nfsstat_of(e)),
    }
    Turn::Done
}

fn step_lookup(
    dir: NodeKey,
    name: &Vec<u8>,
    info: &SurfaceInfo,
    codec: &HandleCodec,
    ans: &Vec<Answer>,
    w: &mut XdrWriter,
) -> (turn: Turn)
    ensures
        did(
            open_move(Req3::Lookup { dir, name: name@ }, *info, codec.key(), ans@, old(w)@),
            turn,
            old(w)@,
            final(w)@,
        ),
{
    let share: u16 = info.share;
    if ans.len() == 0 {
        return Turn::Ask(Ask::Getattr(dir));
    }
    if ans.len() == 1 {
        return Turn::Ask(Ask::Lookup { dir: dir, name: name.clone() });
    }
    let dir_attr = ans[0].attr_opt();
    match ans[1].entry() {
        Ok((node, a)) => {
            w.u32(NFS3_OK);
            w.opaque(codec.encode(share, node).as_slice());
            write_post_op_attr(w, share, node, Some(a));
            write_post_op_attr(w, share, dir, dir_attr);
        },
        Err(e) => {
            w.u32(nfsstat_of(e));
            write_post_op_attr(w, share, dir, dir_attr);
        },
    }
    Turn::Done
}

fn step_lookup_long(
    dir: NodeKey,
    info: &SurfaceInfo,
    codec: &HandleCodec,
    ans: &Vec<Answer>,
    w: &mut XdrWriter,
) -> (turn: Turn)
    ensures
        did(
            open_move(Req3::LookupLong { dir }, *info, codec.key(), ans@, old(w)@),
            turn,
            old(w)@,
            final(w)@,
        ),
{
    let share: u16 = info.share;
    if ans.len() == 0 {
        return Turn::Ask(Ask::Getattr(dir));
    }
    w.u32(NFS3ERR_NAMETOOLONG);
    write_post_op_attr(w, share, dir, ans[0].attr_opt());
    Turn::Done
}

fn step_access(
    node: NodeKey,
    requested: u32,
    info: &SurfaceInfo,
    codec: &HandleCodec,
    ans: &Vec<Answer>,
    w: &mut XdrWriter,
) -> (turn: Turn)
    ensures
        did(
            open_move(Req3::Access { node, requested }, *info, codec.key(), ans@, old(w)@),
            turn,
            old(w)@,
            final(w)@,
        ),
{
    let share: u16 = info.share;
    if ans.len() == 0 {
        return Turn::Ask(Ask::Getattr(node));
    }
    match ans[0].attr() {
        Ok(a) => {
            w.u32(NFS3_OK);
            write_post_op_attr(w, share, node, Some(a));
            w.u32(access_bits(&a, requested, info.writable));
        },
        Err(e) => {
            w.u32(nfsstat_of(e));
            w.bool(false);
        },
    }
    Turn::Done
}

fn step_readlink(
    node: NodeKey,
    info: &SurfaceInfo,
    codec: &HandleCodec,
    ans: &Vec<Answer>,
    w: &mut XdrWriter,
) -> (turn: Turn)
    ensures
        did(
            open_move(Req3::Readlink { node }, *info, codec.key(), ans@, old(w)@),
            turn,
            old(w)@,
            final(w)@,
        ),
{
    let share: u16 = info.share;
    if ans.len() == 0 {
        return Turn::Ask(Ask::Getattr(node));
    }
    if ans.len() == 1 {
        return Turn::Ask(Ask::Readlink(node));
    }
    let attr = ans[0].attr_opt();
    match ans[1].target() {
        Ok(target) => {
            w.u32(NFS3_OK);
            write_post_op_attr(w, share, node, attr);
            w.opaque(target.as_slice());
        },
        Err(e) => {
            w.u32(nfsstat_of(e));
            write_post_op_attr(w, share, node, attr);
        },
    }
    Turn::Done
}

fn step_write(
    node: NodeKey,
    offset: u64,
    data: &Vec<u8>,
    sync: bool,
    info: &SurfaceInfo,
    codec: &HandleCodec,
    ans: &Vec<Answer>,
    w: &mut XdrWriter,
) -> (turn: Turn)
    ensures
        did(
            open_move(
                Req3::Write { node, offset, data: data@, sync },
                *info,
                codec.key(),
                ans@,
                old(w)@,
            ),
            turn,
            old(w)@,
            final(w)@,
        ),
{
    let share: u16 = info.share;
    if ans.len() == 0 {
        return Turn::Ask(Ask::Getattr(node));
    }
    if ans.len() == 1 {
        return Turn::Ask(
            Ask::Write { node: node, offset: offset, data: data.clone(), sync: sync },
        );
    }
    match ans[1].attr() {
        Ok(a) => {
            w.u32(NFS3_OK);
            write_wcc_data(w, share, node, Some(a));
            w.u32(#[verifier::truncate] (data.len() as u32));
            w.u32(
                if sync || info.stable_writes {
                    2
                } else {
                    0
                },
            );
            write_verifier(w);
        },
        Err(e) => {
            w.u32(nfsstat_of(e));
            write_wcc_data(w, share, node, ans[0].attr_opt());
        },
    }
    Turn::Done
}

fn step_refused(
    status: u32,
    node: NodeKey,
    share: u16,
    ans: &Vec<Answer>,
    w: &mut XdrWriter,
) -> (turn: Turn)
    ensures
        did(refused_move(old(w)@, share, status, node, ans@), turn, old(w)@, final(w)@),
{
    if ans.len() == 0 {
        return Turn::Ask(Ask::Getattr(node));
    }
    w.u32(status);
    write_wcc_data(w, share, node, ans[0].attr_opt());
    Turn::Done
}

fn step_remove(
    dir: NodeKey,
    name: &Vec<u8>,
    is_dir: bool,
    info: &SurfaceInfo,
    codec: &HandleCodec,
    ans: &Vec<Answer>,
    w: &mut XdrWriter,
) -> (turn: Turn)
    ensures
        did(
            open_move(Req3::Remove { dir, name: name@, is_dir }, *info, codec.key(), ans@, old(w)@),
            turn,
            old(w)@,
            final(w)@,
        ),
{
    let share: u16 = info.share;
    if ans.len() == 0 {
        return Turn::Ask(Ask::Remove { dir: dir, name: name.clone(), is_dir: is_dir });
    }
    if ans.len() == 1 {
        return Turn::Ask(Ask::Getattr(dir));
    }
    w.u32(done_status(&ans[0]));
    write_wcc_data(w, share, dir, ans[1].attr_opt());
    Turn::Done
}

fn step_rename(
    from_dir: NodeKey,
    from_name: &Vec<u8>,
    to_dir: NodeKey,
    to_name: &Vec<u8>,
    info: &SurfaceInfo,
    codec: &HandleCodec,
    ans: &Vec<Answer>,
    w: &mut XdrWriter,
) -> (turn: Turn)
    ensures
        did(
            open_move(
                Req3::Rename { from_dir, from_name: from_name@, to_dir, to_name: to_name@ },
                *info,
                codec.key(),
                ans@,
                old(w)@,
            ),
            turn,
            old(w)@,
            final(w)@,
        ),
{
    let share: u16 = info.share;
    if ans.len() == 0 {
        return Turn::Ask(
            Ask::Rename {
                from_dir: from_dir,
                from_name: from_name.clone(),
                to_dir: to_dir,
                to_name: to_name.clone(),
            },
        );
    }
    if ans.len() == 1 {
        return Turn::Ask(Ask::Getattr(from_dir));
    }
    if ans.len() == 2 {
        return Turn::Ask(Ask::Getattr(to_dir));
    }
    w.u32(done_status(&ans[0]));
    write_wcc_data(w, share, from_dir, ans[1].attr_opt());
    write_wcc_data(w, share, to_dir, ans[2].attr_opt());
    Turn::Done
}

fn step_refused_rename(
    status: u32,
    from_dir: NodeKey,
    to_dir: NodeKey,
    share: u16,
    ans: &Vec<Answer>,
    w: &mut XdrWriter,
) -> (turn: Turn)
    ensures
        did(
            refused_rename(old(w)@, share, status, from_dir, to_dir, ans@),
            turn,
            old(w)@,
            final(w)@,
        ),
{
    if ans.len() == 0 {
        return Turn::Ask(Ask::Getattr(from_dir));
    }
    if ans.len() == 1 {
        return Turn::Ask(Ask::Getattr(to_dir));
    }
    w.u32(status);
    write_wcc_data(w, share, from_dir, ans[0].attr_opt());
    write_wcc_data(w, share, to_dir, ans[1].attr_opt());
    Turn::Done
}

/// The answer to a request that changes the tree, over one that takes no changes; `None` for the
/// other requests.
fn step_rofs(req: &Req3, share: u16, ans: &Vec<Answer>, w: &mut XdrWriter) -> (turn: Option<Turn>)
    ensures
        match turn {
            Some(turn) => changes(req@) && did(
                rofs_move(req@, share, ans@, old(w)@),
                turn,
                old(w)@,
                final(w)@,
            ),
            None => !changes(req@) && final(w)@ == old(w)@,
        },
{
    match req {
        Req3::Setattr { node, .. } => Some(step_refused(NFS3ERR_ROFS, *node, share, ans, w)),
        Req3::Write { node, .. } => Some(step_refused(NFS3ERR_ROFS, *node, share, ans, w)),
        Req3::Create { dir, .. } => Some(step_refused(NFS3ERR_ROFS, *dir, share, ans, w)),
        Req3::Remove { dir, .. } => Some(step_refused(NFS3ERR_ROFS, *dir, share, ans, w)),
        Req3::Rename { from_dir, to_dir, .. } => Some(
            step_refused_rename(NFS3ERR_ROFS, *from_dir, *to_dir, share, ans, w),
        ),
        _ => None,
    }
}

/// One step of serving a request: what to ask the tree next, given what it answered so far, or
/// the reply appended to `w`, which holds the accepted-reply header.
pub fn step(
    req: &Req3,
    info: &SurfaceInfo,
    codec: &HandleCodec,
    ans: &Vec<Answer>,
    w: &mut XdrWriter,
) -> (turn: Turn)
    ensures
        did(move_of(req@, *info, codec.key(), ans@, old(w)@), turn, old(w)@, final(w)@),
{
    let share: u16 = info.share;
    if !info.writable {
        if let Some(turn) = step_rofs(req, share, ans, w) {
            return turn;
        }
    }
    match req {
        Req3::Null => {},
        Req3::Stale => w.u32(NFS3ERR_STALE),
        Req3::Unsupported => w.u32(NFS3ERR_NOTSUPP),
        Req3::Fsstat => write_fsstat(w, info),
        Req3::Fsinfo => write_fsinfo(w),
        Req3::Pathconf => write_pathconf(w),
        Req3::Getattr { node } => {
            return step_getattr(*node, info, codec, ans, w);
        },
        Req3::Lookup { dir, name } => {
            return step_lookup(*dir, name, info, codec, ans, w);
        },
        Req3::LookupLong { dir } => {
            return step_lookup_long(*dir, info, codec, ans, w);
        },
        Req3::Access { node, requested } => {
            return step_access(*node, *requested, info, codec, ans, w);
        },
        Req3::Readlink { node } => {
            return step_readlink(*node, info, codec, ans, w);
        },
        Req3::Read { node, offset, count } => {
            return step_read(*node, *offset, *count, info, ans, w);
        },
        Req3::Readdir { dir, cookie, maxcount, plus } => {
            return step_readdir(*dir, *cookie, *maxcount, *plus, info, codec, ans, w);
        },
        Req3::Setattr { node, set } => {
            return step_object(
                *node,
                Ask::Setattr { node: *node, set: *set },
                false,
                share,
                ans,
                w,
            );
        },
        Req3::Commit { node, offset, count } => {
            return step_object(
                *node,
                Ask::Commit { node: *node, off: *offset, len: *count as u64 },
                true,
                share,
                ans,
                w,
            );
        },
        Req3::Write { node, offset, data, sync } => {
            return step_write(*node, *offset, data, *sync, info, codec, ans, w);
        },
        Req3::Create { dir, name, kind, mode } => {
            return step_create(*dir, name, kind, *mode, info, codec, ans, w);
        },
        Req3::ChangeLong { dir } => {
            return step_refused(NFS3ERR_NAMETOOLONG, *dir, share, ans, w);
        },
        Req3::Remove { dir, name, is_dir } => {
            return step_remove(*dir, name, *is_dir, info, codec, ans, w);
        },
        Req3::Rename { from_dir, from_name, to_dir, to_name } => {
            return step_rename(*from_dir, from_name, *to_dir, to_name, info, codec, ans, w);
        },
        Req3::RenameLong { from_dir, to_dir } => {
            return step_refused_rename(NFS3ERR_NAMETOOLONG, *from_dir, *to_dir, share, ans, w);
        },
        Req3::Mknod { dir } => match dir {
            Some(d) => {
                if ans.len() == 0 {
                    return Turn::Ask(Ask::Getattr(*d));
                }
                w.u32(NFS3ERR_NOTSUPP);
                write_wcc_data(w, share, *d, ans[0].attr_opt());
            },
            None => {
                w.u32(NFS3ERR_NOTSUPP);
                w.bool(false);
                w.bool(false);
            },
        },
        Req3::Link { file, dir } => {
            return step_link(*file, *dir, share, ans, w);
        },
    }
    Turn::Done
}

// ---- laws --------------------------------------------------------------------------------------

/// A listing never outgrows the client's `maxcount`, unless its header alone already does.
pub proof fn listing_fits(
    s: Seq<u8>,
    share: u16,
    key: Seq<u8>,
    dir: NodeKey,
    dir_attr: Option<Attr>,
    maxcount: u32,
    plus: bool,
    page: ReadDirPage,
)
    ensures
        ({
            let head = put_post_op_attr(s.put_u32(NFS3_OK), share, dir, dir_attr).put_u64(
                page.cookieverf,
            );
            let reply = readdir_reply(s, share, key, dir, dir_attr, maxcount, plus, Ok(page));
            reply.len() <= maxcount || reply.len() == head.len() + 8
        }),
{
    broadcast use be32_len;

    let head = put_post_op_attr(s.put_u32(NFS3_OK), share, dir, dir_attr).put_u64(page.cookieverf);
    entries_fit(head, share, key, page.entries@, 0, plus, maxcount);
}

proof fn entries_fit(
    s: Seq<u8>,
    share: u16,
    key: Seq<u8>,
    entries: Seq<DirEntry>,
    i: nat,
    plus: bool,
    budget: u32,
)
    ensures
        ({
            let out = put_entries(s, share, key, entries, i, plus, budget).0;
            out == s || out.len() + 8 <= budget
        }),
    decreases entries.len() - i,
{
    broadcast use be32_len;

    if i < entries.len() && s.len() + entry_cost(plus) + entries[i as int].name@.len() <= budget {
        let e = entries[i as int];
        let next = put_entry(s, share, key, e, plus);
        entry_len(s, share, key, e, plus);
        entries_fit(next, share, key, entries, i + 1, plus, budget);
    }
}

/// A `put` function only appends.
pub open spec fn extends(out: Seq<u8>, s: Seq<u8>) -> bool {
    s.len() <= out.len() && out.take(s.len() as int) == s
}

/// Weak cache consistency data is appended: at most 92 bytes, of which 88 are the attributes.
proof fn wcc_extends(s: Seq<u8>, share: u16, node: NodeKey, a: Option<Attr>)
    ensures
        put_post_op_attr(s, share, node, a).len() <= s.len() + 88,
        extends(put_post_op_attr(s, share, node, a), s),
        extends(put_wcc(s, share, node, a), s),
{
    broadcast use be32_len;

    reveal(put_fattr3);
    assert(put_post_op_attr(s, share, node, a).take(s.len() as int) =~= s);
    assert(put_wcc(s, share, node, a).take(s.len() as int) =~= s);
}

proof fn entry_len(s: Seq<u8>, share: u16, key: Seq<u8>, e: DirEntry, plus: bool)
    ensures
        put_entry(s, share, key, e, plus).len() + 8 <= s.len() + entry_cost(plus) + e.name@.len(),
{
    broadcast use be32_len;

    assert(crate::handle::magic().len() == 4);
    let s1 = s.put_bool(true).put_u64(e.node.ino).put_opaque(e.name@).put_u64(e.cookie);
    assert(s1.len() <= s.len() + 27 + e.name@.len());
    if plus {
        let s2 = put_post_op_attr(s1, share, e.node, e.attr);
        wcc_extends(s1, share, e.node, e.attr);
        assert(s2.len() <= s1.len() + 88);
        let fh = fh_bytes(key, share, e.node);
        assert(fh.len() == 28);
        assert(put_post_op_fh(s2, key, share, e.node).len() == s2.len() + 36);
    }
}

/// A tree that is not writable is asked for no change, whatever it answers, and every request for
/// one is answered with the read-only status, after two answers at most.
pub proof fn read_only_tree_answers_rofs(
    req: Req3<Seq<u8>>,
    info: SurfaceInfo,
    key: Seq<u8>,
    s: Seq<u8>,
    ans: Seq<Answer>,
)
    requires
        !info.writable,
        changes(req),
    ensures
        match move_of(req, info, key, ans, s) {
            Move::Ask(ask) => ask is Getattr && ans.len() < 2,
            Move::Done(out) => out.take(s.len() as int + 4) == s.put_u32(NFS3ERR_ROFS),
            Move::DoneFile(..) => false,
        },
{
    broadcast use be32_len;

    let head = s.put_u32(NFS3ERR_ROFS);
    match move_of(req, info, key, ans, s) {
        Move::Done(out) => {
            match req {
                Req3::Setattr { node, .. } => wcc_extends(head, info.share, node, attr_opt(ans[0])),
                Req3::Write { node, .. } => wcc_extends(head, info.share, node, attr_opt(ans[0])),
                Req3::Create { dir, .. } => wcc_extends(head, info.share, dir, attr_opt(ans[0])),
                Req3::Remove { dir, .. } => wcc_extends(head, info.share, dir, attr_opt(ans[0])),
                Req3::Rename { from_dir, to_dir, .. } => {
                    let mid = put_wcc(head, info.share, from_dir, attr_opt(ans[0]));
                    wcc_extends(head, info.share, from_dir, attr_opt(ans[0]));
                    wcc_extends(mid, info.share, to_dir, attr_opt(ans[1]));
                    assert forall|i: int| 0 <= i < head.len() implies out[i] == mid[i] by {
                        assert(out.take(mid.len() as int)[i] == out[i]);
                    }
                    assert(out.take(head.len() as int) =~= mid.take(head.len() as int));
                },
                _ => {},
            }
            assert(out.take(s.len() as int + 4) =~= head);
        },
        _ => {},
    }
}

/// However many answers come, a request is served after at most three of them.
pub proof fn three_answers_suffice(
    req: Req3<Seq<u8>>,
    info: SurfaceInfo,
    key: Seq<u8>,
    s: Seq<u8>,
    ans: Seq<Answer>,
)
    requires
        ans.len() >= 3,
    ensures
        !(move_of(req, info, key, ans, s) is Ask),
{
}

} // verus!
