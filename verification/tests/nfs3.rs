use mist::handle::{HandleCodec, HANDLE_LEN};
use mist::nfs3::{
    decode, step, FSF_CANSETTIME, FSF_HOMOGENEOUS, FSF_LINK, FSF_SYMLINK, NF3DIR, NFS3ERR_NOENT,
    NFS3ERR_NOTSUPP, NFS3ERR_ROFS, NFS3ERR_STALE, NFS3_OK, PROC_FSINFO, PROC_GETATTR, PROC_LOOKUP,
    PROC_READ, PROC_READDIRPLUS,
};
use mist::server::{finish, handle_record, Reply, Served};
use mist::surface::{
    default_answer, Answer, Ask, CreateKind, DirEntry, FsStat, NfsError, NfsResult, ReadDirPage,
    ReadResult, SurfaceInfo, Turn,
};
use mist::types::{Attr, Kind, NodeKey, Ts};
use mist::xdr::{XdrReader, XdrWriter};
use std::collections::HashMap;

fn at(kind: Kind, size: u64) -> Attr {
    Attr {
        kind,
        mode: 0o644,
        nlink: 1,
        uid: 0,
        gid: 0,
        size,
        blocks: size.div_ceil(512),
        mtime: Ts { sec: 5, nsec: 0 },
        ctime: Ts { sec: 5, nsec: 0 },
        rdev: 0,
        content_version: 1,
    }
}

struct Node {
    attr: Attr,
    data: Vec<u8>,
    kids: Vec<(Vec<u8>, u64)>,
    target: Option<Vec<u8>>,
}

/// A small tree in memory.
struct Tree {
    nodes: HashMap<u64, Node>,
    next: u64,
    writable: bool,
}

fn key(ino: u64) -> NodeKey {
    NodeKey { ino, generation: 1 }
}

impl Tree {
    fn new(writable: bool) -> Tree {
        let mut nodes = HashMap::new();
        nodes.insert(
            2,
            Node {
                attr: at(Kind::Dir, 4096),
                data: Vec::new(),
                kids: vec![(b"f.txt".to_vec(), 10), (b"ln".to_vec(), 11)],
                target: None,
            },
        );
        nodes.insert(
            10,
            Node {
                attr: at(Kind::Reg, 5),
                data: b"hello".to_vec(),
                kids: Vec::new(),
                target: None,
            },
        );
        nodes.insert(
            11,
            Node {
                attr: at(Kind::Symlink, 5),
                data: Vec::new(),
                kids: Vec::new(),
                target: Some(b"f.txt".to_vec()),
            },
        );
        Tree {
            nodes,
            next: 100,
            writable,
        }
    }

    fn info(&self) -> SurfaceInfo {
        SurfaceInfo {
            share: 1,
            root: key(2),
            writable: self.writable,
            stable_writes: false,
            fsstat: FsStat::default(),
        }
    }

    fn attr(&self, n: NodeKey) -> NfsResult<Attr> {
        self.nodes.get(&n.ino).map(|x| x.attr).ok_or(NfsError::NoEnt)
    }

    fn find(&self, dir: NodeKey, name: &[u8]) -> NfsResult<u64> {
        let d = self.nodes.get(&dir.ino).ok_or(NfsError::Stale)?;
        d.kids
            .iter()
            .find(|(n, _)| n == name)
            .map(|(_, i)| *i)
            .ok_or(NfsError::NoEnt)
    }

    fn answer(&mut self, ask: &Ask) -> Answer {
        if !self.writable {
            if let Some(a) = default_answer(ask) {
                return a;
            }
        }
        match ask {
            Ask::Getattr(n) => Answer::Attr(self.attr(*n)),
            Ask::Lookup { dir, name } => Answer::Entry(
                self.find(*dir, name)
                    .map(|i| (key(i), self.nodes[&i].attr)),
            ),
            Ask::Readdir {
                dir,
                cookie,
                want_attrs,
                ..
            } => {
                let d = &self.nodes[&dir.ino];
                let mut entries = Vec::new();
                for (i, (name, ino)) in d.kids.iter().enumerate() {
                    let c = i as u64 + 3;
                    if c <= *cookie {
                        continue;
                    }
                    entries.push(DirEntry {
                        name: name.clone(),
                        node: key(*ino),
                        cookie: c,
                        attr: if *want_attrs {
                            Some(self.nodes[ino].attr)
                        } else {
                            None
                        },
                    });
                }
                Answer::Page(Ok(ReadDirPage {
                    entries,
                    eof: true,
                    cookieverf: 42,
                }))
            }
            Ask::Readlink(n) => Answer::Target(
                self.nodes
                    .get(&n.ino)
                    .and_then(|x| x.target.clone())
                    .ok_or(NfsError::NotSymlink),
            ),
            Ask::Parent(_) => Answer::Parent(Err(NfsError::NoEnt)),
            Ask::ReadSendable { .. } => Answer::Range(None),
            Ask::Read { node, offset, count } => {
                let d = &self.nodes[&node.ino].data;
                let s = (*offset as usize).min(d.len());
                let e = d.len().min(s + *count as usize);
                Answer::Data(Ok(ReadResult {
                    data: d[s..e].to_vec(),
                    eof: e >= d.len(),
                }))
            }
            Ask::Create {
                dir,
                name,
                kind,
                mode,
            } => {
                if self.find(*dir, name).is_ok() {
                    return Answer::Entry(Err(NfsError::Exist));
                }
                let ino = self.next;
                self.next += 1;
                let (k, target) = match kind {
                    CreateKind::Dir => (Kind::Dir, None),
                    CreateKind::Symlink { target } => (Kind::Symlink, Some(target.clone())),
                    _ => (Kind::Reg, None),
                };
                let mut a = at(k, 0);
                a.mode = *mode;
                self.nodes.insert(
                    ino,
                    Node {
                        attr: a,
                        data: Vec::new(),
                        kids: Vec::new(),
                        target,
                    },
                );
                self.nodes
                    .get_mut(&dir.ino)
                    .unwrap()
                    .kids
                    .push((name.clone(), ino));
                Answer::Entry(Ok((key(ino), a)))
            }
            Ask::Remove { dir, name, .. } => match self.find(*dir, name) {
                Ok(ino) => {
                    let d = self.nodes.get_mut(&dir.ino).unwrap();
                    d.kids.retain(|(n, _)| n != name);
                    self.nodes.remove(&ino);
                    Answer::Done(Ok(()))
                }
                Err(e) => Answer::Done(Err(e)),
            },
            Ask::Rename {
                from_dir,
                from_name,
                to_dir,
                to_name,
            } => match self.find(*from_dir, from_name) {
                Ok(ino) => {
                    let d = self.nodes.get_mut(&from_dir.ino).unwrap();
                    d.kids.retain(|(n, _)| n != from_name);
                    let d = self.nodes.get_mut(&to_dir.ino).unwrap();
                    d.kids.push((to_name.clone(), ino));
                    Answer::Done(Ok(()))
                }
                Err(e) => Answer::Done(Err(e)),
            },
            Ask::Setattr { node, set } => {
                let n = self.nodes.get_mut(&node.ino).unwrap();
                if let Some(sz) = set.size {
                    n.data.resize(sz as usize, 0);
                    n.attr.size = sz;
                }
                if let Some(m) = set.mode {
                    n.attr.mode = m;
                }
                Answer::Attr(Ok(n.attr))
            }
            Ask::Write {
                node, offset, data, ..
            } => {
                let n = self.nodes.get_mut(&node.ino).unwrap();
                let end = *offset as usize + data.len();
                if n.data.len() < end {
                    n.data.resize(end, 0);
                }
                n.data[*offset as usize..end].copy_from_slice(data);
                n.attr.size = n.data.len() as u64;
                Answer::Attr(Ok(n.attr))
            }
            Ask::Commit { node, .. } => Answer::Attr(self.attr(*node)),
        }
    }
}

fn run(tree: &mut Tree, codec: &HandleCodec, proc: u32, args: &[u8]) -> Vec<u8> {
    let r = XdrReader::new(args);
    let req = decode(proc, r, codec);
    let mut w = XdrWriter::new();
    let mut ans = Vec::new();
    loop {
        match step(&req, &tree.info(), codec, &ans, &mut w) {
            Turn::Ask(ask) => ans.push(tree.answer(&ask)),
            _ => return w.into_bytes(),
        }
    }
}

/// A client that speaks in whole records.
struct Client {
    tree: Tree,
    codec: HandleCodec,
    xid: u32,
}

impl Client {
    fn new(writable: bool) -> Client {
        Client {
            tree: Tree::new(writable),
            codec: HandleCodec::new(b"secret"),
            xid: 1,
        }
    }

    fn call(&mut self, prog: u32, proc: u32, args: &[u8]) -> Vec<u8> {
        self.xid += 1;
        let mut m = Vec::new();
        for v in [self.xid, 0, 2, prog, 3, proc, 0, 0, 0, 0] {
            be32(&mut m, v);
        }
        m.extend_from_slice(args);
        let info = self.tree.info();
        let w = match handle_record(&m, &info, &self.codec) {
            Served::Dropped => panic!("dropped"),
            Served::Reply(w) => w,
            Served::Nfs3(req, w) => {
                let mut w = w;
                let mut ans = Vec::new();
                loop {
                    match step(&req, &info, &self.codec, &ans, &mut w) {
                        Turn::Ask(ask) => ans.push(self.tree.answer(&ask)),
                        _ => break,
                    }
                }
                w
            }
        };
        let body = match finish(w, None) {
            Reply::Whole(b) => b,
            _ => panic!("a whole reply"),
        };
        let mut p = 0usize;
        assert_eq!(rd32(&body, &mut p), self.xid);
        assert_eq!(rd32(&body, &mut p), 1);
        assert_eq!(rd32(&body, &mut p), 0);
        let _flavor = rd32(&body, &mut p);
        let vlen = rd32(&body, &mut p) as usize;
        p += vlen.div_ceil(4) * 4;
        let _accept = rd32(&body, &mut p);
        body[p..].to_vec()
    }

    fn nfs(&mut self, proc: u32, args: &[u8]) -> Vec<u8> {
        self.call(100003, proc, args)
    }

    fn root(&self) -> Vec<u8> {
        self.codec.encode(1, key(2))
    }

    fn lookup(&mut self, name: &[u8]) -> Result<Vec<u8>, u32> {
        let mut args = Vec::new();
        let root = self.root();
        opaque(&mut args, &root);
        opaque(&mut args, name);
        let b = self.nfs(3, &args);
        let mut p = 0;
        match rd32(&b, &mut p) {
            0 => Ok(rd_opaque(&b, &mut p)),
            e => Err(e),
        }
    }
}

fn be32(v: &mut Vec<u8>, x: u32) {
    v.extend_from_slice(&x.to_be_bytes());
}

fn be64(v: &mut Vec<u8>, x: u64) {
    v.extend_from_slice(&x.to_be_bytes());
}

fn opaque(v: &mut Vec<u8>, d: &[u8]) {
    be32(v, d.len() as u32);
    v.extend_from_slice(d);
    while v.len() % 4 != 0 {
        v.push(0);
    }
}

fn rd32(b: &[u8], p: &mut usize) -> u32 {
    let x = u32::from_be_bytes(b[*p..*p + 4].try_into().unwrap());
    *p += 4;
    x
}

fn rd64(b: &[u8], p: &mut usize) -> u64 {
    let x = u64::from_be_bytes(b[*p..*p + 8].try_into().unwrap());
    *p += 8;
    x
}

fn rd_opaque(b: &[u8], p: &mut usize) -> Vec<u8> {
    let len = rd32(b, p) as usize;
    let d = b[*p..*p + len].to_vec();
    *p += len.div_ceil(4) * 4;
    d
}

fn skip_post_op_attr(b: &[u8], p: &mut usize) {
    if rd32(b, p) != 0 {
        *p += 84;
    }
}

#[test]
fn unsupported_proc_is_notsupp_or_rofs() {
    assert_ne!(NFS3ERR_ROFS, NFS3_OK);
    let _ = NFS3ERR_NOTSUPP;
    let mut t = Tree::new(false);
    let codec = HandleCodec::new(b"k");
    let out = run(&mut t, &codec, 77, &[]);
    assert_eq!(out, NFS3ERR_NOTSUPP.to_be_bytes());
}

#[test]
fn getattr_and_lookup_and_read() {
    let mut t = Tree::new(false);
    let codec = HandleCodec::new(b"k");
    let root_fh = codec.encode(1, key(2));

    let mut args = Vec::new();
    opaque(&mut args, &root_fh);
    let out = run(&mut t, &codec, PROC_GETATTR, &args);
    let mut r = XdrReader::new(&out);
    assert_eq!(r.u32().unwrap(), NFS3_OK);
    assert_eq!(r.u32().unwrap(), NF3DIR);

    let mut args = Vec::new();
    opaque(&mut args, &root_fh);
    opaque(&mut args, b"f.txt");
    let out = run(&mut t, &codec, PROC_LOOKUP, &args);
    let mut r = XdrReader::new(&out);
    assert_eq!(r.u32().unwrap(), NFS3_OK);
    let fh = r.opaque(64).unwrap();
    assert_eq!(codec.decode(fh).unwrap().1, key(10));

    let mut args = Vec::new();
    opaque(&mut args, &codec.encode(1, key(10)));
    be64(&mut args, 0);
    be32(&mut args, 100);
    let out = run(&mut t, &codec, PROC_READ, &args);
    let mut r = XdrReader::new(&out);
    assert_eq!(r.u32().unwrap(), NFS3_OK);
    assert!(r.bool().unwrap());
}

#[test]
fn readdirplus_encodes_entries() {
    let mut t = Tree::new(false);
    let codec = HandleCodec::new(b"k");
    let mut args = Vec::new();
    opaque(&mut args, &codec.encode(1, key(2)));
    be64(&mut args, 0);
    args.extend_from_slice(&[0u8; 8]);
    be32(&mut args, 8192);
    be32(&mut args, 32768);
    let out = run(&mut t, &codec, PROC_READDIRPLUS, &args);
    let mut r = XdrReader::new(&out);
    assert_eq!(r.u32().unwrap(), NFS3_OK);
    assert!(out.len() > 40);
}

#[test]
fn fsinfo_advertises_supported_capabilities() {
    let mut t = Tree::new(false);
    let codec = HandleCodec::new(b"k");
    let mut args = Vec::new();
    opaque(&mut args, &codec.encode(1, key(2)));
    let out = run(&mut t, &codec, PROC_FSINFO, &args);
    let mut r = XdrReader::new(&out);
    assert_eq!(r.u32().unwrap(), NFS3_OK);
    assert!(!r.bool().unwrap());
    for _ in 0..7 {
        let _ = r.u32().unwrap();
    }
    let _ = r.u64().unwrap();
    let _ = r.u32().unwrap();
    let _ = r.u32().unwrap();
    let props = r.u32().unwrap();
    assert_eq!(props & FSF_LINK, FSF_LINK);
    assert_eq!(props & FSF_SYMLINK, FSF_SYMLINK);
    assert_eq!(props & FSF_HOMOGENEOUS, FSF_HOMOGENEOUS);
    assert_eq!(props & FSF_CANSETTIME, FSF_CANSETTIME);
}

#[test]
fn nfs_client_full_roundtrip() {
    let mut c = Client::new(false);

    let mut args = Vec::new();
    opaque(&mut args, b"/");
    let body = c.call(100005, 1, &args);
    let mut p = 0;
    assert_eq!(rd32(&body, &mut p), 0, "MNT3_OK");
    let root_fh = rd_opaque(&body, &mut p);
    assert_eq!(root_fh.len(), HANDLE_LEN);

    let mut args = Vec::new();
    opaque(&mut args, &root_fh);
    let body = c.nfs(1, &args);
    let mut p = 0;
    assert_eq!(rd32(&body, &mut p), 0, "NFS3_OK");
    assert_eq!(rd32(&body, &mut p), 2, "ftype3 = NF3DIR");

    let file_fh = c.lookup(b"f.txt").unwrap();

    let mut args = Vec::new();
    opaque(&mut args, &file_fh);
    be64(&mut args, 0);
    be32(&mut args, 100);
    let body = c.nfs(6, &args);
    let mut p = 0;
    assert_eq!(rd32(&body, &mut p), 0, "read OK");
    skip_post_op_attr(&body, &mut p);
    assert_eq!(rd32(&body, &mut p), 5);
    assert_eq!(rd32(&body, &mut p), 1);
    assert_eq!(rd_opaque(&body, &mut p), b"hello");

    let mut args = Vec::new();
    opaque(&mut args, &root_fh);
    be64(&mut args, 0);
    args.extend_from_slice(&[0u8; 8]);
    be32(&mut args, 8192);
    be32(&mut args, 32768);
    let body = c.nfs(17, &args);
    let mut p = 0;
    assert_eq!(rd32(&body, &mut p), 0, "readdirplus OK");
    skip_post_op_attr(&body, &mut p);
    assert_eq!(rd64(&body, &mut p), 42);
    let mut names = Vec::new();
    while rd32(&body, &mut p) != 0 {
        let _fileid = rd64(&body, &mut p);
        let name = rd_opaque(&body, &mut p);
        let _cookie = rd64(&body, &mut p);
        skip_post_op_attr(&body, &mut p);
        if rd32(&body, &mut p) != 0 {
            let _fh = rd_opaque(&body, &mut p);
        }
        names.push(String::from_utf8_lossy(&name).into_owned());
    }
    assert_eq!(rd32(&body, &mut p), 1);
    assert_eq!(names, vec!["f.txt", "ln"]);

    let ln_fh = c.lookup(b"ln").unwrap();
    let mut args = Vec::new();
    opaque(&mut args, &ln_fh);
    let body = c.nfs(5, &args);
    let mut p = 0;
    assert_eq!(rd32(&body, &mut p), 0, "readlink OK");
    skip_post_op_attr(&body, &mut p);
    assert_eq!(rd_opaque(&body, &mut p), b"f.txt");
}

fn sattr_none(v: &mut Vec<u8>) {
    for _ in 0..6 {
        be32(v, 0);
    }
}

#[test]
fn nfs_client_mutations() {
    let mut c = Client::new(true);
    let root = c.root();

    let mut args = Vec::new();
    opaque(&mut args, &root);
    opaque(&mut args, b"new.txt");
    be32(&mut args, 0);
    sattr_none(&mut args);
    let body = c.nfs(8, &args);
    let mut p = 0;
    assert_eq!(rd32(&body, &mut p), 0, "create OK");
    assert_eq!(rd32(&body, &mut p), 1);
    let fh = rd_opaque(&body, &mut p);

    let mut args = Vec::new();
    opaque(&mut args, &fh);
    be64(&mut args, 0);
    be32(&mut args, 4);
    be32(&mut args, 2);
    opaque(&mut args, b"data");
    let body = c.nfs(7, &args);
    let mut p = 0;
    assert_eq!(rd32(&body, &mut p), 0, "write OK");

    let mut args = Vec::new();
    opaque(&mut args, &fh);
    be64(&mut args, 0);
    be32(&mut args, 100);
    let body = c.nfs(6, &args);
    let mut p = 4;
    skip_post_op_attr(&body, &mut p);
    rd32(&body, &mut p);
    rd32(&body, &mut p);
    assert_eq!(rd_opaque(&body, &mut p), b"data");

    let mut args = Vec::new();
    opaque(&mut args, &root);
    opaque(&mut args, b"new.txt");
    opaque(&mut args, &root);
    opaque(&mut args, b"moved.txt");
    assert_eq!(rd32(&c.nfs(14, &args), &mut 0), 0, "rename OK");
    assert_eq!(c.lookup(b"new.txt"), Err(NFS3ERR_NOENT));
    assert!(c.lookup(b"moved.txt").is_ok());

    let mut args = Vec::new();
    opaque(&mut args, &root);
    opaque(&mut args, b"moved.txt");
    assert_eq!(rd32(&c.nfs(12, &args), &mut 0), 0, "remove OK");
    assert_eq!(c.lookup(b"moved.txt"), Err(NFS3ERR_NOENT));
}

#[test]
fn read_only_tree_refuses_changes() {
    let mut c = Client::new(false);
    let root = c.root();
    let mut args = Vec::new();
    opaque(&mut args, &root);
    opaque(&mut args, b"x");
    be32(&mut args, 0);
    sattr_none(&mut args);
    assert_eq!(rd32(&c.nfs(8, &args), &mut 0), NFS3ERR_ROFS);
}

/// A read-only tree is never asked for a change, whatever it would answer.
#[test]
fn read_only_tree_is_asked_for_nothing_but_attributes() {
    let mut tree = Tree::new(true);
    let codec = HandleCodec::new(b"k");
    let root = codec.encode(1, key(2)).to_vec();
    let file = codec.encode(1, key(10)).to_vec();
    let mut setattr = Vec::new();
    opaque(&mut setattr, &file);
    sattr_none(&mut setattr);
    be32(&mut setattr, 0);
    let mut write = Vec::new();
    opaque(&mut write, &file);
    be64(&mut write, 0);
    be32(&mut write, 4);
    be32(&mut write, 2);
    opaque(&mut write, b"data");
    let mut create = Vec::new();
    opaque(&mut create, &root);
    opaque(&mut create, b"n");
    be32(&mut create, 0);
    sattr_none(&mut create);
    let mut mkdir = Vec::new();
    opaque(&mut mkdir, &root);
    opaque(&mut mkdir, b"n");
    sattr_none(&mut mkdir);
    let mut symlink = mkdir.clone();
    opaque(&mut symlink, b"target");
    let mut remove = Vec::new();
    opaque(&mut remove, &root);
    opaque(&mut remove, b"f.txt");
    let mut rename = remove.clone();
    opaque(&mut rename, &root);
    opaque(&mut rename, b"g.txt");
    let info = SurfaceInfo {
        writable: false,
        ..tree.info()
    };
    for (proc, args) in [
        (2, &setattr),
        (7, &write),
        (8, &create),
        (9, &mkdir),
        (10, &symlink),
        (12, &remove),
        (13, &remove),
        (14, &rename),
    ] {
        let req = decode(proc, XdrReader::new(args), &codec);
        let mut w = XdrWriter::new();
        let mut ans = Vec::new();
        loop {
            match step(&req, &info, &codec, &ans, &mut w) {
                Turn::Ask(ask) => {
                    assert!(matches!(ask, Ask::Getattr(_)), "proc {proc}");
                    ans.push(tree.answer(&ask));
                }
                _ => break,
            }
        }
        let out = w.into_bytes();
        assert_eq!(rd32(&out, &mut 0), NFS3ERR_ROFS, "proc {proc}");
    }
    assert!(tree.find(key(2), b"f.txt").is_ok());
}

#[test]
fn foreign_handle_is_stale() {
    let mut c = Client::new(false);
    let mut args = Vec::new();
    opaque(&mut args, &HandleCodec::new(b"other").encode(1, key(2)));
    assert_eq!(rd32(&c.nfs(1, &args), &mut 0), NFS3ERR_STALE);
}
