use mist::sidestore::evict::MAX_TOTAL;
use mist::sidestore::gc::Fate;
use mist::sidestore::rows::{is_side_name, is_side_node, synth_key, SideStore};
use mist::sidestore::surface::{is_unsettled, Served, SideStoreSurface};
use mist::surface::{Answer, Ask, CreateKind, NfsError, NfsResult, ReadDirPage, SetAttr};
use mist::types::{Attr, Kind, NodeKey, Ts};
use std::collections::HashMap;

const ROOT: NodeKey = NodeKey {
    ino: 2,
    generation: 1,
};

fn attr(ino: u64, kind: Kind) -> Attr {
    Attr {
        kind,
        mode: if kind == Kind::Dir { 0o755 } else { 0o644 },
        nlink: 1,
        uid: 1000,
        gid: 1000,
        size: 0,
        blocks: 0,
        mtime: Ts { sec: 1, nsec: 0 },
        ctime: Ts { sec: 1, nsec: 0 },
        rdev: 0,
        content_version: ino,
    }
}

/// A tree of one directory behind the side store.
struct Mount {
    files: HashMap<Vec<u8>, u64>,
    created: Vec<Vec<u8>>,
    touched: Vec<NodeKey>,
    side: SideStoreSurface,
    now: i64,
}

impl Mount {
    fn over(store: SideStore) -> Mount {
        let now = 1_000_000;
        Mount {
            files: HashMap::new(),
            created: Vec::new(),
            touched: Vec::new(),
            side: SideStoreSurface::new(ROOT, store, 501, 20, now),
            now,
        }
    }

    fn new() -> Mount {
        Mount::over(SideStore::open(None))
    }

    fn real_getattr(&self, node: NodeKey) -> NfsResult<Attr> {
        if node == ROOT {
            Ok(attr(2, Kind::Dir))
        } else if self.files.values().any(|i| *i == node.ino) {
            Ok(attr(node.ino, Kind::Reg))
        } else {
            Err(NfsError::NoEnt)
        }
    }

    fn real_lookup(&self, dir: NodeKey, name: &[u8]) -> NfsResult<(NodeKey, Attr)> {
        if dir != ROOT {
            return Err(NfsError::NoEnt);
        }
        match self.files.get(name) {
            Some(ino) => Ok((
                NodeKey {
                    ino: *ino,
                    generation: 1,
                },
                attr(*ino, Kind::Reg),
            )),
            None => Err(NfsError::NoEnt),
        }
    }

    fn tree(&mut self, ask: &Ask) -> Answer {
        match ask {
            Ask::Getattr(n) => Answer::Attr(self.real_getattr(*n)),
            Ask::Lookup { dir, name } => Answer::Entry(self.real_lookup(*dir, name)),
            Ask::Readdir { .. } => {
                let entries = self
                    .files
                    .iter()
                    .enumerate()
                    .map(|(i, (name, ino))| mist::surface::DirEntry {
                        name: name.clone(),
                        node: NodeKey {
                            ino: *ino,
                            generation: 1,
                        },
                        cookie: i as u64 + 3,
                        attr: None,
                    })
                    .collect();
                Answer::Page(Ok(ReadDirPage {
                    entries,
                    eof: true,
                    cookieverf: 1,
                }))
            }
            Ask::Create { name, .. } => {
                let ino = 100 + self.files.len() as u64;
                self.files.insert(name.clone(), ino);
                self.created.push(name.clone());
                Answer::Entry(Ok((
                    NodeKey { ino, generation: 1 },
                    attr(ino, Kind::Reg),
                )))
            }
            Ask::Remove { name, .. } => Answer::Done(
                self.files
                    .remove(name)
                    .map(|_| ())
                    .ok_or(NfsError::NoEnt),
            ),
            Ask::Rename {
                from_name, to_name, ..
            } => match self.files.remove(from_name) {
                Some(ino) => {
                    self.files.insert(to_name.clone(), ino);
                    Answer::Done(Ok(()))
                }
                None => Answer::Done(Err(NfsError::NoEnt)),
            },
            Ask::Parent(_) => Answer::Parent(Ok(ROOT)),
            _ => Answer::Done(Err(NfsError::Rofs)),
        }
    }

    fn is_real(&self, dir: NodeKey, name: &[u8]) -> bool {
        is_unsettled(dir, name) && self.real_lookup(dir, name).is_ok()
    }

    fn ask(&mut self, ask: Ask) -> Answer {
        let (found, found_to) = match &ask {
            Ask::Lookup { dir, name } | Ask::Create { dir, name, .. } | Ask::Remove { dir, name, .. } => {
                (self.is_real(*dir, name), false)
            }
            Ask::Rename {
                from_dir,
                from_name,
                to_dir,
                to_name,
            } => (
                self.is_real(*from_dir, from_name),
                self.is_real(*to_dir, to_name),
            ),
            _ => (false, false),
        };
        match self.side.serve(&ask, found, found_to, self.now) {
            Served::Pass => {
                let a = self.tree(&ask);
                if let (Ask::Remove { dir, name, .. }, Answer::Done(Ok(()))) = (&ask, &a) {
                    self.side.removed(*dir, name);
                }
                a
            }
            Served::Reply(a) => a,
            Served::Touched { answer, dir } => {
                self.touched.push(dir);
                answer
            }
            Served::Created { node, dir } => {
                let fates: Vec<Fate> = self
                    .side
                    .store
                    .gc_asks()
                    .iter()
                    .map(|q| Fate {
                        parent: match q.parent {
                            Some(p) => self.real_getattr(p),
                            None => Err(NfsError::Io),
                        },
                        anchor: match (&q.parent, &q.anchor) {
                            (Some(p), Some(a)) => self.real_lookup(*p, a),
                            _ => Err(NfsError::Io),
                        },
                    })
                    .collect();
                self.touched.push(dir);
                self.side.created(node, &fates, self.now)
            }
        }
    }

    fn create(&mut self, dir: NodeKey, name: &[u8], kind: CreateKind) -> NfsResult<(NodeKey, Attr)> {
        self.ask(Ask::Create {
            dir,
            name: name.to_vec(),
            kind,
            mode: 0o644,
        })
        .entry()
    }

    fn file(&mut self, dir: NodeKey, name: &[u8]) -> NodeKey {
        self.create(dir, name, CreateKind::File { exclusive: false })
            .unwrap()
            .0
    }

    fn lookup(&mut self, dir: NodeKey, name: &[u8]) -> NfsResult<(NodeKey, Attr)> {
        self.ask(Ask::Lookup {
            dir,
            name: name.to_vec(),
        })
        .entry()
    }

    fn remove(&mut self, dir: NodeKey, name: &[u8], is_dir: bool) -> NfsResult<()> {
        self.ask(Ask::Remove {
            dir,
            name: name.to_vec(),
            is_dir,
        })
        .done()
    }

    fn write(&mut self, node: NodeKey, offset: u64, data: &[u8]) -> NfsResult<Attr> {
        self.ask(Ask::Write {
            node,
            offset,
            data: data.to_vec(),
            sync: true,
        })
        .attr()
    }

    fn read(&mut self, node: NodeKey, offset: u64, count: u32) -> (Vec<u8>, bool) {
        let a = self.ask(Ask::Read {
            node,
            offset,
            count,
        });
        let r = a.data().unwrap();
        (r.data.clone(), r.eof)
    }

    fn list(&mut self, dir: NodeKey, cookie: u64, max_entries: usize) -> ReadDirPage {
        let a = self.ask(Ask::Readdir {
            dir,
            cookie,
            max_entries,
            want_attrs: true,
        });
        a.page().unwrap().clone()
    }
}

#[test]
fn appledouble_intercepted_and_hidden() {
    let mut m = Mount::new();
    m.file(ROOT, b"file.txt");
    let node = m.file(ROOT, b"._file.txt");
    assert_eq!(m.created, vec![b"file.txt".to_vec()]);

    m.write(node, 0, b"xattr-blob").unwrap();
    assert_eq!(m.read(node, 0, 100), (b"xattr-blob".to_vec(), true));

    assert!(m.lookup(ROOT, b"._file.txt").is_ok());
    let page = m.list(ROOT, 0, 100);
    assert!(page.entries.iter().all(|e| e.name != b"._file.txt"));
}

#[test]
fn real_guest_entry_wins() {
    let mut m = Mount::new();
    m.files.insert(b".DS_Store".to_vec(), 77);
    let (node, _) = m.lookup(ROOT, b".DS_Store").unwrap();
    assert_eq!(node.ino, 77);
}

#[test]
fn remove_of_real_file_drops_companion() {
    let mut m = Mount::new();
    m.file(ROOT, b"doc.txt");
    m.file(ROOT, b"._doc.txt");
    m.remove(ROOT, b"doc.txt", false).unwrap();
    assert_eq!(m.lookup(ROOT, b"._doc.txt").err(), Some(NfsError::NoEnt));
}

#[test]
fn synthesized_directory_lists_children() {
    let mut m = Mount::new();
    let (dir, _) = m.create(ROOT, b".fseventsd", CreateKind::Dir).unwrap();
    m.file(dir, b"no_log");
    assert!(m.created.is_empty());
    let page = m.list(dir, 0, 100);
    assert_eq!(page.entries.len(), 1);
    assert_eq!(page.entries[0].name, b"no_log");
    assert_eq!(page.entries[0].cookie, 3);
    assert_eq!(m.remove(ROOT, b".fseventsd", true), Err(NfsError::NotEmpty));
    m.remove(dir, b"no_log", false).unwrap();
    m.remove(ROOT, b".fseventsd", true).unwrap();
    assert!(m.touched.contains(&ROOT));
}

#[test]
fn listing_goes_on_from_a_cookie() {
    let mut m = Mount::new();
    let (dir, _) = m.create(ROOT, b".Trashes", CreateKind::Dir).unwrap();
    for n in [b"c", b"a", b"b"] {
        m.file(dir, n);
    }
    let p = m.list(dir, 0, 2);
    assert_eq!(p.entries.iter().map(|e| e.name.clone()).collect::<Vec<_>>(), vec![b"a", b"b"]);
    assert!(!p.eof);
    let p = m.list(dir, 4, 2);
    assert_eq!(p.entries.len(), 1);
    assert_eq!(p.entries[0].name, b"c");
    assert!(p.eof);
}

#[test]
fn orphan_appledouble_swept_after_linger() {
    let mut m = Mount::new();
    let node = m.file(ROOT, b"._ghost");
    m.ask(Ask::Setattr {
        node,
        set: SetAttr {
            mtime: Some(Ts { sec: 1, nsec: 0 }),
            ..SetAttr::default()
        },
    })
    .attr()
    .unwrap();
    m.file(ROOT, b".DS_Store");
    assert_eq!(m.lookup(ROOT, b"._ghost").err(), Some(NfsError::NoEnt));
}

#[test]
fn persistence_across_reopen() {
    let mut m = Mount::new();
    let node = m.file(ROOT, b".DS_Store");
    m.write(node, 0, b"finder-state").unwrap();
    let bytes = m.side.store.flush_if_dirty().unwrap();
    assert!(m.side.store.flush_if_dirty().is_none());

    let mut m = Mount::over(SideStore::open(Some(&bytes)));
    let (node, a) = m.lookup(ROOT, b".DS_Store").unwrap();
    assert_eq!(a.size, 12);
    assert_eq!(m.read(node, 0, 100).0, b"finder-state");
    let mut m = Mount::over(SideStore::open(Some(b"\xff\xff")));
    assert!(m.lookup(ROOT, b".DS_Store").is_err());
}

#[test]
fn metadata_never_index_synthesized_at_root() {
    let mut m = Mount::new();
    let (_, a) = m.lookup(ROOT, b".metadata_never_index").unwrap();
    assert_eq!(a.kind, Kind::Reg);
    assert_eq!(a.size, 0);
    assert_eq!(a.mode, 0o444);
    assert_eq!((a.uid, a.gid), (501, 20));
}

#[test]
fn names_and_nodes_of_the_store() {
    assert!(is_side_name(b".DS_Store"));
    assert!(is_side_name(b"._x"));
    assert!(is_side_name(b"._"));
    assert!(is_side_name(b".hidden"));
    assert!(!is_side_name(b".DS_Store2"));
    assert!(!is_side_name(b"file"));
    let k = synth_key(ROOT, b".DS_Store");
    assert!(is_side_node(k));
    assert_eq!(k.generation, u32::MAX);
    let mut b = Vec::new();
    b.extend_from_slice(&2u64.to_le_bytes());
    b.extend_from_slice(&1u32.to_le_bytes());
    b.extend_from_slice(b".DS_Store");
    let d = blake3::hash(&b);
    let mut first = [0u8; 8];
    first.copy_from_slice(&d.as_bytes()[..8]);
    assert_eq!(k.ino, (1 << 63) | (u64::from_le_bytes(first) >> 1));
}

#[test]
fn rows_have_limits() {
    let mut m = Mount::new();
    let node = m.file(ROOT, b".DS_Store");
    assert_eq!(m.write(node, 1 << 20, b"x").err(), Some(NfsError::NoSpace));
    assert_eq!(m.write(node, u64::MAX, b"x").err(), Some(NfsError::NoSpace));
    assert!(m.write(node, (1 << 20) - 1, b"x").is_ok());
    let gone = NodeKey {
        ino: 1 << 63,
        generation: 0,
    };
    assert_eq!(m.write(gone, 0, b"x").err(), Some(NfsError::Stale));
    assert_eq!(
        m.create(ROOT, b".DS_Store", CreateKind::File { exclusive: true }).err(),
        Some(NfsError::Exist)
    );
    assert_eq!(
        m.create(ROOT, b"._fifo", CreateKind::Fifo).err(),
        Some(NfsError::Access)
    );
    let big = m.ask(Ask::Setattr {
        node,
        set: SetAttr {
            size: Some((1 << 20) + 1),
            ..SetAttr::default()
        },
    });
    assert_eq!(big.attr().err(), Some(NfsError::NoSpace));
    assert_eq!(m.remove(ROOT, b".DS_Store", true), Err(NfsError::NotDir));
}

#[test]
fn oldest_rows_go_when_there_is_too_much() {
    let mut m = Mount::new();
    let data = vec![5u8; 1 << 20];
    let mut nodes = Vec::new();
    for i in 0..65 {
        m.now += 1;
        let n = m.file(ROOT, format!("._f{i}").as_bytes());
        m.files.insert(format!("f{i}").into_bytes(), 200 + i);
        m.write(n, 0, &data).unwrap();
        nodes.push(n);
    }
    let total: usize = m.side.store.rows.rows.iter().map(|(_, r)| r.data.len()).sum();
    assert!(total <= MAX_TOTAL);
    assert!(m.side.store.row_at(nodes[0]).is_none());
    assert!(m.side.store.row_at(nodes[64]).is_some());
}

#[test]
fn renames_stay_on_one_side() {
    let mut m = Mount::new();
    let n = m.file(ROOT, b"._a");
    m.write(n, 0, b"abc").unwrap();
    let mv = |m: &mut Mount, from: &[u8], to: &[u8]| {
        m.ask(Ask::Rename {
            from_dir: ROOT,
            from_name: from.to_vec(),
            to_dir: ROOT,
            to_name: to.to_vec(),
        })
        .done()
    };
    assert_eq!(mv(&mut m, b"._a", b"plain"), Err(NfsError::Access));
    assert_eq!(mv(&mut m, b"plain", b"._a"), Err(NfsError::Access));
    assert_eq!(mv(&mut m, b"._missing", b"._b"), Err(NfsError::NoEnt));
    assert_eq!(mv(&mut m, b"._a", b"._b"), Ok(()));
    assert!(m.lookup(ROOT, b"._a").is_err());
    let (b, _) = m.lookup(ROOT, b"._b").unwrap();
    assert_eq!(m.read(b, 1, 1), (b"b".to_vec(), false));
}

#[test]
fn renames_onto_a_real_entry_pass() {
    let mut m = Mount::new();
    m.files.insert(b"plain".to_vec(), 7);
    m.files.insert(b"._real".to_vec(), 8);
    let moved = m.ask(Ask::Rename {
        from_dir: ROOT,
        from_name: b"plain".to_vec(),
        to_dir: ROOT,
        to_name: b"._real".to_vec(),
    });
    assert_eq!(moved.done(), Ok(()));
    assert_eq!(m.files.get(&b"._real"[..]), Some(&7));
    assert!(!m.files.contains_key(&b"plain"[..]));
}

#[test]
fn parents_pass_through() {
    let mut m = Mount::new();
    let n = m.file(ROOT, b"._a");
    let of_row = m.ask(Ask::Parent(n));
    assert_eq!(of_row.parent(), Err(NfsError::NoEnt));
    let of_file = m.ask(Ask::Parent(NodeKey {
        ino: 7,
        generation: 1,
    }));
    assert_eq!(of_file.parent(), Ok(ROOT));
}
