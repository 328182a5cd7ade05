use mist::handle::HandleCodec;
use mist::nfs41::attrs::{
    change_of, decode_settable, Bitmap, A_CHANGE, A_MODE, A_MOUNTED_ON_FILEID, A_SIZE,
    A_SUPPATTR_EXCLCREAT, A_TYPE,
};
use mist::nfs41::call::{handle_call, Call41};
use mist::nfs41::compound::{begin, unbind, Fetch, RunAct};
use mist::nfs41::deleg::{classify, parse_cb_reply_status, Incoming, Recall};
use mist::nfs41::ops::{Env, Turn41};
use mist::nfs41::state::{Delegation, OpenState, State};
use mist::surface::{
    Answer, Ask, DirEntry, FsStat, NfsError, ReadDirPage, ReadResult, SurfaceInfo,
};
use mist::types::{Attr, Kind, NodeKey, Ts};
use mist::xdr::{XdrReader, XdrWriter};

#[test]
fn bitmap_roundtrip() {
    let b = Bitmap::from_attrs(&[
        A_TYPE,
        A_CHANGE,
        A_MODE,
        A_MOUNTED_ON_FILEID,
        A_SUPPATTR_EXCLCREAT,
    ]);
    let mut w = XdrWriter::new();
    b.encode(&mut w);
    let bytes = w.into_bytes();
    let mut r = XdrReader::new(&bytes);
    let d = Bitmap::decode(&mut r).unwrap();
    assert_eq!(b, d);
    assert!(d.has(A_SUPPATTR_EXCLCREAT));
    assert!(!d.has(A_SIZE));
    let set: Vec<u32> = d.iter();
    assert_eq!(
        set,
        vec![
            A_TYPE,
            A_CHANGE,
            A_MODE,
            A_MOUNTED_ON_FILEID,
            A_SUPPATTR_EXCLCREAT
        ]
    );
}

fn at(kind: Kind, size: u64) -> Attr {
    Attr {
        kind,
        mode: 0o644,
        nlink: 1,
        uid: 501,
        gid: 20,
        size,
        blocks: size.div_ceil(512),
        mtime: Ts { sec: 7, nsec: 1 },
        ctime: Ts { sec: 7, nsec: 1 },
        rdev: 0,
        content_version: 1,
    }
}

#[test]
fn change_attr_rotates_on_content_change() {
    let mut a = Attr {
        kind: Kind::Reg,
        mode: 0o644,
        nlink: 1,
        uid: 0,
        gid: 0,
        size: 10,
        blocks: 1,
        mtime: Ts { sec: 5, nsec: 1 },
        ctime: Ts { sec: 5, nsec: 1 },
        rdev: 0,
        content_version: 0,
    };
    let c1 = change_of(&a);
    a.mtime.nsec = 2;
    assert_ne!(c1, change_of(&a));
}

#[test]
fn settable_decode() {
    let mut w = XdrWriter::new();
    let bm = Bitmap::from_attrs(&[A_SIZE, A_MODE]);
    bm.encode(&mut w);
    let mut vals = XdrWriter::new();
    vals.u64(4096);
    vals.u32(0o600);
    w.opaque(&vals.into_bytes());
    let bytes = w.into_bytes();
    let mut r = XdrReader::new(&bytes);
    let (sa, got) = decode_settable(&mut r, Ts { sec: 0, nsec: 0 }).unwrap();
    assert_eq!(sa.size, Some(4096));
    assert_eq!(sa.mode, Some(0o600));
    assert!(got.has(A_SIZE));
}

#[test]
fn exchange_then_session() {
    let mut st = State::new(1, 2);
    let (cid, seq) = st.exchange_id(b"mac-client", [1; 8]);
    assert_eq!(seq, 1);
    let (cid2, _) = st.exchange_id(b"mac-client", [1; 8]);
    assert_eq!(cid, cid2, "same owner+verifier → same clientid");
    let id = st.create_session(cid, 0x40000000, 5).unwrap();
    assert_eq!(st.session(&id).unwrap().clientid, cid);
    assert!(st.destroy_session(&id));
    assert!(st.session(&id).is_none());
}

fn open_of(ino: u64) -> OpenState {
    OpenState {
        node: NodeKey { ino, generation: 1 },
        seqid: 1,
        share_access: 1,
        owner: vec![],
    }
}

#[test]
fn client_reboot_drops_state() {
    let mut st = State::new(1, 2);
    let (cid, _) = st.exchange_id(b"o", [1; 8]);
    st.create_session(cid, 0, 5).unwrap();
    st.opens.insert([3; 12], open_of(1));
    let (cid2, _) = st.exchange_id(b"o", [2; 8]);
    assert_ne!(cid, cid2);
    assert!(st.opens.rows.is_empty());
    assert!(st.sessions.rows.is_empty());
}

#[test]
fn destroy_client_drops_stateids() {
    let mut st = State::new(1, 2);
    let (cid, _) = st.exchange_id(b"o", [1; 8]);
    st.create_session(cid, 0, 5).unwrap();
    let node = NodeKey {
        ino: 1,
        generation: 1,
    };
    st.opens.insert([3; 12], open_of(1));
    st.locks.insert([4; 12], node);
    st.delegations.insert(
        node,
        Delegation {
            stateid_other: [5; 12],
            node,
            recalling: false,
            granted_at: 0,
            recalled_at: None,
        },
    );

    assert!(st.destroy_client(cid));
    assert!(st.sessions.rows.is_empty());
    assert!(st.opens.rows.is_empty());
    assert!(st.locks.rows.is_empty());
    assert!(st.delegations.rows.is_empty());
    assert!(!st.destroy_client(cid));
}

fn key(ino: u64) -> NodeKey {
    NodeKey { ino, generation: 1 }
}

/// One directory with one file.
fn answer(ask: &Ask) -> Answer {
    match ask {
        Ask::Getattr(n) => Answer::Attr(match n.ino {
            2 => Ok(at(Kind::Dir, 4096)),
            10 => Ok(at(Kind::Reg, 12)),
            _ => Err(NfsError::Stale),
        }),
        Ask::Lookup { dir, name } => Answer::Entry(if dir.ino == 2 && name == b"hello.txt" {
            Ok((key(10), at(Kind::Reg, 12)))
        } else {
            Err(NfsError::NoEnt)
        }),
        Ask::Readdir { want_attrs, .. } => Answer::Page(Ok(ReadDirPage {
            entries: vec![DirEntry {
                name: b"hello.txt".to_vec(),
                node: key(10),
                cookie: 3,
                attr: if *want_attrs {
                    Some(at(Kind::Reg, 12))
                } else {
                    None
                },
            }],
            eof: true,
            cookieverf: 1,
        })),
        Ask::Read { offset, count, .. } => {
            let d = b"hello, mist\n";
            let s = (*offset as usize).min(d.len());
            let e = (s + *count as usize).min(d.len());
            Answer::Data(Ok(ReadResult {
                data: d[s..e].to_vec(),
                eof: e >= d.len(),
            }))
        }
        Ask::ReadSendable { .. } => Answer::Range(None),
        Ask::Parent(_) => Answer::Parent(Err(NfsError::NoEnt)),
        _ => Answer::Done(Err(NfsError::Rofs)),
    }
}

/// A server that is given whole records.
struct Server {
    st: State,
    codec: HandleCodec,
    bound: Vec<[u8; 16]>,
    now: u64,
}

impl Server {
    fn new() -> Server {
        Server {
            st: State::new(77, 88),
            codec: HandleCodec::new(b"test-secret"),
            bound: Vec::new(),
            now: 1000,
        }
    }

    fn info(&self) -> SurfaceInfo {
        SurfaceInfo {
            share: 0,
            root: key(2),
            writable: false,
            stable_writes: false,
            fsstat: FsStat::default(),
        }
    }

    fn call(&mut self, record: &[u8]) -> Vec<u8> {
        let info = self.info();
        self.now += 1000;
        let env = Env {
            nonce: self.now,
            now: self.now,
        };
        match handle_call(record) {
            Call41::Dropped => panic!("dropped"),
            Call41::Reply(w) => w.into_bytes(),
            Call41::Compound(mut r, mut w) => {
                let mut run = match begin(&mut r, &mut w) {
                    Some(run) => run,
                    None => return w.into_bytes(),
                };
                let mut replayed = false;
                while !replayed {
                    match run.act() {
                        RunAct::Fetch => {
                            let f = run.next_op(
                                &mut r,
                                &mut w,
                                &mut self.st,
                                &mut self.bound,
                                Ts { sec: 9, nsec: 0 },
                            );
                            replayed = matches!(f, Fetch::Replayed);
                        }
                        RunAct::Eval => {
                            match run.eval(&mut w, &mut self.st, &info, &self.codec, &env) {
                                Turn41::Ask(ask) => run.answer(answer(&ask)),
                                _ => {}
                            }
                        }
                        RunAct::Finish => break,
                    }
                }
                if !replayed {
                    run.finish(&mut w, &mut self.st);
                }
                w.into_bytes()
            }
        }
    }
}

struct Xw(Vec<u8>);

impl Xw {
    fn new() -> Self {
        Xw(Vec::new())
    }
    fn u32(&mut self, v: u32) {
        self.0.extend_from_slice(&v.to_be_bytes());
    }
    fn u64(&mut self, v: u64) {
        self.0.extend_from_slice(&v.to_be_bytes());
    }
    fn opaque(&mut self, d: &[u8]) {
        self.u32(d.len() as u32);
        self.fixed(d);
    }
    fn fixed(&mut self, d: &[u8]) {
        self.0.extend_from_slice(d);
        while self.0.len() % 4 != 0 {
            self.0.push(0);
        }
    }
}

struct Xr<'a>(&'a [u8], usize);

impl<'a> Xr<'a> {
    fn u32(&mut self) -> u32 {
        let v = u32::from_be_bytes(self.0[self.1..self.1 + 4].try_into().unwrap());
        self.1 += 4;
        v
    }
    fn u64(&mut self) -> u64 {
        let v = u64::from_be_bytes(self.0[self.1..self.1 + 8].try_into().unwrap());
        self.1 += 8;
        v
    }
    fn opaque(&mut self) -> &'a [u8] {
        let n = self.u32() as usize;
        self.fixed(n)
    }
    fn fixed(&mut self, n: usize) -> &'a [u8] {
        let d = &self.0[self.1..self.1 + n];
        self.1 += n + (4 - n % 4) % 4;
        d
    }
}

fn compound(xid: u32, nops: u32, ops: &[u8]) -> Vec<u8> {
    let mut w = Xw::new();
    w.u32(xid);
    w.u32(0);
    w.u32(2);
    w.u32(100003);
    w.u32(4);
    w.u32(1);
    w.u32(0);
    w.opaque(&[]);
    w.u32(0);
    w.opaque(&[]);
    w.opaque(b"t");
    w.u32(1);
    w.u32(nops);
    w.fixed(ops);
    w.0
}

fn parse_reply(rec: &[u8]) -> (u32, Xr<'_>) {
    let mut r = Xr(rec, 0);
    let _xid = r.u32();
    assert_eq!(r.u32(), 1, "reply");
    assert_eq!(r.u32(), 0, "accepted");
    let _vf = r.u32();
    let _ = r.opaque();
    assert_eq!(r.u32(), 0, "accept success");
    let status = r.u32();
    let _tag = r.opaque();
    let _numres = r.u32();
    (status, r)
}

fn seq_op(w: &mut Xw, sid: &[u8; 16], seqid: u32, slot: u32, cachethis: bool) {
    w.u32(53);
    w.fixed(sid);
    w.u32(seqid);
    w.u32(slot);
    w.u32(0);
    w.u32(if cachethis { 1 } else { 0 });
}

fn open_session(s: &mut Server, owner: &[u8], flags: u32) -> (u64, [u8; 16]) {
    let mut ops = Xw::new();
    ops.u32(42);
    ops.fixed(&[9u8; 8]);
    ops.opaque(owner);
    ops.u32(0);
    ops.u32(0);
    ops.u32(0);
    let rec = s.call(&compound(1, 1, &ops.0));
    let (st, mut r) = parse_reply(&rec);
    assert_eq!(st, 0, "EXCHANGE_ID failed");
    assert_eq!(r.u32(), 42);
    assert_eq!(r.u32(), 0);
    let clientid = r.u64();

    let mut ops = Xw::new();
    ops.u32(43);
    ops.u64(clientid);
    ops.u32(1);
    ops.u32(flags);
    for _ in 0..2 {
        ops.u32(0);
        ops.u32(1 << 20);
        ops.u32(1 << 20);
        ops.u32(64 << 10);
        ops.u32(16);
        ops.u32(64);
        ops.u32(0);
    }
    ops.u32(0x40000000);
    ops.u32(1);
    ops.u32(0);
    let rec = s.call(&compound(2, 1, &ops.0));
    let (st, mut r) = parse_reply(&rec);
    assert_eq!(st, 0, "CREATE_SESSION failed");
    assert_eq!(r.u32(), 43);
    assert_eq!(r.u32(), 0);
    (clientid, r.fixed(16).try_into().unwrap())
}

#[test]
fn v41_session_open_delegation_recall() {
    let mut s = Server::new();
    let (clientid, sid) = open_session(&mut s, b"test-client", 1);

    let mut ops = Xw::new();
    seq_op(&mut ops, &sid, 1, 0, false);
    ops.u32(58);
    ops.u32(0);
    let rec = s.call(&compound(3, 2, &ops.0));
    assert_eq!(parse_reply(&rec).0, 0, "RECLAIM_COMPLETE failed");

    let mut ops = Xw::new();
    seq_op(&mut ops, &sid, 2, 0, false);
    ops.u32(24);
    ops.u32(10);
    ops.u32(9);
    ops.u32(2);
    ops.u32((1 << 1) | (1 << 3) | (1 << 4));
    ops.u32(0);
    let rec = s.call(&compound(4, 4, &ops.0));
    let (st, mut r) = parse_reply(&rec);
    assert_eq!(st, 0, "mount-path compound failed");
    assert_eq!(r.u32(), 53);
    assert_eq!(r.u32(), 0);
    r.fixed(16);
    for _ in 0..5 {
        r.u32();
    }
    assert_eq!(r.u32(), 24);
    assert_eq!(r.u32(), 0);
    assert_eq!(r.u32(), 10);
    assert_eq!(r.u32(), 0);
    let rootfh = r.opaque().to_vec();
    assert!(!rootfh.is_empty());
    assert_eq!(r.u32(), 9);
    assert_eq!(r.u32(), 0);
    let bm_len = r.u32();
    for _ in 0..bm_len {
        r.u32();
    }
    let vals = r.opaque();
    let mut vr = Xr(vals, 0);
    assert_eq!(vr.u32(), 2, "root is a directory");

    let mut ops = Xw::new();
    seq_op(&mut ops, &sid, 3, 0, false);
    ops.u32(22);
    ops.opaque(&rootfh);
    ops.u32(15);
    ops.opaque(b"hello.txt");
    ops.u32(10);
    ops.u32(18);
    ops.u32(0);
    ops.u32(1);
    ops.u32(0);
    ops.u64(clientid);
    ops.opaque(b"owner-1");
    ops.u32(0);
    ops.u32(4);
    ops.u32(25);
    ops.u32(0);
    ops.fixed(&[0u8; 12]);
    ops.u64(0);
    ops.u32(1024);
    let rec = s.call(&compound(5, 6, &ops.0));
    let (st, mut r) = parse_reply(&rec);
    assert_eq!(st, 0, "open compound failed");
    assert_eq!(r.u32(), 53);
    assert_eq!(r.u32(), 0);
    r.fixed(16);
    for _ in 0..5 {
        r.u32();
    }
    assert_eq!(r.u32(), 22);
    assert_eq!(r.u32(), 0);
    assert_eq!(r.u32(), 15);
    assert_eq!(r.u32(), 0);
    assert_eq!(r.u32(), 10);
    assert_eq!(r.u32(), 0);
    let filefh = r.opaque().to_vec();
    assert_eq!(r.u32(), 18);
    assert_eq!(r.u32(), 0);
    let _open_seq = r.u32();
    let _open_other = r.fixed(12).to_vec();
    r.u32();
    r.u64();
    r.u64();
    let _rflags = r.u32();
    let bml = r.u32();
    for _ in 0..bml {
        r.u32();
    }
    let deleg_type = r.u32();
    assert_eq!(deleg_type, 1, "read delegation granted");
    let _dseq = r.u32();
    let deleg_other: [u8; 12] = r.fixed(12).try_into().unwrap();
    let _recall_flag = r.u32();
    r.u32();
    r.u32();
    r.u32();
    let _who = r.opaque();
    assert_eq!(r.u32(), 25);
    assert_eq!(r.u32(), 0);
    let eof = r.u32();
    let data = r.opaque();
    assert_eq!(data, b"hello, mist\n");
    assert_eq!(eof, 1);

    s.now += 1000;
    let (rsid, other) = match s.st.recall_node(key(10), s.now) {
        Recall::Send { sid, other } => (sid, other),
        other => panic!("a recall over the backchannel, not {other:?}"),
    };
    assert_eq!(rsid, sid);
    let (cb_xid, cb) = s
        .st
        .begin_recall(&rsid, &other, key(10), 0, &s.codec)
        .unwrap();
    let mut cr = Xr(&cb, 0);
    assert_eq!(cr.u32(), cb_xid);
    assert_eq!(cr.u32(), 0, "backchannel message is a CALL");
    assert_eq!(cr.u32(), 2);
    assert_eq!(cr.u32(), 0x40000000, "cb_program");
    assert_eq!(cr.u32(), 1);
    assert_eq!(cr.u32(), 1, "CB_COMPOUND");
    cr.u32();
    cr.opaque();
    cr.u32();
    cr.opaque();
    let _tag = cr.opaque();
    assert_eq!(cr.u32(), 1, "minor");
    cr.u32();
    assert_eq!(cr.u32(), 2, "two cb ops");
    assert_eq!(cr.u32(), 11, "CB_SEQUENCE");
    cr.fixed(16);
    cr.u32();
    cr.u32();
    cr.u32();
    cr.u32();
    assert_eq!(cr.u32(), 0, "no referring lists");
    assert_eq!(cr.u32(), 4, "CB_RECALL");
    let _sid_seq = cr.u32();
    let recalled: [u8; 12] = cr.fixed(12).try_into().unwrap();
    assert_eq!(recalled, deleg_other, "recalled the granted delegation");
    let _trunc = cr.u32();
    let recalled_fh = cr.opaque();
    assert_eq!(recalled_fh, filefh);

    let mut w = Xw::new();
    w.u32(cb_xid);
    w.u32(1);
    w.u32(0);
    w.u32(0);
    w.opaque(&[]);
    w.u32(0);
    w.u32(0);
    w.opaque(b"");
    w.u32(1);
    w.u32(11);
    w.u32(0);
    assert!(matches!(classify(&w.0), Incoming::CbReply { .. }));
    assert_eq!(parse_cb_reply_status(&w.0), Some(0));
    assert!(matches!(s.st.recall_node(key(10), s.now), Recall::Nothing));

    let mut ops = Xw::new();
    seq_op(&mut ops, &sid, 4, 0, false);
    ops.u32(22);
    ops.opaque(&filefh);
    ops.u32(8);
    ops.u32(1);
    ops.fixed(&deleg_other);
    let rec = s.call(&compound(6, 3, &ops.0));
    assert_eq!(parse_reply(&rec).0, 0, "DELEGRETURN failed");

    assert_eq!(s.st.recall_metrics.recalls_sent, 1);
    assert_eq!(s.st.recall_metrics.returns, 1);
    assert!(s.st.recall_metrics.total_recall_ns > 0, "recall latency recorded");
    assert!(!s.st.expire_recall(key(10), &deleg_other));
    let (granted, recalls, returned, revoked, held) = s.st.deleg_snapshot();
    assert_eq!((granted, recalls, returned, revoked, held), (1, 1, 1, 0, 0));
    let bound = s.bound.clone();
    unbind(&mut s.st, &bound);
    assert!(s.st.backchannels.rows.is_empty());
}

#[test]
fn v41_sequence_replay_returns_cached_reply() {
    let mut s = Server::new();
    let (_, sid) = open_session(&mut s, b"c2", 0);

    let mut ops = Xw::new();
    seq_op(&mut ops, &sid, 1, 0, true);
    ops.u32(24);
    ops.u32(10);
    let first = s.call(&compound(3, 3, &ops.0));
    assert_eq!(parse_reply(&first).0, 0);

    let mut ops = Xw::new();
    seq_op(&mut ops, &sid, 1, 0, true);
    ops.u32(24);
    ops.u32(10);
    let second = s.call(&compound(3, 3, &ops.0));
    assert_eq!(first, second, "replay must return the cached reply");

    let mut ops = Xw::new();
    seq_op(&mut ops, &sid, 4, 0, false);
    ops.u32(24);
    let third = s.call(&compound(4, 2, &ops.0));
    assert_eq!(parse_reply(&third).0, 10063, "SEQ_MISORDERED");
}

/// A compound that failed is answered again byte for byte, and nothing of it runs again.
#[test]
fn replay_of_a_failed_compound_is_the_same_reply() {
    let mut s = Server::new();
    let (_, sid) = open_session(&mut s, b"c3", 0);
    let mut ops = Xw::new();
    seq_op(&mut ops, &sid, 1, 0, true);
    ops.u32(24);
    ops.u32(15);
    ops.opaque(b"missing");
    ops.u32(10);
    let first = s.call(&compound(3, 4, &ops.0));
    let (status, mut r) = parse_reply(&first);
    assert_eq!(status, 2, "NOENT");
    assert_eq!(r.u32(), 53);
    let served = s.st.ops_served;
    let second = s.call(&compound(3, 4, &ops.0));
    assert_eq!(first, second);
    assert_eq!(s.st.ops_served, served);
}

/// Changes of a read-only tree are refused before the tree is asked.
#[test]
fn read_only_tree_refuses_v41_changes() {
    let mut s = Server::new();
    let (_, sid) = open_session(&mut s, b"ro", 0);
    let mut remove = Xw::new();
    remove.u32(28);
    remove.opaque(b"hello.txt");
    let mut rename = Xw::new();
    rename.u32(32);
    rename.u32(29);
    rename.opaque(b"hello.txt");
    rename.opaque(b"other.txt");
    let mut mkdir = Xw::new();
    mkdir.u32(6);
    mkdir.u32(2);
    mkdir.opaque(b"dir");
    mkdir.u32(0);
    mkdir.opaque(&[]);
    for (seq, nops, op) in [(1, 3, remove), (2, 4, rename), (3, 3, mkdir)] {
        let mut ops = Xw::new();
        seq_op(&mut ops, &sid, seq, 0, false);
        ops.u32(24);
        ops.fixed(&op.0);
        assert_eq!(parse_reply(&s.call(&compound(20 + seq, nops, &ops.0))).0, 30);
    }
}

#[test]
fn rebooted_client_gets_a_number_that_was_not_in_use() {
    let mut st = State::new(1, 2);
    let (first, _) = st.exchange_id(b"a", [1; 8]);
    let (other, _) = st.exchange_id(b"b", [1; 8]);
    let (again, seq) = st.exchange_id(b"a", [2; 8]);
    assert!(again != first && again != other);
    assert_eq!(seq, 1);
    assert!(st.create_session(first, 0, 5).is_none());
    assert!(st.create_session(again, 0, 5).is_some());
    st.next_clientid = other;
    let (third, _) = st.exchange_id(b"c", [1; 8]);
    assert!(third != other && third != again);
    assert!(st.clients.get(&other).is_some());
}

/// An attribute past the three known words is an error, not an unknown one to pass over.
#[test]
fn settable_attributes_past_the_words_are_refused() {
    let mut w = XdrWriter::new();
    for v in [4u32, 0, 0, 0, 1, 0] {
        w.u32(v);
    }
    let bytes = w.into_bytes();
    assert!(decode_settable(&mut XdrReader::new(&bytes), Ts { sec: 0, nsec: 0 }).is_err());
    let mut w = XdrWriter::new();
    for v in [4u32, 0, 0, 0, 0, 0] {
        w.u32(v);
    }
    let bytes = w.into_bytes();
    let (sa, _) = decode_settable(&mut XdrReader::new(&bytes), Ts { sec: 0, nsec: 0 }).unwrap();
    assert_eq!(sa.size, None);
}

#[test]
fn other_versions_and_programs() {
    let mut s = Server::new();
    let mut m = compound(1, 0, &[]);
    m[19] = 3;
    let r = s.call(&m);
    assert_eq!(&r[20..], &[0, 0, 0, 2, 0, 0, 0, 4, 0, 0, 0, 4]);
    let mut m = compound(1, 0, &[]);
    m[15] = 0;
    let r = s.call(&m);
    assert_eq!(&r[20..], &[0, 0, 0, 1]);
}

#[test]
fn stale_stateids_are_told_apart_from_bad_ones() {
    let mut s = Server::new();
    let (_, sid) = open_session(&mut s, b"stale", 0);
    let stale = [9u8; 12];
    let mut bad = [9u8; 12];
    bad[9..].copy_from_slice(&s.st.boot_verifier[..3]);
    let mut seq = 0;
    let mut ask = |op: u32, args: &dyn Fn(&mut Xw, &[u8; 12]), other: &[u8; 12]| {
        seq += 1;
        let mut ops = Xw::new();
        seq_op(&mut ops, &sid, seq, 0, false);
        ops.u32(24);
        ops.u32(op);
        args(&mut ops, other);
        parse_reply(&s.call(&compound(10 + seq, 3, &ops.0))).0
    };
    let close = |w: &mut Xw, other: &[u8; 12]| {
        w.u32(0);
        w.u32(1);
        w.fixed(other);
    };
    let downgrade = |w: &mut Xw, other: &[u8; 12]| {
        w.u32(1);
        w.fixed(other);
        w.u32(0);
        w.u32(1);
        w.u32(0);
    };
    let unlock = |w: &mut Xw, other: &[u8; 12]| {
        w.u32(1);
        w.u32(0);
        w.u32(1);
        w.fixed(other);
        w.u64(0);
        w.u64(1);
    };
    let read = |w: &mut Xw, other: &[u8; 12]| {
        w.u32(1);
        w.fixed(other);
        w.u64(0);
        w.u32(10);
    };
    let give_back = |w: &mut Xw, other: &[u8; 12]| {
        w.u32(1);
        w.fixed(other);
    };
    let cases: [(u32, &dyn Fn(&mut Xw, &[u8; 12])); 5] =
        [(4, &close), (21, &downgrade), (14, &unlock), (25, &read), (8, &give_back)];
    for (op, args) in cases {
        assert_eq!(ask(op, args, &stale), 10023, "op {op}");
        assert_eq!(ask(op, args, &bad), 10025, "op {op}");
    }
}
