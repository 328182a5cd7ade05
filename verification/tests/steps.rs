use mist::bufpool::{give, take, Pool, MAX_KEEP, MIN_KEEP};
use mist::config::keep_secret;
use mist::control::{added_config, plan_fs_op, FsPlan, Place, Verb, Waited, MAX_CAT};
use mist::doctor::{
    doctor, BridgeFacts, ConfigFacts, Facts, FoundFacts, Level, MountFacts, SessionFacts,
    TokenFile, VmFacts,
};
use mist::nfs41::attrs::{Bitmap, A_CHANGE, A_MODE, A_SIZE};
use mist::nfs41::state::{draw_u64, State};
use mist::session::link::{AfterHello, Gate, HelloReply, SessionError};
use mist::session::setup::{Act, Lane, Setup, Stage};
use mist::session::wire::{call_done, CallEnd};
use mist::share::commit::{begin_commit, end_commit, CommitMove};
use mist::share::guest::{ReplicaError, RpcReq, RpcResp};
use mist::share::ops::{commit_req, list_page, rename_req, setattr_req, Owner};
use mist::share::queue::{Drain, Queues, Waiter};
use mist::surface::{DirEntry, NfsError, SetAttr};
use mist::types::{Attr, Kind, NodeKey, Ts};
use std::sync::Arc;

fn node(ino: u64) -> NodeKey {
    NodeKey { ino, generation: 1 }
}

fn attr(kind: Kind, size: u64) -> Attr {
    Attr {
        kind,
        mode: 0o644,
        nlink: 1,
        uid: 0,
        gid: 0,
        size,
        blocks: 0,
        mtime: Ts { sec: 1, nsec: 0 },
        ctime: Ts { sec: 1, nsec: 0 },
        rdev: 0,
        content_version: 0,
    }
}

// ---- setting a session up -----------------------------------------------------------------------

const UUID: [u8; 16] = [7; 16];

fn greeted(expected: Option<[u8; 16]>) -> Setup {
    let mut s = Setup::new(3, expected, vec![]);
    assert_eq!(s.next(), Act::DialBridge);
    s.dialed(true);
    assert_eq!(s.next(), Act::Greet);
    let ack = HelloReply::Ack {
        proto: 3,
        session_id: 99,
    };
    assert!(s.greeted(ack, vec![4, 5]).is_ok());
    assert_eq!(s.session_id, 99);
    s
}

#[test]
fn session_goes_live() {
    let mut s = greeted(Some(UUID));
    assert_eq!(s.next(), Act::Listen);
    assert!(matches!(s.heard(AfterHello::Identity(UUID)), Ok(Gate::Pass)));
    assert_eq!(s.next(), Act::Listen);
    let told = vec!["10.0.0.2:6478".to_string()];
    assert!(matches!(s.heard(AfterHello::Endpoints(told)), Ok(Gate::Pass)));
    let (to, fresh) = s.endpoints();
    assert!(fresh);
    assert_eq!(to.len(), 1);
    for want in [
        Act::OpenLane(Lane::Journal, 0),
        Act::OpenLane(Lane::Rpc, 0),
        Act::OpenLane(Lane::Rpc, 1),
        Act::OpenLane(Lane::Bulk, 0),
        Act::OpenLane(Lane::Bulk, 1),
    ] {
        assert_eq!(s.next(), want);
        s.lane(true);
    }
    assert_eq!(s.next(), Act::Seed(4));
    s.seeded(true);
    assert_eq!(s.next(), Act::Seed(5));
    s.seeded(true);
    assert_eq!(s.next(), Act::Ready);
}

#[test]
fn cached_addresses_come_before_the_bridge() {
    let mut s = Setup::new(3, None, vec!["a".to_string(), "b".to_string()]);
    assert_eq!(s.next(), Act::DialCached(0));
    s.dialed(false);
    assert_eq!(s.next(), Act::DialCached(1));
    s.dialed(false);
    assert_eq!(s.next(), Act::DialBridge);
    s.dialed(false);
    assert_eq!(s.next(), Act::Stop);
}

#[test]
fn another_guest_is_refused() {
    let mut s = greeted(Some(UUID));
    assert!(s.heard(AfterHello::Identity([8; 16])).is_ok());
    assert!(matches!(
        s.heard(AfterHello::Nothing),
        Err(SessionError::IdentityMismatch)
    ));
    assert_eq!(s.stage, Stage::Failed);
}

#[test]
fn silent_guest_stays_unbound() {
    let mut s = greeted(Some(UUID));
    assert!(matches!(s.heard(AfterHello::Nothing), Ok(Gate::Unbound)));
    assert_eq!(s.next(), Act::OpenLane(Lane::Journal, 0));
    s.lane(false);
    assert_eq!(s.next(), Act::Stop);
}

#[test]
fn greeting_is_refused() {
    let fresh = || {
        let mut s = Setup::new(3, None, vec![]);
        s.dialed(true);
        s
    };
    let old = HelloReply::Ack {
        proto: 2,
        session_id: 1,
    };
    assert!(matches!(
        fresh().greeted(old, vec![]),
        Err(SessionError::Proto("version mismatch"))
    ));
    assert!(matches!(
        fresh().greeted(HelloReply::AuthFail, vec![]),
        Err(SessionError::Auth)
    ));
    assert!(matches!(
        fresh().greeted(HelloReply::Unexpected, vec![]),
        Err(SessionError::Proto("expected HelloAck"))
    ));
}

#[test]
fn calls_end() {
    assert!(matches!(call_done(CallEnd::Answered(5u8)), Ok(5)));
    let cases = [
        (CallEnd::<u8>::Closed, "rpc lane closed"),
        (CallEnd::Dropped, "rpc waiter dropped (session died)"),
        (CallEnd::Timeout, "rpc timeout"),
    ];
    for (end, want) in cases {
        match call_done(end) {
            Err(SessionError::Proto(s)) => assert_eq!(s, want),
            _ => panic!("not refused"),
        }
    }
}

// ---- questions on the control socket ------------------------------------------------------------

fn place() -> Place {
    Place {
        vm: true,
        share: true,
        live: true,
        wait: Waited::Not,
        found: Ok(attr(Kind::Reg, 20_000_000)),
        connected: true,
    }
}

#[test]
fn questions_about_files() {
    match plan_fs_op(Verb::Cat, &place()) {
        FsPlan::Show(c) => {
            assert_eq!(c.want, MAX_CAT);
            assert!(c.truncated());
        }
        p => panic!("{p:?}"),
    }
    assert!(matches!(plan_fs_op(Verb::Stat, &place()), FsPlan::Stat));
    assert!(matches!(plan_fs_op(Verb::Ls, &place()), FsPlan::ListOne));
    let dir = Place {
        found: Ok(attr(Kind::Dir, 0)),
        ..place()
    };
    assert!(matches!(plan_fs_op(Verb::Ls, &dir), FsPlan::List));
    assert!(matches!(plan_fs_op(Verb::Cat, &dir), FsPlan::NotFile));
    let apart = Place {
        connected: false,
        ..place()
    };
    assert!(matches!(plan_fs_op(Verb::Cat, &apart), FsPlan::NoLink));
    let gone = Place {
        found: Err(ReplicaError::NoEnt),
        ..place()
    };
    assert!(matches!(
        plan_fs_op(Verb::Stat, &gone),
        FsPlan::NoPath(ReplicaError::NoEnt)
    ));
    let fresh = Place {
        live: false,
        ..place()
    };
    assert!(matches!(plan_fs_op(Verb::Ls, &fresh), FsPlan::Wait));
    let late = Place {
        wait: Waited::InVain,
        ..fresh
    };
    assert!(matches!(plan_fs_op(Verb::Ls, &late), FsPlan::NotSeeded));
    let again = Place {
        wait: Waited::Seeded,
        ..fresh
    };
    assert!(matches!(plan_fs_op(Verb::Ls, &again), FsPlan::ListOne));
    let odd = Place {
        share: false,
        ..place()
    };
    assert!(matches!(plan_fs_op(Verb::Ls, &odd), FsPlan::UnknownShare));
    let odd = Place { vm: false, ..odd };
    assert!(matches!(plan_fs_op(Verb::Ls, &odd), FsPlan::UnknownVm));
}

#[test]
fn added_vm_is_located_by_itself() {
    let c = added_config("dev", &Some([0xab; 16]));
    assert_eq!(c.bridge, "auto");
    assert_eq!(c.token, "@vms/dev.token");
    assert_eq!(c.vm_uuid.as_deref(), Some("abababababababababababababababab"));
    assert!(c.autoattach && c.automount);
    assert_eq!(added_config("dev", &None).vm_uuid, None);
}

#[test]
fn short_secrets_are_replaced() {
    assert!(keep_secret(&Some(vec![0; 32])));
    assert!(!keep_secret(&Some(vec![0; 31])));
    assert!(!keep_secret(&None));
}

// ---- the checkup --------------------------------------------------------------------------------

fn facts() -> Facts {
    Facts {
        daemon: Some("1.0".to_string()),
        tool: "1.0".to_string(),
        socket: "/s/control.sock".to_string(),
        dir: "/s".to_string(),
        dir_there: true,
        dir_mode: Some(0o700),
        secret: Some((0o600, 3)),
        config_path: "/s/config.toml".to_string(),
        config: ConfigFacts::Read(vec![VmFacts {
            name: "dev".to_string(),
            bridge: "auto".to_string(),
            uuid: Some("4f2b0b30a9d84f8ab5c40122c7be1c13".to_string()),
            token: Some("@vms/dev.token".to_string()),
            file: Some(TokenFile {
                len: 32,
                mode: Some(0o600),
            }),
        }]),
        mount_tool: true,
        found: Some(FoundFacts {
            bridges: vec![BridgeFacts {
                gateway: "192.168.64.1".to_string(),
                iface: "bridge100".to_string(),
                dev: Some("bridge100".to_string()),
            }],
            announced: 2,
        }),
        sessions: Some(vec![SessionFacts {
            name: "dev".to_string(),
            state: "ready".to_string(),
            shares: vec![("home".to_string(), "live".to_string())],
        }]),
        mounts: Some(vec![MountFacts {
            vm: "dev".to_string(),
            share: "home".to_string(),
            mountpoint: "/m".to_string(),
            port: 2049,
        }]),
        mount_out: "127.0.0.1:/home on /m (nfs)\n".to_string(),
    }
}

#[test]
fn healthy_checkup() {
    let r = doctor(&facts());
    let said: Vec<(&str, &str)> = r
        .checks
        .iter()
        .map(|c| (c.what.as_str(), c.detail.as_str()))
        .collect();
    assert_eq!(
        said,
        vec![
            ("daemon", "mist-hostd 1.0 running"),
            ("state dir", "/s (mode 700)"),
            ("handle secret", "mode 600, 3 days old"),
            ("config", "/s/config.toml parses"),
            ("vm dev", "bridge=auto (resolved per-connect; no stored IP to drift)"),
            ("vm dev token", "@vms/dev.token (mode 600)"),
            ("mount_nfs", "/sbin/mount_nfs present"),
            ("vpn route", "gateway 192.168.64.1 routes via bridge100 (no VPN hijack)"),
            ("mDNS", "2 _mist._tcp instance(s) browsable"),
            (
                "transport",
                "auto/tcp over vmnet (authenticated, not yet encrypted — Noise TCP is M7; vsock is \
                 never attempted under a foreign supervisor: a non-owner socket(PF_VSOCK) is ENODEV)"
            ),
            ("vm dev", "session ready"),
            ("mount dev/home", "/m (loopback NFS, port 2049)"),
        ]
    );
    assert_eq!(r.worst(), Level::Pass);
    assert_eq!(r.worst().exit_code(), 0);
}

#[test]
fn checkup_without_a_daemon() {
    let f = Facts {
        daemon: None,
        secret: None,
        config: ConfigFacts::Absent,
        ..facts()
    };
    let r = doctor(&f);
    let what: Vec<&str> = r.checks.iter().map(|c| c.what.as_str()).collect();
    assert_eq!(what, vec!["daemon", "state dir", "config", "mount_nfs"]);
    assert_eq!(r.worst(), Level::Fail);
    assert_eq!(r.worst().exit_code(), 2);
}

#[test]
fn checkup_finds_a_hijacked_route() {
    let mut f = facts();
    f.found = Some(FoundFacts {
        bridges: vec![BridgeFacts {
            gateway: "192.168.64.1".to_string(),
            iface: "bridge100".to_string(),
            dev: Some("utun4".to_string()),
        }],
        announced: 0,
    });
    let r = doctor(&f);
    let route = r.checks.iter().find(|c| c.what == "vpn route").unwrap();
    assert_eq!(route.level, Level::Fail);
    let mdns = r.checks.iter().find(|c| c.what == "mDNS").unwrap();
    assert_eq!(mdns.level, Level::Warn);
}

// ---- shares -------------------------------------------------------------------------------------

#[test]
fn listed_entries_belong_to_the_user() {
    let owner = Owner { uid: 501, gid: 20 };
    let row = |a: Option<Attr>| DirEntry {
        name: b"f".to_vec(),
        node: node(5),
        cookie: 3,
        attr: a,
    };
    let full = list_page(vec![row(Some(attr(Kind::Reg, 9)))], true, 77, true, owner);
    let a = full.entries[0].attr.unwrap();
    assert_eq!((a.uid, a.gid, a.size), (501, 20, 9));
    assert_eq!(full.cookieverf, 77);
    assert!(full.eof);
    let bare = list_page(vec![row(Some(attr(Kind::Reg, 9)))], false, 1, false, owner);
    assert!(bare.entries[0].attr.is_none());
    assert_eq!(bare.entries[0].cookie, 3);
}

#[test]
fn requests_carry_their_arguments() {
    match rename_req(node(1), b"a", node(2), b"b") {
        RpcReq::Rename {
            from_dir,
            from_name,
            to_dir,
            to_name,
        } => {
            assert_eq!((from_dir, to_dir), (node(1), node(2)));
            assert_eq!((from_name, to_name), (b"a".to_vec(), b"b".to_vec()));
        }
        r => panic!("{r:?}"),
    }
    let set = SetAttr {
        size: Some(4),
        ..SetAttr::default()
    };
    match setattr_req(node(3), set) {
        RpcReq::SetAttr { node: n, set } => {
            assert_eq!(n, node(3));
            assert_eq!(set.size, Some(4));
        }
        r => panic!("{r:?}"),
    }
    match commit_req(node(3), 8, 16) {
        RpcReq::CommitRange { node: n, off, len } => assert_eq!((n, off, len), (node(3), 8, 16)),
        r => panic!("{r:?}"),
    }
}

#[test]
fn whole_file_waits_for_every_batch() {
    let mut q = Queues::new();
    let b = q.queue(node(1), u64::MAX - 4, Arc::new(vec![1, 2, 3, 4]), 0);
    assert_eq!(q.drain(node(1), 10, u64::MAX, Waiter::Commit), Drain::Wait);
    assert_eq!(q.drain(node(1), 10, 5, Waiter::Commit), Drain::Clear(None));
    q.landed(node(1), b, 4, None);
    assert_eq!(q.drain(node(1), 10, u64::MAX, Waiter::Commit), Drain::Clear(None));
}

#[test]
fn commit_from_start_to_end() {
    let owner = Owner { uid: 501, gid: 20 };
    let mut q = Queues::new();
    assert!(matches!(begin_commit(&mut q, node(1), 0, 0), CommitMove::Attrs));
    let b = q.queue(node(1), 0, Arc::new(vec![7; 4]), 0);
    assert!(matches!(begin_commit(&mut q, node(1), 0, 0), CommitMove::Wait));
    assert!(matches!(
        begin_commit(&mut q, node(1), 100, 5),
        CommitMove::Send { stash: false, .. }
    ));
    q.landed(node(1), b, 4, Some(NfsError::NoSpace));
    assert!(matches!(
        begin_commit(&mut q, node(1), 0, 0),
        CommitMove::Fail(NfsError::NoSpace)
    ));
    match begin_commit(&mut q, node(1), 0, 0) {
        CommitMove::Send { req, stash } => {
            assert!(stash);
            assert!(matches!(req, RpcReq::CommitRange { off: 0, len: 0, .. }));
        }
        m => panic!("{m:?}"),
    }
    let failed = end_commit(&mut q, node(1), true, None, &None, owner);
    assert_eq!(failed.result, Err(NfsError::Jukebox));
    assert!(failed.effects.is_empty() && !failed.warm);
    assert!(matches!(
        begin_commit(&mut q, node(1), 0, 0),
        CommitMove::Send { stash: true, .. }
    ));
    let resp = Some(RpcResp::Attr(attr(Kind::Reg, 4)));
    let done = end_commit(&mut q, node(1), true, None, &resp, owner);
    assert_eq!(done.result.unwrap().uid, 501);
    assert!(done.warm);
    assert_eq!(done.effects.len(), 2);
    assert!(matches!(begin_commit(&mut q, node(1), 0, 0), CommitMove::Attrs));
}

#[test]
fn guest_errors_are_told_apart() {
    let cases = [
        (2, NfsError::NoEnt),
        (1, NfsError::Access),
        (13, NfsError::Access),
        (17, NfsError::Exist),
        (20, NfsError::NotDir),
        (21, NfsError::IsDir),
        (28, NfsError::NoSpace),
        (30, NfsError::Rofs),
        (36, NfsError::NameTooLong),
        (39, NfsError::NotEmpty),
        (116, NfsError::Stale),
        (5, NfsError::Io),
        (-1, NfsError::Io),
    ];
    for (errno, want) in cases {
        assert_eq!(NfsError::from_errno(errno), want);
    }
}

// ---- smaller parts ------------------------------------------------------------------------------

#[test]
fn buffers_come_back() {
    let mut pool = Pool::new();
    let mut buf = Vec::with_capacity(MIN_KEEP);
    buf.extend_from_slice(b"left over");
    let at = buf.as_ptr();
    give(&mut pool, buf);
    let again = take(&mut pool, 10);
    assert!(again.is_empty());
    assert_eq!(again.as_ptr(), at);
    give(&mut pool, vec![0; 10]);
    assert!(take(&mut pool, 1).capacity() < MIN_KEEP);
    give(&mut pool, Vec::with_capacity(MAX_KEEP + 1));
    assert!(take(&mut pool, 1).capacity() <= MAX_KEEP);
}

#[test]
fn full_enough_buffer_is_recycled() {
    let mut pool = Pool::new();
    let small = vec![1u8; MIN_KEEP];
    let large = vec![2u8; 2 * MIN_KEEP];
    let (first, second) = (small.as_ptr(), large.as_ptr());
    give(&mut pool, small);
    give(&mut pool, large);
    let buf = take(&mut pool, MIN_KEEP);
    assert!(buf.is_empty());
    assert_eq!(buf.as_ptr(), first);
    let buf = take(&mut pool, 2 * MIN_KEEP);
    assert!(buf.is_empty());
    assert_eq!(buf.as_ptr(), second);
    assert!(take(&mut pool, MIN_KEEP).capacity() >= MIN_KEEP);
}

#[test]
fn bitmaps_intersect() {
    let a = Bitmap::from_attrs(&[A_CHANGE, A_MODE]);
    let b = Bitmap::from_attrs(&[A_MODE, A_SIZE]);
    assert_eq!(a.intersect(&b).iter(), vec![A_MODE]);
}

#[test]
fn recall_times_are_ranked() {
    let mut st = State::new(1, 2);
    assert_eq!(st.recall_metrics.sample_at(0), None);
    st.recall_metrics.samples_ns = vec![30, 10, 20];
    assert_eq!(st.recall_metrics.sample_at(0), Some(10));
    assert_eq!(st.recall_metrics.sample_at(1), Some(20));
    assert_eq!(st.recall_metrics.sample_at(9), Some(30));
}

#[test]
fn draws_depend_on_everything() {
    let v = draw_u64(&[0; 16], 1, 2);
    assert_eq!(v, draw_u64(&[0; 16], 1, 2));
    assert_ne!(v, draw_u64(&[1; 16], 1, 2));
    assert_ne!(v, draw_u64(&[0; 16], 2, 2));
    assert_ne!(v, draw_u64(&[0; 16], 1, 3));
}
