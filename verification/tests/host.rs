use mist::bench::{all_received, files_here, next_frame, per_dir, reply_for, BenchMsg, BenchReply, BulkFrame};
use mist::cas::manifest::ChunkRef;
use mist::cas::store::CasStore;
use mist::control::{
    automount_now, bind, check_add, check_add_token, event_matches_prefix, file_name, kind_str,
    parse_verb, share_state_str, token_ref, vm_state_str, wait_for_share, AddError, AfterPage, Cat,
    Listing, ShareState, Verb, LS_LIMIT, MAX_CAT,
};
use mist::doctor::{
    check_bridge, check_daemon, check_dir, check_mdns, check_mount, check_route, check_secret,
    check_session, check_share, check_token, check_tool, parse_route_interface, Level, Report,
    TokenFile,
};
use mist::fsx::{compare_now, log_line, mismatch_at, push, Fsx, FsxOp, Rng};
use mist::mount::{
    mount_options, mount_source, mountpoint_of, plan_restore, remount_again, restore_step, rsize,
    sidestore_file, ActiveMount, MountManager, Restore, RestoreStep, RSIZE,
};
use mist::session::dirty::MacDirty;
use mist::session::journal::{Assembler, Batch, Intake, ALL_SHARES, SEQ_ADOPT};
use mist::session::link::VmState;
use mist::session::record::{event_line, plan_record, Event, JournalRec, Places};
use mist::session::wire::{read_header, Delivery, Pings, ReadHeader, Reads};
use mist::share::attrs::{
    apply_mac_attr, apply_set_attr, bump_dir, content_fingerprint, next_optimistic_ts, squash,
};
use mist::share::guest::{map_err, Effect, MacOp, Rec, ReplicaError, RpcReq, RpcResp};
use mist::share::ops::{
    commit_done, commit_span, create_done, create_req, pieces_done, plan_write, remove_done,
    remove_req, rename_done, setattr_done, write_done, write_pieces, write_queued, Owner, WritePlan,
    WRITE_CHUNK,
};
use mist::share::queue::{
    CommitPlan, Drain, Landed, NodeWrites, Queues, Waiter, PRESYNC_BYTES,
};
use mist::share::read::{
    chunk_fetched, finalize_stash, guest_read, keeps_ahead, manifest_key, plan_read, plan_send, prefetch,
    single_chunk, slice_chunk,
    GuestRead, Manifests, Piece, ReadPlan, WIP_FP,
};
use mist::share::stash::{covered_chunks, CAS_CHUNK};
use mist::surface::{CreateKind, NfsError, SetAttr};
use mist::types::{Attr, Kind, NodeKey, Ts};
use std::collections::VecDeque;
use std::sync::Arc;

fn node(ino: u64) -> NodeKey {
    NodeKey { ino, generation: 1 }
}

fn attr(size: u64, sec: i64) -> Attr {
    Attr {
        kind: Kind::Reg,
        mode: 0o644,
        nlink: 1,
        uid: 0,
        gid: 0,
        size,
        blocks: 0,
        mtime: Ts { sec, nsec: 5 },
        ctime: Ts { sec, nsec: 5 },
        rdev: 0,
        content_version: 3,
    }
}

const ME: Owner = Owner { uid: 501, gid: 20 };

#[test]
fn route_interface_parse() {
    let out = "   route to: 192.168.64.1\ndestination: 192.168.64.1\n  interface: bridge100\n     flags: <UP>\n";
    assert_eq!(parse_route_interface(out).as_deref(), Some("bridge100"));
    let vpn = "  interface: utun4\n";
    assert_eq!(parse_route_interface(vpn).as_deref(), Some("utun4"));
    assert_eq!(parse_route_interface("no interface here"), None);
}

#[test]
fn checkup_levels() {
    assert_eq!(check_daemon(Some("1.0"), "1.0", "/s").level, Level::Pass);
    let skew = check_daemon(Some("0.9"), "1.0", "/s");
    assert_eq!(skew.level, Level::Warn);
    assert_eq!(skew.detail, "version skew: hostd 0.9, CLI 1.0 — restart whichever is older");
    assert_eq!(check_daemon(None, "1.0", "/s").level, Level::Fail);
    assert_eq!(check_dir(true, Some(0o755), "/d").detail, "/d is mode 755; other users can reach handles/tokens — chmod 700 it");
    assert_eq!(check_dir(true, Some(0o700), "/d").level, Level::Pass);
    assert_eq!(check_dir(false, None, "/d").level, Level::Warn);
    assert_eq!(check_secret(0o640, 1).level, Level::Warn);
    assert_eq!(check_secret(0o600, 181).detail, "181 days old — rotate (delete it + restart hostd + remount)");
    assert_eq!(check_secret(0o600, 180).level, Level::Pass);
    assert_eq!(check_bridge("a", "AUTO", None).unwrap().level, Level::Warn);
    assert_eq!(
        check_bridge("a", "auto", Some("4f2b0b30a9d84f8ab5c40122c7be1c13")).unwrap().level,
        Level::Pass
    );
    assert_eq!(check_bridge("a", "tcp:1.2.3.4:5", None).unwrap().level, Level::Warn);
    assert!(check_bridge("a", "tcp:127.0.0.1:5", None).is_none());
    assert!(check_bridge("a", "uds:/x", None).is_none());
    let f = |len, mode| Some(TokenFile { len, mode: Some(mode) });
    assert_eq!(check_token("a", None, None).detail, "no token path in config");
    assert_eq!(check_token("a", Some("t"), None).level, Level::Fail);
    assert_eq!(check_token("a", Some("t"), f(31, 0o600)).detail, "t is 31 bytes; needs ≥32 random bytes");
    assert_eq!(check_token("a", Some("t"), f(32, 0o644)).detail, "t is mode 644 — chmod 600");
    assert_eq!(check_token("a", Some("t"), f(32, 0o600)).what, "vm a token");
    assert_eq!(check_route("g", "bridge100", Some("utun3")).unwrap().level, Level::Fail);
    assert_eq!(check_route("g", "bridge100", Some("bridge100")).unwrap().level, Level::Pass);
    assert_eq!(check_route("g", "bridge100", Some("en0")).unwrap().level, Level::Warn);
    assert!(check_route("g", "bridge100", None).is_none());
    assert_eq!(check_session("a", "ready").level, Level::Pass);
    assert_eq!(check_session("a", "seeding").level, Level::Warn);
    assert_eq!(check_session("a", "degraded").level, Level::Fail);
    assert!(check_share("a", "s", "live").is_none());
    assert_eq!(check_share("a", "s", "offline").unwrap().what, "share a/s");
    assert_eq!(check_mdns(0).level, Level::Warn);
    assert_eq!(check_mdns(2).detail, "2 _mist._tcp instance(s) browsable");
    assert_eq!(check_tool(false).level, Level::Fail);
    let out = "127.0.0.1:/s on /m/a (nfs)\nhost:/x on /m/b (nfs)\n";
    assert_eq!(check_mount("v", "s", "/m/a", 99, out).detail, "/m/a (loopback NFS, port 99)");
    assert_eq!(check_mount("v", "s", "/m/b", 99, out).detail, "served from host:/x — expected loopback");
    assert_eq!(check_mount("v", "s", "/m/c", 99, out).level, Level::Fail);
    let mut r = Report::new();
    assert_eq!(r.worst(), Level::Pass);
    r.add(Level::Warn, "a".into(), "b".into());
    r.add(Level::Pass, "a".into(), "b".into());
    assert_eq!(r.worst().exit_code(), 1);
    r.add(Level::Fail, "a".into(), "b".into());
    assert_eq!(r.worst().exit_code(), 2);
}

#[test]
fn verbs_and_names() {
    assert_eq!(parse_verb("ls"), Verb::Ls);
    assert_eq!(parse_verb("add"), Verb::Add);
    assert_eq!(parse_verb("nope"), Verb::Unknown);
    assert_eq!(kind_str(Kind::Symlink), "symlink");
    assert_eq!(vm_state_str(VmState::Ready), "ready");
    assert_eq!(share_state_str(ShareState::Live), "live");
    assert_eq!(file_name("/a/b/c.txt"), "c.txt");
    assert_eq!(file_name("plain"), "plain");
    assert_eq!(file_name("/a/"), "");
    assert_eq!(token_ref("dev"), "@vms/dev.token");
}

#[test]
fn adding_a_vm() {
    assert_eq!(check_add("dev", "/t"), Ok(()));
    assert_eq!(check_add("", "/t"), Err(AddError::Incomplete));
    assert_eq!(check_add("dev", ""), Err(AddError::Incomplete));
    assert_eq!(check_add("a.b", "/t"), Err(AddError::BadName));
    assert_eq!(check_add("a b", "/t"), Err(AddError::BadName));
    assert_eq!(check_add_token(31), Err(AddError::ShortToken(31)));
    assert_eq!(check_add_token(32), Ok(()));
    let a = Some([1u8; 16]);
    let b = Some([2u8; 16]);
    assert_eq!(bind(a, b), Err(AddError::WrongGuest));
    assert_eq!(bind(a, None), Ok(a));
    assert_eq!(bind(None, b), Ok(b));
    assert_eq!(bind(None, None), Ok(None));
}

#[test]
fn listing_is_cut_at_the_limit() {
    let mut l: Listing<u32> = Listing::new();
    assert_eq!(l.page(vec![1, 2], Some(4), false), AfterPage::More);
    assert_eq!(l.cookie, 4);
    assert_eq!(l.page(vec![3], Some(5), true), AfterPage::Complete);
    assert_eq!(l.entries, vec![1, 2, 3]);
    let mut l: Listing<u32> = Listing::new();
    assert_eq!(l.page(vec![0; LS_LIMIT + 5], Some(9), false), AfterPage::Truncated);
    assert_eq!(l.entries.len(), LS_LIMIT);
}

#[test]
fn cat_reads_in_pieces() {
    let mut c = Cat::new(10);
    assert_eq!(c.next(4), Some((0, 4)));
    c.got(b"abcd", false);
    assert_eq!(c.next(4), Some((4, 4)));
    c.got(b"efgh", false);
    assert_eq!(c.next(4), Some((8, 2)));
    c.got(b"", false);
    assert_eq!(c.next(4), None);
    assert_eq!(c.bytes, b"abcdefgh");
    assert_eq!(Cat::new(0).next(4), Some((0, 1)));
    assert!(Cat::new(MAX_CAT + 1).truncated());
    assert!(!Cat::new(MAX_CAT).truncated());
}

#[test]
fn waiting_for_a_share() {
    assert!(wait_for_share(false, VmState::Connecting, false));
    assert!(!wait_for_share(true, VmState::Connecting, false));
    assert!(!wait_for_share(false, VmState::Ready, false));
    assert!(!wait_for_share(false, VmState::Connecting, true));
    assert!(automount_now(true, VmState::Ready, false, true));
    assert!(!automount_now(true, VmState::Ready, true, true));
}

#[test]
fn mounts_are_known_once() {
    let mut m = MountManager::new();
    assert!(!m.is_mounted("v", "s"));
    m.mounted(ActiveMount {
        vm: "v".into(),
        share: "s".into(),
        port: 9,
        mountpoint: mountpoint_of("/root", "v", "s"),
        nfs41: false,
    });
    assert!(m.is_mounted("v", "s"));
    assert_eq!(m.mountpoint("v", "s").map(|s| s.as_str()), Some("/root/v/s"));
    assert_eq!(m.list().len(), 1);
    assert_eq!(m.umount("v", "s").unwrap().port, 9);
    assert!(m.umount("v", "s").is_none());
}

#[test]
fn mount_command() {
    assert_eq!(mount_source(true, "127.0.0.1", "s"), "127.0.0.1:/");
    assert_eq!(mount_source(false, "127.0.0.1", "s"), "127.0.0.1:/s");
    assert_eq!(
        mount_options(true, 2049, 1048576),
        "vers=4.1,tcp,port=2049,rw,readahead=128,rsize=1048576,wsize=1048576,hard,intr,noatime,nosuid,nodev,actimeo=5"
    );
    assert_eq!(
        mount_options(false, 7, 32768),
        "vers=3,tcp,port=7,mountport=7,rw,nolocks,locallocks,rdirplus,readahead=128,rsize=32768,wsize=1048576,hard,intr,noatime,nosuid,nodev,actimeo=5"
    );
    assert_eq!(rsize(None), RSIZE);
    assert_eq!(rsize(Some("65536")), 65536);
    assert_eq!(rsize(Some("x")), RSIZE);
    assert_eq!(sidestore_file("v", "s"), "sidestore-v-s.bin");
    let out = "127.0.0.1:/s on /m/s (nfs)\n";
    assert_eq!(plan_restore(true, "/m/s", 9, false, out), Restore::Adopt);
    assert_eq!(plan_restore(true, "/m/s", 9, true, out), Restore::Remount);
    assert_eq!(plan_restore(true, "/m/x", 9, true, out), Restore::Skip);
    assert_eq!(plan_restore(false, "/m/s", 9, false, out), Restore::Skip);
    assert_eq!(plan_restore(true, "/m/s", 0, false, out), Restore::Skip);
    assert_eq!(restore_step(Restore::Adopt, 0, false), RestoreStep::Wait);
    assert_eq!(restore_step(Restore::Adopt, 239, true), RestoreStep::Adopt);
    assert_eq!(restore_step(Restore::Remount, 239, true), RestoreStep::Remount);
    assert_eq!(restore_step(Restore::Remount, 240, true), RestoreStep::GiveUp);
    assert_eq!(restore_step(Restore::Skip, 0, true), RestoreStep::GiveUp);
    assert!(remount_again(9, false));
    assert!(!remount_again(10, false));
    assert!(!remount_again(1, true));
}

#[test]
fn generator_is_splitmix() {
    let mut r = Rng { state: 0 };
    assert_eq!(r.next(), 0xE220A8397B1DCDAF);
    assert_eq!(r.next(), 0x6E789E6AA1B965F4);
    let mut r = Rng { state: 5 };
    assert_eq!(r.below(0), 0);
    assert_eq!(r.state, 5);
    assert!(r.below(10) < 10);
}

#[test]
fn torture_keeps_to_its_model() {
    let mut f = Fsx::new(1, 4096);
    let mut file: Vec<u8> = Vec::new();
    for _ in 0..2000 {
        match f.step() {
            FsxOp::Write { off, len, byte } => {
                if file.len() < off + len {
                    file.resize(off + len, 0);
                }
                for b in &mut file[off..off + len] {
                    *b = byte;
                }
            }
            FsxOp::Truncate { size } => file.resize(size, 0),
            FsxOp::Read { off, len } => assert!(f.matches(off, &file[off..off + len])),
            FsxOp::Reopen => {}
        }
        assert!(file.len() <= 4096);
    }
    assert_eq!(f.model, file);
    assert!(compare_now(255));
    assert!(!compare_now(256));
}

#[test]
fn torture_log() {
    assert_eq!(
        log_line(7, &FsxOp::Write { off: 3, len: 20, byte: 0x0a }),
        "7: write 20@3 byte=0x0a"
    );
    assert_eq!(log_line(8, &FsxOp::Truncate { size: 1 }), "8: truncate 1");
    assert_eq!(log_line(9, &FsxOp::Read { off: 0, len: 2 }), "9: read 2@0 ok");
    assert_eq!(log_line(10, &FsxOp::Reopen), "10: reopen");
    assert_eq!(mismatch_at(b"abc", b"abd"), 2);
    assert_eq!(mismatch_at(b"ab", b"abd"), 2);
    let mut log = VecDeque::new();
    for i in 0..20 {
        push(&mut log, format!("{i}"));
    }
    assert_eq!(log.len(), 16);
    assert_eq!(log[0], "4");
}

#[test]
fn bulk_frames_and_replies() {
    let mut sent = 0;
    let mut lens = Vec::new();
    while let Some(f) = next_frame(sent, 10, 4) {
        lens.push((f.len, f.more));
        sent += f.len;
    }
    assert_eq!(lens, vec![(4, true), (4, true), (2, false)]);
    assert_eq!(next_frame(0, 4, 4), Some(BulkFrame { len: 4, more: false }));
    assert!(matches!(
        reply_for(BenchMsg::Ping { nonce: 3 }, 0),
        Some(BenchReply::Pong { nonce: 3 })
    ));
    match reply_for(BenchMsg::Goodbye, 42) {
        Some(BenchReply::Goodbye { reason }) => assert_eq!(reason, "42"),
        _ => panic!("a goodbye"),
    }
    assert!(reply_for(BenchMsg::Other, 0).is_none());
    assert_eq!(all_received("42", 42), Ok(()));
    assert_eq!(all_received("41", 42), Err(41));
    assert_eq!(all_received("x", 1), Err(0));
    assert_eq!(per_dir(10, 3), 4);
    assert_eq!(per_dir(9, 3), 3);
    assert_eq!(per_dir(9, 0), 9);
    assert_eq!(files_here(10, 8, 4), 2);
}

#[test]
fn echoes_are_not_news() {
    let mut d = MacDirty::new();
    d.note_mac_dirty(1, node(5), 1000);
    assert!(d.is_mac_dirty(1, node(5), 5999));
    assert!(!d.is_mac_dirty(1, node(5), 6000));
    assert!(!d.is_mac_dirty(2, node(5), 1000));
    let own = plan_record(&d, 1, &JournalRec::Content { node: node(5), size: 1 }, None, 1000);
    assert_eq!((own.foreign, own.apply, own.bump), (None, false, (None, None)));
    let other = plan_record(&d, 1, &JournalRec::AttrChanged { node: node(6) }, None, 1000);
    assert_eq!((other.foreign, other.apply), (Some(node(6)), true));
    let gone = plan_record(&d, 1, &JournalRec::Removed { parent: node(2) }, Some(node(5)), 1000);
    assert_eq!((gone.foreign, gone.apply, gone.bump), (None, true, (None, None)));
    let made = plan_record(
        &d,
        1,
        &JournalRec::Created { parent: node(2), node: node(9) },
        None,
        1000,
    );
    assert_eq!(made.bump, (Some(node(2)), None));
    let batch = JournalRec::CreatedBatch { parent: node(2), first: Some(node(5)), count: 3 };
    assert_eq!(plan_record(&d, 1, &batch, None, 1000).bump, (None, None));
    let moved = JournalRec::Renamed { from_parent: node(2), to_parent: node(3) };
    assert_eq!(plan_record(&d, 1, &moved, None, 1000).bump, (Some(node(2)), Some(node(3))));
    assert_eq!(plan_record(&d, 1, &JournalRec::Overflow, None, 1000).bump, (None, None));
}

#[test]
fn many_dirty_nodes_are_pruned() {
    let mut d = MacDirty::new();
    for i in 0..4097 {
        d.note_mac_dirty(1, node(i), 0);
    }
    d.note_mac_dirty(1, node(9000), 10_000);
    assert_eq!(d.nodes.len(), 1);
}

fn places(first: Option<&str>, name: &str) -> Places {
    Places {
        first: first.map(|s| s.into()),
        second: Some("/to".into()),
        name: name.into(),
        to_name: "n2".into(),
    }
}

#[test]
fn events_name_their_paths() {
    let created = JournalRec::Created { parent: node(2), node: node(3) };
    let e = event_line(&created, &places(Some("/"), "f")).unwrap();
    assert!(matches!(&e, Event::Created { path } if path == "/f"));
    assert!(event_matches_prefix(&e, "/f"));
    assert!(!event_matches_prefix(&e, "/g"));
    let e = event_line(&created, &places(Some("/a"), "f")).unwrap();
    assert!(matches!(&e, Event::Created { path } if path == "/a/f"));
    let e = event_line(&created, &places(None, "f")).unwrap();
    assert!(matches!(&e, Event::Created { path } if path == "/f"));
    let moved = JournalRec::Renamed { from_parent: node(2), to_parent: node(3) };
    let e = event_line(&moved, &places(Some("/a"), "f")).unwrap();
    assert!(event_matches_prefix(&e, "/to/"));
    assert!(event_matches_prefix(&e, "/a/"));
    assert!(event_line(&JournalRec::Overflow, &places(None, "")).is_none());
}

fn batch(share: u16, first_seq: u64, n: usize) -> Batch<u32> {
    Batch {
        share,
        first_seq,
        records: vec![0; n],
    }
}

#[test]
fn journal_follows_without_gaps() {
    let mut a: Assembler<u32> = Assembler::new(vec![1]);
    assert!(!a.begin(9, 1));
    assert!(matches!(a.on_journal(batch(1, 5, 1), true, &vec![9]), Intake::Dropped));
    assert!(a.begin(1, 7));
    assert!(a.on_snap_dir(1, 7));
    assert!(!a.on_snap_dir(1, 8));
    assert!(a.finish_seed(1, 8).is_none());
    assert_eq!(a.finish_seed(1, 7).unwrap().len(), 0);
    assert_eq!(a.seq.get(&1), Some(&SEQ_ADOPT));
    assert!(matches!(a.on_journal(batch(1, 50, 3), true, &vec![9]), Intake::Apply(_)));
    assert!(matches!(a.on_journal(batch(1, 53, 2), true, &vec![9]), Intake::Apply(_)));
    assert!(matches!(a.on_journal(batch(1, 55, 1), false, &vec![9]), Intake::Dropped));
    assert!(matches!(a.on_journal(batch(1, 60, 1), true, &vec![9]), Intake::Gap));
    assert_eq!(a.resyncs, 1);
    assert!(a.on_snap_dir(1, 9));
    assert!(matches!(a.on_journal(batch(1, 61, 2), true, &vec![10]), Intake::Kept));
    assert_eq!(a.finish_seed(1, 9).unwrap().len(), 1);
    assert!(matches!(a.on_journal(batch(1, 63, 1), true, &vec![10]), Intake::Apply(_)));
}

#[test]
fn overflow_walks_all_shares() {
    let mut a: Assembler<u32> = Assembler::new(vec![1, 2, 1]);
    assert_eq!(a.known, vec![1, 2]);
    a.begin(1, 7);
    a.on_journal(batch(1, 10, 2), true, &vec![8, 8]);
    assert!(matches!(
        a.on_journal(batch(ALL_SHARES, 0, 0), true, &vec![9, 11]),
        Intake::ResyncAll
    ));
    assert_eq!(a.resyncs, 2);
    assert!(a.on_snap_dir(1, 9) && a.on_snap_dir(2, 11) && !a.on_snap_dir(2, 9));
    assert_eq!(a.finish_seed(1, 9).unwrap().len(), 0);
    assert!(!a.resync(3, 10));
    assert!(a.resync(1, 10));
    assert_eq!(a.resyncs, 3);
}

#[test]
fn journal_is_kept_during_a_walk() {
    let mut a: Assembler<u32> = Assembler::new(vec![1]);
    a.begin(1, 7);
    assert!(matches!(a.on_journal(batch(1, 10, 2), true, &vec![9]), Intake::Kept));
    assert!(matches!(a.on_journal(batch(1, 12, 3), true, &vec![9]), Intake::Kept));
    let replay = a.finish_seed(1, 7).unwrap();
    assert_eq!(replay.len(), 2);
    assert!(matches!(a.on_journal(batch(1, 15, 1), true, &vec![9]), Intake::Apply(_)));
    assert!(matches!(a.on_journal(batch(1, 14, 1), true, &vec![9]), Intake::Gap));
}

#[test]
fn reads_over_a_lane() {
    let mut r = Reads::new();
    assert_eq!(r.deliver_chunk(1, 5, true), Delivery::Stray);
    r.expect(1);
    assert_eq!(r.deliver_chunk(1, 5, true), Delivery::Pass);
    assert_eq!(r.deliver_chunk(1, 0, false), Delivery::Nothing);
    assert_eq!(r.deliver_chunk(1, 5, true), Delivery::Stray);
    r.expect(2);
    r.cancel(2);
    assert_eq!(r.deliver_chunk(2, 5, false), Delivery::Stray);
    let mut b = read_header(ReadHeader::Start { len: 5, eof: true }).unwrap();
    assert!(b.wants_more());
    b.got(b"abc");
    assert!(b.wants_more());
    b.got(b"defg");
    assert!(!b.wants_more());
    b.got(b"more");
    assert_eq!(b.buf, b"abcdefg");
    assert!(read_header(ReadHeader::Timeout).is_err());
    assert!(read_header(ReadHeader::Unexpected).is_err());
    assert!(read_header(ReadHeader::Failed { errno: 2, msg: "no".into() }).is_err());
    assert!(!read_header(ReadHeader::Start { len: 0, eof: true }).unwrap().wants_more());
}

#[test]
fn pings_run_out() {
    let mut p = Pings::new();
    assert_eq!(p.tick(), Some(1));
    p.pong();
    p.pong();
    assert_eq!(p.tick(), Some(2));
    assert_eq!(p.tick(), Some(3));
    assert_eq!(p.tick(), Some(4));
    assert_eq!(p.tick(), None);
}

#[test]
fn attributes_do_not_step_back() {
    let cur = attr(100, 50);
    let late = apply_mac_attr(Some(cur), attr(10, 40));
    assert_eq!((late.size, late.mtime.sec), (100, 50));
    let set = apply_set_attr(Some(cur), attr(10, 40));
    assert_eq!((set.size, set.mtime.sec), (10, 50));
    assert_eq!(apply_mac_attr(None, attr(10, 40)), attr(10, 40));
    assert_eq!(squash(attr(1, 1), 501, 20).uid, 501);
    let moved = bump_dir(attr(1, 50), Ts { sec: 60, nsec: 0 });
    assert_eq!(moved.mtime, Ts { sec: 60, nsec: 0 });
    let nudged = bump_dir(attr(1, 50), Ts { sec: 40, nsec: 0 });
    assert_eq!(nudged.mtime, Ts { sec: 50, nsec: 6 });
    assert_eq!(nudged.ctime, nudged.mtime);
}

#[test]
fn stamps_are_all_different() {
    let mut clock = 0;
    let a = next_optimistic_ts(&mut clock, 1_500_000_000, Ts { sec: 1, nsec: 0 });
    assert_eq!(a, Ts { sec: 1, nsec: 500_000_001 });
    let b = next_optimistic_ts(&mut clock, 1_500_000_000, Ts { sec: 1, nsec: 0 });
    assert_eq!(b, Ts { sec: 1, nsec: 500_000_002 });
    let c = next_optimistic_ts(&mut clock, 0, Ts { sec: 9, nsec: 7 });
    assert_eq!(c, Ts { sec: 9, nsec: 8 });
    let d = next_optimistic_ts(&mut clock, 0, Ts { sec: -5, nsec: 0 });
    assert_eq!(d, Ts { sec: 9, nsec: 9 });
}

#[test]
fn fingerprint_of_content() {
    let a = attr(10, 5);
    let mut h = 0xcbf29ce484222325u64;
    for v in [5u64, 5, 10, 3] {
        h ^= v;
        h = h.wrapping_mul(0x100000001b3);
    }
    assert_eq!(content_fingerprint(&a), h);
    let mut b = a;
    b.content_version = 4;
    assert_ne!(content_fingerprint(&b), h);
    b = a;
    b.mode = 0o600;
    assert_eq!(content_fingerprint(&b), h);
}

fn stash(parts: &[(u64, usize, u8)]) -> Vec<(u64, Arc<Vec<u8>>)> {
    parts
        .iter()
        .map(|(o, n, b)| (*o, Arc::new(vec![*b; *n])))
        .collect()
}

#[test]
fn covered_chunks_are_whole() {
    let c = CAS_CHUNK as usize;
    let s = stash(&[(0, c, 1), (c as u64, 10, 2)]);
    let known = covered_chunks(&s, Some(CAS_CHUNK + 10));
    assert_eq!(known.len(), 2);
    assert_eq!(known[1].0, CAS_CHUNK);
    assert_eq!(known[1].1, vec![2u8; 10]);
    let open = covered_chunks(&s, None);
    assert_eq!(open.len(), 1);
    assert!(covered_chunks(&stash(&[(1, c, 1)]), Some(CAS_CHUNK + 1)).len() == 1);
}

#[test]
fn rewritten_chunk_holds_the_last_write() {
    let s = stash(&[(0, 10, 1), (0, 10, 2), (4, 2, 3)]);
    let list = covered_chunks(&s, Some(10));
    assert_eq!(list, vec![(0, vec![2, 2, 2, 2, 3, 3, 2, 2, 2, 2])]);
    let holes = stash(&[(0, 5, 1), (0, 5, 2)]);
    assert!(covered_chunks(&holes, Some(10)).is_empty());
}

#[test]
fn writes_are_queued_and_land() {
    let mut q = Queues::new();
    assert_eq!(q.drain(node(1), 0, u64::MAX, Waiter::Passing), Drain::Clear(None));
    let a = q.queue(node(1), 0, Arc::new(vec![1; 10]), 100);
    let b = q.queue(node(1), 10, Arc::new(vec![2; 10]), 100);
    assert!(q.in_flight(node(1)));
    assert!(q.is_next(node(1), a));
    assert!(!q.is_next(node(1), b));
    assert_eq!(q.drain(node(1), 15, 1, Waiter::Passing), Drain::Wait);
    assert_eq!(q.landed(node(1), b, 10, None), Landed { presync: false, idle: false });
    assert_eq!(q.drain(node(1), 15, 1, Waiter::Commit), Drain::Clear(None));
    assert_eq!(q.drain(node(1), 0, u64::MAX, Waiter::Passing), Drain::Wait);
    assert_eq!(
        q.landed(node(1), a, 10, Some(NfsError::NoSpace)),
        Landed { presync: false, idle: true }
    );
    assert_eq!(q.drain(node(1), 0, u64::MAX, Waiter::Passing), Drain::Clear(None));
    let failed = Drain::Clear(Some(NfsError::NoSpace));
    assert_eq!(q.drain(node(1), 0, u64::MAX, Waiter::Waiting), failed);
    assert_eq!(q.drain(node(1), 0, u64::MAX, Waiter::Waiting), failed);
    assert_eq!(q.drain(node(1), 0, u64::MAX, Waiter::Commit), failed);
    assert_eq!(q.drain(node(1), 0, u64::MAX, Waiter::Commit), Drain::Clear(None));
}

#[test]
fn commits_are_clean_the_second_time() {
    let mut q = Queues::new();
    assert_eq!(q.commit_plan(node(1), 0), CommitPlan::Clean);
    q.queue(node(1), 0, Arc::new(vec![1; 10]), 100);
    assert_eq!(q.commit_plan(node(1), 5), CommitPlan::Flush { stash: false });
    assert_eq!(q.commit_plan(node(1), 0), CommitPlan::Flush { stash: true });
    assert_eq!(q.commit_plan(node(1), 0), CommitPlan::Clean);
    q.commit_failed(node(1));
    assert_eq!(q.commit_plan(node(1), 0), CommitPlan::Flush { stash: true });
    assert_eq!(commit_span(0), u64::MAX);
    assert_eq!(commit_span(7), 7);
}

#[test]
fn idle_queues_are_dropped() {
    let mut q = Queues::new();
    let b = q.queue(node(1), 0, Arc::new(vec![1; 10]), 100);
    q.reap(1_000_000);
    assert_eq!(q.nodes.len(), 1);
    q.landed(node(1), b, 10, None);
    q.reap(20_099);
    assert_eq!(q.nodes.len(), 1);
    q.reap(20_100);
    assert_eq!(q.nodes.len(), 0);
    let b = q.queue(node(2), 0, Arc::new(vec![1]), 0);
    q.forget(node(2));
    assert_eq!(q.nodes.len(), 1);
    q.landed(node(2), b, 1, None);
    q.forget(node(2));
    assert_eq!(q.nodes.len(), 0);
}

#[test]
fn flush_ahead_after_many_bytes() {
    let mut w = NodeWrites::new();
    let a = w.queue(0, Arc::new(vec![0; 4]), 0);
    assert!(!w.landed(a, PRESYNC_BYTES - 1, None).presync);
    let b = w.queue(0, Arc::new(vec![0; 4]), 0);
    assert!(w.landed(b, 1, None).presync);
    assert_eq!(w.presync, 0);
}

#[test]
fn one_chunk_serves_a_read_alone() {
    let size = 2 * CAS_CHUNK + 10;
    let s = plan_send(false, Ok(attr(size, 1)), CAS_CHUNK + 5, 100).unwrap();
    assert_eq!((s.chunk_off, s.inner, s.len, s.eof), (CAS_CHUNK, 5, 100, false));
    let s = plan_send(false, Ok(attr(size, 1)), 2 * CAS_CHUNK + 4, 100).unwrap();
    assert_eq!((s.chunk_off, s.inner, s.len, s.eof), (2 * CAS_CHUNK, 4, 6, true));
    assert!(plan_send(true, Ok(attr(size, 1)), 0, 100).is_none());
    assert!(plan_send(false, Ok(attr(size, 1)), CAS_CHUNK - 2, 50).is_none());
    assert!(plan_send(false, Ok(attr(size, 1)), size, 50).is_none());
    assert!(plan_send(false, Ok(attr(size, 1)), 0, 0).is_none());
    assert!(plan_send(false, Err(ReplicaError::Incomplete), 0, 5).is_none());
}

#[test]
fn reads_are_put_together_from_chunks() {
    let size = CAS_CHUNK + 100;
    let plan = plan_read(true, false, Ok(attr(size, 1)), CAS_CHUNK - 2, 50);
    let mut run = match plan {
        ReadPlan::Chunks(r) => r,
        _ => panic!("chunks"),
    };
    let p = run.next().unwrap();
    assert_eq!((p.chunk_off, p.chunk_len, p.inner, p.want), (0, CAS_CHUNK, CAS_CHUNK - 2, 2));
    run.got(b"ab");
    let p = run.next().unwrap();
    assert_eq!((p.chunk_off, p.chunk_len, p.inner, p.want), (CAS_CHUNK, 100, 0, 48));
    run.got(&[7; 48]);
    assert!(run.next().is_none());
    let r = run.finish();
    assert_eq!(r.data.len(), 50);
    assert!(!r.eof);
}

#[test]
fn short_part_ends_a_read() {
    let mut run = match plan_read(true, false, Ok(attr(100, 1)), 90, 50) {
        ReadPlan::Chunks(r) => r,
        _ => panic!("chunks"),
    };
    run.got(b"xy");
    assert!(run.next().is_none());
    let r = run.finish();
    assert_eq!(r.data, b"xy");
    assert!(!r.eof);
    assert!(matches!(plan_read(true, false, Ok(attr(100, 1)), 100, 5), ReadPlan::PastEnd));
    assert!(matches!(plan_read(false, false, Ok(attr(100, 1)), 0, 5), ReadPlan::Guest));
    assert!(matches!(plan_read(true, true, Ok(attr(100, 1)), 0, 5), ReadPlan::Guest));
    assert!(matches!(
        plan_read(true, false, Err(ReplicaError::Incomplete), 0, 5),
        ReadPlan::Fail(NfsError::Jukebox)
    ));
    assert_eq!(map_err(ReplicaError::BadPath), NfsError::NoEnt);
    assert_eq!(guest_read(GuestRead::NoLink).err(), Some(NfsError::Jukebox));
    assert_eq!(guest_read(GuestRead::Failed).err(), Some(NfsError::Io));
}

#[test]
fn chunk_arithmetic() {
    assert_eq!(slice_chunk(b"abcdef", 2, 3), b"cde");
    assert_eq!(slice_chunk(b"abc", 2, 3), b"c");
    assert_eq!(slice_chunk(b"abc", 5, 3), b"");
    let piece = Piece {
        chunk_off: 0,
        chunk_len: 6,
        inner: 2,
        want: 3,
    };
    let f = chunk_fetched(&piece, b"abcdef", 6);
    assert_eq!((f.part, f.whole, f.ahead), (b"cde".to_vec(), true, None));
    let f = chunk_fetched(&piece, b"abcd", CAS_CHUNK + 5);
    assert_eq!((f.part, f.whole, f.ahead), (b"cd".to_vec(), false, None));
    let f = chunk_fetched(&piece, b"abcdef", CAS_CHUNK + 5);
    assert_eq!(f.ahead, Some((CAS_CHUNK, 5)));
    assert!(keeps_ahead((CAS_CHUNK, 5), b"12345"));
    assert!(!keeps_ahead((CAS_CHUNK, 5), b"1234"));
    assert_eq!(prefetch(0, CAS_CHUNK), None);
    assert_eq!(prefetch(0, CAS_CHUNK + 5), Some((CAS_CHUNK, 5)));
    let s = single_chunk(10, 5, 12).unwrap();
    assert_eq!((s.chunk_off, s.inner, s.len, s.eof), (0, 10, 2, true));
    assert_eq!(single_chunk(CAS_CHUNK - 1, 2, CAS_CHUNK * 2), None);
    assert_eq!(single_chunk(0, 0, 5), None);
    assert_eq!(single_chunk(5, 1, 5), None);
}

#[test]
fn manifests_are_kept_in_memory() {
    let mut cas = CasStore::new(1 << 30, 1 << 29);
    let a = attr(5, 1);
    let k = manifest_key(1, node(9), &a);
    let mut m = Manifests::new();
    assert!(m.chunk(&cas, &k, 0).is_none());
    cas.put_manifest(k, &vec![ChunkRef { off: 0, len: 5, hash: [3; 32] }]);
    assert_eq!(m.chunk(&cas, &k, 0).unwrap().hash, [3; 32]);
    cas.drop_node(1, 9, 1);
    assert_eq!(m.chunk(&cas, &k, 0).unwrap().len, 5);
    assert!(m.chunk(&cas, &k, 4).is_none());
    let f = finalize_stash(1, node(9), &a, &stash(&[(0, 5, 8)]));
    assert_eq!(f.wip.content_version, WIP_FP);
    assert_eq!(f.fin, k);
    assert_eq!(f.tail, vec![(0, vec![8; 5])]);
}

#[test]
fn changes_and_what_follows() {
    let dev = CreateKind::Device { is_block: true, major: 8, minor: 1 };
    match create_req(node(2), b"sda1", &dev, 0o600) {
        RpcReq::Create { kind, rdev, exclusive, .. } => {
            assert_eq!((kind, rdev, exclusive), (Kind::Blk, (8 << 32) | 1, false));
        }
        _ => panic!("a create"),
    }
    let (r, e) = create_done(
        node(2),
        b"f",
        &CreateKind::File { exclusive: true },
        &Some(RpcResp::Entry { node: node(7), attr: attr(0, 1) }),
        ME,
    );
    assert_eq!(r.unwrap().1.uid, 501);
    assert!(matches!(
        &e[..],
        [Effect::Apply(Rec::Created { .. }), Effect::MacDirty(_), Effect::BumpDir(_)]
    ));
    let (r, e) = create_done(node(2), b"f", &CreateKind::Dir, &None, ME);
    assert_eq!(r.err(), Some(NfsError::Jukebox));
    assert!(e.is_empty());
    assert!(matches!(remove_req(node(2), b"d", true), RpcReq::Rmdir { .. }));
    let (r, e) = remove_done(node(2), b"f", Some(node(7)), &Some(RpcResp::Done));
    assert!(r.is_ok());
    assert_eq!(e.len(), 5);
    assert!(matches!(e[0], Effect::Conflict(_, MacOp::Remove)));
    let (r, _) = remove_done(node(2), b"f", None, &Some(RpcResp::Failed { errno: 39 }));
    assert_eq!(r, Err(NfsError::NotEmpty));
    let (r, _) = remove_done(node(2), b"f", None, &Some(RpcResp::Other));
    assert_eq!(r, Err(NfsError::Io));
    let (_, e) = rename_done(node(2), b"a", node(2), b"b", &Some(RpcResp::Done));
    assert_eq!(e.len(), 2);
    let (_, e) = rename_done(node(2), b"a", node(3), b"b", &Some(RpcResp::Done));
    assert_eq!(e.len(), 3);
    let set = SetAttr { size: Some(1), ..SetAttr::default() };
    let (r, e) = setattr_done(node(7), &set, Some(attr(9, 9)), &Some(RpcResp::Attr(attr(1, 5))), ME);
    let r = r.unwrap();
    assert_eq!((r.size, r.mtime.sec), (1, 9));
    assert!(matches!(e[2], Effect::Invalidate(_)));
    assert_eq!(MacOp::Setattr.name(), "setattr");
}

#[test]
fn writes_go_one_of_three_ways() {
    assert!(matches!(plan_write(node(1), 0, b"abc", false), WritePlan::Behind));
    assert!(matches!(plan_write(node(1), 0, b"abc", true), WritePlan::Inline(_)));
    match plan_write(node(1), 5, &vec![1; WRITE_CHUNK + 1], true) {
        WritePlan::Through { pieces, commit } => {
            assert_eq!(pieces.len(), 2);
            assert!(matches!(&pieces[1], RpcReq::Write { off, .. } if *off == 5 + WRITE_CHUNK as u64));
            assert!(matches!(commit, RpcReq::Commit { .. }));
        }
        _ => panic!("pieces"),
    }
    assert!(write_pieces(node(1), 0, b"").is_empty());
    assert_eq!(pieces_done(&vec![Some(RpcResp::Done), Some(RpcResp::Attr(attr(0, 0)))]), Ok(()));
    assert_eq!(
        pieces_done(&vec![Some(RpcResp::Done), Some(RpcResp::Failed { errno: 28 }), None]),
        Err(NfsError::NoSpace)
    );
    let mut clock = 0;
    let (a, e) = write_queued(node(1), attr(3, 2), 10, 4, &mut clock, 0, ME);
    assert_eq!(a.size, 14);
    assert_eq!(a.mtime, Ts { sec: 2, nsec: 6 });
    assert_eq!(e.len(), 4);
    let (r, e) = write_done(node(1), Some(attr(20, 9)), &Some(RpcResp::Attr(attr(14, 5))), ME);
    assert_eq!(r.unwrap().size, 20);
    assert!(matches!(e[3], Effect::Apply(_)));
    let (r, e) = commit_done(node(1), None, &Some(RpcResp::Attr(attr(14, 5))), ME);
    assert_eq!(r.unwrap().uid, 501);
    assert_eq!(e.len(), 2);
}
