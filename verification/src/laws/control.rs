//! The control socket, mounts and measurements: what is answered and what is done.
use crate::bench::{files_here, next_frame, per_dir, reply_for, BenchMsg, BenchReply, BulkFrame};
use crate::config::VmConfig;
use crate::control::{
    added_config, automount_now, bind, check_add, check_add_token, event_matches_prefix, file_name,
    kind_str, parse_verb, plan_fs_op, share_state_str, token_ref, vm_state_str, wait_for_share,
    AddError, AfterPage, Cat, FsPlan, Listing, Place, ShareState, Verb,
};
use crate::mount::{
    mount_options, mount_source, plan_restore, remount_again, restore_step, rsize, sidestore_file,
    ActiveMount, MountManager, Restore, RestoreStep,
};
use crate::resolve::mdns::opt_uuid;
use crate::session::link::VmState;
use crate::session::record::Event;
use crate::text::dec_chars;
use crate::types::Kind;
use vstd::prelude::*;

verus! {

/// Each command has its own word.
pub proof fn verbs_have_words(cmd: &str, v: Verb)
    requires
        call_ensures(parse_verb, (cmd,), v),
    ensures
        v is Status <==> cmd@ == "status"@,
        v is Ls <==> cmd@ == "ls"@,
        v is Stat <==> cmd@ == "stat"@,
        v is Cat <==> cmd@ == "cat"@,
        v is Mount <==> cmd@ == "mount"@,
        v is Umount <==> cmd@ == "umount"@,
        v is Conflicts <==> cmd@ == "conflicts"@,
        v is Cache <==> cmd@ == "cache"@,
        v is Delegs <==> cmd@ == "delegs"@,
        v is Mounts <==> cmd@ == "mounts"@,
        v is Discover <==> cmd@ == "discover"@,
        v is Add <==> cmd@ == "add"@,
        v is Events <==> cmd@ == "events"@,
        v is Version <==> cmd@ == "version"@,
{
    reveal_strlit("status");
    reveal_strlit("ls");
    reveal_strlit("stat");
    reveal_strlit("cat");
    reveal_strlit("mount");
    reveal_strlit("umount");
    reveal_strlit("conflicts");
    reveal_strlit("cache");
    reveal_strlit("delegs");
    reveal_strlit("mounts");
    reveal_strlit("discover");
    reveal_strlit("add");
    reveal_strlit("events");
    reveal_strlit("version");
    if cmd@.len() > 0 {
        let a = cmd@[0];
        let b = cmd@[1];
        let c = cmd@[3];
    }
}

/// Kinds and states are told by their names.
pub proof fn kinds_have_names(k: Kind, s: &'static str)
    requires
        call_ensures(kind_str, (k,), s),
    ensures
        k is Reg ==> s@ == "file"@,
        k is Dir ==> s@ == "dir"@,
        k is Symlink ==> s@ == "symlink"@,
        k is Fifo ==> s@ == "fifo"@,
        k is Sock ==> s@ == "sock"@,
        k is Chr ==> s@ == "chr"@,
        k is Blk ==> s@ == "blk"@,
{
}

/// The states of a VM are told by their names.
pub proof fn vm_states_have_names(k: VmState, s: &'static str)
    requires
        call_ensures(vm_state_str, (k,), s),
    ensures
        k is Disconnected ==> s@ == "disconnected"@,
        k is Connecting ==> s@ == "connecting"@,
        k is Ready ==> s@ == "ready"@,
        k is Degraded ==> s@ == "degraded"@,
{
}

/// The states of a share are told by their names.
pub proof fn share_states_have_names(k: ShareState, s: &'static str)
    requires
        call_ensures(share_state_str, (k,), s),
    ensures
        k is Seeding ==> s@ == "seeding"@,
        k is Live ==> s@ == "live"@,
        k is Degraded ==> s@ == "degraded"@,
        k is Offline ==> s@ == "offline"@,
{
}

/// A text starts with another.
pub open spec fn begins(s: Seq<char>, p: Seq<char>) -> bool {
    p.len() <= s.len() && forall|i: int| 0 <= i < p.len() ==> s[i] == p[i]
}

proof fn begins_by_chars(s: Seq<char>, p: Seq<char>)
    ensures
        begins(s, p) <==> crate::chars::begins(s, p),
{
    if begins(s, p) {
        assert(s.take(p.len() as int) =~= p);
    }
    if crate::chars::begins(s, p) {
        assert forall|i: int| 0 <= i < p.len() implies s[i] == p[i] by {
            assert(s.take(p.len() as int)[i] == s[i]);
        }
    }
}

/// An event is followed if a path that it names starts with what is followed; a rename names two.
pub proof fn events_are_followed_by_path(e: &Event, prefix: &str, r: bool)
    requires
        call_ensures(event_matches_prefix, (e, prefix), r),
    ensures
        *e is Created ==> (r <==> begins(e->Created_path@, prefix@)),
        *e is CreatedBatch ==> (r <==> e->dir is Some && begins(e->dir->0@, prefix@)),
        *e is Removed ==> (r <==> e->Removed_path is Some && begins(
            e->Removed_path->0@,
            prefix@,
        )),
        *e is Renamed ==> (r <==> begins(e->from@, prefix@) || begins(e->to@, prefix@)),
        *e is Attr ==> (r <==> e->Attr_path is Some && begins(e->Attr_path->0@, prefix@)),
        *e is Content ==> (r <==> e->Content_path is Some && begins(
            e->Content_path->0@,
            prefix@,
        )),
{
    match *e {
        Event::Created { path } => {
            begins_by_chars(path@, prefix@);
        },
        Event::CreatedBatch { dir, .. } => {
            if dir is Some {
                begins_by_chars(dir->0@, prefix@);
            }
        },
        Event::Removed { path } => {
            if path is Some {
                begins_by_chars(path->0@, prefix@);
            }
        },
        Event::Renamed { from, to } => {
            begins_by_chars(from@, prefix@);
            begins_by_chars(to@, prefix@);
        },
        Event::Attr { path } => {
            if path is Some {
                begins_by_chars(path->0@, prefix@);
            }
        },
        Event::Content { path, .. } => {
            if path is Some {
                begins_by_chars(path->0@, prefix@);
            }
        },
    }
    let v = e@;
}

/// A VM can be added that has a token and a name without slash, point or space.
pub proof fn names_are_plain(name: &str, token_src: &str, r: Result<(), AddError>)
    requires
        call_ensures(check_add, (name, token_src), r),
    ensures
        r is Ok <==> name@.len() > 0 && token_src@.len() > 0 && forall|i: int|
            0 <= i < name@.len() ==> #[trigger] name@[i] != '/' && name@[i] != '.' && name@[i]
                != ' ',
        r is Err ==> (r->Err_0 is Incomplete <==> name@.len() == 0 || token_src@.len() == 0),
        r is Err ==> r->Err_0 is Incomplete || r->Err_0 is BadName,
{
}

/// A token has at least 32 bytes.
pub proof fn tokens_are_long(len: usize, r: Result<(), AddError>)
    requires
        call_ensures(check_add_token, (len,), r),
    ensures
        r is Ok <==> len >= 32,
        r is Err ==> r->Err_0 == AddError::ShortToken(len),
{
}

/// A VM is bound to the guest that was asked for, or that was found where none was asked for; it is
/// not bound to another than was asked for.
pub proof fn guests_are_bound(
    want: Option<[u8; 16]>,
    found: Option<[u8; 16]>,
    r: Result<Option<[u8; 16]>, AddError>,
)
    requires
        call_ensures(bind, (want, found), r),
    ensures
        r is Err <==> want is Some && found is Some && want->0@ != found->0@,
        r is Err ==> r->Err_0 is WrongGuest,
        r is Ok && want is Some ==> r->Ok_0 is Some && r->Ok_0->0@ == want->0@,
        r is Ok && want is None ==> (r->Ok_0 is Some <==> found is Some),
        r is Ok && want is None && found is Some ==> r->Ok_0->0@ == found->0@,
{
    let u = opt_uuid(want);
}

/// The token of a VM is kept under its name.
pub proof fn tokens_are_kept_by_name(name: &str, s: String)
    requires
        call_ensures(token_ref, (name,), s),
    ensures
        s@ == "@vms/"@ + name@ + ".token"@,
{
}

proof fn last_part_is_last(path: Seq<char>)
    ensures
        ({
            let p = crate::control::last_part(path);
            &&& p.len() <= path.len()
            &&& path.skip(path.len() - p.len()) == p
            &&& forall|i: int| 0 <= i < p.len() ==> p[i] != '/'
            &&& p.len() < path.len() ==> path[path.len() - p.len() - 1] == '/'
        }),
    decreases path.len(),
{
    let p = crate::control::last_part(path);
    if path.len() > 0 && path.last() != '/' {
        let q = path.drop_last();
        last_part_is_last(q);
        let r = crate::control::last_part(q);
        assert(path.skip(path.len() - p.len()) =~= p) by {
            assert forall|i: int| 0 <= i < r.len() implies path[path.len() - p.len() + i] == r[i] by {
                assert(q.skip(q.len() - r.len())[i] == r[i]);
            }
        }
    } else {
        assert(path.skip(path.len() as int) =~= p);
    }
}

/// A file's name is what follows the last slash.
pub proof fn names_follow_the_last_slash(path: &str, s: String)
    requires
        call_ensures(file_name, (path,), s),
    ensures
        s@.len() <= path@.len(),
        path@.skip(path@.len() - s@.len()) == s@,
        forall|i: int| 0 <= i < s@.len() ==> s@[i] != '/',
        s@.len() < path@.len() ==> path@[path@.len() - s@.len() - 1] == '/',
{
    last_part_is_last(path@);
}

/// A listing goes on page by page until the last or until it has 100000 entries, and keeps the
/// entries in order.
pub proof fn listings_grow(
    l: &mut Listing<u64>,
    page: Vec<u64>,
    last: Option<u64>,
    eof: bool,
    a: AfterPage,
    i: int,
)
    requires
        call_ensures(Listing::<u64>::page, (l, page, last, eof), a),
        old(l).entries@.len() < 100_000,
    ensures
        a is Truncated <==> old(l).entries@.len() + page@.len() >= 100_000,
        !(a is Truncated) ==> (a is Complete <==> eof),
        final(l).entries@.len() <= 100_000,
        a is Truncated ==> final(l).entries@.len() == 100_000,
        !(a is Truncated) ==> final(l).entries@.len() == old(l).entries@.len() + page@.len(),
        0 <= i < old(l).entries@.len() ==> final(l).entries@[i] == old(l).entries@[i],
        old(l).entries@.len() <= i < final(l).entries@.len() ==> final(l).entries@[i] == page@[i
            - old(l).entries@.len()],
        a is More && last is Some ==> final(l).cookie == last->0,
        !(a is More && last is Some) ==> final(l).cookie == old(l).cookie,
{
}

/// At most 10 MiB of a file are shown.
pub proof fn shown_files_are_bounded(size: u64, c: Cat)
    requires
        call_ensures(Cat::new, (size,), c),
    ensures
        c.size == size,
        c.want <= size && c.want <= 10_485_760,
        c.want == size || c.want == 10_485_760,
        c.bytes@.len() == 0,
        !c.done,
{
}

/// The next read starts where the bytes so far end, and asks for what is still wanted, at most as
/// much as one read may.
pub proof fn shown_files_are_read_on(c: &Cat, most: u64, r: Option<(u64, u64)>)
    requires
        call_ensures(Cat::next, (c, most), r),
    ensures
        r is None <==> c.done || c.bytes@.len() >= c.want && c.bytes@.len() >= 1,
        r is Some ==> {
            let (off, len) = r->0;
            let goal: int = if c.want == 0 {
                1
            } else {
                c.want as int
            };
            &&& off == c.bytes@.len()
            &&& len <= most
            &&& off + len <= goal
            &&& len == most || off + len == goal
        },
{
}

/// Bytes that came are appended; the reading ends with the file or where nothing came.
pub proof fn shown_files_grow(c: &mut Cat, chunk: &[u8], eof: bool)
    requires
        call_ensures(Cat::got, (c, chunk, eof), ()),
    ensures
        final(c).bytes@ == old(c).bytes@ + chunk@,
        final(c).done <==> eof || chunk@.len() == 0,
        final(c).want == old(c).want && final(c).size == old(c).size,
{
}

/// A file is cut short that has more than 10 MiB.
pub proof fn long_files_are_cut(c: &Cat, r: bool)
    requires
        call_ensures(Cat::truncated, (c,), r),
    ensures
        r <==> c.size > 10_485_760,
{
}

/// A mount waits for its share until it is announced, the VM is ready or the time is up.
pub proof fn mounts_wait(announced: bool, state: VmState, expired: bool, r: bool)
    requires
        call_ensures(wait_for_share, (announced, state, expired), r),
    ensures
        r <==> !announced && !(state is Ready) && !expired,
{
}

/// A share is mounted by itself where that is wanted, the VM is ready, it is not mounted, and its
/// root is known.
pub proof fn shares_mount_by_themselves(
    automount: bool,
    state: VmState,
    mounted: bool,
    rooted: bool,
    r: bool,
)
    requires
        call_ensures(automount_now, (automount, state, mounted, rooted), r),
    ensures
        r <==> automount && state is Ready && !mounted && rooted,
{
}

/// A question about a path is answered once VM and share are known and the share's tree is complete:
/// a directory is listed, a file is shown while the VM is connected, and anything is described.
pub proof fn questions_are_planned(verb: Verb, p: &Place, plan: FsPlan)
    requires
        call_ensures(plan_fs_op, (verb, p), plan),
    ensures
        ({
            let known = p.vm && p.share;
            let ready = known && (p.live || p.wait is Seeded);
            let found = ready && p.found is Ok;
            let kind = p.found->Ok_0.kind;
            &&& plan is UnknownVm <==> !p.vm
            &&& plan is UnknownShare <==> p.vm && !p.share
            &&& plan is Wait <==> known && !p.live && p.wait is Not
            &&& plan is NotSeeded <==> known && !p.live && p.wait is InVain
            &&& plan is NoPath <==> ready && p.found is Err
            &&& plan is NoPath ==> plan->NoPath_0 == p.found->Err_0
            &&& plan is List <==> found && verb is Ls && kind is Dir
            &&& plan is ListOne <==> found && verb is Ls && !(kind is Dir)
            &&& plan is NotFile <==> found && verb is Cat && !(kind is Reg)
            &&& plan is NoLink <==> found && verb is Cat && kind is Reg && !p.connected
            &&& plan is Show <==> found && verb is Cat && kind is Reg && p.connected
            &&& plan is Show ==> plan->Show_0.size == p.found->Ok_0.size
            &&& plan is Stat <==> found && !(verb is Ls) && !(verb is Cat)
        }),
{
}

/// A VM that was added is looked up, attached and mounted by itself, and bound where a guest is
/// known.
pub proof fn added_vms_mount_by_themselves(name: &str, bound: &Option<[u8; 16]>, c: VmConfig)
    requires
        call_ensures(added_config, (name, bound), c),
    ensures
        c.bridge@ == "auto"@,
        c.token@ == "@vms/"@ + name@ + ".token"@,
        c.vm_uuid is Some <==> *bound is Some,
        c.autoattach && c.automount,
{
}

/// A mount is found by its VM and share, where it was put.
pub proof fn mounts_are_found(
    m: &mut MountManager,
    a: ActiveMount,
    vm: &str,
    share: &str,
    before: bool,
    after: bool,
    place: Option<&String>,
)
    requires
        call_ensures(MountManager::mounted, (m, a), ()),
        call_ensures(MountManager::is_mounted, (&*old(m), vm, share), before),
        call_ensures(MountManager::is_mounted, (&*final(m), vm, share), after),
        call_ensures(MountManager::mountpoint, (&*final(m), vm, share), place),
    ensures
        a.vm@ == vm@ && a.share@ == share@ ==> after && place is Some && *place->0 == a.mountpoint,
        a.vm@ != vm@ || a.share@ != share@ ==> (after <==> before),
{
}

/// A share that is unmounted is mounted no more; its mount is given back, and the others stay.
pub proof fn unmounted_is_gone(
    m: &mut MountManager,
    vm: &str,
    share: &str,
    r: Option<ActiveMount>,
    vm2: &str,
    share2: &str,
    before: bool,
    after: bool,
)
    requires
        call_ensures(MountManager::umount, (m, vm, share), r),
        call_ensures(MountManager::is_mounted, (&*old(m), vm2, share2), before),
        call_ensures(MountManager::is_mounted, (&*final(m), vm2, share2), after),
    ensures
        vm2@ == vm@ && share2@ == share@ ==> !after && (r is Some <==> before),
        vm2@ != vm@ || share2@ != share@ ==> (after <==> before),
        r is Some ==> r->0 == old(m).mounts@[(vm@, share@)],
{
}

/// The side store of a share is kept under both names.
pub proof fn side_stores_are_kept_by_name(vm: &str, share: &str, s: String)
    requires
        call_ensures(sidestore_file, (vm, share), s),
    ensures
        s@ == "sidestore-"@ + vm@ + "-"@ + share@ + ".bin"@,
{
}

/// Without a number 1 MiB is read at a time.
pub proof fn reads_are_a_mebibyte(n: u32)
    requires
        call_ensures(rsize, (None::<&str>,), n),
    ensures
        n == 1_048_576,
{
}

/// Version 4.1 mounts the root of the server, version 3 the share by its name.
pub proof fn sources_name_the_share(nfs41: bool, ip: &str, share: &str, s: String)
    requires
        call_ensures(mount_source, (nfs41, ip, share), s),
    ensures
        nfs41 ==> s@ == ip@ + ":/"@,
        !nfs41 ==> s@ == ip@ + ":/"@ + share@,
{
}

/// The options of a mount, in which the ports and the read size are the given ones.
pub proof fn options_name_the_port(nfs41: bool, port: u16, rsize: u32, s: String)
    requires
        call_ensures(mount_options, (nfs41, port, rsize), s),
    ensures
        nfs41 ==> s@ == "vers=4.1,tcp,port="@ + dec_chars(port as nat)
            + ",rw,readahead=128,rsize="@ + (dec_chars(rsize as nat)
            + ",wsize=1048576,hard,intr,noatime,nosuid,nodev,actimeo=5"@),
        !nfs41 ==> s@ == "vers=3,tcp,port="@ + dec_chars(port as nat) + ",mountport="@ + dec_chars(
            port as nat,
        ) + ",rw,nolocks,locallocks,rdirplus,readahead=128,rsize="@ + (dec_chars(rsize as nat)
            + ",wsize=1048576,hard,intr,noatime,nosuid,nodev,actimeo=5"@),
{
}

/// A mount that was left behind is given up after two minutes or where there is nothing to restore;
/// until its share is announced it is waited for.
pub proof fn left_mounts_are_restored(how: Restore, waits: u32, announced: bool, s: RestoreStep)
    requires
        call_ensures(restore_step, (how, waits, announced), s),
    ensures
        s is GiveUp <==> how is Skip || waits >= 240,
        !(s is GiveUp) ==> (s is Wait <==> !announced),
        s is Remount <==> how is Remount && waits < 240 && announced,
        s is Adopt <==> how is Adopt && waits < 240 && announced,
{
}

/// What is left behind is skipped where the VM is not known or there is no port; else version 4.1
/// is mounted anew and version 3 adopted, or skipped if it is no longer mounted.
pub proof fn left_mounts_are_planned(
    known: bool,
    mountpoint: &str,
    port: u16,
    nfs41: bool,
    out: &str,
    r: Restore,
)
    requires
        call_ensures(plan_restore, (known, mountpoint, port, nfs41, out), r),
    ensures
        !known || port == 0 ==> r is Skip,
        r is Remount ==> nfs41,
        r is Adopt ==> !nfs41,
{
}

/// It is mounted anew at most ten times, until it works.
pub proof fn remounts_are_tried_ten_times(tries: u32, mounted: bool, r: bool)
    requires
        call_ensures(remount_again, (tries, mounted), r),
    ensures
        r <==> !mounted && tries < 10,
{
}

/// The frames of a transfer carry every byte, none is longer than a chunk, and only the last says
/// that none follows.
pub proof fn frames_carry_every_byte(sent: u64, total: u64, chunk: u64, f: Option<BulkFrame>)
    requires
        call_ensures(next_frame, (sent, total, chunk), f),
    ensures
        f is None <==> sent >= total,
        f is Some ==> {
            &&& f->0.len <= chunk
            &&& sent + f->0.len <= total
            &&& f->0.len == chunk || sent + f->0.len == total
            &&& f->0.more <==> sent + f->0.len < total
        },
{
}

/// A ping comes back under its number, and a goodbye tells how many bytes came.
pub proof fn pings_come_back(msg: BenchMsg, received: u64, r: Option<BenchReply>)
    requires
        call_ensures(reply_for, (msg, received), r),
    ensures
        r is None <==> msg is Other,
        msg is Ping ==> r->0 is Pong && r->0->Pong_nonce == msg->nonce,
        msg is Goodbye ==> r->0 is Goodbye && r->0->reason@ == dec_chars(received as nat),
{
}

/// The files fit into the directories, and with one file less in each they would not.
pub proof fn files_are_spread(files: u64, dirs: u64, n: u64)
    requires
        call_ensures(per_dir, (files, dirs), n),
    ensures
        ({
            let d: int = if dirs == 0 {
                1
            } else {
                dirs as int
            };
            n * d >= files && (n > 0 ==> (n - 1) * d < files)
        }),
{
    let d: int = if dirs == 0 {
        1
    } else {
        dirs as int
    };
    vstd::arithmetic::div_mod::lemma_fundamental_div_mod(files + d - 1, d);
    let r = (files + d - 1) % d;
    vstd::arithmetic::div_mod::lemma_mod_bound(files + d - 1, d);
    assert(n * d >= files && (n - 1) * d < files) by (nonlinear_arith)
        requires
            files + d - 1 == d * n + r,
            0 <= r < d,
    ;
}

/// A directory gets its number of files, or those that are left.
pub proof fn directories_are_filled(files: u64, placed: u64, per_dir: u64, n: u64)
    requires
        call_ensures(files_here, (files, placed, per_dir), n),
        placed <= files,
    ensures
        n <= per_dir,
        placed + n <= files,
        n == per_dir || placed + n == files,
{
}

} // verus!
