//! What is read out of values and requests, and what a checkup finds.
use crate::chars::lines;
use crate::data::{named, Data, DataView};
use crate::doctor::{
    check_bridge, check_daemon, check_dir, check_mdns, check_mount, check_route, check_secret,
    check_session, check_share, check_token, check_tool, doctor, find_mount, mount_line, worst_of,
    Check, Facts, Level, MountFacts, Report, SessionFacts, TokenFile,
};
use crate::facts::{announced_in, bridges_in, mounts_in, sessions_in, version_in, vm_rows, VmRow};
use crate::laws::control::begins;
use crate::mount::{mount_row, MountRow};
use crate::request::{reply_in, request_in, ReplyError, Request};
use crate::resolve::mdns::sub_at;
use crate::text::dec_chars;
use vstd::prelude::*;
use vstd::string::StringSliceAdditionalSpecFns;

verus! {

/// The `i`-th of the named values is the first of that name.
pub open spec fn is_named(d: Data, key: Seq<char>, i: int) -> bool {
    &&& d is Fields
    &&& 0 <= i < d->Fields_0@.len()
    &&& d->Fields_0@[i].0@ == key
    &&& forall|j: int| 0 <= j < i ==> (#[trigger] d->Fields_0@[j]).0@ != key
}

/// No value has that name.
pub open spec fn is_unnamed(d: Data, key: Seq<char>) -> bool {
    d is Fields ==> forall|j: int|
        0 <= j < d->Fields_0@.len() ==> (#[trigger] d->Fields_0@[j]).0@ != key
}

proof fn named_from(l: Seq<(Seq<char>, DataView)>, key: Seq<char>, i: int)
    requires
        0 <= i <= l.len(),
        i < l.len() ==> l[i].0 == key,
        forall|j: int| 0 <= j < i ==> (#[trigger] l[j]).0 != key,
    ensures
        i < l.len() ==> named(l, key) == l[i].1,
        i == l.len() ==> named(l, key) is Null,
    decreases l.len(),
{
    if l.len() > 0 && i > 0 {
        let t = l.skip(1);
        assert forall|j: int| 0 <= j < i - 1 implies (#[trigger] t[j]).0 != key by {
            assert(t[j] == l[j + 1]);
        }
        assert(l[0].0 != key);
        if i < l.len() {
            assert(t[i - 1] == l[i]);
        }
        named_from(t, key, i - 1);
    }
}

proof fn value_is_at(d: Data, key: Seq<char>, i: int)
    ensures
        is_named(d, key, i) ==> d@.at(key) == d->Fields_0@[i].1@,
        is_unnamed(d, key) ==> d@.at(key) is Null,
{
    if d is Fields {
        let l = d->Fields_0@;
        let v = d@->Fields_0;
        assert(v.len() == l.len());
        assert forall|j: int| 0 <= j < l.len() implies #[trigger] v[j] == (l[j].0@, l[j].1@) by {}
        if is_named(d, key, i) {
            assert forall|j: int| 0 <= j < i implies (#[trigger] v[j]).0 != key by {
                assert(l[j].0@ != key);
            }
            named_from(v, key, i);
        }
        if is_unnamed(d, key) {
            assert forall|j: int| 0 <= j < v.len() implies (#[trigger] v[j]).0 != key by {
                assert(l[j].0@ != key);
            }
            named_from(v, key, l.len() as int);
        }
    }
}

/// The value of a name is that of its first occurrence; a text is given as it is, and anything else
/// counts for the given one.
pub proof fn texts_are_found_by_name(
    d: &Data,
    key: &str,
    other: &str,
    s: String,
    t: Option<String>,
    i: int,
)
    requires
        call_ensures(Data::text_or, (d, key, other), s),
        call_ensures(Data::text_at, (d, key), t),
    ensures
        is_named(*d, key@, i) && d->Fields_0@[i].1 is Text ==> s@ == d->Fields_0@[i].1->Text_0@
            && t is Some && t->0@ == s@,
        is_named(*d, key@, i) && !(d->Fields_0@[i].1 is Text) ==> s@ == other@ && t is None,
        is_unnamed(*d, key@) ==> s@ == other@ && t is None,
{
    value_is_at(*d, key@, i);
    let v = d@.at(key@);
    if is_named(*d, key@, i) {
        let x = d->Fields_0@[i].1;
        let y = x@;
    }
}

/// A number of a name is given as it is, and anything else counts for the given one.
pub proof fn numbers_are_found_by_name(d: &Data, key: &str, other: u64, n: u64, i: int)
    requires
        call_ensures(Data::number_or, (d, key, other), n),
    ensures
        is_named(*d, key@, i) && d->Fields_0@[i].1 is Number && d->Fields_0@[i].1->Number_0 is Some
            ==> n == d->Fields_0@[i].1->Number_0->0,
        is_named(*d, key@, i) && !(d->Fields_0@[i].1 is Number && d->Fields_0@[i].1->Number_0 is Some)
            ==> n == other,
        is_unnamed(*d, key@) ==> n == other,
{
    value_is_at(*d, key@, i);
    if is_named(*d, key@, i) {
        let x = d->Fields_0@[i].1;
        let y = x@;
    }
}

/// A flag is set that is true under its name.
pub proof fn flags_are_found_by_name(d: &Data, key: &str, r: bool, i: int)
    requires
        call_ensures(Data::is_set, (d, key), r),
    ensures
        is_named(*d, key@, i) ==> (r <==> d->Fields_0@[i].1 is Flag && d->Fields_0@[i].1->Flag_0),
        is_unnamed(*d, key@) ==> !r,
{
    value_is_at(*d, key@, i);
    if is_named(*d, key@, i) {
        let x = d->Fields_0@[i].1;
        let y = x@;
    }
}

/// A request takes each text from the value of its name, or nothing.
pub proof fn requests_are_read_by_name(
    d: &Data,
    q: Request,
    key: &str,
    none: &str,
    s: String,
    t: Option<String>,
    zero: u64,
    n: u64,
    f: bool,
)
    requires
        call_ensures(request_in, (d,), q),
        none@ == ""@,
        zero == 0,
        call_ensures(Data::text_or, (d, key, none), s),
        call_ensures(Data::text_at, (d, key), t),
        call_ensures(Data::number_or, (d, key, zero), n),
        call_ensures(Data::is_set, (d, key), f),
    ensures
        key@ == "cmd"@ ==> q.cmd@ == s@,
        key@ == "vm"@ ==> q.vm@ == s@,
        key@ == "share"@ ==> q.share@ == s@,
        key@ == "name"@ ==> q.name@ == s@,
        key@ == "token"@ ==> q.token@ == s@,
        key@ == "path"@ ==> (q.path is Some <==> t is Some) && (t is Some ==> q.path->0@ == t->0@),
        key@ == "uuid"@ ==> (q.uuid is Some <==> t is Some) && (t is Some ==> q.uuid->0@ == t->0@),
        key@ == "sample"@ ==> q.sample == n,
        key@ == "nfs41"@ ==> q.nfs41 == f,
        key@ == "follow"@ ==> (q.follow <==> q.cmd@ == "events"@ && f),
        key@ == "action"@ && s@ == "clear"@ ==> q.action is Clear,
        key@ == "action"@ && s@ == "scrub"@ ==> q.action is Scrub,
        key@ == "action"@ && s@ != "clear"@ && s@ != "scrub"@ ==> q.action is Stats,
        q.verb is Status <==> q.cmd@ == "status"@,
        q.cmd@ == "ls"@ ==> q.verb is Ls,
        q.cmd@ == "cat"@ ==> q.verb is Cat,
        q.cmd@ == "mount"@ ==> q.verb is Mount,
        q.cmd@ == "umount"@ ==> q.verb is Umount,
{
    reveal_strlit("");
    reveal_strlit("stats");
    reveal_strlit("clear");
    reveal_strlit("scrub");
    reveal_strlit("status");
    reveal_strlit("ls");
    reveal_strlit("stat");
    reveal_strlit("cat");
    reveal_strlit("mount");
    reveal_strlit("umount");
    let v = q@;
    if q.cmd@.len() > 0 {
        let a = q.cmd@[0];
        let b = q.cmd@[1];
    }
    assert("stats"@.len() == 5 && "stats"@[1] == 't' && "clear"@[1] == 'l' && "scrub"@[1] == 'c');
    assert(""@.len() == 0 && "clear"@.len() == 5 && "scrub"@.len() == 5);
}

/// A reply that says it is good is given as it is; any other is refused for its reason.
pub proof fn replies_are_good_or_refused(
    d: Data,
    r: Result<Data, ReplyError>,
    ok: &str,
    good: bool,
    error: &str,
    unknown: &str,
    why: String,
)
    requires
        call_ensures(reply_in, (d,), r),
        ok@ == "ok"@,
        error@ == "error"@,
        unknown@ == "unknown daemon error"@,
        call_ensures(Data::is_set, (&d, ok), good),
        call_ensures(Data::text_or, (&d, error, unknown), why),
    ensures
        r is Ok <==> good,
        r is Ok ==> r->Ok_0@ == d@,
        r is Err ==> r->Err_0 is Refused && r->Err_0->Refused_0@ == why@,
{
}

/// A mount that was left behind is read by name; of its port the low sixteen bits count.
pub proof fn left_mounts_are_read_by_name(
    d: &Data,
    row: MountRow,
    key: &str,
    none: &str,
    s: String,
    zero: u64,
    n: u64,
    f: bool,
)
    requires
        call_ensures(mount_row, (d,), row),
        none@ == ""@,
        zero == 0,
        call_ensures(Data::text_or, (d, key, none), s),
        call_ensures(Data::number_or, (d, key, zero), n),
        call_ensures(Data::is_set, (d, key), f),
    ensures
        key@ == "vm"@ ==> row.vm@ == s@,
        key@ == "share"@ ==> row.share@ == s@,
        key@ == "mountpoint"@ ==> row.mountpoint@ == s@,
        key@ == "port"@ && n < 65536 ==> row.port == n,
        key@ == "nfs41"@ ==> row.nfs41 == f,
{
    let v = row@;
}

/// How bad a finding is, as a number: 0, 1 or 2, which is also what the tool ends with.
pub open spec fn badness(l: Level) -> int {
    if l is Pass {
        0
    } else if l is Warn {
        1
    } else {
        2
    }
}

/// The tool ends with how bad the worst finding is.
pub proof fn tool_ends_with_the_worst(l: &Level, n: i32)
    requires
        call_ensures(Level::exit_code, (l,), n),
    ensures
        n == badness(*l),
{
}

proof fn worst_is_worst(checks: Seq<Check>)
    ensures
        forall|i: int|
            0 <= i < checks.len() ==> badness((#[trigger] checks[i]).level) <= badness(
                worst_of(checks),
            ),
        checks.len() == 0 ==> worst_of(checks) is Pass,
        checks.len() > 0 ==> exists|i: int|
            0 <= i < checks.len() && (#[trigger] checks[i]).level == worst_of(checks)
            || worst_of(checks) is Pass,
    decreases checks.len(),
{
    if checks.len() > 0 {
        let p = checks.drop_last();
        let n = checks.len() - 1;
        worst_is_worst(p);
        assert forall|i: int| 0 <= i < checks.len() implies badness((#[trigger] checks[i]).level)
            <= badness(worst_of(checks)) by {
            if i < n {
                assert(p[i] == checks[i]);
            }
        }
        if worst_of(checks) == checks.last().level {
            assert(checks[n].level == worst_of(checks));
        } else if p.len() > 0 {
            let i = choose|i: int|
                0 <= i < p.len() && (#[trigger] p[i]).level == worst_of(p) || worst_of(p) is Pass;
            if 0 <= i < p.len() && p[i].level == worst_of(p) {
                assert(checks[i] == p[i]);
            } else {
                assert(checks[n].level == checks[n].level);
            }
        }
    }
}

/// No finding is worse than the worst, and the worst is one of them.
pub proof fn worst_finding_is_told(r: &Report, l: Level)
    requires
        call_ensures(Report::worst, (r,), l),
    ensures
        forall|i: int|
            0 <= i < r.checks@.len() ==> badness((#[trigger] r.checks@[i]).level) <= badness(l),
        !(l is Pass) ==> exists|i: int|
            0 <= i < r.checks@.len() && (#[trigger] r.checks@[i]).level == l,
{
    worst_is_worst(r.checks@);
}

/// Findings come in the order in which they are added.
pub proof fn findings_are_added(r: &mut Report, level: Level, what: String, detail: String)
    requires
        call_ensures(Report::add, (r, level, what, detail), ()),
    ensures
        final(r).checks@.len() == old(r).checks@.len() + 1,
        final(r).checks@.drop_last() == old(r).checks@,
        final(r).checks@.last().level == level,
        final(r).checks@.last().what == what,
        final(r).checks@.last().detail == detail,
{
    assert(final(r).checks@.drop_last() =~= old(r).checks@);
}

/// A daemon that does not answer is a failure, and one of another version a warning.
pub proof fn daemons_must_answer(daemon: Option<&str>, tool: &str, socket: &str, c: Check)
    requires
        call_ensures(check_daemon, (daemon, tool, socket), c),
    ensures
        c.level is Fail <==> daemon is None,
        c.level is Pass <==> daemon is Some && daemon->0@ == tool@,
        c.what@ == "daemon"@,
{
    let v = c@;
}

/// A state directory that others may reach is a warning, and so is one that is not there.
pub proof fn state_must_be_private(there: bool, mode: Option<u32>, dir: &str, c: Check)
    requires
        call_ensures(check_dir, (there, mode, dir), c),
    ensures
        c.level is Pass <==> there && (mode is None || mode->0 % 64 == 0),
        !(c.level is Pass) ==> c.level is Warn,
        c.what@ == "state dir"@,
{
    let v = c@;
}

/// A secret that others may read, or that is older than 180 days, is a warning.
pub proof fn secrets_must_be_private(mode: u32, age_days: u64, c: Check)
    requires
        call_ensures(check_secret, (mode, age_days), c),
    ensures
        c.level is Pass <==> mode % 64 == 0 && age_days <= 180,
        !(c.level is Pass) ==> c.level is Warn,
        c.what@ == "handle secret"@,
{
    let v = c@;
}

/// A token must be there, have at least 32 bytes, and not be readable by others.
pub proof fn tokens_must_be_private(
    name: &str,
    token: Option<&str>,
    file: Option<TokenFile>,
    c: Check,
)
    requires
        call_ensures(check_token, (name, token, file), c),
    ensures
        c.level is Fail <==> token is None || file is None || file->0.len < 32,
        c.level is Warn <==> token is Some && file is Some && file->0.len >= 32
            && file->0.mode is Some && file->0.mode->0 % 64 != 0,
{
    let v = c@;
}

/// Traffic to a VM that goes through a tunnel is a failure, and another way than the bridge's a
/// warning.
pub proof fn routes_must_be_direct(gateway: &str, iface: &str, dev: Option<&str>, c: Option<Check>)
    requires
        call_ensures(check_route, (gateway, iface, dev), c),
    ensures
        c is None <==> dev is None,
        dev is Some ==> (c->0.level is Fail <==> begins(dev->0@, "utun"@)),
        dev is Some ==> (c->0.level is Pass <==> dev->0@ == iface@ && !begins(dev->0@, "utun"@)),
{
    if dev is Some {
        let s = dev->0@;
        let p = "utun"@;
        if begins(s, p) {
            assert(s.take(p.len() as int) =~= p);
        }
        if crate::chars::begins(s, p) {
            assert forall|i: int| 0 <= i < p.len() implies s[i] == p[i] by {
                assert(s.take(p.len() as int)[i] == s[i]);
            }
        }
        let v = c->0@;
    }
}

/// A session that is live passes, one that is on its way there is a warning, any other a failure.
pub proof fn sessions_must_be_live(name: &str, state: &str, c: Check)
    requires
        call_ensures(check_session, (name, state), c),
    ensures
        c.level is Pass <==> state@ == "live"@ || state@ == "ready"@,
        state@ == "seeding"@ || state@ == "resyncing"@ ==> c.level is Warn,
        c.level is Warn ==> state@ == "seeding"@ || state@ == "resyncing"@,
        c.what@ == "vm "@ + name@,
{
    reveal_strlit("live");
    reveal_strlit("ready");
    reveal_strlit("seeding");
    reveal_strlit("resyncing");
    let v = c@;
}

/// A share that is not live is a warning.
pub proof fn shares_must_be_live(vm: &str, share: &str, state: &str, c: Option<Check>)
    requires
        call_ensures(check_share, (vm, share, state), c),
    ensures
        c is None <==> state@ == "live"@,
        c is Some ==> c->0.level is Warn && c->0.what@ == "share "@ + vm@ + "/"@ + share@,
{
    if c is Some {
        let v = c->0@;
    }
}

/// Without an announcement there is a warning.
pub proof fn vms_should_announce_themselves(count: usize, c: Check)
    requires
        call_ensures(check_mdns, (count,), c),
    ensures
        c.level is Pass <==> count > 0,
        !(c.level is Pass) ==> c.level is Warn,
{
    let v = c@;
}

/// Without the tool nothing can be mounted.
pub proof fn tool_must_be_there(there: bool, c: Check)
    requires
        call_ensures(check_tool, (there,), c),
    ensures
        c.level is Pass <==> there,
        c.level is Fail <==> !there,
{
    let v = c@;
}

/// A checkup looks at the daemon and the state directory first, and always at the tool; a secret is
/// looked at if there is one.
pub proof fn checkups_look_at_everything(f: &Facts, r: Report)
    requires
        call_ensures(doctor, (f,), r),
    ensures
        r.checks@.len() >= 3,
        r.checks@[0].what@ == "daemon"@,
        r.checks@[0].level is Fail <==> f.daemon is None,
        r.checks@[1].what@ == "state dir"@,
        f.secret is Some ==> r.checks@[2].what@ == "handle secret"@ && (r.checks@[2].level is Pass
            <==> (f.secret->0).0 % 64 == 0 && (f.secret->0).1 <= 180),
{
    let v = crate::doctor::checks_view(r.checks@);
    let all = crate::doctor::report_of(*f);
    assert(v.len() == r.checks@.len());
    assert(v == all);
    assert(v[0] == r.checks@[0]@);
    assert(v[1] == r.checks@[1]@);
    if f.secret is Some {
        assert(v[2] == r.checks@[2]@);
    }
}

/// A VM that is looked up passes if its identity is known; one that is reached in the clear is a warning.
pub proof fn bridges_are_judged(name: &str, bridge: &str, uuid: Option<&str>, c: Option<Check>)
    requires
        call_ensures(check_bridge, (name, bridge, uuid), c),
    ensures
        bridge@ == seq!['a', 'u', 't', 'o'] ==> c is Some && (c->0.level is Pass <==> uuid is Some
            && uuid->0.spec_bytes().len() == 32) && !(c->0.level is Fail),
        c is Some && c->0.level is Pass ==> bridge@.len() == 4,
        c is Some ==> c->0.what@ == "vm "@ + name@,
{
    if c is Some {
        let v = c->0@;
    }
}

/// A mount that the system does not know of is a failure, and one that is not served from this host a
/// warning.
pub proof fn mounts_are_judged(
    vm: &str,
    share: &str,
    mountpoint: &str,
    port: u16,
    out: &str,
    c: Check,
    line: Option<Vec<char>>,
)
    requires
        call_ensures(check_mount, (vm, share, mountpoint, port, out), c),
        call_ensures(find_mount, (out, mountpoint), line),
    ensures
        c.level is Fail <==> line is None,
        line is Some ==> (c.level is Pass <==> begins(line->0@, "127.0.0.1:"@)),
        c.what@ == "mount "@ + vm@ + "/"@ + share@,
{
    let v = c@;
    if line is Some {
        let s = line->0@;
        let p = "127.0.0.1:"@;
        if begins(s, p) {
            assert(s.take(p.len() as int) =~= p);
        }
        if crate::chars::begins(s, p) {
            assert forall|i: int| 0 <= i < p.len() implies s[i] == p[i] by {
                assert(s.take(p.len() as int)[i] == s[i]);
            }
        }
    }
}

proof fn mount_line_is_first(rows: Seq<Seq<char>>, mountpoint: Seq<char>)
    ensures
        match mount_line(rows, mountpoint) {
            Some(l) => rows.contains(l) && sub_at(l, " on "@ + mountpoint + " "@) is Some,
            None => forall|i: int|
                0 <= i < rows.len() ==> sub_at(#[trigger] rows[i], " on "@ + mountpoint + " "@)
                    is None,
        },
    decreases rows.len(),
{
    if rows.len() > 0 && sub_at(rows[0], " on "@ + mountpoint + " "@) is None {
        let t = rows.skip(1);
        mount_line_is_first(t, mountpoint);
        match mount_line(t, mountpoint) {
            Some(l) => {
                let k = choose|k: int| 0 <= k < t.len() && t[k] == l;
                assert(rows[k + 1] == l);
            },
            None => {
                assert forall|i: int| 0 <= i < rows.len() implies sub_at(
                    #[trigger] rows[i],
                    " on "@ + mountpoint + " "@,
                ) is None by {
                    if i > 0 {
                        assert(t[i - 1] == rows[i]);
                    }
                }
            },
        }
    } else if rows.len() > 0 {
        assert(rows[0] == mount_line(rows, mountpoint)->0);
    }
}

/// A mount is found in the line of the system's list that names its place, and not found only where no
/// line does.
pub proof fn mounts_are_found_by_place(
    out: &str,
    mountpoint: &str,
    r: Option<Vec<char>>,
    i: int,
)
    requires
        call_ensures(find_mount, (out, mountpoint), r),
    ensures
        r is Some ==> lines(out@).contains(r->0@) && sub_at(
            r->0@,
            " on "@ + mountpoint@ + " "@,
        ) is Some,
        r is None && 0 <= i < lines(out@).len() ==> sub_at(
            lines(out@)[i],
            " on "@ + mountpoint@ + " "@,
        ) is None,
{
    mount_line_is_first(lines(out@), mountpoint@);
}

/// What the daemon says of its version is taken as it is.
pub proof fn versions_are_taken(d: &Data, s: String, key: &str, none: &str, t: String)
    requires
        call_ensures(version_in, (d,), s),
        key@ == "version"@,
        none@ == "?"@,
        call_ensures(Data::text_or, (d, key, none), t),
    ensures
        s@ == t@,
{
}

/// The VMs of a configuration are the named values under `vm`, each with its bridge, identity and token.
pub proof fn configured_vms_are_read(
    d: &Data,
    rows: Vec<VmRow>,
    v: int,
    i: int,
    vms: Seq<(String, Data)>,
    row: &Data,
    key: &str,
    none: &str,
    s: String,
    t: Option<String>,
)
    requires
        call_ensures(vm_rows, (d,), rows),
        is_named(*d, "vm"@, v),
        d->Fields_0@[v].1 is Fields,
        vms == d->Fields_0@[v].1->Fields_0@,
        0 <= i < vms.len(),
        *row == vms[i].1,
        none@ == ""@,
        call_ensures(Data::text_or, (row, key, none), s),
        call_ensures(Data::text_at, (row, key), t),
    ensures
        rows@.len() == vms.len(),
        rows@[i].name@ == vms[i].0@,
        key@ == "bridge"@ ==> rows@[i].bridge@ == s@,
        key@ == "vm_uuid"@ ==> (rows@[i].uuid is Some <==> t is Some) && (t is Some
            ==> rows@[i].uuid->0@ == t->0@),
        key@ == "token"@ ==> (rows@[i].token is Some <==> t is Some) && (t is Some
            ==> rows@[i].token->0@ == t->0@),
{
    value_is_at(*d, "vm"@, v);
    let w = d->Fields_0@[v].1;
    let l = w@->Fields_0;
    assert(l.len() == vms.len());
    assert(l[i] == (vms[i].0@, vms[i].1@));
    let view = crate::facts::vm_rows_view(rows@);
    assert(view.len() == rows@.len());
    assert(view[i] == rows@[i]@);
}

/// The mounts that the daemon tells are read by name, each from its item of the list.
pub proof fn told_mounts_are_read(
    d: &Data,
    list: Vec<MountFacts>,
    v: int,
    i: int,
    items: Seq<Data>,
    row: &Data,
    key: &str,
    unknown: &str,
    none: &str,
    s: String,
    t: String,
    zero: u64,
    n: u64,
)
    requires
        call_ensures(mounts_in, (d,), list),
        is_named(*d, "mounts"@, v),
        d->Fields_0@[v].1 is List,
        items == d->Fields_0@[v].1->List_0@,
        0 <= i < items.len(),
        *row == items[i],
        unknown@ == "?"@,
        none@ == ""@,
        zero == 0,
        call_ensures(Data::text_or, (row, key, unknown), s),
        call_ensures(Data::text_or, (row, key, none), t),
        call_ensures(Data::number_or, (row, key, zero), n),
    ensures
        list@.len() == items.len(),
        key@ == "vm"@ ==> list@[i].vm@ == s@,
        key@ == "share"@ ==> list@[i].share@ == s@,
        key@ == "mountpoint"@ ==> list@[i].mountpoint@ == t@,
        key@ == "port"@ && n < 65536 ==> list@[i].port == n,
{
    value_is_at(*d, "mounts"@, v);
    let w = d->Fields_0@[v].1;
    let l = w@->List_0;
    assert(l.len() == items.len());
    assert(l[i] == items[i]@);
    let m = list@[i];
}

/// The sessions that the daemon tells are read by name, each from its item of the list.
pub proof fn told_sessions_are_read(
    d: &Data,
    list: Vec<SessionFacts>,
    v: int,
    i: int,
    items: Seq<Data>,
    row: &Data,
    key: &str,
    unknown: &str,
    s: String,
)
    requires
        call_ensures(sessions_in, (d,), list),
        is_named(*d, "vms"@, v),
        d->Fields_0@[v].1 is List,
        items == d->Fields_0@[v].1->List_0@,
        0 <= i < items.len(),
        *row == items[i],
        unknown@ == "?"@,
        call_ensures(Data::text_or, (row, key, unknown), s),
    ensures
        list@.len() == items.len(),
        key@ == "name"@ ==> list@[i].name@ == s@,
        key@ == "state"@ ==> list@[i].state@ == s@,
{
    value_is_at(*d, "vms"@, v);
    let w = d->Fields_0@[v].1;
    let l = w@->List_0;
    assert(l.len() == items.len());
    assert(l[i] == items[i]@);
    let m = list@[i];
}

/// The bridges that were found are read by name: the gateway and the interface of each.
pub proof fn found_bridges_are_read(
    d: &Data,
    pairs: Vec<(String, String)>,
    v: int,
    i: int,
    items: Seq<Data>,
    row: &Data,
    key: &str,
    unknown: &str,
    none: &str,
    s: String,
    t: String,
)
    requires
        call_ensures(bridges_in, (d,), pairs),
        is_named(*d, "vmnet"@, v),
        d->Fields_0@[v].1 is List,
        items == d->Fields_0@[v].1->List_0@,
        0 <= i < items.len(),
        *row == items[i],
        unknown@ == "?"@,
        none@ == ""@,
        call_ensures(Data::text_or, (row, key, unknown), s),
        call_ensures(Data::text_or, (row, key, none), t),
    ensures
        pairs@.len() == items.len(),
        key@ == "gateway"@ ==> pairs@[i].0@ == t@,
        key@ == "iface"@ ==> pairs@[i].1@ == s@,
{
    value_is_at(*d, "vmnet"@, v);
    let w = d->Fields_0@[v].1;
    let l = w@->List_0;
    assert(l.len() == items.len());
    assert(l[i] == items[i]@);
    let view = crate::facts::pairs_view(pairs@);
    assert(view.len() == pairs@.len());
    assert(view[i] == (pairs@[i].0@, pairs@[i].1@));
}

/// The announced instances are counted.
pub proof fn announced_instances_are_counted(d: &Data, n: usize, v: int)
    requires
        call_ensures(announced_in, (d,), n),
    ensures
        is_named(*d, "mdns"@, v) && d->Fields_0@[v].1 is List ==> n
            == d->Fields_0@[v].1->List_0@.len(),
        is_unnamed(*d, "mdns"@) ==> n == 0,
{
    value_is_at(*d, "mdns"@, v);
    if is_named(*d, "mdns"@, v) {
        let w = d->Fields_0@[v].1;
        let x = w@;
    }
}

/// The mode of what others may reach is told in its last three octal digits.
pub proof fn modes_are_told_in_octal(mode: u32, age_days: u64, c: Check)
    requires
        call_ensures(check_secret, (mode, age_days), c),
    ensures
        mode % 64 != 0 ==> c.detail@ == "mode "@ + seq![
            (48 + mode / 64 % 8) as u8 as char,
            (48 + mode / 8 % 8) as u8 as char,
            (48 + mode % 8) as u8 as char,
        ] + " — NFS handles are forgeable by local users; chmod 600"@,
        mode % 64 == 0 && age_days > 180 ==> c.detail@ == dec_chars(age_days as nat)
            + " days old — rotate (delete it + restart hostd + remount)"@,
{
    let v = c@;
}

} // verus!
