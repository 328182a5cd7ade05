//! A checkup of the installation: the daemon, its secrets, its configuration, its mounts.
//!
//! What there is to see is gathered outside; what is made of it is decided here.
use crate::chars::{
    after, begins, chars_of, lines, lines_of, same_text, starts, string_of, strip, trim, trimmed,
    views,
};
use crate::config::{names_auto, says_auto};
use crate::resolve::mdns::{find_sub, sub_at};
use crate::text::{dec_chars, decimal_text};
use vstd::prelude::*;
use vstd::string::{StringExecFns, StringSliceAdditionalSpecFns};
use vstd::utf8::encode_utf8;

verus! {

/// How bad a finding is.
#[derive(Debug, Clone, Copy, PartialEq, Eq, Structural)]
pub enum Level {
    Pass,
    Warn,
    Fail,
}

impl Level {
    /// The exit code that a finding asks for.
    pub open spec fn rank(self) -> int {
        match self {
            Level::Pass => 0,
            Level::Warn => 1,
            Level::Fail => 2,
        }
    }

    pub fn exit_code(&self) -> (n: i32)
        ensures
            n == self.rank(),
    {
        match self {
            Level::Pass => 0,
            Level::Warn => 1,
            Level::Fail => 2,
        }
    }
}

/// A finding: how bad it is, of what, and what was found.
#[derive(Debug)]
pub struct Check<S = String> {
    pub level: Level,
    pub what: S,
    pub detail: S,
}

impl Check<String> {
    pub open spec fn view(&self) -> Check<Seq<char>> {
        Check { level: self.level, what: self.what@, detail: self.detail@ }
    }
}

pub open spec fn check_of(level: Level, what: Seq<char>, detail: Seq<char>) -> Check<Seq<char>> {
    Check { level, what, detail }
}

/// The findings so far.
#[derive(Debug)]
pub struct Report {
    pub checks: Vec<Check>,
}

/// The worst of some findings.
pub open spec fn worst_of(checks: Seq<Check>) -> Level
    decreases checks.len(),
{
    if checks.len() == 0 {
        Level::Pass
    } else {
        let w = worst_of(checks.drop_last());
        if w.rank() < checks.last().level.rank() {
            checks.last().level
        } else {
            w
        }
    }
}

impl Report {
    pub fn new() -> (r: Self)
        ensures
            r.checks@.len() == 0,
    {
        Report { checks: Vec::new() }
    }

    pub fn add(&mut self, level: Level, what: String, detail: String)
        ensures
            final(self).checks@ == old(self).checks@.push(Check { level, what, detail }),
    {
        self.checks.push(Check { level, what, detail });
    }

    /// The worst finding.
    pub fn worst(&self) -> (l: Level)
        ensures
            l == worst_of(self.checks@),
    {
        let mut l = Level::Pass;
        let mut i: usize = 0;
        proof {
            assert(self.checks@.take(0) =~= Seq::empty());
        }
        while i < self.checks.len()
            invariant
                i <= self.checks@.len(),
                l == worst_of(self.checks@.take(i as int)),
            decreases self.checks@.len() - i,
        {
            proof {
                let t = self.checks@.take(i + 1);
                assert(t.drop_last() =~= self.checks@.take(i as int));
                assert(t.last() == self.checks@[i as int]);
            }
            let c = self.checks[i].level;
            if l.exit_code() < c.exit_code() {
                l = c;
            }
            i = i + 1;
        }
        proof {
            assert(self.checks@.take(i as int) =~= self.checks@);
        }
        l
    }
}

/// The verdict is that of the worst finding: nothing that was found is worse, and it was found.
pub proof fn nothing_is_worse(checks: Seq<Check>, i: int)
    requires
        0 <= i < checks.len(),
    ensures
        checks[i].level.rank() <= worst_of(checks).rank(),
        worst_of(checks) == Level::Pass || exists|j: int|
            0 <= j < checks.len() && (#[trigger] checks[j]).level == worst_of(checks),
    decreases checks.len(),
{
    let p = checks.drop_last();
    let n = checks.len() - 1;
    if p.len() > 0 {
        let k = if i < n {
            i
        } else {
            0
        };
        nothing_is_worse(p, k);
        assert(p[k] == checks[k]);
        if worst_of(p) != Level::Pass {
            let j = choose|j: int| 0 <= j < p.len() && (#[trigger] p[j]).level == worst_of(p);
            assert(checks[j].level == worst_of(p));
        }
    }
    assert(checks[n].level == checks.last().level);
    if worst_of(checks) != worst_of(p) {
        assert(checks[n].level == worst_of(checks));
    }
}

/// The interface in a line of `route -n get`, if it is the line that says so.
pub open spec fn interface_in(rows: Seq<Seq<char>>) -> Option<Seq<char>>
    decreases rows.len(),
{
    if rows.len() == 0 {
        None
    } else {
        match after(trimmed(rows[0]), "interface:"@) {
            Some(s) => Some(trimmed(s)),
            None => interface_in(rows.skip(1)),
        }
    }
}

/// The interface in the output of `route -n get`.
pub fn parse_route_interface(out: &str) -> (r: Option<String>)
    ensures
        match r {
            Some(s) => interface_in(lines(out@)) == Some(s@),
            None => interface_in(lines(out@)) is None,
        },
{
    let v = chars_of(out);
    let rows = lines_of(v.as_slice());
    let ghost all = lines(out@);
    let mut i: usize = 0;
    proof {
        assert(all.skip(0) =~= all);
    }
    while i < rows.len()
        invariant
            i <= rows@.len(),
            views(rows@) == all,
            all == lines(out@),
            interface_in(all) == interface_in(all.skip(i as int)),
        decreases rows@.len() - i,
    {
        proof {
            assert(all.skip(i as int)[0] == rows@[i as int]@);
            assert(all.skip(i as int).skip(1) =~= all.skip(i + 1));
        }
        let l = trim(rows[i].as_slice());
        if let Some(s) = strip(l.as_slice(), "interface:") {
            let t = trim(s.as_slice());
            return Some(string_of(t.as_slice()));
        }
        i = i + 1;
    }
    None
}

/// Whether anyone but the owner has rights under a mode.
pub open spec fn others_may(mode: u32) -> bool {
    mode % 64 != 0
}

/// A mode's last three octal digits.
pub open spec fn octal(mode: u32) -> Seq<char> {
    seq![
        (48 + mode / 64 % 8) as u8 as char,
        (48 + mode / 8 % 8) as u8 as char,
        (48 + mode % 8) as u8 as char,
    ]
}

fn put_octal(s: &mut String, mode: u32)
    ensures
        final(s)@ == old(s)@ + octal(mode),
{
    let a: u8 = (48 + mode / 64 % 8) as u8;
    let b: u8 = (48 + mode / 8 % 8) as u8;
    let c: u8 = (48 + mode % 8) as u8;
    s.push(a as char);
    s.push(b as char);
    s.push(c as char);
    proof {
        assert(s@ =~= old(s)@ + octal(mode));
    }
}

/// The daemon: whether it answers, and whether it is as old as the tool.
pub open spec fn daemon_says(
    daemon: Option<Seq<char>>,
    tool: Seq<char>,
    socket: Seq<char>,
) -> Check<Seq<char>> {
    match daemon {
        Some(v) => if v == tool {
            check_of(Level::Pass, "daemon"@, "mist-hostd "@ + v + " running"@)
        } else {
            check_of(
                Level::Warn,
                "daemon"@,
                "version skew: hostd "@ + v + ", CLI "@ + tool + " — restart whichever is older"@,
            )
        },
        None => check_of(
            Level::Fail,
            "daemon"@,
            "mist-hostd not reachable at "@ + socket
                + " — is it running? (launchctl/`mist-hostd`)"@,
        ),
    }
}

/// Text that may be missing, by value.
pub open spec fn opt_str(s: Option<&str>) -> Option<Seq<char>> {
    match s {
        Some(s) => Some(s@),
        None => None,
    }
}

pub fn check_daemon(daemon: Option<&str>, tool: &str, socket: &str) -> (c: Check)
    ensures
        c@ == daemon_says(opt_str(daemon), tool@, socket@),
{
    match daemon {
        Some(v) => {
            if same_text(v, tool) {
                let mut d: String = "mist-hostd ".to_owned();
                d.append(v);
                d.append(" running");
                Check { level: Level::Pass, what: "daemon".to_owned(), detail: d }
            } else {
                let mut d: String = "version skew: hostd ".to_owned();
                d.append(v);
                d.append(", CLI ");
                d.append(tool);
                d.append(" — restart whichever is older");
                Check { level: Level::Warn, what: "daemon".to_owned(), detail: d }
            }
        },
        None => {
            let mut d: String = "mist-hostd not reachable at ".to_owned();
            d.append(socket);
            d.append(" — is it running? (launchctl/`mist-hostd`)");
            Check { level: Level::Fail, what: "daemon".to_owned(), detail: d }
        },
    }
}

/// The state directory: whether it is there, and whether others may look into it.
pub open spec fn dir_says(there: bool, mode: Option<u32>, dir: Seq<char>) -> Check<Seq<char>> {
    if !there {
        check_of(
            Level::Warn,
            "state dir"@,
            dir + " does not exist yet (created on first daemon start)"@,
        )
    } else if mode is Some && others_may(mode->0) {
        check_of(
            Level::Warn,
            "state dir"@,
            dir + " is mode "@ + octal(mode->0)
                + "; other users can reach handles/tokens — chmod 700 it"@,
        )
    } else {
        check_of(Level::Pass, "state dir"@, dir + " (mode 700)"@)
    }
}

pub fn check_dir(there: bool, mode: Option<u32>, dir: &str) -> (c: Check)
    ensures
        c@ == dir_says(there, mode, dir@),
{
    let mut d: String = dir.to_owned();
    if !there {
        d.append(" does not exist yet (created on first daemon start)");
        return Check { level: Level::Warn, what: "state dir".to_owned(), detail: d };
    }
    if let Some(m) = mode {
        if m % 64 != 0 {
            d.append(" is mode ");
            put_octal(&mut d, m);
            d.append("; other users can reach handles/tokens — chmod 700 it");
            return Check { level: Level::Warn, what: "state dir".to_owned(), detail: d };
        }
    }
    d.append(" (mode 700)");
    Check { level: Level::Pass, what: "state dir".to_owned(), detail: d }
}

/// Days after which the secret should be replaced.
pub const SECRET_DAYS: u64 = 180;

/// The secret by which handles are told from forged ones.
pub open spec fn secret_says(mode: u32, age_days: u64) -> Check<Seq<char>> {
    if others_may(mode) {
        check_of(
            Level::Warn,
            "handle secret"@,
            "mode "@ + octal(mode)
                + " — NFS handles are forgeable by local users; chmod 600"@,
        )
    } else if age_days > SECRET_DAYS {
        check_of(
            Level::Warn,
            "handle secret"@,
            dec_chars(age_days as nat)
                + " days old — rotate (delete it + restart hostd + remount)"@,
        )
    } else {
        check_of(
            Level::Pass,
            "handle secret"@,
            "mode 600, "@ + dec_chars(age_days as nat) + " days old"@,
        )
    }
}

pub fn check_secret(mode: u32, age_days: u64) -> (c: Check)
    ensures
        c@ == secret_says(mode, age_days),
{
    if mode % 64 != 0 {
        let mut d: String = "mode ".to_owned();
        put_octal(&mut d, mode);
        d.append(" — NFS handles are forgeable by local users; chmod 600");
        return Check { level: Level::Warn, what: "handle secret".to_owned(), detail: d };
    }
    if age_days > SECRET_DAYS {
        let mut d = decimal_text(age_days);
        d.append(" days old — rotate (delete it + restart hostd + remount)");
        return Check { level: Level::Warn, what: "handle secret".to_owned(), detail: d };
    }
    let mut d: String = "mode 600, ".to_owned();
    d.append(decimal_text(age_days).as_str());
    d.append(" days old");
    Check { level: Level::Pass, what: "handle secret".to_owned(), detail: d }
}

/// How a VM is reached: one that is looked up should be bound to its identity, and one that is
/// not on this machine should not be reached in the clear.
pub open spec fn bridge_says(
    name: Seq<char>,
    bridge: Seq<char>,
    uuid_len: Option<nat>,
) -> Option<Check<Seq<char>>> {
    if says_auto(bridge) {
        if uuid_len == Some(32nat) {
            Some(
                check_of(
                    Level::Pass,
                    "vm "@ + name,
                    "bridge=auto (resolved per-connect; no stored IP to drift)"@,
                ),
            )
        } else {
            Some(
                check_of(
                    Level::Warn,
                    "vm "@ + name,
                    "bridge=auto but vm_uuid missing/short — re-pair to bind identity"@,
                ),
            )
        }
    } else if begins(bridge, "tcp:"@) && !begins(bridge, "tcp:127."@) && !begins(
        bridge,
        "tcp:localhost"@,
    ) {
        Some(
            check_of(
                Level::Warn,
                "vm "@ + name,
                "endpoint "@ + bridge
                    + " is cleartext TCP; prefer bridge:/uds:/auto or an external encrypted tunnel"@,
            ),
        )
    } else {
        None
    }
}

fn vm_label(name: &str) -> (s: String)
    ensures
        s@ == "vm "@ + name@,
{
    let mut s: String = "vm ".to_owned();
    s.append(name);
    s
}

/// The length of a text in bytes.
pub open spec fn opt_len(s: Option<&str>) -> Option<nat> {
    match s {
        Some(s) => Some(s.spec_bytes().len()),
        None => None,
    }
}

pub fn check_bridge(name: &str, bridge: &str, uuid: Option<&str>) -> (c: Option<Check>)
    ensures
        match c {
            Some(c) => bridge_says(name@, bridge@, opt_len(uuid)) == Some(c@),
            None => bridge_says(name@, bridge@, opt_len(uuid)) is None,
        },
{
    if names_auto(bridge) {
        let bound = match uuid {
            Some(u) => u.as_bytes().len() == 32,
            None => false,
        };
        if bound {
            return Some(
                Check {
                    level: Level::Pass,
                    what: vm_label(name),
                    detail: "bridge=auto (resolved per-connect; no stored IP to drift)".to_owned(),
                },
            );
        }
        return Some(
            Check {
                level: Level::Warn,
                what: vm_label(name),
                detail: "bridge=auto but vm_uuid missing/short — re-pair to bind identity".to_owned(),
            },
        );
    }
    if starts(bridge, "tcp:") && !starts(bridge, "tcp:127.") && !starts(bridge, "tcp:localhost") {
        let mut d: String = "endpoint ".to_owned();
        d.append(bridge);
        d.append(" is cleartext TCP; prefer bridge:/uds:/auto or an external encrypted tunnel");
        return Some(Check { level: Level::Warn, what: vm_label(name), detail: d });
    }
    None
}

/// What there is of a token's file: its length, and its mode if it can be had.
#[derive(Debug, Clone, Copy, PartialEq, Eq, Structural)]
pub struct TokenFile {
    pub len: u64,
    pub mode: Option<u32>,
}

/// The token of a VM: whether there is one, long enough, and for the owner alone.
pub open spec fn token_says(
    name: Seq<char>,
    token: Option<Seq<char>>,
    file: Option<TokenFile>,
) -> Check<Seq<char>> {
    match token {
        None => check_of(Level::Fail, "vm "@ + name, "no token path in config"@),
        Some(tok) => {
            let what = "vm "@ + name + " token"@;
            match file {
                None => check_of(
                    Level::Fail,
                    what,
                    tok + " missing — sessions to this VM cannot authenticate"@,
                ),
                Some(f) => if f.len < 32 {
                    check_of(
                        Level::Fail,
                        what,
                        tok + " is "@ + dec_chars(f.len as nat)
                            + " bytes; needs ≥32 random bytes"@,
                    )
                } else if f.mode is Some && others_may(f.mode->0) {
                    check_of(
                        Level::Warn,
                        what,
                        tok + " is mode "@ + octal(f.mode->0) + " — chmod 600"@,
                    )
                } else {
                    check_of(Level::Pass, what, tok + " (mode 600)"@)
                },
            }
        },
    }
}

pub fn check_token(name: &str, token: Option<&str>, file: Option<TokenFile>) -> (c: Check)
    ensures
        c@ == token_says(name@, opt_str(token), file),
{
    let tok = match token {
        Some(t) => t,
        None => {
            return Check {
                level: Level::Fail,
                what: vm_label(name),
                detail: "no token path in config".to_owned(),
            };
        },
    };
    let mut what = vm_label(name);
    what.append(" token");
    let mut d: String = tok.to_owned();
    match file {
        None => {
            d.append(" missing — sessions to this VM cannot authenticate");
            Check { level: Level::Fail, what, detail: d }
        },
        Some(f) => {
            if f.len < 32 {
                d.append(" is ");
                d.append(decimal_text(f.len).as_str());
                d.append(" bytes; needs ≥32 random bytes");
                return Check { level: Level::Fail, what, detail: d };
            }
            if let Some(m) = f.mode {
                if m % 64 != 0 {
                    d.append(" is mode ");
                    put_octal(&mut d, m);
                    d.append(" — chmod 600");
                    return Check { level: Level::Warn, what, detail: d };
                }
            }
            d.append(" (mode 600)");
            Check { level: Level::Pass, what, detail: d }
        },
    }
}

/// Where the way to the guests leads: a VPN that takes it over cuts host and guest off from each
/// other while both seem up.
pub open spec fn route_says(
    gateway: Seq<char>,
    iface: Seq<char>,
    dev: Option<Seq<char>>,
) -> Option<Check<Seq<char>>> {
    match dev {
        None => None,
        Some(dev) => Some(
            if begins(dev, "utun"@) {
                check_of(
                    Level::Fail,
                    "vpn route"@,
                    "traffic to the vmnet gateway "@ + gateway + " egresses "@ + dev
                        + " (a VPN tunnel), not "@ + iface
                        + " — split-exclude the vmnet subnet in your VPN client to restore host↔guest"@,
                )
            } else if dev == iface {
                check_of(
                    Level::Pass,
                    "vpn route"@,
                    "gateway "@ + gateway + " routes via "@ + iface + " (no VPN hijack)"@,
                )
            } else {
                check_of(
                    Level::Warn,
                    "vpn route"@,
                    "gateway "@ + gateway + " egresses "@ + dev + ", expected "@ + iface
                        + " — verify routing"@,
                )
            },
        ),
    }
}

pub fn check_route(gateway: &str, iface: &str, dev: Option<&str>) -> (c: Option<Check>)
    ensures
        match c {
            Some(c) => route_says(gateway@, iface@, opt_str(dev)) == Some(c@),
            None => route_says(gateway@, iface@, opt_str(dev)) is None,
        },
{
    let dev = match dev {
        Some(d) => d,
        None => {
            return None;
        },
    };
    if starts(dev, "utun") {
        let mut d: String = "traffic to the vmnet gateway ".to_owned();
        d.append(gateway);
        d.append(" egresses ");
        d.append(dev);
        d.append(" (a VPN tunnel), not ");
        d.append(iface);
        d.append(" — split-exclude the vmnet subnet in your VPN client to restore host↔guest");
        return Some(Check { level: Level::Fail, what: "vpn route".to_owned(), detail: d });
    }
    if same_text(dev, iface) {
        let mut d: String = "gateway ".to_owned();
        d.append(gateway);
        d.append(" routes via ");
        d.append(iface);
        d.append(" (no VPN hijack)");
        return Some(Check { level: Level::Pass, what: "vpn route".to_owned(), detail: d });
    }
    let mut d: String = "gateway ".to_owned();
    d.append(gateway);
    d.append(" egresses ");
    d.append(dev);
    d.append(", expected ");
    d.append(iface);
    d.append(" — verify routing");
    Some(Check { level: Level::Warn, what: "vpn route".to_owned(), detail: d })
}

/// The session with a VM.
pub open spec fn session_says(name: Seq<char>, state: Seq<char>) -> Check<Seq<char>> {
    if state == "live"@ || state == "ready"@ {
        check_of(Level::Pass, "vm "@ + name, "session "@ + state)
    } else if state == "seeding"@ || state == "resyncing"@ {
        check_of(Level::Warn, "vm "@ + name, "session "@ + state + " (transient)"@)
    } else {
        check_of(
            Level::Fail,
            "vm "@ + name,
            "session "@ + state + " — check the VM is booted and mistd is running"@,
        )
    }
}

pub fn check_session(name: &str, state: &str) -> (c: Check)
    ensures
        c@ == session_says(name@, state@),
{
    let mut d: String = "session ".to_owned();
    d.append(state);
    if same_text(state, "live") || same_text(state, "ready") {
        return Check { level: Level::Pass, what: vm_label(name), detail: d };
    }
    if same_text(state, "seeding") || same_text(state, "resyncing") {
        d.append(" (transient)");
        return Check { level: Level::Warn, what: vm_label(name), detail: d };
    }
    d.append(" — check the VM is booted and mistd is running");
    Check { level: Level::Fail, what: vm_label(name), detail: d }
}

/// A share of a VM is worth a word only where it is not live.
pub open spec fn share_says(vm: Seq<char>, share: Seq<char>, state: Seq<char>) -> Option<
    Check<Seq<char>>,
> {
    if state == "live"@ {
        None
    } else {
        Some(check_of(Level::Warn, "share "@ + vm + "/"@ + share, "state "@ + state))
    }
}

pub fn check_share(vm: &str, share: &str, state: &str) -> (c: Option<Check>)
    ensures
        match c {
            Some(c) => share_says(vm@, share@, state@) == Some(c@),
            None => share_says(vm@, share@, state@) is None,
        },
{
    if same_text(state, "live") {
        return None;
    }
    let mut what: String = "share ".to_owned();
    what.append(vm);
    what.append("/");
    what.append(share);
    let mut d: String = "state ".to_owned();
    d.append(state);
    Some(Check { level: Level::Warn, what, detail: d })
}

/// The line of `mount`'s output that is about a mount point.
pub open spec fn mount_line(rows: Seq<Seq<char>>, mountpoint: Seq<char>) -> Option<Seq<char>>
    decreases rows.len(),
{
    if rows.len() == 0 {
        None
    } else if sub_at(rows[0], " on "@ + mountpoint + " "@) is Some {
        Some(rows[0])
    } else {
        mount_line(rows.skip(1), mountpoint)
    }
}

pub fn find_mount(out: &str, mountpoint: &str) -> (r: Option<Vec<char>>)
    ensures
        match r {
            Some(l) => mount_line(lines(out@), mountpoint@) == Some(l@),
            None => mount_line(lines(out@), mountpoint@) is None,
        },
{
    let mut mark: String = " on ".to_owned();
    mark.append(mountpoint);
    mark.append(" ");
    let v = chars_of(out);
    let rows = lines_of(v.as_slice());
    let ghost all = lines(out@);
    let mut i: usize = 0;
    proof {
        assert(all.skip(0) =~= all);
    }
    while i < rows.len()
        invariant
            i <= rows@.len(),
            views(rows@) == all,
            all == lines(out@),
            mark@ == " on "@ + mountpoint@ + " "@,
            mount_line(all, mountpoint@) == mount_line(all.skip(i as int), mountpoint@),
        decreases rows@.len() - i,
    {
        proof {
            assert(all.skip(i as int)[0] == rows@[i as int]@);
            assert(all.skip(i as int).skip(1) =~= all.skip(i + 1));
        }
        if find_sub(rows[i].as_slice(), mark.as_str()).is_some() {
            let l = crate::chars::part(rows[i].as_slice(), 0, rows[i].len());
            proof {
                assert(l@ =~= rows@[i as int]@);
            }
            return Some(l);
        }
        i = i + 1;
    }
    None
}

/// What stands before the first blank of a line.
pub open spec fn first_field(l: Seq<char>) -> Seq<char> {
    match crate::chars::first_at(l, ' ') {
        Some(i) => l.take(i),
        None => l,
    }
}

/// A mount of the daemon's, against what the kernel says of it.
pub open spec fn mount_says(
    vm: Seq<char>,
    share: Seq<char>,
    mountpoint: Seq<char>,
    port: u16,
    line: Option<Seq<char>>,
) -> Check<Seq<char>> {
    let what = "mount "@ + vm + "/"@ + share;
    match line {
        Some(l) => if begins(l, "127.0.0.1:"@) {
            check_of(
                Level::Pass,
                what,
                mountpoint + " (loopback NFS, port "@ + dec_chars(port as nat) + ")"@,
            )
        } else {
            check_of(
                Level::Warn,
                what,
                "served from "@ + first_field(l) + " — expected loopback"@,
            )
        },
        None => check_of(
            Level::Fail,
            what,
            "daemon thinks "@ + mountpoint
                + " is mounted but the kernel disagrees — `mist umount` then remount"@,
        ),
    }
}

pub fn check_mount(vm: &str, share: &str, mountpoint: &str, port: u16, out: &str) -> (c: Check)
    ensures
        c@ == mount_says(vm@, share@, mountpoint@, port, mount_line(lines(out@), mountpoint@)),
{
    let mut what: String = "mount ".to_owned();
    what.append(vm);
    what.append("/");
    what.append(share);
    match find_mount(out, mountpoint) {
        Some(l) => {
            if strip(l.as_slice(), "127.0.0.1:").is_some() {
                let mut d: String = mountpoint.to_owned();
                d.append(" (loopback NFS, port ");
                d.append(decimal_text(port as u64).as_str());
                d.append(")");
                return Check { level: Level::Pass, what, detail: d };
            }
            let from = match crate::chars::find(l.as_slice(), ' ') {
                Some(i) => {
                    let f = crate::chars::part(l.as_slice(), 0, i);
                    proof {
                        assert(f@ =~= l@.take(i as int));
                    }
                    f
                },
                None => l,
            };
            let mut d: String = "served from ".to_owned();
            d.append(string_of(from.as_slice()).as_str());
            d.append(" — expected loopback");
            Check { level: Level::Warn, what, detail: d }
        },
        None => {
            let mut d: String = "daemon thinks ".to_owned();
            d.append(mountpoint);
            d.append(" is mounted but the kernel disagrees — `mist umount` then remount");
            Check { level: Level::Fail, what, detail: d }
        },
    }
}

/// What VMs announce of themselves right now.
pub open spec fn mdns_says(count: nat) -> Check<Seq<char>> {
    if count == 0 {
        check_of(
            Level::Warn,
            "mDNS"@,
            "no _mist._tcp instances right now — discovery falls back to lease/ARP scan + authenticated probe; allow mDNSResponder/bootpd on the bridge to restore fast discovery"@,
        )
    } else {
        check_of(Level::Pass, "mDNS"@, dec_chars(count) + " _mist._tcp instance(s) browsable"@)
    }
}

pub fn check_mdns(count: usize) -> (c: Check)
    ensures
        c@ == mdns_says(count as nat),
{
    if count == 0 {
        return Check {
            level: Level::Warn,
            what: "mDNS".to_owned(),
            detail:
                "no _mist._tcp instances right now — discovery falls back to lease/ARP scan + authenticated probe; allow mDNSResponder/bootpd on the bridge to restore fast discovery".to_owned(),
        };
    }
    let mut d = decimal_text(count as u64);
    d.append(" _mist._tcp instance(s) browsable");
    Check { level: Level::Pass, what: "mDNS".to_owned(), detail: d }
}

/// The tool that mounts.
pub open spec fn tool_says(there: bool) -> Check<Seq<char>> {
    if there {
        check_of(Level::Pass, "mount_nfs"@, "/sbin/mount_nfs present"@)
    } else {
        check_of(
            Level::Fail,
            "mount_nfs"@,
            "missing /sbin/mount_nfs — cannot mount shares"@,
        )
    }
}

pub fn check_tool(there: bool) -> (c: Check)
    ensures
        c@ == tool_says(there),
{
    if there {
        Check {
            level: Level::Pass,
            what: "mount_nfs".to_owned(),
            detail: "/sbin/mount_nfs present".to_owned(),
        }
    } else {
        Check {
            level: Level::Fail,
            what: "mount_nfs".to_owned(),
            detail: "missing /sbin/mount_nfs — cannot mount shares".to_owned(),
        }
    }
}

/// A secret, a directory or a token that others may use never passes.
pub proof fn open_secrets_never_pass(
    mode: u32,
    age_days: u64,
    dir: Seq<char>,
    name: Seq<char>,
    token: Seq<char>,
    len: u64,
)
    requires
        others_may(mode),
    ensures
        secret_says(mode, age_days).level != Level::Pass,
        dir_says(true, Some(mode), dir).level != Level::Pass,
        token_says(name, Some(token), Some(TokenFile { len, mode: Some(mode) })).level
            != Level::Pass,
{
}

/// What is known of a VM from the configuration, and of its token's file.
#[derive(Debug)]
pub struct VmFacts {
    pub name: String,
    pub bridge: String,
    pub uuid: Option<String>,
    pub token: Option<String>,
    pub file: Option<TokenFile>,
}

/// What the configuration file is like.
#[derive(Debug)]
pub enum ConfigFacts {
    Absent,
    /// It cannot be read, for this reason.
    Broken(String),
    Read(Vec<VmFacts>),
}

/// A bridge: its gateway, its interface, and the interface that the way to the gateway leads
/// through.
#[derive(Debug)]
pub struct BridgeFacts {
    pub gateway: String,
    pub iface: String,
    pub dev: Option<String>,
}

/// What can be discovered: the bridges, and how many VMs announce themselves.
#[derive(Debug)]
pub struct FoundFacts {
    pub bridges: Vec<BridgeFacts>,
    pub announced: usize,
}

/// A session: the VM, its state, and its shares with theirs.
#[derive(Debug)]
pub struct SessionFacts {
    pub name: String,
    pub state: String,
    pub shares: Vec<(String, String)>,
}

/// A mount of the daemon's.
#[derive(Debug)]
pub struct MountFacts {
    pub vm: String,
    pub share: String,
    pub mountpoint: String,
    pub port: u16,
}

/// All that a checkup looks at. What only the daemon knows is missing where it does not answer.
#[derive(Debug)]
pub struct Facts {
    pub daemon: Option<String>,
    pub tool: String,
    pub socket: String,
    pub dir: String,
    pub dir_there: bool,
    pub dir_mode: Option<u32>,
    /// Mode and age of the secret, if there is one.
    pub secret: Option<(u32, u64)>,
    pub config_path: String,
    pub config: ConfigFacts,
    pub mount_tool: bool,
    pub found: Option<FoundFacts>,
    pub sessions: Option<Vec<SessionFacts>>,
    pub mounts: Option<Vec<MountFacts>>,
    /// What the system says is mounted.
    pub mount_out: String,
}

/// Text that may be missing, by value.
pub open spec fn opt_string(s: Option<String>) -> Option<Seq<char>> {
    match s {
        Some(s) => Some(s@),
        None => None,
    }
}

/// The length in bytes of text that may be missing.
pub open spec fn opt_string_len(s: Option<String>) -> Option<nat> {
    match s {
        Some(s) => Some(encode_utf8(s@).len()),
        None => None,
    }
}

pub open spec fn opt_one(c: Option<Check<Seq<char>>>) -> Seq<Check<Seq<char>>> {
    match c {
        Some(c) => seq![c],
        None => seq![],
    }
}

/// The findings about one VM of the configuration.
pub open spec fn vm_says(v: VmFacts) -> Seq<Check<Seq<char>>> {
    opt_one(bridge_says(v.name@, v.bridge@, opt_string_len(v.uuid))) + seq![
        token_says(v.name@, opt_string(v.token), v.file),
    ]
}

pub open spec fn vms_say(list: Seq<VmFacts>) -> Seq<Check<Seq<char>>>
    decreases list.len(),
{
    if list.len() == 0 {
        seq![]
    } else {
        vms_say(list.drop_last()) + vm_says(list.last())
    }
}

/// The findings about the configuration.
pub open spec fn config_says(path: Seq<char>, c: ConfigFacts) -> Seq<Check<Seq<char>>> {
    match c {
        ConfigFacts::Absent => seq![
            check_of(
                Level::Pass,
                "config"@,
                "no config.toml (ad-hoc --vm attachments only)"@,
            ),
        ],
        ConfigFacts::Broken(why) => seq![
            check_of(Level::Fail, "config"@, path + " unreadable: "@ + why@),
        ],
        ConfigFacts::Read(list) => seq![
            check_of(Level::Pass, "config"@, path + " parses"@),
        ] + vms_say(list@),
    }
}

pub open spec fn bridges_say(list: Seq<BridgeFacts>) -> Seq<Check<Seq<char>>>
    decreases list.len(),
{
    if list.len() == 0 {
        seq![]
    } else {
        bridges_say(list.drop_last()) + opt_one(
            route_says(list.last().gateway@, list.last().iface@, opt_string(list.last().dev)),
        )
    }
}

pub open spec fn no_bridge() -> Check<Seq<char>> {
    check_of(
        Level::Warn,
        "vmnet"@,
        "no vmnet bridge (bridge1xx) found — start the VM, or this Mac isn't hosting one"@,
    )
}

pub open spec fn transport_says() -> Check<Seq<char>> {
    check_of(
        Level::Pass,
        "transport"@,
        "auto/tcp over vmnet (authenticated, not yet encrypted — Noise TCP is M7; vsock is never attempted under a foreign supervisor: a non-owner socket(PF_VSOCK) is ENODEV)"@,
    )
}

/// The findings about the network.
pub open spec fn network_says(f: FoundFacts) -> Seq<Check<Seq<char>>> {
    (if f.bridges@.len() == 0 {
        seq![no_bridge()]
    } else {
        bridges_say(f.bridges@)
    }) + seq![mdns_says(f.announced as nat), transport_says()]
}

pub open spec fn shares_say(vm: Seq<char>, list: Seq<(String, String)>) -> Seq<Check<Seq<char>>>
    decreases list.len(),
{
    if list.len() == 0 {
        seq![]
    } else {
        shares_say(vm, list.drop_last()) + opt_one(share_says(vm, list.last().0@, list.last().1@))
    }
}

pub open spec fn sessions_say(list: Seq<SessionFacts>) -> Seq<Check<Seq<char>>>
    decreases list.len(),
{
    if list.len() == 0 {
        seq![]
    } else {
        let s = list.last();
        sessions_say(list.drop_last()) + seq![session_says(s.name@, s.state@)] + shares_say(
            s.name@,
            s.shares@,
        )
    }
}

pub open spec fn mounts_say(list: Seq<MountFacts>, out: Seq<char>) -> Seq<Check<Seq<char>>>
    decreases list.len(),
{
    if list.len() == 0 {
        seq![]
    } else {
        let m = list.last();
        mounts_say(list.drop_last(), out).push(
            mount_says(
                m.vm@,
                m.share@,
                m.mountpoint@,
                m.port,
                mount_line(lines(out), m.mountpoint@),
            ),
        )
    }
}

/// All findings of a checkup, in order.
pub open spec fn report_of(f: Facts) -> Seq<Check<Seq<char>>> {
    seq![
        daemon_says(opt_string(f.daemon), f.tool@, f.socket@),
        dir_says(f.dir_there, f.dir_mode, f.dir@),
    ] + (match f.secret {
        Some((mode, age)) => seq![secret_says(mode, age)],
        None => seq![],
    }) + config_says(f.config_path@, f.config) + seq![tool_says(f.mount_tool)] + (
    if f.daemon is Some && f.found is Some {
        network_says(f.found->0)
    } else {
        seq![]
    }) + (if f.daemon is Some && f.sessions is Some {
        sessions_say(f.sessions->0@)
    } else {
        seq![]
    }) + (if f.daemon is Some && f.mounts is Some {
        mounts_say(f.mounts->0@, f.mount_out@)
    } else {
        seq![]
    })
}

pub open spec fn checks_view(list: Seq<Check>) -> Seq<Check<Seq<char>>> {
    Seq::new(list.len(), |i: int| list[i]@)
}

fn as_str(s: &Option<String>) -> (r: Option<&str>)
    ensures
        opt_str(r) == opt_string(*s),
        opt_len(r) == opt_string_len(*s),
{
    match s {
        Some(s) => Some(s.as_str()),
        None => None,
    }
}

impl Report {
    fn note(&mut self, c: Check)
        ensures
            checks_view(final(self).checks@) == checks_view(old(self).checks@) + seq![c@],
    {
        self.checks.push(c);
        proof {
            assert(checks_view(self.checks@) =~= checks_view(old(self).checks@) + seq![c@]);
        }
    }

    fn note_any(&mut self, c: Option<Check>)
        ensures
            checks_view(final(self).checks@) == checks_view(old(self).checks@) + opt_one(
                match c {
                    Some(c) => Some(c@),
                    None => None,
                },
            ),
    {
        match c {
            Some(c) => {
                self.note(c);
            },
            None => {
                proof {
                    assert(checks_view(self.checks@) =~= checks_view(self.checks@) + seq![]);
                }
            },
        }
    }

    fn note_config(&mut self, path: &str, config: &ConfigFacts)
        ensures
            checks_view(final(self).checks@) == checks_view(old(self).checks@) + config_says(
                path@,
                *config,
            ),
    {
        let ghost was = checks_view(self.checks@);
        let mut d: String = path.to_owned();
        match config {
            ConfigFacts::Absent => {
                self.note(
                    Check {
                        level: Level::Pass,
                        what: "config".to_owned(),
                        detail: "no config.toml (ad-hoc --vm attachments only)".to_owned(),
                    },
                );
            },
            ConfigFacts::Broken(why) => {
                d.append(" unreadable: ");
                d.append(why.as_str());
                self.note(Check { level: Level::Fail, what: "config".to_owned(), detail: d });
            },
            ConfigFacts::Read(list) => {
                d.append(" parses");
                self.note(Check { level: Level::Pass, what: "config".to_owned(), detail: d });
                let ghost start = checks_view(self.checks@);
                let mut i: usize = 0;
                proof {
                    assert(list@.take(0) =~= Seq::empty());
                    assert(start + vms_say(list@.take(0)) =~= start);
                }
                while i < list.len()
                    invariant
                        i <= list@.len(),
                        checks_view(self.checks@) == start + vms_say(list@.take(i as int)),
                    decreases list@.len() - i,
                {
                    let v = &list[i];
                    proof {
                        assert(list@.take(i + 1).drop_last() =~= list@.take(i as int));
                        assert(list@.take(i + 1).last() == list@[i as int]);
                    }
                    self.note_any(
                        check_bridge(v.name.as_str(), v.bridge.as_str(), as_str(&v.uuid)),
                    );
                    self.note(check_token(v.name.as_str(), as_str(&v.token), v.file));
                    proof {
                        assert(checks_view(self.checks@) =~= start + vms_say(list@.take(i + 1)));
                    }
                    i = i + 1;
                }
                proof {
                    assert(list@.take(i as int) =~= list@);
                    assert(checks_view(self.checks@) =~= was + config_says(path@, *config));
                }
            },
        }
    }

    fn note_network(&mut self, f: &FoundFacts)
        ensures
            checks_view(final(self).checks@) == checks_view(old(self).checks@) + network_says(*f),
    {
        let ghost start = checks_view(self.checks@);
        if f.bridges.len() == 0 {
            self.note(
                Check {
                    level: Level::Warn,
                    what: "vmnet".to_owned(),
                    detail:
                        "no vmnet bridge (bridge1xx) found — start the VM, or this Mac isn't hosting one".to_owned(),
                },
            );
        } else {
            let mut i: usize = 0;
            proof {
                assert(f.bridges@.take(0) =~= Seq::empty());
                assert(start + bridges_say(f.bridges@.take(0)) =~= start);
            }
            while i < f.bridges.len()
                invariant
                    i <= f.bridges@.len(),
                    checks_view(self.checks@) == start + bridges_say(f.bridges@.take(i as int)),
                decreases f.bridges@.len() - i,
            {
                let b = &f.bridges[i];
                proof {
                    assert(f.bridges@.take(i + 1).drop_last() =~= f.bridges@.take(i as int));
                    assert(f.bridges@.take(i + 1).last() == f.bridges@[i as int]);
                }
                self.note_any(check_route(b.gateway.as_str(), b.iface.as_str(), as_str(&b.dev)));
                proof {
                    assert(checks_view(self.checks@) =~= start + bridges_say(
                        f.bridges@.take(i + 1),
                    ));
                }
                i = i + 1;
            }
            proof {
                assert(f.bridges@.take(i as int) =~= f.bridges@);
            }
        }
        self.note(check_mdns(f.announced));
        self.note(
            Check {
                level: Level::Pass,
                what: "transport".to_owned(),
                detail:
                    "auto/tcp over vmnet (authenticated, not yet encrypted — Noise TCP is M7; vsock is never attempted under a foreign supervisor: a non-owner socket(PF_VSOCK) is ENODEV)".to_owned(),
            },
        );
        proof {
            assert(checks_view(self.checks@) =~= start + network_says(*f));
        }
    }

    fn note_session(&mut self, s: &SessionFacts)
        ensures
            checks_view(final(self).checks@) == checks_view(old(self).checks@) + seq![
                session_says(s.name@, s.state@),
            ] + shares_say(s.name@, s.shares@),
    {
        self.note(check_session(s.name.as_str(), s.state.as_str()));
        let ghost start = checks_view(self.checks@);
        let mut i: usize = 0;
        proof {
            assert(s.shares@.take(0) =~= Seq::empty());
            assert(start + shares_say(s.name@, s.shares@.take(0)) =~= start);
        }
        while i < s.shares.len()
            invariant
                i <= s.shares@.len(),
                checks_view(self.checks@) == start + shares_say(s.name@, s.shares@.take(i as int)),
            decreases s.shares@.len() - i,
        {
            let h = &s.shares[i];
            proof {
                assert(s.shares@.take(i + 1).drop_last() =~= s.shares@.take(i as int));
                assert(s.shares@.take(i + 1).last() == s.shares@[i as int]);
            }
            self.note_any(check_share(s.name.as_str(), h.0.as_str(), h.1.as_str()));
            proof {
                assert(checks_view(self.checks@) =~= start + shares_say(
                    s.name@,
                    s.shares@.take(i + 1),
                ));
            }
            i = i + 1;
        }
        proof {
            assert(s.shares@.take(i as int) =~= s.shares@);
        }
    }

    fn note_sessions(&mut self, list: &Vec<SessionFacts>)
        ensures
            checks_view(final(self).checks@) == checks_view(old(self).checks@) + sessions_say(
                list@,
            ),
    {
        let ghost start = checks_view(self.checks@);
        let mut i: usize = 0;
        proof {
            assert(list@.take(0) =~= Seq::empty());
            assert(start + sessions_say(list@.take(0)) =~= start);
        }
        while i < list.len()
            invariant
                i <= list@.len(),
                checks_view(self.checks@) == start + sessions_say(list@.take(i as int)),
            decreases list@.len() - i,
        {
            proof {
                assert(list@.take(i + 1).drop_last() =~= list@.take(i as int));
                assert(list@.take(i + 1).last() == list@[i as int]);
            }
            self.note_session(&list[i]);
            proof {
                assert(checks_view(self.checks@) =~= start + sessions_say(list@.take(i + 1)));
            }
            i = i + 1;
        }
        proof {
            assert(list@.take(i as int) =~= list@);
        }
    }

    fn note_mounts(&mut self, list: &Vec<MountFacts>, out: &str)
        ensures
            checks_view(final(self).checks@) == checks_view(old(self).checks@) + mounts_say(
                list@,
                out@,
            ),
    {
        let ghost start = checks_view(self.checks@);
        let mut i: usize = 0;
        proof {
            assert(list@.take(0) =~= Seq::empty());
            assert(start + mounts_say(list@.take(0), out@) =~= start);
        }
        while i < list.len()
            invariant
                i <= list@.len(),
                checks_view(self.checks@) == start + mounts_say(list@.take(i as int), out@),
            decreases list@.len() - i,
        {
            let m = &list[i];
            proof {
                assert(list@.take(i + 1).drop_last() =~= list@.take(i as int));
                assert(list@.take(i + 1).last() == list@[i as int]);
            }
            self.note(
                check_mount(m.vm.as_str(), m.share.as_str(), m.mountpoint.as_str(), m.port, out),
            );
            proof {
                assert(checks_view(self.checks@) =~= start + mounts_say(list@.take(i + 1), out@));
            }
            i = i + 1;
        }
        proof {
            assert(list@.take(i as int) =~= list@);
        }
    }
}

/// The checkup: what is found of all there is to see, in order. Where the daemon does not answer,
/// what only it knows is left out.
pub fn doctor(f: &Facts) -> (r: Report)
    ensures
        checks_view(r.checks@) == report_of(*f),
{
    let mut r = Report::new();
    proof {
        assert(checks_view(r.checks@) =~= seq![]);
    }
    r.note(check_daemon(as_str(&f.daemon), f.tool.as_str(), f.socket.as_str()));
    r.note(check_dir(f.dir_there, f.dir_mode, f.dir.as_str()));
    if let Some((mode, age)) = f.secret {
        r.note(check_secret(mode, age));
    }
    r.note_config(f.config_path.as_str(), &f.config);
    r.note(check_tool(f.mount_tool));
    if f.daemon.is_some() {
        if let Some(found) = &f.found {
            r.note_network(found);
        }
        if let Some(list) = &f.sessions {
            r.note_sessions(list);
        }
        if let Some(list) = &f.mounts {
            r.note_mounts(list, f.mount_out.as_str());
        }
    }
    proof {
        assert(checks_view(r.checks@) =~= report_of(*f));
    }
    r
}

} // verus!
