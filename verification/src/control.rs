//! The control plane: what the tool may ask of the daemon, and how it is answered.
use crate::chars::{begins, chars_of, is_text, part, starts, string_of};
use crate::config::VmConfig;
use crate::config_writer::{uuid_string, uuid_text};
use crate::resolve::mdns::opt_uuid;
use crate::session::link::{same_uuid, VmState};
use crate::session::record::Event;
use crate::share::guest::ReplicaError;
use crate::types::{Attr, Kind};
use vstd::prelude::*;
use vstd::string::StringExecFns;

verus! {

/// Most bytes of a file that are shown.
pub const MAX_CAT: u64 = 10_485_760;

/// Most entries of a directory that are listed.
pub const LS_LIMIT: usize = 100_000;

/// Entries asked for at a time.
pub const LS_PAGE: usize = 4096;

/// What the daemon is asked for.
#[derive(Debug, Clone, Copy, PartialEq, Eq, Structural)]
pub enum Verb {
    Status,
    Ls,
    Stat,
    Cat,
    Mount,
    Umount,
    Conflicts,
    Cache,
    Delegs,
    Mounts,
    Discover,
    Add,
    Events,
    Version,
    Unknown,
}

pub open spec fn verb_of(cmd: Seq<char>) -> Verb {
    if cmd == "status"@ {
        Verb::Status
    } else if cmd == "ls"@ {
        Verb::Ls
    } else if cmd == "stat"@ {
        Verb::Stat
    } else if cmd == "cat"@ {
        Verb::Cat
    } else if cmd == "mount"@ {
        Verb::Mount
    } else if cmd == "umount"@ {
        Verb::Umount
    } else if cmd == "conflicts"@ {
        Verb::Conflicts
    } else if cmd == "cache"@ {
        Verb::Cache
    } else if cmd == "delegs"@ {
        Verb::Delegs
    } else if cmd == "mounts"@ {
        Verb::Mounts
    } else if cmd == "discover"@ {
        Verb::Discover
    } else if cmd == "add"@ {
        Verb::Add
    } else if cmd == "events"@ {
        Verb::Events
    } else if cmd == "version"@ {
        Verb::Version
    } else {
        Verb::Unknown
    }
}

pub fn parse_verb(cmd: &str) -> (v: Verb)
    ensures
        v == verb_of(cmd@),
{
    let c = chars_of(cmd);
    let s = c.as_slice();
    if is_text(s, "status") {
        Verb::Status
    } else if is_text(s, "ls") {
        Verb::Ls
    } else if is_text(s, "stat") {
        Verb::Stat
    } else if is_text(s, "cat") {
        Verb::Cat
    } else if is_text(s, "mount") {
        Verb::Mount
    } else if is_text(s, "umount") {
        Verb::Umount
    } else if is_text(s, "conflicts") {
        Verb::Conflicts
    } else if is_text(s, "cache") {
        Verb::Cache
    } else if is_text(s, "delegs") {
        Verb::Delegs
    } else if is_text(s, "mounts") {
        Verb::Mounts
    } else if is_text(s, "discover") {
        Verb::Discover
    } else if is_text(s, "add") {
        Verb::Add
    } else if is_text(s, "events") {
        Verb::Events
    } else if is_text(s, "version") {
        Verb::Version
    } else {
        Verb::Unknown
    }
}

pub open spec fn kind_name(k: Kind) -> Seq<char> {
    match k {
        Kind::Reg => "file"@,
        Kind::Dir => "dir"@,
        Kind::Symlink => "symlink"@,
        Kind::Fifo => "fifo"@,
        Kind::Sock => "sock"@,
        Kind::Chr => "chr"@,
        Kind::Blk => "blk"@,
    }
}

pub fn kind_str(k: Kind) -> (s: &'static str)
    ensures
        s@ == kind_name(k),
{
    match k {
        Kind::Reg => "file",
        Kind::Dir => "dir",
        Kind::Symlink => "symlink",
        Kind::Fifo => "fifo",
        Kind::Sock => "sock",
        Kind::Chr => "chr",
        Kind::Blk => "blk",
    }
}

pub fn vm_state_str(s: VmState) -> (r: &'static str)
    ensures
        r@ == match s {
            VmState::Disconnected => "disconnected"@,
            VmState::Connecting => "connecting"@,
            VmState::Ready => "ready"@,
            VmState::Degraded => "degraded"@,
        },
{
    match s {
        VmState::Disconnected => "disconnected",
        VmState::Connecting => "connecting",
        VmState::Ready => "ready",
        VmState::Degraded => "degraded",
    }
}

/// How far a replica is.
#[derive(Debug, Clone, Copy, PartialEq, Eq, Structural)]
pub enum ShareState {
    Seeding,
    Live,
    Degraded,
    Offline,
}

pub fn share_state_str(s: ShareState) -> (r: &'static str)
    ensures
        r@ == match s {
            ShareState::Seeding => "seeding"@,
            ShareState::Live => "live"@,
            ShareState::Degraded => "degraded"@,
            ShareState::Offline => "offline"@,
        },
{
    match s {
        ShareState::Seeding => "seeding",
        ShareState::Live => "live",
        ShareState::Degraded => "degraded",
        ShareState::Offline => "offline",
    }
}

/// Whether an event is about something under a path: one of the paths that it names starts so.
pub open spec fn event_under(e: Event<Seq<char>>, prefix: Seq<char>) -> bool {
    match e {
        Event::Created { path } => begins(path, prefix),
        Event::CreatedBatch { dir, .. } => dir is Some && begins(dir->0, prefix),
        Event::Removed { path } => path is Some && begins(path->0, prefix),
        Event::Renamed { from, to } => begins(from, prefix) || begins(to, prefix),
        Event::Attr { path } => path is Some && begins(path->0, prefix),
        Event::Content { path, .. } => path is Some && begins(path->0, prefix),
    }
}

fn opt_starts(s: &Option<String>, prefix: &str) -> (r: bool)
    ensures
        r == (match *s {
            Some(s) => begins(s@, prefix@),
            None => false,
        }),
{
    match s {
        Some(s) => starts(s.as_str(), prefix),
        None => false,
    }
}

pub fn event_matches_prefix(e: &Event, prefix: &str) -> (r: bool)
    ensures
        r == event_under(e@, prefix@),
{
    match e {
        Event::Created { path } => starts(path.as_str(), prefix),
        Event::CreatedBatch { dir, .. } => opt_starts(dir, prefix),
        Event::Removed { path } => opt_starts(path, prefix),
        Event::Renamed { from, to } => starts(from.as_str(), prefix) || starts(
            to.as_str(),
            prefix,
        ),
        Event::Attr { path } => opt_starts(path, prefix),
        Event::Content { path, .. } => opt_starts(path, prefix),
    }
}

/// Why a VM cannot be added.
#[derive(Debug, Clone, Copy, PartialEq, Eq, Structural)]
pub enum AddError {
    /// There is no name, or no token.
    Incomplete,
    /// The name holds a slash, a point or a space.
    BadName,
    /// The token is so many bytes long, and too short.
    ShortToken(usize),
    /// The guest that takes the token is not the one that was asked for.
    WrongGuest,
}

pub open spec fn bare_name(s: Seq<char>) -> bool {
    forall|i: int| 0 <= i < s.len() ==> #[trigger] s[i] != '/' && s[i] != '.' && s[i] != ' '
}

/// Whether a request to add a VM makes sense.
pub fn check_add(name: &str, token_src: &str) -> (r: Result<(), AddError>)
    ensures
        r == if name@.len() == 0 || token_src@.len() == 0 {
            Err::<(), _>(AddError::Incomplete)
        } else if !bare_name(name@) {
            Err::<(), _>(AddError::BadName)
        } else {
            Ok::<(), AddError>(())
        },
{
    let n = chars_of(name);
    let t = chars_of(token_src);
    if n.len() == 0 || t.len() == 0 {
        return Err(AddError::Incomplete);
    }
    let mut i: usize = 0;
    while i < n.len()
        invariant
            n@ == name@,
            n@.len() > 0,
            t@ == token_src@,
            t@.len() > 0,
            i <= n@.len(),
            forall|j: int|
                0 <= j < i ==> #[trigger] n@[j] != '/' && n@[j] != '.' && n@[j] != ' ',
        decreases n@.len() - i,
    {
        if n[i] == '/' || n[i] == '.' || n[i] == ' ' {
            return Err(AddError::BadName);
        }
        i = i + 1;
    }
    Ok(())
}

/// Whether a token will do.
pub fn check_add_token(len: usize) -> (r: Result<(), AddError>)
    ensures
        r == if len >= 32 {
            Ok::<(), AddError>(())
        } else {
            Err::<(), _>(AddError::ShortToken(len))
        },
{
    if len >= 32 {
        Ok(())
    } else {
        Err(AddError::ShortToken(len))
    }
}

/// The identity that a VM is bound to when it is added: the one that was asked for, else the one
/// that was found, if any. One that was found must be the one that was asked for.
pub open spec fn bound_to(want: Option<Seq<u8>>, found: Option<Seq<u8>>) -> Result<
    Option<Seq<u8>>,
    AddError,
> {
    if want is Some && found is Some && want->0 != found->0 {
        Err(AddError::WrongGuest)
    } else if want is Some {
        Ok(want)
    } else {
        Ok(found)
    }
}

pub fn bind(want: Option<[u8; 16]>, found: Option<[u8; 16]>) -> (r: Result<
    Option<[u8; 16]>,
    AddError,
>)
    ensures
        match r {
            Ok(u) => bound_to(opt_uuid(want), opt_uuid(found)) == Ok::<_, AddError>(opt_uuid(u)),
            Err(e) => bound_to(opt_uuid(want), opt_uuid(found)) == Err::<Option<Seq<u8>>, _>(e),
        },
{
    match (want, found) {
        (Some(w), Some(f)) => {
            if same_uuid(&w, &f) {
                Ok(Some(w))
            } else {
                Err(AddError::WrongGuest)
            }
        },
        (Some(w), None) => Ok(Some(w)),
        (None, f) => Ok(f),
    }
}

/// Where the token of a VM is kept, as the configuration says it.
pub fn token_ref(name: &str) -> (s: String)
    ensures
        s@ == "@vms/"@ + name@ + ".token"@,
{
    let mut s: String = "@vms/".to_owned();
    s.append(name);
    s.append(".token");
    s
}

/// What stands after the last slash of a path.
pub open spec fn last_part(path: Seq<char>) -> Seq<char>
    decreases path.len(),
{
    if path.len() == 0 {
        seq![]
    } else if path.last() == '/' {
        seq![]
    } else {
        last_part(path.drop_last()).push(path.last())
    }
}

pub fn file_name(path: &str) -> (s: String)
    ensures
        s@ == last_part(path@),
{
    let v = chars_of(path);
    let mut n: usize = v.len();
    proof {
        assert(v@.take(n as int) =~= v@);
        assert(v@.skip(n as int) =~= seq![]);
        assert(last_part(v@) =~= last_part(v@.take(n as int)) + v@.skip(n as int));
    }
    while n > 0 && v[n - 1] != '/'
        invariant
            n <= v@.len(),
            last_part(v@) == last_part(v@.take(n as int)) + v@.skip(n as int),
        decreases n,
    {
        proof {
            let t = v@.take(n as int);
            assert(t.last() == v@[n - 1]);
            assert(t.drop_last() =~= v@.take(n - 1));
            assert(last_part(t) == last_part(t.drop_last()).push(t.last()));
            assert(last_part(v@.take(n - 1)) + v@.skip(n - 1) =~= last_part(t) + v@.skip(
                n as int,
            ));
        }
        n = n - 1;
    }
    proof {
        assert(last_part(v@.take(n as int)) =~= seq![]);
        assert(last_part(v@) =~= v@.skip(n as int));
        assert(v@.subrange(n as int, v@.len() as int) =~= v@.skip(n as int));
    }
    let t = part(v.as_slice(), n, v.len());
    string_of(t.as_slice())
}

/// A listing that is put together page by page.
#[derive(Debug)]
pub struct Listing<E> {
    pub entries: Vec<E>,
    /// Where the next page starts.
    pub cookie: u64,
}

/// What follows a page.
#[derive(Debug, Clone, Copy, PartialEq, Eq, Structural)]
pub enum AfterPage {
    /// There are more entries than are listed.
    Truncated,
    Complete,
    /// The next page is wanted.
    More,
}

impl<E> Listing<E> {
    pub fn new() -> (l: Self)
        ensures
            l.entries@.len() == 0,
            l.cookie == 0,
    {
        Listing { entries: Vec::new(), cookie: 0 }
    }

    /// A page came: its entries, the cookie of the last of them, and whether it is the last page.
    pub fn page(&mut self, page: Vec<E>, last: Option<u64>, eof: bool) -> (a: AfterPage)
        requires
            old(self).entries@.len() < LS_LIMIT,
        ensures
            final(self).entries@ == old(self).entries@ + page@.take(
                if page@.len() < LS_LIMIT - old(self).entries@.len() {
                    page@.len() as int
                } else {
                    LS_LIMIT - old(self).entries@.len()
                },
            ),
            a == if old(self).entries@.len() + page@.len() >= LS_LIMIT {
                AfterPage::Truncated
            } else if eof {
                AfterPage::Complete
            } else {
                AfterPage::More
            },
            final(self).cookie == (if a == AfterPage::More && last is Some {
                last->0
            } else {
                old(self).cookie
            }),
            a != AfterPage::Truncated ==> final(self).entries@.len() < LS_LIMIT,
    {
        let mut page = page;
        let room: usize = LS_LIMIT - self.entries.len();
        let full = page.len() >= room;
        if full {
            page.truncate(room);
        }
        proof {
            if !full {
                assert(page@ =~= page@.take(page@.len() as int));
            }
        }
        self.entries.append(&mut page);
        if full {
            return AfterPage::Truncated;
        }
        if eof {
            return AfterPage::Complete;
        }
        if let Some(c) = last {
            self.cookie = c;
        }
        AfterPage::More
    }
}

/// A file that is read to be shown.
#[derive(Debug)]
pub struct Cat {
    /// How many bytes are wanted; at least one is asked for.
    pub want: u64,
    pub size: u64,
    pub bytes: Vec<u8>,
    pub done: bool,
}

impl Cat {
    pub fn new(size: u64) -> (c: Self)
        ensures
            c.size == size,
            c.want == (if size < MAX_CAT {
                size
            } else {
                MAX_CAT
            }),
            c.bytes@.len() == 0,
            !c.done,
    {
        let want: u64 = if size < MAX_CAT {
            size
        } else {
            MAX_CAT
        };
        Cat { want, size, bytes: Vec::new(), done: false }
    }

    /// The goal: what is wanted, and at least one byte.
    pub open spec fn goal(&self) -> u64 {
        if self.want == 0 {
            1
        } else {
            self.want
        }
    }

    /// The next read: where, and how many bytes; `most` is the most that one read may ask for.
    pub fn next(&self, most: u64) -> (r: Option<(u64, u64)>)
        ensures
            r == if self.done || self.bytes@.len() >= self.goal() {
                None
            } else {
                Some(
                    (
                        self.bytes@.len() as u64,
                        if self.goal() - self.bytes@.len() < most {
                            (self.goal() - self.bytes@.len()) as u64
                        } else {
                            most
                        },
                    ),
                )
            },
    {
        let goal: u64 = if self.want == 0 {
            1
        } else {
            self.want
        };
        let n: u64 = self.bytes.len() as u64;
        if self.done || n >= goal {
            return None;
        }
        let left: u64 = goal - n;
        Some(
            (
                n,
                if left < most {
                    left
                } else {
                    most
                },
            ),
        )
    }

    /// Bytes came. None, or the last of the file, end the reading.
    pub fn got(&mut self, chunk: &[u8], eof: bool)
        ensures
            final(self).bytes@ == old(self).bytes@ + chunk@,
            final(self).done == (chunk@.len() == 0 || eof),
            final(self).want == old(self).want,
            final(self).size == old(self).size,
    {
        self.bytes.extend_from_slice(chunk);
        self.done = chunk.len() == 0 || eof;
        proof {
            assert(self.bytes@ =~= old(self).bytes@ + chunk@);
        }
    }

    /// Whether the file is longer than what is shown of any.
    pub fn truncated(&self) -> (r: bool)
        ensures
            r == (self.size > MAX_CAT),
    {
        self.size > MAX_CAT
    }
}

/// Whether a mount goes on waiting for its share to be announced: not once the VM is ready, when
/// a share that is missing is not there.
pub fn wait_for_share(announced: bool, state: VmState, expired: bool) -> (r: bool)
    ensures
        r == (!announced && state != VmState::Ready && !expired),
{
    if announced || expired {
        return false;
    }
    match state {
        VmState::Ready => false,
        _ => true,
    }
}

/// Whether a VM's share is to be mounted by itself now.
pub fn automount_now(automount: bool, state: VmState, mounted: bool, rooted: bool) -> (r: bool)
    ensures
        r == (automount && state == VmState::Ready && !mounted && rooted),
{
    match state {
        VmState::Ready => automount && !mounted && rooted,
        _ => false,
    }
}

/// What becomes of a question about a file or a directory.
#[derive(Debug)]
pub enum FsPlan {
    UnknownVm,
    UnknownShare,
    /// The share's tree is not complete: wait for it, for a while.
    Wait,
    /// It is still not complete.
    NotSeeded,
    /// There is nothing at the path.
    NoPath(ReplicaError),
    /// Tell the attributes.
    Stat,
    /// List the directory.
    List,
    /// The path is no directory: list it by itself.
    ListOne,
    /// Only files have contents to show.
    NotFile,
    /// The VM is not connected.
    NoLink,
    Show(Cat),
}

/// What waiting for a share's tree came to.
#[derive(Debug, Clone, Copy, PartialEq, Eq, Structural)]
pub enum Waited {
    /// It was not waited for.
    Not,
    /// It was completed meanwhile.
    Seeded,
    /// The time ran out.
    InVain,
}

/// What is known of the place that a question is about.
#[derive(Debug, Clone, Copy)]
pub struct Place {
    pub vm: bool,
    pub share: bool,
    /// The share's tree is complete.
    pub live: bool,
    /// What waiting for that came to.
    pub wait: Waited,
    /// The attributes of what the path leads to.
    pub found: Result<Attr, ReplicaError>,
    pub connected: bool,
}

pub open spec fn fs_plan(verb: Verb, p: Place, plan: FsPlan) -> bool {
    if !p.vm {
        plan is UnknownVm
    } else if !p.share {
        plan is UnknownShare
    } else if !p.live && p.wait == Waited::Not {
        plan is Wait
    } else if !p.live && p.wait == Waited::InVain {
        plan is NotSeeded
    } else {
        match p.found {
            Err(e) => plan == FsPlan::NoPath(e),
            Ok(a) => match verb {
                Verb::Ls => if a.kind == Kind::Dir {
                    plan is List
                } else {
                    plan is ListOne
                },
                Verb::Cat => if a.kind != Kind::Reg {
                    plan is NotFile
                } else if !p.connected {
                    plan is NoLink
                } else {
                    &&& plan is Show
                    &&& plan->Show_0.size == a.size
                    &&& plan->Show_0.want == (if a.size < MAX_CAT {
                        a.size
                    } else {
                        MAX_CAT
                    })
                    &&& plan->Show_0.bytes@.len() == 0
                    &&& !plan->Show_0.done
                },
                _ => plan is Stat,
            },
        }
    }
}

/// What becomes of a question about a file or a directory.
pub fn plan_fs_op(verb: Verb, p: &Place) -> (plan: FsPlan)
    ensures
        fs_plan(verb, *p, plan),
{
    if !p.vm {
        return FsPlan::UnknownVm;
    }
    if !p.share {
        return FsPlan::UnknownShare;
    }
    if !p.live {
        match p.wait {
            Waited::Not => {
                return FsPlan::Wait;
            },
            Waited::InVain => {
                return FsPlan::NotSeeded;
            },
            Waited::Seeded => {},
        }
    }
    let a = match p.found {
        Ok(a) => a,
        Err(e) => {
            return FsPlan::NoPath(e);
        },
    };
    match verb {
        Verb::Ls => if a.kind == Kind::Dir {
            FsPlan::List
        } else {
            FsPlan::ListOne
        },
        Verb::Cat => {
            if a.kind != Kind::Reg {
                return FsPlan::NotFile;
            }
            if !p.connected {
                return FsPlan::NoLink;
            }
            FsPlan::Show(Cat::new(a.size))
        },
        _ => FsPlan::Stat,
    }
}

/// The configuration of a VM that was added: it is looked up on every connect, attached at once,
/// and its shares are mounted by themselves.
pub fn added_config(name: &str, bound: &Option<[u8; 16]>) -> (c: VmConfig)
    ensures
        c.bridge@ == "auto"@,
        c.token@ == "@vms/"@ + name@ + ".token"@,
        match *bound {
            Some(u) => c.vm_uuid is Some && c.vm_uuid->0@ == uuid_text(u@),
            None => c.vm_uuid is None,
        },
        c.autoattach,
        c.automount,
{
    VmConfig {
        bridge: "auto".to_owned(),
        token: token_ref(name),
        vm_uuid: match bound {
            Some(u) => Some(uuid_string(u)),
            None => None,
        },
        autoattach: true,
        automount: true,
    }
}

} // verus!
