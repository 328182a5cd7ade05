//! Mounts: what is mounted where, how the system is asked to mount it, and what is taken over
//! after a restart.
use crate::chars::{chars_of, lines};
use crate::config::{join_path, under};
use crate::data::{json_list, read_list, views_of, Data, DataView};
use crate::doctor::{find_mount, mount_line};
use crate::resolve::net::{ascii_bytes, ascii_of};
use crate::table::KeyTable;
use crate::text::{dec_chars, decimal_text, number_in, parse_number};
use vstd::prelude::*;
use vstd::string::StringExecFns;

verus! {

/// A share that is mounted.
#[derive(Debug)]
pub struct ActiveMount {
    pub vm: String,
    pub share: String,
    pub port: u16,
    pub mountpoint: String,
    pub nfs41: bool,
}

/// The mounts, by VM and share.
#[derive(Debug)]
pub struct MountManager {
    pub mounts: KeyTable<(String, String), ActiveMount>,
}

impl MountManager {
    pub open spec fn wf(&self) -> bool {
        self.mounts.wf()
    }

    pub open spec fn has(&self, vm: Seq<char>, share: Seq<char>) -> bool {
        self.mounts@.contains_key((vm, share))
    }

    pub fn new() -> (m: Self)
        ensures
            m.wf(),
            m.mounts@ == Map::<(Seq<char>, Seq<char>), ActiveMount>::empty(),
    {
        MountManager { mounts: KeyTable::new() }
    }

    pub fn is_mounted(&self, vm: &str, share: &str) -> (r: bool)
        requires
            self.wf(),
        ensures
            r == self.has(vm@, share@),
    {
        self.mounts.contains(&(vm.to_owned(), share.to_owned()))
    }

    /// Where a share is mounted: a share is mounted once, and asking again gives the same place.
    pub fn mountpoint(&self, vm: &str, share: &str) -> (r: Option<&String>)
        requires
            self.wf(),
        ensures
            match r {
                Some(p) => self.has(vm@, share@) && *p == self.mounts@[(vm@, share@)].mountpoint,
                None => !self.has(vm@, share@),
            },
    {
        match self.mounts.get(&(vm.to_owned(), share.to_owned())) {
            Some(m) => Some(&m.mountpoint),
            None => None,
        }
    }

    /// The mounts.
    pub fn list(&self) -> (rows: &Vec<((String, String), ActiveMount)>)
        ensures
            *rows == self.mounts.rows,
    {
        &self.mounts.rows
    }

    /// A share was mounted.
    pub fn mounted(&mut self, m: ActiveMount)
        requires
            old(self).wf(),
        ensures
            final(self).wf(),
            final(self).mounts@ == old(self).mounts@.insert((m.vm@, m.share@), m),
    {
        let key = (m.vm.clone(), m.share.clone());
        let _was = self.mounts.insert(key, m);
    }

    /// A share is to be unmounted: gives its mount, if there is one.
    pub fn umount(&mut self, vm: &str, share: &str) -> (r: Option<ActiveMount>)
        requires
            old(self).wf(),
        ensures
            final(self).wf(),
            final(self).mounts@ == old(self).mounts@.remove((vm@, share@)),
            match r {
                Some(m) => old(self).has(vm@, share@) && m == old(self).mounts@[(vm@, share@)],
                None => !old(self).has(vm@, share@),
            },
    {
        self.mounts.remove(&(vm.to_owned(), share.to_owned()))
    }
}

/// Where a share is mounted.
pub fn mountpoint_of(root: &str, vm: &str, share: &str) -> (r: String)
    ensures
        r@ == under(under(root@, vm@), share@),
{
    let d = join_path(root, vm);
    join_path(d.as_str(), share)
}

/// The file that holds the side store of a share.
pub fn sidestore_file(vm: &str, share: &str) -> (s: String)
    ensures
        s@ == "sidestore-"@ + vm@ + "-"@ + share@ + ".bin"@,
{
    let mut s: String = "sidestore-".to_owned();
    s.append(vm);
    s.append("-");
    s.append(share);
    s.append(".bin");
    s
}

/// How many bytes the client reads at a time, unless it is told otherwise.
pub const RSIZE: u32 = 1_048_576;

/// The read size that is asked for; what is no number counts for nothing.
pub fn rsize(given: Option<&str>) -> (n: u32)
    ensures
        n == match given {
            Some(s) => match number_in(ascii_of(s@), u32::MAX as nat) {
                Some(n) => n as u32,
                None => RSIZE,
            },
            None => RSIZE,
        },
{
    match given {
        Some(s) => {
            let v = chars_of(s);
            let b = ascii_bytes(v.as_slice());
            match parse_number(b.as_slice(), u32::MAX as u64) {
                Some(n) => n as u32,
                None => RSIZE,
            }
        },
        None => RSIZE,
    }
}

/// What is mounted: version 4.1 has no mount protocol, and its root is the share.
pub open spec fn source_of(nfs41: bool, ip: Seq<char>, share: Seq<char>) -> Seq<char> {
    if nfs41 {
        ip + ":/"@
    } else {
        ip + ":/"@ + share
    }
}

pub fn mount_source(nfs41: bool, ip: &str, share: &str) -> (s: String)
    ensures
        s@ == source_of(nfs41, ip@, share@),
{
    let mut s: String = ip.to_owned();
    s.append(":/");
    if !nfs41 {
        s.append(share);
    }
    s
}

/// How it is mounted. Locks are local in version 3; in version 4.1 they are the server's, and the
/// options for them are not taken.
pub open spec fn options_of(nfs41: bool, port: u16, rsize: u32) -> Seq<char> {
    let p = dec_chars(port as nat);
    let tail = dec_chars(rsize as nat)
        + ",wsize=1048576,hard,intr,noatime,nosuid,nodev,actimeo=5"@;
    if nfs41 {
        "vers=4.1,tcp,port="@ + p + ",rw,readahead=128,rsize="@ + tail
    } else {
        "vers=3,tcp,port="@ + p + ",mountport="@ + p
            + ",rw,nolocks,locallocks,rdirplus,readahead=128,rsize="@ + tail
    }
}

pub fn mount_options(nfs41: bool, port: u16, rsize: u32) -> (s: String)
    ensures
        s@ == options_of(nfs41, port, rsize),
{
    let p = decimal_text(port as u64);
    let mut s = String::new();
    if nfs41 {
        s.append("vers=4.1,tcp,port=");
        s.append(p.as_str());
        s.append(",rw,readahead=128,rsize=");
    } else {
        s.append("vers=3,tcp,port=");
        s.append(p.as_str());
        s.append(",mountport=");
        s.append(p.as_str());
        s.append(",rw,nolocks,locallocks,rdirplus,readahead=128,rsize=");
    }
    s.append(decimal_text(rsize as u64).as_str());
    s.append(",wsize=1048576,hard,intr,noatime,nosuid,nodev,actimeo=5");
    proof {
        assert(s@ =~= options_of(nfs41, port, rsize));
    }
    s
}

/// What is done about a mount that an earlier daemon left behind.
#[derive(Debug, Clone, Copy, PartialEq, Eq, Structural)]
pub enum Restore {
    /// Nothing: the VM is not known, or the system has dropped the mount.
    Skip,
    /// The same port is served again; the client comes back by itself.
    Adopt,
    /// It is unmounted by force and mounted anew: sessions of version 4.1 do not survive.
    Remount,
}

pub open spec fn restore_of(known: bool, still: bool, port: u16, nfs41: bool) -> Restore {
    if !known || !still || port == 0 {
        Restore::Skip
    } else if nfs41 {
        Restore::Remount
    } else {
        Restore::Adopt
    }
}

/// What to do about a mount of an earlier daemon; `out` is what the system says is mounted.
pub fn plan_restore(known: bool, mountpoint: &str, port: u16, nfs41: bool, out: &str) -> (r: Restore)
    ensures
        r == restore_of(
            known,
            mount_line(lines(out@), mountpoint@) is Some,
            port,
            nfs41,
        ),
{
    let still = find_mount(out, mountpoint).is_some();
    if !known || !still || port == 0 {
        return Restore::Skip;
    }
    if nfs41 {
        Restore::Remount
    } else {
        Restore::Adopt
    }
}

/// A row of the registry of mounts that a daemon left behind.
#[derive(Debug)]
pub struct MountRow<S = String> {
    pub vm: S,
    pub share: S,
    pub mountpoint: S,
    pub port: u16,
    pub nfs41: bool,
}

impl MountRow<String> {
    pub open spec fn view(&self) -> MountRow<Seq<char>> {
        MountRow {
            vm: self.vm@,
            share: self.share@,
            mountpoint: self.mountpoint@,
            port: self.port,
            nfs41: self.nfs41,
        }
    }
}

/// What a value says of a mount: texts that are missing are empty, and of the port the low sixteen
/// bits count.
pub open spec fn mount_row_of(d: DataView) -> MountRow<Seq<char>> {
    MountRow {
        vm: d.at("vm"@).text_or(""@),
        share: d.at("share"@).text_or(""@),
        mountpoint: d.at("mountpoint"@).text_or(""@),
        port: (d.at("port"@).number_or(0) % 0x1_0000) as u16,
        nfs41: d.at("nfs41"@).is_set(),
    }
}

pub fn mount_row(d: &Data) -> (row: MountRow)
    ensures
        row@ == mount_row_of(d@),
{
    MountRow {
        vm: d.text_or("vm", ""),
        share: d.text_or("share", ""),
        mountpoint: d.text_or("mountpoint", ""),
        port: (d.number_or("port", 0) % 0x1_0000) as u16,
        nfs41: d.is_set("nfs41"),
    }
}

pub open spec fn mount_rows_view(l: Seq<MountRow>) -> Seq<MountRow<Seq<char>>> {
    Seq::new(l.len(), |i: int| l[i]@)
}

pub open spec fn mount_rows_of(l: Seq<DataView>) -> Seq<MountRow<Seq<char>>> {
    Seq::new(l.len(), |i: int| mount_row_of(l[i]))
}

/// The rows of a registry, by its bytes, if they are a list.
pub fn registry_rows(bytes: &[u8]) -> (r: Option<Vec<MountRow>>)
    ensures
        match r {
            Some(rows) => json_list(bytes@) is Some && mount_rows_view(rows@) == mount_rows_of(
                json_list(bytes@)->0,
            ),
            None => json_list(bytes@) is None,
        },
{
    let l = match read_list(bytes) {
        Some(l) => l,
        None => {
            return None;
        },
    };
    let mut rows: Vec<MountRow> = Vec::new();
    let mut i: usize = 0;
    while i < l.len()
        invariant
            i <= l@.len(),
            rows@.len() == i,
            forall|j: int| 0 <= j < i ==> (#[trigger] rows@[j])@ == mount_row_of(l@[j]@),
        decreases l@.len() - i,
    {
        rows.push(mount_row(&l[i]));
        i = i + 1;
    }
    proof {
        assert(mount_rows_view(rows@) =~= mount_rows_of(views_of(l@)));
    }
    Some(rows)
}

/// How often the share of a mount that was left behind is waited for, half a second each time.
pub const RESTORE_WAITS: u32 = 240;

/// How often it is tried to mount anew after an unmount by force, which takes its time.
pub const REMOUNT_TRIES: u32 = 10;

/// What comes next for a mount that was left behind.
#[derive(Debug, Clone, Copy, PartialEq, Eq, Structural)]
pub enum RestoreStep {
    /// Wait for the guest to announce the share.
    Wait,
    Adopt,
    /// Unmount by force, and then mount.
    Remount,
    /// Nothing more is done about it.
    GiveUp,
}

/// What comes next after `waits` waits; `announced` says that the guest has announced the share.
pub fn restore_step(how: Restore, waits: u32, announced: bool) -> (s: RestoreStep)
    ensures
        s == if how == Restore::Skip || waits >= RESTORE_WAITS {
            RestoreStep::GiveUp
        } else if !announced {
            RestoreStep::Wait
        } else if how == Restore::Remount {
            RestoreStep::Remount
        } else {
            RestoreStep::Adopt
        },
{
    if waits >= RESTORE_WAITS {
        return RestoreStep::GiveUp;
    }
    match how {
        Restore::Skip => RestoreStep::GiveUp,
        Restore::Adopt => if announced {
            RestoreStep::Adopt
        } else {
            RestoreStep::Wait
        },
        Restore::Remount => if announced {
            RestoreStep::Remount
        } else {
            RestoreStep::Wait
        },
    }
}

/// Whether to mount once more after `tries` tries, the last of which came out as `mounted`.
pub fn remount_again(tries: u32, mounted: bool) -> (r: bool)
    ensures
        r == (!mounted && tries < REMOUNT_TRIES),
{
    !mounted && tries < REMOUNT_TRIES
}

/// A share is mounted once: after it was, it is found where it was put, and every other mount is
/// untouched.
pub proof fn mounted_is_found(
    before: Map<(Seq<char>, Seq<char>), ActiveMount>,
    m: ActiveMount,
    other: (Seq<char>, Seq<char>),
)
    requires
        other != (m.vm@, m.share@),
    ensures
        ({
            let after = before.insert((m.vm@, m.share@), m);
            &&& after.contains_key((m.vm@, m.share@))
            &&& after[(m.vm@, m.share@)].mountpoint == m.mountpoint
            &&& after.contains_key(other) == before.contains_key(other)
            &&& before.contains_key(other) ==> after[other] == before[other]
        }),
{
}

} // verus!
