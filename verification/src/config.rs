//! The host daemon's configuration.
//!
//! A VM that is located anew on every connect has no address here, only its identity and the path
//! of its token.
use crate::chars::{chars_of, find, first_at, part, string_of};
use crate::hex::{uuid_in, vm_uuid_from_hex};
use crate::resolve::mdns::{find_sub, opt_uuid, sub_at};
use crate::resolve::net::{ascii_bytes, ascii_of};
use crate::table::KeyTable;
use vstd::prelude::*;
use vstd::string::StringExecFns;

verus! {

/// What the daemon is told of itself.
#[derive(Debug)]
pub struct Daemon {
    /// The control socket; a relative path is taken under the state directory.
    pub control_socket: String,
    pub log: Option<String>,
    /// Most bytes in the content cache; 0 turns it off.
    pub cache_max_bytes: u64,
}

impl Default for Daemon {
    fn default() -> (d: Self)
        ensures
            d.control_socket@ == "control.sock"@,
            d.log is None,
            d.cache_max_bytes == 21_474_836_480,
    {
        Daemon {
            control_socket: "control.sock".to_owned(),
            log: None,
            cache_max_bytes: 21_474_836_480,
        }
    }
}

/// What the daemon is told of one VM.
#[derive(Debug)]
pub struct VmConfig {
    /// `auto`, or where the VM is.
    pub bridge: String,
    /// The file with the token; one that starts with `@` is taken under the state directory.
    pub token: String,
    /// The identity that the VM was paired with, as thirty-two hexadecimal digits.
    pub vm_uuid: Option<String>,
    /// Attach when the daemon starts.
    pub autoattach: bool,
    /// Mount the shares whenever the VM is connected.
    pub automount: bool,
}

/// Whether a VM is attached when nothing is said of it.
pub fn default_true() -> (r: bool)
    ensures
        r,
{
    true
}

/// A character with an ASCII capital made small.
pub open spec fn small(c: char) -> char {
    if 'A' <= c && c <= 'Z' {
        (c as u8 + 32) as u8 as char
    } else {
        c
    }
}

/// Whether a text says `auto`, in capitals or not.
pub open spec fn says_auto(s: Seq<char>) -> bool {
    s.len() == 4 && small(s[0]) == 'a' && small(s[1]) == 'u' && small(s[2]) == 't' && small(s[3])
        == 'o'
}

pub(crate) fn names_auto(s: &str) -> (r: bool)
    ensures
        r == says_auto(s@),
{
    let v = chars_of(s);
    v.len() == 4 && (v[0] == 'a' || v[0] == 'A') && (v[1] == 'u' || v[1] == 'U') && (v[2] == 't'
        || v[2] == 'T') && (v[3] == 'o' || v[3] == 'O')
}

/// A path under another: an absolute one stands for itself.
pub open spec fn under(base: Seq<char>, p: Seq<char>) -> Seq<char> {
    if p.len() > 0 && p[0] == '/' {
        p
    } else if base.len() == 0 || base.last() == '/' {
        base + p
    } else {
        base + "/"@ + p
    }
}

pub fn join_path(base: &str, p: &str) -> (r: String)
    ensures
        r@ == under(base@, p@),
{
    let b = chars_of(base);
    let v = chars_of(p);
    if v.len() > 0 && v[0] == '/' {
        return p.to_owned();
    }
    let mut r: String = base.to_owned();
    if b.len() == 0 || b[b.len() - 1] == '/' {
        r.append(p);
        return r;
    }
    r.append("/");
    r.append(p);
    r
}

/// A path that starts with `@` is taken under `base`; any other is left as it is.
pub open spec fn at_under(base: Seq<char>, p: Seq<char>) -> Seq<char> {
    if p.len() > 0 && p[0] == '@' {
        under(base, p.skip(1))
    } else {
        p
    }
}

/// Resolve a path that starts with `@` under `base`.
pub fn resolve_at_under(base: &str, p: &str) -> (r: String)
    ensures
        r@ == at_under(base@, p@),
{
    let v = chars_of(p);
    if v.len() > 0 && v[0] == '@' {
        let t = part(v.as_slice(), 1, v.len());
        proof {
            assert(t@ =~= p@.skip(1));
        }
        let rest = string_of(t.as_slice());
        join_path(base, rest.as_str())
    } else {
        p.to_owned()
    }
}

/// Resolve a path that starts with `@` under the state directory.
pub fn resolve_at(state_dir: &str, p: &str) -> (r: String)
    ensures
        r@ == at_under(state_dir@, p@),
{
    resolve_at_under(state_dir, p)
}

/// The state directory: what the environment says, or the usual place in the home directory.
pub fn state_dir(given: Option<&str>, home: &str) -> (r: String)
    ensures
        r@ == match given {
            Some(d) => d@,
            None => under(home@, "Library/Application Support/Mist"@),
        },
{
    match given {
        Some(d) => d.to_owned(),
        None => join_path(home, "Library/Application Support/Mist"),
    }
}

pub fn default_config_path(state_dir: &str) -> (r: String)
    ensures
        r@ == under(state_dir@, "config.toml"@),
{
    join_path(state_dir, "config.toml")
}

/// Where shares are mounted: what the environment says, or a directory in the home directory that
/// is plain to see.
pub fn mount_root(given: Option<&str>, home: &str) -> (r: String)
    ensures
        r@ == match given {
            Some(d) => d@,
            None => under(home@, "Mist"@),
        },
{
    match given {
        Some(d) => d.to_owned(),
        None => join_path(home, "Mist"),
    }
}

impl VmConfig {
    /// Whether this VM is located anew on every connect.
    pub fn is_auto(&self) -> (r: bool)
        ensures
            r == says_auto(self.bridge@),
    {
        names_auto(self.bridge.as_str())
    }

    /// Where the token is.
    pub fn resolved_token(&self, state_dir: &str) -> (r: String)
        ensures
            r@ == at_under(state_dir@, self.token@),
    {
        resolve_at(state_dir, self.token.as_str())
    }

    /// The identity that the VM was paired with, if one is written down that can be read.
    pub fn expected_uuid(&self) -> (r: Option<[u8; 16]>)
        ensures
            opt_uuid(r) == match self.vm_uuid {
                Some(s) => uuid_in(ascii_of(s@)),
                None => None,
            },
    {
        match &self.vm_uuid {
            Some(s) => {
                let v = chars_of(s.as_str());
                let b = ascii_bytes(v.as_slice());
                vm_uuid_from_hex(b.as_slice())
            },
            None => None,
        }
    }
}

/// The configuration: the daemon's own part, and the VMs by name.
#[derive(Debug)]
pub struct Config {
    pub daemon: Daemon,
    pub vm: KeyTable<String, VmConfig>,
}

/// Why a VM that is given on the command line cannot be taken.
#[derive(Debug, Clone, Copy, PartialEq, Eq, Structural)]
pub enum SpecError {
    /// There is no `=` after a name.
    NoName,
    /// There is no `,token=` after the endpoint.
    NoToken,
}

/// What `NAME=EP,token=PATH` says: name, endpoint and the token's path.
pub open spec fn vm_spec_of(s: Seq<char>) -> Result<(Seq<char>, Seq<char>, Seq<char>), SpecError> {
    match first_at(s, '=') {
        None => Err(SpecError::NoName),
        Some(i) => {
            let rest = s.skip(i + 1);
            match sub_at(rest, ",token="@) {
                None => Err(SpecError::NoToken),
                Some(k) => Ok((s.take(i), rest.take(k), rest.skip(k + ",token="@.len()))),
            }
        },
    }
}

/// The VM that `NAME=EP,token=PATH` describes.
pub fn parse_vm_spec(spec: &str) -> (r: Result<(String, VmConfig), SpecError>)
    ensures
        match r {
            Ok((name, c)) => {
                &&& vm_spec_of(spec@) == Ok::<_, SpecError>((name@, c.bridge@, c.token@))
                &&& c.vm_uuid is None
                &&& c.autoattach
                &&& !c.automount
            },
            Err(e) => vm_spec_of(spec@) == Err::<(Seq<char>, Seq<char>, Seq<char>), _>(e),
        },
{
    let v = chars_of(spec);
    let i = match find(v.as_slice(), '=') {
        Some(i) => i,
        None => {
            return Err(SpecError::NoName);
        },
    };
    proof {
        assert(v@.len() == v.len());
    }
    let name = part(v.as_slice(), 0, i);
    let rest = part(v.as_slice(), i + 1, v.len());
    proof {
        assert(name@ =~= v@.take(i as int));
        assert(rest@ =~= v@.skip(i + 1));
    }
    let k = match find_sub(rest.as_slice(), ",token=") {
        Some(k) => k,
        None => {
            return Err(SpecError::NoToken);
        },
    };
    let mark = chars_of(",token=");
    proof {
        assert(rest@.len() == rest.len());
    }
    let ep = part(rest.as_slice(), 0, k);
    let token = part(rest.as_slice(), k + mark.len(), rest.len());
    proof {
        assert(ep@ =~= rest@.take(k as int));
        assert(token@ =~= rest@.skip(k + mark@.len()));
    }
    Ok(
        (
            string_of(name.as_slice()),
            VmConfig {
                bridge: string_of(ep.as_slice()),
                token: string_of(token.as_slice()),
                vm_uuid: None,
                autoattach: true,
                automount: false,
            },
        ),
    )
}

impl Config {
    /// What holds where there is no configuration.
    pub fn empty() -> (c: Self)
        ensures
            c.vm.wf(),
            c.vm@ == Map::<Seq<char>, VmConfig>::empty(),
            c.daemon.control_socket@ == "control.sock"@,
            c.daemon.log is None,
            c.daemon.cache_max_bytes == 21_474_836_480,
    {
        Config { daemon: Daemon::default(), vm: KeyTable::new() }
    }

    /// Where the control socket is.
    pub fn control_path(&self, state_dir: &str) -> (r: String)
        ensures
            r@ == under(state_dir@, self.daemon.control_socket@),
    {
        join_path(state_dir, self.daemon.control_socket.as_str())
    }

    /// Where the content cache of a VM is, if there is to be one.
    pub fn cas_dir(&self, state_dir: &str, name: &str) -> (r: Option<String>)
        ensures
            match r {
                Some(d) => self.daemon.cache_max_bytes > 0 && d@ == under(
                    under(state_dir@, "cas"@),
                    name@,
                ),
                None => self.daemon.cache_max_bytes == 0,
            },
    {
        if self.daemon.cache_max_bytes > 0 {
            let cas = join_path(state_dir, "cas");
            Some(join_path(cas.as_str(), name))
        } else {
            None
        }
    }
}

/// Fewest bytes in the secret by which handles are told from forged ones; a shorter one is
/// replaced.
pub const MIN_SECRET: usize = 32;

/// Whether the secret of an earlier run is kept, so that handles outlive a restart.
pub fn keep_secret(secret: &Option<Vec<u8>>) -> (r: bool)
    ensures
        r == (*secret is Some && (*secret)->0@.len() >= MIN_SECRET),
{
    match secret {
        Some(s) => s.len() >= MIN_SECRET,
        None => false,
    }
}

/// A path that is absolute is never moved, wherever it is resolved.
pub proof fn absolute_paths_stay(base: Seq<char>, p: Seq<char>)
    requires
        p.len() > 0,
        p[0] == '/',
    ensures
        under(base, p) == p,
        at_under(base, p) == p,
{
}

} // verus!
