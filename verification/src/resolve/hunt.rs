//! The search for one VM.
use crate::config::{join_path, under};
use crate::resolve::mdns::MdnsInstance;
use crate::session::link::{same_uuid, HelloReply, SessionError};
use crate::text::{dec_chars, decimal_text};
use vstd::prelude::*;
use vstd::string::StringExecFns;

verus! {

/// Whether a guest that answered is the one that is sought: where none is sought in particular,
/// any that takes the token is; where one is, it has to say so.
pub open spec fn identity_fits(got: Option<[u8; 16]>, expected: Option<[u8; 16]>) -> bool {
    match expected {
        None => true,
        Some(want) => got is Some && got->0@ == want@,
    }
}

pub fn identity_ok(got: &Option<[u8; 16]>, expected: &Option<[u8; 16]>) -> (r: bool)
    ensures
        r == identity_fits(*got, *expected),
{
    match expected {
        None => true,
        Some(want) => match got {
            Some(u) => same_uuid(u, want),
            None => false,
        },
    }
}

/// Whether an instance that was announced may be the one that is sought.
pub fn uuid_matches(got: &Option<[u8; 16]>, want: &Option<[u8; 16]>) -> (r: bool)
    ensures
        r == identity_fits(*got, *want),
{
    match want {
        None => true,
        Some(w) => match got {
            Some(g) => same_uuid(g, w),
            None => false,
        },
    }
}

/// What is remembered of a VM: the name that it announced itself by, and that of its host. Never
/// an address.
#[derive(Debug)]
pub struct CachedHint {
    pub instance: String,
    pub host: String,
}

/// The resolver of a host; what it remembers is kept outside.
#[derive(Debug, Clone, Copy)]
pub struct Resolver;

impl Resolver {
    pub fn new() -> (r: Self)
        ensures
            r == Resolver,
    {
        Resolver
    }

    /// The file that the hints are kept in.
    pub fn cache_path(state_dir: &str) -> (p: String)
        ensures
            p@ == under(state_dir@, "resolver-cache.toml"@),
    {
        join_path(state_dir, "resolver-cache.toml")
    }

    /// Start to look for a VM.
    pub fn resolve(
        &self,
        expected: Option<[u8; 16]>,
        instances: Vec<MdnsInstance>,
        hint: Option<CachedHint>,
    ) -> (h: Hunt)
        ensures
            h.expected == expected,
            h.instances == instances,
            h.next == 0,
            h.hint == hint,
            !h.hinted,
    {
        Hunt { expected, instances, next: 0, hint, hinted: false }
    }
}

/// A search: what is sought, what was announced, and how far it has come.
#[derive(Debug)]
pub struct Hunt {
    pub expected: Option<[u8; 16]>,
    pub instances: Vec<MdnsInstance>,
    /// The first instance that was not tried yet.
    pub next: usize,
    pub hint: Option<CachedHint>,
    /// Whether the hint was tried.
    pub hinted: bool,
}

/// What to try next.
#[derive(Debug, Clone, Copy, PartialEq, Eq, Structural)]
pub enum HuntMove {
    /// The host and port of this instance.
    Instance(usize),
    /// The host of the hint, at the usual port.
    Hint,
    /// Every address that the VM could have.
    Scan,
}

/// The first instance from `from` on that may be the one that is sought.
pub open spec fn first_fit(
    instances: Seq<MdnsInstance>,
    expected: Option<[u8; 16]>,
    from: int,
) -> Option<int>
    decreases instances.len() - from,
{
    if from >= instances.len() {
        None
    } else if identity_fits(instances[from].vm_uuid, expected) {
        Some(from)
    } else {
        first_fit(instances, expected, from + 1)
    }
}

impl Hunt {
    pub open spec fn wf(&self) -> bool {
        self.next <= self.instances@.len()
    }

    /// What to try next: each instance that may be it, in turn; then the host that it had last,
    /// once; then all addresses.
    pub fn step(&mut self) -> (m: HuntMove)
        requires
            old(self).wf(),
        ensures
            final(self).wf(),
            final(self).expected == old(self).expected,
            final(self).instances == old(self).instances,
            final(self).hint == old(self).hint,
            match first_fit(old(self).instances@, old(self).expected, old(self).next as int) {
                Some(i) => {
                    &&& m == HuntMove::Instance(i as usize)
                    &&& i < old(self).instances@.len()
                    &&& final(self).next == i + 1
                    &&& final(self).hinted == old(self).hinted
                },
                None => {
                    &&& final(self).next == final(self).instances@.len()
                    &&& if !old(self).hinted && old(self).expected is Some && old(
                        self).hint is Some {
                        m == HuntMove::Hint && final(self).hinted
                    } else {
                        m == HuntMove::Scan && final(self).hinted == old(self).hinted
                    }
                },
            },
    {
        let ghost start = *self;
        while self.next < self.instances.len()
            invariant
                self.wf(),
                *self == (Hunt { next: self.next, ..start }),
                start == *old(self),
                first_fit(start.instances@, start.expected, start.next as int) == first_fit(
                    start.instances@,
                    start.expected,
                    self.next as int,
                ),
            decreases self.instances@.len() - self.next,
        {
            let i: usize = self.next;
            self.next = i + 1;
            if uuid_matches(&self.instances[i].vm_uuid, &self.expected) {
                return HuntMove::Instance(i);
            }
        }
        if !self.hinted && self.expected.is_some() && self.hint.is_some() {
            self.hinted = true;
            return HuntMove::Hint;
        }
        HuntMove::Scan
    }
}

/// The search comes to an end: every step leaves fewer instances, or uses up the hint, or is the
/// last.
pub proof fn search_ends(before: Hunt, after: Hunt, m: HuntMove)
    requires
        before.wf(),
        after.wf(),
        after.instances == before.instances,
        match first_fit(before.instances@, before.expected, before.next as int) {
            Some(i) => m == HuntMove::Instance(i as usize) && i < before.instances@.len()
                && after.next == i + 1,
            None => m == HuntMove::Scan || (m == HuntMove::Hint && !before.hinted && after.hinted),
        },
    ensures
        m == HuntMove::Scan || after.next > before.next || (after.hinted && !before.hinted),
{
    fit_is_not_before(before.instances@, before.expected, before.next as int);
}

proof fn fit_is_not_before(instances: Seq<MdnsInstance>, expected: Option<[u8; 16]>, from: int)
    ensures
        first_fit(instances, expected, from) is Some ==> first_fit(
            instances,
            expected,
            from,
        )->0 >= from,
    decreases instances.len() - from,
{
    if from < instances.len() && !identity_fits(instances[from].vm_uuid, expected) {
        fit_is_not_before(instances, expected, from + 1);
    }
}

/// A message of a guest that is being asked who it is.
#[derive(Debug, Clone, Copy)]
pub enum ProbeFrame {
    Identity([u8; 16]),
    Another,
    /// The connection broke.
    Broken,
}

/// The identity among the first two messages, if it comes before the connection breaks.
pub open spec fn identity_among(frames: Seq<ProbeFrame>) -> Option<[u8; 16]> {
    if frames.len() > 0 && frames[0] is Identity {
        Some(frames[0]->Identity_0)
    } else if frames.len() > 1 && frames[0] is Another && frames[1] is Identity {
        Some(frames[1]->Identity_0)
    } else {
        None
    }
}

/// Whether another message is to be read.
pub fn probe_more(frames: &Vec<ProbeFrame>) -> (r: bool)
    ensures
        r == (frames@.len() == 0 || (frames@.len() == 1 && frames@[0] is Another)),
{
    if frames.len() == 0 {
        return true;
    }
    match frames[0] {
        ProbeFrame::Another => frames.len() == 1,
        _ => false,
    }
}

/// Who the guest says it is; one that cannot say is too old to be bound.
pub fn probe_identity(frames: &Vec<ProbeFrame>) -> (r: Option<[u8; 16]>)
    ensures
        r == identity_among(frames@),
{
    if frames.len() == 0 {
        return None;
    }
    match frames[0] {
        ProbeFrame::Identity(u) => Some(u),
        ProbeFrame::Broken => None,
        ProbeFrame::Another => {
            if frames.len() < 2 {
                return None;
            }
            match frames[1] {
                ProbeFrame::Identity(u) => Some(u),
                _ => None,
            }
        },
    }
}

/// Whether the guest takes the token: only one that was paired does.
pub fn probe_hello(reply: HelloReply) -> (r: Result<(), SessionError>)
    ensures
        match reply {
            HelloReply::Ack { .. } => r is Ok,
            HelloReply::AuthFail => r is Err && r->Err_0 is Proto && r->Err_0->Proto_0@
                == "auth rejected"@,
            HelloReply::Unexpected => r is Err && r->Err_0 is Proto && r->Err_0->Proto_0@
                == "expected HelloAck"@,
        },
{
    match reply {
        HelloReply::Ack { .. } => Ok(()),
        HelloReply::AuthFail => Err(SessionError::Proto("auth rejected")),
        HelloReply::Unexpected => Err(SessionError::Proto("expected HelloAck")),
    }
}

/// Most addresses that are asked at a time.
pub const MAX_INFLIGHT: usize = 24;

/// Why a VM was not found.
#[derive(Debug)]
pub enum ResolveError {
    Degraded { vm: String, detail: String },
    IdentityMismatch,
    Transport(String),
}

/// What was looked at in vain.
pub fn degraded_detail(bridges: usize, leases: usize, arp: usize) -> (s: String)
    ensures
        s@ == dec_chars(bridges as nat) + " vmnet bridge(s), "@ + dec_chars(leases as nat)
            + " lease(s), "@ + dec_chars(arp as nat) + " arp entr(ies)"@,
{
    let mut s = decimal_text(bridges as u64);
    s.append(" vmnet bridge(s), ");
    s.append(decimal_text(leases as u64).as_str());
    s.append(" lease(s), ");
    s.append(decimal_text(arp as u64).as_str());
    s.append(" arp entr(ies)");
    s
}

} // verus!
