//! The life of a session: greeting, identity, reconnects.
use crate::chars::{chars_of, lines, lines_of, string_of, trim, trimmed, views};
use crate::digest::{blake3_hash, hash};
use vstd::prelude::*;
use vstd::string::StringExecFns;

verus! {

/// Whether a VM can be reached.
#[derive(Debug, Clone, Copy, PartialEq, Eq, Structural)]
pub enum VmState {
    Disconnected,
    Connecting,
    Ready,
    Degraded,
}

/// Why a session ended.
#[derive(Debug)]
pub enum SessionError {
    Transport(String),
    Decode(String),
    /// The guest does not take the token.
    Auth,
    /// The guest is not the one that was paired.
    IdentityMismatch,
    Proto(&'static str),
    ReadFailed { errno: i32, msg: String },
    Other(String),
}

/// The reply to the greeting.
#[derive(Debug, Clone, Copy, PartialEq, Eq, Structural)]
pub enum HelloReply {
    Ack { proto: u32, session_id: u64 },
    AuthFail,
    Unexpected,
}

/// The session's number, if the guest speaks this version and takes the token.
pub fn hello_done(reply: HelloReply, version: u32) -> (r: Result<u64, SessionError>)
    ensures
        match reply {
            HelloReply::Ack { proto, session_id } => if proto == version {
                r == Ok::<_, SessionError>(session_id)
            } else {
                r is Err && r->Err_0 is Proto && r->Err_0->Proto_0@ == "version mismatch"@
            },
            HelloReply::AuthFail => r == Err::<u64, _>(SessionError::Auth),
            HelloReply::Unexpected => r is Err && r->Err_0 is Proto && r->Err_0->Proto_0@
                == "expected HelloAck"@,
        },
{
    match reply {
        HelloReply::Ack { proto, session_id } => {
            if proto != version {
                return Err(SessionError::Proto("version mismatch"));
            }
            Ok(session_id)
        },
        HelloReply::AuthFail => Err(SessionError::Auth),
        HelloReply::Unexpected => Err(SessionError::Proto("expected HelloAck")),
    }
}

/// What follows the greeting: who the guest is, and where it can be reached.
#[derive(Debug)]
pub enum AfterHello {
    Identity([u8; 16]),
    Endpoints(Vec<String>),
    /// Something else, nothing in time, or an error.
    Nothing,
}

/// What the guest told of itself so far.
#[derive(Debug)]
pub struct Told {
    pub uuid: Option<[u8; 16]>,
    pub endpoints: Vec<String>,
    /// How many messages were looked at.
    pub seen: u8,
    /// No more are looked at.
    pub done: bool,
}

impl Told {
    pub fn new() -> (t: Self)
        ensures
            t.uuid is None,
            t.endpoints@.len() == 0,
            t.seen == 0,
            !t.done,
    {
        Told { uuid: None, endpoints: Vec::new(), seen: 0, done: false }
    }

    /// A message came. Two are looked at; the endpoints are the last of them.
    pub fn on_message(&mut self, m: AfterHello)
        requires
            !old(self).done,
            old(self).seen < 2,
        ensures
            final(self).seen == old(self).seen + 1,
            match m {
                AfterHello::Identity(u) => final(self).uuid == Some(u) && final(self).endpoints
                    == old(self).endpoints && final(self).done == (final(self).seen == 2),
                AfterHello::Endpoints(e) => {
                    &&& final(self).uuid == old(self).uuid
                    &&& final(self).endpoints == e
                    &&& final(self).done
                },
                AfterHello::Nothing => final(self).uuid == old(self).uuid && final(self).endpoints
                    == old(self).endpoints && final(self).done,
            },
    {
        self.seen = self.seen + 1;
        match m {
            AfterHello::Identity(u) => {
                self.uuid = Some(u);
                self.done = self.seen == 2;
            },
            AfterHello::Endpoints(e) => {
                self.endpoints = e;
                self.done = true;
            },
            AfterHello::Nothing => {
                self.done = true;
            },
        }
    }
}

/// Whether the guest is the one that was paired.
#[derive(Debug, Clone, Copy, PartialEq, Eq, Structural)]
pub enum Gate {
    Pass,
    /// It did not say who it is: the session goes on, unbound.
    Unbound,
    Refuse,
}

/// Whether two identities are the same.
pub fn same_uuid(a: &[u8; 16], b: &[u8; 16]) -> (r: bool)
    ensures
        r == (a@ == b@),
{
    crate::bytes::same_bytes(a.as_slice(), b.as_slice())
}

/// Whether the guest is the one that was paired.
pub open spec fn gate_of(want: Option<[u8; 16]>, got: Option<[u8; 16]>) -> Gate {
    match want {
        None => Gate::Pass,
        Some(w) => match got {
            None => Gate::Unbound,
            Some(u) => if u@ == w@ {
                Gate::Pass
            } else {
                Gate::Refuse
            },
        },
    }
}

/// A VM that was paired must answer with the identity that it was paired with: another one means
/// that a token was copied to another guest. A VM that was not paired may be anyone.
pub fn identity_gate(want: &Option<[u8; 16]>, got: &Option<[u8; 16]>) -> (g: Gate)
    ensures
        g == gate_of(*want, *got),
{
    match want {
        None => Gate::Pass,
        Some(w) => match got {
            None => Gate::Unbound,
            Some(u) => if same_uuid(u, w) {
                Gate::Pass
            } else {
                Gate::Refuse
            },
        },
    }
}

/// The pause before the first reconnect, and the longest, in milliseconds.
pub const FIRST_PAUSE_MS: u64 = 100;

pub const LONGEST_PAUSE_MS: u64 = 5000;

/// A session ended: the pause now, and the one after the next failure, which is twice as long.
pub fn pause(went_well: bool, backoff: u64) -> (r: (u64, u64))
    requires
        backoff <= LONGEST_PAUSE_MS,
    ensures
        r.0 == (if went_well {
            FIRST_PAUSE_MS
        } else {
            backoff
        }),
        r.1 == (if 2 * r.0 < LONGEST_PAUSE_MS {
            (2 * r.0) as u64
        } else {
            LONGEST_PAUSE_MS
        }),
        r.1 <= LONGEST_PAUSE_MS,
{
    let now: u64 = if went_well {
        FIRST_PAUSE_MS
    } else {
        backoff
    };
    let next: u64 = if 2 * now < LONGEST_PAUSE_MS {
        2 * now
    } else {
        LONGEST_PAUSE_MS
    };
    (now, next)
}

/// The lines of a text that hold something, without the spaces around them.
pub open spec fn filled_lines(list: Seq<Seq<char>>) -> Seq<Seq<char>>
    decreases list.len(),
{
    if list.len() == 0 {
        seq![]
    } else {
        let before = filled_lines(list.drop_last());
        let l = trimmed(list.last());
        if l.len() == 0 {
            before
        } else {
            before.push(l)
        }
    }
}

pub open spec fn texts(list: Seq<String>) -> Seq<Seq<char>> {
    Seq::new(list.len(), |i: int| list[i]@)
}

/// The endpoints in the file that keeps those that the guest announced last.
pub fn cached_endpoints(text: &str) -> (list: Vec<String>)
    ensures
        texts(list@) == filled_lines(lines(text@)),
{
    let v = chars_of(text);
    let rows = lines_of(v.as_slice());
    let ghost all = lines(text@);
    let mut list: Vec<String> = Vec::new();
    let mut i: usize = 0;
    proof {
        assert(all.take(0) =~= Seq::empty());
        assert(texts(list@) =~= seq![]);
    }
    while i < rows.len()
        invariant
            i <= rows@.len(),
            views(rows@) == all,
            texts(list@) == filled_lines(all.take(i as int)),
        decreases rows@.len() - i,
    {
        let l = trim(rows[i].as_slice());
        let ghost before = texts(list@);
        proof {
            assert(all[i as int] == rows@[i as int]@);
            assert(all.take(i + 1).drop_last() =~= all.take(i as int));
            assert(all.take(i + 1).last() == all[i as int]);
        }
        if l.len() > 0 {
            let s = string_of(l.as_slice());
            list.push(s);
            proof {
                assert(texts(list@) =~= before.push(l@));
            }
        }
        i = i + 1;
    }
    proof {
        assert(all.take(i as int) =~= all);
    }
    list
}

/// The endpoint as it is shown: for one that is looked up, that and where it was found.
pub open spec fn endpoint_text(auto: bool, found: Option<Seq<char>>) -> Seq<char> {
    match found {
        None => "auto (resolving)"@,
        Some(ep) => if auto {
            "auto → "@ + ep
        } else {
            ep
        },
    }
}

/// `found` is the endpoint, or nothing where it is yet to be looked up.
pub fn endpoint_display(auto: bool, found: Option<&str>) -> (s: String)
    ensures
        s@ == endpoint_text(
            auto,
            match found {
                Some(ep) => Some(ep@),
                None => None,
            },
        ),
{
    match found {
        None => "auto (resolving)".to_owned(),
        Some(ep) => if auto {
            let mut s: String = "auto → ".to_owned();
            s.append(ep);
            s
        } else {
            ep.to_owned()
        },
    }
}

/// Fewest bytes in a token.
pub const MIN_TOKEN: usize = 32;

/// What the guest is shown of a token; a token that is too short is refused.
pub fn token_hash(token: &[u8]) -> (r: Result<[u8; 32], usize>)
    ensures
        match r {
            Ok(h) => token@.len() >= MIN_TOKEN && h@ == blake3_hash(token@),
            Err(n) => token@.len() < MIN_TOKEN && n == token@.len(),
        },
{
    if token.len() < MIN_TOKEN {
        return Err(token.len());
    }
    Ok(hash(token))
}

/// Why a token is refused.
pub open spec fn short_token_text(path: Seq<char>, digits: Seq<char>) -> Seq<char> {
    "token "@ + path + " is "@ + digits + " bytes; needs at least 32 random bytes"@
}

pub fn short_token(path: &str, len: usize) -> (s: String)
    ensures
        s@ == short_token_text(path@, crate::text::dec_chars(len as nat)),
{
    let mut s: String = "token ".to_owned();
    s.append(path);
    s.append(" is ");
    let d = crate::text::decimal_text(len as u64);
    s.append(d.as_str());
    s.append(" bytes; needs at least 32 random bytes");
    s
}

} // verus!
