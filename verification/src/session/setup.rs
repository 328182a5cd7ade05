//! Setting a session up, step by step: reach the guest, greet it, make sure who it is, open the
//! lanes, and have every share walked.
use crate::session::link::{
    gate_of, hello_done, identity_gate, AfterHello, Gate, HelloReply, SessionError, Told,
};
use vstd::prelude::*;

verus! {

/// What a lane carries.
#[derive(Debug, Clone, Copy, PartialEq, Eq, Structural)]
pub enum Lane {
    Journal,
    Rpc,
    Bulk,
}

/// How many lanes a session has besides the one that it is controlled by.
pub const LANES: u8 = 5;

/// The lanes in the order in which they are opened, with the number of each among its kind: the
/// second of the calls is for writes.
pub open spec fn lane_of(i: u8) -> (Lane, u8) {
    if i == 0 {
        (Lane::Journal, 0)
    } else if i == 1 {
        (Lane::Rpc, 0)
    } else if i == 2 {
        (Lane::Rpc, 1)
    } else if i == 3 {
        (Lane::Bulk, 0)
    } else {
        (Lane::Bulk, 1)
    }
}

/// How far the setup has come.
#[derive(Debug, Clone, Copy, PartialEq, Eq, Structural)]
pub enum Stage {
    /// The addresses that the guest announced last are tried in turn, then its bridge.
    Dial { next: usize },
    Greet,
    /// The guest tells of itself.
    Meet,
    Lanes { next: u8 },
    Seed { next: usize },
    Live,
    /// The session is over.
    Failed,
}

/// What to do next.
#[derive(Debug, Clone, Copy, PartialEq, Eq, Structural)]
pub enum Act {
    /// Reach the guest at the address of this number.
    DialCached(usize),
    DialBridge,
    /// Send the greeting and read the reply.
    Greet,
    /// Read one message.
    Listen,
    OpenLane(Lane, u8),
    /// Attach this share and have it walked.
    Seed(u16),
    /// All is set up.
    Ready,
    Stop,
}

/// A session that is being set up.
#[derive(Debug)]
pub struct Setup {
    /// The version of the protocol.
    pub version: u32,
    /// The identity that the VM was paired with.
    pub expected: Option<[u8; 16]>,
    /// The addresses that the guest announced last.
    pub cached: Vec<String>,
    pub stage: Stage,
    pub session_id: u64,
    pub shares: Vec<u16>,
    pub told: Told,
}

impl Setup {
    /// The guest has said nothing of itself yet.
    pub open spec fn untold(&self) -> bool {
        &&& self.told.uuid is None
        &&& self.told.endpoints@.len() == 0
        &&& self.told.seen == 0
        &&& !self.told.done
    }

    /// Before the introductions the guest has said nothing; past them it has not said that it is another than the one that was
    /// paired.
    pub open spec fn wf(&self) -> bool {
        match self.stage {
            Stage::Dial { next } => next <= self.cached@.len() && self.untold(),
            Stage::Greet => self.untold(),
            Stage::Meet => !self.told.done && self.told.seen < 2,
            Stage::Lanes { next } => next < LANES && gate_of(self.expected, self.told.uuid)
                != Gate::Refuse,
            Stage::Seed { next } => next < self.shares@.len() && gate_of(
                self.expected,
                self.told.uuid,
            ) != Gate::Refuse,
            Stage::Live => gate_of(self.expected, self.told.uuid) != Gate::Refuse,
            Stage::Failed => true,
        }
    }

    pub fn new(version: u32, expected: Option<[u8; 16]>, cached: Vec<String>) -> (s: Self)
        ensures
            s.wf(),
            s.version == version,
            s.expected == expected,
            s.cached == cached,
            s.stage == (Stage::Dial { next: 0 }),
            s.shares@.len() == 0,
            s.session_id == 0,
            s.told.uuid is None,
            s.told.endpoints@.len() == 0,
            s.told.seen == 0,
            !s.told.done,
    {
        Setup {
            version,
            expected,
            cached,
            stage: Stage::Dial { next: 0 },
            session_id: 0,
            shares: Vec::new(),
            told: Told::new(),
        }
    }

    /// What to do next.
    pub fn next(&self) -> (a: Act)
        requires
            self.wf(),
        ensures
            a == match self.stage {
                Stage::Dial { next } => if next < self.cached@.len() {
                    Act::DialCached(next)
                } else {
                    Act::DialBridge
                },
                Stage::Greet => Act::Greet,
                Stage::Meet => Act::Listen,
                Stage::Lanes { next } => Act::OpenLane(lane_of(next).0, lane_of(next).1),
                Stage::Seed { next } => Act::Seed(self.shares@[next as int]),
                Stage::Live => Act::Ready,
                Stage::Failed => Act::Stop,
            },
    {
        match self.stage {
            Stage::Dial { next } => if next < self.cached.len() {
                Act::DialCached(next)
            } else {
                Act::DialBridge
            },
            Stage::Greet => Act::Greet,
            Stage::Meet => Act::Listen,
            Stage::Lanes { next } => match next {
                0 => Act::OpenLane(Lane::Journal, 0),
                1 => Act::OpenLane(Lane::Rpc, 0),
                2 => Act::OpenLane(Lane::Rpc, 1),
                3 => Act::OpenLane(Lane::Bulk, 0),
                _ => Act::OpenLane(Lane::Bulk, 1),
            },
            Stage::Seed { next } => Act::Seed(self.shares[next]),
            Stage::Live => Act::Ready,
            Stage::Failed => Act::Stop,
        }
    }

    /// An attempt to reach the guest came to its end. The bridge is the last resort.
    pub fn dialed(&mut self, reached: bool)
        requires
            old(self).wf(),
            old(self).stage is Dial,
        ensures
            final(self).wf(),
            *final(self) == (Setup { stage: final(self).stage, ..*old(self) }),
            final(self).stage == (if reached {
                Stage::Greet
            } else {
                match old(self).stage {
                    Stage::Dial { next } => if next < old(self).cached@.len() {
                        Stage::Dial { next: (next + 1) as usize }
                    } else {
                        Stage::Failed
                    },
                    s => s,
                }
            }),
    {
        if reached {
            self.stage = Stage::Greet;
            return;
        }
        if let Stage::Dial { next } = self.stage {
            if next < self.cached.len() {
                self.stage = Stage::Dial { next: next + 1 };
            } else {
                self.stage = Stage::Failed;
            }
        }
    }

    /// The reply to the greeting came, with the shares that it announces.
    pub fn greeted(&mut self, reply: HelloReply, shares: Vec<u16>) -> (r: Result<(), SessionError>)
        requires
            old(self).wf(),
            old(self).stage is Greet,
        ensures
            final(self).wf(),
            final(self).version == old(self).version,
            final(self).expected == old(self).expected,
            final(self).cached == old(self).cached,
            final(self).told == old(self).told,
            match reply {
                HelloReply::Ack { proto, session_id } => if proto == old(self).version {
                    &&& r is Ok
                    &&& final(self).stage == Stage::Meet
                    &&& final(self).session_id == session_id
                    &&& final(self).shares == shares
                } else {
                    &&& r is Err
                    &&& r->Err_0 is Proto
                    &&& r->Err_0->Proto_0@ == "version mismatch"@
                    &&& final(self).stage == Stage::Failed
                },
                HelloReply::AuthFail => r == Err::<(), _>(SessionError::Auth) && final(self).stage
                    == Stage::Failed,
                HelloReply::Unexpected => r is Err && r->Err_0 is Proto && r->Err_0->Proto_0@
                    == "expected HelloAck"@ && final(self).stage == Stage::Failed,
            },
    {
        match hello_done(reply, self.version) {
            Ok(id) => {
                self.session_id = id;
                self.shares = shares;
                self.stage = Stage::Meet;
                Ok(())
            },
            Err(e) => {
                self.stage = Stage::Failed;
                Err(e)
            },
        }
    }

    /// A message came, or nothing did. After the last of them it is settled who the guest is.
    pub fn heard(&mut self, m: AfterHello) -> (r: Result<Gate, SessionError>)
        requires
            old(self).wf(),
            old(self).stage is Meet,
        ensures
            final(self).wf(),
            final(self).version == old(self).version,
            final(self).expected == old(self).expected,
            final(self).cached == old(self).cached,
            final(self).shares == old(self).shares,
            final(self).session_id == old(self).session_id,
            final(self).told.uuid == (match m {
                AfterHello::Identity(u) => Some(u),
                _ => old(self).told.uuid,
            }),
            final(self).told.endpoints == (match m {
                AfterHello::Endpoints(e) => e,
                _ => old(self).told.endpoints,
            }),
            ({
                let last = !(m is Identity) || old(self).told.seen == 1;
                let gate = gate_of(old(self).expected, final(self).told.uuid);
                if !last {
                    r == Ok::<_, SessionError>(Gate::Pass) && final(self).stage == Stage::Meet
                } else if gate == Gate::Refuse {
                    r == Err::<Gate, _>(SessionError::IdentityMismatch) && final(self).stage
                        == Stage::Failed
                } else {
                    r == Ok::<_, SessionError>(gate) && final(self).stage == (Stage::Lanes {
                        next: 0,
                    })
                }
            }),
    {
        self.told.on_message(m);
        if !self.told.done {
            return Ok(Gate::Pass);
        }
        match identity_gate(&self.expected, &self.told.uuid) {
            Gate::Refuse => {
                self.stage = Stage::Failed;
                Err(SessionError::IdentityMismatch)
            },
            g => {
                self.stage = Stage::Lanes { next: 0 };
                Ok(g)
            },
        }
    }

    /// The addresses by which lanes are opened: those that the guest announced now, which are
    /// also to be kept; where it announced none, those that were kept.
    pub fn endpoints(&self) -> (r: (&Vec<String>, bool))
        ensures
            r.1 == (self.told.endpoints@.len() > 0),
            *r.0 == (if r.1 {
                self.told.endpoints
            } else {
                self.cached
            }),
    {
        if self.told.endpoints.len() > 0 {
            (&self.told.endpoints, true)
        } else {
            (&self.cached, false)
        }
    }

    /// A lane was opened, or could not be.
    pub fn lane(&mut self, opened: bool)
        requires
            old(self).wf(),
            old(self).stage is Lanes,
        ensures
            final(self).wf(),
            *final(self) == (Setup { stage: final(self).stage, ..*old(self) }),
            final(self).stage == (if !opened {
                Stage::Failed
            } else {
                match old(self).stage {
                    Stage::Lanes { next } => if next + 1 < LANES {
                        Stage::Lanes { next: (next + 1) as u8 }
                    } else if old(self).shares@.len() > 0 {
                        Stage::Seed { next: 0 }
                    } else {
                        Stage::Live
                    },
                    s => s,
                }
            }),
    {
        if !opened {
            self.stage = Stage::Failed;
            return;
        }
        if let Stage::Lanes { next } = self.stage {
            if next + 1 < LANES {
                self.stage = Stage::Lanes { next: next + 1 };
            } else if self.shares.len() > 0 {
                self.stage = Stage::Seed { next: 0 };
            } else {
                self.stage = Stage::Live;
            }
        }
    }

    /// A share was attached and its walk asked for, or that could not be sent.
    pub fn seeded(&mut self, sent: bool)
        requires
            old(self).wf(),
            old(self).stage is Seed,
        ensures
            final(self).wf(),
            *final(self) == (Setup { stage: final(self).stage, ..*old(self) }),
            final(self).stage == (if !sent {
                Stage::Failed
            } else {
                match old(self).stage {
                    Stage::Seed { next } => if next + 1 < old(self).shares@.len() {
                        Stage::Seed { next: (next + 1) as usize }
                    } else {
                        Stage::Live
                    },
                    s => s,
                }
            }),
    {
        if !sent {
            self.stage = Stage::Failed;
            return;
        }
        if let Stage::Seed { next } = self.stage {
            if next < self.shares.len() - 1 {
                self.stage = Stage::Seed { next: next + 1 };
            } else {
                self.stage = Stage::Live;
            }
        }
    }
}

/// A guest that says that it is another than the one that was paired never gets a live session.
pub proof fn wrong_guest_never_goes_live(s: Setup, want: [u8; 16], got: [u8; 16])
    requires
        s.wf(),
        s.expected == Some(want),
        s.told.uuid == Some(got),
        got@ != want@,
    ensures
        !(s.stage is Lanes),
        !(s.stage is Seed),
        !(s.stage is Live),
{
}

} // verus!
