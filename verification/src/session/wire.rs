//! Calls over a lane: answers by number, reads whose bytes come in pieces, and pings.
use crate::session::link::SessionError;
use std::collections::HashSet;
use vstd::prelude::*;

verus! {

broadcast use vstd::std_specs::hash::group_hash_axioms;

/// Unanswered pings after which the other side is taken for gone.
pub const PING_MISSES: u64 = 3;

/// The pings of a lane.
#[derive(Debug, Clone, Copy, PartialEq, Eq, Structural)]
pub struct Pings {
    /// How many have no answer yet.
    pub outstanding: u64,
    pub nonce: u64,
}

impl Pings {
    pub fn new() -> (p: Self)
        ensures
            p == (Pings { outstanding: 0, nonce: 0 }),
    {
        Pings { outstanding: 0, nonce: 0 }
    }

    /// It is time for a ping: gives its number, or nothing where too many had no answer.
    pub fn tick(&mut self) -> (nonce: Option<u64>)
        requires
            old(self).nonce < u64::MAX,
        ensures
            if old(self).outstanding >= PING_MISSES {
                nonce is None && *final(self) == *old(self)
            } else {
                &&& nonce == Some((old(self).nonce + 1) as u64)
                &&& final(self).nonce == old(self).nonce + 1
                &&& final(self).outstanding == old(self).outstanding + 1
            },
    {
        if self.outstanding >= PING_MISSES {
            return None;
        }
        self.nonce = self.nonce + 1;
        self.outstanding = self.outstanding + 1;
        Some(self.nonce)
    }

    /// An answer came; one too many changes nothing.
    pub fn pong(&mut self)
        ensures
            final(self).nonce == old(self).nonce,
            final(self).outstanding == (if old(self).outstanding == 0 {
                0
            } else {
                (old(self).outstanding - 1) as u64
            }),
    {
        if self.outstanding > 0 {
            self.outstanding = self.outstanding - 1;
        }
    }
}

/// What to do with a piece of a read.
#[derive(Debug, Clone, Copy, PartialEq, Eq, Structural)]
pub enum Delivery {
    /// Nobody waits for it.
    Stray,
    /// Whoever waits has nothing from it: it is empty.
    Nothing,
    /// Whoever waits gets it.
    Pass,
}

/// The reads whose bytes are still coming.
#[derive(Debug)]
pub struct Reads {
    pub open: HashSet<u64>,
}

impl Reads {
    pub open spec fn waits(&self, seq: u64) -> bool {
        self.open@.contains(seq)
    }

    pub fn new() -> (r: Self)
        ensures
            forall|seq: u64| !r.waits(seq),
    {
        Reads { open: HashSet::new() }
    }

    /// A read was sent.
    pub fn expect(&mut self, seq: u64)
        ensures
            final(self).open@ == old(self).open@.insert(seq),
    {
        let _was = self.open.insert(seq);
    }

    /// A read was given up or failed.
    pub fn cancel(&mut self, seq: u64)
        ensures
            final(self).open@ == old(self).open@.remove(seq),
    {
        let _was = self.open.remove(&seq);
    }

    /// A piece of a read came; `more` says that others follow.
    pub fn deliver_chunk(&mut self, seq: u64, len: usize, more: bool) -> (d: Delivery)
        ensures
            d == if !old(self).waits(seq) {
                Delivery::Stray
            } else if len == 0 {
                Delivery::Nothing
            } else {
                Delivery::Pass
            },
            final(self).open@ == if more {
                old(self).open@
            } else {
                old(self).open@.remove(seq)
            },
    {
        if !self.open.contains(&seq) {
            proof {
                assert(old(self).open@.remove(seq) =~= old(self).open@);
            }
            return Delivery::Stray;
        }
        if !more {
            let _was = self.open.remove(&seq);
        }
        if len == 0 {
            Delivery::Nothing
        } else {
            Delivery::Pass
        }
    }
}

/// How a call ended.
#[derive(Debug)]
pub enum CallEnd<R> {
    Answered(R),
    /// It could not be sent.
    Closed,
    /// The session died before the answer came.
    Dropped,
    Timeout,
}

/// What a call gives.
pub fn call_done<R>(end: CallEnd<R>) -> (r: Result<R, SessionError>)
    ensures
        match end {
            CallEnd::Answered(v) => r == Ok::<_, SessionError>(v),
            CallEnd::Closed => r is Err && r->Err_0 is Proto && r->Err_0->Proto_0@
                == "rpc lane closed"@,
            CallEnd::Dropped => r is Err && r->Err_0 is Proto && r->Err_0->Proto_0@
                == "rpc waiter dropped (session died)"@,
            CallEnd::Timeout => r is Err && r->Err_0 is Proto && r->Err_0->Proto_0@
                == "rpc timeout"@,
        },
{
    match end {
        CallEnd::Answered(v) => Ok(v),
        CallEnd::Closed => Err(SessionError::Proto("rpc lane closed")),
        CallEnd::Dropped => Err(SessionError::Proto("rpc waiter dropped (session died)")),
        CallEnd::Timeout => Err(SessionError::Proto("rpc timeout")),
    }
}

/// The first answer to a read.
#[derive(Debug)]
pub enum ReadHeader {
    /// So many bytes follow, and whether they end the file.
    Start { len: u64, eof: bool },
    /// The guest cannot: its error number and words.
    Failed { errno: i32, msg: String },
    Unexpected,
    /// No answer came in time, or the session died.
    Timeout,
}

/// What the body of a read has so far.
#[derive(Debug)]
pub struct ReadBody {
    pub total: u64,
    pub eof: bool,
    pub buf: Vec<u8>,
}

/// The bytes that are taken of a list of pieces: whole pieces, until there are at least `total`.
pub open spec fn taken(pieces: Seq<Seq<u8>>, total: nat) -> Seq<u8>
    decreases pieces.len(),
{
    if pieces.len() == 0 {
        seq![]
    } else {
        let before = taken(pieces.drop_last(), total);
        if before.len() >= total {
            before
        } else {
            before + pieces.last()
        }
    }
}

/// What the first answer to a read leads to.
pub fn read_header(h: ReadHeader) -> (r: Result<ReadBody, SessionError>)
    ensures
        match h {
            ReadHeader::Start { len, eof } => {
                &&& r is Ok
                &&& r->Ok_0.total == len
                &&& r->Ok_0.eof == eof
                &&& r->Ok_0.buf@ == Seq::<u8>::empty()
            },
            ReadHeader::Failed { errno, msg } => r == Err::<ReadBody, _>(
                SessionError::ReadFailed { errno, msg },
            ),
            ReadHeader::Unexpected => r is Err && r->Err_0 is Proto && r->Err_0->Proto_0@
                == "unexpected read response"@,
            ReadHeader::Timeout => r is Err && r->Err_0 is Proto && r->Err_0->Proto_0@
                == "read header timeout"@,
        },
{
    match h {
        ReadHeader::Start { len, eof } => {
            let b = ReadBody { total: len, eof, buf: Vec::new() };
            proof {
                assert(b.buf@ =~= Seq::<u8>::empty());
            }
            Ok(b)
        },
        ReadHeader::Failed { errno, msg } => Err(SessionError::ReadFailed { errno, msg }),
        ReadHeader::Unexpected => Err(SessionError::Proto("unexpected read response")),
        ReadHeader::Timeout => Err(SessionError::Proto("read header timeout")),
    }
}

impl ReadBody {
    /// So far the body is made of these pieces.
    pub open spec fn holds(&self, pieces: Seq<Seq<u8>>) -> bool {
        self.buf@ == taken(pieces, self.total as nat)
    }

    /// Whether bytes are still missing. One that ends before that is a short read: the file
    /// shrank.
    pub fn wants_more(&self) -> (r: bool)
        ensures
            r == (self.buf@.len() < self.total),
    {
        (self.buf.len() as u64) < self.total
    }

    /// A piece came.
    pub fn got(&mut self, piece: &[u8])
        ensures
            final(self).total == old(self).total,
            final(self).eof == old(self).eof,
            final(self).buf@ == (if old(self).buf@.len() < old(self).total {
                old(self).buf@ + piece@
            } else {
                old(self).buf@
            }),
    {
        if (self.buf.len() as u64) < self.total {
            self.buf.extend_from_slice(piece);
            proof {
                assert(self.buf@ =~= old(self).buf@ + piece@);
            }
        }
    }
}

/// A body that is given one piece after the other holds what is taken of them all.
pub proof fn body_holds_the_pieces(
    before: ReadBody,
    after: ReadBody,
    pieces: Seq<Seq<u8>>,
    piece: Seq<u8>,
)
    requires
        before.holds(pieces),
        after.total == before.total,
        after.buf@ == (if before.buf@.len() < before.total {
            before.buf@ + piece
        } else {
            before.buf@
        }),
    ensures
        after.holds(pieces.push(piece)),
{
    assert(pieces.push(piece).drop_last() =~= pieces);
}

} // verus!
