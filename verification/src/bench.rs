//! Measuring a link: how many bytes go into which frame, and what the other side makes of them.
use crate::chars::chars_of;
use crate::resolve::net::{ascii_bytes, ascii_of};
use crate::text::{dec_chars, decimal_text, number_in, parse_number};
use vstd::prelude::*;

verus! {

/// A frame of a bulk transfer.
#[derive(Debug, Clone, Copy, PartialEq, Eq, Structural)]
pub struct BulkFrame {
    pub len: u64,
    /// Others follow.
    pub more: bool,
}

/// The frame after `sent` of `total` bytes, with at most `chunk` bytes.
pub open spec fn frame_of(sent: u64, total: u64, chunk: u64) -> Option<BulkFrame> {
    if sent >= total {
        None
    } else if total - sent <= chunk {
        Some(BulkFrame { len: (total - sent) as u64, more: false })
    } else {
        Some(BulkFrame { len: chunk, more: true })
    }
}

pub fn next_frame(sent: u64, total: u64, chunk: u64) -> (f: Option<BulkFrame>)
    ensures
        f == frame_of(sent, total, chunk),
        f is Some ==> sent + f->0.len <= total,
{
    if sent >= total {
        return None;
    }
    if total - sent <= chunk {
        return Some(BulkFrame { len: total - sent, more: false });
    }
    Some(BulkFrame { len: chunk, more: true })
}

/// The frames of a transfer carry every byte: the last one, and only it, says that none follows.
pub proof fn frames_carry_all(sent: u64, total: u64, chunk: u64)
    requires
        sent < total,
        chunk > 0,
    ensures
        ({
            let f = frame_of(sent, total, chunk)->0;
            &&& f.len > 0
            &&& f.more <==> sent + f.len < total
            &&& !f.more <==> sent + f.len == total
        }),
{
}

/// A message of the side that measures.
#[derive(Debug, Clone, Copy, PartialEq, Eq, Structural)]
pub enum BenchMsg {
    Ping { nonce: u64 },
    Goodbye,
    Other,
}

/// The answer: a ping comes back, and a goodbye tells how many bytes came.
#[derive(Debug)]
pub enum BenchReply {
    Pong { nonce: u64 },
    Goodbye { reason: String },
}

pub fn reply_for(msg: BenchMsg, received: u64) -> (r: Option<BenchReply>)
    ensures
        match msg {
            BenchMsg::Ping { nonce } => r == Some(BenchReply::Pong { nonce }),
            BenchMsg::Goodbye => r is Some && r->0 is Goodbye && r->0->reason@ == dec_chars(
                received as nat,
            ),
            BenchMsg::Other => r is None,
        },
{
    match msg {
        BenchMsg::Ping { nonce } => Some(BenchReply::Pong { nonce }),
        BenchMsg::Goodbye => Some(BenchReply::Goodbye { reason: decimal_text(received) }),
        BenchMsg::Other => None,
    }
}

/// How many bytes the other side says that it got; what is no number counts as none.
pub open spec fn got_of(reason: Seq<char>) -> nat {
    match number_in(ascii_of(reason), u64::MAX as nat) {
        Some(n) => n,
        None => 0,
    }
}

/// Whether the other side got all that was sent; if not, how much it got.
pub fn all_received(reason: &str, sent: u64) -> (r: Result<(), u64>)
    ensures
        match r {
            Ok(_) => got_of(reason@) >= sent,
            Err(n) => got_of(reason@) < sent && n == got_of(reason@),
        },
{
    let v = chars_of(reason);
    let b = ascii_bytes(v.as_slice());
    let got: u64 = match parse_number(b.as_slice(), u64::MAX) {
        Some(n) => n,
        None => 0,
    };
    if got >= sent {
        Ok(())
    } else {
        Err(got)
    }
}

/// How many files go into each directory of a made-up tree.
pub open spec fn per_dir_of(files: u64, dirs: u64) -> nat {
    let d: nat = if dirs == 0 {
        1
    } else {
        dirs as nat
    };
    ((files + d - 1) / d as int) as nat
}

pub fn per_dir(files: u64, dirs: u64) -> (n: u64)
    ensures
        n == per_dir_of(files, dirs),
{
    let d: u64 = if dirs == 0 {
        1
    } else {
        dirs
    };
    let q: u64 = files / d;
    let r: u64 = files % d;
    proof {
        let x = files as int;
        let y = d as int;
        vstd::arithmetic::div_mod::lemma_fundamental_div_mod(x, y);
        if r == 0 {
            assert(x + y - 1 == y * q + (y - 1));
            vstd::arithmetic::div_mod::lemma_fundamental_div_mod_converse(
                x + y - 1,
                y,
                q as int,
                y - 1,
            );
        } else {
            assert(x + y - 1 == y * (q + 1) + (r - 1)) by (nonlinear_arith)
                requires
                    x == y * q + r,
            ;
            vstd::arithmetic::div_mod::lemma_fundamental_div_mod_converse(
                x + y - 1,
                y,
                q + 1,
                r - 1,
            );
            assert(q <= y * q) by (nonlinear_arith)
                requires
                    y >= 1,
                    q >= 0,
            ;
        }
    }
    if r == 0 {
        q
    } else {
        q + 1
    }
}

/// How many files the next directory gets, when some are placed already.
pub fn files_here(files: u64, placed: u64, per_dir: u64) -> (n: u64)
    requires
        placed <= files,
    ensures
        n == if files - placed < per_dir {
            files - placed
        } else {
            per_dir as int
        },
        placed + n <= files,
{
    if files - placed < per_dir {
        files - placed
    } else {
        per_dir
    }
}

} // verus!
