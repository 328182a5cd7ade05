//! Torture of a file: random writes, truncations and reads, held against a model in memory. The
//! same seed gives the same operations.
use crate::hex::{digit, hex};
use crate::sidestore::surface::{overlaid, resized};
use crate::text::{dec_chars, decimal_text};
use std::collections::VecDeque;
use vstd::prelude::*;
use vstd::string::StringExecFns;

verus! {

/// A small generator of numbers that anyone can repeat.
#[derive(Debug, Clone, Copy, PartialEq, Eq, Structural)]
pub struct Rng {
    pub state: u64,
}

/// A product modulo 2^64.
pub open spec fn times(a: u64, b: u64) -> u64 {
    (a * b % 0x1_0000_0000_0000_0000) as u64
}

/// The state that follows.
pub open spec fn advanced(s: u64) -> u64 {
    ((s + 0x9E37_79B9_7F4A_7C15) % 0x1_0000_0000_0000_0000) as u64
}

/// The number of a state.
pub open spec fn mixed(s: u64) -> u64 {
    let a = times(s ^ (s >> 30), 0xBF58_476D_1CE4_E5B9);
    let b = times(a ^ (a >> 27), 0x94D0_49BB_1331_11EB);
    b ^ (b >> 31)
}

/// A number below `n`, and the state after it. There is nothing to choose for 0 and no number is
/// used.
pub open spec fn below_of(s: u64, n: nat) -> (nat, u64) {
    if n == 0 {
        (0, s)
    } else {
        (mixed(advanced(s)) as nat % n, advanced(s))
    }
}

impl Rng {
    /// The next number.
    pub fn next(&mut self) -> (v: u64)
        ensures
            final(self).state == advanced(old(self).state),
            v == mixed(final(self).state),
    {
        self.state = self.state.wrapping_add(0x9E37_79B9_7F4A_7C15);
        let s: u64 = self.state;
        let a: u64 = (s ^ (s >> 30)).wrapping_mul(0xBF58_476D_1CE4_E5B9);
        let b: u64 = (a ^ (a >> 27)).wrapping_mul(0x94D0_49BB_1331_11EB);
        b ^ (b >> 31)
    }

    /// A number below `n`; 0 for 0.
    pub fn below(&mut self, n: usize) -> (v: usize)
        ensures
            (v as nat, final(self).state) == below_of(old(self).state, n as nat),
            n > 0 ==> v < n,
            n == 0 ==> v == 0,
    {
        if n == 0 {
            0
        } else {
            (self.next() % n as u64) as usize
        }
    }
}

/// One operation on the file.
#[derive(Debug, Clone, Copy, PartialEq, Eq, Structural)]
pub enum FsxOp {
    /// Write `len` times `byte` at `off`.
    Write { off: usize, len: usize, byte: u8 },
    Truncate { size: usize },
    Read { off: usize, len: usize },
    /// Close the file and open it again.
    Reopen,
}

pub open spec fn min(a: nat, b: nat) -> nat {
    if a < b {
        a
    } else {
        b
    }
}

/// The operation that the generator chooses for a model of `n` bytes, and the state after it: of
/// a hundred, fifty are writes, fifteen truncations, thirty reads and five reopen the file.
pub open spec fn choice(s: u64, n: nat, max_size: nat) -> (FsxOp, u64) {
    let (dice, s1) = below_of(s, 100);
    if dice < 50 {
        let (at, s2) = below_of(s1, n + 1);
        let off = min(at, if max_size == 0 {
            0
        } else {
            (max_size - 1) as nat
        });
        let (more, s3) = below_of(s2, 131072);
        let len = min(1 + more, (max_size - off) as nat);
        let s4 = advanced(s3);
        (
            FsxOp::Write { off: off as usize, len: len as usize, byte: (mixed(s4) % 256) as u8 },
            s4,
        )
    } else if dice < 65 {
        let (size, s2) = below_of(s1, max_size + 1);
        (FsxOp::Truncate { size: size as usize }, s2)
    } else if dice < 95 {
        let (off, s2) = below_of(s1, n + 1);
        let (want, s3) = below_of(s2, 262144);
        (FsxOp::Read { off: off as usize, len: min(want, (n - off) as nat) as usize }, s3)
    } else {
        (FsxOp::Reopen, s1)
    }
}

/// The same byte over and over.
pub open spec fn fill(len: nat, byte: u8) -> Seq<u8> {
    Seq::new(len, |i: int| byte)
}

/// The model after an operation.
pub open spec fn applied(model: Seq<u8>, op: FsxOp) -> Seq<u8> {
    match op {
        FsxOp::Write { off, len, byte } => overlaid(model, off as nat, fill(len as nat, byte)),
        FsxOp::Truncate { size } => resized(model, size as nat),
        _ => model,
    }
}

/// A run: the generator, and what the file should hold.
#[derive(Debug)]
pub struct Fsx {
    pub rng: Rng,
    pub model: Vec<u8>,
    pub max_size: usize,
}

impl Fsx {
    /// The model never outgrows the largest size.
    pub open spec fn wf(&self) -> bool {
        self.model@.len() <= self.max_size < usize::MAX
    }

    pub fn new(seed: u64, max_size: usize) -> (f: Self)
        requires
            max_size < usize::MAX,
        ensures
            f.wf(),
            f.rng.state == seed,
            f.model@.len() == 0,
            f.max_size == max_size,
    {
        Fsx { rng: Rng { state: seed }, model: Vec::new(), max_size }
    }

    fn choose_op(&mut self) -> (op: FsxOp)
        requires
            old(self).wf(),
        ensures
            (op, final(self).rng.state) == choice(
                old(self).rng.state,
                old(self).model@.len(),
                old(self).max_size as nat,
            ),
            final(self).model == old(self).model,
            final(self).max_size == old(self).max_size,
            match op {
                FsxOp::Write { off, len, .. } => off + len <= old(self).max_size,
                FsxOp::Truncate { size } => size <= old(self).max_size,
                FsxOp::Read { off, len } => off + len <= old(self).model@.len(),
                FsxOp::Reopen => true,
            },
    {
        let n: usize = self.model.len();
        let dice: usize = self.rng.below(100);
        if dice < 50 {
            let at: usize = self.rng.below(n + 1);
            let top: usize = if self.max_size == 0 {
                0
            } else {
                self.max_size - 1
            };
            let off: usize = if at < top {
                at
            } else {
                top
            };
            let more: usize = self.rng.below(131072);
            let room: usize = self.max_size - off;
            let len: usize = if 1 + more < room {
                1 + more
            } else {
                room
            };
            let byte: u8 = (self.rng.next() % 256) as u8;
            FsxOp::Write { off, len, byte }
        } else if dice < 65 {
            let size: usize = self.rng.below(self.max_size + 1);
            FsxOp::Truncate { size }
        } else if dice < 95 {
            let off: usize = self.rng.below(n + 1);
            let want: usize = self.rng.below(262144);
            let len: usize = if want < n - off {
                want
            } else {
                n - off
            };
            FsxOp::Read { off, len }
        } else {
            FsxOp::Reopen
        }
    }

    /// Choose the next operation and make the model what the file should be after it.
    pub fn step(&mut self) -> (op: FsxOp)
        requires
            old(self).wf(),
        ensures
            final(self).wf(),
            final(self).max_size == old(self).max_size,
            (op, final(self).rng.state) == choice(
                old(self).rng.state,
                old(self).model@.len(),
                old(self).max_size as nat,
            ),
            final(self).model@ == applied(old(self).model@, op),
            match op {
                FsxOp::Write { off, len, .. } => off + len <= final(self).max_size,
                FsxOp::Read { off, len } => off + len <= final(self).model@.len(),
                _ => true,
            },
    {
        let op = self.choose_op();
        let ghost was = self.model@;
        match op {
            FsxOp::Write { off, len, byte } => {
                lay(&mut self.model, off, len, byte);
            },
            FsxOp::Truncate { size } => {
                self.model.resize(size, 0);
                proof {
                    assert(self.model@ =~= resized(was, size as nat));
                }
            },
            _ => {},
        }
        op
    }

    /// Whether what was read at `off` is what the file should hold there.
    pub fn matches(&self, off: usize, got: &[u8]) -> (r: bool)
        requires
            off + got@.len() <= self.model@.len(),
        ensures
            r == (got@ == self.model@.subrange(off as int, off + got@.len())),
    {
        proof {
            assert(self.model@.len() == self.model.len());
        }
        let want = vstd::slice::slice_subrange(self.model.as_slice(), off, off + got.len());
        crate::bytes::same_bytes(got, want)
    }
}

/// Write a byte over and over.
fn lay(model: &mut Vec<u8>, off: usize, len: usize, byte: u8)
    requires
        off + len <= usize::MAX,
    ensures
        final(model)@ == overlaid(old(model)@, off as nat, fill(len as nat, byte)),
{
    let ghost was = model@;
    if model.len() < off + len {
        model.resize(off + len, 0);
    }
    let ghost padded = model@;
    proof {
        assert forall|j: int| 0 <= j < padded.len() implies padded[j] == (if j < was.len() {
            was[j]
        } else {
            0u8
        }) by {}
    }
    let mut i: usize = 0;
    while i < len
        invariant
            i <= len,
            off + len <= model@.len(),
            off + len <= usize::MAX,
            model@.len() == padded.len(),
            forall|j: int|
                0 <= j < model@.len() ==> model@[j] == (if off <= j < off + i {
                    byte
                } else {
                    padded[j]
                }),
        decreases len - i,
    {
        model.set(off + i, byte);
        i = i + 1;
    }
    proof {
        assert(model@ =~= overlaid(was, off as nat, fill(len as nat, byte)));
    }
}

/// How many lines of the log are kept.
pub const LOG_LINES: usize = 16;

/// The log with one more line: the oldest goes where it is full.
pub open spec fn logged(log: Seq<String>, line: String) -> Seq<String> {
    if log.len() == LOG_LINES {
        log.skip(1).push(line)
    } else {
        log.push(line)
    }
}

pub fn push(log: &mut VecDeque<String>, line: String)
    ensures
        final(log)@ == logged(old(log)@, line),
{
    if log.len() == LOG_LINES {
        let _oldest = log.pop_front();
        proof {
            assert(log@ =~= old(log)@.skip(1));
        }
    }
    log.push_back(line);
}

/// Where two byte strings differ first; where one of them ends, if they do not before.
pub open spec fn first_diff(a: Seq<u8>, b: Seq<u8>) -> nat
    decreases a.len(),
{
    if a.len() == 0 || b.len() == 0 || a[0] != b[0] {
        0
    } else {
        1 + first_diff(a.skip(1), b.skip(1))
    }
}

pub fn mismatch_at(got: &[u8], want: &[u8]) -> (n: usize)
    ensures
        n == first_diff(got@, want@),
        n <= got@.len(),
        n <= want@.len(),
{
    let mut i: usize = 0;
    proof {
        assert(got@.skip(0) =~= got@);
        assert(want@.skip(0) =~= want@);
    }
    while i < got.len() && i < want.len() && got[i] == want[i]
        invariant
            i <= got@.len(),
            i <= want@.len(),
            first_diff(got@, want@) == i + first_diff(got@.skip(i as int), want@.skip(i as int)),
        decreases got@.len() - i,
    {
        proof {
            assert(got@.skip(i as int).skip(1) =~= got@.skip(i + 1));
            assert(want@.skip(i as int).skip(1) =~= want@.skip(i + 1));
        }
        i = i + 1;
    }
    i
}

/// How a byte is written in the log.
pub open spec fn byte_text(b: u8) -> Seq<char> {
    "0x"@ + seq![digit(b as int / 16) as char, digit(b as int % 16) as char]
}

/// The line of an operation in the log.
pub open spec fn line_of(op: u64, what: FsxOp) -> Seq<char> {
    dec_chars(op as nat) + match what {
        FsxOp::Write { off, len, byte } => ": write "@ + dec_chars(len as nat) + "@"@ + dec_chars(
            off as nat,
        ) + " byte="@ + byte_text(byte),
        FsxOp::Truncate { size } => ": truncate "@ + dec_chars(size as nat),
        FsxOp::Read { off, len } => ": read "@ + dec_chars(len as nat) + "@"@ + dec_chars(
            off as nat,
        ) + " ok"@,
        FsxOp::Reopen => ": reopen"@,
    }
}

pub fn log_line(op: u64, what: &FsxOp) -> (s: String)
    ensures
        s@ == line_of(op, *what),
{
    let mut s = decimal_text(op);
    match what {
        FsxOp::Write { off, len, byte } => {
            s.append(": write ");
            s.append(decimal_text(*len as u64).as_str());
            s.append("@");
            s.append(decimal_text(*off as u64).as_str());
            s.append(" byte=");
            s.append("0x");
            let one: [u8; 1] = [*byte];
            let h = hex(one.as_slice());
            proof {
                assert(h@ =~= seq![digit(*byte as int / 16), digit(*byte as int % 16)]);
            }
            s.push(h[0] as char);
            s.push(h[1] as char);
        },
        FsxOp::Truncate { size } => {
            s.append(": truncate ");
            s.append(decimal_text(*size as u64).as_str());
        },
        FsxOp::Read { off, len } => {
            s.append(": read ");
            s.append(decimal_text(*len as u64).as_str());
            s.append("@");
            s.append(decimal_text(*off as u64).as_str());
            s.append(" ok");
        },
        FsxOp::Reopen => {
            s.append(": reopen");
        },
    }
    proof {
        assert(s@ =~= line_of(op, *what));
    }
    s
}

/// After how many operations the whole file is compared.
pub fn compare_now(op: u64) -> (r: bool)
    ensures
        r == (op % 256 == 255),
{
    op % 256 == 255
}

} // verus!
