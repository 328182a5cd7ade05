//! Minimal XDR codec (RFC 4506): big-endian, every item padded to four bytes.
//!
//! The wire format is stated twice, once for each direction. [`Wire`] says what each writer call
//! appends to the bytes written so far; the `get_*` functions say what each reader call yields
//! and which bytes it leaves, whether it succeeds or not. The proof functions at the end tie the
//! two together.
use vstd::prelude::*;
use vstd::slice::slice_subrange;

verus! {

/// The four big-endian bytes of `v`.
#[verifier::opaque]
pub open spec fn be32(v: u32) -> Seq<u8> {
    seq![
        (v / 0x100_0000) as u8,
        (v / 0x1_0000 % 0x100) as u8,
        (v / 0x100 % 0x100) as u8,
        (v % 0x100) as u8,
    ]
}

/// The number whose big-endian bytes start `s`.
#[verifier::opaque]
pub open spec fn de32(s: Seq<u8>) -> u32 {
    (s[0] * 0x100_0000 + s[1] * 0x1_0000 + s[2] * 0x100 + s[3]) as u32
}

pub broadcast proof fn be32_len(v: u32)
    ensures
        #[trigger] be32(v).len() == 4,
{
    reveal(be32);
}

proof fn de32_be32(v: u32, rest: Seq<u8>)
    ensures
        de32(be32(v) + rest) == v,
{
    reveal(be32);
    reveal(de32);
}

/// The eight big-endian bytes of `v`.
pub open spec fn be64(v: u64) -> Seq<u8> {
    be32((v / 0x1_0000_0000) as u32) + be32((v % 0x1_0000_0000) as u32)
}

/// The number whose eight big-endian bytes start `s`.
pub open spec fn de64(s: Seq<u8>) -> u64 {
    (de32(s) * 0x1_0000_0000 + de32(s.skip(4))) as u64
}

/// How many zero bytes follow `n` bytes of opaque data.
pub open spec fn pad_len(n: nat) -> nat {
    ((4 - n % 4) % 4) as nat
}

/// `n` zero bytes.
pub open spec fn zeros(n: nat) -> Seq<u8> {
    Seq::new(n, |i: int| 0u8)
}

/// What each writer call makes of the bytes written before it.
pub trait Wire: Sized {
    spec fn put_u32(self, v: u32) -> Self;

    spec fn put_u64(self, v: u64) -> Self;

    spec fn put_bool(self, v: bool) -> Self;

    spec fn put_fixed(self, data: Seq<u8>) -> Self;

    spec fn put_opaque(self, data: Seq<u8>) -> Self;
}

impl Wire for Seq<u8> {
    open spec fn put_u32(self, v: u32) -> Seq<u8> {
        self + be32(v)
    }

    open spec fn put_u64(self, v: u64) -> Seq<u8> {
        self + be64(v)
    }

    open spec fn put_bool(self, v: bool) -> Seq<u8> {
        self.put_u32(if v { 1 } else { 0 })
    }

    /// The data and its padding, with no length before it.
    open spec fn put_fixed(self, data: Seq<u8>) -> Seq<u8> {
        self + data + zeros(pad_len(data.len()))
    }

    /// The length (its low 32 bits), the data, the padding.
    open spec fn put_opaque(self, data: Seq<u8>) -> Seq<u8> {
        self.put_u32((data.len() % 0x1_0000_0000) as u32).put_fixed(data)
    }
}

/// `b` is `a` with whole words appended.
#[verifier::opaque]
pub open spec fn grows(a: Seq<u8>, b: Seq<u8>) -> bool {
    a.len() <= b.len() && b.take(a.len() as int) == a && (b.len() - a.len()) % 4 == 0
}

pub broadcast proof fn grows_on(a: Seq<u8>, b: Seq<u8>, c: Seq<u8>)
    requires
        #[trigger] grows(a, b),
        #[trigger] grows(b, c),
    ensures
        grows(a, c),
{
    reveal(grows);
    assert(c.take(a.len() as int) =~= b.take(a.len() as int)) by {
        assert forall|i: int| 0 <= i < a.len() implies c[i] == b[i] by {
            assert(c.take(b.len() as int)[i] == c[i]);
        }
    }
}

pub broadcast proof fn grows_not(a: Seq<u8>)
    ensures
        #[trigger] grows(a, a),
{
    reveal(grows);
    assert(a.take(a.len() as int) =~= a);
}

/// Nothing, or whole words, was appended.
pub broadcast group group_grows {
    grows_on,
    grows_not,
}

/// Encodes XDR primitives into a growing buffer.
#[derive(Debug, Default)]
pub struct XdrWriter {
    buf: Vec<u8>,
}

impl XdrWriter {
    /// The bytes written so far.
    pub closed spec fn view(&self) -> Seq<u8> {
        self.buf@
    }

    pub fn new() -> (w: Self)
        ensures
            w@ == Seq::<u8>::empty(),
    {
        XdrWriter { buf: Vec::with_capacity(512) }
    }

    /// Pre-sized writer: streaming replies grow to the transfer size, and doubling
    /// reallocations would copy the payload about twice before settling.
    pub fn with_capacity(cap: usize) -> (w: Self)
        ensures
            w@ == Seq::<u8>::empty(),
    {
        XdrWriter { buf: Vec::with_capacity(cap) }
    }

    /// Wrap a recycled buffer, which must be empty.
    pub fn from_vec(buf: Vec<u8>) -> (w: Self)
        requires
            buf@.len() == 0,
        ensures
            w@ == Seq::<u8>::empty(),
    {
        proof {
            assert(buf@ =~= Seq::<u8>::empty());
        }
        XdrWriter { buf }
    }

    pub fn into_bytes(self) -> (bytes: Vec<u8>)
        ensures
            bytes@ == self@,
    {
        self.buf
    }

    pub fn len(&self) -> (n: usize)
        ensures
            n == self@.len(),
    {
        self.buf.len()
    }

    /// Current write position, for later patching.
    pub fn pos(&self) -> (n: usize)
        ensures
            n == self@.len(),
    {
        self.buf.len()
    }

    /// Overwrite a number written earlier at `pos`.
    pub fn patch_u32(&mut self, pos: usize, v: u32)
        requires
            pos + 4 <= old(self)@.len(),
        ensures
            final(self)@ == old(self)@.take(pos as int).put_u32(v) + old(self)@.skip(pos + 4),
    {
        let _len: usize = self.buf.len();
        self.buf[pos] = (v / 0x100_0000) as u8;
        self.buf[pos + 1] = (v / 0x1_0000 % 0x100) as u8;
        self.buf[pos + 2] = (v / 0x100 % 0x100) as u8;
        self.buf[pos + 3] = (v % 0x100) as u8;
        proof {
            reveal(be32);
            assert(self.buf@ =~= old(self)@.take(pos as int).put_u32(v) + old(self)@.skip(pos + 4));
        }
    }

    /// Rewind to `pos`, discarding everything after it.
    pub fn truncate(&mut self, pos: usize)
        ensures
            final(self)@ == (if pos <= old(self)@.len() {
                old(self)@.take(pos as int)
            } else {
                old(self)@
            }),
    {
        self.buf.truncate(pos);
        proof {
            if pos <= old(self)@.len() {
                assert(self.buf@ =~= old(self)@.take(pos as int));
            } else {
                assert(self.buf@ =~= old(self)@);
            }
        }
    }

    /// The bytes written from `pos` to the end.
    pub fn since(&self, pos: usize) -> (s: &[u8])
        requires
            pos <= self@.len(),
        ensures
            s@ == self@.skip(pos as int),
    {
        let s = slice_subrange(self.buf.as_slice(), pos, self.buf.len());
        proof {
            assert(s@ =~= self@.skip(pos as int));
        }
        s
    }

    /// Direct access to the buffer for fused payload writes. The caller restores the four-byte
    /// alignment with [`XdrWriter::pad_to_4`].
    pub fn buf_mut(&mut self) -> (r: &mut Vec<u8>)
        ensures
            r@ == old(self)@,
            final(self)@ == final(r)@,
    {
        &mut self.buf
    }

    /// Pad with zeros to a four-byte boundary.
    pub fn pad_to_4(&mut self)
        ensures
            final(self)@ == old(self)@ + zeros(pad_len(old(self)@.len())),
    {
        let n: usize = self.buf.len();
        self.pad(n);
    }

    fn pad(&mut self, len: usize)
        ensures
            final(self)@ == old(self)@ + zeros(pad_len(len as nat)),
    {
        let total: usize = (4 - len % 4) % 4;
        let mut i: usize = 0;
        while i < total
            invariant
                i <= total,
                total == pad_len(len as nat),
                self@ == old(self)@ + zeros(i as nat),
            decreases total - i,
        {
            self.buf.push(0);
            i = i + 1;
            proof {
                assert(self@ =~= old(self)@ + zeros(i as nat));
            }
        }
        proof {
            assert(old(self)@ + zeros(0) =~= old(self)@);
        }
    }

    pub fn u32(&mut self, v: u32)
        ensures
            final(self)@ == old(self)@.put_u32(v),
            grows(old(self)@, final(self)@),
    {
        self.buf.push((v / 0x100_0000) as u8);
        self.buf.push((v / 0x1_0000 % 0x100) as u8);
        self.buf.push((v / 0x100 % 0x100) as u8);
        self.buf.push((v % 0x100) as u8);
        proof {
            reveal(be32);
            reveal(grows);
            assert(self.buf@ =~= old(self)@.put_u32(v));
            assert(self@.take(old(self)@.len() as int) =~= old(self)@);
        }
    }

    pub fn u64(&mut self, v: u64)
        ensures
            final(self)@ == old(self)@.put_u64(v),
            grows(old(self)@, final(self)@),
    {
        self.u32((v / 0x1_0000_0000) as u32);
        self.u32((v % 0x1_0000_0000) as u32);
        proof {
            broadcast use group_grows;

            assert(self@ =~= old(self)@.put_u64(v));
        }
    }

    pub fn bool(&mut self, v: bool)
        ensures
            final(self)@ == old(self)@.put_bool(v),
            grows(old(self)@, final(self)@),
    {
        self.u32(if v { 1 } else { 0 });
    }

    /// Variable-length opaque: length, data, zero padding to four bytes.
    pub fn opaque(&mut self, data: &[u8])
        ensures
            final(self)@ == old(self)@.put_opaque(data@),
            grows(old(self)@, final(self)@),
    {
        broadcast use group_grows;

        self.u32((data.len() as u64 % 0x1_0000_0000) as u32);
        self.fixed(data);
    }

    /// Fixed-length opaque: data and padding, no length.
    pub fn fixed(&mut self, data: &[u8])
        ensures
            final(self)@ == old(self)@.put_fixed(data@),
            grows(old(self)@, final(self)@),
    {
        self.buf.extend_from_slice(data);
        proof {
            assert(self.buf@ =~= old(self)@ + data@);
        }
        self.pad(data.len());
        proof {
            reveal(grows);
            assert(self@.take(old(self)@.len() as int) =~= old(self)@);
        }
    }
}

/// The only way a read fails: the bytes run out, or a length is over its cap.
#[derive(Debug, Clone, Copy, PartialEq, Eq, Structural)]
pub struct XdrError;

/// The first `n` bytes, if there are that many, and what is left.
pub open spec fn get_take(s: Seq<u8>, n: nat) -> (Option<Seq<u8>>, Seq<u8>) {
    if n <= s.len() {
        (Some(s.take(n as int)), s.skip(n as int))
    } else {
        (None, s)
    }
}

pub open spec fn get_u32(s: Seq<u8>) -> (Option<u32>, Seq<u8>) {
    if s.len() < 4 {
        (None, s)
    } else {
        (Some(de32(s)), s.skip(4))
    }
}

pub open spec fn get_u64(s: Seq<u8>) -> (Option<u64>, Seq<u8>) {
    if s.len() < 8 {
        (None, s)
    } else {
        (Some(de64(s)), s.skip(8))
    }
}

pub open spec fn get_bool(s: Seq<u8>) -> (Option<bool>, Seq<u8>) {
    match get_u32(s) {
        (Some(v), rest) => (Some(v != 0), rest),
        (None, rest) => (None, rest),
    }
}

/// `n` bytes and their padding. A read that fails on the padding has consumed the data.
pub open spec fn get_fixed(s: Seq<u8>, n: nat) -> (Option<Seq<u8>>, Seq<u8>) {
    match get_take(s, n) {
        (Some(data), s1) => match get_take(s1, pad_len(n)) {
            (Some(_), s2) => (Some(data), s2),
            (None, s2) => (None, s2),
        },
        (None, s1) => (None, s1),
    }
}

/// A length of at most `max`, that many bytes and their padding. A read that fails on the
/// length's cap or on the data has consumed the length.
pub open spec fn get_opaque(s: Seq<u8>, max: nat) -> (Option<Seq<u8>>, Seq<u8>) {
    match get_u32(s) {
        (Some(len), s1) => if len <= max {
            get_fixed(s1, len as nat)
        } else {
            (None, s1)
        },
        (None, s1) => (None, s1),
    }
}

/// Decodes XDR primitives from a byte slice.
#[derive(Debug)]
pub struct XdrReader<'a> {
    /// What has not been read yet.
    buf: &'a [u8],
}

impl<'a> XdrReader<'a> {
    /// The bytes not read yet.
    pub closed spec fn view(&self) -> Seq<u8> {
        self.buf@
    }

    pub fn new(buf: &'a [u8]) -> (r: Self)
        ensures
            r@ == buf@,
    {
        XdrReader { buf }
    }

    /// Independent reader at the same position.
    pub fn clone_reader(&self) -> (r: XdrReader<'a>)
        ensures
            r@ == self@,
    {
        XdrReader { buf: self.buf }
    }

    pub fn remaining(&self) -> (n: usize)
        ensures
            n == self@.len(),
    {
        self.buf.len()
    }

    fn take(&mut self, n: usize) -> (res: Result<&'a [u8], XdrError>)
        ensures
            match res {
                Ok(s) => get_take(old(self)@, n as nat) == (Some(s@), final(self)@),
                Err(_) => get_take(old(self)@, n as nat) == (None::<Seq<u8>>, final(self)@),
            },
    {
        if n > self.buf.len() {
            return Err(XdrError);
        }
        let s = slice_subrange(self.buf, 0, n);
        let rest = slice_subrange(self.buf, n, self.buf.len());
        self.buf = rest;
        proof {
            assert(s@ =~= old(self)@.take(n as int));
            assert(rest@ =~= old(self)@.skip(n as int));
        }
        Ok(s)
    }

    pub fn u32(&mut self) -> (res: Result<u32, XdrError>)
        ensures
            match res {
                Ok(v) => get_u32(old(self)@) == (Some(v), final(self)@),
                Err(_) => get_u32(old(self)@) == (None::<u32>, final(self)@),
            },
    {
        let b = self.take(4)?;
        proof {
            reveal(de32);
        }
        Ok(b[0] as u32 * 0x100_0000 + b[1] as u32 * 0x1_0000 + b[2] as u32 * 0x100 + b[3] as u32)
    }

    pub fn u64(&mut self) -> (res: Result<u64, XdrError>)
        ensures
            match res {
                Ok(v) => get_u64(old(self)@) == (Some(v), final(self)@),
                Err(_) => get_u64(old(self)@) == (None::<u64>, final(self)@),
            },
    {
        if self.buf.len() < 8 {
            return Err(XdrError);
        }
        let hi: u32 = self.u32()?;
        let lo: u32 = self.u32()?;
        proof {
            assert(old(self)@.skip(4).skip(4) =~= old(self)@.skip(8));
        }
        Ok(hi as u64 * 0x1_0000_0000 + lo as u64)
    }

    pub fn bool(&mut self) -> (res: Result<bool, XdrError>)
        ensures
            match res {
                Ok(v) => get_bool(old(self)@) == (Some(v), final(self)@),
                Err(_) => get_bool(old(self)@) == (None::<bool>, final(self)@),
            },
    {
        Ok(self.u32()? != 0)
    }

    /// Variable-length opaque with a cap on its length.
    pub fn opaque(&mut self, max: usize) -> (res: Result<&'a [u8], XdrError>)
        ensures
            match res {
                Ok(d) => get_opaque(old(self)@, max as nat) == (Some(d@), final(self)@),
                Err(_) => get_opaque(old(self)@, max as nat) == (None::<Seq<u8>>, final(self)@),
            },
    {
        let len: u32 = self.u32()?;
        if len as u64 > max as u64 {
            return Err(XdrError);
        }
        self.fixed(len as usize)
    }

    pub fn fixed(&mut self, n: usize) -> (res: Result<&'a [u8], XdrError>)
        ensures
            match res {
                Ok(d) => get_fixed(old(self)@, n as nat) == (Some(d@), final(self)@),
                Err(_) => get_fixed(old(self)@, n as nat) == (None::<Seq<u8>>, final(self)@),
            },
    {
        let data = self.take(n)?;
        let rem: usize = n % 4;
        if rem != 0 {
            let _pad = self.take(4 - rem)?;
        } else {
            proof {
                assert(self@.skip(0) =~= self@);
            }
        }
        Ok(data)
    }

    /// Skip an opaque item of at most `max` bytes.
    pub fn skip_opaque(&mut self, max: usize) -> (res: Result<(), XdrError>)
        ensures
            match res {
                Ok(_) => get_opaque(old(self)@, max as nat).0 is Some,
                Err(_) => get_opaque(old(self)@, max as nat).0 is None,
            },
            final(self)@ == get_opaque(old(self)@, max as nat).1,
    {
        let _data = self.opaque(max)?;
        Ok(())
    }
}

/// Reading a number gives back the number that was written, and leaves what followed it.
pub proof fn u32_round_trip(v: u32, rest: Seq<u8>)
    ensures
        get_u32(Seq::<u8>::empty().put_u32(v) + rest) == (Some(v), rest),
{
    broadcast use be32_len;

    let s = Seq::<u8>::empty().put_u32(v) + rest;
    assert(s =~= be32(v) + rest);
    assert(s.skip(4) =~= rest);
    de32_be32(v, rest);
}

/// Reading a 64-bit number gives back the number that was written, and leaves what followed it.
pub proof fn u64_round_trip(v: u64, rest: Seq<u8>)
    ensures
        get_u64(Seq::<u8>::empty().put_u64(v) + rest) == (Some(v), rest),
{
    broadcast use be32_len;

    let s = Seq::<u8>::empty().put_u64(v) + rest;
    let hi = (v / 0x1_0000_0000) as u32;
    let lo = (v % 0x1_0000_0000) as u32;
    assert(s =~= be32(hi) + (be32(lo) + rest));
    assert(s.skip(4) =~= be32(lo) + rest);
    assert(s.skip(8) =~= rest);
    de32_be32(hi, be32(lo) + rest);
    de32_be32(lo, rest);
}

/// Reading a truth value gives back the one that was written, and leaves what followed it.
pub proof fn bool_round_trip(v: bool, rest: Seq<u8>)
    ensures
        get_bool(Seq::<u8>::empty().put_bool(v) + rest) == (Some(v), rest),
{
    u32_round_trip(if v { 1 } else { 0 }, rest);
}

/// Reading as many fixed bytes as were written gives them back, and leaves what followed them.
pub proof fn fixed_round_trip(data: Seq<u8>, rest: Seq<u8>)
    ensures
        get_fixed(Seq::<u8>::empty().put_fixed(data) + rest, data.len()) == (Some(data), rest),
{
    let s = Seq::<u8>::empty().put_fixed(data) + rest;
    let p = pad_len(data.len());
    assert(s.take(data.len() as int) =~= data);
    let s1 = s.skip(data.len() as int);
    assert(s1.skip(p as int) =~= rest);
}

/// Reading an opaque item gives back the data that was written wherever the cap allows its
/// length, and leaves what followed it.
pub proof fn opaque_round_trip(data: Seq<u8>, max: nat, rest: Seq<u8>)
    requires
        data.len() <= u32::MAX,
        data.len() <= max,
    ensures
        get_opaque(Seq::<u8>::empty().put_opaque(data) + rest, max) == (Some(data), rest),
{
    broadcast use be32_len;

    let n = data.len() as u32;
    let tail = Seq::<u8>::empty().put_fixed(data) + rest;
    assert(Seq::<u8>::empty().put_opaque(data) + rest =~= Seq::<u8>::empty().put_u32(n) + tail);
    u32_round_trip(n, tail);
    fixed_round_trip(data, rest);
}

/// An opaque item over the cap is refused.
pub proof fn opaque_over_cap_refused(data: Seq<u8>, max: nat, rest: Seq<u8>)
    requires
        data.len() <= u32::MAX,
        data.len() > max,
    ensures
        get_opaque(Seq::<u8>::empty().put_opaque(data) + rest, max).0 is None,
{
    broadcast use be32_len;

    let n = data.len() as u32;
    let tail = Seq::<u8>::empty().put_fixed(data) + rest;
    assert(Seq::<u8>::empty().put_opaque(data) + rest =~= Seq::<u8>::empty().put_u32(n) + tail);
    u32_round_trip(n, tail);
}

/// Whatever is written onto aligned bytes leaves them aligned to four bytes.
pub proof fn writes_keep_alignment(s: Seq<u8>, a: u32, b: u64, c: bool, data: Seq<u8>)
    requires
        s.len() % 4 == 0,
    ensures
        s.put_u32(a).len() % 4 == 0,
        s.put_u64(b).len() % 4 == 0,
        s.put_bool(c).len() % 4 == 0,
        s.put_fixed(data).len() % 4 == 0,
        s.put_opaque(data).len() % 4 == 0,
{
    broadcast use be32_len;

}

/// What a read leaves is always a tail of what there was: no read passes the end.
pub proof fn reads_leave_a_tail(s: Seq<u8>, n: nat)
    ensures
        exists|k: int| 0 <= k <= s.len() && get_u32(s).1 == #[trigger] s.skip(k),
        exists|k: int| 0 <= k <= s.len() && get_u64(s).1 == #[trigger] s.skip(k),
        exists|k: int| 0 <= k <= s.len() && get_fixed(s, n).1 == #[trigger] s.skip(k),
        exists|k: int| 0 <= k <= s.len() && get_opaque(s, n).1 == #[trigger] s.skip(k),
{
    assert(s.skip(0) =~= s);
    fixed_leaves_a_tail(s, n);
    match get_u32(s) {
        (Some(len), s1) => {
            if len <= n {
                fixed_leaves_a_tail(s1, len as nat);
                let k = choose|k: int| 0 <= k <= s1.len() && get_fixed(s1, len as nat).1 == #[trigger] s1.skip(k);
                assert(s.skip(4).skip(k) =~= s.skip(4 + k));
            }
        },
        (None, _) => {},
    }
}

proof fn fixed_leaves_a_tail(s: Seq<u8>, n: nat)
    ensures
        exists|k: int| 0 <= k <= s.len() && get_fixed(s, n).1 == #[trigger] s.skip(k),
{
    assert(s.skip(0) =~= s);
    if n <= s.len() {
        assert(s.skip(n as int).skip(pad_len(n) as int) =~= s.skip(n as int + pad_len(n) as int)
            || pad_len(n) > s.skip(n as int).len());
    }
}

} // verus!
