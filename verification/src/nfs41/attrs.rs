//! NFSv4 attributes (RFC 5661 §5): bitmaps, the attributes this server returns, and the ones a
//! client may set.
use crate::fnv::{fnv, mix, one_change_rotates, FNV_BASIS};
use crate::surface::{no_change, FsStat, SetAttr};
use crate::text::{dec_digits, decimal, number_in, parse_number};
use crate::types::{Attr, Kind, Ts};
use crate::xdr::{
    grows, be32_len, de32, get_opaque, get_u32, get_u64, u32_round_trip, Wire, XdrError, XdrReader,
    XdrWriter,
};
use vstd::prelude::*;

verus! {

broadcast use crate::xdr::group_grows;

pub const A_SUPPORTED_ATTRS: u32 = 0;

pub const A_TYPE: u32 = 1;

pub const A_FH_EXPIRE_TYPE: u32 = 2;

pub const A_CHANGE: u32 = 3;

pub const A_SIZE: u32 = 4;

pub const A_LINK_SUPPORT: u32 = 5;

pub const A_SYMLINK_SUPPORT: u32 = 6;

pub const A_NAMED_ATTR: u32 = 7;

pub const A_FSID: u32 = 8;

pub const A_UNIQUE_HANDLES: u32 = 9;

pub const A_LEASE_TIME: u32 = 10;

pub const A_RDATTR_ERROR: u32 = 11;

pub const A_ACLSUPPORT: u32 = 13;

pub const A_CANSETTIME: u32 = 15;

pub const A_CASE_INSENSITIVE: u32 = 16;

pub const A_CASE_PRESERVING: u32 = 17;

pub const A_CHOWN_RESTRICTED: u32 = 18;

pub const A_FILEHANDLE: u32 = 19;

pub const A_FILEID: u32 = 20;

pub const A_FILES_AVAIL: u32 = 21;

pub const A_FILES_FREE: u32 = 22;

pub const A_FILES_TOTAL: u32 = 23;

pub const A_MAXFILESIZE: u32 = 27;

pub const A_MAXLINK: u32 = 28;

pub const A_MAXNAME: u32 = 29;

pub const A_MAXREAD: u32 = 30;

pub const A_MAXWRITE: u32 = 31;

pub const A_MODE: u32 = 33;

pub const A_NO_TRUNC: u32 = 34;

pub const A_NUMLINKS: u32 = 35;

pub const A_OWNER: u32 = 36;

pub const A_OWNER_GROUP: u32 = 37;

pub const A_RAWDEV: u32 = 41;

pub const A_SPACE_AVAIL: u32 = 42;

pub const A_SPACE_FREE: u32 = 43;

pub const A_SPACE_TOTAL: u32 = 44;

pub const A_SPACE_USED: u32 = 45;

pub const A_TIME_ACCESS: u32 = 47;

pub const A_TIME_ACCESS_SET: u32 = 48;

pub const A_TIME_DELTA: u32 = 51;

pub const A_TIME_METADATA: u32 = 52;

pub const A_TIME_MODIFY: u32 = 53;

pub const A_TIME_MODIFY_SET: u32 = 54;

pub const A_MOUNTED_ON_FILEID: u32 = 55;

pub const A_SUPPATTR_EXCLCREAT: u32 = 75;

pub const LEASE_TIME: u32 = 90;

pub const MAX_READ: u32 = 0x10_0000;

pub const MAX_WRITE: u32 = 0x10_0000;

/// Attributes this server can return.
pub open spec fn is_supported(a: u32) -> bool {
    a <= 11 || a == 13 || 15 <= a <= 23 || 27 <= a <= 31 || 33 <= a <= 37 || 41 <= a <= 45 || a
        == 47 || 51 <= a <= 53 || a == 55 || a == 75
}

/// Attributes a client may set.
pub open spec fn is_settable(a: u32) -> bool {
    a == A_SIZE || a == A_MODE || a == A_OWNER || a == A_OWNER_GROUP || a == A_TIME_ACCESS_SET || a
        == A_TIME_MODIFY_SET
}

/// Bit `i` of a word.
pub open spec fn bit(w: u32, i: u32) -> bool {
    w & (1u32 << i) != 0
}

/// Whether attribute `a` is in the bitmap of three words.
pub open spec fn in_words(words: Seq<u32>, a: u32) -> bool {
    a < 96 && bit(words[(a / 32) as int], a % 32)
}

/// A set of attribute numbers below 96.
#[derive(Debug, Clone, Copy, Default, PartialEq, Eq)]
pub struct Bitmap {
    pub words: [u32; 3],
}

proof fn bit_or(w: u32, i: u32, j: u32)
    by (bit_vector)
    requires
        i < 32,
        j < 32,
    ensures
        ((w | (1u32 << i)) & (1u32 << j) != 0) == (w & (1u32 << j) != 0 || i == j),
{
}

proof fn bit_and(v: u32, w: u32, j: u32)
    by (bit_vector)
    requires
        j < 32,
    ensures
        ((v & w) & (1u32 << j) != 0) == (v & (1u32 << j) != 0 && w & (1u32 << j) != 0),
{
}

proof fn bit_zero(j: u32)
    by (bit_vector)
    ensures
        0u32 & (1u32 << j) == 0,
{
}

/// The words of the supported attributes.
pub open spec fn supported_words() -> Seq<u32> {
    seq![0xf8ff_afffu32, 0x00b8_be3e, 0x800]
}

/// The words of the settable attributes.
pub open spec fn settable_words() -> Seq<u32> {
    seq![0x10u32, 0x0041_0032, 0]
}

/// [`supported_words`] holds exactly the supported attributes.
pub proof fn supported_words_are_supported(a: u32)
    ensures
        in_words(supported_words(), a) == is_supported(a),
{
    if a < 32 {
        assert(a < 32 ==> ((0xf8ff_afffu32 & (1u32 << a) != 0) == (a <= 11 || a == 13 || 15 <= a && a
            <= 23 || 27 <= a && a <= 31))) by (bit_vector);
    } else if a < 64 {
        let b = (a % 32) as u32;
        assert(b < 32 ==> ((0x00b8_be3eu32 & (1u32 << b) != 0) == (1 <= b && b <= 5 || 9 <= b && b
            <= 13 || b == 15 || 19 <= b && b <= 21 || b == 23))) by (bit_vector);
        assert(b == a - 32);
    } else if a < 96 {
        let b = (a % 32) as u32;
        assert(b < 32 ==> ((0x800u32 & (1u32 << b) != 0) == (b == 11))) by (bit_vector);
        assert(b == a - 64);
    }
}

/// [`settable_words`] holds exactly the settable attributes.
pub proof fn settable_words_are_settable(a: u32)
    ensures
        in_words(settable_words(), a) == is_settable(a),
{
    if a < 32 {
        assert(a < 32 ==> ((0x10u32 & (1u32 << a) != 0) == (a == 4))) by (bit_vector);
    } else if a < 64 {
        let b = (a % 32) as u32;
        assert(b < 32 ==> ((0x0041_0032u32 & (1u32 << b) != 0) == (b == 1 || b == 4 || b == 5 || b
            == 16 || b == 22))) by (bit_vector);
        assert(b == a - 32);
    } else if a < 96 {
        bit_zero((a % 32) as u32);
    }
}

/// How many words a bitmap takes on the wire: trailing zero words are left out, down to one.
pub open spec fn words_sent(words: Seq<u32>) -> nat {
    if words[2] != 0 {
        3
    } else if words[1] != 0 {
        2
    } else {
        1
    }
}

pub open spec fn put_bitmap(s: Seq<u8>, words: Seq<u32>) -> Seq<u8> {
    let n = words_sent(words);
    let s1 = s.put_u32(n as u32).put_u32(words[0]);
    if n == 1 {
        s1
    } else if n == 2 {
        s1.put_u32(words[1])
    } else {
        s1.put_u32(words[1]).put_u32(words[2])
    }
}

/// A bitmap on the wire: at most sixteen words, of which the first three count; words left out
/// are zero. `None` where the bytes run out or the count is over.
pub open spec fn bitmap_of(s: Seq<u8>) -> Option<(Seq<u32>, Seq<u8>)> {
    match get_u32(s) {
        (Some(n), s1) => if n <= 16 && 4 * n <= s1.len() {
            Some((
                Seq::new(
                    3,
                    |i: int|
                        if i < n {
                            de32(s1.skip(4 * i))
                        } else {
                            0
                        },
                ),
                s1.skip(4 * n),
            ))
        } else {
            None
        },
        (None, _) => None,
    }
}

impl Bitmap {
    /// Whether the bitmap holds `a`.
    pub open spec fn holds(&self, a: u32) -> bool {
        in_words(self.words@, a)
    }

    pub fn empty() -> (b: Bitmap)
        ensures
            b.words@ == seq![0u32, 0, 0],
            forall|a: u32| !b.holds(a),
    {
        let b = Bitmap { words: [0, 0, 0] };
        proof {
            assert(b.words@ =~= seq![0u32, 0, 0]);
            assert forall|a: u32| !b.holds(a) by {
                bit_zero(a % 32);
            }
        }
        b
    }

    pub fn from_attrs(attrs: &[u32]) -> (b: Self)
        ensures
            forall|a: u32| b.holds(a) == (a < 96 && attrs@.contains(a)),
    {
        let mut b = Bitmap::empty();
        let mut i: usize = 0;
        while i < attrs.len()
            invariant
                i <= attrs@.len(),
                forall|a: u32| b.holds(a) == (a < 96 && attrs@.take(i as int).contains(a)),
            decreases attrs@.len() - i,
        {
            b.set(attrs[i]);
            proof {
                let t = attrs@.take(i as int);
                let t1 = attrs@.take(i + 1);
                assert(t1 =~= t.push(attrs@[i as int]));
                assert forall|a: u32| t1.contains(a) == (t.contains(a) || a == attrs@[i as int]) by {
                    if t.contains(a) {
                        let k = t.index_of(a);
                        assert(t1[k] == a);
                    }
                    if a == attrs@[i as int] {
                        assert(t1[i as int] == a);
                    }
                    if t1.contains(a) {
                        let k = t1.index_of(a);
                        if k < i {
                            assert(t[k] == a);
                        }
                    }
                }
            }
            i = i + 1;
        }
        proof {
            assert(attrs@.take(i as int) =~= attrs@);
        }
        b
    }

    /// Add an attribute; one that is 96 or over is left out.
    pub fn set(&mut self, attr: u32)
        ensures
            forall|a: u32| final(self).holds(a) == (old(self).holds(a) || (a == attr && attr < 96)),
    {
        let w: usize = (attr / 32) as usize;
        if w < 3 {
            let word: u32 = self.words[w];
            self.words[w] = word | (1u32 << (attr % 32));
            proof {
                assert forall|a: u32|
                    self.holds(a) == (old(self).holds(a) || (a == attr && attr < 96)) by {
                    if a < 96 {
                        bit_or(word, attr % 32, a % 32);
                    }
                }
            }
        }
    }

    pub fn has(&self, attr: u32) -> (r: bool)
        ensures
            r == self.holds(attr),
    {
        let w: usize = (attr / 32) as usize;
        w < 3 && self.words[w] & (1u32 << (attr % 32)) != 0
    }

    /// What both bitmaps hold.
    pub fn intersect(&self, other: &Bitmap) -> (b: Bitmap)
        ensures
            b.words@ == seq![
                self.words@[0] & other.words@[0],
                self.words@[1] & other.words@[1],
                self.words@[2] & other.words@[2],
            ],
            forall|a: u32| b.holds(a) == (self.holds(a) && other.holds(a)),
    {
        let b = Bitmap {
            words: [
                self.words[0] & other.words[0],
                self.words[1] & other.words[1],
                self.words[2] & other.words[2],
            ],
        };
        proof {
            assert(b.words@ =~= seq![
                self.words@[0] & other.words@[0],
                self.words@[1] & other.words@[1],
                self.words@[2] & other.words@[2],
            ]);
            assert forall|a: u32| b.holds(a) == (self.holds(a) && other.holds(a)) by {
                if a < 96 {
                    let w = (a / 32) as int;
                    bit_and(self.words@[w], other.words@[w], a % 32);
                }
            }
        }
        b
    }

    pub fn encode(&self, w: &mut XdrWriter)
        ensures
            grows(old(w)@, final(w)@),
            final(w)@ == put_bitmap(old(w)@, self.words@),
    {
        let n: u32 = if self.words[2] != 0 {
            3
        } else if self.words[1] != 0 {
            2
        } else {
            1
        };
        w.u32(n);
        w.u32(self.words[0]);
        if n > 1 {
            w.u32(self.words[1]);
        }
        if n > 2 {
            w.u32(self.words[2]);
        }
    }

    pub fn decode(r: &mut XdrReader<'_>) -> (res: Result<Bitmap, XdrError>)
        ensures
            match res {
                Ok(b) => bitmap_of(old(r)@) == Some((b.words@, final(r)@)),
                Err(_) => bitmap_of(old(r)@) is None,
            },
    {
        let n: u32 = r.u32()?;
        if n > 16 {
            return Err(XdrError);
        }
        let ghost s1 = r@;
        let mut b = Bitmap { words: [0, 0, 0] };
        let mut i: u32 = 0;
        proof {
            assert(s1.skip(0) =~= s1);
        }
        while i < n
            invariant
                i <= n <= 16,
                4 * i <= s1.len(),
                r@ == s1.skip(4 * i),
                get_u32(old(r)@) == (Some(n), s1),
                forall|k: int|
                    0 <= k < 3 ==> #[trigger] b.words@[k] == (if k < i {
                        de32(s1.skip(4 * k))
                    } else {
                        0
                    }),
            decreases n - i,
        {
            let v: u32 = r.u32()?;
            proof {
                assert(s1.skip(4 * i).skip(4) =~= s1.skip(4 * (i + 1)));
            }
            if i < 3 {
                b.words[i as usize] = v;
            }
            i = i + 1;
        }
        proof {
            assert(b.words@ =~= bitmap_of(old(r)@).unwrap().0);
        }
        Ok(b)
    }

    /// The attributes held, in ascending order: the order of the values in a fattr4.
    pub fn iter(&self) -> (list: Vec<u32>)
        ensures
            forall|i: int, j: int| 0 <= i < j < list@.len() ==> list@[i] < list@[j],
            forall|a: u32| list@.contains(a) == self.holds(a),
    {
        let mut list: Vec<u32> = Vec::new();
        let mut a: u32 = 0;
        while a < 96
            invariant
                a <= 96,
                forall|i: int, j: int| 0 <= i < j < list@.len() ==> list@[i] < list@[j],
                forall|i: int| 0 <= i < list@.len() ==> list@[i] < a,
                forall|b: u32| list@.contains(b) == (b < a && self.holds(b)),
            decreases 96 - a,
        {
            let ghost before = list@;
            if self.has(a) {
                list.push(a);
                proof {
                    assert forall|b: u32| list@.contains(b) == (b < a + 1 && self.holds(b)) by {
                        if before.contains(b) {
                            let k = before.index_of(b);
                            assert(list@[k] == b);
                        }
                        if b == a {
                            assert(list@[before.len() as int] == b);
                        }
                        if list@.contains(b) {
                            let k = list@.index_of(b);
                            if k < before.len() {
                                assert(before[k] == b);
                            }
                        }
                    }
                }
            }
            a = a + 1;
        }
        list
    }
}

/// A bitmap read back from the wire is the one that was written.
pub proof fn bitmap_round_trip(words: Seq<u32>, rest: Seq<u8>)
    requires
        words.len() == 3,
    ensures
        bitmap_of(put_bitmap(Seq::empty(), words) + rest) == Some((words, rest)),
{
    broadcast use be32_len;

    let e = Seq::<u8>::empty();
    let n = words_sent(words) as u32;
    let b3 = rest;
    let b2 = if n > 2 {
        e.put_u32(words[2]) + b3
    } else {
        b3
    };
    let b1 = if n > 1 {
        e.put_u32(words[1]) + b2
    } else {
        b2
    };
    let b0 = e.put_u32(words[0]) + b1;
    let s = put_bitmap(e, words) + rest;
    assert(s =~= e.put_u32(n) + b0);
    u32_round_trip(n, b0);
    u32_round_trip(words[0], b1);
    assert(b0.skip(0) =~= b0);
    assert(b0.skip(4) =~= b1);
    if n > 1 {
        u32_round_trip(words[1], b2);
        assert(b0.skip(8) =~= b2);
    }
    if n > 2 {
        u32_round_trip(words[2], b3);
        assert(b0.skip(12) =~= b3);
    }
    assert(bitmap_of(s).unwrap().0 =~= words);
}

/// The words that the change attribute mixes: modification time, change time, size.
pub open spec fn change_words(a: Attr) -> Seq<u64> {
    seq![
        a.mtime.sec as u64,
        a.mtime.nsec as u64,
        a.ctime.sec as u64,
        a.ctime.nsec as u64,
        a.size,
    ]
}

/// The change attribute.
pub open spec fn change_attr(a: Attr) -> u64 {
    fnv(FNV_BASIS, change_words(a))
}

pub fn change_of(a: &Attr) -> (h: u64)
    ensures
        h == change_attr(*a),
{
    proof {
        reveal_with_fuel(fnv, 6);
        let w = change_words(*a);
        assert(w.drop_last().drop_last().drop_last().drop_last().drop_last() =~= Seq::<u64>::empty());
    }
    let h: u64 = mix(FNV_BASIS, #[verifier::truncate] (a.mtime.sec as u64));
    let h: u64 = mix(h, a.mtime.nsec as u64);
    let h: u64 = mix(h, #[verifier::truncate] (a.ctime.sec as u64));
    let h: u64 = mix(h, a.ctime.nsec as u64);
    mix(h, a.size)
}

/// The change attribute differs whenever exactly one of the seconds and nanoseconds of the two
/// times and the size differs.
pub proof fn change_attr_rotates(a: Attr, b: Attr, at: int)
    requires
        0 <= at < 5,
        change_words(a)[at] != change_words(b)[at],
        forall|i: int| 0 <= i < 5 && i != at ==> change_words(a)[i] == change_words(b)[i],
    ensures
        change_attr(a) != change_attr(b),
{
    one_change_rotates(FNV_BASIS, change_words(a), change_words(b), at);
}

pub open spec fn type_number(k: Kind) -> u32 {
    match k {
        Kind::Reg => 1,
        Kind::Dir => 2,
        Kind::Blk => 3,
        Kind::Chr => 4,
        Kind::Symlink => 5,
        Kind::Sock => 6,
        Kind::Fifo => 7,
    }
}

fn type_of(k: Kind) -> (t: u32)
    ensures
        t == type_number(k),
{
    match k {
        Kind::Reg => 1,
        Kind::Dir => 2,
        Kind::Blk => 3,
        Kind::Chr => 4,
        Kind::Symlink => 5,
        Kind::Sock => 6,
        Kind::Fifo => 7,
    }
}

pub open spec fn put_time4(s: Seq<u8>, t: Ts) -> Seq<u8> {
    s.put_u64(t.sec as u64).put_u32(t.nsec)
}

/// What the attributes of one node are taken from.
#[derive(Clone, Copy)]
pub struct Source<F> {
    pub attr: Attr,
    pub fileid: u64,
    pub share: u16,
    /// The node's handle, where there is one to give.
    pub fh: Option<F>,
    pub fsstat: FsStat,
}

impl<'a> Source<&'a [u8]> {
    pub open spec fn view(&self) -> Source<Seq<u8>> {
        Source {
            attr: self.attr,
            fileid: self.fileid,
            share: self.share,
            fh: match self.fh {
                Some(fh) => Some(fh@),
                None => None,
            },
            fsstat: self.fsstat,
        }
    }
}

/// The value of one supported attribute. The access time is the modification time; owner and
/// group are decimal numbers; the space used is the blocks times 512 (modulo 2^64).
pub open spec fn put_attr(s: Seq<u8>, a: u32, src: Source<Seq<u8>>) -> Seq<u8> {
    let attr = src.attr;
    let fs = src.fsstat;
    if a == A_SUPPORTED_ATTRS {
        put_bitmap(s, supported_words())
    } else if a == A_TYPE {
        s.put_u32(type_number(attr.kind))
    } else if a == A_FH_EXPIRE_TYPE || a == A_RDATTR_ERROR || a == A_ACLSUPPORT {
        s.put_u32(0)
    } else if a == A_CHANGE {
        s.put_u64(change_attr(attr))
    } else if a == A_SIZE {
        s.put_u64(attr.size)
    } else if a == A_LINK_SUPPORT || a == A_SYMLINK_SUPPORT || a == A_CANSETTIME || a
        == A_CASE_PRESERVING || a == A_CHOWN_RESTRICTED || a == A_NO_TRUNC {
        s.put_bool(true)
    } else if a == A_NAMED_ATTR || a == A_UNIQUE_HANDLES || a == A_CASE_INSENSITIVE {
        s.put_bool(false)
    } else if a == A_FSID {
        s.put_u64(0x4D53_5400 | src.share as u64).put_u64(0)
    } else if a == A_LEASE_TIME {
        s.put_u32(LEASE_TIME)
    } else if a == A_FILEHANDLE {
        s.put_opaque(
            match src.fh {
                Some(fh) => fh,
                None => Seq::empty(),
            },
        )
    } else if a == A_FILEID || a == A_MOUNTED_ON_FILEID {
        s.put_u64(src.fileid)
    } else if a == A_FILES_AVAIL || a == A_FILES_FREE {
        s.put_u64(fs.free_files)
    } else if a == A_FILES_TOTAL {
        s.put_u64(fs.total_files)
    } else if a == A_MAXFILESIZE {
        s.put_u64(0x7fff_ffff_ffff_ffff)
    } else if a == A_MAXLINK {
        s.put_u32(32000)
    } else if a == A_MAXNAME {
        s.put_u32(255)
    } else if a == A_MAXREAD {
        s.put_u64(MAX_READ as u64)
    } else if a == A_MAXWRITE {
        s.put_u64(MAX_WRITE as u64)
    } else if a == A_MODE {
        s.put_u32(attr.mode as u32 & 0o7777)
    } else if a == A_NUMLINKS {
        s.put_u32(attr.nlink)
    } else if a == A_OWNER {
        s.put_opaque(dec_digits(attr.uid as nat))
    } else if a == A_OWNER_GROUP {
        s.put_opaque(dec_digits(attr.gid as nat))
    } else if a == A_RAWDEV {
        s.put_u32((attr.rdev >> 32) as u32).put_u32(attr.rdev as u32)
    } else if a == A_SPACE_AVAIL {
        s.put_u64(fs.avail_bytes)
    } else if a == A_SPACE_FREE {
        s.put_u64(fs.free_bytes)
    } else if a == A_SPACE_TOTAL {
        s.put_u64(fs.total_bytes)
    } else if a == A_SPACE_USED {
        s.put_u64((attr.blocks * 512 % 0x1_0000_0000_0000_0000) as u64)
    } else if a == A_TIME_ACCESS || a == A_TIME_MODIFY {
        put_time4(s, attr.mtime)
    } else if a == A_TIME_DELTA {
        s.put_u64(0).put_u32(1)
    } else if a == A_TIME_METADATA {
        put_time4(s, attr.ctime)
    } else if a == A_SUPPATTR_EXCLCREAT {
        put_bitmap(s, settable_words())
    } else {
        s
    }
}

fn time4(w: &mut XdrWriter, t: Ts)
    ensures
        grows(old(w)@, final(w)@),
        final(w)@ == put_time4(old(w)@, t),
{
    w.u64(#[verifier::truncate] (t.sec as u64));
    w.u32(t.nsec);
}

fn encode_one(w: &mut XdrWriter, a: u32, src: &Source<&[u8]>)
    ensures
        grows(old(w)@, final(w)@),
        final(w)@ == put_attr(old(w)@, a, src@),
{
    let attr = &src.attr;
    let fs = &src.fsstat;
    if a == A_SUPPORTED_ATTRS {
        let b = Bitmap { words: [0xf8ff_afff, 0x00b8_be3e, 0x800] };
        proof {
            assert(b.words@ =~= supported_words());
        }
        b.encode(w);
    } else if a == A_TYPE {
        w.u32(type_of(attr.kind));
    } else if a == A_FH_EXPIRE_TYPE || a == A_RDATTR_ERROR || a == A_ACLSUPPORT {
        w.u32(0);
    } else if a == A_CHANGE {
        w.u64(change_of(attr));
    } else if a == A_SIZE {
        w.u64(attr.size);
    } else if a == A_LINK_SUPPORT || a == A_SYMLINK_SUPPORT || a == A_CANSETTIME || a
        == A_CASE_PRESERVING || a == A_CHOWN_RESTRICTED || a == A_NO_TRUNC {
        w.bool(true);
    } else if a == A_NAMED_ATTR || a == A_UNIQUE_HANDLES || a == A_CASE_INSENSITIVE {
        w.bool(false);
    } else if a == A_FSID {
        w.u64(0x4D53_5400 | src.share as u64);
        w.u64(0);
    } else if a == A_LEASE_TIME {
        w.u32(LEASE_TIME);
    } else if a == A_FILEHANDLE {
        match src.fh {
            Some(fh) => w.opaque(fh),
            None => {
                let none: [u8; 0] = [];
                proof {
                    assert(none@ =~= Seq::<u8>::empty());
                }
                w.opaque(none.as_slice());
            },
        }
    } else if a == A_FILEID || a == A_MOUNTED_ON_FILEID {
        w.u64(src.fileid);
    } else if a == A_FILES_AVAIL || a == A_FILES_FREE {
        w.u64(fs.free_files);
    } else if a == A_FILES_TOTAL {
        w.u64(fs.total_files);
    } else if a == A_MAXFILESIZE {
        w.u64(0x7fff_ffff_ffff_ffff);
    } else if a == A_MAXLINK {
        w.u32(32000);
    } else if a == A_MAXNAME {
        w.u32(255);
    } else if a == A_MAXREAD {
        w.u64(MAX_READ as u64);
    } else if a == A_MAXWRITE {
        w.u64(MAX_WRITE as u64);
    } else if a == A_MODE {
        w.u32(attr.mode as u32 & 0o7777);
    } else if a == A_NUMLINKS {
        w.u32(attr.nlink);
    } else if a == A_OWNER {
        w.opaque(decimal(attr.uid as u64).as_slice());
    } else if a == A_OWNER_GROUP {
        w.opaque(decimal(attr.gid as u64).as_slice());
    } else if a == A_RAWDEV {
        w.u32(#[verifier::truncate] ((attr.rdev >> 32) as u32));
        w.u32(#[verifier::truncate] (attr.rdev as u32));
    } else if a == A_SPACE_AVAIL {
        w.u64(fs.avail_bytes);
    } else if a == A_SPACE_FREE {
        w.u64(fs.free_bytes);
    } else if a == A_SPACE_TOTAL {
        w.u64(fs.total_bytes);
    } else if a == A_SPACE_USED {
        w.u64(attr.blocks.wrapping_mul(512));
    } else if a == A_TIME_ACCESS || a == A_TIME_MODIFY {
        time4(w, attr.mtime);
    } else if a == A_TIME_DELTA {
        w.u64(0);
        w.u32(1);
    } else if a == A_TIME_METADATA {
        time4(w, attr.ctime);
    } else if a == A_SUPPATTR_EXCLCREAT {
        let b = Bitmap { words: [0x10, 0x0041_0032, 0] };
        proof {
            assert(b.words@ =~= settable_words());
        }
        b.encode(w);
    }
}

/// The attributes returned for a request: those supported, without the handle where there is
/// none to give.
pub open spec fn given(requested: Seq<u32>, has_fh: bool) -> Seq<u32> {
    let w0 = requested[0] & 0xf8ff_afff;
    seq![
        if has_fh {
            w0
        } else {
            w0 & 0xfff7_ffff
        },
        requested[1] & 0x00b8_be3e,
        requested[2] & 0x800,
    ]
}

/// The values of the attributes from `a` on, in ascending order.
pub open spec fn put_values(s: Seq<u8>, words: Seq<u32>, a: u32, src: Source<Seq<u8>>) -> Seq<u8>
    decreases 96 - a,
{
    if a >= 96 {
        s
    } else if in_words(words, a) {
        put_values(put_attr(s, a, src), words, (a + 1) as u32, src)
    } else {
        put_values(s, words, (a + 1) as u32, src)
    }
}

/// A fattr4: the bitmap of the attributes returned, and their values as one opaque item.
pub open spec fn put_fattr4(s: Seq<u8>, requested: Seq<u32>, src: Source<Seq<u8>>) -> Seq<u8> {
    let words = given(requested, src.fh is Some);
    put_bitmap(s, words).put_opaque(put_values(Seq::empty(), words, 0, src))
}

/// Encode a fattr4: what of `requested` is supported, in ascending order.
pub fn encode_fattr4(w: &mut XdrWriter, requested: &Bitmap, src: &Source<&[u8]>)
    ensures
        grows(old(w)@, final(w)@),
        final(w)@ == put_fattr4(old(w)@, requested.words@, src@),
{
    let mut w0: u32 = requested.words[0] & 0xf8ff_afff;
    if src.fh.is_none() {
        w0 = w0 & 0xfff7_ffff;
    }
    let giving = Bitmap {
        words: [w0, requested.words[1] & 0x00b8_be3e, requested.words[2] & 0x800],
    };
    proof {
        assert(giving.words@ =~= given(requested.words@, src@.fh is Some));
    }
    giving.encode(w);
    let mut vals = XdrWriter::new();
    let mut a: u32 = 0;
    while a < 96
        invariant
            a <= 96,
            put_values(vals@, giving.words@, a, src@) == put_values(
                Seq::empty(),
                giving.words@,
                0,
                src@,
            ),
        decreases 96 - a,
    {
        if giving.has(a) {
            encode_one(&mut vals, a, src);
        }
        a = a + 1;
    }
    w.opaque(vals.into_bytes().as_slice());
}

/// What is returned is exactly what is both requested and supported.
pub proof fn given_is_requested_and_supported(requested: Seq<u32>, a: u32)
    requires
        requested.len() == 3,
    ensures
        in_words(given(requested, true), a) == (in_words(requested, a) && is_supported(a)),
{
    supported_words_are_supported(a);
    if a < 96 {
        let w = (a / 32) as int;
        bit_and(requested[w], supported_words()[w], a % 32);
    }
}

/// The value of one settable attribute, applied to what was set before it. A size, mode, owner
/// or group is taken (an owner that is no number sets none); an access time is skipped; a
/// modification time is the client's, or `now` where the client leaves it to the server.
/// `None` for an attribute that cannot be set or a value that is cut short.
pub open spec fn set_one(a: u32, s: Seq<u8>, set: SetAttr, now: Ts) -> Option<(SetAttr, Seq<u8>)> {
    if a == A_SIZE {
        match get_u64(s) {
            (Some(v), rest) => Some((SetAttr { size: Some(v), ..set }, rest)),
            (None, _) => None,
        }
    } else if a == A_MODE {
        match get_u32(s) {
            (Some(v), rest) => Some((SetAttr { mode: Some((v & 0o7777) as u16), ..set }, rest)),
            (None, _) => None,
        }
    } else if a == A_OWNER {
        match get_opaque(s, 256) {
            (Some(t), rest) => Some((SetAttr { uid: id_in(t), ..set }, rest)),
            (None, _) => None,
        }
    } else if a == A_OWNER_GROUP {
        match get_opaque(s, 256) {
            (Some(t), rest) => Some((SetAttr { gid: id_in(t), ..set }, rest)),
            (None, _) => None,
        }
    } else if a == A_TIME_ACCESS_SET || a == A_TIME_MODIFY_SET {
        let (how, s1) = get_u32(s);
        let (sec, s2) = get_u64(s1);
        let (nsec, s3) = get_u32(s2);
        if how is None {
            None
        } else if how == Some(1u32) {
            if sec is None || nsec is None {
                None
            } else if a == A_TIME_MODIFY_SET {
                Some((SetAttr { mtime: Some(Ts { sec: sec->0 as i64, nsec: nsec->0 }), ..set }, s3))
            } else {
                Some((set, s3))
            }
        } else if a == A_TIME_MODIFY_SET {
            Some((SetAttr { mtime: Some(now), ..set }, s1))
        } else {
            Some((set, s1))
        }
    } else {
        None
    }
}

/// A user or group number written in decimal.
pub open spec fn id_in(t: Seq<u8>) -> Option<u32> {
    match number_in(t, u32::MAX as nat) {
        Some(n) => Some(n as u32),
        None => None,
    }
}

/// The values of the attributes from `a` on, applied in ascending order.
pub open spec fn set_from(words: Seq<u32>, a: u32, s: Seq<u8>, set: SetAttr, now: Ts) -> Option<
    SetAttr,
>
    decreases 96 - a,
{
    if a >= 96 {
        Some(set)
    } else if in_words(words, a) {
        match set_one(a, s, set, now) {
            Some((set1, s1)) => set_from(words, (a + 1) as u32, s1, set1, now),
            None => None,
        }
    } else {
        set_from(words, (a + 1) as u32, s, set, now)
    }
}

/// The `i`-th word of a byte string.
pub open spec fn wire_word(s: Seq<u8>, i: int) -> u32 {
    de32(s.skip(4 * i))
}

/// A bitmap on the wire has attributes past the third word, numbered 96 or more.
pub open spec fn reaches_past(s: Seq<u8>) -> bool {
    match get_u32(s) {
        (Some(n), s1) => exists|i: int| 3 <= i < n && #[trigger] wire_word(s1, i) != 0,
        (None, _) => false,
    }
}

/// A fattr4 of attributes to set: what it sets, its bitmap, and the bytes after it. None of the
/// attributes past the third word of a bitmap can be set.
pub open spec fn settable_of(s: Seq<u8>, now: Ts) -> Option<(SetAttr, Seq<u32>, Seq<u8>)> {
    match bitmap_of(s) {
        None => None,
        Some((words, s1)) => if reaches_past(s) {
            None
        } else {
            match get_opaque(s1, 65536) {
                (None, _) => None,
                (Some(vals), rest) => match set_from(words, 0, vals, no_change(), now) {
                    None => None,
                    Some(set) => Some((set, words, rest)),
                },
            }
        },
    }
}

/// Whether the bitmap that comes next, which can be read, has attributes past the third word.
fn does_reach_past(r: &XdrReader<'_>) -> (res: bool)
    requires
        bitmap_of(r@) is Some,
    ensures
        res == reaches_past(r@),
{
    let mut peek = r.clone_reader();
    let n: u32 = match peek.u32() {
        Ok(n) => n,
        Err(_) => {
            return false;
        },
    };
    let ghost s1 = peek@;
    let mut i: u32 = 0;
    proof {
        assert(s1.skip(0) =~= s1);
    }
    while i < n
        invariant
            i <= n <= 16,
            4 * n <= s1.len(),
            peek@ == s1.skip(4 * i),
            get_u32(r@) == (Some(n), s1),
            forall|k: int| 3 <= k < i ==> #[trigger] wire_word(s1, k) == 0,
        decreases n - i,
    {
        let v: u32 = match peek.u32() {
            Ok(v) => v,
            Err(_) => {
                return false;
            },
        };
        proof {
            assert(s1.skip(4 * i).skip(4) =~= s1.skip(4 * (i + 1)));
        }
        if i >= 3 && v != 0 {
            proof {
                let k = i as int;
                assert(3 <= k < n && wire_word(s1, k) != 0);
                let (head, rest) = get_u32(r@);
                assert(head == Some(n) && rest == s1);
                assert(exists|j: int| 3 <= j < n && #[trigger] wire_word(s1, j) != 0);
                assert(exists|j: int| 3 <= j < head->0 && #[trigger] wire_word(rest, j) != 0);
                assert(reaches_past(r@));
            }
            return true;
        }
        i = i + 1;
    }
    false
}


fn read_id(r: &mut XdrReader<'_>) -> (res: Result<Option<u32>, XdrError>)
    ensures
        match res {
            Ok(id) => ({
                let (t, rest) = get_opaque(old(r)@, 256);
                t is Some && id == id_in(t->0) && final(r)@ == rest
            }),
            Err(_) => get_opaque(old(r)@, 256).0 is None,
        },
{
    let t = r.opaque(256)?;
    match parse_number(t, 0xffff_ffff) {
        Some(v) => Ok(Some(v as u32)),
        None => Ok(None),
    }
}

fn decode_one(a: u32, r: &mut XdrReader<'_>, set: SetAttr, now: Ts) -> (res: Result<
    SetAttr,
    XdrError,
>)
    ensures
        match res {
            Ok(set1) => set_one(a, old(r)@, set, now) == Some((set1, final(r)@)),
            Err(_) => set_one(a, old(r)@, set, now) is None,
        },
{
    let mut out = set;
    if a == A_SIZE {
        let v: u64 = r.u64()?;
        out.size = Some(v);
    } else if a == A_MODE {
        let v: u32 = r.u32()?;
        out.mode = Some(#[verifier::truncate] ((v & 0o7777) as u16));
    } else if a == A_OWNER {
        out.uid = read_id(r)?;
    } else if a == A_OWNER_GROUP {
        out.gid = read_id(r)?;
    } else if a == A_TIME_ACCESS_SET {
        if r.u32()? == 1 {
            let _sec: u64 = r.u64()?;
            let _nsec: u32 = r.u32()?;
        }
    } else if a == A_TIME_MODIFY_SET {
        if r.u32()? == 1 {
            let sec: u64 = r.u64()?;
            let nsec: u32 = r.u32()?;
            out.mtime = Some(Ts { sec: #[verifier::truncate] (sec as i64), nsec });
        } else {
            out.mtime = Some(now);
        }
    } else {
        return Err(XdrError);
    }
    Ok(out)
}

/// Decode the attributes of a SETATTR, CREATE or OPEN. `now` is the server's time, which stands
/// in where the client leaves a time to the server.
pub fn decode_settable(r: &mut XdrReader<'_>, now: Ts) -> (res: Result<(SetAttr, Bitmap), XdrError>)
    ensures
        match res {
            Ok((set, bm)) => settable_of(old(r)@, now) == Some((set, bm.words@, final(r)@)),
            Err(_) => settable_of(old(r)@, now) is None,
        },
{
    let ahead = r.clone_reader();
    let bm = Bitmap::decode(r)?;
    if does_reach_past(&ahead) {
        return Err(XdrError);
    }
    let vals = r.opaque(65536)?;
    let mut vr = XdrReader::new(vals);
    let mut out = SetAttr::default();
    let mut a: u32 = 0;
    let ghost whole = set_from(bm.words@, 0, vals@, no_change(), now);
    while a < 96
        invariant
            a <= 96,
            whole == set_from(bm.words@, a, vr@, out, now),
            whole is None ==> settable_of(old(r)@, now) is None,
        decreases 96 - a,
    {
        if bm.has(a) {
            out = decode_one(a, &mut vr, out, now)?;
        }
        a = a + 1;
    }
    Ok((out, bm))
}

} // verus!
