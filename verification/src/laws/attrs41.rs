//! NFSv4.1 attributes: what is told of a node, and what a client sets.
use crate::laws::wire::{as_flag, as_item, as_u32, as_u64, group_reads};
use crate::nfs41::attrs::{
    bitmap_round_trip, change_attr, decode_settable, encode_fattr4, given, in_words, put_attr,
    put_bitmap, put_values, reaches_past, set_from, settable_of, Bitmap, Source,
};
use crate::surface::SetAttr;
use crate::text::{dec_digits, decimal_round_trip};
use crate::types::{Kind, Ts};
use crate::xdr::{Wire, XdrError, XdrReader, XdrWriter};
use vstd::prelude::*;

verus! {

/// The attributes that are told, by their numbers.
pub open spec fn told(a: int) -> bool {
    0 <= a <= 11 || a == 13 || 15 <= a <= 23 || 27 <= a <= 31 || 33 <= a <= 37 || 41 <= a <= 45 || a
        == 47 || 51 <= a <= 53 || a == 55 || a == 75
}

/// The value of an attribute, by its number. The attributes of the node itself are its own; the
/// others are those of the share and of the server.
pub open spec fn attr_value(a: int, src: Source<Seq<u8>>) -> Seq<u8> {
    let n = src.attr;
    let fs = src.fsstat;
    if a == 0 {
        as_u32(3) + as_u32(0xf8ff_afff) + as_u32(0x00b8_be3e) + as_u32(0x800)
    } else if a == 1 {
        as_u32(
            match n.kind {
                Kind::Reg => 1,
                Kind::Dir => 2,
                Kind::Blk => 3,
                Kind::Chr => 4,
                Kind::Symlink => 5,
                Kind::Sock => 6,
                Kind::Fifo => 7,
            },
        )
    } else if a == 2 || a == 11 || a == 13 {
        as_u32(0)
    } else if a == 3 {
        as_u64(change_attr(n))
    } else if a == 4 {
        as_u64(n.size)
    } else if a == 5 || a == 6 || a == 15 || a == 17 || a == 18 || a == 34 {
        as_flag(true)
    } else if a == 7 || a == 9 || a == 16 {
        as_flag(false)
    } else if a == 8 {
        as_u64(0x4d53_5400 | src.share as u64) + as_u64(0)
    } else if a == 10 {
        as_u32(90)
    } else if a == 19 {
        as_item(
            match src.fh {
                Some(fh) => fh,
                None => Seq::empty(),
            },
        )
    } else if a == 20 || a == 55 {
        as_u64(src.fileid)
    } else if a == 21 || a == 22 {
        as_u64(fs.free_files)
    } else if a == 23 {
        as_u64(fs.total_files)
    } else if a == 27 {
        as_u64(0x7fff_ffff_ffff_ffff)
    } else if a == 28 {
        as_u32(32000)
    } else if a == 29 {
        as_u32(255)
    } else if a == 30 || a == 31 {
        as_u64(0x10_0000)
    } else if a == 33 {
        as_u32((n.mode % 0o10000) as u32)
    } else if a == 35 {
        as_u32(n.nlink)
    } else if a == 36 {
        as_item(dec_digits(n.uid as nat))
    } else if a == 37 {
        as_item(dec_digits(n.gid as nat))
    } else if a == 41 {
        as_u32((n.rdev / 0x1_0000_0000) as u32) + as_u32((n.rdev % 0x1_0000_0000) as u32)
    } else if a == 42 {
        as_u64(fs.avail_bytes)
    } else if a == 43 {
        as_u64(fs.free_bytes)
    } else if a == 44 {
        as_u64(fs.total_bytes)
    } else if a == 45 {
        as_u64((n.blocks * 512 % 0x1_0000_0000_0000_0000) as u64)
    } else if a == 47 || a == 53 {
        as_u64(n.mtime.sec as u64) + as_u32(n.mtime.nsec)
    } else if a == 51 {
        as_u64(0) + as_u32(1)
    } else if a == 52 {
        as_u64(n.ctime.sec as u64) + as_u32(n.ctime.nsec)
    } else if a == 75 {
        as_u32(2) + as_u32(0x10) + as_u32(0x0041_0032)
    } else {
        Seq::empty()
    }
}

proof fn value_is_put(s: Seq<u8>, a: u32, src: Source<Seq<u8>>)
    requires
        told(a as int),
    ensures
        put_attr(s, a, src) == s + attr_value(a as int, src),
{
    let d = src.attr.rdev;
    let m = src.attr.mode as u32;
    assert((d >> 32) as u32 == d / 0x1_0000_0000) by (bit_vector);
    assert(d as u32 == d % 0x1_0000_0000) by (bit_vector);
    assert(m & 0o7777 == m % 0o10000) by (bit_vector);
    assert(put_attr(s, a, src) =~= s + attr_value(a as int, src));
}

/// The values of the attributes of a bitmap from `a` on, one after the other.
pub open spec fn joined(words: Seq<u32>, a: int, src: Source<Seq<u8>>) -> Seq<u8>
    decreases 96 - a,
{
    if a < 0 || a >= 96 {
        Seq::empty()
    } else if in_words(words, a as u32) {
        attr_value(a, src) + joined(words, a + 1, src)
    } else {
        joined(words, a + 1, src)
    }
}

proof fn values_are_joined(s: Seq<u8>, words: Seq<u32>, a: u32, src: Source<Seq<u8>>)
    requires
        a <= 96,
        forall|b: u32| #[trigger] in_words(words, b) ==> told(b as int),
    ensures
        put_values(s, words, a, src) == s + joined(words, a as int, src),
    decreases 96 - a,
{
    if a < 96 {
        if in_words(words, a) {
            value_is_put(s, a, src);
            values_are_joined(put_attr(s, a, src), words, (a + 1) as u32, src);
            assert(s + attr_value(a as int, src) + joined(words, a + 1, src) =~= s + (attr_value(
                a as int,
                src,
            ) + joined(words, a + 1, src)));
        } else {
            values_are_joined(s, words, (a + 1) as u32, src);
        }
    } else {
        assert(s + joined(words, a as int, src) =~= s);
    }
}

/// The attributes of a bitmap are those that were asked for and are known, the handle only where there
/// is one.
pub open spec fn answers(words: Seq<u32>, requested: Bitmap, has_fh: bool) -> bool {
    &&& words.len() == 3
    &&& forall|a: u32| #[trigger]
        in_words(words, a) <==> requested.holds(a) && told(a as int) && (a == 19 ==> has_fh)
}

/// What is told of a node: a bitmap of what was asked for and is known, and the node's own values, in
/// the order of their numbers.
pub proof fn attributes_are_told(
    w: &mut XdrWriter,
    requested: &Bitmap,
    src: &Source<&[u8]>,
    r: (),
)
    requires
        call_ensures(encode_fattr4, (w, requested, src), r),
    ensures
        exists|words: Seq<u32>| #[trigger]
            answers(words, *requested, src.fh is Some) && final(w)@ == put_bitmap(
                old(w)@,
                words,
            ).put_opaque(joined(words, 0, src@)),
{
    let g = given(requested.words@, src@.fh is Some);
    assert forall|a: u32| #[trigger]
        in_words(g, a) <==> requested.holds(a) && told(a as int) && (a == 19 ==> src.fh is Some) by {
        given_by_number(requested.words@, src@.fh is Some, a);
    }
    values_are_joined(Seq::empty(), g, 0, src@);
    assert(Seq::<u8>::empty() + joined(g, 0, src@) =~= joined(g, 0, src@));
    assert(answers(g, *requested, src.fh is Some));
}

proof fn given_by_number(requested: Seq<u32>, has_fh: bool, a: u32)
    requires
        requested.len() == 3,
    ensures
        in_words(given(requested, has_fh), a) <==> in_words(requested, a) && told(a as int) && (a == 19
            ==> has_fh),
{
    let b = a % 32;
    if a < 32 {
        let w = requested[0];
        assert(b < 32 ==> (((w & 0xf8ff_afffu32) & (1u32 << b) != 0) == (w & (1u32 << b) != 0 && (b
            <= 11 || b == 13 || 15 <= b && b <= 23 || 27 <= b && b <= 31)))) by (bit_vector);
        assert(b < 32 ==> (((w & 0xf8ff_afffu32 & 0xfff7_ffffu32) & (1u32 << b) != 0) == (w & (1u32
            << b) != 0 && (b <= 11 || b == 13 || 15 <= b && b <= 23 && b != 19 || 27 <= b && b
            <= 31)))) by (bit_vector);
    } else if a < 64 {
        let w = requested[1];
        assert(b < 32 ==> (((w & 0x00b8_be3eu32) & (1u32 << b) != 0) == (w & (1u32 << b) != 0 && (1
            <= b && b <= 5 || 9 <= b && b <= 13 || b == 15 || 19 <= b && b <= 21 || b == 23))))
            by (bit_vector);
    } else if a < 96 {
        let w = requested[2];
        assert(b < 32 ==> (((w & 0x800u32) & (1u32 << b) != 0) == (w & (1u32 << b) != 0 && b == 11)))
            by (bit_vector);
    }
}

/// Bytes are others with attributes after them: a bitmap of those that were asked for and are known,
/// and their values.
pub open spec fn values_of(
    out: Seq<u8>,
    s: Seq<u8>,
    want: (u32, u32, u32),
    has_fh: bool,
    src: Source<Seq<u8>>,
) -> bool {
    exists|words: Seq<u32>| #[trigger]
        wanted(words, want, has_fh) && out == put_bitmap(s, words).put_opaque(joined(words, 0, src))
}

/// The attributes of a bitmap are those that were asked for and are known, the handle only where there
/// is one.
pub open spec fn wanted(words: Seq<u32>, want: (u32, u32, u32), has_fh: bool) -> bool {
    &&& words.len() == 3
    &&& forall|a: u32| #[trigger]
        in_words(words, a) <==> in_words(seq![want.0, want.1, want.2], a) && told(a as int) && (a
            == 19 ==> has_fh)
}

pub proof fn fattr_is_joined(s: Seq<u8>, want: (u32, u32, u32), src: Source<Seq<u8>>)
    ensures
        values_of(
            crate::nfs41::attrs::put_fattr4(s, seq![want.0, want.1, want.2], src),
            s,
            want,
            src.fh is Some,
            src,
        ),
{
    let requested = seq![want.0, want.1, want.2];
    let g = given(requested, src.fh is Some);
    assert forall|a: u32| #[trigger]
        in_words(g, a) <==> in_words(requested, a) && told(a as int) && (a == 19 ==> src.fh is Some) by {
        given_by_number(requested, src.fh is Some, a);
    }
    values_are_joined(Seq::empty(), g, 0, src);
    assert(Seq::<u8>::empty() + joined(g, 0, src) =~= joined(g, 0, src));
    assert(wanted(g, want, src.fh is Some));
}

/// An attribute that is asked for alone is told alone: its value is all there is.
pub proof fn one_attribute_is_told(words: Seq<u32>, a: u32, src: Source<Seq<u8>>)
    requires
        words.len() == 3,
        a < 96,
        forall|b: u32| #[trigger] in_words(words, b) <==> b == a,
    ensures
        joined(words, 0, src) == attr_value(a as int, src),
{
    assert(in_words(words, a));
    joined_alone(words, 0, a, src);
}

proof fn joined_alone(words: Seq<u32>, i: int, a: u32, src: Source<Seq<u8>>)
    requires
        0 <= i <= 96,
        a < 96,
        forall|b: u32| #[trigger] in_words(words, b) <==> b == a,
    ensures
        joined(words, i, src) == (if i <= a {
            attr_value(a as int, src)
        } else {
            Seq::empty()
        }),
    decreases 96 - i,
{
    if i < 96 {
        joined_alone(words, i + 1, a, src);
        assert(in_words(words, i as u32) <==> i == a);
        if i == a {
            assert(attr_value(a as int, src) + Seq::<u8>::empty() =~= attr_value(a as int, src));
        }
    }
}

/// The values that a client sends for what it sets, in the order of their numbers: the size, the mode,
/// the owner, the group and the modification time.
pub open spec fn sent_values(
    words: Seq<u32>,
    size: u64,
    mode: u32,
    uid: u32,
    gid: u32,
    mtime: Option<(u64, u32)>,
) -> Seq<u8> {
    (if in_words(words, 4) {
        as_u64(size)
    } else {
        Seq::empty()
    }) + ((if in_words(words, 33) {
        as_u32(mode)
    } else {
        Seq::empty()
    }) + ((if in_words(words, 36) {
        as_item(dec_digits(uid as nat))
    } else {
        Seq::empty()
    }) + ((if in_words(words, 37) {
        as_item(dec_digits(gid as nat))
    } else {
        Seq::empty()
    }) + (if in_words(words, 54) {
        match mtime {
            Some((sec, nsec)) => as_u32(1) + (as_u64(sec) + as_u32(nsec)),
            None => as_u32(0),
        }
    } else {
        Seq::empty()
    }))))
}

/// What a client sets, by what it sent: each field that it named, and no other.
pub open spec fn meant(
    words: Seq<u32>,
    size: u64,
    mode: u32,
    uid: u32,
    gid: u32,
    mtime: Option<(u64, u32)>,
    now: Ts,
) -> SetAttr {
    SetAttr {
        size: if in_words(words, 4) {
            Some(size)
        } else {
            None
        },
        mode: if in_words(words, 33) {
            Some((mode % 0o10000) as u16)
        } else {
            None
        },
        uid: if in_words(words, 36) {
            Some(uid)
        } else {
            None
        },
        gid: if in_words(words, 37) {
            Some(gid)
        } else {
            None
        },
        mtime: if in_words(words, 54) {
            match mtime {
                Some((sec, nsec)) => Some(Ts { sec: sec as i64, nsec }),
                None => Some(now),
            }
        } else {
            None
        },
    }
}

proof fn nothing_set_between(words: Seq<u32>, a: u32, b: u32, s: Seq<u8>, set: SetAttr, now: Ts)
    requires
        a <= b <= 96,
        forall|c: u32| a <= c < b ==> !(#[trigger] in_words(words, c)),
    ensures
        set_from(words, a, s, set, now) == set_from(words, b, s, set, now),
    decreases b - a,
{
    if a < b {
        nothing_set_between(words, (a + 1) as u32, b, s, set, now);
    }
}

proof fn empty_first(t: Seq<u8>)
    ensures
        Seq::<u8>::empty() + t == t,
        t + Seq::<u8>::empty() == t,
{
    assert(Seq::<u8>::empty() + t =~= t);
    assert(t + Seq::<u8>::empty() =~= t);
}

proof fn size_is_read(words: Seq<u32>, v: u64, rest: Seq<u8>, set: SetAttr, now: Ts)
    ensures
        set_from(
            words,
            4,
            (if in_words(words, 4) {
                as_u64(v)
            } else {
                Seq::empty()
            }) + rest,
            set,
            now,
        ) == set_from(
            words,
            5,
            rest,
            SetAttr {
                size: if in_words(words, 4) {
                    Some(v)
                } else {
                    set.size
                },
                ..set
            },
            now,
        ),
{
    broadcast use group_reads;

    empty_first(rest);
}

proof fn mode_is_read(words: Seq<u32>, v: u32, rest: Seq<u8>, set: SetAttr, now: Ts)
    ensures
        set_from(
            words,
            33,
            (if in_words(words, 33) {
                as_u32(v)
            } else {
                Seq::empty()
            }) + rest,
            set,
            now,
        ) == set_from(
            words,
            34,
            rest,
            SetAttr {
                mode: if in_words(words, 33) {
                    Some((v % 0o10000) as u16)
                } else {
                    set.mode
                },
                ..set
            },
            now,
        ),
{
    broadcast use group_reads;

    empty_first(rest);
    assert((v & 0o7777) as u16 == (v % 0o10000) as u16) by (bit_vector);
}

proof fn owner_is_read(words: Seq<u32>, v: u32, rest: Seq<u8>, set: SetAttr, now: Ts)
    ensures
        set_from(
            words,
            36,
            (if in_words(words, 36) {
                as_item(dec_digits(v as nat))
            } else {
                Seq::empty()
            }) + rest,
            set,
            now,
        ) == set_from(
            words,
            37,
            rest,
            SetAttr {
                uid: if in_words(words, 36) {
                    Some(v)
                } else {
                    set.uid
                },
                ..set
            },
            now,
        ),
{
    broadcast use group_reads;

    empty_first(rest);
    decimal_round_trip(v as nat, u32::MAX as nat);
    short_digits(v);
}

proof fn group_is_read(words: Seq<u32>, v: u32, rest: Seq<u8>, set: SetAttr, now: Ts)
    ensures
        set_from(
            words,
            37,
            (if in_words(words, 37) {
                as_item(dec_digits(v as nat))
            } else {
                Seq::empty()
            }) + rest,
            set,
            now,
        ) == set_from(
            words,
            38,
            rest,
            SetAttr {
                gid: if in_words(words, 37) {
                    Some(v)
                } else {
                    set.gid
                },
                ..set
            },
            now,
        ),
{
    broadcast use group_reads;

    empty_first(rest);
    decimal_round_trip(v as nat, u32::MAX as nat);
    short_digits(v);
}

proof fn time_is_read(words: Seq<u32>, v: Option<(u64, u32)>, set: SetAttr, now: Ts)
    ensures
        set_from(
            words,
            54,
            if in_words(words, 54) {
                match v {
                    Some((sec, nsec)) => as_u32(1) + (as_u64(sec) + as_u32(nsec)),
                    None => as_u32(0),
                }
            } else {
                Seq::empty()
            },
            set,
            now,
        ) == set_from(
            words,
            55,
            Seq::empty(),
            SetAttr {
                mtime: if in_words(words, 54) {
                    match v {
                        Some((sec, nsec)) => Some(Ts { sec: sec as i64, nsec }),
                        None => Some(now),
                    }
                } else {
                    set.mtime
                },
                ..set
            },
            now,
        ),
{
    broadcast use group_reads;

    let e = Seq::<u8>::empty();
    if in_words(words, 54) {
        match v {
            Some((sec, nsec)) => {
                empty_first(as_u32(nsec));
                assert(crate::xdr::get_u32(as_u32(nsec) + e) == (Some(nsec), e));
            },
            None => {
                empty_first(as_u32(0));
                assert(crate::xdr::get_u32(as_u32(0) + e) == (Some(0u32), e));
            },
        }
    }
}

/// What a client sets is read as it was meant, whichever of the fields it names.
pub proof fn settings_are_read(
    words: Seq<u32>,
    size: u64,
    mode: u32,
    uid: u32,
    gid: u32,
    mtime: Option<(u64, u32)>,
    now: Ts,
)
    requires
        words.len() == 3,
        forall|a: u32| #[trigger]
            in_words(words, a) ==> a == 4 || a == 33 || a == 36 || a == 37 || a == 54,
    ensures
        set_from(
            words,
            0,
            sent_values(words, size, mode, uid, gid, mtime),
            SetAttr { mode: None, uid: None, gid: None, size: None, mtime: None },
            now,
        ) == Some(meant(words, size, mode, uid, gid, mtime, now)),
{
    let e = Seq::<u8>::empty();
    let v5 = if in_words(words, 54) {
        match mtime {
            Some((sec, nsec)) => as_u32(1) + (as_u64(sec) + as_u32(nsec)),
            None => as_u32(0),
        }
    } else {
        e
    };
    let v4 = (if in_words(words, 37) {
        as_item(dec_digits(gid as nat))
    } else {
        e
    }) + v5;
    let v3 = (if in_words(words, 36) {
        as_item(dec_digits(uid as nat))
    } else {
        e
    }) + v4;
    let v2 = (if in_words(words, 33) {
        as_u32(mode)
    } else {
        e
    }) + v3;
    let v1 = sent_values(words, size, mode, uid, gid, mtime);
    let m5 = meant(words, size, mode, uid, gid, mtime, now);
    let m0 = SetAttr { mode: None, uid: None, gid: None, size: None, mtime: None };
    let m1 = SetAttr { size: m5.size, ..m0 };
    let m2 = SetAttr { mode: m5.mode, ..m1 };
    let m3 = SetAttr { uid: m5.uid, ..m2 };
    let m4 = SetAttr { gid: m5.gid, ..m3 };
    nothing_set_between(words, 0, 4, v1, m0, now);
    size_is_read(words, size, v2, m0, now);
    nothing_set_between(words, 5, 33, v2, m1, now);
    mode_is_read(words, mode, v3, m1, now);
    nothing_set_between(words, 34, 36, v3, m2, now);
    owner_is_read(words, uid, v4, m2, now);
    group_is_read(words, gid, v5, m3, now);
    nothing_set_between(words, 38, 54, v5, m4, now);
    time_is_read(words, mtime, m4, now);
    nothing_set_between(words, 55, 96, e, m5, now);
}

proof fn short_digits(n: u32)
    ensures
        dec_digits(n as nat).len() <= 256,
{
    reveal_with_fuel(pow10, 11);
    digits_at_most(n as nat, 10);
}

proof fn digits_at_most(n: nat, k: nat)
    requires
        k >= 1,
        n < pow10(k),
    ensures
        dec_digits(n).len() <= k,
    decreases k,
{
    reveal_with_fuel(pow10, 2);
    if n >= 10 {
        digits_at_most(n / 10, (k - 1) as nat);
    }
}

pub open spec fn pow10(k: nat) -> nat
    decreases k,
{
    if k == 0 {
        1
    } else {
        10 * pow10((k - 1) as nat)
    }
}

/// A client that sets something is understood: the bitmap and the values are read as they were meant,
/// and what follows them is left.
pub proof fn settable_is_decoded(
    r: &mut XdrReader<'_>,
    now: Ts,
    res: Result<(SetAttr, Bitmap), XdrError>,
    words: Seq<u32>,
    size: u64,
    mode: u32,
    uid: u32,
    gid: u32,
    mtime: Option<(u64, u32)>,
    rest: Seq<u8>,
)
    requires
        call_ensures(decode_settable, (r, now), res),
        words.len() == 3,
        forall|a: u32| #[trigger]
            in_words(words, a) ==> a == 4 || a == 33 || a == 36 || a == 37 || a == 54,
        old(r)@ == put_bitmap(Seq::empty(), words) + (as_item(
            sent_values(words, size, mode, uid, gid, mtime),
        ) + rest),
    ensures
        res is Ok,
        (res->Ok_0).0 == meant(words, size, mode, uid, gid, mtime, now),
        (res->Ok_0).1.words@ == words,
        final(r)@ == rest,
{
    settable_reads(words, size, mode, uid, gid, mtime, now, rest);
}

/// The bytes of what a client sets, and what is read of them.
pub proof fn settable_reads(
    words: Seq<u32>,
    size: u64,
    mode: u32,
    uid: u32,
    gid: u32,
    mtime: Option<(u64, u32)>,
    now: Ts,
    rest: Seq<u8>,
)
    requires
        words.len() == 3,
        forall|a: u32| #[trigger]
            in_words(words, a) ==> a == 4 || a == 33 || a == 36 || a == 37 || a == 54,
    ensures
        settable_of(
            put_bitmap(Seq::empty(), words) + (as_item(
                sent_values(words, size, mode, uid, gid, mtime),
            ) + rest),
            now,
        ) == Some((meant(words, size, mode, uid, gid, mtime, now), words, rest)),
{
    broadcast use group_reads;

    let vals = sent_values(words, size, mode, uid, gid, mtime);
    bitmap_round_trip(words, as_item(vals) + rest);
    settings_are_read(words, size, mode, uid, gid, mtime, now);
    short_digits(uid);
    short_digits(gid);
    values_are_short(words, size, mode, uid, gid, mtime);
    three_words(words, as_item(vals) + rest);
}

proof fn values_are_short(
    words: Seq<u32>,
    size: u64,
    mode: u32,
    uid: u32,
    gid: u32,
    mtime: Option<(u64, u32)>,
)
    ensures
        sent_values(words, size, mode, uid, gid, mtime).len() <= 65536,
{
    broadcast use crate::laws::wire::group_places;

    short_digits(uid);
    short_digits(gid);
}

proof fn three_words(words: Seq<u32>, rest: Seq<u8>)
    requires
        words.len() == 3,
    ensures
        !reaches_past(put_bitmap(Seq::empty(), words) + rest),
{
    broadcast use group_reads;

    let e = Seq::<u8>::empty();
    let n = crate::nfs41::attrs::words_sent(words) as u32;
    let s = put_bitmap(e, words) + rest;
    let tail = s.skip(4);
    crate::laws::wire::u32_is_read(s);
    broadcast use crate::laws::wire::group_places;
    assert(crate::laws::wire::begins_with(put_bitmap(e, words), e.put_u32(n)));
    prefix(put_bitmap(e, words), rest);
    assert(crate::laws::wire::u32_at(s, 0) == n);
}

proof fn prefix(a: Seq<u8>, b: Seq<u8>)
    ensures
        crate::laws::wire::begins_with(a + b, a),
{
    reveal(crate::laws::wire::begins_with);
}

} // verus!
