//! Attributes on their way to the client: ownership, and times that only move forward.
use crate::fnv::{fnv, mix, one_change_rotates, FNV_BASIS};
use crate::types::{Attr, Ts};
use vstd::prelude::*;

verus! {

/// The attributes with the Mac user as the owner, so that files appear as the user's own.
pub open spec fn squashed(a: Attr, uid: u32, gid: u32) -> Attr {
    Attr { uid, gid, ..a }
}

pub fn squash(a: Attr, uid: u32, gid: u32) -> (r: Attr)
    ensures
        r == squashed(a, uid, gid),
{
    Attr { uid, gid, ..a }
}

/// The later of two times; the first where they are equal.
pub open spec fn later(a: Ts, b: Ts) -> Ts {
    if a.earlier(b) {
        b
    } else {
        a
    }
}

/// What a write or commit leaves in the replica: the guest's attributes, but neither the time nor
/// the size goes back behind what the replica has.
pub open spec fn not_behind(cur: Option<Attr>, a: Attr) -> Attr {
    match cur {
        Some(c) => Attr {
            mtime: later(a.mtime, c.mtime),
            size: if a.size < c.size {
                c.size
            } else {
                a.size
            },
            ..a
        },
        None => a,
    }
}

/// The guest's clock runs behind the host's own stamps, and a step back reads to the client as a
/// foreign change.
pub fn apply_mac_attr(cur: Option<Attr>, a: Attr) -> (r: Attr)
    ensures
        r == not_behind(cur, a),
{
    let mut a = a;
    if let Some(c) = cur {
        if a.mtime.is_earlier(&c.mtime) {
            a.mtime = c.mtime;
        }
        if a.size < c.size {
            a.size = c.size;
        }
    }
    a
}

/// What setting attributes leaves in the replica: the size is the guest's, for a truncation must
/// shrink; the time does not go back.
pub open spec fn time_not_behind(cur: Option<Attr>, a: Attr) -> Attr {
    match cur {
        Some(c) => Attr { mtime: later(a.mtime, c.mtime), ..a },
        None => a,
    }
}

pub fn apply_set_attr(cur: Option<Attr>, a: Attr) -> (r: Attr)
    ensures
        r == time_not_behind(cur, a),
{
    let mut a = a;
    if let Some(c) = cur {
        if a.mtime.is_earlier(&c.mtime) {
            a.mtime = c.mtime;
        }
    }
    a
}

/// A directory's attributes after a change in it: its times move to now, or by a nanosecond where
/// they are not behind.
pub open spec fn dir_moved(a: Attr, now: Ts) -> Attr {
    let t = if a.mtime.earlier(now) {
        now
    } else {
        Ts { sec: a.mtime.sec, nsec: (a.mtime.nsec + 1) as u32 }
    };
    Attr { mtime: t, ctime: t, ..a }
}

pub fn bump_dir(a: Attr, now: Ts) -> (r: Attr)
    requires
        a.mtime.nsec < u32::MAX,
    ensures
        r == dir_moved(a, now),
        a.mtime.earlier(r.mtime),
{
    let t = if a.mtime.is_earlier(&now) {
        now
    } else {
        Ts { sec: a.mtime.sec, nsec: a.mtime.nsec + 1 }
    };
    Attr { mtime: t, ctime: t, ..a }
}

/// A time as nanoseconds since the epoch: nothing before it, and at most what fits.
pub open spec fn nanos_of(t: Ts) -> nat {
    let s: nat = if t.sec < 0 {
        0
    } else {
        t.sec as nat
    };
    let ns: nat = if s * 1_000_000_000 > u64::MAX {
        u64::MAX as nat
    } else {
        s * 1_000_000_000
    };
    if ns + t.nsec > u64::MAX {
        u64::MAX as nat
    } else {
        ns + t.nsec as nat
    }
}

fn nanos(t: &Ts) -> (n: u64)
    ensures
        n == nanos_of(*t),
{
    let s: u64 = if t.sec < 0 {
        0
    } else {
        t.sec as u64
    };
    let ns: u64 = if s > 18_446_744_073 {
        u64::MAX
    } else {
        s * 1_000_000_000
    };
    if ns > u64::MAX - t.nsec as u64 {
        u64::MAX
    } else {
        ns + t.nsec as u64
    }
}

pub open spec fn ts_of(n: u64) -> Ts {
    Ts { sec: (n / 1_000_000_000) as i64, nsec: (n % 1_000_000_000) as u32 }
}

pub open spec fn max2(a: nat, b: nat) -> nat {
    if a < b {
        b
    } else {
        a
    }
}

/// The next stamp of the process's clock: past `floor`, past `now` and past every earlier stamp.
pub open spec fn next_tick(clock: u64, now: u64, floor: Ts) -> nat {
    max2(max2(now as nat, nanos_of(floor)), clock as nat) + 1
}

/// A stamp for a write that the guest has not seen yet. One clock serves the whole process, so
/// that no two writes get the same stamp.
pub fn next_optimistic_ts(clock: &mut u64, now: u64, floor: Ts) -> (t: Ts)
    requires
        next_tick(*old(clock), now, floor) <= u64::MAX,
    ensures
        *final(clock) == next_tick(*old(clock), now, floor),
        t == ts_of(*final(clock)),
{
    let f: u64 = nanos(&floor);
    let base: u64 = if now < f {
        f
    } else {
        now
    };
    let base: u64 = if base < *clock {
        *clock
    } else {
        base
    };
    let next: u64 = base + 1;
    *clock = next;
    Ts { sec: (next / 1_000_000_000) as i64, nsec: (next % 1_000_000_000) as u32 }
}

/// A stamp lies after the time that it may not fall behind.
pub proof fn stamp_is_past_the_floor(clock: u64, now: u64, floor: Ts)
    requires
        next_tick(clock, now, floor) <= u64::MAX,
        floor.nsec < 1_000_000_000,
    ensures
        floor.earlier(ts_of(next_tick(clock, now, floor) as u64)),
{
    let n = next_tick(clock, now, floor);
    assert(n > nanos_of(floor));
    if floor.sec >= 0 {
        assert(nanos_of(floor) == floor.sec * 1_000_000_000 + floor.nsec);
    }
}

/// Stamps of one clock are all different, and each is later than the one before.
pub proof fn stamps_go_forward(clock: u64, now: u64, floor: Ts, now2: u64, floor2: Ts)
    requires
        next_tick(clock, now, floor) <= u64::MAX,
        next_tick(next_tick(clock, now, floor) as u64, now2, floor2) <= u64::MAX,
    ensures
        ({
            let a = next_tick(clock, now, floor) as u64;
            let b = next_tick(a, now2, floor2) as u64;
            ts_of(a).earlier(ts_of(b))
        }),
{
}

/// What the fingerprint of a file's content is taken over.
pub open spec fn content_words(a: Attr) -> Seq<u64> {
    seq![a.mtime.sec as u64, a.mtime.nsec as u64, a.size, a.content_version]
}

/// The version of a file's content, as the cache knows it: the same after a restart, and another
/// one after any change that the attributes show.
pub open spec fn fingerprint(a: Attr) -> u64 {
    fnv(FNV_BASIS, content_words(a))
}

pub fn content_fingerprint(a: &Attr) -> (h: u64)
    ensures
        h == fingerprint(*a),
{
    let sec: u64 = #[verifier::truncate] (a.mtime.sec as u64);
    let h0: u64 = mix(FNV_BASIS, sec);
    let h1: u64 = mix(h0, a.mtime.nsec as u64);
    let h2: u64 = mix(h1, a.size);
    let h3: u64 = mix(h2, a.content_version);
    proof {
        let w = content_words(*a);
        assert(w.drop_last() =~= seq![a.mtime.sec as u64, a.mtime.nsec as u64, a.size]);
        assert(w.drop_last().drop_last() =~= seq![a.mtime.sec as u64, a.mtime.nsec as u64]);
        assert(w.drop_last().drop_last().drop_last() =~= seq![a.mtime.sec as u64]);
        assert(w.drop_last().drop_last().drop_last().drop_last() =~= Seq::<u64>::empty());
        reveal_with_fuel(fnv, 5);
    }
    h3
}

/// The fingerprint depends on nothing but the modification time, the size and the content
/// version, and a change of any one of these alone changes it.
pub proof fn fingerprint_rotates(a: Attr, b: Attr)
    ensures
        a.mtime == b.mtime && a.size == b.size && a.content_version == b.content_version
            ==> fingerprint(a) == fingerprint(b),
        a.mtime.sec != b.mtime.sec && a.mtime.nsec == b.mtime.nsec && a.size == b.size
            && a.content_version == b.content_version ==> fingerprint(a) != fingerprint(b),
        a.mtime.sec == b.mtime.sec && a.mtime.nsec != b.mtime.nsec && a.size == b.size
            && a.content_version == b.content_version ==> fingerprint(a) != fingerprint(b),
        a.mtime == b.mtime && a.size != b.size && a.content_version == b.content_version
            ==> fingerprint(a) != fingerprint(b),
        a.mtime == b.mtime && a.size == b.size && a.content_version != b.content_version
            ==> fingerprint(a) != fingerprint(b),
{
    let wa = content_words(a);
    let wb = content_words(b);
    let x = a.mtime.sec;
    let y = b.mtime.sec;
    if x != y {
        assert(x as u64 != y as u64) by (bit_vector)
            requires
                x != y,
        ;
    }
    if wa[0] != wb[0] && wa[1] == wb[1] && wa[2] == wb[2] && wa[3] == wb[3] {
        one_change_rotates(FNV_BASIS, wa, wb, 0);
    }
    if wa[0] == wb[0] && wa[1] != wb[1] && wa[2] == wb[2] && wa[3] == wb[3] {
        one_change_rotates(FNV_BASIS, wa, wb, 1);
    }
    if wa[0] == wb[0] && wa[1] == wb[1] && wa[2] != wb[2] && wa[3] == wb[3] {
        one_change_rotates(FNV_BASIS, wa, wb, 2);
    }
    if wa[0] == wb[0] && wa[1] == wb[1] && wa[2] == wb[2] && wa[3] != wb[3] {
        one_change_rotates(FNV_BASIS, wa, wb, 3);
    }
}

/// What the client sees of a file after a write or commit never steps back.
pub proof fn attributes_never_step_back(cur: Attr, a: Attr)
    ensures
        !not_behind(Some(cur), a).mtime.earlier(cur.mtime),
        not_behind(Some(cur), a).size >= cur.size,
        !time_not_behind(Some(cur), a).mtime.earlier(cur.mtime),
{
}

} // verus!
