//! The wire format by the place: what stands where in the bytes that were written.
use crate::xdr::{
    be32, be32_len, bool_round_trip, de32, fixed_round_trip, get_bool, get_fixed, get_opaque,
    get_u32, get_u64, opaque_over_cap_refused, opaque_round_trip, pad_len, u32_round_trip,
    u64_round_trip, Wire,
};
use vstd::prelude::*;

verus! {

/// The number in the four bytes from `i` on, the most significant first.
#[verifier::opaque]
pub open spec fn u32_at(s: Seq<u8>, i: int) -> int {
    s[i] * 0x100_0000 + s[i + 1] * 0x1_0000 + s[i + 2] * 0x100 + s[i + 3]
}

/// The number in the eight bytes from `i` on, the most significant first.
pub open spec fn u64_at(s: Seq<u8>, i: int) -> int {
    u32_at(s, i) * 0x1_0000_0000 + u32_at(s, i + 4)
}

/// `n` bytes from `i` on.
pub open spec fn bytes_at(s: Seq<u8>, i: int, n: nat) -> Seq<u8> {
    s.subrange(i, i + n)
}

/// The length of an item with its padding: the next multiple of four.
pub open spec fn padded(n: nat) -> nat {
    ((n + 3) / 4 * 4) as nat
}

/// Bytes begin with others.
#[verifier::opaque]
pub open spec fn begins_with(out: Seq<u8>, s: Seq<u8>) -> bool {
    s.len() <= out.len() && forall|i: int| 0 <= i < s.len() ==> out[i] == s[i]
}

pub broadcast proof fn begins_with_itself(s: Seq<u8>)
    ensures
        #[trigger] begins_with(s, s),
{
    reveal(begins_with);
}

pub broadcast proof fn beginning_is_shorter(out: Seq<u8>, s: Seq<u8>)
    requires
        #[trigger] begins_with(out, s),
    ensures
        s.len() <= out.len(),
{
    reveal(begins_with);
}

pub broadcast proof fn begins_with_beginning(out: Seq<u8>, mid: Seq<u8>, s: Seq<u8>)
    requires
        #[trigger] begins_with(out, mid),
        #[trigger] begins_with(mid, s),
    ensures
        begins_with(out, s),
{
    reveal(begins_with);
}

pub broadcast proof fn u32_stays(out: Seq<u8>, s: Seq<u8>, i: int)
    requires
        #[trigger] begins_with(out, s),
        0 <= i,
        i + 4 <= s.len(),
    ensures
        #[trigger] u32_at(out, i) == u32_at(s, i),
{
    reveal(begins_with);
    reveal(u32_at);
}

pub broadcast proof fn bytes_stay(out: Seq<u8>, s: Seq<u8>, i: int, n: nat)
    requires
        #[trigger] begins_with(out, s),
        0 <= i,
        i + n <= s.len(),
    ensures
        #[trigger] bytes_at(out, i, n) == bytes_at(s, i, n),
{
    reveal(begins_with);
    assert(bytes_at(out, i, n) =~= bytes_at(s, i, n));
}

/// A number is appended with its most significant byte first, in four bytes.
pub broadcast proof fn u32_is_appended(s: Seq<u8>, v: u32)
    ensures
        begins_with(s.put_u32(v), s),
        (#[trigger] s.put_u32(v)).len() == s.len() + 4,
        u32_at(s.put_u32(v), s.len() as int) == v,
{
    broadcast use be32_len;

    reveal(be32);
    reveal(u32_at);
    reveal(begins_with);
    let t = s.put_u32(v);
    assert forall|k: int| 0 <= k < 4 implies t[s.len() + k] == be32(v)[k] by {}
}

/// A long number is appended with its most significant byte first, in eight bytes.
pub broadcast proof fn u64_is_appended(s: Seq<u8>, v: u64)
    ensures
        begins_with(s.put_u64(v), s),
        (#[trigger] s.put_u64(v)).len() == s.len() + 8,
        u64_at(s.put_u64(v), s.len() as int) == v,
{
    broadcast use be32_len;

    let hi = (v / 0x1_0000_0000) as u32;
    let lo = (v % 0x1_0000_0000) as u32;
    let a = s.put_u32(hi);
    assert(s.put_u64(v) =~= a.put_u32(lo));
    u32_is_appended(s, hi);
    u32_is_appended(a, lo);
    u32_stays(a.put_u32(lo), a, s.len() as int);
    begins_with_beginning(s.put_u64(v), a, s);
}

/// A truth value is the number 1 or 0.
pub broadcast proof fn bool_is_appended(s: Seq<u8>, v: bool)
    ensures
        begins_with(s.put_bool(v), s),
        (#[trigger] s.put_bool(v)).len() == s.len() + 4,
        u32_at(s.put_bool(v), s.len() as int) == (if v {
            1int
        } else {
            0int
        }),
{
    u32_is_appended(s, if v { 1 } else { 0 });
}

/// Bytes are appended as they are, with zeros up to a multiple of four.
pub broadcast proof fn fixed_is_appended(s: Seq<u8>, data: Seq<u8>)
    ensures
        begins_with(s.put_fixed(data), s),
        (#[trigger] s.put_fixed(data)).len() == s.len() + padded(data.len()),
        bytes_at(s.put_fixed(data), s.len() as int, data.len()) == data,
{
    reveal(begins_with);
    assert(bytes_at(s.put_fixed(data), s.len() as int, data.len()) =~= data);
}

/// An item is its length, its bytes as they are, and zeros up to a multiple of four.
pub broadcast proof fn opaque_is_appended(s: Seq<u8>, data: Seq<u8>)
    ensures
        begins_with(s.put_opaque(data), s),
        (#[trigger] s.put_opaque(data)).len() == s.len() + 4 + padded(data.len()),
        data.len() <= u32::MAX ==> u32_at(s.put_opaque(data), s.len() as int) == data.len(),
        bytes_at(s.put_opaque(data), s.len() as int + 4, data.len()) == data,
{
    let n = (data.len() % 0x1_0000_0000) as u32;
    let a = s.put_u32(n);
    u32_is_appended(s, n);
    fixed_is_appended(a, data);
    assert(s.put_opaque(data) == a.put_fixed(data));
    u32_stays(a.put_fixed(data), a, s.len() as int);
    begins_with_beginning(s.put_opaque(data), a, s);
}

/// What is written where, and that what was written stays.
pub broadcast group group_places {
    u32_is_appended,
    u64_is_appended,
    bool_is_appended,
    fixed_is_appended,
    opaque_is_appended,
    begins_with_itself,
    beginning_is_shorter,
    begins_with_beginning,
    u32_stays,
    bytes_stay,
}

/// A number is read from four bytes, the most significant first, and these are taken.
pub proof fn u32_is_read(s: Seq<u8>)
    ensures
        s.len() >= 4 ==> get_u32(s).0 is Some && get_u32(s).0->0 == u32_at(s, 0) && get_u32(s).1
            == s.skip(4),
        s.len() < 4 ==> get_u32(s).0 is None && get_u32(s).1 == s,
{
    reveal(de32);
    reveal(u32_at);
}

/// A long number is read from eight bytes, the most significant first, and these are taken.
pub proof fn u64_is_read(s: Seq<u8>)
    ensures
        s.len() >= 8 ==> get_u64(s).0 is Some && get_u64(s).0->0 == u64_at(s, 0) && get_u64(s).1
            == s.skip(8),
        s.len() < 8 ==> get_u64(s).0 is None && get_u64(s).1 == s,
{
    reveal(de32);
    reveal(u32_at);
}

/// Every number but 0 is read as true.
pub proof fn bool_is_read(s: Seq<u8>)
    ensures
        s.len() >= 4 ==> get_bool(s) == (Some(u32_at(s, 0) != 0), s.skip(4)),
        s.len() < 4 ==> get_bool(s) == (None::<bool>, s),
{
    reveal(de32);
    reveal(u32_at);
}

/// An item is read if its length is within the cap and its bytes with their padding are there: its
/// bytes are those after the length.
pub proof fn opaque_is_read(s: Seq<u8>, max: nat)
    ensures
        get_opaque(s, max).0 is Some <==> s.len() >= 4 && u32_at(s, 0) <= max && s.len() >= 4
            + padded(u32_at(s, 0) as nat),
        get_opaque(s, max).0 is Some ==> get_opaque(s, max).0->0 == bytes_at(
            s,
            4,
            u32_at(s, 0) as nat,
        ) && get_opaque(s, max).1 == s.skip(4 + padded(u32_at(s, 0) as nat) as int),
{
    reveal(de32);
    reveal(u32_at);
    if s.len() >= 4 && u32_at(s, 0) <= max {
        let n = u32_at(s, 0) as nat;
        let s1 = s.skip(4);
        if s1.len() >= n {
            assert(s1.take(n as int) =~= bytes_at(s, 4, n));
            assert(s1.skip(n as int).skip(pad_len(n) as int) =~= s.skip(4 + padded(n) as int) || s.len()
                < 4 + padded(n));
        }
    }
}

/// A number by itself.
pub open spec fn as_u32(v: u32) -> Seq<u8> {
    Seq::<u8>::empty().put_u32(v)
}

/// A long number by itself.
pub open spec fn as_u64(v: u64) -> Seq<u8> {
    Seq::<u8>::empty().put_u64(v)
}

/// A truth value by itself.
pub open spec fn as_flag(v: bool) -> Seq<u8> {
    Seq::<u8>::empty().put_bool(v)
}

/// An item by itself.
pub open spec fn as_item(data: Seq<u8>) -> Seq<u8> {
    Seq::<u8>::empty().put_opaque(data)
}

/// Bytes by themselves.
pub open spec fn as_bytes(data: Seq<u8>) -> Seq<u8> {
    Seq::<u8>::empty().put_fixed(data)
}

pub broadcast proof fn reads_u32(v: u32, rest: Seq<u8>)
    ensures
        #[trigger] get_u32(as_u32(v) + rest) == (Some(v), rest),
{
    u32_round_trip(v, rest);
}

pub broadcast proof fn reads_u64(v: u64, rest: Seq<u8>)
    ensures
        #[trigger] get_u64(as_u64(v) + rest) == (Some(v), rest),
{
    u64_round_trip(v, rest);
}

pub broadcast proof fn reads_flag(v: bool, rest: Seq<u8>)
    ensures
        #[trigger] get_bool(as_flag(v) + rest) == (Some(v), rest),
{
    bool_round_trip(v, rest);
}

pub broadcast proof fn reads_item(data: Seq<u8>, max: nat, rest: Seq<u8>)
    requires
        data.len() <= u32::MAX,
    ensures
        data.len() <= max ==> #[trigger] get_opaque(as_item(data) + rest, max) == (Some(data), rest),
        data.len() > max ==> get_opaque(as_item(data) + rest, max).0 is None,
{
    if data.len() <= max {
        opaque_round_trip(data, max, rest);
    } else {
        opaque_over_cap_refused(data, max, rest);
    }
}

pub broadcast proof fn reads_bytes(data: Seq<u8>, n: nat, rest: Seq<u8>)
    requires
        n == data.len(),
    ensures
        #[trigger] get_fixed(as_bytes(data) + rest, n) == (Some(data), rest),
{
    fixed_round_trip(data, rest);
}

/// What was written by itself is read back, and what follows is left.
pub broadcast group group_reads {
    reads_u32,
    reads_u64,
    reads_flag,
    reads_item,
    reads_bytes,
}

} // verus!
