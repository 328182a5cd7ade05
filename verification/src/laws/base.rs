//! What the small parts are for: numbers on the wire, tables and buffers.
use crate::bufpool::Pool;
use crate::laws::wire::{
    begins_with, bytes_at, group_places, padded, u32_at, u32_is_read, u64_at, u64_is_read,
};
use crate::table::KeyTable;
use crate::xdr::{Wire, XdrError, XdrReader, XdrWriter};
use vstd::prelude::*;

verus! {

broadcast use group_places;

/// A writer appends numbers with their most significant byte first and leaves what was written.
pub proof fn numbers_are_appended(w: &mut XdrWriter, v: u32)
    requires
        call_ensures(XdrWriter::u32, (w, v), ()),
    ensures
        begins_with(final(w)@, old(w)@),
        final(w)@.len() == old(w)@.len() + 4,
        u32_at(final(w)@, old(w)@.len() as int) == v,
{
}

/// A long number takes eight bytes.
pub proof fn long_numbers_are_appended(w: &mut XdrWriter, v: u64)
    requires
        call_ensures(XdrWriter::u64, (w, v), ()),
    ensures
        begins_with(final(w)@, old(w)@),
        final(w)@.len() == old(w)@.len() + 8,
        u64_at(final(w)@, old(w)@.len() as int) == v,
{
}

/// A truth value is 1 or 0.
pub proof fn truth_is_appended(w: &mut XdrWriter, v: bool)
    requires
        call_ensures(XdrWriter::bool, (w, v), ()),
    ensures
        begins_with(final(w)@, old(w)@),
        final(w)@.len() == old(w)@.len() + 4,
        u32_at(final(w)@, old(w)@.len() as int) == (if v {
            1int
        } else {
            0int
        }),
{
}

/// An item is its length and its bytes, padded.
pub proof fn items_are_appended(w: &mut XdrWriter, data: &[u8])
    requires
        call_ensures(XdrWriter::opaque, (w, data), ()),
        data@.len() <= u32::MAX,
    ensures
        begins_with(final(w)@, old(w)@),
        final(w)@.len() == old(w)@.len() + 4 + padded(data@.len()),
        u32_at(final(w)@, old(w)@.len() as int) == data@.len(),
        bytes_at(final(w)@, old(w)@.len() as int + 4, data@.len()) == data@,
{
}

/// A number that is patched in replaces four bytes and no others.
pub proof fn numbers_are_patched(w: &mut XdrWriter, pos: usize, v: u32, i: int)
    requires
        call_ensures(XdrWriter::patch_u32, (w, pos, v), ()),
        pos + 4 <= old(w)@.len(),
    ensures
        final(w)@.len() == old(w)@.len(),
        u32_at(final(w)@, pos as int) == v,
        0 <= i < pos || pos + 4 <= i < old(w)@.len() ==> final(w)@[i] == old(w)@[i],
{
    let a = old(w)@.take(pos as int);
    let b = a.put_u32(v);
    assert(b.len() == pos + 4);
    assert(begins_with(final(w)@, b) && u32_at(b, pos as int) == v) by {
        reveal(begins_with);
        assert(final(w)@.take(b.len() as int) =~= b);
    }
    if 0 <= i < pos {
        reveal(begins_with);
        assert(final(w)@[i] == b[i]);
        assert(b.take(a.len() as int)[i] == b[i]);
    }
}

/// A number is read from the first four bytes, if there are so many.
pub proof fn numbers_are_read_off<'a>(r: &mut XdrReader<'a>, res: Result<u32, XdrError>)
    requires
        call_ensures(XdrReader::<'a>::u32, (r,), res),
    ensures
        res is Ok <==> old(r)@.len() >= 4,
        res is Ok ==> res->Ok_0 == u32_at(old(r)@, 0) && final(r)@ == old(r)@.skip(4),
        res is Err ==> final(r)@ == old(r)@,
{
    u32_is_read(old(r)@);
}

/// A long number is read from the first eight bytes, if there are so many.
pub proof fn long_numbers_are_read_off<'a>(r: &mut XdrReader<'a>, res: Result<u64, XdrError>)
    requires
        call_ensures(XdrReader::<'a>::u64, (r,), res),
    ensures
        res is Ok <==> old(r)@.len() >= 8,
        res is Ok ==> res->Ok_0 == u64_at(old(r)@, 0) && final(r)@ == old(r)@.skip(8),
{
    u64_is_read(old(r)@);
}

/// What is inserted into a table is found under its key, and every other key as before.
pub proof fn tables_find_what_is_put(
    t: &mut KeyTable<u64, u64>,
    key: u64,
    value: u64,
    was: Option<u64>,
    other: &u64,
    before: Option<&u64>,
    after: Option<&u64>,
)
    requires
        call_ensures(KeyTable::<u64, u64>::insert, (t, key, value), was),
        call_ensures(KeyTable::<u64, u64>::get, (&*old(t), other), before),
        call_ensures(KeyTable::<u64, u64>::get, (&*final(t), other), after),
    ensures
        *other == key ==> after is Some && *after->0 == value && (was is Some <==> before is Some),
        *other != key ==> (after is Some <==> before is Some),
        *other != key && before is Some ==> *after->0 == *before->0,
{
}

/// What is removed from a table is found no more, and every other key as before.
pub proof fn tables_lose_what_is_removed(
    t: &mut KeyTable<u64, u64>,
    key: &u64,
    was: Option<u64>,
    other: &u64,
    before: Option<&u64>,
    after: Option<&u64>,
)
    requires
        call_ensures(KeyTable::<u64, u64>::remove, (t, key), was),
        call_ensures(KeyTable::<u64, u64>::get, (&*old(t), other), before),
        call_ensures(KeyTable::<u64, u64>::get, (&*final(t), other), after),
    ensures
        *other == *key ==> after is None && (was is Some <==> before is Some),
        *other == *key && was is Some ==> was->0 == *before->0,
        *other != *key ==> (after is Some <==> before is Some),
        *other != *key && before is Some ==> *after->0 == *before->0,
{
}

/// A buffer is kept that has between 1 MiB and a little over 4 MiB, while fewer than 32 are.
pub proof fn buffers_are_kept(p: &mut Pool, buf: Vec<u8>, cap: usize)
    requires
        call_ensures(Pool::give_sized, (p, buf, cap), ()),
    ensures
        0x10_0000 <= cap <= 0x40_1000 && old(p)@.len() < 32 ==> final(p)@ == old(p)@.push(buf),
        cap < 0x10_0000 || cap > 0x40_1000 || old(p)@.len() >= 32 ==> final(p)@ == old(p)@,
{
}

/// A buffer that is taken is empty and of one that is large enough; where none is taken, all stay.
pub proof fn buffers_are_taken(p: &mut Pool, caps: &Vec<usize>, min_cap: usize, res: Option<Vec<u8>>)
    requires
        call_ensures(Pool::take_listed, (p, caps, min_cap), res),
        caps@.len() == old(p)@.len(),
    ensures
        res is Some ==> exists|i: int| 0 <= i < caps@.len() && (#[trigger] caps@[i]) >= min_cap,
        res is Some ==> res->0@.len() == 0 && final(p)@.len() + 1 == old(p)@.len(),
        res is None ==> final(p)@ == old(p)@,
{
}

} // verus!
