//! NFSv4.1: what a listing tells, and when the change attribute moves.
use crate::fnv::{one_change_rotates, FNV_BASIS};
use crate::handle::HandleCodec;
use crate::laws::attrs41::{fattr_is_joined, values_of};
use crate::nfs3::fh_bytes;
use crate::nfs41::attrs::{change_of, change_words, Source};
use crate::nfs41::eval::eval_op;
use crate::nfs41::ops::{entry_bytes, put_listing, Ctx, Env, Turn41};
use crate::nfs41::request::{OpReq, OpSpec, Words};
use crate::nfs41::state::State;
use crate::surface::{Answer, DirEntry, FsStat, ReadDirPage, SurfaceInfo};
use crate::types::{Attr, Kind, NodeKey, Ts};
use crate::xdr::{Wire, XdrWriter};
use vstd::prelude::*;

verus! {

/// The attributes of an entry; of one that came without any, those of an empty file.
pub open spec fn shown_attr(e: DirEntry) -> Attr {
    match e.attr {
        Some(a) => a,
        None => Attr {
            kind: Kind::Reg,
            mode: 0,
            nlink: 1,
            uid: 0,
            gid: 0,
            size: 0,
            blocks: 0,
            mtime: Ts { sec: 0, nsec: 0 },
            ctime: Ts { sec: 0, nsec: 0 },
            rdev: 0,
            content_version: 0,
        },
    }
}

/// The bytes of an entry: its cookie, which is never below 3, its name, and the attributes of it
/// that were asked for.
pub open spec fn tells_entry(
    ent: Seq<u8>,
    e: DirEntry,
    want: Words,
    share: u16,
    key: Seq<u8>,
    fsstat: FsStat,
) -> bool {
    let cookie: u64 = if e.cookie >= 3 {
        e.cookie
    } else {
        3
    };
    values_of(
        ent,
        Seq::<u8>::empty().put_u64(cookie).put_opaque(e.name@),
        want,
        true,
        Source {
            attr: shown_attr(e),
            fileid: e.node.ino,
            share,
            fh: Some(fh_bytes(key, share, e.node)),
            fsstat,
        },
    )
}

/// Entries one after the other, each after a mark that one follows.
pub open spec fn with_entries(s: Seq<u8>, ents: Seq<Seq<u8>>) -> Seq<u8>
    decreases ents.len(),
{
    if ents.len() == 0 {
        s
    } else {
        with_entries(s, ents.drop_last()).put_bool(true).put_fixed(ents.last())
    }
}

/// The room that entries take.
pub open spec fn room(ents: Seq<Seq<u8>>) -> int
    decreases ents.len(),
{
    if ents.len() == 0 {
        0
    } else {
        room(ents.drop_last()) + ents.last().len() + 4
    }
}

/// Each of these is the entry at its place.
pub open spec fn are_entries(
    ents: Seq<Seq<u8>>,
    entries: Seq<DirEntry>,
    want: Words,
    share: u16,
    key: Seq<u8>,
    fsstat: FsStat,
) -> bool {
    &&& ents.len() <= entries.len()
    &&& forall|i: int|
        0 <= i < ents.len() ==> tells_entry(
            #[trigger] ents[i],
            entries[i],
            want,
            share,
            key,
            fsstat,
        )
}

/// A listing ends where the next entry would not fit.
pub open spec fn ends_there(
    ents: Seq<Seq<u8>>,
    entries: Seq<DirEntry>,
    budget: int,
    want: Words,
    share: u16,
    key: Seq<u8>,
    fsstat: FsStat,
) -> bool {
    ents.len() < entries.len() ==> exists|next: Seq<u8>|
        room(ents) + next.len() + 8 > budget && #[trigger] tells_entry(
            next,
            entries[ents.len() as int],
            want,
            share,
            key,
            fsstat,
        )
}

/// What a listing wrote, and whether it is all.
pub open spec fn listing_told(
    s: Seq<u8>,
    out: Seq<u8>,
    all: bool,
    ents: Seq<Seq<u8>>,
    entries: Seq<DirEntry>,
    budget: int,
    want: Words,
    share: u16,
    key: Seq<u8>,
    fsstat: FsStat,
) -> bool {
    &&& out == with_entries(s, ents)
    &&& are_entries(ents, entries, want, share, key, fsstat)
    &&& ends_there(ents, entries, budget, want, share, key, fsstat)
    &&& all <==> ents.len() == entries.len()
    &&& ents.len() > 0 ==> room(ents) + 4 <= budget
}

proof fn entry_is_told(e: DirEntry, want: Words, share: u16, key: Seq<u8>, fsstat: FsStat)
    ensures
        tells_entry(entry_bytes(e, want, share, key, fsstat), e, want, share, key, fsstat),
{
    let cookie: u64 = if e.cookie >= 3 {
        e.cookie
    } else {
        3
    };
    fattr_is_joined(
        Seq::<u8>::empty().put_u64(cookie).put_opaque(e.name@),
        want,
        Source {
            attr: shown_attr(e),
            fileid: e.node.ino,
            share,
            fh: Some(fh_bytes(key, share, e.node)),
            fsstat,
        },
    );
}

proof fn listing_goes_on(
    s: Seq<u8>,
    ents: Seq<Seq<u8>>,
    entries: Seq<DirEntry>,
    budget: int,
    want: Words,
    share: u16,
    key: Seq<u8>,
    fsstat: FsStat,
) -> (res: Seq<Seq<u8>>)
    requires
        are_entries(ents, entries, want, share, key, fsstat),
        ents.len() > 0 ==> room(ents) + 4 <= budget,
    ensures
        ({
            let (out, all) = put_listing(
                with_entries(s, ents),
                entries,
                ents.len(),
                budget - room(ents),
                want,
                share,
                key,
                fsstat,
            );
            listing_told(s, out, all, res, entries, budget, want, share, key, fsstat)
        }),
    decreases entries.len() - ents.len(),
{
    if ents.len() >= entries.len() {
        ents
    } else {
        let e = entries[ents.len() as int];
        let ent = entry_bytes(e, want, share, key, fsstat);
        entry_is_told(e, want, share, key, fsstat);
        if ent.len() + 8 > budget - room(ents) {
            assert(tells_entry(ent, entries[ents.len() as int], want, share, key, fsstat));
            ents
        } else {
            let next = ents.push(ent);
            assert(next.drop_last() =~= ents);
            assert forall|i: int| 0 <= i < next.len() implies tells_entry(
                #[trigger] next[i],
                entries[i],
                want,
                share,
                key,
                fsstat,
            ) by {
                if i < ents.len() {
                    assert(next[i] == ents[i]);
                }
            }
            assert(room(next) == room(ents) + ent.len() + 4);
            listing_goes_on(s, next, entries, budget, want, share, key, fsstat)
        }
    }
}

/// READDIR tells the directory's verifier and the entries of the page in order, as many as fit, and
/// whether the listing is complete. No more than was asked for is told, nor more than a record holds.
pub proof fn readdir_tells(
    op: u32,
    req: &OpReq,
    ctx: &mut Ctx,
    info: &SurfaceInfo,
    codec: &HandleCodec,
    env: &Env,
    st: &mut State,
    ans: &Vec<Answer>,
    out: &mut XdrWriter,
    turn: Turn41,
    share: u16,
    node: NodeKey,
    cookie: u64,
    maxcount: u32,
    want: Words,
    page: ReadDirPage,
) -> (ents: Seq<Seq<u8>>)
    requires
        call_ensures(eval_op, (op, req, ctx, info, codec, env, st, ans, out), turn),
        old(ctx).cfh == Some((share, node)),
        req@ == (OpSpec::Readdir { cookie, maxcount, want }),
        ans@.len() == 1,
        ans@[0] == Answer::Page(Ok(page)),
    ensures
        turn == Turn41::Done(0),
        ({
            let budget: int = if maxcount <= 2_096_640 {
                maxcount as int
            } else {
                2_096_640
            };
            let head = old(out)@.put_u32(op).put_u32(0).put_u64(page.cookieverf);
            &&& are_entries(ents, page.entries@, want, share, codec.key(), info.fsstat)
            &&& ends_there(ents, page.entries@, budget, want, share, codec.key(), info.fsstat)
            &&& ents.len() > 0 ==> room(ents) + 4 <= budget
            &&& final(out)@ == with_entries(head, ents).put_bool(false).put_bool(
                page.eof && ents.len() == page.entries@.len(),
            )
        }),
        *final(st) == *old(st),
        final(ctx)@ == old(ctx)@,
{
    let budget: int = if maxcount <= 2_096_640 {
        maxcount as int
    } else {
        2_096_640
    };
    let head = old(out)@.put_u32(op).put_u32(0).put_u64(page.cookieverf);
    let none = Seq::<Seq<u8>>::empty();
    assert(with_entries(head, none) == head);
    assert(room(none) == 0);
    listing_goes_on(
        head,
        none,
        page.entries@,
        budget,
        want,
        share,
        codec.key(),
        info.fsstat,
    )
}

/// The change attribute is the same for the same times and size, and another one where just one of
/// the seconds and nanoseconds of the two times and the size differs.
pub proof fn changes_are_told(a: &Attr, b: &Attr, ha: u64, hb: u64)
    requires
        call_ensures(change_of, (a,), ha),
        call_ensures(change_of, (b,), hb),
    ensures
        a.mtime == b.mtime && a.ctime == b.ctime && a.size == b.size ==> ha == hb,
        a.mtime.sec != b.mtime.sec && a.mtime.nsec == b.mtime.nsec && a.ctime == b.ctime && a.size
            == b.size ==> ha != hb,
        a.mtime.sec == b.mtime.sec && a.mtime.nsec != b.mtime.nsec && a.ctime == b.ctime && a.size
            == b.size ==> ha != hb,
        a.mtime == b.mtime && a.ctime.sec != b.ctime.sec && a.ctime.nsec == b.ctime.nsec && a.size
            == b.size ==> ha != hb,
        a.mtime == b.mtime && a.ctime.sec == b.ctime.sec && a.ctime.nsec != b.ctime.nsec && a.size
            == b.size ==> ha != hb,
        a.mtime == b.mtime && a.ctime == b.ctime && a.size != b.size ==> ha != hb,
{
    let x = change_words(*a);
    let y = change_words(*b);
    let ms = a.mtime.sec;
    let ns = b.mtime.sec;
    let mc = a.ctime.sec;
    let nc = b.ctime.sec;
    if ms != ns {
        assert(ms as u64 != ns as u64) by (bit_vector)
            requires
                ms != ns,
        ;
    }
    if mc != nc {
        assert(mc as u64 != nc as u64) by (bit_vector)
            requires
                mc != nc,
        ;
    }
    if x[0] != y[0] && x[1] == y[1] && x[2] == y[2] && x[3] == y[3] && x[4] == y[4] {
        one_change_rotates(FNV_BASIS, x, y, 0);
    }
    if x[0] == y[0] && x[1] != y[1] && x[2] == y[2] && x[3] == y[3] && x[4] == y[4] {
        one_change_rotates(FNV_BASIS, x, y, 1);
    }
    if x[0] == y[0] && x[1] == y[1] && x[2] != y[2] && x[3] == y[3] && x[4] == y[4] {
        one_change_rotates(FNV_BASIS, x, y, 2);
    }
    if x[0] == y[0] && x[1] == y[1] && x[2] == y[2] && x[3] != y[3] && x[4] == y[4] {
        one_change_rotates(FNV_BASIS, x, y, 3);
    }
    if x[0] == y[0] && x[1] == y[1] && x[2] == y[2] && x[3] == y[3] && x[4] != y[4] {
        one_change_rotates(FNV_BASIS, x, y, 4);
    }
}

} // verus!
