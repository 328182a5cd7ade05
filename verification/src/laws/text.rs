//! Numbers, texts and bytes in writing, and the plain parts of answers.
use crate::base64::{b64, b64_round_trip, b64decode};
use crate::bench::all_received;
use crate::bytes::{has_prefix, order, put_le, same_bytes, Order};
use crate::chars::{is_space, strip, trim, trim_end, trim_start};
use crate::fsx::{compare_now, first_diff, log_line, mismatch_at, Fsx, FsxOp, Rng};
use crate::hex::{hex, vm_uuid_from_hex};
use crate::resolve::net::ascii_bytes;
use crate::surface::{default_answer, Answer, Ask, NfsError, NfsResult, SendRange};
use crate::text::{dec_chars, dec_digits, dec_value, decimal, decimal_text, parse_number};
use crate::types::{Attr, NodeKey};
use std::collections::VecDeque;
use vstd::prelude::*;

verus! {

/// What digits are worth, each ten times the one behind it.
pub open spec fn worth(s: Seq<u8>) -> int {
    s.fold_left(0int, |n: int, b: u8| 10 * n + (b - 48))
}

proof fn worth_is_value(s: Seq<u8>)
    requires
        forall|i: int| 0 <= i < s.len() ==> 48 <= #[trigger] s[i] <= 57,
    ensures
        worth(s) == dec_value(s),
    decreases s.len(),
{
    if s.len() > 0 {
        let p = s.drop_last();
        assert forall|i: int| 0 <= i < p.len() implies 48 <= #[trigger] p[i] <= 57 by {
            assert(p[i] == s[i]);
        }
        worth_is_value(p);
        assert(48 <= s[s.len() - 1] <= 57);
    }
}

proof fn digits_write(n: nat)
    ensures
        dec_digits(n).len() > 0,
        forall|i: int| 0 <= i < dec_digits(n).len() ==> 48 <= #[trigger] dec_digits(n)[i] <= 57,
        worth(dec_digits(n)) == n,
        dec_digits(n).len() > 1 ==> dec_digits(n)[0] != 48,
        n > 0 ==> dec_digits(n)[0] != 48,
    decreases n,
{
    let d = dec_digits(n);
    if n >= 10 {
        let p = dec_digits(n / 10);
        digits_write(n / 10);
        assert(d.drop_last() =~= p);
        assert forall|i: int| 0 <= i < d.len() implies 48 <= #[trigger] d[i] <= 57 by {
            if i < p.len() {
                assert(d[i] == p[i]);
            }
        }
        assert(d[0] == p[0]);
    } else {
        assert(d.drop_last() =~= Seq::<u8>::empty());
        assert(d.len() == 1);
        reveal_with_fuel(Seq::fold_left, 2);
    }
}

/// A number is written in decimal digits that are worth it, without a leading zero.
pub proof fn numbers_are_written(v: u64, s: Vec<u8>, i: int)
    requires
        call_ensures(decimal, (v,), s),
    ensures
        worth(s@) == v,
        s@.len() > 0,
        0 <= i < s@.len() ==> 48 <= s@[i] <= 57,
        s@.len() > 1 ==> s@[0] != 48,
{
    digits_write(v as nat);
}

/// A number as text has the same digits.
pub proof fn numbers_are_texts(v: u64, s: String, d: Vec<u8>)
    requires
        call_ensures(decimal_text, (v,), s),
        call_ensures(decimal, (v,), d),
    ensures
        s@.len() == d@.len(),
        forall|i: int| 0 <= i < s@.len() ==> s@[i] == d@[i] as char,
{
}

/// Digits, after a plus sign if there is one.
pub open spec fn unsigned(s: Seq<u8>) -> Seq<u8> {
    if s.len() > 0 && s[0] == 43 {
        s.skip(1)
    } else {
        s
    }
}

/// Every byte is a decimal digit.
pub open spec fn only_digits(s: Seq<u8>) -> bool {
    forall|i: int| 0 <= i < s.len() ==> 48 <= #[trigger] s[i] <= 57
}

proof fn digits_are_told(s: Seq<u8>)
    ensures
        only_digits(s) <==> crate::text::all_digits(s),
        only_digits(s) ==> worth(s) == dec_value(s),
{
    if crate::text::all_digits(s) {
        assert forall|i: int| 0 <= i < s.len() implies 48 <= #[trigger] s[i] <= 57 by {
            assert(crate::text::is_digit(s[i]));
        }
    }
    if only_digits(s) {
        worth_is_value(s);
    }
}

/// A number is read from digits, after a plus sign if there is one, if it is not too large.
pub proof fn numbers_are_read(s: &[u8], max: u64, r: Option<u64>)
    requires
        call_ensures(parse_number, (s, max), r),
    ensures
        r is Some <==> unsigned(s@).len() > 0 && only_digits(unsigned(s@)) && worth(unsigned(s@))
            <= max,
        r is Some ==> r->0 == worth(unsigned(s@)),
{
    digits_are_told(unsigned(s@));
}

/// What a hexadecimal digit stands for.
pub open spec fn nibble(c: u8) -> int {
    if 48 <= c <= 57 {
        c - 48
    } else if 97 <= c <= 102 {
        c - 97 + 10
    } else if 65 <= c <= 70 {
        c - 65 + 10
    } else {
        -1
    }
}

/// Bytes are written as two small hexadecimal digits each, the higher one first.
pub proof fn bytes_are_two_digits(b: &[u8], s: Vec<u8>, i: int)
    requires
        call_ensures(hex, (b,), s),
        0 <= i < b@.len(),
    ensures
        s@.len() == 2 * b@.len(),
        nibble(s@[2 * i]) * 16 + nibble(s@[2 * i + 1]) == b@[i],
        nibble(s@[2 * i]) >= 0 && nibble(s@[2 * i + 1]) >= 0,
        !(65 <= s@[2 * i] <= 70) && !(65 <= s@[2 * i + 1] <= 70),
{
    assert((2 * i) / 2 == i);
    assert((2 * i + 1) / 2 == i);
}

/// An identity is read from thirty-two hexadecimal digits of either case, and from nothing else.
pub proof fn identities_are_read(s: &[u8], r: Option<[u8; 16]>, i: int)
    requires
        call_ensures(vm_uuid_from_hex, (s,), r),
    ensures
        r is Some <==> s@.len() == 32 && forall|k: int|
            0 <= k < 32 ==> nibble(#[trigger] s@[k]) >= 0,
        r is Some && 0 <= i < 16 ==> r->0@[i] == nibble(s@[2 * i]) * 16 + nibble(s@[2 * i + 1]),
{
    if s@.len() == 32 && (forall|k: int| 0 <= k < 32 ==> nibble(#[trigger] s@[k]) >= 0) {
        assert(crate::hex::is_hex(s@)) by {
            assert forall|k: int| 0 <= k < s@.len() implies crate::hex::digit_value(
                #[trigger] s@[k],
            ) is Some by {
                assert(nibble(s@[k]) >= 0);
            }
        }
    }
    if r is Some {
        assert forall|k: int| 0 <= k < 32 implies nibble(#[trigger] s@[k]) >= 0 by {
            assert(crate::hex::digit_value(s@[k]) is Some);
        }
        if 0 <= i < 16 {
            assert(crate::hex::digit_value(s@[2 * i]) is Some);
            assert(crate::hex::digit_value(s@[2 * i + 1]) is Some);
        }
    }
}

/// Bytes in base64 are read back as they were.
pub proof fn base64_reads_back(data: &[u8], s: String, t: &str, r: Result<Vec<u8>, u8>)
    requires
        call_ensures(b64, (data,), s),
        t@ == s@,
        call_ensures(b64decode, (t,), r),
    ensures
        r is Ok,
        r->Ok_0@ == data@,
{
    b64_round_trip(data@);
}

/// Of two byte strings the one that is smaller at the first place where they differ comes first,
/// or the one that ends there.
pub open spec fn comes_first(a: Seq<u8>, b: Seq<u8>) -> bool {
    exists|k: int|
        {
            &&& 0 <= k <= a.len()
            &&& k < b.len()
            &&& k == a.len() || a[k] < b[k]
            &&& #[trigger] same_until(a, b, k)
        }
}

/// Two strings are the same before a place.
pub open spec fn same_until(a: Seq<u8>, b: Seq<u8>, k: int) -> bool {
    forall|i: int| 0 <= i < k ==> a[i] == b[i]
}

proof fn below_comes_first(a: Seq<u8>, b: Seq<u8>)
    requires
        crate::bytes::below(a, b),
    ensures
        comes_first(a, b),
    decreases a.len(),
{
    if a.len() == 0 {
        assert(same_until(a, b, 0));
    } else if a[0] != b[0] {
        assert(same_until(a, b, 0));
    } else {
        let x = a.skip(1);
        let y = b.skip(1);
        below_comes_first(x, y);
        let k = choose|k: int|
            {
                &&& 0 <= k <= x.len()
                &&& k < y.len()
                &&& k == x.len() || x[k] < y[k]
                &&& #[trigger] same_until(x, y, k)
            };
        assert forall|i: int| 0 <= i < k + 1 implies a[i] == b[i] by {
            if i > 0 {
                assert(x[i - 1] == a[i] && y[i - 1] == b[i]);
            }
        }
        assert(same_until(a, b, k + 1));
    }
}

/// Byte strings are ordered by their first difference.
pub proof fn strings_are_ordered(a: &[u8], b: &[u8], o: Order)
    requires
        call_ensures(order, (a, b), o),
    ensures
        o is Same <==> a@ == b@,
        o is First ==> comes_first(a@, b@),
        o is Second ==> comes_first(b@, a@),
{
    if o is First {
        below_comes_first(a@, b@);
    }
    if o is Second {
        below_comes_first(b@, a@);
    }
}

proof fn trim_start_trims(s: Seq<char>)
    ensures
        trim_start(s).len() <= s.len(),
        trim_start(s) == s.skip(s.len() - trim_start(s).len()),
        trim_start(s).len() > 0 ==> !crate::chars::space(trim_start(s)[0]),
        forall|i: int|
            0 <= i < s.len() - trim_start(s).len() ==> crate::chars::space(#[trigger] s[i]),
    decreases s.len(),
{
    if s.len() > 0 && crate::chars::space(s[0]) {
        let t = s.skip(1);
        trim_start_trims(t);
        let n = trim_start(s).len();
        assert(t.skip(t.len() - n) =~= s.skip(s.len() - n));
        assert forall|i: int| 0 <= i < s.len() - n implies crate::chars::space(#[trigger] s[i]) by {
            if i > 0 {
                assert(t[i - 1] == s[i]);
            }
        }
    } else {
        assert(s.skip(0) =~= s);
    }
}

proof fn trim_end_trims(s: Seq<char>)
    ensures
        trim_end(s).len() <= s.len(),
        trim_end(s) == s.take(trim_end(s).len() as int),
        trim_end(s).len() > 0 ==> !crate::chars::space(trim_end(s).last()),
        forall|i: int| trim_end(s).len() <= i < s.len() ==> crate::chars::space(#[trigger] s[i]),
    decreases s.len(),
{
    if s.len() > 0 && crate::chars::space(s.last()) {
        let t = s.drop_last();
        trim_end_trims(t);
        let n = trim_end(s).len();
        assert(t.take(n as int) =~= s.take(n as int));
        assert forall|i: int| n <= i < s.len() implies crate::chars::space(#[trigger] s[i]) by {
            if i < t.len() {
                assert(t[i] == s[i]);
            }
        }
    } else {
        assert(s.take(s.len() as int) =~= s);
    }
}

/// A text is trimmed by what is around it: only spaces go, and the ends of what is left are none.
pub proof fn texts_are_trimmed(v: &[char], r: Vec<char>, k: int)
    requires
        call_ensures(trim, (v,), r),
        k == trim_start(v@).len(),
    ensures
        r@.len() <= k <= v@.len(),
        r@ == v@.subrange(v@.len() - k, v@.len() - k + r@.len()),
        r@.len() > 0 ==> !crate::chars::space(r@[0]) && !crate::chars::space(r@.last()),
        forall|i: int| 0 <= i < v@.len() - k ==> crate::chars::space(#[trigger] v@[i]),
        forall|i: int|
            v@.len() - k + r@.len() <= i < v@.len() ==> crate::chars::space(#[trigger] v@[i]),
{
    let s = v@;
    let t = trim_start(s);
    trim_start_trims(s);
    trim_end_trims(t);
    assert(r@ =~= s.subrange(s.len() - k, s.len() - k + r@.len()));
    if r@.len() > 0 {
        assert(r@[0] == t[0]);
    }
    assert forall|i: int| s.len() - k + r@.len() <= i < s.len() implies crate::chars::space(
        #[trigger] s[i],
    ) by {
        assert(t[i - (s.len() - k)] == s[i]);
    }
}

/// Spaces are the blank, the tabulators and line ends, and the wide ones.
pub proof fn spaces_are_told(c: char, r: bool)
    requires
        call_ensures(is_space, (c,), r),
    ensures
        c == ' ' || c == '\t' || c == '\n' || c == '\r' ==> r,
        'a' <= c <= 'z' || 'A' <= c <= 'Z' || '0' <= c <= '9' || c == '_' || c == '/' || c == '.'
            ==> !r,
{
}

/// What follows a prefix is the text without it.
pub proof fn prefixes_are_stripped(v: &[char], prefix: &str, r: Option<Vec<char>>)
    requires
        call_ensures(strip, (v, prefix), r),
    ensures
        r is Some ==> v@ == prefix@ + r->0@,
        r is None ==> forall|rest: Seq<char>| v@ != #[trigger] (prefix@ + rest),
{
    if r is Some {
        assert(v@ =~= prefix@ + r->0@);
    } else {
        assert forall|rest: Seq<char>| v@ != #[trigger] (prefix@ + rest) by {
            if v@ == prefix@ + rest {
                assert(v@.take(prefix@.len() as int) =~= prefix@);
            }
        }
    }
}

/// An answer of another sort than was asked for counts as an I/O error.
pub proof fn answers_are_of_their_sort(
    a: &Answer,
    attr: NfsResult<Attr>,
    entry: NfsResult<(NodeKey, Attr)>,
    parent: NfsResult<NodeKey>,
    done: NfsResult<()>,
    range: Option<SendRange>,
)
    requires
        call_ensures(Answer::attr, (a,), attr),
        call_ensures(Answer::entry, (a,), entry),
        call_ensures(Answer::parent, (a,), parent),
        call_ensures(Answer::done, (a,), done),
        call_ensures(Answer::range, (a,), range),
    ensures
        *a is Attr ==> attr == a->Attr_0,
        !(*a is Attr) ==> attr is Err && attr->Err_0 is Io,
        *a is Entry ==> entry == a->Entry_0,
        !(*a is Entry) ==> entry is Err && entry->Err_0 is Io,
        *a is Parent ==> parent == a->Parent_0,
        !(*a is Parent) ==> parent is Err && parent->Err_0 is Io,
        *a is Done ==> done == a->Done_0,
        !(*a is Done) ==> done is Err && done->Err_0 is Io,
        *a is Range ==> range == a->Range_0,
        !(*a is Range) ==> range is None,
{
}

/// A tree that can do nothing of its own is read-only: every change is refused as such.
pub proof fn plain_trees_are_read_only(ask: &Ask, r: Option<Answer>)
    requires
        call_ensures(default_answer, (ask,), r),
    ensures
        *ask is Create ==> r == Some(Answer::Entry(Err(NfsError::Rofs))),
        *ask is Remove || *ask is Rename ==> r == Some(Answer::Done(Err(NfsError::Rofs))),
        *ask is Setattr || *ask is Write || *ask is Commit ==> r == Some(
            Answer::Attr(Err(NfsError::Rofs)),
        ),
        *ask is Parent ==> r == Some(Answer::Parent(Err(NfsError::NoEnt))),
        *ask is ReadSendable ==> r == Some(Answer::Range(None)),
        *ask is Getattr || *ask is Lookup || *ask is Readdir || *ask is Readlink || *ask is Read
            ==> r is None,
{
}

/// The model after a write holds the byte where it was written and what it held elsewhere; after a
/// truncation it is cut or padded with zeros; reads and reopening change nothing.
pub proof fn models_follow_the_operations(f: &mut Fsx, op: FsxOp, i: int)
    requires
        call_ensures(Fsx::step, (f,), op),
        old(f).wf(),
    ensures
        final(f).max_size == old(f).max_size,
        final(f).model@.len() <= final(f).max_size,
        op is Write ==> {
            let end = op->Write_off + op->Write_len;
            &&& end <= old(f).max_size
            &&& final(f).model@.len() >= end && final(f).model@.len() >= old(f).model@.len()
            &&& final(f).model@.len() == end || final(f).model@.len() == old(f).model@.len()
            &&& op->Write_off <= i < end ==> final(f).model@[i] == op->byte
            &&& 0 <= i < old(f).model@.len() && !(op->Write_off <= i < end) ==> final(f).model@[i]
                == old(f).model@[i]
        },
        op is Truncate ==> {
            &&& final(f).model@.len() == op->size
            &&& 0 <= i < op->size && i < old(f).model@.len() ==> final(f).model@[i] == old(
                f).model@[i]
            &&& old(f).model@.len() <= i < op->size ==> final(f).model@[i] == 0
        },
        op is Read ==> final(f).model@ == old(f).model@ && op->Read_off + op->Read_len <= old(
            f).model@.len(),
        op is Reopen ==> final(f).model@ == old(f).model@,
{
}

/// What was read is right where each byte is the model's.
pub proof fn reads_are_compared(f: &Fsx, off: usize, got: &[u8], r: bool)
    requires
        call_ensures(Fsx::matches, (f, off, got), r),
        off + got@.len() <= f.model@.len(),
    ensures
        r <==> forall|i: int| 0 <= i < got@.len() ==> got@[i] == f.model@[off + i],
{
    let want = f.model@.subrange(off as int, off + got@.len());
    if forall|i: int| 0 <= i < got@.len() ==> got@[i] == f.model@[off + i] {
        assert(got@ =~= want);
    }
    if got@ == want {
        assert forall|i: int| 0 <= i < got@.len() implies got@[i] == f.model@[off + i] by {
            assert(want[i] == f.model@[off + i]);
        }
    }
}

/// A number that is drawn is below its bound.
pub proof fn drawn_numbers_are_bounded(g: &mut Rng, n: usize, v: usize)
    requires
        call_ensures(Rng::below, (g, n), v),
    ensures
        n > 0 ==> v < n,
        n == 0 ==> v == 0 && *final(g) == *old(g),
{
}

proof fn diff_is_first(a: Seq<u8>, b: Seq<u8>)
    ensures
        ({
            let n = first_diff(a, b) as int;
            &&& n <= a.len() && n <= b.len()
            &&& forall|i: int| 0 <= i < n ==> a[i] == b[i]
            &&& n < a.len() && n < b.len() ==> a[n] != b[n]
        }),
    decreases a.len(),
{
    if a.len() > 0 && b.len() > 0 && a[0] == b[0] {
        let x = a.skip(1);
        let y = b.skip(1);
        diff_is_first(x, y);
        let n = first_diff(x, y) as int;
        assert forall|i: int| 0 <= i < n + 1 implies a[i] == b[i] by {
            if i > 0 {
                assert(x[i - 1] == a[i] && y[i - 1] == b[i]);
            }
        }
        if n < x.len() && n < y.len() {
            assert(x[n] == a[n + 1] && y[n] == b[n + 1]);
        }
    }
}

/// The first difference is told: nothing before it differs, and there they do, or one ends.
pub proof fn first_difference_is_told(got: &[u8], want: &[u8], n: usize)
    requires
        call_ensures(mismatch_at, (got, want), n),
    ensures
        n <= got@.len() && n <= want@.len(),
        forall|i: int| 0 <= i < n ==> got@[i] == want@[i],
        n < got@.len() && n < want@.len() ==> got@[n as int] != want@[n as int],
{
    diff_is_first(got@, want@);
}

/// The log keeps the last sixteen lines.
pub proof fn last_lines_are_kept(log: &mut VecDeque<String>, line: String)
    requires
        call_ensures(crate::fsx::push, (log, line), ()),
        old(log)@.len() <= 16,
    ensures
        0 < final(log)@.len() <= 16,
        final(log)@.last() == line,
        old(log)@.len() < 16 ==> final(log)@.drop_last() == old(log)@,
        old(log)@.len() == 16 ==> final(log)@.drop_last() == old(log)@.skip(1),
{
    assert(old(log)@.push(line).drop_last() =~= old(log)@);
    assert(old(log)@.skip(1).push(line).drop_last() =~= old(log)@.skip(1));
}

/// The whole file is compared after every 256 operations.
pub proof fn files_are_compared_now_and_then(op: u64, r: bool)
    requires
        call_ensures(compare_now, (op,), r),
    ensures
        r <==> (op + 1) % 256 == 0,
{
}

/// All that was sent came where the other side says a number that is not smaller.
pub proof fn transfers_are_complete(
    reason: &str,
    sent: u64,
    r: Result<(), u64>,
    v: &[char],
    b: Vec<u8>,
    digits: &[u8],
    n: Option<u64>,
    max: u64,
)
    requires
        call_ensures(all_received, (reason, sent), r),
        v@ == reason@,
        call_ensures(ascii_bytes, (v,), b),
        digits@ == b@,
        max == u64::MAX,
        call_ensures(parse_number, (digits, max), n),
    ensures
        n is Some ==> (r is Ok <==> n->0 >= sent),
        n is Some && r is Err ==> r->Err_0 == n->0,
        n is None && sent > 0 ==> r is Err && r->Err_0 == 0,
{
}

/// The value of a little-endian number is in its bytes, the lowest first.
pub proof fn little_ends_come_first(out: &mut Vec<u8>, v: u64, n: usize)
    requires
        call_ensures(put_le, (out, v, n), ()),
        n == 8 || n == 4,
    ensures
        final(out)@.len() == old(out)@.len() + n,
        final(out)@.take(old(out)@.len() as int) == old(out)@,
        final(out)@[old(out)@.len() as int] == v % 256,
        final(out)@[old(out)@.len() as int + 1] == v / 256 % 256,
        final(out)@[old(out)@.len() as int + 2] == v / 256 / 256 % 256,
        final(out)@[old(out)@.len() as int + 3] == v / 256 / 256 / 256 % 256,
{
    reveal_with_fuel(crate::bytes::le_bytes, 10);
    let b = crate::bytes::le_bytes(v as nat, n as nat);
    assert(final(out)@.take(old(out)@.len() as int) =~= old(out)@);
    let a = old(out)@.len() as int;
    assert(b.len() == n);
    assert(final(out)@[a] == b[0] && final(out)@[a + 1] == b[1] && final(out)@[a + 2] == b[2]
        && final(out)@[a + 3] == b[3]);
}

/// A line of the log tells the number of the operation and what it did.
pub proof fn log_lines_are_told(op: u64, what: &FsxOp, s: String)
    requires
        call_ensures(log_line, (op, what), s),
    ensures
        *what is Truncate ==> s@ == dec_chars(op as nat) + (": truncate "@ + dec_chars(
            what->size as nat,
        )),
        *what is Read ==> s@ == dec_chars(op as nat) + (": read "@ + dec_chars(
            what->Read_len as nat,
        ) + "@"@ + dec_chars(what->Read_off as nat) + " ok"@),
        *what is Reopen ==> s@ == dec_chars(op as nat) + ": reopen"@,
        *what is Write ==> s@.len() > 0,
{
    if *what is Write {
        digits_write(op as nat);
    }
}

/// Bytes are the same where each one is, and a prefix is what a string begins with.
pub proof fn bytes_are_compared(a: &[u8], b: &[u8], same: bool, prefix: bool)
    requires
        call_ensures(same_bytes, (a, b), same),
        call_ensures(has_prefix, (a, b), prefix),
    ensures
        same <==> a@.len() == b@.len() && forall|i: int| 0 <= i < a@.len() ==> a@[i] == b@[i],
        prefix <==> a@.len() >= b@.len() && forall|i: int| 0 <= i < b@.len() ==> a@[i] == b@[i],
{
    if a@.len() == b@.len() && (forall|i: int| 0 <= i < a@.len() ==> a@[i] == b@[i]) {
        assert(a@ =~= b@);
    }
    let n = b@.len() as int;
    if a@.len() >= n {
        if forall|i: int| 0 <= i < b@.len() ==> a@[i] == b@[i] {
            assert(a@.take(n) =~= b@);
        }
        if prefix {
            assert(a@.take(n) == b@);
            assert forall|i: int| 0 <= i < b@.len() implies a@[i] == b@[i] by {
                assert(a@.take(n)[i] == a@[i]);
            }
        }
    }
}

/// Of a hundred operations fifty are writes, fifteen truncations and thirty reads, as a number that is
/// drawn first decides.
pub proof fn operations_are_drawn(f: &mut Fsx, op: FsxOp, g: &mut Rng, n: usize, dice: usize)
    requires
        call_ensures(Fsx::step, (f,), op),
        old(g).state == old(f).rng.state,
        n == 100,
        call_ensures(Rng::below, (g, n), dice),
    ensures
        op is Write <==> dice < 50,
        op is Truncate <==> 50 <= dice < 65,
        op is Read <==> 65 <= dice < 95,
        op is Reopen <==> dice >= 95,
{
}

/// The low sixty-four bits of a number.
pub open spec fn low(n: int) -> u64 {
    (n % 0x1_0000_0000_0000_0000) as u64
}

/// The generator can be repeated: the state moves on by a fixed step, and the number is mixed from it
/// by two multiplications.
pub proof fn numbers_can_be_repeated(g: &mut Rng, v: u64)
    requires
        call_ensures(Rng::next, (g,), v),
    ensures
        final(g).state == (old(g).state + 0x9E37_79B9_7F4A_7C15) % 0x1_0000_0000_0000_0000,
        ({
            let s = final(g).state;
            let a = low((s ^ (s >> 30)) * 0xBF58_476D_1CE4_E5B9);
            let b = low((a ^ (a >> 27)) * 0x94D0_49BB_1331_11EB);
            v == b ^ (b >> 31)
        }),
{
}

} // verus!
