//! Text as characters: lines, words, fields and what surrounds them.
use vstd::prelude::*;

verus! {

/// Appends a character to the end of the string, as `String::push` is documented to do.
pub assume_specification[ String::push ](s: &mut String, c: char)
    ensures
        final(s)@ == old(s)@.push(c),
;

/// The characters of a string.
pub fn chars_of(s: &str) -> (v: Vec<char>)
    ensures
        v@ == s@,
{
    let mut v: Vec<char> = Vec::new();
    for c in it: s.chars()
        invariant
            it.seq() == s@,
            v@ == s@.take(it.index() as int),
    {
        v.push(c);
    }
    v
}

/// The string of some characters.
pub fn string_of(v: &[char]) -> (s: String)
    ensures
        s@ == v@,
{
    let mut s = String::new();
    let mut i: usize = 0;
    proof {
        assert(s@ =~= v@.take(0));
    }
    while i < v.len()
        invariant
            i <= v@.len(),
            s@ == v@.take(i as int),
        decreases v@.len() - i,
    {
        s.push(v[i]);
        proof {
            assert(v@.take(i + 1) =~= v@.take(i as int).push(v@[i as int]));
        }
        i = i + 1;
    }
    proof {
        assert(v@.take(i as int) =~= v@);
    }
    s
}

/// Characters that separate words: those with Unicode's property `White_Space`.
pub open spec fn space(c: char) -> bool {
    ||| '\u{9}' <= c <= '\u{d}'
    ||| c == ' '
    ||| c == '\u{85}'
    ||| c == '\u{a0}'
    ||| c == '\u{1680}'
    ||| '\u{2000}' <= c <= '\u{200a}'
    ||| c == '\u{2028}'
    ||| c == '\u{2029}'
    ||| c == '\u{202f}'
    ||| c == '\u{205f}'
    ||| c == '\u{3000}'
}

pub fn is_space(c: char) -> (r: bool)
    ensures
        r == space(c),
{
    ('\u{9}' <= c && c <= '\u{d}') || c == ' ' || c == '\u{85}' || c == '\u{a0}' || c == '\u{1680}'
        || ('\u{2000}' <= c && c <= '\u{200a}') || c == '\u{2028}' || c == '\u{2029}' || c
        == '\u{202f}' || c == '\u{205f}' || c == '\u{3000}'
}

/// The text from its first character on that is no space.
pub open spec fn trim_start(s: Seq<char>) -> Seq<char>
    decreases s.len(),
{
    if s.len() > 0 && space(s[0]) {
        trim_start(s.skip(1))
    } else {
        s
    }
}

/// The text up to its last character that is no space.
pub open spec fn trim_end(s: Seq<char>) -> Seq<char>
    decreases s.len(),
{
    if s.len() > 0 && space(s.last()) {
        trim_end(s.drop_last())
    } else {
        s
    }
}

/// The text without the spaces around it.
pub open spec fn trimmed(s: Seq<char>) -> Seq<char> {
    trim_end(trim_start(s))
}

/// The parts between occurrences of `c`: always one more than there are of them.
pub open spec fn split(s: Seq<char>, c: char) -> Seq<Seq<char>>
    decreases s.len(),
{
    if s.len() == 0 {
        seq![seq![]]
    } else {
        let rest = split(s.skip(1), c);
        if s[0] == c {
            seq![Seq::<char>::empty()] + rest
        } else {
            rest.update(0, seq![s[0]] + rest[0])
        }
    }
}

/// A line without the carriage return that may end it.
pub open spec fn chomp(s: Seq<char>) -> Seq<char> {
    if s.len() > 0 && s.last() == '\r' {
        s.drop_last()
    } else {
        s
    }
}

/// The lines of a text: those that a line feed ends, without the carriage return before it, and
/// what follows the last line feed, unless that is empty.
pub open spec fn lines(s: Seq<char>) -> Seq<Seq<char>> {
    let parts = split(s, '\n');
    let ended = parts.drop_last().map_values(|l: Seq<char>| chomp(l));
    if parts.last().len() == 0 {
        ended
    } else {
        ended.push(parts.last())
    }
}

/// The first word and what follows it.
pub open spec fn word_end(s: Seq<char>) -> nat
    decreases s.len(),
{
    if s.len() == 0 || space(s[0]) {
        0
    } else {
        1 + word_end(s.skip(1))
    }
}

/// The parts between spaces.
pub open spec fn words(s: Seq<char>) -> Seq<Seq<char>>
    decreases s.len(),
{
    let t = trim_start(s);
    if t.len() == 0 || t.len() > s.len() || word_end(t) == 0 || word_end(t) > t.len() {
        seq![]
    } else {
        let n = word_end(t) as int;
        seq![t.take(n)] + words(t.skip(n))
    }
}

pub proof fn trim_start_shrinks(s: Seq<char>)
    ensures
        trim_start(s).len() <= s.len(),
        trim_start(s).len() > 0 ==> !space(trim_start(s)[0]),
        trim_start(s) == s.skip(s.len() - trim_start(s).len()),
    decreases s.len(),
{
    if s.len() > 0 && space(s[0]) {
        trim_start_shrinks(s.skip(1));
        assert(s.skip(1).skip(s.skip(1).len() - trim_start(s).len()) =~= s.skip(
            s.len() - trim_start(s).len(),
        ));
    } else {
        assert(s.skip(0) =~= s);
    }
}

pub proof fn word_end_bounded(s: Seq<char>)
    ensures
        word_end(s) <= s.len(),
        s.len() > 0 && !space(s[0]) ==> word_end(s) > 0,
    decreases s.len(),
{
    if s.len() > 0 && !space(s[0]) {
        word_end_bounded(s.skip(1));
    }
}

pub open spec fn views(list: Seq<Vec<char>>) -> Seq<Seq<char>> {
    Seq::new(list.len(), |i: int| list[i]@)
}

/// A part of a text.
pub fn part(v: &[char], from: usize, to: usize) -> (r: Vec<char>)
    requires
        from <= to <= v@.len(),
    ensures
        r@ == v@.subrange(from as int, to as int),
{
    let mut r: Vec<char> = Vec::new();
    let mut i: usize = from;
    while i < to
        invariant
            from <= i <= to <= v@.len(),
            r@ == v@.subrange(from as int, i as int),
        decreases to - i,
    {
        r.push(v[i]);
        proof {
            assert(v@.subrange(from as int, i + 1) =~= v@.subrange(from as int, i as int).push(
                v@[i as int],
            ));
        }
        i = i + 1;
    }
    r
}

/// The text without the spaces around it.
pub fn trim(v: &[char]) -> (r: Vec<char>)
    ensures
        r@ == trimmed(v@),
{
    let mut a: usize = 0;
    proof {
        assert(v@.skip(0) =~= v@);
    }
    while a < v.len() && is_space(v[a])
        invariant
            a <= v@.len(),
            trim_start(v@) == trim_start(v@.skip(a as int)),
        decreases v@.len() - a,
    {
        proof {
            assert(v@.skip(a as int).skip(1) =~= v@.skip(a + 1));
        }
        a = a + 1;
    }
    let mut b: usize = v.len();
    proof {
        assert(trim_start(v@) == v@.skip(a as int));
        assert(v@.skip(a as int) =~= v@.subrange(a as int, b as int));
    }
    while b > a && is_space(v[b - 1])
        invariant
            a <= b <= v@.len(),
            trim_end(v@.skip(a as int)) == trim_end(v@.subrange(a as int, b as int)),
        decreases b,
    {
        proof {
            assert(v@.subrange(a as int, b as int).drop_last() =~= v@.subrange(
                a as int,
                b - 1,
            ));
        }
        b = b - 1;
    }
    part(v, a, b)
}

pub proof fn split_is_some(s: Seq<char>, c: char)
    ensures
        split(s, c).len() > 0,
    decreases s.len(),
{
    if s.len() > 0 {
        split_is_some(s.skip(1), c);
    }
}

/// A part that ends at a separator is followed by the parts of the rest.
proof fn split_at(s: Seq<char>, c: char, n: int)
    requires
        0 <= n <= s.len(),
        forall|i: int| 0 <= i < n ==> s[i] != c,
    ensures
        n == s.len() ==> split(s, c) == seq![s],
        n < s.len() && s[n] == c ==> split(s, c) == seq![s.take(n)] + split(s.skip(n + 1), c),
    decreases n,
{
    if n == 0 {
        if s.len() > 0 {
            assert(s.take(0) =~= Seq::<char>::empty());
        } else {
            assert(s =~= Seq::<char>::empty());
        }
    } else {
        let t = s.skip(1);
        assert forall|i: int| 0 <= i < n - 1 implies t[i] != c by {
            assert(t[i] == s[i + 1]);
        }
        split_at(t, c, n - 1);
        split_is_some(t, c);
        if n == s.len() {
            assert(split(s, c) =~= seq![s]) by {
                assert(seq![s[0]] + t =~= s);
            }
        } else if s[n] == c {
            assert(t[n - 1] == c);
            assert(t.skip(n) =~= s.skip(n + 1));
            assert(seq![s[0]] + t.take(n - 1) =~= s.take(n));
            assert(split(s, c) =~= seq![s.take(n)] + split(s.skip(n + 1), c));
        }
    }
}

/// The parts between occurrences of `c`.
pub fn split_on(v: &[char], c: char) -> (list: Vec<Vec<char>>)
    ensures
        views(list@) == split(v@, c),
{
    let mut list: Vec<Vec<char>> = Vec::new();
    let mut a: usize = 0;
    let mut i: usize = 0;
    proof {
        assert(v@.skip(0) =~= v@);
        assert(views(list@) + split(v@, c) =~= split(v@, c));
    }
    while i < v.len()
        invariant
            a <= i <= v@.len(),
            forall|j: int| a <= j < i ==> v@[j] != c,
            views(list@) + split(v@.skip(a as int), c) == split(v@, c),
        decreases v@.len() - i,
    {
        if v[i] == c {
            let ghost rest = v@.skip(a as int);
            let ghost before = views(list@);
            let piece = part(v, a, i);
            proof {
                let n = i - a;
                assert forall|j: int| 0 <= j < n implies rest[j] != c by {
                    assert(rest[j] == v@[a + j]);
                }
                split_at(rest, c, n);
                assert(rest.take(n) =~= piece@);
                assert(rest.skip(n + 1) =~= v@.skip(i + 1));
            }
            list.push(piece);
            proof {
                assert(views(list@) =~= before.push(piece@));
                assert(views(list@) + split(v@.skip(i + 1), c) =~= before + split(rest, c));
            }
            a = i + 1;
        }
        i = i + 1;
    }
    let last = part(v, a, v.len());
    proof {
        let rest = v@.skip(a as int);
        assert forall|j: int| 0 <= j < rest.len() implies rest[j] != c by {
            assert(rest[j] == v@[a + j]);
        }
        split_at(rest, c, rest.len() as int);
        assert(last@ =~= rest);
    }
    let ghost before = views(list@);
    list.push(last);
    proof {
        assert(views(list@) =~= before + seq![last@]);
    }
    list
}

/// The lines of a text.
pub fn lines_of(v: &[char]) -> (list: Vec<Vec<char>>)
    ensures
        views(list@) == lines(v@),
{
    let parts = split_on(v, '\n');
    let ghost all = split(v@, '\n');
    proof {
        split_is_some(v@, '\n');
        assert(all.last() == parts@.last()@);
    }
    let last: usize = parts.len() - 1;
    let mut list: Vec<Vec<char>> = Vec::new();
    let mut i: usize = 0;
    while i < last
        invariant
            i <= last < parts@.len(),
            list@.len() == i,
            forall|j: int| 0 <= j < i ==> (#[trigger] list@[j])@ == chomp(parts@[j]@),
        decreases last - i,
    {
        let l = &parts[i];
        let n: usize = if l.len() > 0 && l[l.len() - 1] == '\r' {
            l.len() - 1
        } else {
            l.len()
        };
        let line = part(l.as_slice(), 0, n);
        proof {
            assert(line@ =~= chomp(l@));
        }
        list.push(line);
        i = i + 1;
    }
    proof {
        assert(views(list@) =~= all.drop_last().map_values(|l: Seq<char>| chomp(l)));
    }
    if parts[last].len() > 0 {
        let ghost ended = views(list@);
        let line = part(parts[last].as_slice(), 0, parts[last].len());
        proof {
            assert(line@ =~= all.last());
        }
        list.push(line);
        proof {
            assert(views(list@) =~= ended.push(all.last()));
        }
    }
    list
}

proof fn word_end_at(s: Seq<char>, n: int)
    requires
        0 <= n <= s.len(),
        forall|i: int| 0 <= i < n ==> !space(s[i]),
        n < s.len() ==> space(s[n]),
    ensures
        word_end(s) == n,
    decreases n,
{
    if n > 0 {
        let t = s.skip(1);
        assert forall|i: int| 0 <= i < n - 1 implies !space(t[i]) by {
            assert(t[i] == s[i + 1]);
        }
        if n < s.len() {
            assert(t[n - 1] == s[n]);
        }
        word_end_at(t, n - 1);
    }
}

/// The parts between spaces.
pub fn words_of(v: &[char]) -> (list: Vec<Vec<char>>)
    ensures
        views(list@) == words(v@),
{
    let mut list: Vec<Vec<char>> = Vec::new();
    let mut a: usize = 0;
    proof {
        assert(v@.skip(0) =~= v@);
        assert(views(list@) + words(v@) =~= words(v@));
    }
    loop
        invariant
            a <= v@.len(),
            views(list@) + words(v@.skip(a as int)) == words(v@),
        ensures
            views(list@) == words(v@),
        decreases v@.len() - a,
    {
        let ghost s = v@.skip(a as int);
        let start: usize = a;
        let mut b: usize = a;
        while b < v.len() && is_space(v[b])
            invariant
                start <= b <= v@.len(),
                s == v@.skip(start as int),
                trim_start(s) == trim_start(v@.skip(b as int)),
            decreases v@.len() - b,
        {
            proof {
                assert(v@.skip(b as int).skip(1) =~= v@.skip(b + 1));
            }
            b = b + 1;
        }
        let ghost t = v@.skip(b as int);
        proof {
            assert(trim_start(s) == t);
        }
        if b == v.len() {
            proof {
                assert(words(s) =~= seq![]);
                assert(views(list@) + words(s) =~= views(list@));
            }
            break;
        }
        let mut e: usize = b;
        while e < v.len() && !is_space(v[e])
            invariant
                b <= e <= v@.len(),
                forall|i: int| b <= i < e ==> !space(#[trigger] v@[i]),
            decreases v@.len() - e,
        {
            e = e + 1;
        }
        let word = part(v, b, e);
        let ghost before = views(list@);
        proof {
            let n = e - b;
            assert forall|i: int| 0 <= i < n implies !space(t[i]) by {
                assert(t[i] == v@[b + i]);
            }
            if n < t.len() {
                assert(t[n] == v@[e as int]);
            }
            word_end_at(t, n);
            assert(t.take(n) =~= word@);
            assert(t.skip(n) =~= v@.skip(e as int));
            assert(words(s) == seq![t.take(n)] + words(t.skip(n)));
        }
        list.push(word);
        proof {
            assert(views(list@) =~= before.push(word@));
            assert(views(list@) + words(v@.skip(e as int)) =~= before + words(s));
        }
        a = e;
    }
    list
}

/// Whether two texts are the same.
pub fn same_chars(a: &[char], b: &[char]) -> (r: bool)
    ensures
        r == (a@ == b@),
{
    if a.len() != b.len() {
        return false;
    }
    let mut i: usize = 0;
    while i < a.len()
        invariant
            a@.len() == b@.len(),
            i <= a@.len(),
            forall|j: int| 0 <= j < i ==> a@[j] == b@[j],
        decreases a@.len() - i,
    {
        if a[i] != b[i] {
            return false;
        }
        i = i + 1;
    }
    proof {
        assert(a@ =~= b@);
    }
    true
}

/// Whether a text starts with another.
pub open spec fn begins(s: Seq<char>, p: Seq<char>) -> bool {
    p.len() <= s.len() && s.take(p.len() as int) == p
}

/// What follows a prefix.
pub open spec fn after(s: Seq<char>, p: Seq<char>) -> Option<Seq<char>> {
    if begins(s, p) {
        Some(s.skip(p.len() as int))
    } else {
        None
    }
}

pub fn strip(v: &[char], prefix: &str) -> (r: Option<Vec<char>>)
    ensures
        match r {
            Some(t) => after(v@, prefix@) == Some(t@),
            None => after(v@, prefix@) is None,
        },
{
    let p = chars_of(prefix);
    if v.len() < p.len() {
        return None;
    }
    let head = part(v, 0, p.len());
    proof {
        assert(head@ =~= v@.take(p@.len() as int));
    }
    if same_chars(head.as_slice(), p.as_slice()) {
        let t = part(v, p.len(), v.len());
        proof {
            assert(t@ =~= v@.skip(p@.len() as int));
        }
        Some(t)
    } else {
        None
    }
}

/// Whether a text starts with another.
pub fn starts(s: &str, prefix: &str) -> (r: bool)
    ensures
        r == begins(s@, prefix@),
{
    let v = chars_of(s);
    strip(v.as_slice(), prefix).is_some()
}

/// Whether two texts are the same.
pub fn same_text(a: &str, b: &str) -> (r: bool)
    ensures
        r == (a@ == b@),
{
    let v = chars_of(a);
    is_text(v.as_slice(), b)
}

/// Whether characters spell a text.
pub fn is_text(v: &[char], s: &str) -> (r: bool)
    ensures
        r == (v@ == s@),
{
    let c = chars_of(s);
    same_chars(v, c.as_slice())
}

/// Where a character occurs first.
pub open spec fn first_at(s: Seq<char>, c: char) -> Option<int>
    decreases s.len(),
{
    if s.len() == 0 {
        None
    } else if s[0] == c {
        Some(0)
    } else {
        match first_at(s.skip(1), c) {
            Some(i) => Some(i + 1),
            None => None,
        }
    }
}

pub fn find(v: &[char], c: char) -> (r: Option<usize>)
    ensures
        match r {
            Some(i) => first_at(v@, c) == Some(i as int) && i < v@.len() && v@[i as int] == c,
            None => first_at(v@, c) is None,
        },
{
    let mut i: usize = 0;
    proof {
        assert(v@.skip(0) =~= v@);
    }
    while i < v.len()
        invariant
            i <= v@.len(),
            first_at(v@, c) == match first_at(v@.skip(i as int), c) {
                Some(k) => Some(i + k),
                None => None,
            },
        decreases v@.len() - i,
    {
        proof {
            assert(v@.skip(i as int)[0] == v@[i as int]);
            assert(v@.skip(i as int).skip(1) =~= v@.skip(i + 1));
        }
        if v[i] == c {
            return Some(i);
        }
        i = i + 1;
    }
    None
}

} // verus!
