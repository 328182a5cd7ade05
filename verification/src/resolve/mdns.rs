//! What VMs announce of themselves, as the system's tool prints it.
use crate::chars::{
    after, begins, chars_of, is_text, lines, lines_of, part, same_chars, string_of, strip, trim,
    trimmed, views, words, words_of,
};
use crate::hex::{uuid_in, vm_uuid_from_hex};
use crate::resolve::net::{ascii_bytes, ascii_of};
use crate::session::link::texts;
use crate::text::{number_in, parse_number};
use vstd::prelude::*;

verus! {

/// The port that a VM listens on unless it says otherwise.
pub const TCP_PORT: u16 = 6478;

/// Where a text occurs in another first.
pub open spec fn sub_at(s: Seq<char>, p: Seq<char>) -> Option<int>
    decreases s.len(),
{
    if begins(s, p) {
        Some(0)
    } else if s.len() == 0 {
        None
    } else {
        match sub_at(s.skip(1), p) {
            Some(i) => Some(i + 1),
            None => None,
        }
    }
}

/// Where a text occurs in another first.
pub fn find_sub(v: &[char], p: &str) -> (r: Option<usize>)
    ensures
        match r {
            Some(i) => sub_at(v@, p@) == Some(i as int) && i + p@.len() <= v@.len(),
            None => sub_at(v@, p@) is None,
        },
{
    let w = chars_of(p);
    let mut i: usize = 0;
    proof {
        assert(v@.skip(0) =~= v@);
    }
    loop
        invariant
            i <= v@.len(),
            w@ == p@,
            sub_at(v@, p@) == match sub_at(v@.skip(i as int), p@) {
                Some(k) => Some(i + k),
                None => None,
            },
        decreases v@.len() - i,
    {
        let ghost rest = v@.skip(i as int);
        if v.len() - i >= w.len() {
            let head = part(v, i, i + w.len());
            proof {
                assert(head@ =~= rest.take(w@.len() as int));
            }
            if same_chars(head.as_slice(), w.as_slice()) {
                return Some(i);
            }
        }
        if i == v.len() {
            return None;
        }
        proof {
            assert(rest.skip(1) =~= v@.skip(i + 1));
        }
        i = i + 1;
    }
}

/// Where the first word is that holds a text.
pub open spec fn word_with(cols: Seq<Seq<char>>, p: Seq<char>) -> Option<int>
    decreases cols.len(),
{
    if cols.len() == 0 {
        None
    } else if sub_at(cols[0], p) is Some {
        Some(0)
    } else {
        match word_with(cols.skip(1), p) {
            Some(i) => Some(i + 1),
            None => None,
        }
    }
}

fn find_word_with(cols: &Vec<Vec<char>>, p: &str) -> (r: Option<usize>)
    ensures
        match r {
            Some(i) => word_with(views(cols@), p@) == Some(i as int) && i < cols@.len(),
            None => word_with(views(cols@), p@) is None,
        },
{
    let ghost all = views(cols@);
    let mut i: usize = 0;
    proof {
        assert(all.skip(0) =~= all);
    }
    while i < cols.len()
        invariant
            i <= cols@.len(),
            all == views(cols@),
            word_with(all, p@) == match word_with(all.skip(i as int), p@) {
                Some(k) => Some(i + k),
                None => None,
            },
        decreases cols@.len() - i,
    {
        proof {
            assert(all.skip(i as int)[0] == cols@[i as int]@);
            assert(all.skip(i as int).skip(1) =~= all.skip(i + 1));
        }
        if find_sub(cols[i].as_slice(), p).is_some() {
            return Some(i);
        }
        i = i + 1;
    }
    None
}

/// Words with one space between each two.
pub open spec fn joined(cols: Seq<Seq<char>>) -> Seq<char>
    decreases cols.len(),
{
    if cols.len() == 0 {
        seq![]
    } else if cols.len() == 1 {
        cols[0]
    } else {
        joined(cols.drop_last()) + " "@ + cols.last()
    }
}

fn join(cols: &Vec<Vec<char>>, from: usize) -> (v: Vec<char>)
    requires
        from <= cols@.len(),
    ensures
        v@ == joined(views(cols@).skip(from as int)),
{
    let ghost all = views(cols@).skip(from as int);
    let mut v: Vec<char> = Vec::new();
    let mut i: usize = from;
    proof {
        reveal_strlit(" ");
        assert(all.take(0) =~= Seq::empty());
        assert(v@ =~= joined(all.take(0)));
    }
    while i < cols.len()
        invariant
            from <= i <= cols@.len(),
            all == views(cols@).skip(from as int),
            v@ == joined(all.take(i - from)),
            " "@ =~= seq![' '],
        decreases cols@.len() - i,
    {
        let ghost before = v@;
        if i > from {
            v.push(' ');
        }
        v.extend_from_slice(cols[i].as_slice());
        proof {
            let k = i - from;
            let t = all.take(k + 1);
            assert(t.drop_last() =~= all.take(k));
            assert(t.last() == cols@[i as int]@);
            if k == 0 {
                assert(before =~= Seq::<char>::empty());
                assert(t[0] == cols@[i as int]@);
                assert(v@ =~= t[0]);
            } else {
                assert(v@ =~= before + " "@ + cols@[i as int]@);
            }
        }
        i = i + 1;
    }
    proof {
        assert(all.take(i - from) =~= all);
    }
    v
}

/// The instance that a line announces: in a line whose second column says `Add`, what follows the
/// service's column; where that is not to be seen, what follows the fourth column after.
pub open spec fn announced(line: Seq<char>) -> Option<Seq<char>> {
    let cols = words(line);
    if cols.len() > 1 && cols[1] == "Add"@ {
        let name = match word_with(cols, "_mist._tcp"@) {
            Some(svc) => joined(cols.skip(svc + 1)),
            None => if cols.len() > 4 {
                joined(cols.skip(5))
            } else {
                seq![]
            },
        };
        if name.len() == 0 {
            None
        } else {
            Some(name)
        }
    } else {
        None
    }
}

/// The instances that the lines announce, each once, in the order in which they occur first.
pub open spec fn instances_in(rows: Seq<Seq<char>>) -> Seq<Seq<char>>
    decreases rows.len(),
{
    if rows.len() == 0 {
        seq![]
    } else {
        let before = instances_in(rows.drop_last());
        match announced(rows.last()) {
            Some(name) => if before.contains(name) {
                before
            } else {
                before.push(name)
            },
            None => before,
        }
    }
}

fn announced_by(line: &[char]) -> (r: Option<Vec<char>>)
    ensures
        match r {
            Some(n) => announced(line@) == Some(n@),
            None => announced(line@) is None,
        },
{
    let cols = words_of(line);
    proof {
        assert(cols@.len() == cols.len());
        assert(views(cols@).len() == cols@.len());
    }
    if cols.len() < 2 || !is_text(cols[1].as_slice(), "Add") {
        return None;
    }
    let name = match find_word_with(&cols, "_mist._tcp") {
        Some(svc) => join(&cols, svc + 1),
        None => if cols.len() > 4 {
            join(&cols, 5)
        } else {
            let none: Vec<char> = Vec::new();
            proof {
                assert(none@ =~= seq![]);
            }
            none
        },
    };
    if name.len() == 0 {
        None
    } else {
        Some(name)
    }
}

fn named(names: &Vec<Vec<char>>, n: &[char]) -> (r: bool)
    ensures
        r == views(names@).contains(n@),
{
    let mut i: usize = 0;
    while i < names.len()
        invariant
            i <= names@.len(),
            forall|j: int| 0 <= j < i ==> (#[trigger] names@[j])@ != n@,
        decreases names@.len() - i,
    {
        if same_chars(names[i].as_slice(), n) {
            proof {
                assert(views(names@)[i as int] == n@);
            }
            return true;
        }
        i = i + 1;
    }
    proof {
        if views(names@).contains(n@) {
            let k = views(names@).index_of(n@);
            assert(names@[k]@ == n@);
        }
    }
    false
}

/// The names of the instances in the output of `dns-sd -B`.
pub fn parse_dns_sd_browse(out: &str) -> (names: Vec<String>)
    ensures
        texts(names@) == instances_in(lines(out@)),
{
    let v = chars_of(out);
    let rows = lines_of(v.as_slice());
    let ghost all = lines(out@);
    let mut found: Vec<Vec<char>> = Vec::new();
    let mut i: usize = 0;
    proof {
        assert(all.take(0) =~= Seq::empty());
        assert(views(found@) =~= seq![]);
    }
    while i < rows.len()
        invariant
            i <= rows@.len(),
            views(rows@) == all,
            views(found@) == instances_in(all.take(i as int)),
        decreases rows@.len() - i,
    {
        proof {
            assert(all[i as int] == rows@[i as int]@);
            assert(all.take(i + 1).drop_last() =~= all.take(i as int));
            assert(all.take(i + 1).last() == all[i as int]);
        }
        if let Some(n) = announced_by(rows[i].as_slice()) {
            if !named(&found, n.as_slice()) {
                let ghost before = views(found@);
                found.push(n);
                proof {
                    assert(views(found@) =~= before.push(n@));
                }
            }
        }
        i = i + 1;
    }
    proof {
        assert(all.take(i as int) =~= all);
    }
    let mut names: Vec<String> = Vec::new();
    let mut k: usize = 0;
    while k < found.len()
        invariant
            k <= found@.len(),
            names@.len() == k,
            forall|j: int| 0 <= j < k ==> (#[trigger] names@[j])@ == found@[j]@,
        decreases found@.len() - k,
    {
        names.push(string_of(found[k].as_slice()));
        k = k + 1;
    }
    proof {
        assert(texts(names@) =~= views(found@));
    }
    names
}

/// An instance that was found: who it says it is, and where.
#[derive(Debug)]
pub struct MdnsInstance {
    pub instance: String,
    pub host: String,
    pub port: u16,
    pub vm_uuid: Option<[u8; 16]>,
}

/// Where a character occurs last.
pub open spec fn last_at(s: Seq<char>, c: char) -> Option<int>
    decreases s.len(),
{
    if s.len() == 0 {
        None
    } else if s.last() == c {
        Some(s.len() - 1)
    } else {
        last_at(s.drop_last(), c)
    }
}

fn find_last(v: &[char], c: char) -> (r: Option<usize>)
    ensures
        match r {
            Some(i) => last_at(v@, c) == Some(i as int) && i < v@.len(),
            None => last_at(v@, c) is None,
        },
{
    let mut n: usize = v.len();
    proof {
        assert(v@.take(n as int) =~= v@);
    }
    while n > 0
        invariant
            n <= v@.len(),
            last_at(v@, c) == last_at(v@.take(n as int), c),
        decreases n,
    {
        proof {
            assert(v@.take(n as int).last() == v@[n - 1]);
            assert(v@.take(n as int).drop_last() =~= v@.take(n - 1));
        }
        if v[n - 1] == c {
            return Some(n - 1);
        }
        n = n - 1;
    }
    None
}

/// A host name without the points at its end.
pub open spec fn without_dots(s: Seq<char>) -> Seq<char>
    decreases s.len(),
{
    if s.len() > 0 && s.last() == '.' {
        without_dots(s.drop_last())
    } else {
        s
    }
}

fn strip_dots(v: &[char]) -> (r: Vec<char>)
    ensures
        r@ == without_dots(v@),
{
    let mut n: usize = v.len();
    proof {
        assert(v@.subrange(0, n as int) =~= v@);
    }
    while n > 0 && v[n - 1] == '.'
        invariant
            n <= v@.len(),
            without_dots(v@) == without_dots(v@.subrange(0, n as int)),
        decreases n,
    {
        proof {
            assert(v@.subrange(0, n as int).drop_last() =~= v@.subrange(0, n - 1));
        }
        n = n - 1;
    }
    part(v, 0, n)
}

/// A port number in decimal.
pub open spec fn port_in(s: Seq<char>) -> Option<nat> {
    number_in(ascii_of(s), 65535)
}

/// What a reading of the tool's answer has found.
pub ghost struct Found {
    pub host: Option<Seq<char>>,
    pub port: Option<nat>,
    pub uuid: Option<Seq<u8>>,
}

/// Host and port in a line that says where the instance can be reached: what stands before the
/// first space is split at the last colon.
pub open spec fn reached(f: Found, l: Seq<char>) -> Found {
    match sub_at(l, "can be reached at "@) {
        None => f,
        Some(at) => {
            let w = words(l.skip(at + "can be reached at "@.len()));
            let hostport = if w.len() > 0 {
                w[0]
            } else {
                seq![]
            };
            match last_at(hostport, ':') {
                Some(k) => Found {
                    host: Some(without_dots(hostport.take(k))),
                    port: port_in(hostport.skip(k + 1)),
                    ..f
                },
                None => f,
            }
        },
    }
}

/// The identity that the last of some words writes that starts with `uuid=`.
pub open spec fn uuid_of(was: Option<Seq<u8>>, cols: Seq<Seq<char>>) -> Option<Seq<u8>>
    decreases cols.len(),
{
    if cols.len() == 0 {
        was
    } else {
        match after(cols.last(), "uuid="@) {
            Some(v) => uuid_in(ascii_of(v)),
            None => uuid_of(was, cols.drop_last()),
        }
    }
}

pub open spec fn found_in(rows: Seq<Seq<char>>) -> Found
    decreases rows.len(),
{
    if rows.len() == 0 {
        Found { host: None, port: None, uuid: None }
    } else {
        let before = found_in(rows.drop_last());
        let l = trimmed(rows.last());
        Found { uuid: uuid_of(before.uuid, words(l)), ..reached(before, l) }
    }
}

fn uuid_in_words(was: Option<[u8; 16]>, cols: &Vec<Vec<char>>) -> (r: Option<[u8; 16]>)
    ensures
        opt_uuid(r) == uuid_of(opt_uuid(was), views(cols@)),
{
    let ghost all = views(cols@);
    let mut r = was;
    let mut i: usize = 0;
    proof {
        assert(all.take(0) =~= Seq::empty());
    }
    while i < cols.len()
        invariant
            i <= cols@.len(),
            all == views(cols@),
            opt_uuid(r) == uuid_of(opt_uuid(was), all.take(i as int)),
        decreases cols@.len() - i,
    {
        proof {
            assert(all.take(i + 1).drop_last() =~= all.take(i as int));
            assert(all.take(i + 1).last() == cols@[i as int]@);
        }
        if let Some(v) = strip(cols[i].as_slice(), "uuid=") {
            let b = ascii_bytes(v.as_slice());
            r = vm_uuid_from_hex(b.as_slice());
        }
        i = i + 1;
    }
    proof {
        assert(all.take(i as int) =~= all);
    }
    r
}

/// An identity that may be missing, by value.
pub open spec fn opt_uuid(u: Option<[u8; 16]>) -> Option<Seq<u8>> {
    match u {
        Some(u) => Some(u@),
        None => None,
    }
}

/// Where an instance can be reached, from the output of `dns-sd -L`; without a host there is
/// nothing to be had.
pub fn parse_dns_sd_resolve(instance: &str, out: &str) -> (r: Option<MdnsInstance>)
    ensures
        ({
            let f = found_in(lines(out@));
            match r {
                Some(m) => {
                    &&& m.instance@ == instance@
                    &&& f.host == Some(m.host@)
                    &&& m.port == (match f.port {
                        Some(p) => p as u16,
                        None => TCP_PORT,
                    })
                    &&& opt_uuid(m.vm_uuid) == f.uuid
                },
                None => f.host is None,
            }
        }),
{
    let v = chars_of(out);
    let rows = lines_of(v.as_slice());
    let ghost all = lines(out@);
    let mut host: Option<Vec<char>> = None;
    let mut port: Option<u64> = None;
    let mut vm_uuid: Option<[u8; 16]> = None;
    let mut i: usize = 0;
    proof {
        assert(all.take(0) =~= Seq::empty());
    }
    while i < rows.len()
        invariant
            i <= rows@.len(),
            views(rows@) == all,
            ({
                let f = found_in(all.take(i as int));
                &&& match host {
                    Some(h) => f.host == Some(h@),
                    None => f.host is None,
                }
                &&& match port {
                    Some(p) => f.port == Some(p as nat),
                    None => f.port is None,
                }
                &&& opt_uuid(vm_uuid) == f.uuid
                &&& f.port is Some ==> f.port->0 <= 65535
            }),
        decreases rows@.len() - i,
    {
        proof {
            assert(all[i as int] == rows@[i as int]@);
            assert(all.take(i + 1).drop_last() =~= all.take(i as int));
            assert(all.take(i + 1).last() == all[i as int]);
        }
        let l = trim(rows[i].as_slice());
        if let Some(at) = find_sub(l.as_slice(), "can be reached at ") {
            let mark = chars_of("can be reached at ");
            proof {
                assert(l@.len() == l.len());
            }
            let rest = part(l.as_slice(), at + mark.len(), l.len());
            proof {
                assert(rest@ =~= l@.skip(at + mark@.len()));
            }
            let w = words_of(rest.as_slice());
            proof {
                if w@.len() > 0 {
                    assert(views(w@)[0] == w@[0]@);
                }
            }
            if w.len() > 0 {
                let hostport = &w[0];
                if let Some(k) = find_last(hostport.as_slice(), ':') {
                    let h = part(hostport.as_slice(), 0, k);
                    let p = part(hostport.as_slice(), k + 1, hostport.len());
                    proof {
                        assert(h@ =~= hostport@.take(k as int));
                        assert(p@ =~= hostport@.skip(k + 1));
                    }
                    host = Some(strip_dots(h.as_slice()));
                    let digits = ascii_bytes(p.as_slice());
                    port = parse_number(digits.as_slice(), 65535);
                }
            }
        }
        let cols = words_of(l.as_slice());
        vm_uuid = uuid_in_words(vm_uuid, &cols);
        i = i + 1;
    }
    proof {
        assert(all.take(i as int) =~= all);
    }
    match host {
        Some(h) => Some(
            MdnsInstance {
                instance: instance.to_owned(),
                host: string_of(h.as_slice()),
                port: match port {
                    Some(p) => p as u16,
                    None => TCP_PORT,
                },
                vm_uuid,
            },
        ),
        None => None,
    }
}

} // verus!
