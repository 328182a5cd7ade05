//! Listing of a directory of the side store.
use crate::bytes::{below, below_is_total, below_is_transitive, order, to_vec, Order};
use crate::sidestore::rows::{attr_for, attr_of, synth_key, synth_of, Row, RowKey, Side, SideStore};
use crate::surface::{DirEntry, ReadDirPage};
use crate::table::{Key, KeyTable};
use crate::types::NodeKey;
use vstd::prelude::*;

verus! {

/// The names are those of the rows of `dir`, in byte order.
pub open spec fn names_in(side: Side, dir: NodeKey, names: Seq<Seq<u8>>) -> bool {
    &&& forall|i: int, j: int| 0 <= i < j < names.len() ==> below(names[i], names[j])
    &&& forall|name: Seq<u8>| #[trigger] side.rows.contains_key((dir, name)) ==> names.contains(name)
    &&& forall|i: int|
        0 <= i < names.len() ==> side.rows.contains_key((dir, #[trigger] names[i]))
}

/// How many names a reader that has come to `cookie` has seen: the first has cookie 3.
pub open spec fn seen(n: nat, cookie: u64) -> nat {
    if cookie < 3 {
        0
    } else if cookie - 2 < n {
        (cookie - 2) as nat
    } else {
        n
    }
}

/// One entry of a page is this row.
pub open spec fn entry_is(
    e: DirEntry,
    side: Side,
    dir: NodeKey,
    name: Seq<u8>,
    index: int,
    want_attrs: bool,
    uid: u32,
    gid: u32,
) -> bool {
    &&& e.name@ == name
    &&& e.node == synth_of((dir, name))
    &&& e.cookie == (index + 3) as u64
    &&& e.attr == if want_attrs {
        Some(attr_of(side.rows[(dir, name)], uid, gid))
    } else {
        None
    }
}

/// A page holds the names that were not seen yet, as many as were asked for, and says whether
/// they are the last.
pub open spec fn page_is(
    page: ReadDirPage,
    side: Side,
    dir: NodeKey,
    names: Seq<Seq<u8>>,
    cookie: u64,
    max_entries: usize,
    want_attrs: bool,
    uid: u32,
    gid: u32,
) -> bool {
    let start = seen(names.len(), cookie);
    let left = names.len() - start;
    &&& page.entries@.len() == (if left <= max_entries {
        left
    } else {
        max_entries as int
    })
    &&& forall|k: int|
        0 <= k < page.entries@.len() ==> entry_is(
            #[trigger] page.entries@[k],
            side,
            dir,
            names[start + k],
            start + k,
            want_attrs,
            uid,
            gid,
        )
    &&& page.eof == (left <= max_entries)
    &&& page.cookieverf == 1
}

/// A page of the listing of `dir`.
pub open spec fn listed(
    page: ReadDirPage,
    side: Side,
    dir: NodeKey,
    cookie: u64,
    max_entries: usize,
    want_attrs: bool,
    uid: u32,
    gid: u32,
) -> bool {
    exists|names: Seq<Seq<u8>>| #[trigger]
        names_in(side, dir, names) && page_is(
            page,
            side,
            dir,
            names,
            cookie,
            max_entries,
            want_attrs,
            uid,
            gid,
        )
}

/// A directory has one listing.
pub proof fn one_listing(side: Side, dir: NodeKey, a: Seq<Seq<u8>>, b: Seq<Seq<u8>>)
    requires
        names_in(side, dir, a),
        names_in(side, dir, b),
    ensures
        a == b,
    decreases a.len(),
{
    assert(a.len() == b.len() && a =~= b) by {
        same_prefix(side, dir, a, b, a.len());
        same_prefix(side, dir, b, a, b.len());
    }
}

proof fn same_prefix(side: Side, dir: NodeKey, a: Seq<Seq<u8>>, b: Seq<Seq<u8>>, n: nat)
    requires
        names_in(side, dir, a),
        names_in(side, dir, b),
        n <= a.len(),
    ensures
        n <= b.len(),
        forall|i: int| 0 <= i < n ==> a[i] == b[i],
    decreases n,
{
    if n > 0 {
        let m = (n - 1) as int;
        same_prefix(side, dir, a, b, m as nat);
        let x = a[m];
        assert(side.rows.contains_key((dir, x)));
        assert(b.contains(x));
        let p = b.index_of(x);
        if p < m {
            assert(a[p] == b[p]);
            assert(below(a[p], a[m]));
            below_is_total(x, x);
            assert(false);
        }
        let y = b[m];
        assert(side.rows.contains_key((dir, y)));
        assert(a.contains(y));
        let q = a.index_of(y);
        if q < m {
            assert(a[q] == b[q]);
            assert(below(b[q], b[m]));
            below_is_total(y, y);
            assert(false);
        }
        if p > m {
            assert(below(b[m], b[p]));
            if q > m {
                assert(below(a[m], a[q]));
                below_is_total(x, y);
            } else {
                below_is_total(x, y);
            }
            assert(false);
        }
    }
}

spec fn names_at(t: KeyTable<RowKey, Row>, list: Seq<usize>) -> Seq<Seq<u8>> {
    Seq::new(list.len(), |i: int| t.rows@[list[i] as int].0.1@)
}

/// The rows of the first `n` that lie in `dir`, in the order of their names.
spec fn sorted_rows(t: KeyTable<RowKey, Row>, dir: NodeKey, n: int, list: Seq<usize>) -> bool {
    &&& forall|i: int|
        0 <= i < list.len() ==> (#[trigger] list[i]) < n && t.rows@[list[i] as int].0.0 == dir
    &&& forall|r: usize|
        r < n && #[trigger] t.rows@[r as int].0.0 == dir ==> list.contains(r)
    &&& forall|i: int, j: int|
        0 <= i < j < list.len() ==> below(
            t.rows@[list[i] as int].0.1@,
            t.rows@[list[j] as int].0.1@,
        )
}

/// Where a name belongs among the rows of a sorted list, in which it does not occur.
fn place(t: &KeyTable<RowKey, Row>, list: &Vec<usize>, row: usize, Ghost(dir): Ghost<NodeKey>) -> (p: usize)
    requires
        t.wf(),
        row < t.rows@.len(),
        t.rows@[row as int].0.0 == dir,
        sorted_rows(*t, dir, row as int, list@),
    ensures
        p <= list@.len(),
        forall|i: int|
            0 <= i < p ==> below(
                t.rows@[(#[trigger] list@[i]) as int].0.1@,
                t.rows@[row as int].0.1@,
            ),
        forall|i: int|
            p <= i < list@.len() ==> below(
                t.rows@[row as int].0.1@,
                t.rows@[(#[trigger] list@[i]) as int].0.1@,
            ),
{
    let ghost name = t.rows@[row as int].0.1@;
    let mut p: usize = 0;
    while p < list.len()
        invariant
            t.wf(),
            row < t.rows@.len(),
            t.rows@[row as int].0.0 == dir,
            name == t.rows@[row as int].0.1@,
            sorted_rows(*t, dir, row as int, list@),
            p <= list@.len(),
            forall|i: int|
                0 <= i < p ==> below(t.rows@[(#[trigger] list@[i]) as int].0.1@, name),
        decreases list@.len() - p,
    {
        let r: usize = list[p];
        proof {
            assert(list@[p as int] < row);
            assert(t.rows@[r as int].0.id() != t.rows@[row as int].0.id());
        }
        match order(t.rows[r].0.1.as_slice(), t.rows[row].0.1.as_slice()) {
            Order::First => {
                p = p + 1;
            },
            Order::Same => {
                return p;
            },
            Order::Second => {
                proof {
                    assert forall|i: int| p <= i < list@.len() implies below(
                        name,
                        t.rows@[(#[trigger] list@[i]) as int].0.1@,
                    ) by {
                        if i > p {
                            below_is_transitive(
                                name,
                                t.rows@[r as int].0.1@,
                                t.rows@[list@[i] as int].0.1@,
                            );
                        }
                    }
                }
                return p;
            },
        }
    }
    p
}

fn rows_of_dir(t: &KeyTable<RowKey, Row>, dir: NodeKey) -> (list: Vec<usize>)
    requires
        t.wf(),
    ensures
        sorted_rows(*t, dir, t.rows@.len() as int, list@),
{
    let mut list: Vec<usize> = Vec::new();
    let mut n: usize = 0;
    while n < t.rows.len()
        invariant
            t.wf(),
            n <= t.rows@.len(),
            sorted_rows(*t, dir, n as int, list@),
        decreases t.rows@.len() - n,
    {
        if t.rows[n].0.0 == dir {
            let p: usize = place(t, &list, n, Ghost(dir));
            let ghost before = list@;
            list.insert(p, n);
            proof {
                let after = list@;
                assert(after[p as int] == n);
                assert forall|i: int| 0 <= i < after.len() implies (#[trigger] after[i]) < n + 1
                    && t.rows@[after[i] as int].0.0 == dir by {
                    if i < p {
                        assert(after[i] == before[i]);
                    } else if i > p {
                        assert(after[i] == before[i - 1]);
                    }
                }
                assert forall|r: usize| r < n + 1 && #[trigger] t.rows@[r as int].0.0 == dir implies after.contains(
                    r,
                ) by {
                    if r < n {
                        assert(before.contains(r));
                        let k = before.index_of(r);
                        if k < p {
                            assert(after[k] == r);
                        } else {
                            assert(after[k + 1] == r);
                        }
                    }
                }
                assert forall|i: int, j: int| 0 <= i < j < after.len() implies below(
                    t.rows@[after[i] as int].0.1@,
                    t.rows@[after[j] as int].0.1@,
                ) by {
                    let i0 = if i < p {
                        i
                    } else {
                        i - 1
                    };
                    let j0 = if j < p {
                        j
                    } else {
                        j - 1
                    };
                    if i != p {
                        assert(after[i] == before[i0]);
                    }
                    if j != p {
                        assert(after[j] == before[j0]);
                    }
                }
            }
        }
        n = n + 1;
    }
    list
}

impl SideStore {
    /// A page of the listing of a directory of the side store.
    pub fn readdir(
        &self,
        dir: NodeKey,
        cookie: u64,
        max_entries: usize,
        want_attrs: bool,
        uid: u32,
        gid: u32,
    ) -> (page: ReadDirPage)
        requires
            self.wf(),
        ensures
            listed(page, self@, dir, cookie, max_entries, want_attrs, uid, gid),
    {
        let list = rows_of_dir(&self.rows, dir);
        let ghost names = names_at(self.rows, list@);
        proof {
            names_are_listed(*self, dir, list@);
        }
        let n: usize = list.len();
        let start: usize = if cookie < 3 {
            0
        } else if cookie - 2 < n as u64 {
            (cookie - 2) as usize
        } else {
            n
        };
        let count: usize = if n - start <= max_entries {
            n - start
        } else {
            max_entries
        };
        let mut entries: Vec<DirEntry> = Vec::new();
        let mut k: usize = 0;
        while k < count
            invariant
                self.wf(),
                sorted_rows(self.rows, dir, self.rows.rows@.len() as int, list@),
                names == names_at(self.rows, list@),
                n == list@.len(),
                start + count <= n,
                k <= count,
                entries@.len() == k,
                forall|j: int|
                    0 <= j < k ==> entry_is(
                        #[trigger] entries@[j],
                        self@,
                        dir,
                        names[start + j],
                        start + j,
                        want_attrs,
                        uid,
                        gid,
                    ),
            decreases count - k,
        {
            let r: usize = list[start + k];
            proof {
                assert(list@[start + k] < self.rows.rows@.len());
                self.rows.row_in_map(r as int);
                assert(self.rows.rows@[r as int].0.id() == (dir, names[start + k]));
            }
            let name = to_vec(self.rows.rows[r].0.1.as_slice());
            let node = synth_key(dir, name.as_slice());
            let attr = if want_attrs {
                Some(attr_for(&self.rows.rows[r].1, uid, gid))
            } else {
                None
            };
            let at: u128 = (start + k) as u128 + 3;
            let at64: u64 = #[verifier::truncate] (at as u64);
            entries.push(DirEntry { name, node, cookie: at64, attr });
            k = k + 1;
        }
        let page = ReadDirPage { entries, eof: n - start <= max_entries, cookieverf: 1 };
        proof {
            assert(names_in(self@, dir, names));
            assert(page_is(page, self@, dir, names, cookie, max_entries, want_attrs, uid, gid));
        }
        page
    }
}

proof fn names_are_listed(s: SideStore, dir: NodeKey, list: Seq<usize>)
    requires
        s.wf(),
        sorted_rows(s.rows, dir, s.rows.rows@.len() as int, list),
    ensures
        names_in(s@, dir, names_at(s.rows, list)),
{
    let names = names_at(s.rows, list);
    assert forall|name: Seq<u8>| #[trigger] s@.rows.contains_key((dir, name)) implies names.contains(
        name,
    ) by {
        assert(s.rows.has_row((dir, name)));
        let k = s.rows.row_of((dir, name));
        assert(s.rows.rows@[k].0.id() == (dir, name));
        assert(s.rows.rows.len() == s.rows.rows@.len());
        let r = k as usize;
        assert(s.rows.rows@[r as int].0.0 == dir);
        assert(list.contains(r));
        let i = list.index_of(r);
        assert(names[i] == name);
    }
    assert forall|i: int| 0 <= i < names.len() implies s@.rows.contains_key(
        (dir, #[trigger] names[i]),
    ) by {
        let r = list[i] as int;
        s.rows.row_in_map(r);
        assert(s.rows.rows@[r].0.id() == (dir, names[i]));
    }
}

/// The rows of a real directory are in no listing: a page lists only rows of the directory that
/// it is of.
pub proof fn listing_names_own_rows(
    page: ReadDirPage,
    side: Side,
    dir: NodeKey,
    cookie: u64,
    max_entries: usize,
    want_attrs: bool,
    uid: u32,
    gid: u32,
    k: int,
)
    requires
        listed(page, side, dir, cookie, max_entries, want_attrs, uid, gid),
        0 <= k < page.entries@.len(),
    ensures
        side.rows.contains_key((dir, page.entries@[k].name@)),
{
    let names = choose|names: Seq<Seq<u8>>| #[trigger]
        names_in(side, dir, names) && page_is(
            page,
            side,
            dir,
            names,
            cookie,
            max_entries,
            want_attrs,
            uid,
            gid,
        );
    let start = seen(names.len(), cookie);
    assert(entry_is(page.entries@[k], side, dir, names[start + k], start + k, want_attrs, uid, gid));
    assert(side.rows.contains_key((dir, names[start + k])));
}

} // verus!
