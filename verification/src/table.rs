//! Small tables: a list of rows in which no key occurs twice, seen as a map.
use crate::bytes::same_bytes;
use crate::types::NodeKey;
use vstd::prelude::*;

verus! {

/// Keys of a table: values that are told apart by what they identify.
pub trait Key: Sized {
    type Id;

    spec fn id(&self) -> Self::Id;

    fn same(&self, other: &Self) -> (r: bool)
        ensures
            r == (self.id() == other.id()),
    ;
}

impl Key for u64 {
    type Id = u64;

    open spec fn id(&self) -> u64 {
        *self
    }

    fn same(&self, other: &Self) -> (r: bool) {
        *self == *other
    }
}

impl Key for NodeKey {
    type Id = NodeKey;

    open spec fn id(&self) -> NodeKey {
        *self
    }

    fn same(&self, other: &Self) -> (r: bool) {
        *self == *other
    }
}

impl Key for (u16, NodeKey) {
    type Id = (u16, NodeKey);

    open spec fn id(&self) -> (u16, NodeKey) {
        *self
    }

    fn same(&self, other: &Self) -> (r: bool) {
        self.0 == other.0 && self.1 == other.1
    }
}

impl Key for Vec<u8> {
    type Id = Seq<u8>;

    open spec fn id(&self) -> Seq<u8> {
        self@
    }

    fn same(&self, other: &Self) -> (r: bool) {
        same_bytes(self.as_slice(), other.as_slice())
    }
}

impl Key for String {
    type Id = Seq<char>;

    open spec fn id(&self) -> Seq<char> {
        self@
    }

    fn same(&self, other: &Self) -> (r: bool) {
        *self == *other
    }
}

impl Key for (String, String) {
    type Id = (Seq<char>, Seq<char>);

    open spec fn id(&self) -> (Seq<char>, Seq<char>) {
        (self.0@, self.1@)
    }

    fn same(&self, other: &Self) -> (r: bool) {
        self.0 == other.0 && self.1 == other.1
    }
}

impl<const N: usize> Key for [u8; N] {
    type Id = Seq<u8>;

    open spec fn id(&self) -> Seq<u8> {
        self@
    }

    fn same(&self, other: &Self) -> (r: bool) {
        same_bytes(self.as_slice(), other.as_slice())
    }
}

impl Key for (NodeKey, Vec<u8>) {
    type Id = (NodeKey, Seq<u8>);

    open spec fn id(&self) -> (NodeKey, Seq<u8>) {
        (self.0, self.1@)
    }

    fn same(&self, other: &Self) -> (r: bool) {
        self.0 == other.0 && same_bytes(self.1.as_slice(), other.1.as_slice())
    }
}

/// A table of rows, each a key and a value.
#[derive(Debug)]
pub struct KeyTable<K, V> {
    pub rows: Vec<(K, V)>,
}

impl<K: Key, V> KeyTable<K, V> {
    /// No key occurs twice.
    pub open spec fn wf(&self) -> bool {
        forall|i: int, j: int|
            0 <= i < j < self.rows@.len() ==> #[trigger] self.rows@[i].0.id()
                != #[trigger] self.rows@[j].0.id()
    }

    /// Whether a row has this key.
    pub open spec fn has_row(&self, id: K::Id) -> bool {
        exists|i: int| 0 <= i < self.rows@.len() && #[trigger] self.rows@[i].0.id() == id
    }

    pub open spec fn row_of(&self, id: K::Id) -> int {
        choose|i: int| 0 <= i < self.rows@.len() && #[trigger] self.rows@[i].0.id() == id
    }

    /// The table as a map from what the keys identify to the values.
    pub open spec fn view(&self) -> Map<K::Id, V> {
        Map::new(|id: K::Id| self.has_row(id), |id: K::Id| self.rows@[self.row_of(id)].1)
    }

    /// A row is what the map holds under its key.
    pub proof fn row_in_map(&self, i: int)
        requires
            self.wf(),
            0 <= i < self.rows@.len(),
        ensures
            self@.contains_key(self.rows@[i].0.id()),
            self@[self.rows@[i].0.id()] == self.rows@[i].1,
    {
        let id = self.rows@[i].0.id();
        assert(self.has_row(id));
        let j = self.row_of(id);
        assert(self.rows@[j].0.id() == id);
        if j < i || i < j {
            assert(false);
        }
    }

    pub fn new() -> (t: Self)
        ensures
            t.wf(),
            t@ == Map::<K::Id, V>::empty(),
            t.rows@.len() == 0,
    {
        let t = KeyTable { rows: Vec::new() };
        proof {
            assert(t@ =~= Map::<K::Id, V>::empty());
        }
        t
    }

    /// The row of a key.
    pub fn find(&self, key: &K) -> (r: Option<usize>)
        requires
            self.wf(),
        ensures
            match r {
                Some(i) => {
                    &&& i < self.rows@.len()
                    &&& self.rows@[i as int].0.id() == key.id()
                    &&& self@.contains_key(key.id())
                    &&& self@[key.id()] == self.rows@[i as int].1
                },
                None => !self@.contains_key(key.id()),
            },
    {
        let mut i: usize = 0;
        while i < self.rows.len()
            invariant
                self.wf(),
                i <= self.rows@.len(),
                forall|j: int| 0 <= j < i ==> #[trigger] self.rows@[j].0.id() != key.id(),
            decreases self.rows@.len() - i,
        {
            if self.rows[i].0.same(key) {
                proof {
                    self.row_in_map(i as int);
                }
                return Some(i);
            }
            i = i + 1;
        }
        None
    }

    pub fn contains(&self, key: &K) -> (r: bool)
        requires
            self.wf(),
        ensures
            r == self@.contains_key(key.id()),
    {
        self.find(key).is_some()
    }

    pub fn get(&self, key: &K) -> (r: Option<&V>)
        requires
            self.wf(),
        ensures
            match r {
                Some(v) => self@.contains_key(key.id()) && self@[key.id()] == *v,
                None => !self@.contains_key(key.id()),
            },
    {
        match self.find(key) {
            Some(i) => Some(&self.rows[i].1),
            None => None,
        }
    }

    /// How many rows there are.
    pub fn len(&self) -> (n: usize)
        requires
            self.wf(),
        ensures
            n == self@.len(),
            self@.dom().finite(),
    {
        proof {
            rows_counted(*self);
        }
        self.rows.len()
    }

    /// Take a row out.
    pub fn remove_at(&mut self, i: usize) -> (row: (K, V))
        requires
            old(self).wf(),
            i < old(self).rows@.len(),
        ensures
            final(self).wf(),
            row == old(self).rows@[i as int],
            final(self).rows@ == old(self).rows@.remove(i as int),
            final(self)@ == old(self)@.remove(row.0.id()),
    {
        let row = self.rows.remove(i);
        proof {
            let before = *old(self);
            let after = *self;
            before.row_in_map(i as int);
            assert forall|a: int, b: int| 0 <= a < b < after.rows@.len() implies #[trigger] after.rows@[a].0.id()
                != #[trigger] after.rows@[b].0.id() by {
                let a0 = if a < i {
                    a
                } else {
                    a + 1
                };
                let b0 = if b < i {
                    b
                } else {
                    b + 1
                };
                assert(after.rows@[a] == before.rows@[a0]);
                assert(after.rows@[b] == before.rows@[b0]);
            }
            assert forall|id: K::Id| after@.contains_key(id) == before@.remove(row.0.id()).contains_key(id) by {
                if before.has_row(id) && id != row.0.id() {
                    let k = before.row_of(id);
                    let k1 = if k < i {
                        k
                    } else {
                        k - 1
                    };
                    assert(after.rows@[k1] == before.rows@[k]);
                    assert(after.has_row(id));
                }
                if after.has_row(id) {
                    let k = after.row_of(id);
                    let k0 = if k < i {
                        k
                    } else {
                        k + 1
                    };
                    assert(after.rows@[k] == before.rows@[k0]);
                    assert(before.rows@[k0].0.id() == id);
                    assert(before.rows@[i as int].0.id() == row.0.id());
                }
            }
            assert forall|id: K::Id| after@.contains_key(id) implies after@[id] == before@[id] by {
                let k = after.row_of(id);
                assert(after.has_row(id));
                let k0 = if k < i {
                    k
                } else {
                    k + 1
                };
                assert(after.rows@[k] == before.rows@[k0]);
                before.row_in_map(k0);
            }
            assert(after@ =~= before@.remove(row.0.id()));
        }
        row
    }

    /// Drop the row of a key.
    pub fn remove(&mut self, key: &K) -> (r: Option<V>)
        requires
            old(self).wf(),
        ensures
            final(self).wf(),
            final(self)@ == old(self)@.remove(key.id()),
            match r {
                Some(v) => old(self)@.contains_key(key.id()) && old(self)@[key.id()] == v,
                None => !old(self)@.contains_key(key.id()) && *final(self) == *old(self),
            },
    {
        match self.find(key) {
            Some(i) => {
                let (_key, v) = self.remove_at(i);
                Some(v)
            },
            None => {
                proof {
                    assert(self@ =~= old(self)@.remove(key.id()));
                }
                None
            },
        }
    }

    /// Set the value of a key: its old row goes, the new one comes last.
    pub fn insert(&mut self, key: K, value: V) -> (r: Option<V>)
        requires
            old(self).wf(),
        ensures
            final(self).wf(),
            final(self)@ == old(self)@.insert(key.id(), value),
            match r {
                Some(v) => old(self)@.contains_key(key.id()) && old(self)@[key.id()] == v,
                None => !old(self)@.contains_key(key.id()),
            },
    {
        let r = self.remove(&key);
        let ghost mid = *self;
        let ghost id = key.id();
        self.rows.push((key, value));
        proof {
            let after = *self;
            let n = mid.rows@.len() as int;
            assert forall|a: int, b: int| 0 <= a < b < after.rows@.len() implies #[trigger] after.rows@[a].0.id()
                != #[trigger] after.rows@[b].0.id() by {
                assert(after.rows@[a] == mid.rows@[a]);
                if b < n {
                    assert(after.rows@[b] == mid.rows@[b]);
                } else {
                    mid.row_in_map(a);
                }
            }
            assert forall|x: K::Id| after@.contains_key(x) == mid@.insert(id, value).contains_key(x) by {
                if mid.has_row(x) {
                    let k = mid.row_of(x);
                    assert(after.rows@[k] == mid.rows@[k]);
                    assert(after.has_row(x));
                }
                if x == id {
                    assert(after.rows@[n].0.id() == x);
                    assert(after.has_row(x));
                }
                if after.has_row(x) {
                    let k = after.row_of(x);
                    if k < n {
                        assert(mid.rows@[k] == after.rows@[k]);
                        assert(mid.has_row(x));
                    }
                }
            }
            assert forall|x: K::Id| after@.contains_key(x) implies after@[x] == mid@.insert(id, value)[x] by {
                let k = after.row_of(x);
                assert(after.has_row(x));
                if k < n {
                    assert(mid.rows@[k] == after.rows@[k]);
                    mid.row_in_map(k);
                }
            }
            assert(after@ =~= mid@.insert(id, value));
            assert(mid@.insert(id, value) =~= old(self)@.insert(id, value));
        }
        r
    }

    /// Drop every row.
    pub fn clear(&mut self)
        ensures
            final(self).wf(),
            final(self)@ == Map::<K::Id, V>::empty(),
    {
        self.rows.clear();
        proof {
            assert(self@ =~= Map::<K::Id, V>::empty());
        }
    }
}

/// The rows that `keep` says yes to.
pub open spec fn kept<I, V>(m: Map<I, V>, keep: spec_fn(I, V) -> bool) -> Map<I, V> {
    Map::new(|id: I| m.contains_key(id) && keep(id, m[id]), |id: I| m[id])
}

/// What is left of a table in which rows are looked at in turn and some of them dropped: so far
/// the rows before `i` are kept ones, and nothing that is to be kept is gone.
pub open spec fn sweeping<K: Key, V>(
    before: Map<K::Id, V>,
    now: KeyTable<K, V>,
    i: int,
    keep: spec_fn(K::Id, V) -> bool,
) -> bool {
    &&& now.wf()
    &&& 0 <= i <= now.rows@.len()
    &&& forall|j: int| 0 <= j < i ==> keep((#[trigger] now.rows@[j]).0.id(), now.rows@[j].1)
    &&& forall|id: K::Id| #[trigger]
        now@.contains_key(id) ==> before.contains_key(id) && now@[id] == before[id]
    &&& forall|id: K::Id| #[trigger]
        before.contains_key(id) && keep(id, before[id]) ==> now@.contains_key(id)
}

/// Dropping a row that is not to be kept leaves the sweep where it is.
pub proof fn sweep_drop<K: Key, V>(
    before: Map<K::Id, V>,
    then: KeyTable<K, V>,
    now: KeyTable<K, V>,
    i: int,
    keep: spec_fn(K::Id, V) -> bool,
)
    requires
        sweeping(before, then, i, keep),
        i < then.rows@.len(),
        !keep(then.rows@[i].0.id(), then.rows@[i].1),
        now.wf(),
        now.rows@ == then.rows@.remove(i),
        now@ == then@.remove(then.rows@[i].0.id()),
    ensures
        sweeping(before, now, i, keep),
{
    then.row_in_map(i);
    let gone = then.rows@[i].0.id();
    assert(then@.contains_key(gone));
    assert(then@[gone] == before[gone]);
    assert forall|j: int| 0 <= j < i implies keep(
        (#[trigger] now.rows@[j]).0.id(),
        now.rows@[j].1,
    ) by {
        assert(now.rows@[j] == then.rows@[j]);
    }
    assert forall|id: K::Id| #[trigger] now@.contains_key(id) implies before.contains_key(id)
        && now@[id] == before[id] by {
        assert(then@.contains_key(id));
    }
}

/// A sweep that has come to the end has kept exactly what was to be kept.
pub proof fn swept<K: Key, V>(
    before: Map<K::Id, V>,
    now: KeyTable<K, V>,
    keep: spec_fn(K::Id, V) -> bool,
)
    requires
        sweeping(before, now, now.rows@.len() as int, keep),
    ensures
        now@ == kept(before, keep),
{
    assert forall|id: K::Id| now@.contains_key(id) implies #[trigger] before.contains_key(id) && keep(
        id,
        before[id],
    ) by {
        assert(now.has_row(id));
        let k = now.row_of(id);
        now.row_in_map(k);
        assert(now.rows@[k].0.id() == id);
        assert(now@.contains_key(id));
        assert(now@[id] == before[id]);
    }
    assert(now@ =~= kept(before, keep));
}

proof fn rows_counted<K: Key, V>(t: KeyTable<K, V>)
    requires
        t.wf(),
    ensures
        t@.len() == t.rows@.len(),
        t@.dom().finite(),
{
    dom_counted(t, t.rows@.len());
    let s = ids_of(t, t.rows@.len());
    assert(t@.dom() =~= s) by {
        assert forall|id: K::Id| t@.dom().contains(id) == s.contains(id) by {
            ids_are_rows(t, t.rows@.len(), id);
        }
    }
}

spec fn ids_of<K: Key, V>(t: KeyTable<K, V>, n: nat) -> Set<K::Id>
    decreases n,
{
    if n == 0 {
        Set::empty()
    } else {
        ids_of(t, (n - 1) as nat).insert(t.rows@[n - 1].0.id())
    }
}

proof fn ids_are_rows<K: Key, V>(t: KeyTable<K, V>, n: nat, id: K::Id)
    requires
        n <= t.rows@.len(),
    ensures
        ids_of(t, n).contains(id) == exists|i: int|
            0 <= i < n && #[trigger] t.rows@[i].0.id() == id,
    decreases n,
{
    if n > 0 {
        ids_are_rows(t, (n - 1) as nat, id);
        if exists|i: int| 0 <= i < n && #[trigger] t.rows@[i].0.id() == id {
            let i = choose|i: int| 0 <= i < n && #[trigger] t.rows@[i].0.id() == id;
            if i < n - 1 {
                assert(t.rows@[i].0.id() == id);
            }
        }
        if ids_of(t, (n - 1) as nat).contains(id) {
            let i = choose|i: int| 0 <= i < n - 1 && #[trigger] t.rows@[i].0.id() == id;
            assert(t.rows@[i].0.id() == id);
        }
        if t.rows@[n - 1].0.id() == id {
            assert(0 <= n - 1 < n);
        }
    }
}

proof fn dom_counted<K: Key, V>(t: KeyTable<K, V>, n: nat)
    requires
        t.wf(),
        n <= t.rows@.len(),
    ensures
        ids_of(t, n).finite(),
        ids_of(t, n).len() == n,
    decreases n,
{
    if n > 0 {
        dom_counted(t, (n - 1) as nat);
        let id = t.rows@[n - 1].0.id();
        ids_are_rows(t, (n - 1) as nat, id);
    }
}

} // verus!
