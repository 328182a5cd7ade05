//! Sweeping orphaned rows out of the side store.
use crate::bytes::{has_prefix, starts_with, to_vec};
use crate::sidestore::rows::{is_side_node, side_node, synth_of, RowKey, Side, SideStore};
use crate::surface::{NfsError, NfsResult};
use crate::table::Key;
use crate::types::{Attr, NodeKey};
use vstd::prelude::*;
use vstd::string::StringSliceAdditionalSpecFns;

verus! {

/// An AppleDouble row whose anchor is gone survives at least this long.
pub const LINGER_SECS: i64 = 60;

/// What the exported tree says of the surroundings of a row: of the directory that the row is in,
/// and of the file that an AppleDouble row belongs to.
#[derive(Debug, Clone, Copy)]
pub struct Fate {
    pub parent: NfsResult<Attr>,
    pub anchor: NfsResult<(NodeKey, Attr)>,
}

/// The file that an AppleDouble name belongs to.
pub open spec fn anchor_of(name: Seq<u8>) -> Option<Seq<u8>> {
    if starts_with(name, "._".spec_bytes()) && name.len() > "._".spec_bytes().len() {
        Some(name.skip("._".spec_bytes().len() as int))
    } else {
        None
    }
}

pub fn anchor(name: &[u8]) -> (r: Option<Vec<u8>>)
    ensures
        match r {
            Some(a) => anchor_of(name@) == Some(a@),
            None => anchor_of(name@) is None,
        },
{
    let mark = "._".as_bytes();
    if has_prefix(name, mark) && name.len() > mark.len() {
        Some(to_vec(vstd::slice::slice_subrange(name, mark.len(), name.len())))
    } else {
        None
    }
}

/// The name of the AppleDouble row of a file.
pub open spec fn companion_of(name: Seq<u8>) -> Seq<u8> {
    "._".spec_bytes() + name
}

pub fn companion(name: &[u8]) -> (c: Vec<u8>)
    ensures
        c@ == companion_of(name@),
{
    let mut c = to_vec("._".as_bytes());
    c.extend_from_slice(name);
    proof {
        assert(c@ =~= companion_of(name@));
    }
    c
}

/// The companion of a file has that file as its anchor.
pub proof fn companion_is_anchored(name: Seq<u8>)
    requires
        name.len() > 0,
    ensures
        anchor_of(companion_of(name)) == Some(name),
{
    let c = companion_of(name);
    let m = "._".spec_bytes();
    assert(c.take(m.len() as int) =~= m);
    assert(c.skip(m.len() as int) =~= name);
}

/// Whether a row is an orphan: in a side directory that is gone, in a real directory that is
/// gone, or an AppleDouble row whose file is gone and that was not changed for a while.
pub open spec fn orphaned(
    side: Side,
    key: (NodeKey, Seq<u8>),
    fate: Fate,
    now: i64,
) -> bool {
    if side_node(key.0) {
        !side.by_node.contains_key(key.0)
    } else {
        ||| fate.parent == Err::<Attr, _>(NfsError::NoEnt)
        ||| fate.parent == Err::<Attr, _>(NfsError::Stale)
        ||| anchor_of(key.1) is Some && fate.anchor == Err::<(NodeKey, Attr), _>(NfsError::NoEnt)
            && now - side.rows[key].mtime_sec > LINGER_SECS
    }
}

/// The store without some rows.
pub open spec fn rows_out(side: Side, out: spec_fn((NodeKey, Seq<u8>)) -> bool) -> Side {
    Side {
        rows: Map::new(
            |k: (NodeKey, Seq<u8>)| side.rows.contains_key(k) && !out(k),
            |k: (NodeKey, Seq<u8>)| side.rows[k],
        ),
        by_node: Map::new(
            |n: NodeKey|
                side.by_node.contains_key(n) && forall|k: (NodeKey, Seq<u8>)|
                    #![trigger side.rows.contains_key(k)]
                    side.rows.contains_key(k) && out(k) ==> synth_of(k) != n,
            |n: NodeKey| side.by_node[n],
        ),
    }
}

/// The store after a sweep.
pub open spec fn sweep_of(side: Side, fate: spec_fn((NodeKey, Seq<u8>)) -> Fate, now: i64) -> Side {
    rows_out(side, |k: (NodeKey, Seq<u8>)| orphaned(side, k, fate(k), now))
}

/// What to ask of the exported tree about one row before a sweep: the attributes of `parent`, and
/// of `anchor` in it. A row in a directory of the side store needs nothing.
#[derive(Debug)]
pub struct GcAsk {
    pub parent: Option<NodeKey>,
    pub anchor: Option<Vec<u8>>,
}

pub open spec fn gc_ask_is(ask: GcAsk, key: (NodeKey, Seq<u8>)) -> bool {
    if side_node(key.0) {
        ask.parent is None && ask.anchor is None
    } else {
        &&& ask.parent == Some(key.0)
        &&& match ask.anchor {
            Some(a) => anchor_of(key.1) == Some(a@),
            None => anchor_of(key.1) is None,
        }
    }
}

impl SideStore {
    /// What a sweep needs to know of each row, in the order of the rows.
    pub fn gc_asks(&self) -> (asks: Vec<GcAsk>)
        ensures
            asks@.len() == self.rows.rows@.len(),
            forall|i: int|
                0 <= i < asks@.len() ==> gc_ask_is(
                    #[trigger] asks@[i],
                    self.rows.rows@[i].0.id(),
                ),
    {
        let mut asks: Vec<GcAsk> = Vec::new();
        let mut i: usize = 0;
        while i < self.rows.rows.len()
            invariant
                i <= self.rows.rows@.len(),
                asks@.len() == i,
                forall|j: int|
                    0 <= j < i ==> gc_ask_is(#[trigger] asks@[j], self.rows.rows@[j].0.id()),
            decreases self.rows.rows@.len() - i,
        {
            let parent: NodeKey = self.rows.rows[i].0.0;
            if is_side_node(parent) {
                asks.push(GcAsk { parent: None, anchor: None });
            } else {
                let a = anchor(self.rows.rows[i].0.1.as_slice());
                asks.push(GcAsk { parent: Some(parent), anchor: a });
            }
            i = i + 1;
        }
        asks
    }

    /// What was learnt of the row of a key.
    pub open spec fn fate_at(&self, fates: Seq<Fate>, key: (NodeKey, Seq<u8>)) -> Fate {
        fates[self.rows.row_of(key)]
    }

    fn is_orphaned(&self, i: usize, fate: &Fate, now: i64) -> (r: bool)
        requires
            self.wf(),
            i < self.rows.rows@.len(),
        ensures
            r == orphaned(self@, self.rows.rows@[i as int].0.id(), *fate, now),
    {
        proof {
            self.rows.row_in_map(i as int);
        }
        let parent: NodeKey = self.rows.rows[i].0.0;
        if is_side_node(parent) {
            return !self.by_node.contains(&parent);
        }
        match fate.parent {
            Err(NfsError::NoEnt) => {
                return true;
            },
            Err(NfsError::Stale) => {
                return true;
            },
            _ => {},
        }
        let lost = match fate.anchor {
            Err(NfsError::NoEnt) => true,
            _ => false,
        };
        lost && anchor(self.rows.rows[i].0.1.as_slice()).is_some() && now as i128
            - self.rows.rows[i].1.mtime_sec as i128 > LINGER_SECS as i128
    }

    /// Drop orphaned rows. `fates` holds what came back for each of `gc_asks`.
    pub fn gc_sweep(&mut self, fates: &Vec<Fate>, now: i64)
        requires
            old(self).wf(),
            fates@.len() == old(self).rows.rows@.len(),
        ensures
            final(self).wf(),
            final(self)@ == sweep_of(
                old(self)@,
                |k: (NodeKey, Seq<u8>)| old(self).fate_at(fates@, k),
                now,
            ),
            final(self).dirty == (old(self).dirty || exists|k: (NodeKey, Seq<u8>)| #[trigger]
                old(self)@.rows.contains_key(k) && !final(self)@.rows.contains_key(k)),
    {
        let ghost out = |k: (NodeKey, Seq<u8>)|
            orphaned(old(self)@, k, old(self).fate_at(fates@, k), now);
        let mut keys: Vec<RowKey> = Vec::new();
        let mut i: usize = 0;
        while i < self.rows.rows.len()
            invariant
                *self == *old(self),
                self.wf(),
                fates@.len() == self.rows.rows@.len(),
                out == (|k: (NodeKey, Seq<u8>)|
                    orphaned(old(self)@, k, old(self).fate_at(fates@, k), now)),
                i <= self.rows.rows@.len(),
                forall|j: int|
                    0 <= j < keys@.len() ==> old(self)@.rows.contains_key((#[trigger] keys@[j]).id())
                        && out(keys@[j].id()),
                forall|j: int|
                    #![trigger self.rows.rows@[j]]
                    0 <= j < i && out(self.rows.rows@[j].0.id()) ==> listed_in(
                        keys@,
                        self.rows.rows@[j].0.id(),
                    ),
            decreases self.rows.rows@.len() - i,
        {
            proof {
                self.rows.row_in_map(i as int);
                let id = self.rows.rows@[i as int].0.id();
                assert(self.rows.has_row(id));
                let r = self.rows.row_of(id);
                assert(self.rows.rows@[r].0.id() == id);
                if r != i {
                    assert(false);
                }
            }
            if self.is_orphaned(i, &fates[i], now) {
                let ghost before = keys@;
                keys.push((self.rows.rows[i].0.0, to_vec(self.rows.rows[i].0.1.as_slice())));
                proof {
                    let id = self.rows.rows@[i as int].0.id();
                    assert(keys@.last().id() == id);
                    assert(keys@[keys@.len() - 1].id() == id);
                    assert forall|j: int|
                        #![trigger self.rows.rows@[j]]
                        0 <= j < i + 1 && out(self.rows.rows@[j].0.id()) implies listed_in(
                        keys@,
                        self.rows.rows@[j].0.id(),
                    ) by {
                        if j < i {
                            let m = choose|m: int|
                                0 <= m < before.len() && (#[trigger] before[m]).id()
                                    == self.rows.rows@[j].0.id();
                            assert(keys@[m] == before[m]);
                        }
                    }
                }
            }
            i = i + 1;
        }
        let ghost side = old(self)@;
        let mut n: usize = 0;
        proof {
            assert(rows_out(side, |k: (NodeKey, Seq<u8>)| listed_in(keys@.take(0), k)).rows
                =~= side.rows);
            assert(rows_out(side, |k: (NodeKey, Seq<u8>)| listed_in(keys@.take(0), k)).by_node
                =~= side.by_node);
        }
        while n < keys.len()
            invariant
                n <= keys@.len(),
                side == old(self)@,
                self.wf(),
                self.dirty == old(self).dirty,
                self@ == rows_out(side, |k: (NodeKey, Seq<u8>)| listed_in(keys@.take(n as int), k)),
                forall|j: int|
                    0 <= j < keys@.len() ==> side.rows.contains_key((#[trigger] keys@[j]).id()),
            decreases keys@.len() - n,
        {
            let _row = self.drop_row(keys[n].0, keys[n].1.as_slice());
            proof {
                one_more_out(side, keys@, n as int);
                assert(self@ == rows_out(
                    side,
                    |k: (NodeKey, Seq<u8>)| listed_in(keys@.take(n + 1), k),
                ));
            }
            n = n + 1;
        }
        if keys.len() > 0 {
            self.dirty = true;
        }
        proof {
            assert(keys@.take(n as int) =~= keys@);
            let by_keys = rows_out(side, |k: (NodeKey, Seq<u8>)| listed_in(keys@, k));
            assert forall|k: (NodeKey, Seq<u8>)| #[trigger] side.rows.contains_key(k) implies out(k)
                == listed_in(keys@, k) by {
                let o = *old(self);
                assert(o.rows.has_row(k));
                let r = o.rows.row_of(k);
                assert(o.rows.rows@[r].0.id() == k);
            }
            assert(by_keys.rows =~= rows_out(side, out).rows);
            assert(by_keys.by_node =~= rows_out(side, out).by_node);
            assert(sweep_of(side, |k: (NodeKey, Seq<u8>)| old(self).fate_at(fates@, k), now)
                == rows_out(side, out)) by {
                let out2 = |k: (NodeKey, Seq<u8>)|
                    orphaned(
                        side,
                        k,
                        (|k: (NodeKey, Seq<u8>)| old(self).fate_at(fates@, k))(k),
                        now,
                    );
                assert(out2 =~= out);
            }
            if keys@.len() > 0 {
                let k = keys@[0].id();
                assert(side.rows.contains_key(k) && !self@.rows.contains_key(k));
            }
        }
    }
}

spec fn listed_in(keys: Seq<RowKey>, id: (NodeKey, Seq<u8>)) -> bool {
    exists|m: int| 0 <= m < keys.len() && (#[trigger] keys[m]).id() == id
}

proof fn one_more_out(side: Side, keys: Seq<RowKey>, n: int)
    requires
        0 <= n < keys.len(),
        side.rows.contains_key(keys[n].id()),
    ensures
        ({
            let a = rows_out(side, |k: (NodeKey, Seq<u8>)| listed_in(keys.take(n), k));
            let b = rows_out(side, |k: (NodeKey, Seq<u8>)| listed_in(keys.take(n + 1), k));
            &&& a.rows.contains_key(keys[n].id()) ==> a.dropped(keys[n].id()) == b
            &&& !a.rows.contains_key(keys[n].id()) ==> a == b
        }),
{
    let id = keys[n].id();
    let fa = |k: (NodeKey, Seq<u8>)| listed_in(keys.take(n), k);
    let fb = |k: (NodeKey, Seq<u8>)| listed_in(keys.take(n + 1), k);
    assert forall|k: (NodeKey, Seq<u8>)| listed_in(keys.take(n + 1), k) == (listed_in(
        keys.take(n),
        k,
    ) || k == id) by {
        if listed_in(keys.take(n), k) {
            let m = choose|m: int|
                0 <= m < keys.take(n).len() && (#[trigger] keys.take(n)[m]).id() == k;
            assert(keys.take(n + 1)[m].id() == k);
        }
        if k == id {
            assert(keys.take(n + 1)[n].id() == k);
        }
        if listed_in(keys.take(n + 1), k) {
            let m = choose|m: int|
                0 <= m < keys.take(n + 1).len() && (#[trigger] keys.take(n + 1)[m]).id() == k;
            if m < n {
                assert(keys.take(n)[m].id() == k);
            }
        }
    }
    let a = rows_out(side, fa);
    let b = rows_out(side, fb);
    if a.rows.contains_key(id) {
        assert(a.dropped(id).rows =~= b.rows);
        assert(a.dropped(id).by_node =~= b.by_node);
    } else {
        assert(a.rows =~= b.rows);
        assert(a.by_node =~= b.by_node);
    }
}

/// A sweep keeps what is not orphaned, as it was.
pub proof fn sweep_spares_the_anchored(
    side: Side,
    fate: spec_fn((NodeKey, Seq<u8>)) -> Fate,
    now: i64,
    key: (NodeKey, Seq<u8>),
)
    requires
        side.rows.contains_key(key),
        !side_node(key.0),
        fate(key).parent is Ok,
        fate(key).anchor is Ok || now - side.rows[key].mtime_sec <= LINGER_SECS,
    ensures
        sweep_of(side, fate, now).rows.contains_key(key),
        sweep_of(side, fate, now).rows[key] == side.rows[key],
{
}

/// Rows and nodes stay linked through a sweep.
pub proof fn links_are_kept_by_sweep(
    side: Side,
    fate: spec_fn((NodeKey, Seq<u8>)) -> Fate,
    now: i64,
)
    requires
        side.linked(),
    ensures
        sweep_of(side, fate, now).linked(),
{
    let after = sweep_of(side, fate, now);
    assert forall|n: NodeKey| #[trigger] after.by_node.contains_key(n) implies synth_of(
        after.by_node[n],
    ) == n && after.rows.contains_key(after.by_node[n]) by {
        assert(side.by_node.contains_key(n));
        assert(side.rows.contains_key(side.by_node[n]));
    }
}

} // verus!
