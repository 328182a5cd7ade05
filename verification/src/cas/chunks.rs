//! The chunk table: length and last access of every stored chunk, in the order of the digests.
use crate::bytes::{below, below_is_total, below_is_transitive, order, Order};
use vstd::prelude::*;

verus! {

/// A stored chunk.
#[derive(Debug, Clone, Copy)]
pub struct ChunkRow {
    pub hash: [u8; 32],
    pub len: u32,
    /// Unix seconds of the last access that was written down.
    pub access: u64,
}

/// The sum of the lengths.
pub open spec fn total_len(rows: Seq<ChunkRow>) -> nat
    decreases rows.len(),
{
    if rows.len() == 0 {
        0
    } else {
        total_len(rows.drop_last()) + rows.last().len as nat
    }
}

pub proof fn total_insert(rows: Seq<ChunkRow>, p: int, r: ChunkRow)
    requires
        0 <= p <= rows.len(),
    ensures
        total_len(rows.insert(p, r)) == total_len(rows) + r.len,
    decreases rows.len(),
{
    let t = rows.insert(p, r);
    if p == rows.len() {
        assert(t.drop_last() =~= rows);
    } else {
        total_insert(rows.drop_last(), p, r);
        assert(t.drop_last() =~= rows.drop_last().insert(p, r));
    }
}

pub proof fn total_remove(rows: Seq<ChunkRow>, p: int)
    requires
        0 <= p < rows.len(),
    ensures
        total_len(rows.remove(p)) + rows[p].len == total_len(rows),
    decreases rows.len(),
{
    let t = rows.remove(p);
    if p == rows.len() - 1 {
        assert(t =~= rows.drop_last());
    } else {
        total_remove(rows.drop_last(), p);
        assert(t.drop_last() =~= rows.drop_last().remove(p));
    }
}

/// Stored chunks, digests ascending.
#[derive(Debug)]
pub struct ChunkTable {
    pub rows: Vec<ChunkRow>,
}

/// A chunk's length and last access.
pub type Entry = (u32, u64);

impl ChunkTable {
    pub open spec fn wf(&self) -> bool {
        forall|i: int, j: int|
            0 <= i < j < self.rows@.len() ==> below(
                (#[trigger] self.rows@[i]).hash@,
                (#[trigger] self.rows@[j]).hash@,
            )
    }

    pub open spec fn has_row(&self, h: Seq<u8>) -> bool {
        exists|i: int| 0 <= i < self.rows@.len() && (#[trigger] self.rows@[i]).hash@ == h
    }

    pub open spec fn row_of(&self, h: Seq<u8>) -> int {
        choose|i: int| 0 <= i < self.rows@.len() && (#[trigger] self.rows@[i]).hash@ == h
    }

    /// The table as a map from digests to lengths and last accesses.
    pub open spec fn view(&self) -> Map<Seq<u8>, Entry> {
        Map::new(
            |h: Seq<u8>| self.has_row(h),
            |h: Seq<u8>| (self.rows@[self.row_of(h)].len, self.rows@[self.row_of(h)].access),
        )
    }

    /// The sum of the chunk lengths.
    pub open spec fn total(&self) -> nat {
        total_len(self.rows@)
    }

    /// No digest has two rows.
    pub proof fn row_is_unique(&self, i: int, j: int)
        requires
            self.wf(),
            0 <= i < self.rows@.len(),
            0 <= j < self.rows@.len(),
            self.rows@[i].hash@ == self.rows@[j].hash@,
        ensures
            i == j,
    {
        below_is_total(self.rows@[i].hash@, self.rows@[j].hash@);
        if i < j {
            assert(below(self.rows@[i].hash@, self.rows@[j].hash@));
        }
        if j < i {
            assert(below(self.rows@[j].hash@, self.rows@[i].hash@));
        }
    }

    pub proof fn row_in_map(&self, i: int)
        requires
            self.wf(),
            0 <= i < self.rows@.len(),
        ensures
            self@.contains_key(self.rows@[i].hash@),
            self@[self.rows@[i].hash@] == (self.rows@[i].len, self.rows@[i].access),
    {
        let h = self.rows@[i].hash@;
        assert(self.has_row(h));
        self.row_is_unique(i, self.row_of(h));
    }

    pub fn new() -> (t: Self)
        ensures
            t.wf(),
            t@ == Map::<Seq<u8>, Entry>::empty(),
            t.total() == 0,
            t.rows@.len() == 0,
    {
        let t = ChunkTable { rows: Vec::new() };
        proof {
            assert(t@ =~= Map::<Seq<u8>, Entry>::empty());
        }
        t
    }

    /// The row of a digest, or the place where it would stand.
    pub fn locate(&self, hash: &[u8; 32]) -> (res: (usize, bool))
        requires
            self.wf(),
        ensures
            res.0 <= self.rows@.len(),
            res.1 == self@.contains_key(hash@),
            res.1 ==> res.0 < self.rows@.len() && self.rows@[res.0 as int].hash@ == hash@
                && self@[hash@] == (self.rows@[res.0 as int].len, self.rows@[res.0 as int].access),
            forall|j: int| 0 <= j < res.0 ==> below((#[trigger] self.rows@[j]).hash@, hash@),
            !res.1 ==> forall|j: int|
                res.0 <= j < self.rows@.len() ==> below(hash@, (#[trigger] self.rows@[j]).hash@),
    {
        let mut p: usize = 0;
        while p < self.rows.len()
            invariant
                self.wf(),
                p <= self.rows@.len(),
                forall|j: int| 0 <= j < p ==> below((#[trigger] self.rows@[j]).hash@, hash@),
            decreases self.rows@.len() - p,
        {
            match order(self.rows[p].hash.as_slice(), hash.as_slice()) {
                Order::First => {
                    p = p + 1;
                },
                Order::Same => {
                    proof {
                        self.row_in_map(p as int);
                    }
                    return (p, true);
                },
                Order::Second => {
                    proof {
                        let h = hash@;
                        assert forall|j: int| p <= j < self.rows@.len() implies below(
                            h,
                            (#[trigger] self.rows@[j]).hash@,
                        ) by {
                            if j > p {
                                below_is_transitive(
                                    h,
                                    self.rows@[p as int].hash@,
                                    self.rows@[j].hash@,
                                );
                            }
                        }
                        self.not_here(h, p as int);
                    }
                    return (p, false);
                },
            }
        }
        proof {
            self.not_here(hash@, p as int);
        }
        (p, false)
    }

    proof fn not_here(&self, h: Seq<u8>, p: int)
        requires
            0 <= p <= self.rows@.len(),
            forall|j: int| 0 <= j < p ==> below((#[trigger] self.rows@[j]).hash@, h),
            forall|j: int| p <= j < self.rows@.len() ==> below(h, (#[trigger] self.rows@[j]).hash@),
        ensures
            !self.has_row(h),
    {
        if self.has_row(h) {
            let k = self.row_of(h);
            below_is_total(h, h);
            assert(self.rows@[k].hash@ == h);
        }
    }

    pub fn get(&self, hash: &[u8; 32]) -> (r: Option<(u32, u64)>)
        requires
            self.wf(),
        ensures
            match r {
                Some(e) => self@.contains_key(hash@) && self@[hash@] == e,
                None => !self@.contains_key(hash@),
            },
    {
        let (p, found) = self.locate(hash);
        if found {
            Some((self.rows[p].len, self.rows[p].access))
        } else {
            None
        }
    }

    /// Set a chunk's row; the length that it had before, if it had a row.
    pub fn set(&mut self, hash: [u8; 32], len: u32, access: u64) -> (was: Option<u32>)
        requires
            old(self).wf(),
        ensures
            final(self).wf(),
            final(self)@ == old(self)@.insert(hash@, (len, access)),
            match was {
                Some(l) => {
                    &&& old(self)@.contains_key(hash@)
                    &&& old(self)@[hash@].0 == l
                    &&& final(self).total() + l == old(self).total() + len
                    &&& final(self).rows@.len() == old(self).rows@.len()
                },
                None => {
                    &&& !old(self)@.contains_key(hash@)
                    &&& final(self).total() == old(self).total() + len
                    &&& final(self).rows@.len() == old(self).rows@.len() + 1
                },
            },
    {
        let (p, found) = self.locate(&hash);
        let row = ChunkRow { hash, len, access };
        let was: Option<u32> = if found {
            let gone = self.rows.remove(p);
            proof {
                total_remove(old(self).rows@, p as int);
            }
            Some(gone.len)
        } else {
            None
        };
        let ghost mid = self.rows@;
        self.rows.insert(p, row);
        proof {
            total_insert(mid, p as int, row);
            let before = *old(self);
            let after = *self;
            // Index in the old table of a row of the new one.
            assert forall|i: int, j: int| 0 <= i < j < after.rows@.len() implies below(
                (#[trigger] after.rows@[i]).hash@,
                (#[trigger] after.rows@[j]).hash@,
            ) by {
                let i0 = if found || i < p {
                    i
                } else {
                    i - 1
                };
                let j0 = if found || j < p {
                    j
                } else {
                    j - 1
                };
                if i != p {
                    assert(after.rows@[i] == before.rows@[i0]);
                }
                if j != p {
                    assert(after.rows@[j] == before.rows@[j0]);
                }
            }
            assert forall|h: Seq<u8>|
                after@.contains_key(h) == before@.insert(hash@, (len, access)).contains_key(h) by {
                if after.has_row(h) {
                    let k = after.row_of(h);
                    let k0 = if found || k < p {
                        k
                    } else {
                        k - 1
                    };
                    if k != p {
                        assert(after.rows@[k] == before.rows@[k0]);
                        assert(before.has_row(h));
                    }
                }
                if before.has_row(h) {
                    let k = before.row_of(h);
                    let k1 = if found || k < p {
                        k
                    } else {
                        k + 1
                    };
                    if h != hash@ {
                        assert(after.rows@[k1] == before.rows@[k]);
                        assert(after.has_row(h));
                    }
                }
                if h == hash@ {
                    assert(after.rows@[p as int].hash@ == h);
                    assert(after.has_row(h));
                }
            }
            assert forall|h: Seq<u8>| after@.contains_key(h) implies #[trigger] after@[h] == before@.insert(
                hash@,
                (len, access),
            )[h] by {
                let k = after.row_of(h);
                assert(after.has_row(h));
                let k0 = if found || k < p {
                    k
                } else {
                    k - 1
                };
                if k != p {
                    assert(after.rows@[k] == before.rows@[k0]);
                    before.row_in_map(k0);
                    if h == hash@ {
                        assert(after.rows@[p as int].hash@ == h);
                        after.row_is_unique(k, p as int);
                    }
                }
            }
            assert(after@ =~= before@.insert(hash@, (len, access)));
        }
        was
    }

    /// Drop a chunk's row; its length, if it had one.
    pub fn remove(&mut self, hash: &[u8; 32]) -> (was: Option<u32>)
        requires
            old(self).wf(),
        ensures
            final(self).wf(),
            final(self)@ == old(self)@.remove(hash@),
            match was {
                Some(l) => {
                    &&& old(self)@.contains_key(hash@)
                    &&& old(self)@[hash@].0 == l
                    &&& final(self).total() + l == old(self).total()
                    &&& final(self).rows@.len() + 1 == old(self).rows@.len()
                },
                None => !old(self)@.contains_key(hash@) && *final(self) == *old(self),
            },
    {
        let (p, found) = self.locate(hash);
        if !found {
            proof {
                assert(self@ =~= old(self)@.remove(hash@));
            }
            return None;
        }
        let gone = self.rows.remove(p);
        proof {
            total_remove(old(self).rows@, p as int);
            let before = *old(self);
            let after = *self;
            assert forall|i: int, j: int| 0 <= i < j < after.rows@.len() implies below(
                (#[trigger] after.rows@[i]).hash@,
                (#[trigger] after.rows@[j]).hash@,
            ) by {
                let i0 = if i < p {
                    i
                } else {
                    i + 1
                };
                let j0 = if j < p {
                    j
                } else {
                    j + 1
                };
                assert(after.rows@[i] == before.rows@[i0]);
                assert(after.rows@[j] == before.rows@[j0]);
            }
            assert forall|h: Seq<u8>|
                after@.contains_key(h) == before@.remove(hash@).contains_key(h) by {
                if after.has_row(h) {
                    let k = after.row_of(h);
                    let k0 = if k < p {
                        k
                    } else {
                        k + 1
                    };
                    assert(after.rows@[k] == before.rows@[k0]);
                    assert(before.has_row(h));
                    if h == hash@ {
                        before.row_is_unique(k0, p as int);
                    }
                }
                if before.has_row(h) && h != hash@ {
                    let k = before.row_of(h);
                    let k1 = if k < p {
                        k
                    } else {
                        k - 1
                    };
                    assert(after.rows@[k1] == before.rows@[k]);
                    assert(after.has_row(h));
                }
            }
            assert forall|h: Seq<u8>| after@.contains_key(h) implies #[trigger] after@[h] == before@[h] by {
                let k = after.row_of(h);
                assert(after.has_row(h));
                let k0 = if k < p {
                    k
                } else {
                    k + 1
                };
                assert(after.rows@[k] == before.rows@[k0]);
                before.row_in_map(k0);
            }
            assert(after@ =~= before@.remove(hash@));
        }
        Some(gone.len)
    }
}

} // verus!
