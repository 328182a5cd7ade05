//! What to evict: least recently used chunks first, down to the target. Chunks used within the
//! protection window are spared, unless the cache would stay over its hard cap.
use crate::cas::chunks::{total_len, ChunkRow};
use crate::sort::{ordered, precedes, sort_order, spans};
use vstd::prelude::*;

verus! {

/// Chunks accessed within this many seconds are protected.
pub const EVICTION_PROTECTION: u64 = 600;

/// Whether a chunk is protected.
pub open spec fn hot(now: u64, last: u64) -> bool {
    now < last + EVICTION_PROTECTION
}

/// The length of the marked chunks.
pub open spec fn marked_len(rows: Seq<ChunkRow>, mask: Seq<bool>) -> nat
    decreases rows.len(),
{
    if rows.len() == 0 {
        0
    } else {
        marked_len(rows.drop_last(), mask.drop_last()) + if mask.last() {
            rows.last().len as nat
        } else {
            0
        }
    }
}

proof fn mark_one(rows: Seq<ChunkRow>, mask: Seq<bool>, i: int)
    requires
        rows.len() == mask.len(),
        0 <= i < rows.len(),
        !mask[i],
    ensures
        marked_len(rows, mask.update(i, true)) == marked_len(rows, mask) + rows[i].len,
    decreases rows.len(),
{
    let m1 = mask.update(i, true);
    if i == rows.len() - 1 {
        assert(m1.drop_last() =~= mask.drop_last());
    } else {
        mark_one(rows.drop_last(), mask.drop_last(), i);
        assert(m1.drop_last() =~= mask.drop_last().update(i, true));
    }
}

proof fn mark_none(rows: Seq<ChunkRow>, mask: Seq<bool>)
    requires
        rows.len() == mask.len(),
        forall|i: int| 0 <= i < mask.len() ==> !mask[i],
    ensures
        marked_len(rows, mask) == 0,
    decreases rows.len(),
{
    if rows.len() > 0 {
        mark_none(rows.drop_last(), mask.drop_last());
    }
}

pub proof fn marked_at_most_total(rows: Seq<ChunkRow>, mask: Seq<bool>)
    requires
        rows.len() == mask.len(),
    ensures
        marked_len(rows, mask) <= total_len(rows),
        (forall|i: int| 0 <= i < mask.len() ==> mask[i]) ==> marked_len(rows, mask) == total_len(
            rows,
        ),
    decreases rows.len(),
{
    if rows.len() > 0 {
        marked_at_most_total(rows.drop_last(), mask.drop_last());
        assert(mask.last() == mask[mask.len() - 1]);
    }
}

/// What eviction looks at: the chunks, when each was last used, and in which order they are
/// taken.
pub struct Scene {
    pub rows: Seq<ChunkRow>,
    pub lasts: Seq<u64>,
    pub list: Seq<usize>,
    pub now: u64,
    pub target: u64,
}

impl Scene {
    pub open spec fn wf(self) -> bool {
        &&& self.lasts.len() == self.rows.len()
        &&& spans(self.list, 0, self.rows.len() as int)
        &&& ordered(self.lasts, self.list)
    }

    /// The order lists existing chunks, and each of them once.
    pub proof fn lists_chunks(self)
        requires
            self.wf(),
        ensures
            forall|q: int| 0 <= q < self.list.len() ==> #[trigger] self.list[q] < self.rows.len(),
            forall|p: int, q: int|
                0 <= p < q < self.list.len() ==> #[trigger] self.list[p] != #[trigger] self.list[q],
    {
        assert forall|q: int| 0 <= q < self.list.len() implies #[trigger] self.list[q]
            < self.rows.len() by {
            assert(self.list.contains(self.list[q]));
        }
        assert forall|p: int, q: int| 0 <= p < q < self.list.len() implies #[trigger] self.list[p]
            != #[trigger] self.list[q] by {
            assert(precedes(self.lasts, self.list[p], self.list[q]));
        }
    }

    /// Whether enough is marked.
    pub open spec fn enough(self, mask: Seq<bool>) -> bool {
        total_len(self.rows) - marked_len(self.rows, mask) <= self.target
    }

    /// Marking unprotected chunks from the `k`-th of the order on, until enough is marked.
    pub open spec fn spare(self, k: nat, mask: Seq<bool>) -> Seq<bool>
        decreases self.list.len() - k,
    {
        if k >= self.list.len() || self.enough(mask) {
            mask
        } else {
            let i = self.list[k as int] as int;
            if hot(self.now, self.lasts[i]) {
                self.spare(k + 1, mask)
            } else {
                self.spare(k + 1, mask.update(i, true))
            }
        }
    }

    /// Marking all chunks from the `k`-th of the order on, until enough is marked.
    pub open spec fn force(self, k: nat, mask: Seq<bool>) -> Seq<bool>
        decreases self.list.len() - k,
    {
        if k >= self.list.len() || self.enough(mask) {
            mask
        } else {
            let i = self.list[k as int] as int;
            if mask[i] {
                self.force(k + 1, mask)
            } else {
                self.force(k + 1, mask.update(i, true))
            }
        }
    }

    pub open spec fn unmarked(self) -> Seq<bool> {
        Seq::new(self.rows.len(), |i: int| false)
    }

    /// The chunks to evict: protected ones only if the rest would leave the cache over `max`.
    pub open spec fn victims(self, max: u64) -> Seq<bool> {
        let spared = self.spare(0, self.unmarked());
        if total_len(self.rows) - marked_len(self.rows, spared) > max {
            self.force(0, spared)
        } else {
            spared
        }
    }
}

/// Decide which chunks to evict: a mark for each, and their total length.
pub(crate) fn plan(
    rows: &Vec<ChunkRow>,
    lasts: &Vec<u64>,
    total: u64,
    target: u64,
    max: u64,
    now: u64,
) -> (res: (Vec<bool>, u64, Ghost<Seq<usize>>))
    requires
        lasts@.len() == rows@.len(),
        total == total_len(rows@),
    ensures
        ({
            let scene = Scene {
                rows: rows@,
                lasts: lasts@,
                list: res.2@,
                now,
                target,
            };
            &&& scene.wf()
            &&& res.0@ == scene.victims(max)
            &&& res.0@.len() == rows@.len()
            &&& res.1 == marked_len(rows@, res.0@)
            &&& total - res.1 <= target || total - res.1 <= max
        }),
{
    let list = sort_order(lasts);
    let ghost scene = Scene { rows: rows@, lasts: lasts@, list: list@, now, target };
    let mut mask: Vec<bool> = Vec::new();
    let mut j: usize = 0;
    while j < rows.len()
        invariant
            j <= rows@.len(),
            mask@.len() == j,
            forall|i: int| 0 <= i < j ==> !mask@[i],
        decreases rows@.len() - j,
    {
        mask.push(false);
        j = j + 1;
    }
    let mut freed: u64 = 0;
    proof {
        assert(mask@ =~= scene.unmarked());
        mark_none(rows@, mask@);
        scene.lists_chunks();
    }
    let mut k: usize = 0;
    let ghost spared = scene.spare(0, mask@);
    while k < list.len() && total - freed > target
        invariant
            k <= list@.len(),
            scene == (Scene { rows: rows@, lasts: lasts@, list: list@, now, target }),
            scene.wf(),
            total == total_len(rows@),
            mask@.len() == rows@.len(),
            freed == marked_len(rows@, mask@),
            freed <= total,
            spared == scene.spare(k as nat, mask@),
            forall|q: int| k <= q < list@.len() ==> !mask@[#[trigger] list@[q] as int],
        decreases list@.len() - k,
    {
        let i: usize = list[k];
        proof {
            scene.lists_chunks();
            marked_at_most_total(rows@, mask@);
        }
        let last: u64 = lasts[i];
        let protected = (now as u128) < last as u128 + EVICTION_PROTECTION as u128;
        if !protected {
            proof {
                mark_one(rows@, mask@, i as int);
                marked_at_most_total(rows@, mask@.update(i as int, true));
            }
            freed = freed + rows[i].len as u64;
            mask[i] = true;
        }
        k = k + 1;
    }
    proof {
        assert(mask@ == spared);
    }
    if total - freed > max {
        let mut k2: usize = 0;
        let ghost forced = scene.force(0, mask@);
        while k2 < list.len() && total - freed > target
            invariant
                k2 <= list@.len(),
                scene == (Scene { rows: rows@, lasts: lasts@, list: list@, now, target }),
                scene.wf(),
                total == total_len(rows@),
                mask@.len() == rows@.len(),
                freed == marked_len(rows@, mask@),
                freed <= total,
                forced == scene.force(k2 as nat, mask@),
                forall|q: int| 0 <= q < k2 ==> mask@[#[trigger] list@[q] as int],
            decreases list@.len() - k2,
        {
            let i: usize = list[k2];
            proof {
                scene.lists_chunks();
            }
            if !mask[i] {
                proof {
                    mark_one(rows@, mask@, i as int);
                    marked_at_most_total(rows@, mask@.update(i as int, true));
                }
                freed = freed + rows[i].len as u64;
                mask[i] = true;
            }
            k2 = k2 + 1;
        }
        proof {
            if total - freed > target {
                assert forall|i: int| 0 <= i < mask@.len() implies mask@[i] by {
                    assert(list@.contains(i as usize));
                    let q = list@.index_of(i as usize);
                    assert(list@[q] == i as usize);
                }
                marked_at_most_total(rows@, mask@);
            }
        }
    }
    (mask, freed, Ghost(list@))
}

/// Chunks go oldest first, whether protected ones have to go or not: a chunk that is kept was
/// used after every victim (or at the same time, and comes later in the table).
pub proof fn oldest_go_first(scene: Scene, max: u64, gone: int, kept: int)
    requires
        scene.wf(),
        0 <= gone < scene.rows.len(),
        0 <= kept < scene.rows.len(),
        scene.rows.len() <= usize::MAX,
        scene.victims(max)[gone],
        !scene.victims(max)[kept],
    ensures
        precedes(scene.lasts, gone as usize, kept as usize),
{
    let spared = scene.spare(0, scene.unmarked());
    spare_keeps_len(scene, 0, scene.unmarked());
    if spared[kept] {
        force_keeps_marks(scene, 0, spared, kept);
    }
    if spared[gone] {
        if hot(scene.now, scene.lasts[gone]) {
            protected_are_spared(scene, 0, scene.unmarked(), gone);
        }
        if !hot(scene.now, scene.lasts[kept]) {
            spared_go_first(scene, gone, kept);
        }
    } else {
        scene.lists_chunks();
        let g = gone as usize;
        let h = kept as usize;
        assert(scene.list.contains(g));
        assert(scene.list.contains(h));
        let pg = scene.list.index_of(g);
        let ph = scene.list.index_of(h);
        if ph < pg {
            force_takes_a_prefix(scene, 0, spared, pg, ph);
        }
        assert(precedes(scene.lasts, scene.list[pg], scene.list[ph]));
    }
}

proof fn spare_keeps_len(scene: Scene, k: nat, mask: Seq<bool>)
    requires
        scene.wf(),
        mask.len() == scene.rows.len(),
    ensures
        scene.spare(k, mask).len() == mask.len(),
    decreases scene.list.len() - k,
{
    if k < scene.list.len() && !scene.enough(mask) {
        let i = scene.list[k as int] as int;
        assert(scene.list.contains(scene.list[k as int]));
        spare_keeps_len(scene, k + 1, mask);
        spare_keeps_len(scene, k + 1, mask.update(i, true));
    }
}

/// What is marked stays marked.
proof fn force_keeps_marks(scene: Scene, k: nat, mask: Seq<bool>, i: int)
    requires
        scene.wf(),
        mask.len() == scene.rows.len(),
        0 <= i < mask.len(),
        mask[i],
    ensures
        scene.force(k, mask)[i],
    decreases scene.list.len() - k,
{
    if k < scene.list.len() && !scene.enough(mask) {
        let j = scene.list[k as int] as int;
        assert(scene.list.contains(scene.list[k as int]));
        force_keeps_marks(scene, k + 1, mask, i);
        force_keeps_marks(scene, k + 1, mask.update(j, true), i);
    }
}

/// If forcing from `k` on marks the chunk at place `pg` of the order, it leaves none before it
/// unmarked.
proof fn force_takes_a_prefix(scene: Scene, k: nat, mask: Seq<bool>, pg: int, ph: int)
    requires
        scene.wf(),
        mask.len() == scene.rows.len(),
        0 <= ph < pg < scene.list.len(),
        forall|q: int| 0 <= q < k && q < scene.list.len() ==> mask[#[trigger] scene.list[q] as int],
        !mask[scene.list[pg] as int],
        scene.force(k, mask)[scene.list[pg] as int],
    ensures
        scene.force(k, mask)[scene.list[ph] as int],
    decreases scene.list.len() - k,
{
    scene.lists_chunks();
    assert(scene.list.contains(scene.list[ph]));
    assert(scene.list.contains(scene.list[pg]));
    if k < scene.list.len() && !scene.enough(mask) {
        let i = scene.list[k as int] as int;
        assert(scene.list.contains(scene.list[k as int]));
        let m1 = mask.update(i, true);
        assert(mask[i] ==> m1 =~= mask);
        assert forall|q: int| 0 <= q < k + 1 && q < scene.list.len() implies m1[#[trigger] scene.list[q] as int] by {
            assert(scene.list.contains(scene.list[q]));
        }
        if pg == k {
            force_keeps_marks(scene, k + 1, m1, scene.list[ph] as int);
        } else {
            assert(scene.list[pg] != scene.list[k as int]);
            force_takes_a_prefix(scene, k + 1, m1, pg, ph);
        }
    }
}

/// Sparing the protected, the oldest of the others go first.
proof fn spared_go_first(scene: Scene, gone: int, kept: int)
    requires
        scene.wf(),
        0 <= gone < scene.rows.len(),
        0 <= kept < scene.rows.len(),
        scene.rows.len() <= usize::MAX,
        scene.spare(0, scene.unmarked())[gone],
        !scene.spare(0, scene.unmarked())[kept],
        !hot(scene.now, scene.lasts[kept]),
    ensures
        precedes(scene.lasts, gone as usize, kept as usize),
{
    scene.lists_chunks();
    let g = gone as usize;
    let h = kept as usize;
    assert(scene.list.contains(g));
    assert(scene.list.contains(h));
    let pg = scene.list.index_of(g);
    let ph = scene.list.index_of(h);
    if ph < pg {
        spare_takes_a_prefix(scene, 0, scene.unmarked(), pg, ph);
    }
    assert(precedes(scene.lasts, scene.list[pg], scene.list[ph]));
}

/// If the chunk at place `pg` of the order is marked by sparing from `k` on, then so is every
/// unprotected one between.
proof fn spare_takes_a_prefix(scene: Scene, k: nat, mask: Seq<bool>, pg: int, ph: int)
    requires
        scene.wf(),
        k <= scene.list.len(),
        mask.len() == scene.rows.len(),
        0 <= pg < scene.list.len(),
        0 <= ph < scene.list.len(),
        forall|q: int| k <= q < scene.list.len() ==> !mask[#[trigger] scene.list[q] as int],
        !hot(scene.now, scene.lasts[scene.list[ph] as int]),
        ph < k ==> mask[scene.list[ph] as int],
        scene.spare(k, mask)[scene.list[pg] as int],
        ph < pg,
    ensures
        scene.spare(k, mask)[scene.list[ph] as int],
    decreases scene.list.len() - k,
{
    scene.lists_chunks();
    if k >= scene.list.len() || scene.enough(mask) {
        if ph >= k {
            assert(!mask[scene.list[pg] as int]);
        }
    } else {
        let i = scene.list[k as int] as int;
        assert(scene.list.contains(scene.list[k as int]));
        let m1 = if hot(scene.now, scene.lasts[i]) {
            mask
        } else {
            mask.update(i, true)
        };
        assert forall|q: int| k + 1 <= q < scene.list.len() implies !m1[#[trigger] scene.list[q] as int] by {
            assert(scene.list[k as int] != scene.list[q]);
        }
        if ph < k {
            assert(m1[scene.list[ph] as int]) by {
                assert(scene.list.contains(scene.list[ph]));
            }
        }
        assert(scene.list.contains(scene.list[pg]));
        spare_takes_a_prefix(scene, k + 1, m1, pg, ph);
    }
}

/// Sparing the protected marks no protected chunk.
pub proof fn protected_are_spared(scene: Scene, k: nat, mask: Seq<bool>, i: int)
    requires
        scene.wf(),
        mask.len() == scene.rows.len(),
        0 <= i < scene.rows.len(),
        hot(scene.now, scene.lasts[i]),
        !mask[i],
    ensures
        !scene.spare(k, mask)[i],
    decreases scene.list.len() - k,
{
    if k < scene.list.len() && !scene.enough(mask) {
        let j = scene.list[k as int] as int;
        assert(scene.list.contains(scene.list[k as int]));
        if hot(scene.now, scene.lasts[j]) {
            protected_are_spared(scene, k + 1, mask, i);
        } else {
            protected_are_spared(scene, k + 1, mask.update(j, true), i);
        }
    }
}

} // verus!
