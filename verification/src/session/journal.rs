//! Snapshots and the journal: a replica is seeded from a walk of the tree, and kept current by
//! numbered batches of records.
//!
//! Batches that come during a walk are kept and replayed on top of it. After that each batch has
//! to follow the one before; a gap means that something was missed, and the share is walked
//! again.
use std::collections::HashMap;
use vstd::prelude::*;

verus! {

broadcast use vstd::std_specs::hash::group_hash_axioms;

/// The expected number that takes any batch: nothing was kept during the walk, so it is not known
/// where the guest's count stands.
pub const SEQ_ADOPT: u64 = u64::MAX;

/// A batch of this share stands for an overflow: every share has to be walked again.
pub const ALL_SHARES: u16 = u16::MAX;

/// Numbered records of one share.
#[derive(Debug)]
pub struct Batch<R> {
    pub share: u16,
    pub first_seq: u64,
    pub records: Vec<R>,
}

impl<R> Batch<R> {
    /// The number after the last record.
    pub open spec fn end(&self) -> int {
        self.first_seq + self.records@.len()
    }

    /// The numbers do not run out.
    pub open spec fn numbered(&self) -> bool {
        self.end() <= u64::MAX
    }
}

/// A walk that has not come to its end.
#[derive(Debug)]
pub struct Staging<R> {
    pub snap_id: u64,
    /// What the journal brought meanwhile.
    pub buffered: Vec<Batch<R>>,
}

/// The number that is expected after some batches were replayed.
pub open spec fn seq_after<R>(batches: Seq<Batch<R>>) -> u64
    decreases batches.len(),
{
    if batches.len() == 0 {
        SEQ_ADOPT
    } else {
        let r = seq_after(batches.drop_last());
        let e = batches.last().end() as u64;
        if r == SEQ_ADOPT || r < e {
            e
        } else {
            r
        }
    }
}

pub open spec fn all_numbered<R>(batches: Seq<Batch<R>>) -> bool {
    forall|i: int| 0 <= i < batches.len() ==> (#[trigger] batches[i]).numbered()
}

fn next_seq<R>(batches: &Vec<Batch<R>>) -> (n: u64)
    requires
        all_numbered(batches@),
    ensures
        n == seq_after(batches@),
{
    let mut n: u64 = SEQ_ADOPT;
    let mut i: usize = 0;
    proof {
        assert(batches@.take(0) =~= Seq::empty());
    }
    while i < batches.len()
        invariant
            all_numbered(batches@),
            i <= batches@.len(),
            n == seq_after(batches@.take(i as int)),
        decreases batches@.len() - i,
    {
        proof {
            let t = batches@.take(i + 1);
            assert(t.drop_last() =~= batches@.take(i as int));
            assert(t.last() == batches@[i as int]);
            assert(batches@[i as int].numbered());
        }
        let e: u64 = batches[i].first_seq + batches[i].records.len() as u64;
        if n == SEQ_ADOPT || n < e {
            n = e;
        }
        i = i + 1;
    }
    proof {
        assert(batches@.take(i as int) =~= batches@);
    }
    n
}

/// What became of a batch.
#[derive(Debug)]
pub enum Intake<R> {
    /// Something was missed of every share: a walk of each was begun.
    ResyncAll,
    /// It was kept for after the walk.
    Kept,
    /// It is of no use: the share is not live.
    Dropped,
    /// It does not follow the one before: a walk of the share was begun.
    Gap,
    /// It is to be applied.
    Apply(Batch<R>),
}

/// Where the shares of a session stand.
#[derive(Debug)]
pub struct Assembler<R> {
    /// The shares that the guest announced.
    pub known: Vec<u16>,
    pub staging: HashMap<u64, Staging<R>>,
    /// The number of the next batch of each live share.
    pub seq: HashMap<u64, u64>,
    /// How many walks were begun because something was missed.
    pub resyncs: u64,
}

/// A count after `n` more.
pub open spec fn counted(c: u64, n: nat) -> u64 {
    ((c + n) % 0x1_0000_0000_0000_0000) as u64
}

impl<R> Assembler<R> {
    pub open spec fn wf(&self) -> bool {
        &&& self.known@.no_duplicates()
        &&& forall|s: u64| #[trigger] self.staging@.contains_key(s) ==> self.has(s)
        &&& forall|s: u64| #[trigger] self.seq@.contains_key(s) ==> self.has(s)
        &&& forall|s: u64| #[trigger]
            self.staging@.contains_key(s) ==> all_numbered(self.staging@[s].buffered@)
    }

    pub open spec fn knows(&self, share: u16) -> bool {
        self.known@.contains(share)
    }

    /// The number is that of a share that was announced.
    pub open spec fn has(&self, id: u64) -> bool {
        id <= u16::MAX && self.knows(id as u16)
    }

    /// The number for a walk of a share, of one for each that was announced.
    pub open spec fn id_for(&self, snap_ids: Seq<u64>, share: u16) -> u64 {
        snap_ids[self.known@.index_of(share)]
    }

    /// A walk of the share has just begun.
    pub open spec fn starts(&self, share: u16, snap_id: u64) -> bool {
        &&& self.walking(share)
        &&& self.staging@[share as u64].snap_id == snap_id
        &&& self.staging@[share as u64].buffered@.len() == 0
        &&& !self.seq@.contains_key(share as u64)
    }

    /// A walk of the share is under way.
    pub open spec fn walking(&self, share: u16) -> bool {
        self.staging@.contains_key(share as u64)
    }

    /// The number that the next batch of a live share must have.
    pub open spec fn expected(&self, share: u16) -> Option<u64> {
        if self.seq@.contains_key(share as u64) {
            Some(self.seq@[share as u64])
        } else {
            None
        }
    }

    /// Where none of some shares was walked yet; one that is named twice counts once.
    pub fn new(known: Vec<u16>) -> (a: Self)
        ensures
            a.wf(),
            forall|s: u16| #[trigger] a.knows(s) <==> known@.contains(s),
            known@.no_duplicates() ==> a.known@ == known@,
            a.staging@ == Map::<u64, Staging<R>>::empty(),
            a.seq@ == Map::<u64, u64>::empty(),
            a.resyncs == 0,
    {
        let mut a = Assembler {
            known: Vec::new(),
            staging: HashMap::new(),
            seq: HashMap::new(),
            resyncs: 0,
        };
        let mut i: usize = 0;
        while i < known.len()
            invariant
                i <= known@.len(),
                a.known@.no_duplicates(),
                forall|s: u16| #[trigger] a.knows(s) <==> known@.take(i as int).contains(s),
                known@.no_duplicates() ==> a.known@ == known@.take(i as int),
                a.staging@ == Map::<u64, Staging<R>>::empty(),
                a.seq@ == Map::<u64, u64>::empty(),
                a.resyncs == 0,
            decreases known@.len() - i,
        {
            let share: u16 = known[i];
            let ghost before = a;
            let ghost was = a.known@;
            let ghost so_far = known@.take(i as int);
            proof {
                assert(known@.take(i + 1) =~= so_far.push(share));
                assert(a.knows(share) <==> so_far.contains(share));
            }
            if a.place(share).is_none() {
                a.known.push(share);
            } else {
                proof {
                    let k = so_far.index_of(share);
                    assert(known@[k] == known@[i as int]);
                }
            }
            proof {
                assert forall|s: u16| #[trigger] a.knows(s) <==> so_far.push(share).contains(s) by {
                    assert(before.knows(s) <==> so_far.contains(s));
                    if so_far.contains(s) {
                        let k = so_far.index_of(s);
                        assert(so_far.push(share)[k] == s);
                    }
                    if s == share {
                        assert(so_far.push(share)[i as int] == s);
                    }
                    if was.contains(s) {
                        let k = was.index_of(s);
                        assert(a.known@[k] == s);
                    }
                    if a.known@.contains(s) && s != share {
                        let k = a.known@.index_of(s);
                        assert(was[k] == s);
                    }
                    if a.known@.len() > was.len() {
                        assert(a.known@[was.len() as int] == share);
                    }
                }
            }
            i = i + 1;
        }
        proof {
            assert(known@.take(i as int) =~= known@);
        }
        a
    }

    /// The place of a share among those that were announced.
    fn place(&self, share: u16) -> (r: Option<usize>)
        ensures
            match r {
                Some(i) => i < self.known@.len() && self.known@[i as int] == share,
                None => !self.knows(share),
            },
    {
        let mut i: usize = 0;
        while i < self.known.len()
            invariant
                i <= self.known@.len(),
                forall|j: int| 0 <= j < i ==> self.known@[j] != share,
            decreases self.known@.len() - i,
        {
            if self.known[i] == share {
                return Some(i);
            }
            i = i + 1;
        }
        None
    }

    /// Start a walk of a share: until it is done nothing is applied, and what came during an
    /// earlier walk is forgotten. Nothing happens for a share that was not announced.
    pub fn begin(&mut self, share: u16, snap_id: u64) -> (begun: bool)
        requires
            old(self).wf(),
        ensures
            final(self).wf(),
            begun == old(self).knows(share),
            final(self).known == old(self).known,
            final(self).resyncs == old(self).resyncs,
            if begun {
                &&& final(self).starts(share, snap_id)
                &&& final(self).seq@ == old(self).seq@.remove(share as u64)
                &&& final(self).staging@.remove(share as u64) == old(self).staging@.remove(
                    share as u64,
                )
            } else {
                *final(self) == *old(self)
            },
    {
        if self.place(share).is_none() {
            return false;
        }
        let id: u64 = share as u64;
        let _was = self.seq.remove(&id);
        let ghost before = self.staging@;
        let _old = self.staging.insert(id, Staging { snap_id, buffered: Vec::new() });
        proof {
            assert(self.staging@.remove(id) =~= before.remove(id));
            assert(id as u16 == share);
        }
        true
    }

    /// Something was missed of a share: a walk of it begins, and is counted. Nothing happens for a
    /// share that was not announced.
    pub fn resync(&mut self, share: u16, snap_id: u64) -> (begun: bool)
        requires
            old(self).wf(),
        ensures
            final(self).wf(),
            begun == old(self).knows(share),
            final(self).known == old(self).known,
            if begun {
                &&& final(self).starts(share, snap_id)
                &&& final(self).resyncs == counted(old(self).resyncs, 1)
                &&& final(self).seq@ == old(self).seq@.remove(share as u64)
                &&& final(self).staging@.remove(share as u64) == old(self).staging@.remove(
                    share as u64,
                )
            } else {
                *final(self) == *old(self)
            },
    {
        let begun = self.begin(share, snap_id);
        if begun {
            self.resyncs = self.resyncs.wrapping_add(1);
        }
        begun
    }

    /// Something was missed of every share: a walk of each begins, under a number of its own, and is
    /// counted.
    fn resync_all(&mut self, snap_ids: &Vec<u64>)
        requires
            old(self).wf(),
            snap_ids@.len() == old(self).known@.len(),
        ensures
            final(self).wf(),
            final(self).known == old(self).known,
            forall|s: u16| #[trigger]
                old(self).knows(s) ==> final(self).starts(s, old(self).id_for(snap_ids@, s)),
            final(self).seq@ == Map::<u64, u64>::empty(),
            final(self).resyncs == counted(old(self).resyncs, old(self).known@.len()),
    {
        let mut i: usize = 0;
        while i < self.known.len()
            invariant
                self.wf(),
                self.known == old(self).known,
                i <= self.known@.len() == snap_ids@.len(),
                forall|j: int|
                    0 <= j < i ==> self.starts(#[trigger] self.known@[j], snap_ids@[j]),
                self.resyncs == counted(old(self).resyncs, i as nat),
            decreases self.known@.len() - i,
        {
            let ghost before = *self;
            let share: u16 = self.known[i];
            let _begun = self.resync(share, snap_ids[i]);
            proof {
                assert(before.knows(share));
                assert forall|j: int| 0 <= j < i + 1 implies self.starts(
                    #[trigger] self.known@[j],
                    snap_ids@[j],
                ) by {
                    let s = self.known@[j];
                    if j < i {
                        assert(before.known@[j] == s);
                        assert(before.starts(s, snap_ids@[j]));
                        assert(s != share);
                        let id = s as u64;
                        assert(self.staging@.remove(share as u64).contains_key(id)
                            == before.staging@.remove(share as u64).contains_key(id));
                        assert(self.staging@.remove(share as u64)[id] == before.staging@.remove(
                            share as u64,
                        )[id]);
                    }
                }
            }
            i = i + 1;
        }
        proof {
            assert forall|s: u16| #[trigger] old(self).knows(s) implies self.starts(
                s,
                old(self).id_for(snap_ids@, s),
            ) by {
                let k = self.known@.index_of(s);
                assert(self.known@[k] == s);
            }
            assert forall|id: u64| !self.seq@.contains_key(id) by {
                if self.seq@.contains_key(id) {
                    assert(self.has(id));
                    assert(old(self).knows(id as u16));
                    assert(self.starts(id as u16, old(self).id_for(snap_ids@, id as u16)));
                    assert((id as u16) as u64 == id);
                }
            }
            assert(self.seq@ =~= Map::<u64, u64>::empty());
        }
    }

    /// Whether a directory of a walk is wanted: it belongs to the walk that is under way.
    pub fn on_snap_dir(&self, share: u16, snap_id: u64) -> (apply: bool)
        requires
            self.wf(),
        ensures
            apply == (self.walking(share) && self.staging@[share as u64].snap_id == snap_id),
    {
        match self.staging.get(&(share as u64)) {
            Some(s) => s.snap_id == snap_id,
            None => false,
        }
    }

    /// A walk came to its end: gives what the journal brought meanwhile, to be replayed on top of
    /// it, and expects the batch after that. The end of another walk means nothing.
    pub fn finish_seed(&mut self, share: u16, snap_id: u64) -> (replay: Option<Vec<Batch<R>>>)
        requires
            old(self).wf(),
        ensures
            final(self).wf(),
            final(self).known == old(self).known,
            final(self).resyncs == old(self).resyncs,
            if old(self).walking(share) && old(self).staging@[share as u64].snap_id == snap_id {
                &&& replay == Some(old(self).staging@[share as u64].buffered)
                &&& final(self).staging@ == old(self).staging@.remove(share as u64)
                &&& final(self).seq@ == old(self).seq@.insert(
                    share as u64,
                    seq_after(old(self).staging@[share as u64].buffered@),
                )
            } else {
                replay is None && *final(self) == *old(self)
            },
    {
        let id: u64 = share as u64;
        if !self.on_snap_dir(share, snap_id) {
            return None;
        }
        match self.staging.remove(&id) {
            Some(s) => {
                let n: u64 = next_seq(&s.buffered);
                let _was = self.seq.insert(id, n);
                Some(s.buffered)
            },
            None => None,
        }
    }

    /// A batch came; `live` says that the share has a replica that takes records. Where something
    /// was missed, a walk begins under the share's number in `snap_ids`, which has one for each share
    /// that was announced, and the batches that follow are kept for it.
    pub fn on_journal(&mut self, batch: Batch<R>, live: bool, snap_ids: &Vec<u64>) -> (intake:
        Intake<R>)
        requires
            old(self).wf(),
            batch.numbered(),
            snap_ids@.len() == old(self).known@.len(),
        ensures
            final(self).wf(),
            journaled(*old(self), *final(self), batch, live, snap_ids@, intake),
    {
        if batch.share == ALL_SHARES {
            self.resync_all(snap_ids);
            return Intake::ResyncAll;
        }
        let id: u64 = batch.share as u64;
        if self.staging.contains_key(&id) {
            match self.staging.remove(&id) {
                Some(mut s) => {
                    let ghost was = s.buffered@;
                    s.buffered.push(batch);
                    proof {
                        assert forall|i: int| 0 <= i < s.buffered@.len() implies (
                        #[trigger] s.buffered@[i]).numbered() by {
                            if i < was.len() {
                                assert(was[i].numbered());
                            }
                        }
                    }
                    let _none = self.staging.insert(id, s);
                    proof {
                        assert(self.staging@.remove(id) =~= old(self).staging@.remove(id));
                    }
                },
                None => {},
            }
            return Intake::Kept;
        }
        if !live {
            return Intake::Dropped;
        }
        let e: u64 = match self.seq.get(&id) {
            Some(e) => *e,
            None => {
                return Intake::Dropped;
            },
        };
        if e != SEQ_ADOPT && batch.first_seq != e {
            if let Some(i) = self.place(batch.share) {
                let _begun = self.resync(batch.share, snap_ids[i]);
            }
            return Intake::Gap;
        }
        let n: u64 = batch.first_seq + batch.records.len() as u64;
        let _was = self.seq.insert(id, n);
        Intake::Apply(batch)
    }
}

/// What becomes of a batch: one that says that something was missed of all shares, or that does not
/// follow the one before, begins a walk; during a walk a batch is kept.
pub open spec fn journaled<R>(
    pre: Assembler<R>,
    post: Assembler<R>,
    batch: Batch<R>,
    live: bool,
    snap_ids: Seq<u64>,
    intake: Intake<R>,
) -> bool {
    let id = batch.share as u64;
    let e = pre.expected(batch.share);
    &&& post.known == pre.known
    &&& if batch.share == ALL_SHARES {
        &&& intake is ResyncAll
        &&& forall|s: u16| #[trigger] pre.knows(s) ==> post.starts(s, pre.id_for(snap_ids, s))
        &&& post.seq@ == Map::<u64, u64>::empty()
        &&& post.resyncs == counted(pre.resyncs, pre.known@.len())
    } else if pre.walking(batch.share) {
        &&& intake is Kept
        &&& post.seq == pre.seq
        &&& post.resyncs == pre.resyncs
        &&& post.walking(batch.share)
        &&& post.staging@[id].snap_id == pre.staging@[id].snap_id
        &&& post.staging@[id].buffered@ == pre.staging@[id].buffered@.push(batch)
        &&& post.staging@.remove(id) == pre.staging@.remove(id)
    } else if !live || e is None {
        intake is Dropped && post == pre
    } else if e->0 != SEQ_ADOPT && batch.first_seq != e->0 {
        &&& intake is Gap
        &&& post.starts(batch.share, pre.id_for(snap_ids, batch.share))
        &&& post.resyncs == counted(pre.resyncs, 1)
        &&& post.seq@ == pre.seq@.remove(id)
        &&& post.staging@.remove(id) == pre.staging@.remove(id)
    } else {
        &&& intake == Intake::Apply(batch)
        &&& post.staging == pre.staging
        &&& post.resyncs == pre.resyncs
        &&& post.seq@ == pre.seq@.insert(id, batch.end() as u64)
    }
}

/// A gap is walked: it is counted, its batch is not applied, and the batches of the share that
/// follow are kept for the end of the walk.
pub proof fn gap_is_walked<R>(
    a0: Assembler<R>,
    a1: Assembler<R>,
    a2: Assembler<R>,
    missed: Batch<R>,
    next: Batch<R>,
    live: bool,
    snap_ids: Seq<u64>,
    other_ids: Seq<u64>,
    first: Intake<R>,
    second: Intake<R>,
)
    requires
        missed.share != ALL_SHARES,
        !a0.walking(missed.share),
        a0.expected(missed.share) is Some,
        a0.expected(missed.share)->0 != SEQ_ADOPT,
        missed.first_seq != a0.expected(missed.share)->0,
        next.share == missed.share,
        journaled(a0, a1, missed, true, snap_ids, first),
        journaled(a1, a2, next, live, other_ids, second),
    ensures
        first is Gap,
        a1.resyncs == counted(a0.resyncs, 1),
        second is Kept,
        a2.staging@[missed.share as u64].snap_id == a0.id_for(snap_ids, missed.share),
        a2.staging@[missed.share as u64].buffered@ == seq![next],
{
    assert(a2.staging@[missed.share as u64].buffered@ =~= seq![next]);
}

/// Where all of the journal overflowed, every share is walked.
pub proof fn overflow_walks_every_share<R>(
    pre: Assembler<R>,
    post: Assembler<R>,
    batch: Batch<R>,
    live: bool,
    snap_ids: Seq<u64>,
    intake: Intake<R>,
    share: u16,
)
    requires
        batch.share == ALL_SHARES,
        pre.knows(share),
        journaled(pre, post, batch, live, snap_ids, intake),
    ensures
        intake is ResyncAll,
        post.starts(share, pre.id_for(snap_ids, share)),
{
}

/// Batches in the order in which they were taken, each following the one before.
pub open spec fn contiguous<R>(batches: Seq<Batch<R>>) -> bool {
    forall|i: int|
        0 < i < batches.len() ==> (#[trigger] batches[i]).first_seq == batches[i - 1].end()
}

/// Where the batches that were applied to a live share follow one another, the one that is applied
/// next follows too, and the number after it is expected: nothing is applied past a gap.
pub proof fn nothing_is_applied_past_a_gap<R>(
    pre: Assembler<R>,
    post: Assembler<R>,
    applied: Seq<Batch<R>>,
    next: Batch<R>,
    live: bool,
    snap_ids: Seq<u64>,
)
    requires
        contiguous(applied),
        applied.len() > 0,
        applied.last().end() < SEQ_ADOPT,
        pre.expected(next.share) == Some(applied.last().end() as u64),
        next.numbered(),
        journaled(pre, post, next, live, snap_ids, Intake::Apply(next)),
    ensures
        contiguous(applied.push(next)),
        post.expected(next.share) == Some(next.end() as u64),
{
    let p = applied.push(next);
    assert forall|i: int| 0 < i < p.len() implies (#[trigger] p[i]).first_seq == p[i - 1].end() by {
        if i < applied.len() {
            assert(p[i] == applied[i]);
            assert(p[i - 1] == applied[i - 1]);
        }
    }
}

/// After a walk during which batches came one after the other, the batch that is expected is the
/// one after the last of them.
pub proof fn replay_leads_on<R>(batches: Seq<Batch<R>>)
    requires
        batches.len() > 0,
        contiguous(batches),
        all_numbered(batches),
        batches.last().end() < SEQ_ADOPT,
    ensures
        seq_after(batches) == batches.last().end(),
    decreases batches.len(),
{
    reveal_with_fuel(seq_after, 2);
    let p = batches.drop_last();
    if p.len() > 0 {
        assert forall|i: int| 0 < i < p.len() implies (#[trigger] p[i]).first_seq == p[i - 1].end() by {
            assert(p[i] == batches[i]);
            assert(p[i - 1] == batches[i - 1]);
        }
        assert forall|i: int| 0 <= i < p.len() implies (#[trigger] p[i]).numbered() by {
            assert(p[i] == batches[i]);
        }
        assert(batches[batches.len() - 1].first_seq == batches[batches.len() - 2].end());
        assert(p.last() == batches[batches.len() - 2]);
        replay_leads_on(p);
    }
}

} // verus!
