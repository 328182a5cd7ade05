//! A stable order of rows by a numeric key.
use vstd::prelude::*;

verus! {

/// Index `a` comes before index `b`: by key, and by position where the keys are equal.
pub open spec fn precedes(keys: Seq<u64>, a: usize, b: usize) -> bool {
    keys[a as int] < keys[b as int] || (keys[a as int] == keys[b as int] && a < b)
}

/// Every index of the list precedes those after it.
pub open spec fn ordered(keys: Seq<u64>, list: Seq<usize>) -> bool {
    forall|i: int, j: int| 0 <= i < j < list.len() ==> precedes(keys, list[i], list[j])
}

/// The list holds exactly the indices from `lo` up to `hi`.
pub open spec fn spans(list: Seq<usize>, lo: int, hi: int) -> bool {
    &&& list.len() == hi - lo
    &&& forall|x: usize| list.contains(x) == (lo <= x < hi)
}

/// The indices of `keys` in the stable ascending order of their keys.
pub fn sort_order(keys: &Vec<u64>) -> (list: Vec<usize>)
    ensures
        spans(list@, 0, keys@.len() as int),
        ordered(keys@, list@),
{
    sort_range(keys, 0, keys.len())
}

fn sort_range(keys: &Vec<u64>, lo: usize, hi: usize) -> (list: Vec<usize>)
    requires
        lo <= hi <= keys@.len(),
    ensures
        spans(list@, lo as int, hi as int),
        ordered(keys@, list@),
    decreases hi - lo,
{
    let mut list: Vec<usize> = Vec::new();
    if hi - lo == 0 {
        return list;
    }
    if hi - lo == 1 {
        list.push(lo);
        proof {
            assert(list@ =~= seq![lo]);
            assert(list@[0] == lo);
        }
        return list;
    }
    let mid: usize = lo + (hi - lo) / 2;
    let a = sort_range(keys, lo, mid);
    let b = sort_range(keys, mid, hi);
    merge(keys, &a, &b, lo, mid, hi)
}

fn merge(
    keys: &Vec<u64>,
    a: &Vec<usize>,
    b: &Vec<usize>,
    lo: usize,
    mid: usize,
    hi: usize,
) -> (list: Vec<usize>)
    requires
        lo <= mid <= hi <= keys@.len(),
        spans(a@, lo as int, mid as int),
        spans(b@, mid as int, hi as int),
        ordered(keys@, a@),
        ordered(keys@, b@),
    ensures
        spans(list@, lo as int, hi as int),
        ordered(keys@, list@),
{
    let mut list: Vec<usize> = Vec::with_capacity(hi - lo);
    let mut i: usize = 0;
    let mut j: usize = 0;
    while i < a.len() || j < b.len()
        invariant
            lo <= mid <= hi <= keys@.len(),
            spans(a@, lo as int, mid as int),
            spans(b@, mid as int, hi as int),
            ordered(keys@, a@),
            ordered(keys@, b@),
            i <= a@.len(),
            j <= b@.len(),
            list@.len() == i + j,
            ordered(keys@, list@),
            forall|x: usize|
                list@.contains(x) == (a@.take(i as int).contains(x) || b@.take(
                    j as int,
                ).contains(x)),
            forall|k: int, m: int|
                0 <= k < list@.len() && i <= m < a@.len() ==> precedes(keys@, list@[k], a@[m]),
            forall|k: int, m: int|
                0 <= k < list@.len() && j <= m < b@.len() ==> precedes(keys@, list@[k], b@[m]),
        decreases a@.len() - i + b@.len() - j,
    {
        proof {
            if i < a@.len() {
                assert(a@.contains(a@[i as int]));
            }
            if j < b@.len() {
                assert(b@.contains(b@[j as int]));
            }
        }
        let from_a = if i == a.len() {
            false
        } else if j == b.len() {
            true
        } else {
            // Every index of `a` is below every index of `b`, so equal keys keep their order.
            keys[a[i]] <= keys[b[j]]
        };
        let ghost before = list@;
        if from_a {
            list.push(a[i]);
            proof {
                push_contains(before, a@[i as int]);
                take_contains(a@, i as int);
                assert(list@ == before.push(a@[i as int]));
                assert forall|x: usize|
                    list@.contains(x) == (a@.take(i + 1).contains(x) || b@.take(j as int).contains(
                        x,
                    )) by {
                    assert(before.push(a@[i as int]).contains(x) == (before.contains(x) || x
                        == a@[i as int]));
                }
                assert forall|m: int| i < m < a@.len() implies precedes(keys@, a@[i as int], a@[m]) by {}
                assert forall|m: int| j <= m < b@.len() implies precedes(
                    keys@,
                    a@[i as int],
                    b@[m],
                ) by {
                    assert(b@.contains(b@[m]));
                    if m > j {
                        assert(precedes(keys@, b@[j as int], b@[m]));
                    }
                }
            }
            i = i + 1;
        } else {
            list.push(b[j]);
            proof {
                push_contains(before, b@[j as int]);
                take_contains(b@, j as int);
                assert(list@ == before.push(b@[j as int]));
                assert forall|x: usize|
                    list@.contains(x) == (a@.take(i as int).contains(x) || b@.take(j + 1).contains(
                        x,
                    )) by {
                    assert(before.push(b@[j as int]).contains(x) == (before.contains(x) || x
                        == b@[j as int]));
                }
                assert forall|m: int| j < m < b@.len() implies precedes(keys@, b@[j as int], b@[m]) by {}
                assert forall|m: int| i <= m < a@.len() implies precedes(
                    keys@,
                    b@[j as int],
                    a@[m],
                ) by {
                    assert(a@.contains(a@[m]));
                    if m > i {
                        assert(precedes(keys@, a@[i as int], a@[m]));
                    }
                }
            }
            j = j + 1;
        }
    }
    proof {
        assert(a@.take(i as int) =~= a@);
        assert(b@.take(j as int) =~= b@);
    }
    list
}

proof fn push_contains(s: Seq<usize>, y: usize)
    ensures
        forall|x: usize| s.push(y).contains(x) == (s.contains(x) || x == y),
{
    assert forall|x: usize| s.push(y).contains(x) == (s.contains(x) || x == y) by {
        let t = s.push(y);
        if s.contains(x) {
            let k = s.index_of(x);
            assert(t[k] == x);
        }
        if x == y {
            assert(t[s.len() as int] == x);
        }
        if t.contains(x) {
            let k = t.index_of(x);
            if k < s.len() {
                assert(s[k] == x);
            }
        }
    }
}

proof fn take_contains(s: Seq<usize>, i: int)
    requires
        0 <= i < s.len(),
    ensures
        forall|x: usize| s.take(i + 1).contains(x) == (s.take(i).contains(x) || x == s[i]),
{
    assert(s.take(i + 1) =~= s.take(i).push(s[i]));
    push_contains(s.take(i), s[i]);
}

} // verus!
