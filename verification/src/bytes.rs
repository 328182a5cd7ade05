//! Byte strings: comparison, copies, and the short big-endian numbers that the wire formats share.
use vstd::prelude::*;

verus! {

/// Whether two byte strings are equal.
pub fn same_bytes(a: &[u8], b: &[u8]) -> (r: bool)
    ensures
        r == (a@ == b@),
{
    if a.len() != b.len() {
        return false;
    }
    let mut i: usize = 0;
    while i < a.len()
        invariant
            a.len() == b.len(),
            i <= a.len(),
            a@.take(i as int) == b@.take(i as int),
        decreases a.len() - i,
    {
        if a[i] != b[i] {
            proof {
                assert(a@[i as int] != b@[i as int]);
            }
            return false;
        }
        i = i + 1;
        proof {
            assert(a@.take(i as int) =~= a@.take(i - 1).push(a@[i - 1]));
            assert(b@.take(i as int) =~= b@.take(i - 1).push(b@[i - 1]));
        }
    }
    proof {
        assert(a@.take(i as int) =~= a@);
        assert(b@.take(i as int) =~= b@);
    }
    true
}

/// Whether `s` starts with `prefix`.
pub open spec fn starts_with(s: Seq<u8>, prefix: Seq<u8>) -> bool {
    prefix.len() <= s.len() && s.take(prefix.len() as int) == prefix
}

pub fn has_prefix(s: &[u8], prefix: &[u8]) -> (r: bool)
    ensures
        r == starts_with(s@, prefix@),
{
    if s.len() < prefix.len() {
        return false;
    }
    let head = vstd::slice::slice_subrange(s, 0, prefix.len());
    proof {
        assert(head@ =~= s@.take(prefix@.len() as int));
    }
    same_bytes(head, prefix)
}

/// The order of byte strings: by the first byte in which they differ; a string that ends there
/// comes first.
pub open spec fn below(a: Seq<u8>, b: Seq<u8>) -> bool
    decreases a.len(),
{
    if a.len() == 0 || b.len() == 0 {
        a.len() == 0 && b.len() > 0
    } else if a[0] != b[0] {
        a[0] < b[0]
    } else {
        below(a.skip(1), b.skip(1))
    }
}

/// Of two different strings exactly one comes first, and none comes before itself.
pub proof fn below_is_total(a: Seq<u8>, b: Seq<u8>)
    ensures
        a == b <==> (!below(a, b) && !below(b, a)),
        !(below(a, b) && below(b, a)),
    decreases a.len(),
{
    if a.len() > 0 && b.len() > 0 && a[0] == b[0] {
        below_is_total(a.skip(1), b.skip(1));
        if a.skip(1) == b.skip(1) {
            assert(a =~= seq![a[0]] + a.skip(1));
            assert(b =~= seq![b[0]] + b.skip(1));
        }
    } else if a.len() == 0 && b.len() == 0 {
        assert(a =~= b);
    }
}

pub proof fn below_is_transitive(a: Seq<u8>, b: Seq<u8>, c: Seq<u8>)
    requires
        below(a, b),
        below(b, c),
    ensures
        below(a, c),
    decreases a.len(),
{
    if a.len() > 0 && b.len() > 0 && c.len() > 0 && a[0] == b[0] && b[0] == c[0] {
        below_is_transitive(a.skip(1), b.skip(1), c.skip(1));
    }
}

/// How two strings are ordered.
pub enum Order {
    First,
    Same,
    Second,
}

proof fn below_after_prefix(a: Seq<u8>, b: Seq<u8>, k: int)
    requires
        0 <= k <= a.len(),
        k <= b.len(),
        a.take(k) == b.take(k),
    ensures
        below(a, b) == below(a.skip(k), b.skip(k)),
        below(b, a) == below(b.skip(k), a.skip(k)),
    decreases k,
{
    if k > 0 {
        assert(a.take(k)[0] == a[0] && b.take(k)[0] == b[0]);
        let a1 = a.skip(1);
        let b1 = b.skip(1);
        assert(a1.take(k - 1) =~= a.take(k).skip(1));
        assert(b1.take(k - 1) =~= b.take(k).skip(1));
        below_after_prefix(a1, b1, k - 1);
        assert(a1.skip(k - 1) =~= a.skip(k));
        assert(b1.skip(k - 1) =~= b.skip(k));
    } else {
        assert(a.skip(0) =~= a);
        assert(b.skip(0) =~= b);
    }
}

/// How two byte strings are ordered.
pub fn order(a: &[u8], b: &[u8]) -> (o: Order)
    ensures
        match o {
            Order::First => below(a@, b@) && a@ != b@,
            Order::Same => a@ == b@,
            Order::Second => below(b@, a@) && a@ != b@,
        },
{
    let mut i: usize = 0;
    while i < a.len() && i < b.len()
        invariant
            i <= a@.len(),
            i <= b@.len(),
            a@.take(i as int) == b@.take(i as int),
        decreases a@.len() - i,
    {
        if a[i] != b[i] {
            proof {
                below_after_prefix(a@, b@, i as int);
                below_is_total(a@, b@);
            }
            if a[i] < b[i] {
                return Order::First;
            }
            return Order::Second;
        }
        proof {
            assert(a@.take(i + 1) =~= a@.take(i as int).push(a@[i as int]));
            assert(b@.take(i + 1) =~= b@.take(i as int).push(b@[i as int]));
        }
        i = i + 1;
    }
    proof {
        below_after_prefix(a@, b@, i as int);
        below_is_total(a@, b@);
        if a@.len() == b@.len() {
            assert(a@.take(i as int) =~= a@);
            assert(b@.take(i as int) =~= b@);
        }
    }
    if i < b.len() {
        Order::First
    } else if i < a.len() {
        Order::Second
    } else {
        Order::Same
    }
}

/// A byte string as a fixed array.
pub fn to_array<const N: usize>(s: &[u8]) -> (a: [u8; N])
    requires
        s@.len() == N,
    ensures
        a@ == s@,
{
    let mut a: [u8; N] = vstd::array::array_fill_for_copy_types(0u8);
    let mut i: usize = 0;
    while i < N
        invariant
            s@.len() == N,
            i <= N,
            forall|j: int| 0 <= j < i ==> a@[j] == s@[j],
        decreases N - i,
    {
        a[i] = s[i];
        i = i + 1;
    }
    proof {
        assert(a@ =~= s@);
    }
    a
}

/// An owned copy of a byte string.
pub fn to_vec(s: &[u8]) -> (v: Vec<u8>)
    ensures
        v@ == s@,
{
    let mut v: Vec<u8> = Vec::with_capacity(s.len());
    v.extend_from_slice(s);
    proof {
        assert(v@ =~= s@);
    }
    v
}

/// The two big-endian bytes of `v`.
pub open spec fn be16(v: u16) -> Seq<u8> {
    seq![(v / 0x100) as u8, (v % 0x100) as u8]
}

/// The number whose two big-endian bytes start `s`.
pub open spec fn de16(s: Seq<u8>) -> u16 {
    (s[0] * 0x100 + s[1]) as u16
}

/// The `n` little-endian bytes of `v`.
pub open spec fn le_bytes(v: nat, n: nat) -> Seq<u8>
    decreases n,
{
    if n == 0 {
        seq![]
    } else {
        seq![(v % 256) as u8] + le_bytes(v / 256, (n - 1) as nat)
    }
}

/// The number that little-endian bytes write.
pub open spec fn le_value(s: Seq<u8>) -> nat
    decreases s.len(),
{
    if s.len() == 0 {
        0
    } else {
        s[0] as nat + 256 * le_value(s.skip(1))
    }
}

/// Append the `n` little-endian bytes of `v`.
pub fn put_le(out: &mut Vec<u8>, v: u64, n: usize)
    ensures
        final(out)@ == old(out)@ + le_bytes(v as nat, n as nat),
    decreases n,
{
    if n == 0 {
        proof {
            assert(out@ =~= old(out)@ + le_bytes(v as nat, n as nat));
        }
        return;
    }
    out.push((v % 256) as u8);
    put_le(out, v / 256, n - 1);
    proof {
        assert(out@ =~= old(out)@ + le_bytes(v as nat, n as nat));
    }
}

/// The number that the first eight bytes write, little-endian.
pub fn le_u64(s: &[u8]) -> (v: u64)
    requires
        s@.len() >= 8,
    ensures
        v == le_value(s@.take(8)),
{
    let ghost t = s@.take(8);
    let mut v: u64 = 0;
    let mut i: usize = 8;
    let ghost mut top: nat = 1;
    proof {
        assert(t.skip(8) =~= Seq::<u8>::empty());
        reveal_with_fuel(power_of_256, 9);
    }
    while i > 0
        invariant
            i <= 8,
            s@.len() >= 8,
            t == s@.take(8),
            v == le_value(t.skip(i as int)),
            v < top,
            top == power_of_256((8 - i) as nat),
            power_of_256(8) == 0x1_0000_0000_0000_0000,
        decreases i,
    {
        i = i - 1;
        proof {
            assert(t.skip(i as int)[0] == s@[i as int]);
            assert(t.skip(i as int).skip(1) =~= t.skip(i + 1));
            top = 256 * top;
            power_grows((8 - i) as nat, 8);
        }
        v = s[i] as u64 + 256 * v;
    }
    proof {
        assert(t.skip(0) =~= t);
    }
    v
}

spec fn power_of_256(n: nat) -> nat
    decreases n,
{
    if n == 0 {
        1
    } else {
        256 * power_of_256((n - 1) as nat)
    }
}

proof fn power_grows(a: nat, b: nat)
    requires
        a <= b,
    ensures
        power_of_256(a) <= power_of_256(b),
    decreases b - a,
{
    if a < b {
        power_grows(a + 1, b);
    }
}

} // verus!
