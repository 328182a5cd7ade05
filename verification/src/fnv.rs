//! FNV mixing of 64-bit words, by which changed file states are told apart.
use vstd::arithmetic::div_mod::lemma_fundamental_div_mod;
use vstd::arithmetic::div_mod::lemma_mod_multiples_vanish;
use vstd::prelude::*;

verus! {

pub const FNV_BASIS: u64 = 0xcbf2_9ce4_8422_2325;

pub const FNV_PRIME: u64 = 0x100_0000_01b3;

/// One step: the word is XORed in and the result multiplied by the prime, modulo 2^64.
pub open spec fn fnv_step(h: u64, v: u64) -> u64 {
    ((h ^ v) * FNV_PRIME % 0x1_0000_0000_0000_0000) as u64
}

/// The mix of words from the `i`-th on.
pub open spec fn fnv(h: u64, words: Seq<u64>) -> u64
    decreases words.len(),
{
    if words.len() == 0 {
        h
    } else {
        fnv_step(fnv(h, words.drop_last()), words.last())
    }
}

pub fn mix(h: u64, v: u64) -> (r: u64)
    ensures
        r == fnv_step(h, v),
{
    (h ^ v).wrapping_mul(FNV_PRIME)
}

/// Multiplying by the prime loses nothing: multiplying by its inverse gives the word back.
proof fn prime_is_invertible(x: u64)
    ensures
        (x * FNV_PRIME % 0x1_0000_0000_0000_0000) * 0xce96_5057_aff6_957b % 0x1_0000_0000_0000_0000
            == x,
{
    let m: int = 0x1_0000_0000_0000_0000;
    let p: int = FNV_PRIME as int;
    let inv: int = 0xce96_5057_aff6_957b;
    let k: int = 887285111055;
    assert(p * inv == 1 + k * m);
    let q = x * p / m;
    lemma_fundamental_div_mod(x * p, m);
    assert(x * p == m * q + (x * p) % m);
    let lhs = ((x * p) % m) * inv;
    assert(lhs == x + m * (x * k - q * inv)) by (nonlinear_arith)
        requires
            p * inv == 1 + k * m,
            x * p == m * q + (x * p) % m,
            lhs == ((x * p) % m) * inv,
    ;
    lemma_mod_multiples_vanish(x * k - q * inv, x as int, m);
}

/// A step tells apart two words mixed into one state, and two states into which one word is
/// mixed.
pub proof fn step_is_injective(h1: u64, v1: u64, h2: u64, v2: u64)
    requires
        fnv_step(h1, v1) == fnv_step(h2, v2),
    ensures
        h1 == h2 ==> v1 == v2,
        v1 == v2 ==> h1 == h2,
{
    prime_is_invertible(h1 ^ v1);
    prime_is_invertible(h2 ^ v2);
    assert(h1 ^ v1 == h2 ^ v2);
    assert(h1 ^ v1 == h1 ^ v2 ==> v1 == v2) by (bit_vector);
    assert(h1 ^ v1 == h2 ^ v1 ==> h1 == h2) by (bit_vector);
}

/// Two lists of words that differ in exactly one place have different mixes.
pub proof fn one_change_rotates(h: u64, a: Seq<u64>, b: Seq<u64>, at: int)
    requires
        a.len() == b.len(),
        0 <= at < a.len(),
        a[at] != b[at],
        forall|i: int| 0 <= i < a.len() && i != at ==> a[i] == b[i],
    ensures
        fnv(h, a) != fnv(h, b),
    decreases a.len(),
{
    let a1 = a.drop_last();
    let b1 = b.drop_last();
    if at == a.len() - 1 {
        assert(a1 =~= b1);
        if fnv(h, a) == fnv(h, b) {
            step_is_injective(fnv(h, a1), a.last(), fnv(h, b1), b.last());
        }
    } else {
        one_change_rotates(h, a1, b1, at);
        if fnv(h, a) == fnv(h, b) {
            step_is_injective(fnv(h, a1), a.last(), fnv(h, b1), b.last());
        }
    }
}

} // verus!
