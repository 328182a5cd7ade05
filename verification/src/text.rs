//! Decimal numbers as bytes.
use vstd::prelude::*;

verus! {

/// The decimal digits of `n`, most significant first.
pub open spec fn dec_digits(n: nat) -> Seq<u8>
    decreases n,
{
    if n < 10 {
        seq![(48 + n) as u8]
    } else {
        dec_digits(n / 10).push((48 + n % 10) as u8)
    }
}

/// The value of a string of digits, read as decimal.
pub open spec fn dec_value(s: Seq<u8>) -> nat
    decreases s.len(),
{
    if s.len() == 0 {
        0
    } else {
        dec_value(s.drop_last()) * 10 + (s.last() - 48) as nat
    }
}

pub open spec fn is_digit(b: u8) -> bool {
    48 <= b <= 57
}

pub open spec fn all_digits(s: Seq<u8>) -> bool {
    forall|i: int| 0 <= i < s.len() ==> is_digit(#[trigger] s[i])
}

/// A string without its leading plus sign, if it has one.
pub open spec fn without_plus(s: Seq<u8>) -> Seq<u8> {
    if s.len() > 0 && s[0] == 43 {
        s.skip(1)
    } else {
        s
    }
}

/// The number that a string writes in decimal, with an optional plus sign, if it is at most
/// `max`.
pub open spec fn number_in(s: Seq<u8>, max: nat) -> Option<nat> {
    let t = without_plus(s);
    if t.len() > 0 && all_digits(t) && dec_value(t) <= max {
        Some(dec_value(t))
    } else {
        None
    }
}

/// The decimal digits of a number.
pub fn decimal(v: u64) -> (s: Vec<u8>)
    ensures
        s@ == dec_digits(v as nat),
    decreases v,
{
    if v < 10 {
        let mut s: Vec<u8> = Vec::new();
        s.push(48 + v as u8);
        proof {
            assert(s@ =~= dec_digits(v as nat));
        }
        s
    } else {
        let mut s = decimal(v / 10);
        s.push(48 + (v % 10) as u8);
        s
    }
}

proof fn dec_value_grows(s: Seq<u8>, i: int)
    requires
        0 <= i <= s.len(),
    ensures
        dec_value(s.take(i)) <= dec_value(s),
    decreases s.len() - i,
{
    if i < s.len() {
        dec_value_grows(s, i + 1);
        assert(s.take(i + 1).drop_last() =~= s.take(i));
    } else {
        assert(s.take(i) =~= s);
    }
}

/// Parse a decimal number of at most `max`.
pub fn parse_number(s: &[u8], max: u64) -> (r: Option<u64>)
    ensures
        match r {
            Some(v) => number_in(s@, max as nat) == Some(v as nat),
            None => number_in(s@, max as nat) is None,
        },
{
    let start: usize = if s.len() > 0 && s[0] == 43 {
        1
    } else {
        0
    };
    let ghost t = without_plus(s@);
    proof {
        assert(s@.skip(0) =~= s@);
    }
    if start == s.len() {
        return None;
    }
    let mut v: u64 = 0;
    let mut i: usize = start;
    while i < s.len()
        invariant
            start <= i <= s.len(),
            t == without_plus(s@),
            t == s@.skip(start as int),
            t.len() > 0,
            v == dec_value(t.take(i - start)),
            v <= max,
            forall|j: int| 0 <= j < i - start ==> is_digit(#[trigger] t[j]),
        decreases s.len() - i,
    {
        let b: u8 = s[i];
        proof {
            assert(t[i - start] == b);
        }
        if b < 48 || b > 57 {
            return None;
        }
        let next: u128 = v as u128 * 10 + (b - 48) as u128;
        proof {
            let k = i - start;
            assert(t.take(k + 1).drop_last() =~= t.take(k));
            assert(next == dec_value(t.take(k + 1)));
            dec_value_grows(t, k + 1);
        }
        if next > max as u128 {
            return None;
        }
        v = next as u64;
        i = i + 1;
    }
    proof {
        assert(t.take(i - start) =~= t);
    }
    Some(v)
}

/// A number's decimal digits parse back to the number.
pub proof fn decimal_round_trip(n: nat, max: nat)
    requires
        n <= max,
    ensures
        number_in(dec_digits(n), max) == Some(n),
{
    digits_are_digits(n);
}

proof fn digits_are_digits(n: nat)
    ensures
        dec_digits(n).len() > 0,
        all_digits(dec_digits(n)),
        dec_value(dec_digits(n)) == n,
    decreases n,
{
    let d = dec_digits(n);
    if n < 10 {
        assert(d.drop_last() =~= Seq::<u8>::empty());
        assert(dec_value(d.drop_last()) == 0);
    } else {
        digits_are_digits(n / 10);
        assert(d.drop_last() =~= dec_digits(n / 10));
    }
}

/// The decimal digits of `n` as characters.
pub open spec fn dec_chars(n: nat) -> Seq<char> {
    dec_digits(n).map_values(|b: u8| b as char)
}

/// A number in decimal.
pub fn decimal_text(v: u64) -> (s: String)
    ensures
        s@ == dec_chars(v as nat),
{
    let d = decimal(v);
    let mut s = String::new();
    let mut i: usize = 0;
    proof {
        assert(s@ =~= dec_chars(v as nat).take(0));
    }
    while i < d.len()
        invariant
            d@ == dec_digits(v as nat),
            i <= d@.len(),
            s@ == dec_chars(v as nat).take(i as int),
        decreases d@.len() - i,
    {
        s.push(d[i] as char);
        proof {
            let c = dec_chars(v as nat);
            assert(c.take(i + 1) =~= c.take(i as int).push(c[i as int]));
        }
        i = i + 1;
    }
    proof {
        assert(dec_chars(v as nat).take(i as int) =~= dec_chars(v as nat));
    }
    s
}

} // verus!
