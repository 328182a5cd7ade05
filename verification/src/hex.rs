//! Lower-case hexadecimal: blob names and VM identities.
use vstd::prelude::*;

verus! {

/// The digit of a number below 16.
pub open spec fn digit(n: int) -> u8 {
    if n < 10 {
        (48 + n) as u8
    } else {
        (87 + n) as u8
    }
}

/// Two digits a byte.
pub open spec fn hex_of(b: Seq<u8>) -> Seq<u8> {
    Seq::new(
        2 * b.len(),
        |i: int|
            if i % 2 == 0 {
                digit(b[i / 2] as int / 16)
            } else {
                digit(b[i / 2] as int % 16)
            },
    )
}

/// The number that a digit stands for, in either case.
pub open spec fn digit_value(c: u8) -> Option<int> {
    if 48 <= c <= 57 {
        Some(c - 48)
    } else if 97 <= c <= 102 {
        Some(c - 87)
    } else if 65 <= c <= 70 {
        Some(c - 55)
    } else {
        None
    }
}

/// Whether a string is made of hexadecimal digits.
pub open spec fn is_hex(s: Seq<u8>) -> bool {
    forall|i: int| 0 <= i < s.len() ==> digit_value(#[trigger] s[i]) is Some
}

/// The sixteen bytes that thirty-two digits write; nothing else writes any.
pub open spec fn uuid_in(s: Seq<u8>) -> Option<Seq<u8>> {
    if s.len() == 32 && is_hex(s) {
        Some(
            Seq::new(
                16,
                |i: int| (digit_value(s[2 * i])->0 * 16 + digit_value(s[2 * i + 1])->0) as u8,
            ),
        )
    } else {
        None
    }
}

fn digit_char(n: u8) -> (c: u8)
    requires
        n < 16,
    ensures
        c == digit(n as int),
{
    if n < 10 {
        48 + n
    } else {
        87 + n
    }
}

/// The hexadecimal digits of a byte string.
pub fn hex(b: &[u8]) -> (s: Vec<u8>)
    ensures
        s@ == hex_of(b@),
{
    let mut s: Vec<u8> = Vec::new();
    let mut i: usize = 0;
    while i < b.len()
        invariant
            i <= b@.len(),
            s@.len() == 2 * i,
            forall|j: int| 0 <= j < 2 * i ==> #[trigger] s@[j] == hex_of(b@)[j],
        decreases b@.len() - i,
    {
        s.push(digit_char(b[i] / 16));
        s.push(digit_char(b[i] % 16));
        proof {
            assert(hex_of(b@)[2 * i as int] == digit(b@[i as int] as int / 16));
            assert(hex_of(b@)[2 * i + 1] == digit(b@[i as int] as int % 16)) by {
                assert((2 * i + 1) / 2 == i);
            }
        }
        i = i + 1;
    }
    proof {
        assert(s@ =~= hex_of(b@));
    }
    s
}

fn value_of(c: u8) -> (v: Option<u8>)
    ensures
        match v {
            Some(n) => n < 16 && digit_value(c) == Some(n as int),
            None => digit_value(c) is None,
        },
{
    if 48 <= c && c <= 57 {
        Some(c - 48)
    } else if 97 <= c && c <= 102 {
        Some(c - 87)
    } else if 65 <= c && c <= 70 {
        Some(c - 55)
    } else {
        None
    }
}

/// A VM identity as its thirty-two digits.
pub fn vm_uuid_hex(uuid: &[u8; 16]) -> (s: Vec<u8>)
    ensures
        s@ == hex_of(uuid@),
{
    hex(uuid.as_slice())
}

/// The VM identity that thirty-two digits write.
pub fn vm_uuid_from_hex(s: &[u8]) -> (r: Option<[u8; 16]>)
    ensures
        match r {
            Some(u) => uuid_in(s@) == Some(u@),
            None => uuid_in(s@) is None,
        },
{
    if s.len() != 32 {
        return None;
    }
    let mut out: [u8; 16] = [0; 16];
    let mut i: usize = 0;
    while i < 16
        invariant
            i <= 16,
            s@.len() == 32,
            forall|j: int| 0 <= j < 2 * i ==> digit_value(#[trigger] s@[j]) is Some,
            forall|j: int|
                0 <= j < i ==> #[trigger] out@[j] == (digit_value(s@[2 * j])->0 * 16 + digit_value(
                    s@[2 * j + 1],
                )->0) as u8,
        decreases 16 - i,
    {
        let hi: u8 = match value_of(s[2 * i]) {
            Some(v) => v,
            None => {
                return None;
            },
        };
        let lo: u8 = match value_of(s[2 * i + 1]) {
            Some(v) => v,
            None => {
                return None;
            },
        };
        out[i] = hi * 16 + lo;
        i = i + 1;
    }
    proof {
        assert(is_hex(s@));
        assert(out@ =~= uuid_in(s@)->0);
    }
    Some(out)
}

/// An identity written in digits reads back as the identity.
pub proof fn uuid_round_trip(u: Seq<u8>)
    requires
        u.len() == 16,
    ensures
        uuid_in(hex_of(u)) == Some(u),
{
    let s = hex_of(u);
    assert forall|i: int| 0 <= i < s.len() implies digit_value(#[trigger] s[i]) is Some by {}
    assert forall|i: int| 0 <= i < 16 implies (digit_value(s[2 * i])->0 * 16 + digit_value(
        s[2 * i + 1],
    )->0) as u8 == u[i] by {
        assert((2 * i) / 2 == i);
        assert((2 * i + 1) / 2 == i);
    }
    assert(uuid_in(s)->0 =~= u);
}

} // verus!
