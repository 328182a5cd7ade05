//! Base64, by which file contents travel in text.
use vstd::prelude::*;
use vstd::utf8::{encode_utf8, is_ascii_chars, is_ascii_chars_encode_utf8};

verus! {

/// The character of a number below 64.
pub open spec fn digit(n: int) -> u8 {
    if n < 26 {
        (65 + n) as u8
    } else if n < 52 {
        (71 + n) as u8
    } else if n < 62 {
        (n - 4) as u8
    } else if n == 62 {
        43
    } else {
        47
    }
}

/// The number of a character.
pub open spec fn value(c: u8) -> Option<int> {
    if 65 <= c <= 90 {
        Some(c - 65)
    } else if 97 <= c <= 122 {
        Some(c - 71)
    } else if 48 <= c <= 57 {
        Some(c + 4)
    } else if c == 43 {
        Some(62)
    } else if c == 47 {
        Some(63)
    } else {
        None
    }
}

/// The characters of some bytes: four for every three, fewer for what is left.
pub open spec fn digits(data: Seq<u8>) -> Seq<u8>
    decreases data.len(),
{
    if data.len() == 0 {
        seq![]
    } else if data.len() == 1 {
        seq![digit(data[0] as int / 4), digit(data[0] as int % 4 * 16)]
    } else if data.len() == 2 {
        seq![
            digit(data[0] as int / 4),
            digit(data[0] as int % 4 * 16 + data[1] as int / 16),
            digit(data[1] as int % 16 * 4),
        ]
    } else {
        seq![
            digit(data[0] as int / 4),
            digit(data[0] as int % 4 * 16 + data[1] as int / 16),
            digit(data[1] as int % 16 * 4 + data[2] as int / 64),
            digit(data[2] as int % 64),
        ] + digits(data.skip(3))
    }
}

/// What fills the last group up to four characters.
pub open spec fn padding(n: nat) -> Seq<u8> {
    if n % 3 == 1 {
        seq![61, 61]
    } else if n % 3 == 2 {
        seq![61]
    } else {
        seq![]
    }
}

pub open spec fn b64_bytes(data: Seq<u8>) -> Seq<u8> {
    digits(data) + padding(data.len())
}

/// Some bytes in base64.
pub open spec fn b64_of(data: Seq<u8>) -> Seq<char> {
    b64_bytes(data).map_values(|b: u8| b as char)
}

fn put(s: &mut String, n: u8, Ghost(bytes): Ghost<Seq<u8>>)
    requires
        n < 64,
        old(s)@ == bytes.map_values(|b: u8| b as char),
    ensures
        final(s)@ == bytes.push(digit(n as int)).map_values(|b: u8| b as char),
{
    let c: u8 = if n < 26 {
        65 + n
    } else if n < 52 {
        71 + n
    } else if n < 62 {
        n - 4
    } else if n == 62 {
        43
    } else {
        47
    };
    s.push(c as char);
    proof {
        assert(s@ =~= bytes.push(digit(n as int)).map_values(|b: u8| b as char));
    }
}

/// Some bytes in base64.
pub fn b64(data: &[u8]) -> (s: String)
    ensures
        s@ == b64_of(data@),
{
    let mut s = String::new();
    let ghost mut done: Seq<u8> = seq![];
    let mut i: usize = 0;
    proof {
        assert(s@ =~= done.map_values(|b: u8| b as char));
        assert(data@.skip(0) =~= data@);
        assert(done + b64_bytes(data@) =~= b64_bytes(data@));
    }
    while i < data.len()
        invariant
            i <= data@.len(),
            s@ == done.map_values(|b: u8| b as char),
            i < data@.len() || done == b64_bytes(data@),
            i < data@.len() ==> done + b64_bytes(data@.skip(i as int)) == b64_bytes(data@),
        decreases data@.len() - i,
    {
        let ghost rest = data@.skip(i as int);
        let ghost start = done;
        let left: usize = data.len() - i;
        let a: u8 = data[i];
        proof {
            assert(rest[0] == a);
        }
        put(&mut s, a / 4, Ghost(done));
        proof {
            done = done.push(digit(a as int / 4));
        }
        if left == 1 {
            put(&mut s, a % 4 * 16, Ghost(done));
            proof {
                done = done.push(digit(a as int % 4 * 16));
            }
            s.push('=');
            s.push('=');
            proof {
                done = done.push(61).push(61);
                assert(s@ =~= done.map_values(|b: u8| b as char));
                assert(done =~= start + b64_bytes(rest));
            }
            i = i + 1;
        } else if left == 2 {
            let b: u8 = data[i + 1];
            proof {
                assert(rest[1] == b);
            }
            put(&mut s, a % 4 * 16 + b / 16, Ghost(done));
            proof {
                done = done.push(digit(a as int % 4 * 16 + b as int / 16));
            }
            put(&mut s, b % 16 * 4, Ghost(done));
            proof {
                done = done.push(digit(b as int % 16 * 4));
            }
            s.push('=');
            proof {
                done = done.push(61);
                assert(s@ =~= done.map_values(|b: u8| b as char));
                assert(done =~= start + b64_bytes(rest));
            }
            i = i + 2;
        } else {
            let b: u8 = data[i + 1];
            let c: u8 = data[i + 2];
            proof {
                assert(rest[1] == b);
                assert(rest[2] == c);
            }
            put(&mut s, a % 4 * 16 + b / 16, Ghost(done));
            proof {
                done = done.push(digit(a as int % 4 * 16 + b as int / 16));
            }
            put(&mut s, b % 16 * 4 + c / 64, Ghost(done));
            proof {
                done = done.push(digit(b as int % 16 * 4 + c as int / 64));
            }
            put(&mut s, c % 64, Ghost(done));
            proof {
                done = done.push(digit(c as int % 64));
                assert(rest.skip(3) =~= data@.skip(i + 3));
                assert(b64_bytes(rest) =~= seq![
                    digit(a as int / 4),
                    digit(a as int % 4 * 16 + b as int / 16),
                    digit(b as int % 16 * 4 + c as int / 64),
                    digit(c as int % 64),
                ] + b64_bytes(rest.skip(3)));
                assert(done + b64_bytes(data@.skip(i + 3)) =~= start + b64_bytes(rest));
                if rest.len() == 3 {
                    assert(b64_bytes(rest.skip(3)) =~= seq![]);
                    assert(done =~= start + b64_bytes(rest));
                }
            }
            i = i + 3;
        }
    }
    s
}

/// Text without the padding at its end.
pub open spec fn unpadded(s: Seq<u8>) -> Seq<u8>
    decreases s.len(),
{
    if s.len() > 0 && s.last() == 61 {
        unpadded(s.drop_last())
    } else {
        s
    }
}

/// The first byte that is no base64 character.
pub open spec fn first_bad(s: Seq<u8>) -> Option<u8>
    decreases s.len(),
{
    if s.len() == 0 {
        None
    } else if value(s[0]) is None {
        Some(s[0])
    } else {
        first_bad(s.skip(1))
    }
}

pub open spec fn val(s: Seq<u8>, i: int) -> int {
    value(s[i])->0
}

/// The bytes that characters stand for: three for every four, one fewer than what is left.
pub open spec fn bytes_of(s: Seq<u8>) -> Seq<u8>
    decreases s.len(),
{
    if s.len() <= 1 {
        seq![]
    } else if s.len() == 2 {
        seq![(val(s, 0) * 4 + val(s, 1) / 16) as u8]
    } else if s.len() == 3 {
        seq![
            (val(s, 0) * 4 + val(s, 1) / 16) as u8,
            (val(s, 1) % 16 * 16 + val(s, 2) / 4) as u8,
        ]
    } else {
        seq![
            (val(s, 0) * 4 + val(s, 1) / 16) as u8,
            (val(s, 1) % 16 * 16 + val(s, 2) / 4) as u8,
            (val(s, 2) % 4 * 64 + val(s, 3)) as u8,
        ] + bytes_of(s.skip(4))
    }
}

/// The bytes that a base64 text stands for, or the first byte that does not belong.
pub open spec fn decode_of(s: Seq<u8>) -> Result<Seq<u8>, u8> {
    let t = unpadded(s);
    match first_bad(t) {
        Some(c) => Err(c),
        None => Ok(bytes_of(t)),
    }
}

fn number(c: u8) -> (v: Option<u8>)
    ensures
        match v {
            Some(n) => value(c) == Some(n as int) && n < 64,
            None => value(c) is None,
        },
{
    if 65 <= c && c <= 90 {
        Some(c - 65)
    } else if 97 <= c && c <= 122 {
        Some(c - 71)
    } else if 48 <= c && c <= 57 {
        Some(c + 4)
    } else if c == 43 {
        Some(62)
    } else if c == 47 {
        Some(63)
    } else {
        None
    }
}

proof fn no_bad_before(s: Seq<u8>, n: int)
    requires
        0 <= n <= s.len(),
        forall|i: int| 0 <= i < n ==> value(#[trigger] s[i]) is Some,
    ensures
        n < s.len() && value(s[n]) is None ==> first_bad(s) == Some(s[n]),
        n == s.len() ==> first_bad(s) is None,
    decreases n,
{
    if n > 0 {
        let t = s.skip(1);
        assert forall|i: int| 0 <= i < n - 1 implies value(#[trigger] t[i]) is Some by {
            assert(t[i] == s[i + 1]);
        }
        assert(value(s[0]) is Some);
        no_bad_before(t, n - 1);
        if n < s.len() {
            assert(t[n - 1] == s[n]);
        }
    }
}

/// The bytes that a base64 text stands for, or the first byte that does not belong.
pub fn b64decode(s: &str) -> (r: Result<Vec<u8>, u8>)
    ensures
        match r {
            Ok(v) => decode_of(encode_utf8(s@)) == Ok::<_, u8>(v@),
            Err(c) => decode_of(encode_utf8(s@)) == Err::<Seq<u8>, _>(c),
        },
{
    let b = s.as_bytes();
    let mut n: usize = b.len();
    proof {
        assert(b@.take(n as int) =~= b@);
    }
    while n > 0 && b[n - 1] == 61
        invariant
            n <= b@.len(),
            unpadded(b@) == unpadded(b@.take(n as int)),
        decreases n,
    {
        proof {
            assert(b@.take(n as int).drop_last() =~= b@.take(n - 1));
        }
        n = n - 1;
    }
    let ghost t = b@.take(n as int);
    let mut vals: Vec<u8> = Vec::new();
    let mut i: usize = 0;
    while i < n
        invariant
            i <= n <= b@.len(),
            t == b@.take(n as int),
            t == unpadded(b@),
            b@ == encode_utf8(s@),
            vals@.len() == i,
            forall|j: int|
                0 <= j < i ==> value(#[trigger] t[j]) == Some(vals@[j] as int) && vals@[j] < 64,
        decreases n - i,
    {
        let c: u8 = b[i];
        proof {
            assert(t[i as int] == c);
        }
        match number(c) {
            Some(v) => {
                vals.push(v);
            },
            None => {
                proof {
                    no_bad_before(t, i as int);
                }
                return Err(c);
            },
        }
        i = i + 1;
    }
    proof {
        no_bad_before(t, n as int);
    }
    let mut out: Vec<u8> = Vec::new();
    let mut k: usize = 0;
    proof {
        assert(t.skip(0) =~= t);
        assert(out@ + bytes_of(t) =~= bytes_of(t));
    }
    while k < n
        invariant
            k <= n,
            n == t.len(),
            vals@.len() == n,
            forall|j: int|
                0 <= j < n ==> value(#[trigger] t[j]) == Some(vals@[j] as int) && vals@[j] < 64,
            out@ + bytes_of(t.skip(k as int)) == bytes_of(t),
        decreases n - k,
    {
        let ghost rest = t.skip(k as int);
        let ghost before = out@;
        let left: usize = n - k;
        proof {
            assert(rest[0] == t[k as int]);
            if left > 1 {
                assert(rest[1] == t[k + 1]);
            }
            if left > 2 {
                assert(rest[2] == t[k + 2]);
            }
            if left > 3 {
                assert(rest[3] == t[k + 3]);
            }
        }
        if left > 1 {
            out.push(vals[k] * 4 + vals[k + 1] / 16);
        }
        if left > 2 {
            out.push(vals[k + 1] % 16 * 16 + vals[k + 2] / 4);
        }
        if left > 3 {
            out.push(vals[k + 2] % 4 * 64 + vals[k + 3]);
        }
        let step: usize = if left > 4 {
            4
        } else {
            left
        };
        proof {
            if left >= 4 {
                assert(rest.skip(4) =~= t.skip(k + 4));
            } else {
                assert(t.skip(n as int) =~= Seq::<u8>::empty());
            }
            assert(out@ + bytes_of(t.skip(k + step)) =~= before + bytes_of(rest));
        }
        k = k + step;
    }
    proof {
        assert(t.skip(k as int) =~= Seq::<u8>::empty());
        assert(out@ =~= bytes_of(t));
    }
    Ok(out)
}

proof fn digit_value(n: int)
    requires
        0 <= n < 64,
    ensures
        value(digit(n)) == Some(n),
        digit(n) != 61,
        digit(n) < 128,
{
}

proof fn digits_decode(data: Seq<u8>)
    ensures
        bytes_of(digits(data)) == data,
        first_bad(digits(data)) is None,
        digits(data).len() > 0 ==> digits(data).last() != 61,
        forall|i: int| 0 <= i < digits(data).len() ==> (#[trigger] digits(data)[i]) < 128,
    decreases data.len(),
{
    let d = digits(data);
    if data.len() == 0 {
        assert(bytes_of(d) =~= data);
    } else {
        let a = data[0] as int;
        digit_value(a / 4);
        if data.len() == 1 {
            digit_value(a % 4 * 16);
            assert(bytes_of(d) =~= data);
            assert forall|i: int| 0 <= i < d.len() implies value(#[trigger] d[i]) is Some by {}
            no_bad_before(d, d.len() as int);
        } else {
            let b = data[1] as int;
            digit_value(a % 4 * 16 + b / 16);
            if data.len() == 2 {
                digit_value(b % 16 * 4);
                assert(bytes_of(d) =~= data);
                assert forall|i: int| 0 <= i < d.len() implies value(#[trigger] d[i]) is Some by {}
                no_bad_before(d, d.len() as int);
            } else {
                let c = data[2] as int;
                digit_value(b % 16 * 4 + c / 64);
                digit_value(c % 64);
                let rest = digits(data.skip(3));
                digits_decode(data.skip(3));
                assert(d.skip(4) =~= rest);
                assert(bytes_of(d) =~= data);
                good_all(rest);
                assert forall|i: int| 0 <= i < d.len() implies value(#[trigger] d[i]) is Some by {
                    if i >= 4 {
                        assert(d[i] == rest[i - 4]);
                    }
                }
                no_bad_before(d, d.len() as int);
                if rest.len() > 0 {
                    assert(d.last() == rest.last());
                } else {
                    assert(d.last() == d[3]);
                }
                assert forall|i: int| 0 <= i < d.len() implies (#[trigger] d[i]) < 128 by {
                    if i >= 4 {
                        assert(d[i] == rest[i - 4]);
                    }
                }
            }
        }
    }
}

proof fn good_all(s: Seq<u8>)
    requires
        first_bad(s) is None,
    ensures
        forall|i: int| 0 <= i < s.len() ==> value(#[trigger] s[i]) is Some,
    decreases s.len(),
{
    if s.len() > 0 {
        good_all(s.skip(1));
        assert forall|i: int| 0 <= i < s.len() implies value(#[trigger] s[i]) is Some by {
            if i > 0 {
                assert(s[i] == s.skip(1)[i - 1]);
            }
        }
    }
}

/// What was put into base64 comes back out of it.
pub proof fn b64_round_trip(data: Seq<u8>)
    ensures
        decode_of(encode_utf8(b64_of(data))) == Ok::<_, u8>(data),
{
    let s = b64_bytes(data);
    let d = digits(data);
    digits_decode(data);
    let p = padding(data.len());
    assert forall|i: int| 0 <= i < s.len() implies (#[trigger] s[i]) < 128 by {
        if i < d.len() {
            assert(s[i] == d[i]);
        }
    }
    let c = b64_of(data);
    assert(is_ascii_chars(c));
    is_ascii_chars_encode_utf8(c);
    assert(encode_utf8(c) =~= s) by {
        assert forall|i: int| 0 <= i < s.len() implies c[i] as u8 == #[trigger] s[i] by {}
    }
    assert(unpadded(s) == d) by {
        reveal_with_fuel(unpadded, 4);
        if p.len() == 2 {
            assert(s.drop_last().drop_last() =~= d);
        } else if p.len() == 1 {
            assert(s.drop_last() =~= d);
        } else {
            assert(s =~= d);
        }
    }
}

} // verus!
