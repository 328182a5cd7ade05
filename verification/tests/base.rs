use mist::base64::{b64, b64decode};
use mist::bytes::{le_u64, order, put_le, Order};
use mist::chars::{chars_of, lines_of, split_on, string_of, trim, words_of};
use mist::fnv::{mix, FNV_BASIS};
use mist::hex::{hex, vm_uuid_from_hex, vm_uuid_hex};
use mist::sort::sort_order;
use mist::table::KeyTable;
use mist::text::{decimal, decimal_text, parse_number};

fn s(v: &[char]) -> String {
    v.iter().collect()
}

#[test]
fn b64decode_known_vector() {
    assert_eq!(b64decode("TWlzdA==").unwrap(), b"Mist");
}

#[test]
fn base64_round_trips() {
    assert_eq!(b64(b"Mist"), "TWlzdA==");
    assert_eq!(b64(b""), "");
    assert_eq!(b64(&[0xff, 0xfe, 0xfd]), "//79");
    for n in 0..40usize {
        let data: Vec<u8> = (0..n).map(|i| (i * 37 + 11) as u8).collect();
        assert_eq!(b64decode(&b64(&data)).unwrap(), data);
    }
}

#[test]
fn base64_refuses_other_bytes() {
    assert_eq!(b64decode("TW*z"), Err(b'*'));
    assert_eq!(b64decode("T=Wz"), Err(b'='));
    assert_eq!(b64decode("é"), Err(0xC3));
    assert_eq!(b64decode("A").unwrap(), b"");
}

#[test]
fn text_is_taken_apart() {
    let v = chars_of("  a\u{a0}b  ");
    assert_eq!(s(&trim(&v)), "a\u{a0}b");
    let v = chars_of("one\r\ntwo\n\nfour\n");
    let l: Vec<String> = lines_of(&v).iter().map(|x| s(x)).collect();
    assert_eq!(l, vec!["one", "two", "", "four"]);
    let v = chars_of("one\r\ntwo\r");
    let l: Vec<String> = lines_of(&v).iter().map(|x| s(x)).collect();
    assert_eq!(l, vec!["one", "two\r"]);
    let v = chars_of(" a  b\tc ");
    let w: Vec<String> = words_of(&v).iter().map(|x| s(x)).collect();
    assert_eq!(w, vec!["a", "b", "c"]);
    let v = chars_of("1..2");
    let p: Vec<String> = split_on(&v, '.').iter().map(|x| s(x)).collect();
    assert_eq!(p, vec!["1", "", "2"]);
    assert_eq!(string_of(&['é', 'x']), "éx");
}

#[test]
fn numbers_in_decimal() {
    assert_eq!(decimal(0), b"0");
    assert_eq!(decimal(18446744073709551615), b"18446744073709551615");
    assert_eq!(decimal_text(1050), "1050");
    assert_eq!(parse_number(b"255", 255), Some(255));
    assert_eq!(parse_number(b"+7", 255), Some(7));
    assert_eq!(parse_number(b"256", 255), None);
    assert_eq!(parse_number(b"", 255), None);
    assert_eq!(parse_number(b"1x", 255), None);
}

#[test]
fn identities_in_hex() {
    assert_eq!(hex(&[0x4f, 0x02]), b"4f02");
    let u = [0x4fu8, 0x2b, 0x0b, 0x30, 0xa9, 0xd8, 0x4f, 0x8a, 0xb5, 0xc4, 0x01, 0x22, 0xc7, 0xbe, 0x1c, 0x13];
    let h = vm_uuid_hex(&u);
    assert_eq!(h, b"4f2b0b30a9d84f8ab5c40122c7be1c13");
    assert_eq!(vm_uuid_from_hex(&h), Some(u));
    assert_eq!(vm_uuid_from_hex(b"4F2B0B30A9D84F8AB5C40122C7BE1C13"), Some(u));
    assert_eq!(vm_uuid_from_hex(b"4f"), None);
    assert_eq!(vm_uuid_from_hex(b"zf2b0b30a9d84f8ab5c40122c7be1c13"), None);
}

#[test]
fn little_endian_numbers() {
    let mut out = vec![9];
    put_le(&mut out, 0x0102, 4);
    assert_eq!(out, vec![9, 2, 1, 0, 0]);
    assert_eq!(le_u64(&[1, 0, 0, 0, 0, 0, 0, 0x80]), 0x8000_0000_0000_0001);
}

#[test]
fn byte_strings_are_ordered() {
    assert!(matches!(order(b"a", b"b"), Order::First));
    assert!(matches!(order(b"b", b"a"), Order::Second));
    assert!(matches!(order(b"a", b"a"), Order::Same));
    assert!(matches!(order(b"a", b"ab"), Order::First));
    assert!(matches!(order(b"", b""), Order::Same));
}

#[test]
fn fnv_of_one_word() {
    assert_eq!(mix(FNV_BASIS, 0), 0xcbf29ce484222325u64.wrapping_mul(0x100000001b3));
    assert_eq!(mix(0, 1), 0x100000001b3);
}

#[test]
fn sort_is_stable() {
    assert_eq!(sort_order(&vec![3, 1, 3, 2, 1]), vec![1, 4, 3, 0, 2]);
    assert_eq!(sort_order(&Vec::new()), Vec::<usize>::new());
}

#[test]
fn table_keeps_one_row_a_key() {
    let mut t: KeyTable<u64, u32> = KeyTable::new();
    assert_eq!(t.insert(1, 10), None);
    assert_eq!(t.insert(2, 20), None);
    assert_eq!(t.insert(1, 11), Some(10));
    assert_eq!(t.len(), 2);
    assert_eq!(t.get(&1), Some(&11));
    assert_eq!(t.remove(&1), Some(11));
    assert_eq!(t.remove(&1), None);
    assert!(!t.contains(&1));
    assert!(t.contains(&2));
}
