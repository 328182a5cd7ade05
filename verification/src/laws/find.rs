//! What is found in the outputs of tools and files, and what is written into the configuration.
use crate::chars::{first_at, lines, split, trimmed, views, words, words_of};
use crate::config::VmConfig;
use crate::config_writer::{
    can_quote, toml_of, upsert_vm, upsert_vm_no_uuid, uuid_string, TomlValue, UpsertError,
    VmBinding,
};
use crate::hex::vm_uuid_hex;
use crate::resolve::mdns::{
    find_sub, instances_in, last_at, parse_dns_sd_browse, parse_dns_sd_resolve, without_dots,
    MdnsInstance,
};
use crate::resolve::net::{ascii_of, is_vmnet_bridge_name, octet_in, parse_addr, Ipv4Addr};
use crate::resolve::scan::{
    arp_addr, arp_addrs, lease_line, lease_scan, parse_arp, parse_dhcpd_leases, Lease,
};
use crate::session::link::texts;
use crate::text::{dec_chars, dec_digits};
use vstd::prelude::*;

verus! {

proof fn octet_is_written(n: u8)
    ensures
        octet_in(dec_chars(n as nat)) == Some(n as nat),
        forall|i: int| 0 <= i < dec_chars(n as nat).len() ==> dec_chars(n as nat)[i] != '.',
{
    let v = n as nat;
    let d = dec_digits(v);
    reveal_with_fuel(dec_digits, 3);
    crate::text::decimal_round_trip(v, 255);
    let a = ascii_of(dec_chars(v));
    assert forall|i: int| 0 <= i < d.len() implies 48 <= #[trigger] d[i] <= 57 by {}
    assert(a =~= d) by {
        assert forall|i: int| 0 <= i < d.len() implies a[i] == d[i] by {
            let c = d[i] as char;
            assert(c <= '\u{7f}');
        }
    }
    assert(1 <= d.len() <= 3);
    assert(d.len() > 1 ==> d[0] != 48);
    assert(d[0] != 43);
    assert(crate::text::without_plus(d) == d);
}

/// A text is split at a mark: what comes before it has none.
proof fn split_before(a: Seq<char>, c: char, b: Seq<char>)
    requires
        forall|i: int| 0 <= i < a.len() ==> a[i] != c,
    ensures
        split(a + seq![c] + b, c) == seq![a] + split(b, c),
    decreases a.len(),
{
    let s = a + seq![c] + b;
    if a.len() == 0 {
        assert(s.skip(1) =~= b);
        assert(a =~= Seq::<char>::empty());
        assert(split(s, c) =~= seq![a] + split(b, c));
    } else {
        let t = a.skip(1);
        assert forall|i: int| 0 <= i < t.len() implies t[i] != c by {
            assert(a[i + 1] == t[i]);
        }
        assert(s.skip(1) =~= t + seq![c] + b);
        split_before(t, c, b);
        assert(seq![a[0]] + t =~= a);
        assert(split(s.skip(1), c)[0] == t);
        assert(split(s, c) =~= seq![a] + split(b, c));
    }
}

proof fn split_nowhere(s: Seq<char>, c: char)
    requires
        forall|i: int| 0 <= i < s.len() ==> s[i] != c,
    ensures
        split(s, c) == seq![s],
    decreases s.len(),
{
    if s.len() == 0 {
        assert(s =~= Seq::<char>::empty());
        assert(split(s, c) =~= seq![s]);
    } else {
        let t = s.skip(1);
        assert forall|i: int| 0 <= i < t.len() implies t[i] != c by {
            assert(s[i + 1] == t[i]);
        }
        split_nowhere(t, c);
        assert(seq![s[0]] + t =~= s);
        assert(split(s, c) =~= seq![s]);
    }
}

/// An address is read from its four numbers in decimal with points between them.
pub proof fn addresses_are_read(v: &[char], r: Option<Ipv4Addr>, a: u8, b: u8, c: u8, d: u8)
    requires
        call_ensures(parse_addr, (v,), r),
        v@ == dec_chars(a as nat) + seq!['.'] + (dec_chars(b as nat) + seq!['.'] + (dec_chars(
            c as nat,
        ) + seq!['.'] + dec_chars(d as nat))),
    ensures
        r is Some,
        r->0.bits == a * 0x100_0000 + b * 0x1_0000 + c * 0x100 + d,
{
    octet_is_written(a);
    octet_is_written(b);
    octet_is_written(c);
    octet_is_written(d);
    let s3 = dec_chars(c as nat) + seq!['.'] + dec_chars(d as nat);
    let s2 = dec_chars(b as nat) + seq!['.'] + s3;
    split_before(dec_chars(a as nat), '.', s2);
    split_before(dec_chars(b as nat), '.', s3);
    split_before(dec_chars(c as nat), '.', dec_chars(d as nat));
    split_nowhere(dec_chars(d as nat), '.');
    let p = split(v@, '.');
    assert(p.len() == 4);
    assert(p[0] == dec_chars(a as nat) && p[1] == dec_chars(b as nat) && p[2] == dec_chars(
        c as nat,
    ) && p[3] == dec_chars(d as nat));
}

/// The bridges of VMs are named `bridge` and three digits, the first of them 1.
pub proof fn bridges_have_names(name: &str, r: bool, x: char, y: char)
    requires
        call_ensures(is_vmnet_bridge_name, (name,), r),
    ensures
        name@ == "bridge"@ + seq!['1', x, y] && '0' <= x <= '9' && '0' <= y <= '9' ==> r,
        r ==> name@.len() == "bridge"@.len() + 3 && name@.take("bridge"@.len() as int)
            == "bridge"@,
{
    let p = "bridge"@;
    if name@ == p + seq!['1', x, y] {
        assert(name@.take(p.len() as int) =~= p);
        assert(name@.skip(p.len() as int) =~= seq!['1', x, y]);
    }
}

/// A line of the ARP table: the address stands in the first brackets.
pub open spec fn arp_line(line: Seq<char>, before: Seq<char>, inner: Seq<char>, after: Seq<char>) -> bool {
    &&& line == before + seq!['('] + (inner + seq![')'] + after)
    &&& forall|i: int| 0 <= i < before.len() ==> before[i] != '('
    &&& forall|i: int| 0 <= i < inner.len() ==> inner[i] != ')'
}

proof fn mark_is_first(a: Seq<char>, c: char, b: Seq<char>)
    requires
        forall|i: int| 0 <= i < a.len() ==> a[i] != c,
    ensures
        first_at(a + seq![c] + b, c) == Some(a.len() as int),
    decreases a.len(),
{
    let s = a + seq![c] + b;
    if a.len() > 0 {
        let t = a.skip(1);
        assert forall|i: int| 0 <= i < t.len() implies t[i] != c by {
            assert(a[i + 1] == t[i]);
        }
        assert(s.skip(1) =~= t + seq![c] + b);
        mark_is_first(t, c, b);
        assert(s[0] == a[0]);
    } else {
        assert(s[0] == c);
    }
}

proof fn arp_gathers(rows: Seq<Seq<char>>)
    ensures
        arp_addrs(rows).no_duplicates(),
        forall|k: int|
            0 <= k < rows.len() && arp_addr(#[trigger] rows[k]) is Some ==> arp_addrs(
                rows,
            ).contains(arp_addr(rows[k])->0),
        forall|ip: Ipv4Addr| #[trigger]
            arp_addrs(rows).contains(ip) ==> exists|k: int|
                0 <= k < rows.len() && arp_addr(#[trigger] rows[k]) == Some(ip),
    decreases rows.len(),
{
    if rows.len() > 0 {
        let p = rows.drop_last();
        let n = rows.len() - 1;
        arp_gathers(p);
        let b = arp_addrs(p);
        let a = arp_addrs(rows);
        let last = arp_addr(rows.last());
        assert forall|k: int| 0 <= k < rows.len() && arp_addr(
            #[trigger] rows[k],
        ) is Some implies a.contains(arp_addr(rows[k])->0) by {
            let ip = arp_addr(rows[k])->0;
            if k < n {
                assert(p[k] == rows[k]);
                assert(b.contains(ip));
                let q = choose|q: int| 0 <= q < b.len() && b[q] == ip;
                assert(a[q] == ip);
            } else if !b.contains(ip) {
                assert(a[a.len() - 1] == ip);
            }
        }
        assert forall|ip: Ipv4Addr| #[trigger] a.contains(ip) implies exists|k: int|
            0 <= k < rows.len() && arp_addr(#[trigger] rows[k]) == Some(ip) by {
            if b.contains(ip) {
                let k = choose|k: int| 0 <= k < p.len() && arp_addr(#[trigger] p[k]) == Some(ip);
                assert(rows[k] == p[k]);
            } else {
                let q = choose|q: int| 0 <= q < a.len() && a[q] == ip;
                if q < b.len() {
                    assert(b[q] == ip);
                }
                assert(arp_addr(rows[n]) == Some(ip));
            }
        }
    }
}

/// The addresses in the brackets of the lines are found, each once, and nothing else.
pub proof fn arp_addresses_are_found(
    text: &str,
    list: Vec<Ipv4Addr>,
    k: int,
    before: Seq<char>,
    inner: &[char],
    after: Seq<char>,
    ip: Ipv4Addr,
)
    requires
        call_ensures(parse_arp, (text,), list),
        0 <= k < lines(text@).len(),
        arp_line(lines(text@)[k], before, inner@, after),
        call_ensures(parse_addr, (inner,), Some(ip)),
    ensures
        list@.contains(ip),
        list@.no_duplicates(),
{
    let rows = lines(text@);
    arp_gathers(rows);
    let rest = inner@ + seq![')'] + after;
    mark_is_first(before, '(', rest);
    mark_is_first(inner@, ')', after);
    let line = rows[k];
    assert(line.skip(before.len() as int + 1) =~= rest);
    assert(rest.take(inner@.len() as int) =~= inner@);
    assert(arp_addr(line) == Some(ip));
}

/// A block with a name and an address at the end of a lease file is one lease more.
pub proof fn leases_are_blocks(
    text: &str,
    list: Vec<Lease>,
    more: &str,
    longer: Vec<Lease>,
    name: Seq<char>,
    addr: &[char],
    ip: Ipv4Addr,
    open: Seq<char>,
    named: Seq<char>,
    placed: Seq<char>,
    close: Seq<char>,
)
    requires
        call_ensures(parse_dhcpd_leases, (text,), list),
        call_ensures(parse_dhcpd_leases, (more,), longer),
        call_ensures(parse_addr, (addr,), Some(ip)),
        lines(more@) == lines(text@) + seq![open, named, placed, close],
        trimmed(open) == "{"@,
        trimmed(named) == "name="@ + name,
        trimmed(placed) == "ip_address="@ + addr@,
        trimmed(close) == "}"@,
    ensures
        longer@.len() == list@.len() + 1,
        forall|i: int| 0 <= i < list@.len() ==> (#[trigger] longer@[i])@ == list@[i]@,
        longer@.last().ip == ip,
        longer@.last().name is Some && longer@.last().name->0@ == name,
{
    reveal_strlit("{");
    reveal_strlit("}");
    reveal_strlit("name=");
    reveal_strlit("ip_address=");
    let a = lines(text@);
    let b = lines(more@);
    let b3 = b.drop_last();
    let b2 = b3.drop_last();
    let b1 = b2.drop_last();
    assert(b1.drop_last() =~= a);
    assert(b.last() == close && b3.last() == placed && b2.last() == named && b1.last() == open);
    let s0 = lease_scan(a);
    let s1 = lease_line(s0, open);
    let s2 = lease_line(s1, named);
    let s3 = lease_line(s2, placed);
    let s4 = lease_line(s3, close);
    assert("{"@.len() == 1 && "}"@.len() == 1 && "{"@[0] == '{' && "}"@[0] == '}');
    assert("name="@.len() == 5 && "ip_address="@.len() == 11);
    let n = "name="@ + name;
    let p = "ip_address="@ + addr@;
    assert(n.take(5) =~= "name="@);
    assert(n.skip(5) =~= name);
    assert(p.take(11) =~= "ip_address="@);
    assert(p.skip(11) =~= addr@);
    assert(p[0] == 'i' && n[0] == 'n');
    assert(p.take(5)[0] == 'i' && "name="@[0] == 'n');
    assert(s1.out == s0.out && s1.name is None && s1.ip is None);
    assert(s2.name == Some(name));
    assert(s3.ip == Some(ip) && s3.name == Some(name));
    assert(lease_scan(b1) == s1);
    assert(lease_scan(b2) == s2);
    assert(lease_scan(b3) == s3);
    assert(lease_scan(b) == s4);
    let v = crate::resolve::scan::leases_view(longer@);
    let u = crate::resolve::scan::leases_view(list@);
    assert(v == u.push(Lease { name: Some(name), ip }));
    assert(v.len() == longer@.len() && u.len() == list@.len());
    assert forall|i: int| 0 <= i < list@.len() implies (#[trigger] longer@[i])@ == list@[i]@ by {
        assert(v[i] == longer@[i]@ && u[i] == list@[i]@);
    }
    assert(v[list@.len() as int] == longer@[list@.len() as int]@);
}

proof fn instances_differ(rows: Seq<Seq<char>>)
    ensures
        instances_in(rows).no_duplicates(),
        forall|i: int| 0 <= i < instances_in(rows).len() ==> (#[trigger] instances_in(rows)[i]).len() > 0,
    decreases rows.len(),
{
    if rows.len() > 0 {
        instances_differ(rows.drop_last());
    }
}

/// The instances that are found are all different and have names.
pub proof fn instances_are_told_apart(out: &str, names: Vec<String>, i: int, j: int)
    requires
        call_ensures(parse_dns_sd_browse, (out,), names),
        0 <= i < j < names@.len(),
    ensures
        names@[i]@ != names@[j]@,
        names@[i]@.len() > 0,
{
    instances_differ(lines(out@));
    let t = texts(names@);
    assert(t[i] == names@[i]@ && t[j] == names@[j]@);
}

/// An instance that can be reached is told under the name that was asked for.
pub proof fn instances_keep_their_names(instance: &str, out: &str, r: Option<MdnsInstance>)
    requires
        call_ensures(parse_dns_sd_resolve, (instance, out), r),
    ensures
        r is Some ==> r->0.instance@ == instance@,
{
}

/// A VM is located anew where its bridge says `auto`, in whatever case.
pub proof fn auto_is_auto(c: &VmConfig, r: bool)
    requires
        call_ensures(VmConfig::is_auto, (c,), r),
    ensures
        c.bridge@ == seq!['a', 'u', 't', 'o'] || c.bridge@ == seq!['A', 'U', 'T', 'O'] ==> r,
        r ==> c.bridge@.len() == 4,
        r ==> c.bridge@[0] == 'a' || c.bridge@[0] == 'A',
        r ==> c.bridge@[3] == 'o' || c.bridge@[3] == 'O',
{
}

/// An identity is written as its digits.
pub proof fn identities_are_written(u: &[u8; 16], s: String, d: Vec<u8>)
    requires
        call_ensures(uuid_string, (u,), s),
        call_ensures(vm_uuid_hex, (u,), d),
    ensures
        s@.len() == d@.len(),
        forall|i: int| 0 <= i < s@.len() ==> s@[i] == d@[i] as char,
{
}

/// A text can be quoted that has no run of 256 equal quotes.
pub proof fn short_runs_can_be_quoted(text: &str, r: bool, i: int, c: char)
    requires
        call_ensures(can_quote, (text,), r),
        0 <= i,
        i + 256 <= text@.len(),
        c == '"' || c == '\'',
        forall|k: int| i <= k < i + 256 ==> text@[k] == c,
    ensures
        !r,
{
    assert(crate::config_writer::quotes_at(text@, i));
}

/// The block of a VM in a configuration.
pub open spec fn block_at(root: Map<Seq<char>, TomlValue>, name: Seq<char>) -> Map<Seq<char>, TomlValue> {
    root["vm"@]->Table_0[name]->Table_0
}

/// A configuration has a block for the VM.
pub open spec fn has_block(root: Map<Seq<char>, TomlValue>, name: Seq<char>) -> bool {
    root.contains_key("vm"@) && root["vm"@] is Table && root["vm"@]->Table_0.contains_key(name)
        && root["vm"@]->Table_0[name] is Table
}

/// A VM that is put into a configuration is there with its bridge, its identity and its token, and is
/// mounted by itself; other VMs and other sections are as they were.
pub proof fn bindings_are_written(
    existing: &str,
    b: &VmBinding,
    r: Result<String, UpsertError>,
    id: String,
    other: Seq<char>,
    key: Seq<char>,
)
    requires
        call_ensures(upsert_vm, (existing, b), r),
        call_ensures(uuid_string, (&b.vm_uuid,), id),
        r is Ok,
    ensures
        toml_of(existing@) is Ok,
        toml_of(r->Ok_0@) is Ok,
        ({
            let was = toml_of(existing@)->Ok_0;
            let now = toml_of(r->Ok_0@)->Ok_0;
            let block = block_at(now, b.name@);
            &&& has_block(now, b.name@)
            &&& block["bridge"@] == TomlValue::Text(b.bridge@)
            &&& block["vm_uuid"@] == TomlValue::Text(id@)
            &&& block["token"@] == TomlValue::Text(b.token@)
            &&& block["automount"@] == TomlValue::Flag(true)
            &&& key != "vm"@ ==> (now.contains_key(key) <==> was.contains_key(key))
            &&& key != "vm"@ && was.contains_key(key) ==> now[key] == was[key]
            &&& other != b.name@ && has_block(was, other) ==> has_block(now, other) && block_at(
                now,
                other,
            ) == block_at(was, other)
        }),
{
    reveal_strlit("bridge");
    reveal_strlit("vm_uuid");
    reveal_strlit("token");
    reveal_strlit("automount");
    assert("bridge"@.len() == 6 && "vm_uuid"@.len() == 7 && "token"@.len() == 5
        && "automount"@.len() == 9);
}

/// A VM whose identity is not known is put there without one, to be looked up.
pub proof fn unbound_vms_are_written(
    existing: &str,
    name: &str,
    token: &str,
    r: Result<String, UpsertError>,
)
    requires
        call_ensures(upsert_vm_no_uuid, (existing, name, token), r),
        r is Ok,
    ensures
        toml_of(r->Ok_0@) is Ok,
        ({
            let now = toml_of(r->Ok_0@)->Ok_0;
            let block = block_at(now, name@);
            &&& has_block(now, name@)
            &&& block["bridge"@] == TomlValue::Text("auto"@)
            &&& block["token"@] == TomlValue::Text(token@)
            &&& block["automount"@] == TomlValue::Flag(true)
            &&& !block.contains_key("vm_uuid"@)
        }),
{
    reveal_strlit("bridge");
    reveal_strlit("vm_uuid");
    reveal_strlit("token");
    reveal_strlit("automount");
    assert("bridge"@.len() == 6 && "vm_uuid"@.len() == 7 && "token"@.len() == 5
        && "automount"@.len() == 9);
}

proof fn last_mark(a: Seq<char>, c: char, b: Seq<char>)
    requires
        forall|i: int| 0 <= i < b.len() ==> b[i] != c,
    ensures
        last_at(a + seq![c] + b, c) == Some(a.len() as int),
    decreases b.len(),
{
    let s = a + seq![c] + b;
    if b.len() > 0 {
        let t = b.drop_last();
        assert forall|i: int| 0 <= i < t.len() implies t[i] != c by {
            assert(b[i] == t[i]);
        }
        assert(s.drop_last() =~= a + seq![c] + t);
        last_mark(a, c, t);
        assert(s.last() == b[b.len() - 1]);
    } else {
        assert(s.last() == c);
    }
}

/// The last line that says where an instance can be reached tells its host and its port, which stand
/// before and after the last colon of the word that follows.
pub proof fn instances_are_reached(
    instance: &str,
    out: &str,
    r: Option<MdnsInstance>,
    before: Seq<Seq<char>>,
    line: Seq<char>,
    text: &[char],
    pre: Seq<char>,
    rest: &[char],
    ws: Vec<Vec<char>>,
    host: Seq<char>,
    port: u16,
)
    requires
        call_ensures(parse_dns_sd_resolve, (instance, out), r),
        lines(out@) == before.push(line),
        text@ == trimmed(line),
        text@ == pre + "can be reached at "@ + rest@,
        call_ensures(find_sub, (text, "can be reached at "), Some(pre.len() as usize)),
        pre.len() <= usize::MAX,
        call_ensures(words_of, (rest,), ws),
        ws@.len() > 0,
        ws@[0]@ == host + seq![':'] + dec_chars(port as nat),
        host.len() > 0 ==> host.last() != '.',
    ensures
        r is Some,
        r->0.host@ == host,
        r->0.port == port,
        r->0.instance@ == instance@,
{
    let rows = lines(out@);
    assert(rows.drop_last() =~= before);
    assert(rows.last() == line);
    let mark = "can be reached at "@;
    let w = words(rest@);
    assert(views(ws@) == w);
    assert(w[0] == ws@[0]@);
    assert(text@.skip(pre.len() as int + mark.len()) =~= rest@);
    let d = dec_digits(port as nat);
    crate::text::decimal_round_trip(port as nat, 65535);
    port_digits(port as nat);
    let p = dec_chars(port as nat);
    last_mark(host, ':', p);
    let hp = host + seq![':'] + p;
    assert(hp.take(host.len() as int) =~= host);
    assert(hp.skip(host.len() as int + 1) =~= p);
    assert(ascii_of(p) =~= d);
    assert(without_dots(host) == host);
}

proof fn port_digits(n: nat)
    ensures
        forall|i: int| 0 <= i < dec_digits(n).len() ==> 48 <= #[trigger] dec_digits(n)[i] <= 57,
        forall|i: int|
            0 <= i < dec_chars(n).len() ==> #[trigger] dec_chars(n)[i] != ':' && dec_chars(n)[i]
                <= '\u{7f}' && dec_chars(n)[i] as u8 == dec_digits(n)[i],
    decreases n,
{
    if n >= 10 {
        port_digits(n / 10);
        let p = dec_digits(n / 10);
        let d = dec_digits(n);
        assert forall|i: int| 0 <= i < d.len() implies 48 <= #[trigger] d[i] <= 57 by {
            if i < p.len() {
                assert(d[i] == p[i]);
            }
        }
    }
}

} // verus!
