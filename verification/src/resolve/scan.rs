//! What the host knows of addresses on its bridges: DHCP leases and the ARP table.
use crate::chars::{
    after, chars_of, find, first_at, is_text, lines, lines_of, part, string_of, strip, trim,
    trimmed, views,
};
use crate::resolve::net::{addr_in, parse_addr, Ipv4Addr, VmnetModel};
use vstd::prelude::*;

verus! {

/// A DHCP lease. It is told by the name of its host: hardware addresses no longer identify one.
#[derive(Debug)]
pub struct Lease<S = String> {
    pub name: Option<S>,
    pub ip: Ipv4Addr,
}

impl Lease<String> {
    pub open spec fn view(&self) -> Lease<Seq<char>> {
        Lease {
            name: match self.name {
                Some(s) => Some(s@),
                None => None,
            },
            ip: self.ip,
        }
    }
}

pub open spec fn leases_view(list: Seq<Lease>) -> Seq<Lease<Seq<char>>> {
    Seq::new(list.len(), |i: int| list[i]@)
}

/// Where a reading of the lease file stands: what was found of the lease that is being read, and
/// the leases before it.
pub ghost struct LeaseScan {
    pub name: Option<Seq<char>>,
    pub ip: Option<Ipv4Addr>,
    pub out: Seq<Lease<Seq<char>>>,
}

/// One line of the lease file.
pub open spec fn lease_line(s: LeaseScan, line: Seq<char>) -> LeaseScan {
    let l = trimmed(line);
    if l == "{"@ {
        LeaseScan { name: None, ip: None, ..s }
    } else if l == "}"@ {
        match s.ip {
            Some(ip) => LeaseScan {
                name: None,
                ip: None,
                out: s.out.push(Lease { name: s.name, ip }),
            },
            None => s,
        }
    } else if after(l, "name="@) is Some {
        LeaseScan { name: after(l, "name="@), ..s }
    } else if after(l, "ip_address="@) is Some {
        LeaseScan { ip: addr_in(after(l, "ip_address="@)->0), ..s }
    } else {
        s
    }
}

pub open spec fn lease_scan(rows: Seq<Seq<char>>) -> LeaseScan
    decreases rows.len(),
{
    if rows.len() == 0 {
        LeaseScan { name: None, ip: None, out: seq![] }
    } else {
        lease_line(lease_scan(rows.drop_last()), rows.last())
    }
}

/// The leases in a lease file: blocks in braces, each with a name and an address. A block without
/// an address is no lease.
pub fn parse_dhcpd_leases(text: &str) -> (list: Vec<Lease>)
    ensures
        leases_view(list@) == lease_scan(lines(text@)).out,
{
    let v = chars_of(text);
    let rows = lines_of(v.as_slice());
    let ghost all = lines(text@);
    let mut list: Vec<Lease> = Vec::new();
    let mut name: Option<String> = None;
    let mut ip: Option<Ipv4Addr> = None;
    let mut i: usize = 0;
    proof {
        assert(all.take(0) =~= Seq::empty());
        assert(leases_view(list@) =~= seq![]);
    }
    while i < rows.len()
        invariant
            i <= rows@.len(),
            views(rows@) == all,
            leases_view(list@) == lease_scan(all.take(i as int)).out,
            ip == lease_scan(all.take(i as int)).ip,
            match name {
                Some(s) => lease_scan(all.take(i as int)).name == Some(s@),
                None => lease_scan(all.take(i as int)).name is None,
            },
        decreases rows@.len() - i,
    {
        let l = trim(rows[i].as_slice());
        proof {
            assert(all[i as int] == rows@[i as int]@);
            assert(all.take(i + 1).drop_last() =~= all.take(i as int));
            assert(all.take(i + 1).last() == all[i as int]);
        }
        let ghost before = leases_view(list@);
        if is_text(l.as_slice(), "{") {
            name = None;
            ip = None;
        } else if is_text(l.as_slice(), "}") {
            if let Some(a) = ip {
                let lease = Lease { name, ip: a };
                list.push(lease);
                proof {
                    assert(leases_view(list@) =~= before.push(lease@));
                }
                name = None;
                ip = None;
            }
        } else {
            match strip(l.as_slice(), "name=") {
                Some(n) => {
                    name = Some(string_of(n.as_slice()));
                },
                None => {
                    if let Some(a) = strip(l.as_slice(), "ip_address=") {
                        ip = parse_addr(a.as_slice());
                    }
                },
            }
        }
        i = i + 1;
    }
    proof {
        assert(all.take(i as int) =~= all);
    }
    list
}

/// The address in the first pair of parentheses of a line, if there is one.
pub open spec fn arp_addr(line: Seq<char>) -> Option<Ipv4Addr> {
    match first_at(line, '(') {
        Some(a) => {
            let rest = line.skip(a + 1);
            match first_at(rest, ')') {
                Some(b) => addr_in(rest.take(b)),
                None => None,
            }
        },
        None => None,
    }
}

/// The addresses of the lines, each once, in the order in which they occur first.
pub open spec fn arp_addrs(rows: Seq<Seq<char>>) -> Seq<Ipv4Addr>
    decreases rows.len(),
{
    if rows.len() == 0 {
        seq![]
    } else {
        with_addr(arp_addrs(rows.drop_last()), arp_addr(rows.last()))
    }
}

/// A list with one more address, unless it has it.
pub open spec fn with_addr(list: Seq<Ipv4Addr>, ip: Option<Ipv4Addr>) -> Seq<Ipv4Addr> {
    match ip {
        Some(ip) => if list.contains(ip) {
            list
        } else {
            list.push(ip)
        },
        None => list,
    }
}

fn listed(list: &Vec<Ipv4Addr>, ip: Ipv4Addr) -> (r: bool)
    ensures
        r == list@.contains(ip),
{
    let mut i: usize = 0;
    while i < list.len()
        invariant
            i <= list@.len(),
            forall|j: int| 0 <= j < i ==> list@[j] != ip,
        decreases list@.len() - i,
    {
        if list[i] == ip {
            return true;
        }
        i = i + 1;
    }
    false
}

/// The addresses in the output of `arp -an`.
pub fn parse_arp(text: &str) -> (list: Vec<Ipv4Addr>)
    ensures
        list@ == arp_addrs(lines(text@)),
{
    let v = chars_of(text);
    let rows = lines_of(v.as_slice());
    let ghost all = lines(text@);
    let mut list: Vec<Ipv4Addr> = Vec::new();
    let mut i: usize = 0;
    proof {
        assert(all.take(0) =~= Seq::empty());
        assert(list@ =~= seq![]);
    }
    while i < rows.len()
        invariant
            i <= rows@.len(),
            views(rows@) == all,
            list@ == arp_addrs(all.take(i as int)),
        decreases rows@.len() - i,
    {
        let l = &rows[i];
        proof {
            assert(all[i as int] == rows@[i as int]@);
            assert(all.take(i + 1).drop_last() =~= all.take(i as int));
            assert(all.take(i + 1).last() == all[i as int]);
        }
        if let Some(a) = find(l.as_slice(), '(') {
            proof {
                assert(l@.len() == l.len());
            }
            let rest = part(l.as_slice(), a + 1, l.len());
            proof {
                assert(rest@ =~= l@.skip(a + 1));
            }
            if let Some(b) = find(rest.as_slice(), ')') {
                let inside = part(rest.as_slice(), 0, b);
                proof {
                    assert(inside@ =~= rest@.take(b as int));
                }
                if let Some(ip) = parse_addr(inside.as_slice()) {
                    if !listed(&list, ip) {
                        list.push(ip);
                    }
                }
            }
        }
        i = i + 1;
    }
    proof {
        assert(all.take(i as int) =~= all);
    }
    list
}

/// A list with those of `ips` that are on a bridge, each once.
pub open spec fn on_bridge(list: Seq<Ipv4Addr>, m: VmnetModel, ips: Seq<Ipv4Addr>) -> Seq<Ipv4Addr>
    decreases ips.len(),
{
    if ips.len() == 0 {
        list
    } else {
        let before = on_bridge(list, m, ips.drop_last());
        with_addr(
            before,
            if m.has(ips.last()) {
                Some(ips.last())
            } else {
                None
            },
        )
    }
}

/// The addresses that are known and on one of the bridges, bridge by bridge.
pub open spec fn on_bridges(models: Seq<VmnetModel>, ips: Seq<Ipv4Addr>) -> Seq<Ipv4Addr>
    decreases models.len(),
{
    if models.len() == 0 {
        seq![]
    } else {
        on_bridge(on_bridges(models.drop_last(), ips), models.last(), ips)
    }
}

/// The addresses that are known: those of the leases, then those of the ARP table.
pub open spec fn known_addrs(leases: Seq<Lease>, arp: Seq<Ipv4Addr>) -> Seq<Ipv4Addr> {
    Seq::new(leases.len(), |i: int| leases[i].ip) + arp
}

/// Most addresses that are tried where none is known.
pub const SWEEP: usize = 256;

/// The addresses to try: those that are known and on one of the bridges; where there is none, the
/// addresses of the first bridge's subnet.
pub open spec fn candidates_of(
    models: Seq<VmnetModel>,
    leases: Seq<Lease>,
    arp: Seq<Ipv4Addr>,
) -> Seq<Ipv4Addr> {
    let list = on_bridges(models, known_addrs(leases, arp));
    if list.len() == 0 && models.len() > 0 {
        crate::resolve::net::addrs_from(
            models[0].net() + 1,
            models[0].broadcast() as int,
            models[0].gateway.bits as int,
            SWEEP as nat,
        )
    } else {
        list
    }
}

pub fn candidates(models: &Vec<VmnetModel>, leases: &Vec<Lease>, arp: &Vec<Ipv4Addr>) -> (list: Vec<
    Ipv4Addr,
>)
    requires
        models@.len() > 0 && on_bridges(models@, known_addrs(leases@, arp@)).len() == 0
            ==> models@[0].net() < u32::MAX,
    ensures
        list@ == candidates_of(models@, leases@, arp@),
{
    let mut ips: Vec<Ipv4Addr> = Vec::new();
    let mut i: usize = 0;
    while i < leases.len()
        invariant
            i <= leases@.len(),
            ips@.len() == i,
            forall|j: int| 0 <= j < i ==> ips@[j] == leases@[j].ip,
        decreases leases@.len() - i,
    {
        ips.push(leases[i].ip);
        i = i + 1;
    }
    ips.extend_from_slice(arp.as_slice());
    let ghost known = known_addrs(leases@, arp@);
    proof {
        assert(ips@ =~= known);
    }
    let mut list: Vec<Ipv4Addr> = Vec::new();
    let mut m: usize = 0;
    proof {
        assert(models@.take(0) =~= Seq::empty());
        assert(list@ =~= seq![]);
    }
    while m < models.len()
        invariant
            m <= models@.len(),
            ips@ == known,
            list@ == on_bridges(models@.take(m as int), known),
        decreases models@.len() - m,
    {
        let ghost start = list@;
        let mut k: usize = 0;
        proof {
            assert(known.take(0) =~= Seq::empty());
        }
        while k < ips.len()
            invariant
                m < models@.len(),
                k <= ips@.len(),
                ips@ == known,
                list@ == on_bridge(start, models@[m as int], known.take(k as int)),
            decreases ips@.len() - k,
        {
            proof {
                assert(known.take(k + 1).drop_last() =~= known.take(k as int));
                assert(known.take(k + 1).last() == known[k as int]);
            }
            let ip = ips[k];
            if models[m].contains(ip) && !listed(&list, ip) {
                list.push(ip);
            }
            k = k + 1;
        }
        proof {
            assert(known.take(k as int) =~= known);
            assert(models@.take(m + 1).drop_last() =~= models@.take(m as int));
            assert(models@.take(m + 1).last() == models@[m as int]);
        }
        m = m + 1;
    }
    proof {
        assert(models@.take(m as int) =~= models@);
    }
    if list.len() == 0 && models.len() > 0 {
        return models[0].candidate_ips(SWEEP);
    }
    list
}

/// Every known address that is tried is on one of the bridges.
pub proof fn known_candidates_are_on_a_bridge(models: Seq<VmnetModel>, ips: Seq<Ipv4Addr>, i: int)
    requires
        0 <= i < on_bridges(models, ips).len(),
    ensures
        exists|m: int| 0 <= m < models.len() && (#[trigger] models[m]).has(on_bridges(models, ips)[i]),
        ips.contains(on_bridges(models, ips)[i]),
    decreases models.len(),
{
    if models.len() > 0 {
        let p = models.drop_last();
        let before = on_bridges(p, ips);
        bridge_adds_its_own(before, models.last(), ips, i);
        if i < before.len() {
            known_candidates_are_on_a_bridge(p, ips, i);
            let m = choose|m: int| 0 <= m < p.len() && (#[trigger] p[m]).has(before[i]);
            assert(models[m] == p[m]);
            assert(models[m].has(on_bridges(models, ips)[i]));
        } else {
            assert(models[models.len() - 1].has(on_bridges(models, ips)[i]));
        }
    }
}

proof fn bridge_adds_its_own(list: Seq<Ipv4Addr>, m: VmnetModel, ips: Seq<Ipv4Addr>, i: int)
    requires
        0 <= i < on_bridge(list, m, ips).len(),
    ensures
        list.len() <= on_bridge(list, m, ips).len(),
        i < list.len() ==> on_bridge(list, m, ips)[i] == list[i],
        i >= list.len() ==> m.has(on_bridge(list, m, ips)[i]) && ips.contains(
            on_bridge(list, m, ips)[i],
        ),
    decreases ips.len(),
{
    if ips.len() > 0 {
        let p = ips.drop_last();
        let before = on_bridge(list, m, p);
        if i < before.len() {
            bridge_adds_its_own(list, m, p, i);
            if i >= list.len() {
                let k = p.index_of(before[i]);
                assert(ips[k] == before[i]);
            }
        } else {
            if before.len() > 0 {
                bridge_adds_its_own(list, m, p, 0);
            } else {
                on_bridge_grows(list, m, p);
            }
            assert(ips[ips.len() - 1] == ips.last());
        }
    }
}

proof fn on_bridge_grows(list: Seq<Ipv4Addr>, m: VmnetModel, ips: Seq<Ipv4Addr>)
    ensures
        list.len() <= on_bridge(list, m, ips).len(),
    decreases ips.len(),
{
    if ips.len() > 0 {
        on_bridge_grows(list, m, ips.drop_last());
    }
}

/// No known address is tried twice.
pub proof fn no_candidate_twice(models: Seq<VmnetModel>, ips: Seq<Ipv4Addr>)
    ensures
        on_bridges(models, ips).no_duplicates(),
    decreases models.len(),
{
    if models.len() > 0 {
        no_candidate_twice(models.drop_last(), ips);
        bridge_adds_none_twice(on_bridges(models.drop_last(), ips), models.last(), ips);
    }
}

proof fn bridge_adds_none_twice(list: Seq<Ipv4Addr>, m: VmnetModel, ips: Seq<Ipv4Addr>)
    requires
        list.no_duplicates(),
    ensures
        on_bridge(list, m, ips).no_duplicates(),
    decreases ips.len(),
{
    if ips.len() > 0 {
        bridge_adds_none_twice(list, m, ips.drop_last());
    }
}

} // verus!
