//! Addresses, and the bridge that the VMs are on.
use crate::chars::{split, split_on};
use crate::text::{all_digits, dec_value, is_digit, parse_number};
use vstd::prelude::*;

verus! {

/// An IPv4 address; the first of the four numbers is the highest byte.
#[derive(Debug, Clone, Copy, PartialEq, Eq, Structural)]
pub struct Ipv4Addr {
    pub bits: u32,
}

impl Ipv4Addr {
    pub fn new(a: u8, b: u8, c: u8, d: u8) -> (ip: Self)
        ensures
            ip.bits == a * 0x100_0000 + b * 0x1_0000 + c * 0x100 + d,
    {
        Ipv4Addr {
            bits: a as u32 * 0x100_0000 + b as u32 * 0x1_0000 + c as u32 * 0x100 + d as u32,
        }
    }

    /// The four numbers.
    pub fn octets(&self) -> (o: [u8; 4])
        ensures
            o@ == seq![
                (self.bits / 0x100_0000) as u8,
                (self.bits / 0x1_0000 % 0x100) as u8,
                (self.bits / 0x100 % 0x100) as u8,
                (self.bits % 0x100) as u8,
            ],
    {
        let o = [
            (self.bits / 0x100_0000) as u8,
            (self.bits / 0x1_0000 % 0x100) as u8,
            (self.bits / 0x100 % 0x100) as u8,
            (self.bits % 0x100) as u8,
        ];
        proof {
            assert(o@ =~= seq![
                (self.bits / 0x100_0000) as u8,
                (self.bits / 0x1_0000 % 0x100) as u8,
                (self.bits / 0x100 % 0x100) as u8,
                (self.bits % 0x100) as u8,
            ]);
        }
        o
    }

    /// An address of a network that is not reachable from outside: 10/8, 172.16/12, 192.168/16.
    pub open spec fn private(self) -> bool {
        ||| self.bits / 0x100_0000 == 10
        ||| self.bits / 0x10_0000 == 172 * 16 + 1
        ||| self.bits / 0x1_0000 == 192 * 256 + 168
    }
}

pub fn is_private_v4(ip: Ipv4Addr) -> (r: bool)
    ensures
        r == ip.private(),
{
    ip.bits / 0x100_0000 == 10 || ip.bits / 0x10_0000 == 172 * 16 + 1 || ip.bits / 0x1_0000 == 192
        * 256 + 168
}

/// A character as an ASCII code; 0 for what is not ASCII.
pub open spec fn ascii(c: char) -> u8 {
    if c <= '\u{7f}' {
        c as u8
    } else {
        0
    }
}

pub open spec fn ascii_of(s: Seq<char>) -> Seq<u8> {
    s.map_values(|c: char| ascii(c))
}

pub fn ascii_bytes(v: &[char]) -> (b: Vec<u8>)
    ensures
        b@ == ascii_of(v@),
{
    let mut b: Vec<u8> = Vec::new();
    let mut i: usize = 0;
    while i < v.len()
        invariant
            i <= v@.len(),
            b@.len() == i,
            forall|j: int| 0 <= j < i ==> b@[j] == ascii(v@[j]),
        decreases v@.len() - i,
    {
        let c = v[i];
        b.push(
            if c <= '\u{7f}' {
                c as u8
            } else {
                0u8
            },
        );
        i = i + 1;
    }
    proof {
        assert(b@ =~= ascii_of(v@));
    }
    b
}

/// One of the four numbers of an address: up to three digits, without leading zeros, at most 255.
pub open spec fn octet_in(s: Seq<char>) -> Option<nat> {
    let b = ascii_of(s);
    if 1 <= b.len() <= 3 && all_digits(b) && (b.len() == 1 || b[0] != 48) && dec_value(b) <= 255 {
        Some(dec_value(b))
    } else {
        None
    }
}

fn octet(v: &[char]) -> (r: Option<u8>)
    ensures
        match r {
            Some(n) => octet_in(v@) == Some(n as nat),
            None => octet_in(v@) is None,
        },
{
    if v.len() == 0 || v.len() > 3 {
        return None;
    }
    let b = ascii_bytes(v);
    if b[0] < 48 || b[0] > 57 {
        proof {
            assert(!is_digit(b@[0]));
        }
        return None;
    }
    if b.len() > 1 && b[0] == 48 {
        return None;
    }
    match parse_number(b.as_slice(), 255) {
        Some(n) => Some(n as u8),
        None => None,
    }
}

/// The address that a text writes: four numbers with points between them.
pub open spec fn addr_in(s: Seq<char>) -> Option<Ipv4Addr> {
    let p = split(s, '.');
    if p.len() == 4 && octet_in(p[0]) is Some && octet_in(p[1]) is Some && octet_in(p[2]) is Some
        && octet_in(p[3]) is Some {
        Some(
            Ipv4Addr {
                bits: (octet_in(p[0])->0 * 0x100_0000 + octet_in(p[1])->0 * 0x1_0000 + octet_in(
                    p[2],
                )->0 * 0x100 + octet_in(p[3])->0) as u32,
            },
        )
    } else {
        None
    }
}

pub fn parse_addr(v: &[char]) -> (r: Option<Ipv4Addr>)
    ensures
        r == addr_in(v@),
{
    let p = split_on(v, '.');
    if p.len() != 4 {
        return None;
    }
    proof {
        let s = split(v@, '.');
        assert(s[0] == p@[0]@ && s[1] == p@[1]@ && s[2] == p@[2]@ && s[3] == p@[3]@);
    }
    match (octet(p[0].as_slice()), octet(p[1].as_slice()), octet(p[2].as_slice()), octet(p[3].as_slice())) {
        (Some(a), Some(b), Some(c), Some(d)) => Some(Ipv4Addr::new(a, b, c, d)),
        _ => None,
    }
}

/// A bridge that VMs are on, as the host sees it: the host's own address on it is the guests'
/// gateway.
#[derive(Debug)]
pub struct VmnetModel {
    pub iface: String,
    pub gateway: Ipv4Addr,
    pub netmask: Ipv4Addr,
}

/// The addresses from `a` up to, not with, `end`, without `gw`, at most `cap` of them.
pub open spec fn addrs_from(a: int, end: int, gw: int, cap: nat) -> Seq<Ipv4Addr>
    decreases end - a,
{
    if a >= end || cap == 0 {
        seq![]
    } else if a == gw {
        addrs_from(a + 1, end, gw, cap)
    } else {
        seq![Ipv4Addr { bits: a as u32 }] + addrs_from(a + 1, end, gw, (cap - 1) as nat)
    }
}

impl VmnetModel {
    /// The first address of the subnet.
    pub open spec fn net(&self) -> u32 {
        self.gateway.bits & self.netmask.bits
    }

    /// The last address of the subnet.
    pub open spec fn broadcast(&self) -> u32 {
        self.net() | !self.netmask.bits
    }

    pub open spec fn has(&self, ip: Ipv4Addr) -> bool {
        ip.bits & self.netmask.bits == self.net()
    }

    /// Whether an address is on this bridge.
    pub fn contains(&self, ip: Ipv4Addr) -> (r: bool)
        ensures
            r == self.has(ip),
    {
        let m: u32 = self.netmask.bits;
        (ip.bits & m) == (self.gateway.bits & m)
    }

    /// The addresses that a VM could have: all of the subnet but its first, its last and the
    /// gateway's, at most `cap` of them.
    pub fn candidate_ips(&self, cap: usize) -> (list: Vec<Ipv4Addr>)
        requires
            self.net() < u32::MAX,
        ensures
            list@ == addrs_from(
                self.net() + 1,
                self.broadcast() as int,
                self.gateway.bits as int,
                cap as nat,
            ),
    {
        let net: u32 = self.gateway.bits & self.netmask.bits;
        let end: u32 = net | !self.netmask.bits;
        let gw: u32 = self.gateway.bits;
        let mut list: Vec<Ipv4Addr> = Vec::new();
        let mut a: u32 = net + 1;
        let ghost all = addrs_from(a as int, end as int, gw as int, cap as nat);
        proof {
            assert(list@ + all =~= all);
        }
        while a < end && list.len() < cap
            invariant
                list@.len() <= cap,
                list@ + addrs_from(a as int, end as int, gw as int, (cap - list@.len()) as nat)
                    == all,
            decreases end - a,
        {
            let ghost before = list@;
            let ghost rest = addrs_from(
                a as int,
                end as int,
                gw as int,
                (cap - before.len()) as nat,
            );
            if a != gw {
                list.push(Ipv4Addr { bits: a });
            }
            proof {
                assert(list@ + addrs_from(
                    a + 1,
                    end as int,
                    gw as int,
                    (cap - list@.len()) as nat,
                ) =~= before + rest);
            }
            a = a + 1;
        }
        proof {
            assert(list@ =~= all);
        }
        list
    }
}

/// Every address that is tried lies inside the subnet, and is neither its first, nor its last,
/// nor the gateway's; none is tried twice.
pub proof fn candidates_are_hosts(m: VmnetModel, cap: nat, i: int)
    requires
        0 <= i < addrs_from(
            m.net() + 1,
            m.broadcast() as int,
            m.gateway.bits as int,
            cap,
        ).len(),
    ensures
        ({
            let list = addrs_from(
                m.net() + 1,
                m.broadcast() as int,
                m.gateway.bits as int,
                cap,
            );
            &&& m.net() < list[i].bits < m.broadcast()
            &&& list[i] != m.gateway
            &&& forall|j: int| i < j < list.len() ==> (#[trigger] list[j]).bits > list[i].bits
            &&& list.len() <= cap
        }),
{
    addrs_ascend(m.net() + 1, m.broadcast() as int, m.gateway.bits as int, cap);
}

proof fn addrs_ascend(a: int, end: int, gw: int, cap: nat)
    requires
        0 <= a,
        end <= u32::MAX,
    ensures
        addrs_from(a, end, gw, cap).len() <= cap,
        forall|i: int|
            0 <= i < addrs_from(a, end, gw, cap).len() ==> a <= (#[trigger] addrs_from(
                a,
                end,
                gw,
                cap,
            )[i]).bits < end && addrs_from(a, end, gw, cap)[i].bits != gw,
        forall|i: int, j: int|
            0 <= i < j < addrs_from(a, end, gw, cap).len() ==> (#[trigger] addrs_from(
                a,
                end,
                gw,
                cap,
            )[i]).bits < (#[trigger] addrs_from(a, end, gw, cap)[j]).bits,
    decreases end - a,
{
    if a < end && cap > 0 {
        if a == gw {
            addrs_ascend(a + 1, end, gw, cap);
        } else {
            addrs_ascend(a + 1, end, gw, (cap - 1) as nat);
        }
    }
}

/// With a mask that is ones followed by zeros, every address that is tried is on the bridge.
pub proof fn candidates_are_on_the_bridge(m: VmnetModel, a: Ipv4Addr)
    requires
        !m.netmask.bits & add_one(!m.netmask.bits) == 0,
        m.net() < a.bits < m.broadcast(),
    ensures
        m.has(a),
{
    let mask = m.netmask.bits;
    let gw = m.gateway.bits;
    let x = a.bits;
    let inv = !mask;
    if inv == 0xffff_ffff {
        assert(mask == 0) by (bit_vector)
            requires
                inv == !mask,
                inv == 0xffff_ffff,
        ;
        assert(x & 0 == 0 && gw & 0 == 0) by (bit_vector);
    } else {
        let one: u32 = (inv + 1) as u32;
        assert(x & mask == gw & mask) by (bit_vector)
            requires
                inv == !mask,
                one == inv + 1,
                inv & one == 0,
                gw & mask < x,
                x < (gw & mask) | !mask,
        ;
    }
}

/// The next number; after the last comes 0.
pub open spec fn add_one(v: u32) -> u32 {
    if v == u32::MAX {
        0
    } else {
        (v + 1) as u32
    }
}

/// Whether this is the name of a bridge that VMs are put on: `bridge` and three digits, the first
/// of them 1.
pub open spec fn bridge_name(s: Seq<char>) -> bool {
    let n = crate::chars::after(s, "bridge"@);
    n is Some && n->0.len() == 3 && n->0[0] == '1' && '0' <= n->0[1] <= '9' && '0' <= n->0[2]
        <= '9'
}

pub fn is_vmnet_bridge_name(name: &str) -> (r: bool)
    ensures
        r == bridge_name(name@),
{
    let v = crate::chars::chars_of(name);
    match crate::chars::strip(v.as_slice(), "bridge") {
        Some(n) => n.len() == 3 && n[0] == '1' && '0' <= n[1] && n[1] <= '9' && '0' <= n[2] && n[2]
            <= '9',
        None => false,
    }
}

} // verus!
