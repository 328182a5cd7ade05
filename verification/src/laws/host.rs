//! Configuration and the search for a VM: what paths, names and addresses come to.
use crate::chars::{
    chomp, find, first_at, lines, lines_of, space, split, split_on, trim_start, trim_start_shrinks,
    views, word_end, words, words_of,
};
use crate::config::{
    join_path, keep_secret, mount_root, parse_vm_spec, resolve_at, state_dir, Config, SpecError,
    VmConfig,
};
use crate::hex::vm_uuid_from_hex;
use crate::mount::mountpoint_of;
use crate::resolve::hunt::{
    first_fit, identity_ok, probe_hello, probe_identity, probe_more, uuid_matches, Hunt, HuntMove,
    ProbeFrame,
};
use crate::resolve::mdns::{find_sub, sub_at};
use crate::resolve::net::{addrs_from, ascii_bytes, is_private_v4, Ipv4Addr, VmnetModel};
use crate::resolve::scan::{candidates, on_bridge, on_bridges, Lease};
use crate::session::link::{HelloReply, SessionError};
use vstd::prelude::*;

verus! {

/// An absolute path stands for itself; any other comes after the directory and one slash.
pub open spec fn joined(base: Seq<char>, p: Seq<char>) -> Seq<char> {
    if p.len() > 0 && p[0] == '/' {
        p
    } else if base.len() > 0 && base[base.len() - 1] != '/' {
        base + seq!['/'] + p
    } else {
        base + p
    }
}

proof fn joined_is_under(base: Seq<char>, p: Seq<char>)
    ensures
        joined(base, p) == crate::config::under(base, p),
{
    reveal_strlit("/");
    assert("/"@ =~= seq!['/']);
}

/// Paths are joined by one slash.
pub proof fn paths_are_joined(base: &str, p: &str, r: String)
    requires
        call_ensures(join_path, (base, p), r),
    ensures
        r@ == joined(base@, p@),
{
    joined_is_under(base@, p@);
}

/// A path after an `@` lies under the state directory; any other is left as it is.
pub proof fn marked_paths_lie_under_the_state(state: &str, p: &str, r: String)
    requires
        call_ensures(resolve_at, (state, p), r),
    ensures
        p@.len() > 0 && p@[0] == '@' ==> r@ == joined(state@, p@.skip(1)),
        p@.len() == 0 || p@[0] != '@' ==> r@ == p@,
{
    joined_is_under(state@, p@.skip(1));
}

/// The state directory is the one that is given, else the usual place.
pub proof fn given_state_directory_counts(given: Option<&str>, home: &str, r: String)
    requires
        call_ensures(state_dir, (given, home), r),
    ensures
        given is Some ==> r@ == given->0@,
        given is None ==> r@ == joined(home@, "Library/Application Support/Mist"@),
{
    joined_is_under(home@, "Library/Application Support/Mist"@);
}

/// Shares are mounted where it is given, else in a directory of the home directory.
pub proof fn given_mount_root_counts(given: Option<&str>, home: &str, r: String)
    requires
        call_ensures(mount_root, (given, home), r),
    ensures
        given is Some ==> r@ == given->0@,
        given is None ==> r@ == joined(home@, "Mist"@),
{
    joined_is_under(home@, "Mist"@);
}

/// A VM has a cache of its own unless the cache is off.
pub proof fn caches_are_by_name(c: &Config, state: &str, name: &str, r: Option<String>)
    requires
        call_ensures(Config::cas_dir, (c, state, name), r),
    ensures
        r is Some <==> c.daemon.cache_max_bytes > 0,
        r is Some ==> r->0@ == joined(joined(state@, "cas"@), name@),
{
    joined_is_under(state@, "cas"@);
    joined_is_under(joined(state@, "cas"@), name@);
}

/// The control socket lies under the state directory.
pub proof fn socket_lies_under_the_state(c: &Config, state: &str, r: String)
    requires
        call_ensures(Config::control_path, (c, state), r),
    ensures
        r@ == joined(state@, c.daemon.control_socket@),
{
    joined_is_under(state@, c.daemon.control_socket@);
}

/// A secret is kept that has at least 32 bytes.
pub proof fn long_secrets_are_kept(secret: &Option<Vec<u8>>, r: bool)
    requires
        call_ensures(keep_secret, (secret,), r),
    ensures
        r <==> *secret is Some && (*secret)->0@.len() >= 32,
{
}

proof fn first_is_first(s: Seq<char>, c: char)
    ensures
        match first_at(s, c) {
            Some(i) => 0 <= i < s.len() && s[i] == c && forall|j: int| 0 <= j < i ==> s[j] != c,
            None => forall|j: int| 0 <= j < s.len() ==> s[j] != c,
        },
    decreases s.len(),
{
    if s.len() > 0 && s[0] != c {
        let t = s.skip(1);
        first_is_first(t, c);
        match first_at(t, c) {
            Some(i) => {
                assert forall|j: int| 0 <= j < i + 1 implies s[j] != c by {
                    if j > 0 {
                        assert(t[j - 1] == s[j]);
                    }
                }
            },
            None => {
                assert forall|j: int| 0 <= j < s.len() implies s[j] != c by {
                    if j > 0 {
                        assert(t[j - 1] == s[j]);
                    }
                }
            },
        }
    }
}

/// A character is found where it occurs first.
pub proof fn characters_are_found(v: &[char], c: char, r: Option<usize>)
    requires
        call_ensures(find, (v, c), r),
    ensures
        r is Some ==> r->0 < v@.len() && v@[r->0 as int] == c && forall|j: int|
            0 <= j < r->0 ==> v@[j] != c,
        r is None ==> forall|j: int| 0 <= j < v@.len() ==> v@[j] != c,
{
    first_is_first(v@, c);
}

/// A text stands at a place of another.
pub open spec fn stands_at(s: Seq<char>, p: Seq<char>, i: int) -> bool {
    0 <= i && i + p.len() <= s.len() && s.subrange(i, i + p.len()) == p
}

proof fn sub_is_first(s: Seq<char>, p: Seq<char>)
    ensures
        match sub_at(s, p) {
            Some(i) => stands_at(s, p, i) && forall|j: int|
                0 <= j < i ==> !#[trigger] stands_at(s, p, j),
            None => forall|j: int| !#[trigger] stands_at(s, p, j),
        },
    decreases s.len(),
{
    assert(p.len() <= s.len() ==> s.take(p.len() as int) =~= s.subrange(0, p.len() as int));
    if !crate::chars::begins(s, p) {
        assert(!stands_at(s, p, 0));
        if s.len() > 0 {
            let t = s.skip(1);
            sub_is_first(t, p);
            assert forall|j: int| j > 0 implies #[trigger] stands_at(s, p, j) == stands_at(
                t,
                p,
                j - 1,
            ) by {
                if j + p.len() <= s.len() {
                    assert(s.subrange(j, j + p.len()) =~= t.subrange(j - 1, j - 1 + p.len()));
                }
            }
            match sub_at(t, p) {
                Some(i) => {
                    assert(stands_at(s, p, i + 1) == stands_at(t, p, i));
                    assert forall|j: int| 0 <= j < i + 1 implies !#[trigger] stands_at(s, p, j) by {
                        if j > 0 {
                            assert(!stands_at(t, p, j - 1));
                        }
                    }
                },
                None => {
                    assert forall|j: int| !#[trigger] stands_at(s, p, j) by {
                        if j > 0 {
                            assert(!stands_at(t, p, j - 1));
                        }
                    }
                },
            }
        } else {
            assert forall|j: int| !#[trigger] stands_at(s, p, j) by {}
        }
    }
}

/// A text is found in another where it stands first.
pub proof fn texts_are_found(v: &[char], p: &str, r: Option<usize>)
    requires
        call_ensures(find_sub, (v, p), r),
    ensures
        r is Some ==> stands_at(v@, p@, r->0 as int) && forall|j: int|
            0 <= j < r->0 ==> !#[trigger] stands_at(v@, p@, j),
        r is None ==> forall|j: int| !#[trigger] stands_at(v@, p@, j),
{
    sub_is_first(v@, p@);
}

/// A VM on the command line is its name, an `=`, its endpoint, `,token=` and the token's path; the
/// name has no `=`, and the endpoint ends at the first `,token=`.
pub proof fn specs_are_taken_apart(spec: &str, r: Result<(String, VmConfig), SpecError>)
    requires
        call_ensures(parse_vm_spec, (spec,), r),
    ensures
        r is Ok ==> {
            let name = (r->Ok_0).0@;
            let c = (r->Ok_0).1;
            &&& spec@ == name + seq!['='] + (c.bridge@ + ",token="@ + c.token@)
            &&& forall|j: int| 0 <= j < name.len() ==> name[j] != '='
            &&& c.vm_uuid is None && c.autoattach && !c.automount
        },
        r is Err ==> (r->Err_0 is NoName <==> forall|j: int|
            0 <= j < spec@.len() ==> spec@[j] != '='),
{
    let s = spec@;
    let mark = ",token="@;
    first_is_first(s, '=');
    if r is Ok {
        let i = first_at(s, '=')->0;
        let rest = s.skip(i + 1);
        sub_is_first(rest, mark);
        let k = sub_at(rest, mark)->0;
        assert(rest =~= rest.take(k) + mark + rest.skip(k + mark.len())) by {
            assert(rest.subrange(k, k + mark.len()) == mark);
        }
        assert(s =~= s.take(i) + seq!['='] + rest);
    }
}

/// A guest fits where none is sought, or where it is the one that is sought.
pub proof fn sought_guests_fit(got: &Option<[u8; 16]>, want: &Option<[u8; 16]>, r: bool, m: bool)
    requires
        call_ensures(identity_ok, (got, want), r),
        call_ensures(uuid_matches, (got, want), m),
    ensures
        r <==> *want is None || (*got is Some && (*got)->0@ == (*want)->0@),
        m <==> *want is None || (*got is Some && (*got)->0@ == (*want)->0@),
{
}

/// The instance may be the VM that is sought.
pub open spec fn fits(h: Hunt, i: int) -> bool {
    h.expected is None || (h.instances@[i].vm_uuid is Some && h.instances@[i].vm_uuid->0@
        == h.expected->0@)
}

proof fn first_fit_is_first(h: Hunt, from: int)
    requires
        0 <= from,
    ensures
        match first_fit(h.instances@, h.expected, from) {
            Some(i) => from <= i < h.instances@.len() && fits(h, i) && forall|j: int|
                from <= j < i ==> !#[trigger] fits(h, j),
            None => forall|j: int| from <= j < h.instances@.len() ==> !#[trigger] fits(h, j),
        },
    decreases h.instances@.len() - from,
{
    if from < h.instances@.len() {
        let e = h.instances@[from];
        assert(crate::resolve::hunt::identity_fits(e.vm_uuid, h.expected) == fits(h, from));
        if !fits(h, from) {
            first_fit_is_first(h, from + 1);
        }
    }
}

/// The announced instances that may be it are tried in turn, then the host that it had last, once
/// and only where one is sought, then all addresses.
pub proof fn searches_go_in_turn(h: &mut Hunt, m: HuntMove)
    requires
        call_ensures(Hunt::step, (h,), m),
    ensures
        final(h).instances == old(h).instances && final(h).expected == old(h).expected && final(
            h).hint == old(h).hint,
        m is Instance ==> {
            &&& old(h).next <= m->Instance_0 < old(h).instances@.len()
            &&& fits(*old(h), m->Instance_0 as int)
            &&& forall|j: int| old(h).next <= j < m->Instance_0 ==> !#[trigger] fits(*old(h), j)
            &&& final(h).next == m->Instance_0 + 1
            &&& final(h).hinted == old(h).hinted
        },
        !(m is Instance) ==> forall|j: int|
            old(h).next <= j < old(h).instances@.len() ==> !#[trigger] fits(*old(h), j),
        m is Hint ==> !old(h).hinted && final(h).hinted && old(h).expected is Some && old(
            h).hint is Some,
        m is Scan ==> old(h).hinted || old(h).expected is None || old(h).hint is None,
{
    first_fit_is_first(*old(h), old(h).next as int);
    assert(old(h).instances.len() == old(h).instances@.len());
}

/// At most two messages are read of a guest that is asked who it is, and the second only where the
/// first was something else.
pub proof fn probes_read_two(frames: &Vec<ProbeFrame>, more: bool, id: Option<[u8; 16]>)
    requires
        call_ensures(probe_more, (frames,), more),
        call_ensures(probe_identity, (frames,), id),
    ensures
        more <==> frames@.len() == 0 || (frames@.len() == 1 && frames@[0] is Another),
        frames@.len() > 0 && frames@[0] is Identity ==> id == Some(frames@[0]->Identity_0),
        frames@.len() > 1 && frames@[0] is Another && frames@[1] is Identity ==> id == Some(
            frames@[1]->Identity_0,
        ),
        frames@.len() > 0 && frames@[0] is Broken ==> id is None,
        frames@.len() > 1 && !(frames@[0] is Identity) && !(frames@[1] is Identity) ==> id is None,
        frames@.len() == 0 ==> id is None,
{
}

/// A guest is taken that takes the token.
pub proof fn probes_need_the_token(reply: HelloReply, r: Result<(), SessionError>)
    requires
        call_ensures(probe_hello, (reply,), r),
    ensures
        r is Ok <==> reply is Ack,
        reply is AuthFail ==> r->Err_0 is Proto && r->Err_0->Proto_0@ == "auth rejected"@,
        reply is Unexpected ==> r->Err_0 is Proto && r->Err_0->Proto_0@ == "expected HelloAck"@,
{
}

/// The four numbers of an address are those that it was made of.
pub proof fn addresses_are_four_numbers(a: u8, b: u8, c: u8, d: u8, ip: Ipv4Addr, o: [u8; 4])
    requires
        call_ensures(Ipv4Addr::new, (a, b, c, d), ip),
        call_ensures(Ipv4Addr::octets, (&ip,), o),
    ensures
        o@[0] == a && o@[1] == b && o@[2] == c && o@[3] == d,
{
}

/// The private networks: 10.x, 172.16 to 172.31, and 192.168.
pub proof fn private_networks_are_told(a: u8, b: u8, c: u8, d: u8, ip: Ipv4Addr, r: bool)
    requires
        call_ensures(Ipv4Addr::new, (a, b, c, d), ip),
        call_ensures(is_private_v4, (ip,), r),
    ensures
        r <==> a == 10 || (a == 172 && 16 <= b <= 31) || (a == 192 && b == 168),
{
}

/// An address is on a bridge whose masked bits are the gateway's.
pub proof fn bridges_have_their_subnet(m: &VmnetModel, ip: Ipv4Addr, r: bool)
    requires
        call_ensures(VmnetModel::contains, (m, ip), r),
    ensures
        r <==> ip.bits & m.netmask.bits == m.gateway.bits & m.netmask.bits,
{
}

proof fn addrs_are_between(a: int, end: int, gw: int, cap: nat)
    requires
        0 <= a,
        end <= u32::MAX,
    ensures
        ({
            let l = addrs_from(a, end, gw, cap);
            &&& l.len() <= cap
            &&& forall|i: int| 0 <= i < l.len() ==> a <= (#[trigger] l[i]).bits < end && l[i].bits != gw
            &&& forall|i: int, j: int|
                0 <= i < j < l.len() ==> (#[trigger] l[i]).bits < (#[trigger] l[j]).bits
            &&& forall|ip: Ipv4Addr|
                l.len() < cap && a <= ip.bits < end && ip.bits != gw ==> #[trigger] l.contains(ip)
        }),
    decreases end - a,
{
    let l = addrs_from(a, end, gw, cap);
    if a < end && cap > 0 {
        if a == gw {
            addrs_are_between(a + 1, end, gw, cap);
        } else {
            addrs_are_between(a + 1, end, gw, (cap - 1) as nat);
            let t = addrs_from(a + 1, end, gw, (cap - 1) as nat);
            assert(l[0].bits == a);
            assert forall|i: int| 0 <= i < l.len() implies a <= (#[trigger] l[i]).bits < end
                && l[i].bits != gw by {
                if i > 0 {
                    assert(l[i] == t[i - 1]);
                }
            }
            assert forall|i: int, j: int| 0 <= i < j < l.len() implies (#[trigger] l[i]).bits < (
            #[trigger] l[j]).bits by {
                assert(l[j] == t[j - 1]);
                if i > 0 {
                    assert(l[i] == t[i - 1]);
                }
            }
            assert forall|ip: Ipv4Addr|
                l.len() < cap && a <= ip.bits < end && ip.bits != gw implies #[trigger] l.contains(
                ip,
            ) by {
                if ip.bits == a {
                    assert(l[0] == ip);
                } else {
                    assert(t.contains(ip));
                    let k = choose|k: int| 0 <= k < t.len() && t[k] == ip;
                    assert(l[k + 1] == ip);
                }
            }
        }
    }
}

/// The addresses that a VM could have lie strictly between the first and the last of the subnet,
/// rise, and leave out the gateway's; below the cap none is missing.
pub proof fn candidates_lie_in_the_subnet(
    m: &VmnetModel,
    cap: usize,
    list: Vec<Ipv4Addr>,
    i: int,
    x: u32,
)
    requires
        call_ensures(VmnetModel::candidate_ips, (m, cap), list),
    ensures
        ({
            let first = m.gateway.bits & m.netmask.bits;
            let last = first | !m.netmask.bits;
            &&& list@.len() <= cap
            &&& 0 <= i < list@.len() ==> first < list@[i].bits < last && list@[i].bits
                != m.gateway.bits
            &&& 0 < i < list@.len() ==> list@[i - 1].bits < list@[i].bits
            &&& list@.len() < cap && first < x < last && x != m.gateway.bits ==> list@.contains(
                Ipv4Addr { bits: x },
            )
        }),
{
    addrs_are_between(
        m.net() + 1,
        m.broadcast() as int,
        m.gateway.bits as int,
        cap as nat,
    );
    if 0 < i < list@.len() {
        assert(list@[i - 1].bits < list@[i].bits);
    }
    if 0 <= i < list@.len() {
        assert(m.net() + 1 <= list@[i].bits);
    }
}

/// The address is known and on the bridge.
pub open spec fn known_on(m: VmnetModel, ips: Seq<Ipv4Addr>, ip: Ipv4Addr) -> bool {
    ips.contains(ip) && ip.bits & m.netmask.bits == m.gateway.bits & m.netmask.bits
}

proof fn on_bridge_adds(list: Seq<Ipv4Addr>, m: VmnetModel, ips: Seq<Ipv4Addr>)
    requires
        list.no_duplicates(),
    ensures
        on_bridge(list, m, ips).no_duplicates(),
        forall|ip: Ipv4Addr| #[trigger]
            on_bridge(list, m, ips).contains(ip) <==> list.contains(ip) || known_on(m, ips, ip),
    decreases ips.len(),
{
    if ips.len() > 0 {
        let p = ips.drop_last();
        let last = ips.last();
        on_bridge_adds(list, m, p);
        let b = on_bridge(list, m, p);
        let a = on_bridge(list, m, ips);
        assert forall|ip: Ipv4Addr| #[trigger] ips.contains(ip) <==> p.contains(ip) || ip == last by {
            if ips.contains(ip) {
                let k = choose|k: int| 0 <= k < ips.len() && ips[k] == ip;
                if k < p.len() {
                    assert(p[k] == ip);
                }
            }
            if p.contains(ip) {
                let k = choose|k: int| 0 <= k < p.len() && p[k] == ip;
                assert(ips[k] == ip);
            }
            if ip == last {
                assert(ips[ips.len() - 1] == ip);
            }
        }
        assert forall|ip: Ipv4Addr| #[trigger] b.push(last).contains(ip) <==> b.contains(ip) || ip
            == last by {
            if b.push(last).contains(ip) {
                let k = choose|k: int| 0 <= k < b.push(last).len() && b.push(last)[k] == ip;
                if k < b.len() {
                    assert(b[k] == ip);
                }
            }
            if b.contains(ip) {
                let k = choose|k: int| 0 <= k < b.len() && b[k] == ip;
                assert(b.push(last)[k] == ip);
            }
            if ip == last {
                assert(b.push(last)[b.len() as int] == ip);
            }
        }
        assert forall|ip: Ipv4Addr| #[trigger] a.contains(ip) <==> list.contains(ip) || known_on(
            m,
            ips,
            ip,
        ) by {
            assert(ips.contains(ip) <==> p.contains(ip) || ip == last);
            assert(b.push(last).contains(ip) <==> b.contains(ip) || ip == last);
            assert(b.contains(ip) <==> list.contains(ip) || known_on(m, p, ip));
            assert(b.contains(last) <==> list.contains(last) || known_on(m, p, last));
        }
    }
}

proof fn on_bridges_gathers(models: Seq<VmnetModel>, ips: Seq<Ipv4Addr>)
    ensures
        on_bridges(models, ips).no_duplicates(),
        forall|ip: Ipv4Addr| #[trigger]
            on_bridges(models, ips).contains(ip) <==> exists|k: int|
                0 <= k < models.len() && known_on(#[trigger] models[k], ips, ip),
    decreases models.len(),
{
    if models.len() > 0 {
        let p = models.drop_last();
        let n = models.len() - 1;
        on_bridges_gathers(p, ips);
        on_bridge_adds(on_bridges(p, ips), models.last(), ips);
        let a = on_bridges(models, ips);
        assert forall|ip: Ipv4Addr| #[trigger] a.contains(ip) <==> exists|k: int|
            0 <= k < models.len() && known_on(#[trigger] models[k], ips, ip) by {
            if on_bridges(p, ips).contains(ip) {
                let k = choose|k: int| 0 <= k < p.len() && known_on(#[trigger] p[k], ips, ip);
                assert(models[k] == p[k]);
            }
            if known_on(models.last(), ips, ip) {
                assert(models[n] == models.last());
            }
            if exists|k: int| 0 <= k < models.len() && known_on(#[trigger] models[k], ips, ip) {
                let k = choose|k: int|
                    0 <= k < models.len() && known_on(#[trigger] models[k], ips, ip);
                if k < n {
                    assert(p[k] == models[k]);
                    assert(on_bridges(p, ips).contains(ip));
                }
            }
        }
    }
}

/// The addresses to try are those of the leases and the ARP table that are on one of the bridges,
/// each once; where there is none, those of the first bridge's subnet.
pub proof fn known_addresses_are_tried(
    models: &Vec<VmnetModel>,
    leases: &Vec<Lease>,
    arp: &Vec<Ipv4Addr>,
    list: Vec<Ipv4Addr>,
    ips: Seq<Ipv4Addr>,
    ip: Ipv4Addr,
)
    requires
        call_ensures(candidates, (models, leases, arp), list),
        ips == Seq::new(leases@.len(), |i: int| leases@[i].ip) + arp@,
    ensures
        (exists|k: int| 0 <= k < models@.len() && known_on(#[trigger] models@[k], ips, ip))
            ==> list@.contains(ip),
        (exists|k: int, y: Ipv4Addr|
            0 <= k < models@.len() && #[trigger] known_on(models@[k], ips, y)) && list@.contains(ip)
            ==> exists|k: int| 0 <= k < models@.len() && known_on(#[trigger] models@[k], ips, ip),
        models@.len() == 0 ==> list@.len() == 0,
        list@.no_duplicates(),
{
    on_bridges_gathers(models@, ips);
    let l = on_bridges(models@, ips);
    if exists|k: int, y: Ipv4Addr| 0 <= k < models@.len() && #[trigger] known_on(
        models@[k],
        ips,
        y,
    ) {
        let (k, y) = choose|k: int, y: Ipv4Addr|
            0 <= k < models@.len() && #[trigger] known_on(models@[k], ips, y);
        assert(l.contains(y));
        assert(l.len() > 0);
    }
    if l.len() == 0 && models@.len() > 0 {
        let m = models@[0];
        addrs_are_between(m.net() + 1, m.broadcast() as int, m.gateway.bits as int, 256);
        if exists|k: int| 0 <= k < models@.len() && known_on(#[trigger] models@[k], ips, ip) {
            assert(l.contains(ip));
        }
        assert(list@.no_duplicates());
    }
}

proof fn split_joins(s: Seq<char>, c: char)
    ensures
        split(s, c).len() > 0,
        (forall|i: int| 0 <= i < s.len() ==> s[i] != c) ==> split(s, c) == seq![s],
    decreases s.len(),
{
    if s.len() > 0 {
        let t = s.skip(1);
        split_joins(t, c);
        if forall|i: int| 0 <= i < s.len() ==> s[i] != c {
            assert forall|i: int| 0 <= i < t.len() implies t[i] != c by {
                assert(s[i + 1] == t[i]);
            }
            assert(s[0] != c);
            assert(seq![s[0]] + t =~= s);
            assert(split(s, c) =~= seq![s]);
        }
    } else {
        assert(s =~= Seq::<char>::empty());
        assert(split(s, c) =~= seq![s]);
    }
}

proof fn split_at_mark(a: Seq<char>, c: char, b: Seq<char>)
    requires
        forall|i: int| 0 <= i < a.len() ==> a[i] != c,
    ensures
        split(a + seq![c] + b, c) == seq![a] + split(b, c),
    decreases a.len(),
{
    let s = a + seq![c] + b;
    if a.len() == 0 {
        assert(s.skip(1) =~= b);
        assert(a =~= Seq::<char>::empty());
        assert(split(s, c) =~= seq![a] + split(b, c));
    } else {
        let t = a.skip(1);
        assert forall|i: int| 0 <= i < t.len() implies t[i] != c by {
            assert(a[i + 1] == t[i]);
        }
        assert(s.skip(1) =~= t + seq![c] + b);
        split_at_mark(t, c, b);
        assert(s[0] == a[0]);
        assert(seq![a[0]] + t =~= a);
        let rest = split(s.skip(1), c);
        assert(rest[0] == t);
        assert(split(s, c) =~= seq![a] + split(b, c));
    }
}

/// A text is split at each mark: what comes before the first is the first part, and what follows
/// is split on.
pub proof fn texts_are_split(v: &[char], c: char, list: Vec<Vec<char>>, a: Seq<char>, b: Seq<char>)
    requires
        call_ensures(split_on, (v, c), list),
        forall|i: int| 0 <= i < a.len() ==> a[i] != c,
        v@ == a + seq![c] + b || (v@ == a && b.len() == 0),
    ensures
        list@.len() > 0,
        list@[0]@ == a,
        v@ == a ==> list@.len() == 1,
        v@ == a + seq![c] + b && (forall|i: int| 0 <= i < b.len() ==> b[i] != c) ==> list@.len()
            == 2 && list@[1]@ == b,
{
    let p = split(v@, c);
    assert(p.len() == list@.len());
    if v@ == a + seq![c] + b {
        split_at_mark(a, c, b);
        split_joins(b, c);
        assert(v@ != a) by {
            assert(v@.len() > a.len());
        }
    } else {
        split_joins(a, c);
    }
    assert(p[0] == list@[0]@);
    if list@.len() == 2 {
        assert(p[1] == list@[1]@);
    }
}

/// A line without the carriage return at its end.
pub open spec fn without_return(l: Seq<char>) -> Seq<char> {
    if l.len() > 0 && l[l.len() - 1] == '\r' {
        l.take(l.len() - 1)
    } else {
        l
    }
}

/// The first line of a text is what comes before the first line end, without a carriage return; the
/// other lines are those of the rest.
pub proof fn lines_are_told(
    v: &[char],
    list: Vec<Vec<char>>,
    a: Seq<char>,
    b: &[char],
    rest: Vec<Vec<char>>,
    i: int,
)
    requires
        call_ensures(lines_of, (v,), list),
        call_ensures(lines_of, (b,), rest),
        forall|k: int| 0 <= k < a.len() ==> a[k] != '\n',
        v@ == a + seq!['\n'] + b@,
    ensures
        list@.len() == rest@.len() + 1,
        list@[0]@ == without_return(a),
        0 <= i < rest@.len() ==> list@[i + 1]@ == rest@[i]@,
{
    split_at_mark(a, '\n', b@);
    split_joins(b@, '\n');
    let p = split(b@, '\n');
    let q = split(v@, '\n');
    assert(q.drop_last() =~= seq![a] + p.drop_last());
    assert(q.last() == p.last());
    let x = lines(v@);
    let y = lines(b@);
    assert(a.drop_last() =~= a.take(a.len() - 1) || a.len() == 0);
    assert(x =~= seq![without_return(a)] + y) by {
        let f = |l: Seq<char>| chomp(l);
        assert(q.drop_last().map_values(f) =~= seq![chomp(a)] + p.drop_last().map_values(f));
    }
    assert(views(list@) == x && views(rest@) == y);
    assert(list@.len() == x.len() && rest@.len() == y.len());
    assert(x[0] == list@[0]@);
    if 0 <= i < rest@.len() {
        assert(x[i + 1] == list@[i + 1]@);
        assert(y[i] == rest@[i]@);
    }
}

/// A text without a line end is one line, and an empty text has none.
pub proof fn last_lines_are_told(v: &[char], list: Vec<Vec<char>>)
    requires
        call_ensures(lines_of, (v,), list),
        forall|k: int| 0 <= k < v@.len() ==> v@[k] != '\n',
    ensures
        v@.len() == 0 ==> list@.len() == 0,
        v@.len() > 0 ==> list@.len() == 1 && list@[0]@ == v@,
{
    split_joins(v@, '\n');
    let x = lines(v@);
    assert(views(list@) == x);
    assert(list@.len() == x.len());
    if v@.len() > 0 {
        assert(x[0] == list@[0]@);
    }
}

proof fn word_ends(a: Seq<char>, c: char, b: Seq<char>)
    requires
        forall|k: int| 0 <= k < a.len() ==> !space(a[k]),
        space(c),
    ensures
        word_end(a + seq![c] + b) == a.len(),
    decreases a.len(),
{
    let s = a + seq![c] + b;
    if a.len() > 0 {
        let t = a.skip(1);
        assert forall|k: int| 0 <= k < t.len() implies !space(t[k]) by {
            assert(a[k + 1] == t[k]);
        }
        assert(s.skip(1) =~= t + seq![c] + b);
        word_ends(t, c, b);
        assert(s[0] == a[0]);
    } else {
        assert(s[0] == c);
    }
}

proof fn space_goes(c: char, b: Seq<char>)
    requires
        space(c),
    ensures
        words(seq![c] + b) == words(b),
{
    let s = seq![c] + b;
    assert(s.skip(1) =~= b);
    assert(trim_start(s) == trim_start(b));
    trim_start_shrinks(b);
}

/// The first word of a text is what comes before the first space, and the others are those of the rest.
pub proof fn words_are_told(
    v: &[char],
    list: Vec<Vec<char>>,
    a: Seq<char>,
    c: char,
    b: &[char],
    rest: Vec<Vec<char>>,
    i: int,
)
    requires
        call_ensures(words_of, (v,), list),
        call_ensures(words_of, (b,), rest),
        a.len() > 0,
        forall|k: int| 0 <= k < a.len() ==> !space(a[k]),
        space(c),
        v@ == a + seq![c] + b@,
    ensures
        list@.len() == rest@.len() + 1,
        list@[0]@ == a,
        0 <= i < rest@.len() ==> list@[i + 1]@ == rest@[i]@,
{
    let s = v@;
    word_ends(a, c, b@);
    assert(s[0] == a[0]);
    assert(trim_start(s) == s);
    assert(s.take(a.len() as int) =~= a);
    assert(s.skip(a.len() as int) =~= seq![c] + b@);
    space_goes(c, b@);
    let x = words(s);
    let y = words(b@);
    assert(x == seq![a] + y);
    assert(views(list@) == x && views(rest@) == y);
    assert(list@.len() == x.len() && rest@.len() == y.len());
    assert(x[0] == list@[0]@);
    if 0 <= i < rest@.len() {
        assert(x[i + 1] == list@[i + 1]@);
        assert(y[i] == rest@[i]@);
    }
}

/// A token lies where the configuration says, under the state directory after an `@`.
pub proof fn tokens_lie_where_it_says(c: &VmConfig, state: &str, r: String)
    requires
        call_ensures(VmConfig::resolved_token, (c, state), r),
    ensures
        c.token@.len() > 0 && c.token@[0] == '@' ==> r@ == joined(state@, c.token@.skip(1)),
        c.token@.len() == 0 || c.token@[0] != '@' ==> r@ == c.token@,
{
    joined_is_under(state@, c.token@.skip(1));
}

/// A share is mounted under its VM's name and its own.
pub proof fn shares_are_mounted_by_name(root: &str, vm: &str, share: &str, r: String)
    requires
        call_ensures(mountpoint_of, (root, vm, share), r),
    ensures
        r@ == joined(joined(root@, vm@), share@),
{
    joined_is_under(root@, vm@);
    joined_is_under(joined(root@, vm@), share@);
}

/// An identity is expected that is written in thirty-two hexadecimal digits.
pub proof fn written_identities_are_expected(
    c: &VmConfig,
    r: Option<[u8; 16]>,
    s: &[char],
    b: Vec<u8>,
    digits: &[u8],
    u: Option<[u8; 16]>,
)
    requires
        call_ensures(VmConfig::expected_uuid, (c,), r),
        c.vm_uuid is Some ==> s@ == c.vm_uuid->0@,
        call_ensures(ascii_bytes, (s,), b),
        digits@ == b@,
        call_ensures(vm_uuid_from_hex, (digits,), u),
    ensures
        c.vm_uuid is None ==> r is None,
        c.vm_uuid is Some ==> (r is Some <==> u is Some),
        c.vm_uuid is Some && u is Some ==> r->0@ == u->0@,
{
}

} // verus!
