use mist::config::{
    default_config_path, mount_root, parse_vm_spec, resolve_at, resolve_at_under, state_dir,
    Config, Daemon, SpecError, VmConfig,
};
use mist::config_writer::{upsert_vm, upsert_vm_no_uuid, uuid_string, UpsertError, VmBinding};
use mist::conflicts::ConflictTracker;
use mist::resolve::hunt::{
    degraded_detail, identity_ok, probe_hello, probe_identity, probe_more, uuid_matches,
    CachedHint, HuntMove, ProbeFrame, Resolver,
};
use mist::resolve::mdns::{parse_dns_sd_browse, parse_dns_sd_resolve, MdnsInstance, TCP_PORT};
use mist::resolve::net::{is_private_v4, is_vmnet_bridge_name, Ipv4Addr, VmnetModel};
use mist::resolve::scan::{candidates, parse_arp, parse_dhcpd_leases};
use mist::session::link::{
    cached_endpoints, endpoint_display, hello_done, identity_gate, pause, short_token, token_hash,
    AfterHello, Gate, HelloReply, SessionError, Told,
};
use mist::types::NodeKey;

const N: NodeKey = NodeKey {
    ino: 42,
    generation: 7,
};

#[test]
fn guest_then_mac_conflicts() {
    let mut t = ConflictTracker::new();
    t.note_guest(1, N, Some("/f".into()), 1000, 5);
    t.note_mac(1, N, Some("/f".into()), "write", 1001, 6);
    let rows = t.list();
    assert_eq!(rows.len(), 1);
    assert_eq!(rows[0].kind, "mac-over-guest");
    assert_eq!(rows[0].at_unix_ms, 6);
    assert_eq!(
        rows[0].detail,
        "Mac write ≤5s after a guest-side change; last-close-wins → Mac version kept"
    );
    assert_eq!(t.total(), 1);
}

#[test]
fn mac_then_guest_conflicts() {
    let mut t = ConflictTracker::new();
    t.note_mac(1, N, None, "write", 1000, 5);
    t.note_guest(1, N, None, 1000, 5);
    assert_eq!(t.list()[0].kind, "guest-over-mac");
}

#[test]
fn distinct_nodes_do_not_conflict() {
    let mut t = ConflictTracker::new();
    t.note_mac(1, N, None, "write", 0, 0);
    t.note_guest(
        1,
        NodeKey {
            ino: 43,
            generation: 7,
        },
        None,
        0,
        0,
    );
    t.note_guest(2, N, None, 0, 0);
    assert!(t.list().is_empty());
}

#[test]
fn changes_far_apart_do_not_conflict() {
    let mut t = ConflictTracker::new();
    t.note_mac(1, N, None, "write", 0, 0);
    t.note_guest(1, N, None, 5001, 5001);
    assert_eq!(t.total(), 0);
    t.note_mac(1, N, None, "write", 10_001, 10_001);
    assert_eq!(t.total(), 1);
}

#[test]
fn conflict_log_drops_the_oldest() {
    let mut t = ConflictTracker::new();
    for i in 0..1030u64 {
        t.note_guest(1, N, None, 0, 0);
        t.note_mac(1, N, None, "write", 0, i);
    }
    assert_eq!(t.list().len(), 1024);
    assert!(t.total() > 1024);
    let last = t.list().len() - 1;
    assert_eq!(t.list()[last].at_unix_ms, 1029);
}

fn vm(bridge: &str, token: &str, uuid: Option<&str>) -> VmConfig {
    VmConfig {
        bridge: bridge.into(),
        token: token.into(),
        vm_uuid: uuid.map(|u| u.into()),
        autoattach: true,
        automount: false,
    }
}

#[test]
fn auto_and_token_resolution() {
    let vm = vm("auto", "@vms/dev.token", Some("4f2b0b30a9d84f8ab5c40122c7be1c13"));
    assert!(vm.is_auto());
    assert_eq!(
        vm.expected_uuid().map(|u| uuid_string(&u)),
        Some("4f2b0b30a9d84f8ab5c40122c7be1c13".to_string())
    );
    assert_eq!(
        resolve_at_under("/tmp/mist-state", &vm.token),
        "/tmp/mist-state/vms/dev.token"
    );
}

#[test]
fn fixed_bridge_is_not_auto() {
    let vm = vm("tcp:1.2.3.4:6478", "/etc/t", None);
    assert!(!vm.is_auto());
    assert_eq!(vm.resolved_token("/state"), "/etc/t");
    assert_eq!(vm.expected_uuid(), None);
}

#[test]
fn auto_is_told_in_any_case() {
    assert!(vm("AuTo", "", None).is_auto());
    assert!(!vm("autos", "", None).is_auto());
}

#[test]
fn paths_of_the_daemon() {
    assert_eq!(resolve_at("/s", "@a/b"), "/s/a/b");
    assert_eq!(resolve_at("/s", "@/abs"), "/abs");
    assert_eq!(state_dir(Some("/x"), "/home/u"), "/x");
    assert_eq!(
        state_dir(None, "/home/u"),
        "/home/u/Library/Application Support/Mist"
    );
    assert_eq!(default_config_path("/s/"), "/s/config.toml");
    assert_eq!(mount_root(None, "/home/u"), "/home/u/Mist");
    assert_eq!(mount_root(Some("/m"), "/home/u"), "/m");
    let c = Config::empty();
    assert_eq!(c.daemon.cache_max_bytes, 20 << 30);
    assert_eq!(c.control_path("/s"), "/s/control.sock");
    assert_eq!(c.cas_dir("/s", "dev").as_deref(), Some("/s/cas/dev"));
    let off = Config {
        daemon: Daemon {
            cache_max_bytes: 0,
            ..Daemon::default()
        },
        ..Config::empty()
    };
    assert_eq!(off.cas_dir("/s", "dev"), None);
}

#[test]
fn vm_given_on_the_command_line() {
    let (name, c) = parse_vm_spec("dev=tcp:1.2.3.4:5,token=/etc/t").unwrap();
    assert_eq!(name, "dev");
    assert_eq!(c.bridge, "tcp:1.2.3.4:5");
    assert_eq!(c.token, "/etc/t");
    assert!(c.autoattach);
    assert_eq!(parse_vm_spec("dev").err(), Some(SpecError::NoName));
    assert_eq!(parse_vm_spec("dev=tcp:x").err(), Some(SpecError::NoToken));
}

const UUID: [u8; 16] = [
    0x4f, 0x2b, 0x0b, 0x30, 0xa9, 0xd8, 0x4f, 0x8a, 0xb5, 0xc4, 0x01, 0x22, 0xc7, 0xbe, 0x1c, 0x13,
];

fn binding(name: &str) -> VmBinding {
    VmBinding {
        name: name.into(),
        bridge: "auto".into(),
        vm_uuid: UUID,
        token: format!("@vms/{name}.token"),
    }
}

fn parsed(text: &str) -> toml::Value {
    toml::from_str(text).unwrap()
}

fn vm_of(v: &toml::Value, name: &str) -> VmConfig {
    let t = &v["vm"][name];
    VmConfig {
        bridge: t["bridge"].as_str().unwrap().into(),
        token: t["token"].as_str().unwrap().into(),
        vm_uuid: t.get("vm_uuid").and_then(|u| u.as_str()).map(|u| u.into()),
        autoattach: true,
        automount: t.get("automount").and_then(|a| a.as_bool()).unwrap_or(false),
    }
}

#[test]
fn writes_expected_block() {
    let out = upsert_vm("", &binding("dev")).unwrap();
    let cfg = parsed(&out);
    let vm = vm_of(&cfg, "dev");
    assert_eq!(vm.bridge, "auto");
    assert!(vm.is_auto());
    assert_eq!(vm.expected_uuid(), Some(UUID));
    assert_eq!(vm.token, "@vms/dev.token");
    assert!(vm.automount);
}

#[test]
fn preserves_other_vms_and_comments() {
    let existing = "\
# my mist config
[daemon]
cache_max_bytes = 1073741824

[vm.other]
bridge = \"tcp:1.2.3.4:6478\"
token = \"/etc/mist/other.token\"
";
    let out = upsert_vm(existing, &binding("dev")).unwrap();
    assert!(out.contains("# my mist config"), "comment preserved");
    assert!(out.contains("cache_max_bytes = 1073741824"));
    let cfg = parsed(&out);
    assert_eq!(vm_of(&cfg, "other").bridge, "tcp:1.2.3.4:6478");
    assert_eq!(vm_of(&cfg, "dev").bridge, "auto");
    assert_eq!(cfg["daemon"]["cache_max_bytes"].as_integer(), Some(1_073_741_824));
}

#[test]
fn replaces_existing_block_idempotently() {
    let first = upsert_vm("", &binding("dev")).unwrap();
    let second = upsert_vm(&first, &binding("dev")).unwrap();
    let cfg = parsed(&second);
    assert_eq!(cfg["vm"].as_table().unwrap().len(), 1, "no duplicate [vm.dev] block");
    assert_eq!(vm_of(&cfg, "dev").expected_uuid(), Some(UUID));
}

#[test]
fn rejects_malformed_existing() {
    assert!(matches!(
        upsert_vm("this is = = not toml", &binding("dev")),
        Err(UpsertError::Malformed(_))
    ));
}

#[test]
fn rejects_vm_that_is_no_table() {
    assert!(matches!(
        upsert_vm("vm = 3\n", &binding("dev")),
        Err(UpsertError::NotTable)
    ));
    assert!(matches!(
        upsert_vm_no_uuid("[[vm]]\na = 1\n", "dev", "@t"),
        Err(UpsertError::NotTable)
    ));
}

#[test]
fn text_around_the_block_is_kept() {
    let existing = "\
# top
[daemon]
cache_max_bytes = 0x40000000 # one gibibyte
ratio = 1.50

# this one goes
[vm.dev]
bridge = \"old\"
extra = 7

# the other
[vm.other]
bridge = 'tcp:1.2.3.4:6478'
tags = [ 1, 2 ]
# the end
";
    let out = upsert_vm(existing, &binding("dev")).unwrap();
    let (head, rest) = existing.split_once("\n# this one goes\n").unwrap();
    let (_, tail) = rest.split_once("extra = 7\n").unwrap();
    assert!(out.starts_with(head));
    assert!(out.ends_with(tail));
    let block = &out[head.len()..out.len() - tail.len()];
    assert_eq!(
        block,
        format!(
            "\n[vm.dev]\nbridge = \"auto\"\nvm_uuid = \"{}\"\ntoken = \"@vms/dev.token\"\nautomount = true\n",
            uuid_string(&UUID)
        )
    );
}

#[test]
fn deeper_tables_and_arrays_are_kept() {
    let existing = "\
[vm.other]
bridge = \"auto\"
[vm.other.extra] # deep
a.b = 1
[[site]]
# first
name = 'x'
[[site]] # second
name = 'y'
[vm.dev.old]
gone = true
# end";
    let out = upsert_vm_no_uuid(existing, "dev", "@t").unwrap();
    let cfg = parsed(&out);
    assert_eq!(cfg["vm"]["other"]["extra"]["a"]["b"].as_integer(), Some(1));
    assert_eq!(cfg["site"][1]["name"].as_str(), Some("y"));
    assert_eq!(cfg["vm"]["dev"].get("old"), None);
    assert_eq!(cfg["vm"]["dev"]["token"].as_str(), Some("@t"));
    for piece in ["[vm.other.extra] # deep\n", "# first\n", "[[site]] # second\n"] {
        assert!(out.contains(piece), "{piece}");
    }
    assert!(out.ends_with("# end"));
}

/// A table that gets rows from another's dotted keys, and a header only when it is written, can
/// come too late in the text.
#[test]
fn what_would_not_be_toml_is_refused() {
    let existing = "[vm.z.q]\n[vm.a.b]\n[vm]\na.c.d = 1\n[vm.a.c.x]\n[vm.z.r]\n";
    assert!(matches!(
        upsert_vm_no_uuid(existing, "dev", "@t"),
        Err(UpsertError::Garbled)
    ));
}

#[test]
fn texts_with_too_many_quotes_are_refused() {
    for q in ["'", "\""] {
        let mut b = binding("dev");
        b.token = q.repeat(255);
        let out = upsert_vm("", &b).unwrap();
        assert_eq!(vm_of(&parsed(&out), "dev").token, q.repeat(255));
        b.token = q.repeat(256);
        assert!(matches!(upsert_vm("", &b), Err(UpsertError::Quotes)));
        assert!(matches!(
            upsert_vm("= not toml", &b),
            Err(UpsertError::Malformed(_))
        ));
        assert!(matches!(
            upsert_vm("vm = 3", &b),
            Err(UpsertError::NotTable)
        ));
        let mixed = format!("{}x{}", q.repeat(200), q.repeat(200));
        assert!(upsert_vm_no_uuid("", "dev", &mixed).is_ok());
        assert!(matches!(
            upsert_vm_no_uuid("", "dev", &format!("a{}b", q.repeat(300))),
            Err(UpsertError::Quotes)
        ));
    }
}

#[test]
fn block_without_identity() {
    let out = upsert_vm_no_uuid("vm.old.bridge = \"auto\"\n", "dev", "@vms/dev.token").unwrap();
    let cfg = parsed(&out);
    let vm = vm_of(&cfg, "dev");
    assert_eq!(vm.bridge, "auto");
    assert_eq!(vm.vm_uuid, None);
    assert_eq!(vm.token, "@vms/dev.token");
    assert_eq!(cfg["vm"]["old"]["bridge"].as_str(), Some("auto"));
}

#[test]
fn dhcpd_leases_parse_by_name() {
    let text = "\
{
\tname=darekhta-debian
\tip_address=192.168.64.2
\thw_address=1,a1:b2:c3:d4:e5:f6
\tidentifier=1,a1:b2:c3:d4:e5:f6
\tlease=0x6890abcd
}
{
\tname=other
\tip_address=192.168.64.7
}
";
    let leases = parse_dhcpd_leases(text);
    assert_eq!(leases.len(), 2);
    assert_eq!(leases[0].name.as_deref(), Some("darekhta-debian"));
    assert_eq!(leases[0].ip, Ipv4Addr::new(192, 168, 64, 2));
    assert_eq!(leases[1].ip, Ipv4Addr::new(192, 168, 64, 7));
}

#[test]
fn lease_without_address_is_none() {
    assert!(parse_dhcpd_leases("{\nname=a\n}\n").is_empty());
    assert!(parse_dhcpd_leases("{\nip_address=1.2.3.400\n}\n").is_empty());
    assert!(parse_dhcpd_leases("{\nip_address=1.2.3.04\n}\n").is_empty());
}

#[test]
fn arp_parse_extracts_ips() {
    let text = "\
? (192.168.64.1) at 0:1:2:3:4:5 on bridge100 ifscope [ethernet]
? (192.168.64.2) at a1:b2:c3:d4:e5:f6 on bridge100 ifscope [ethernet]
? (192.168.64.2) at a1:b2:c3:d4:e5:f6 on bridge100 ifscope [ethernet]
";
    let ips = parse_arp(text);
    assert_eq!(
        ips,
        vec![
            Ipv4Addr::new(192, 168, 64, 1),
            Ipv4Addr::new(192, 168, 64, 2)
        ]
    );
}

fn bridge100() -> VmnetModel {
    VmnetModel {
        iface: "bridge100".into(),
        gateway: Ipv4Addr::new(192, 168, 64, 1),
        netmask: Ipv4Addr::new(255, 255, 255, 0),
    }
}

#[test]
fn vmnet_subnet_membership() {
    let m = bridge100();
    assert!(m.contains(Ipv4Addr::new(192, 168, 64, 200)));
    assert!(!m.contains(Ipv4Addr::new(192, 168, 65, 1)));
    let cands = m.candidate_ips(1000);
    assert_eq!(cands.len(), 253);
    assert!(!cands.contains(&m.gateway));
    assert!(cands.contains(&Ipv4Addr::new(192, 168, 64, 2)));
    assert_eq!(m.candidate_ips(3).len(), 3);
}

#[test]
fn known_addresses_come_first() {
    let leases = parse_dhcpd_leases("{\nip_address=192.168.64.9\n}\n{\nip_address=10.0.0.1\n}\n");
    let arp = parse_arp("? (192.168.64.9) at x\n? (192.168.64.3) at x\n");
    let models = vec![bridge100()];
    assert_eq!(
        candidates(&models, &leases, &arp),
        vec![Ipv4Addr::new(192, 168, 64, 9), Ipv4Addr::new(192, 168, 64, 3)]
    );
    assert_eq!(candidates(&models, &Vec::new(), &Vec::new()).len(), 253);
    assert!(candidates(&Vec::new(), &leases, &arp).is_empty());
    let last = VmnetModel {
        iface: "bridge100".into(),
        gateway: Ipv4Addr::new(255, 255, 255, 255),
        netmask: Ipv4Addr::new(255, 255, 255, 255),
    };
    let found = candidates(&vec![last, bridge100()], &Vec::new(), &arp);
    assert_eq!(found, candidates(&vec![bridge100()], &Vec::new(), &arp));
    assert!(!found.is_empty());
}

#[test]
fn bridge_name_matching() {
    assert!(is_vmnet_bridge_name("bridge100"));
    assert!(is_vmnet_bridge_name("bridge105"));
    assert!(!is_vmnet_bridge_name("bridge0"));
    assert!(!is_vmnet_bridge_name("bridge10"));
    assert!(!is_vmnet_bridge_name("en0"));
    assert!(!is_vmnet_bridge_name("bridge1000"));
}

#[test]
fn private_addresses() {
    assert!(is_private_v4(Ipv4Addr::new(10, 1, 2, 3)));
    assert!(is_private_v4(Ipv4Addr::new(172, 31, 0, 1)));
    assert!(is_private_v4(Ipv4Addr::new(192, 168, 0, 1)));
    assert!(!is_private_v4(Ipv4Addr::new(172, 32, 0, 1)));
    assert!(!is_private_v4(Ipv4Addr::new(8, 8, 8, 8)));
    assert_eq!(Ipv4Addr::new(1, 2, 3, 4).octets(), [1, 2, 3, 4]);
}

#[test]
fn dns_sd_browse_parse() {
    let out = "\
DATE: ---Sat 14 Jun 2026---
10:00:00.000  ...STARTING...
Timestamp     A/R    Flags  if Domain   Service Type     Instance Name
10:00:01.234  Add        3   9 local.   _mist._tcp.      darekhta-debian
10:00:01.235  Add        2   9 local.   _mist._tcp.      lab vm two
";
    let names = parse_dns_sd_browse(out);
    assert!(names.contains(&"darekhta-debian".to_string()));
    assert!(names.contains(&"lab vm two".to_string()));
    assert_eq!(names.len(), 2);
}

#[test]
fn removal_of_an_instance_named_add() {
    let out = "10:00:03.000  Rmv        0   9 local.   _mist._tcp.      Add\n";
    assert!(parse_dns_sd_browse(out).is_empty());
    let out = "10:00:03.000  Add        0   9 local.   _mist._tcp.      Add\n";
    assert_eq!(parse_dns_sd_browse(out), vec!["Add".to_string()]);
}

#[test]
fn browse_without_service_column() {
    let names = parse_dns_sd_browse("1  Add 2 9 local. name here\n1 Rmv 2 9 local. x y z\n");
    assert_eq!(names, vec!["name here".to_string()]);
}

#[test]
fn dns_sd_resolve_parse() {
    let out = "\
Lookup darekhta-debian._mist._tcp.local
DATE: ---Sat 14 Jun 2026---
10:00:02.000  darekhta-debian._mist._tcp.local. can be reached at darekhta-debian.local.:6478 (interface 9)
 v=1 uuid=4f2b0b30a9d84f8ab5c40122c7be1c13 tx=tcp shares=3 kver=6.1
";
    let inst = parse_dns_sd_resolve("darekhta-debian", out).unwrap();
    assert_eq!(inst.host, "darekhta-debian.local");
    assert_eq!(inst.port, 6478);
    assert_eq!(
        inst.vm_uuid.map(|u| uuid_string(&u)).as_deref(),
        Some("4f2b0b30a9d84f8ab5c40122c7be1c13")
    );
    assert!(parse_dns_sd_resolve("x", "nothing\n").is_none());
    let p = parse_dns_sd_resolve("x", "can be reached at h:99999 z\n").unwrap();
    assert_eq!(p.port, TCP_PORT);
}

#[test]
fn identities_are_matched() {
    let a = [1u8; 16];
    let b = [2u8; 16];
    assert!(identity_ok(&Some(a), &Some(a)));
    assert!(!identity_ok(&Some(b), &Some(a)));
    assert!(!identity_ok(&None, &Some(a)));
    assert!(identity_ok(&Some(b), &None));
    assert!(identity_ok(&None, &None));
    assert!(uuid_matches(&None, &None));
    assert!(!uuid_matches(&None, &Some(a)));
}

fn inst(name: &str, uuid: Option<[u8; 16]>) -> MdnsInstance {
    MdnsInstance {
        instance: name.into(),
        host: format!("{name}.local"),
        port: 1,
        vm_uuid: uuid,
    }
}

#[test]
fn search_tries_announced_then_hint_then_scan() {
    let want = [1u8; 16];
    let list = vec![
        inst("a", Some([2; 16])),
        inst("b", Some(want)),
        inst("c", None),
        inst("d", Some(want)),
    ];
    let hint = CachedHint {
        instance: "b".into(),
        host: "b.local".into(),
    };
    let mut h = Resolver::new().resolve(Some(want), list, Some(hint));
    assert_eq!(h.step(), HuntMove::Instance(1));
    assert_eq!(h.step(), HuntMove::Instance(3));
    assert_eq!(h.step(), HuntMove::Hint);
    assert_eq!(h.step(), HuntMove::Scan);
    assert_eq!(h.step(), HuntMove::Scan);
    assert_eq!(Resolver::cache_path("/s"), "/s/resolver-cache.toml");
    assert_eq!(Resolver::cache_path(""), "resolver-cache.toml");
    assert_eq!(
        degraded_detail(1, 2, 30),
        "1 vmnet bridge(s), 2 lease(s), 30 arp entr(ies)"
    );
}

#[test]
fn probe_reads_two_messages() {
    let u = [7u8; 16];
    assert!(probe_more(&vec![]));
    assert!(probe_more(&vec![ProbeFrame::Another]));
    assert!(!probe_more(&vec![ProbeFrame::Another, ProbeFrame::Another]));
    assert!(!probe_more(&vec![ProbeFrame::Broken]));
    assert_eq!(probe_identity(&vec![ProbeFrame::Another, ProbeFrame::Identity(u)]), Some(u));
    assert_eq!(probe_identity(&vec![ProbeFrame::Broken, ProbeFrame::Identity(u)]), None);
    assert!(probe_hello(HelloReply::AuthFail).is_err());
    assert!(probe_hello(HelloReply::Ack { proto: 1, session_id: 2 }).is_ok());
}

#[test]
fn greeting_and_gate() {
    assert!(matches!(
        hello_done(HelloReply::Ack { proto: 3, session_id: 9 }, 3),
        Ok(9)
    ));
    assert!(matches!(
        hello_done(HelloReply::Ack { proto: 2, session_id: 9 }, 3),
        Err(SessionError::Proto("version mismatch"))
    ));
    assert!(matches!(hello_done(HelloReply::AuthFail, 3), Err(SessionError::Auth)));
    let a = Some([1u8; 16]);
    let b = Some([2u8; 16]);
    assert_eq!(identity_gate(&a, &a), Gate::Pass);
    assert_eq!(identity_gate(&a, &b), Gate::Refuse);
    assert_eq!(identity_gate(&a, &None), Gate::Unbound);
    assert_eq!(identity_gate(&None, &b), Gate::Pass);
    let mut t = Told::new();
    t.on_message(AfterHello::Identity([1; 16]));
    assert!(!t.done);
    t.on_message(AfterHello::Endpoints(vec!["1.2.3.4:5".into()]));
    assert!(t.done);
    assert_eq!(t.uuid, a);
    assert_eq!(t.endpoints.len(), 1);
}

#[test]
fn pauses_double_up_to_the_longest() {
    assert_eq!(pause(false, 100), (100, 200));
    assert_eq!(pause(false, 3200), (3200, 5000));
    assert_eq!(pause(true, 5000), (100, 200));
}

#[test]
fn endpoints_and_tokens() {
    assert_eq!(cached_endpoints(" a:1 \n\n b:2\r\n"), vec!["a:1", "b:2"]);
    assert_eq!(endpoint_display(true, None), "auto (resolving)");
    assert_eq!(endpoint_display(true, Some("tcp:x")), "auto → tcp:x");
    assert_eq!(endpoint_display(false, Some("tcp:x")), "tcp:x");
    let token = [9u8; 32];
    assert_eq!(token_hash(&token).unwrap(), *blake3::hash(&token).as_bytes());
}

#[test]
fn rejects_short_token_file() {
    let n = token_hash(b"short").unwrap_err();
    assert_eq!(n, 5);
    let err = short_token("/tmp/token", n);
    assert_eq!(err, "token /tmp/token is 5 bytes; needs at least 32 random bytes");
    assert!(err.contains("needs at least 32 random bytes"));
}
