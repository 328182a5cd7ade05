use mist::control::Verb;
use mist::data::{read_json, read_list, read_toml, Data};
use mist::doctor::TokenFile;
use mist::facts::{
    announced_in, bridges_in, config_rows, mounts_in, sessions_in, version_in,
};
use mist::mount::registry_rows;
use mist::request::{read_reply, read_request, request_in, CacheAct, ReplyError};

#[test]
fn json_is_read_as_it_stands() {
    let d = read_json(r#"{"b": [1, -2, 1.5, "x", null, true], "a": {"c": "d"}}"#).unwrap();
    let Data::Fields(l) = &d else { panic!("no fields") };
    assert_eq!(l[0].0, "a");
    assert_eq!(d.at("a").unwrap().text_at("c"), Some("d".to_string()));
    let list = d.list_at("b").unwrap();
    assert!(matches!(
        (&list[0], &list[1], &list[2]),
        (Data::Number(Some(1)), Data::Number(None), Data::Number(None))
    ));
    assert!(matches!(&list[3], Data::Text(s) if s == "x"));
    assert!(matches!((&list[4], &list[5]), (Data::Null, Data::Flag(true))));
    assert!(d.at("z").is_none());
    assert!(read_json("{").unwrap_err().starts_with("EOF while parsing"));
    assert!(read_list(b"{}").is_none());
    assert_eq!(read_list(b"[1, {}]").unwrap().len(), 2);
}

#[test]
fn toml_is_read_as_it_stands() {
    let d = read_toml("n = 7\nm = -7\nf = 1.5\nt = 1979-05-27\nb = true\n[v.w]\nl = ['x']\n").unwrap();
    assert_eq!(d.number_or("n", 0), 7);
    assert_eq!(d.number_or("m", 3), 3);
    assert_eq!(d.number_or("f", 3), 3);
    assert!(matches!(d.at("t"), Some(Data::Time)));
    assert!(d.is_set("b") && !d.is_set("n"));
    let w = d.at("v").unwrap().at("w").unwrap();
    assert!(matches!(&w.list_at("l").unwrap()[0], Data::Text(s) if s == "x"));
    assert!(read_toml("= 1").is_err());
}

#[test]
fn requests_have_defaults() {
    let q = read_request(r#"{"cmd": "ls", "vm": "dev", "share": "home"}"#).unwrap();
    assert_eq!(q.verb, Verb::Ls);
    assert_eq!((q.vm.as_str(), q.share.as_str()), ("dev", "home"));
    assert_eq!(q.path, None);
    assert_eq!(q.path_or_root(), "/");
    assert_eq!((q.name.as_str(), q.token.as_str(), q.uuid), ("", "", None));
    assert_eq!((q.action, q.sample, q.nfs41, q.follow), (CacheAct::Stats, 0, false, false));
    for line in ["[1]", "3", "\"status\"", "{}", r#"{"cmd": 1}"#] {
        let q = read_request(line).unwrap();
        assert_eq!((q.verb, q.cmd.as_str()), (Verb::Unknown, ""), "{line}");
    }
    assert!(read_request("not json").is_err());
}

#[test]
fn requests_say_what_they_ask() {
    let q = read_request(
        r#"{"cmd": "cache", "action": "scrub", "sample": 5, "path": "/a", "uuid": "00", "nfs41": true}"#,
    )
    .unwrap();
    assert_eq!((q.verb, q.action, q.sample), (Verb::Cache, CacheAct::Scrub, 5));
    assert_eq!(q.path_or_root(), "/a");
    assert_eq!(q.uuid, Some("00".to_string()));
    assert!(q.nfs41 && !q.follow);
    let q = read_request(r#"{"cmd": "cache", "action": "clear", "sample": -1}"#).unwrap();
    assert_eq!((q.action, q.sample), (CacheAct::Clear, 0));
    assert!(read_request(r#"{"cmd": "events", "follow": true}"#).unwrap().follow);
    assert!(!read_request(r#"{"cmd": "events", "follow": 1}"#).unwrap().follow);
    assert!(!read_request(r#"{"cmd": "status", "follow": true}"#).unwrap().follow);
    let d = Data::Fields(vec![("cmd".to_string(), Data::Text("add".to_string()))]);
    assert_eq!(request_in(&d).verb, Verb::Add);
}

#[test]
fn replies_are_good_or_refused() {
    let d = read_reply(r#"{"ok": true, "version": "1.2"}"#).unwrap();
    assert_eq!(version_in(&d), "1.2");
    assert!(matches!(
        read_reply(r#"{"ok": false, "error": "no"}"#),
        Err(ReplyError::Refused(e)) if e == "no"
    ));
    assert!(matches!(
        read_reply(r#"{"ok": 1}"#),
        Err(ReplyError::Refused(e)) if e == "unknown daemon error"
    ));
    assert!(matches!(read_reply("?"), Err(ReplyError::Malformed(_))));
}

#[test]
fn configuration_names_its_vms() {
    let rows = config_rows(
        "[daemon]\nlog = 'x'\n[vm.b]\nbridge = 'auto'\nvm_uuid = 'u'\ntoken = '@t'\n[vm.a]\nbridge = 3\n",
    )
    .unwrap();
    assert_eq!(rows.len(), 2);
    assert_eq!((rows[0].name.as_str(), rows[0].bridge.as_str()), ("a", ""));
    assert_eq!((&rows[0].uuid, &rows[0].token), (&None, &None));
    assert_eq!((rows[1].name.as_str(), rows[1].bridge.as_str()), ("b", "auto"));
    assert_eq!(rows[1].uuid.as_deref(), Some("u"));
    let vm = rows.into_iter().nth(1).unwrap().with_file(Some(TokenFile { len: 32, mode: None }));
    assert_eq!(vm.token.as_deref(), Some("@t"));
    assert_eq!(vm.file.unwrap().len, 32);
    assert!(config_rows("vm = 3").unwrap().is_empty());
    assert!(config_rows("").unwrap().is_empty());
    assert!(config_rows("vm = ").is_err());
}

#[test]
fn replies_give_the_facts() {
    let d = read_json(
        r#"{"mdns": [{}, {}], "vmnet": [{"gateway": "192.168.64.1", "iface": "bridge100"}, {}]}"#,
    )
    .unwrap();
    assert_eq!(announced_in(&d), 2);
    assert_eq!(
        bridges_in(&d),
        vec![
            ("192.168.64.1".to_string(), "bridge100".to_string()),
            (String::new(), "?".to_string()),
        ]
    );
    let d = read_json(
        r#"{"vms": [{"name": "dev", "state": "live", "shares": [{"name": "home", "state": "live"}]}, 1]}"#,
    )
    .unwrap();
    let s = sessions_in(&d);
    assert_eq!((s[0].name.as_str(), s[0].state.as_str()), ("dev", "live"));
    assert_eq!(s[0].shares, vec![("home".to_string(), "live".to_string())]);
    assert_eq!((s[1].name.as_str(), s[1].shares.len()), ("?", 0));
    let d = read_json(r#"{"mounts": [{"vm": "dev", "share": "s", "mountpoint": "/m", "port": 65537}]}"#)
        .unwrap();
    let m = mounts_in(&d);
    assert_eq!((m[0].vm.as_str(), m[0].mountpoint.as_str(), m[0].port), ("dev", "/m", 1));
    assert!(mounts_in(&Data::Null).is_empty());
}

#[test]
fn registry_has_defaults() {
    let rows = registry_rows(
        br#"[{"vm": "dev", "share": "s", "port": 70000, "nfs41": true, "mountpoint": "/m"}, {"port": "x"}]"#,
    )
    .unwrap();
    assert_eq!((rows[0].vm.as_str(), rows[0].share.as_str()), ("dev", "s"));
    assert_eq!((rows[0].port, rows[0].nfs41), (4464, true));
    assert_eq!(rows[0].mountpoint, "/m");
    assert_eq!((rows[1].vm.as_str(), rows[1].port, rows[1].nfs41), ("", 0, false));
    assert!(registry_rows(b"{}").is_none());
    assert!(registry_rows(b"[").is_none());
    assert!(registry_rows(&[0xff]).is_none());
}
