//! What a checkup knows from texts: the VMs of the configuration, and what the daemon says of the
//! network, its sessions and its mounts.
use crate::data::{opt_text, read_toml, toml_text, views_of, Data, DataView};
use crate::doctor::{MountFacts, SessionFacts, TokenFile, VmFacts};
use vstd::prelude::*;

verus! {

/// A VM of the configuration.
#[derive(Debug)]
pub struct VmRow<S = String> {
    pub name: S,
    pub bridge: S,
    pub uuid: Option<S>,
    /// Where the token is, as it is written.
    pub token: Option<S>,
}

impl VmRow<String> {
    pub open spec fn view(&self) -> VmRow<Seq<char>> {
        VmRow {
            name: self.name@,
            bridge: self.bridge@,
            uuid: opt_text(self.uuid),
            token: opt_text(self.token),
        }
    }

    /// The VM with what its token file is like.
    pub fn with_file(self, file: Option<TokenFile>) -> (v: VmFacts)
        ensures
            v == (VmFacts {
                name: self.name,
                bridge: self.bridge,
                uuid: self.uuid,
                token: self.token,
                file,
            }),
    {
        VmFacts { name: self.name, bridge: self.bridge, uuid: self.uuid, token: self.token, file }
    }
}

pub open spec fn vm_rows_view(l: Seq<VmRow>) -> Seq<VmRow<Seq<char>>> {
    Seq::new(l.len(), |i: int| l[i]@)
}

/// A VM under its name.
pub open spec fn vm_row_of(f: (Seq<char>, DataView)) -> VmRow<Seq<char>> {
    VmRow {
        name: f.0,
        bridge: f.1.at("bridge"@).text_or(""@),
        uuid: f.1.at("vm_uuid"@).text(),
        token: f.1.at("token"@).text(),
    }
}

/// The VMs of a configuration: what stands in its table `vm`.
pub open spec fn vm_rows_of(d: DataView) -> Seq<VmRow<Seq<char>>> {
    let l = d.at("vm"@).fields();
    Seq::new(l.len(), |i: int| vm_row_of(l[i]))
}

/// The VMs of a configuration that is read.
pub fn vm_rows(d: &Data) -> (rows: Vec<VmRow>)
    ensures
        vm_rows_view(rows@) == vm_rows_of(d@),
{
    let mut rows: Vec<VmRow> = Vec::new();
    let ghost all = d@.at("vm"@).fields();
    if let Some(Data::Fields(l)) = d.at("vm") {
        let mut i: usize = 0;
        while i < l.len()
            invariant
                i <= l@.len(),
                all.len() == l@.len(),
                forall|j: int|
                    0 <= j < l@.len() ==> #[trigger] all[j] == (l@[j].0@, l@[j].1@),
                rows@.len() == i,
                forall|j: int| 0 <= j < i ==> (#[trigger] rows@[j])@ == vm_row_of(all[j]),
            decreases l@.len() - i,
        {
            let vm = &l[i].1;
            rows.push(
                VmRow {
                    name: l[i].0.as_str().to_owned(),
                    bridge: vm.text_or("bridge", ""),
                    uuid: vm.text_at("vm_uuid"),
                    token: vm.text_at("token"),
                },
            );
            i = i + 1;
        }
    }
    proof {
        assert(vm_rows_view(rows@) =~= vm_rows_of(d@));
    }
    rows
}

/// The VMs of a configuration, by its text. A text that is no TOML is refused with the reason.
pub fn config_rows(text: &str) -> (r: Result<Vec<VmRow>, String>)
    ensures
        match r {
            Ok(rows) => toml_text(text@) is Ok && vm_rows_view(rows@) == vm_rows_of(
                toml_text(text@)->Ok_0,
            ),
            Err(e) => toml_text(text@) == Err::<DataView, _>(e@),
        },
{
    match read_toml(text) {
        Ok(d) => Ok(vm_rows(&d)),
        Err(e) => Err(e),
    }
}

/// The gateway and the interface of each bridge that the daemon names.
pub open spec fn bridges_of(d: DataView) -> Seq<(Seq<char>, Seq<char>)> {
    let l = d.at("vmnet"@).items();
    Seq::new(
        l.len(),
        |i: int| (l[i].at("gateway"@).text_or(""@), l[i].at("iface"@).text_or("?"@)),
    )
}

pub open spec fn pairs_view(l: Seq<(String, String)>) -> Seq<(Seq<char>, Seq<char>)> {
    Seq::new(l.len(), |i: int| (l[i].0@, l[i].1@))
}

/// Two texts of each item of a list.
fn pairs_at(d: &Data, list: &str, a: &str, no_a: &str, b: &str, no_b: &str) -> (pairs: Vec<
    (String, String),
>)
    ensures
        pairs@.len() == d@.at(list@).items().len(),
        forall|i: int|
            0 <= i < pairs@.len() ==> (#[trigger] pairs@[i]).0@ == d@.at(list@).items()[i].at(
                a@,
            ).text_or(no_a@) && pairs@[i].1@ == d@.at(list@).items()[i].at(b@).text_or(no_b@),
{
    let mut pairs: Vec<(String, String)> = Vec::new();
    if let Some(l) = d.list_at(list) {
        let mut i: usize = 0;
        while i < l.len()
            invariant
                i <= l@.len(),
                d@.at(list@).items() == views_of(l@),
                pairs@.len() == i,
                forall|j: int|
                    0 <= j < i ==> (#[trigger] pairs@[j]).0@ == l@[j]@.at(a@).text_or(no_a@)
                        && pairs@[j].1@ == l@[j]@.at(b@).text_or(no_b@),
            decreases l@.len() - i,
        {
            pairs.push((l[i].text_or(a, no_a), l[i].text_or(b, no_b)));
            i = i + 1;
        }
    }
    pairs
}

/// The bridges in what the daemon discovered.
pub fn bridges_in(d: &Data) -> (pairs: Vec<(String, String)>)
    ensures
        pairs_view(pairs@) == bridges_of(d@),
{
    let pairs = pairs_at(d, "vmnet", "gateway", "", "iface", "?");
    proof {
        assert(pairs_view(pairs@) =~= bridges_of(d@));
    }
    pairs
}

/// How many VMs announce themselves, by what the daemon discovered.
pub fn announced_in(d: &Data) -> (n: usize)
    ensures
        n == d@.at("mdns"@).items().len(),
{
    match d.list_at("mdns") {
        Some(l) => l.len(),
        None => 0,
    }
}

/// The version that the daemon says it has.
pub fn version_in(d: &Data) -> (s: String)
    ensures
        s@ == d@.at("version"@).text_or("?"@),
{
    d.text_or("version", "?")
}

/// A session is as the daemon says.
pub open spec fn is_session(s: SessionFacts, d: DataView) -> bool {
    let l = d.at("shares"@).items();
    &&& s.name@ == d.at("name"@).text_or("?"@)
    &&& s.state@ == d.at("state"@).text_or("?"@)
    &&& pairs_view(s.shares@) == Seq::new(
        l.len(),
        |i: int| (l[i].at("name"@).text_or("?"@), l[i].at("state"@).text_or("?"@)),
    )
}

/// The sessions in a status of the daemon.
pub fn sessions_in(d: &Data) -> (list: Vec<SessionFacts>)
    ensures
        list@.len() == d@.at("vms"@).items().len(),
        forall|i: int|
            0 <= i < list@.len() ==> is_session(#[trigger] list@[i], d@.at("vms"@).items()[i]),
{
    let mut list: Vec<SessionFacts> = Vec::new();
    if let Some(l) = d.list_at("vms") {
        let mut i: usize = 0;
        while i < l.len()
            invariant
                i <= l@.len(),
                d@.at("vms"@).items() == views_of(l@),
                list@.len() == i,
                forall|j: int| 0 <= j < i ==> is_session(#[trigger] list@[j], l@[j]@),
            decreases l@.len() - i,
        {
            let s = SessionFacts {
                name: l[i].text_or("name", "?"),
                state: l[i].text_or("state", "?"),
                shares: pairs_at(&l[i], "shares", "name", "?", "state", "?"),
            };
            proof {
                let m = l@[i as int]@.at("shares"@).items();
                assert(pairs_view(s.shares@) =~= Seq::new(
                    m.len(),
                    |k: int| (m[k].at("name"@).text_or("?"@), m[k].at("state"@).text_or("?"@)),
                ));
            }
            list.push(s);
            i = i + 1;
        }
    }
    list
}

/// A mount is as the daemon says.
pub open spec fn is_mount(m: MountFacts, d: DataView) -> bool {
    &&& m.vm@ == d.at("vm"@).text_or("?"@)
    &&& m.share@ == d.at("share"@).text_or("?"@)
    &&& m.mountpoint@ == d.at("mountpoint"@).text_or(""@)
    &&& m.port == d.at("port"@).number_or(0) % 0x1_0000
}

/// The mounts in a list of the daemon.
pub fn mounts_in(d: &Data) -> (list: Vec<MountFacts>)
    ensures
        list@.len() == d@.at("mounts"@).items().len(),
        forall|i: int|
            0 <= i < list@.len() ==> is_mount(#[trigger] list@[i], d@.at("mounts"@).items()[i]),
{
    let mut list: Vec<MountFacts> = Vec::new();
    if let Some(l) = d.list_at("mounts") {
        let mut i: usize = 0;
        while i < l.len()
            invariant
                i <= l@.len(),
                d@.at("mounts"@).items() == views_of(l@),
                list@.len() == i,
                forall|j: int| 0 <= j < i ==> is_mount(#[trigger] list@[j], l@[j]@),
            decreases l@.len() - i,
        {
            list.push(
                MountFacts {
                    vm: l[i].text_or("vm", "?"),
                    share: l[i].text_or("share", "?"),
                    mountpoint: l[i].text_or("mountpoint", ""),
                    port: (l[i].number_or("port", 0) % 0x1_0000) as u16,
                },
            );
            i = i + 1;
        }
    }
    list
}

} // verus!
