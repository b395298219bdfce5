//! Devices found on the network, the multicast announcements that find them,
//! and the table in which a scan collects them.
use vstd::prelude::*;

use crate::config::{AppConfig, PROTOCOL_VERSION};
use crate::identity::Identity;
use crate::text::{concat2, concat3, decimal, decimal_string, eq_ignore_case, lower_seq, str_eq, str_eq_ignore_ascii_case};
use crate::transfer::{clone_opt, opt_view};
use crate::util::DeviceType;

verus! {

broadcast use vstd::string::group_string_axioms;

/// A device that answered a scan or registered itself.
#[derive(Clone, Debug)]
pub struct DiscoveredDevice {
    pub alias: String,
    pub ip: String,
    pub port: u16,
    pub fingerprint: String,
    pub https: bool,
    pub version: String,
    pub device_type: Option<DeviceType>,
    pub device_model: Option<String>,
}

pub struct DeviceView {
    pub alias: Seq<char>,
    pub ip: Seq<char>,
    pub port: u16,
    pub fingerprint: Seq<char>,
    pub https: bool,
    pub version: Seq<char>,
    pub device_type: Option<DeviceType>,
    pub device_model: Option<Seq<char>>,
}

impl View for DiscoveredDevice {
    type V = DeviceView;

    open spec fn view(&self) -> DeviceView {
        DeviceView {
            alias: self.alias@,
            ip: self.ip@,
            port: self.port,
            fingerprint: self.fingerprint@,
            https: self.https,
            version: self.version@,
            device_type: self.device_type,
            device_model: opt_view(self.device_model),
        }
    }
}

pub open spec fn scheme(https: bool) -> Seq<char> {
    if https {
        "https://"@
    } else {
        "http://"@
    }
}

impl DiscoveredDevice {
    /// A field-by-field copy.
    pub fn copy(&self) -> (r: DiscoveredDevice)
        ensures
            r@ == self@,
    {
        DiscoveredDevice {
            alias: self.alias.clone(),
            ip: self.ip.clone(),
            port: self.port,
            fingerprint: self.fingerprint.clone(),
            https: self.https,
            version: self.version.clone(),
            device_type: self.device_type,
            device_model: clone_opt(&self.device_model),
        }
    }

    /// `alias (scheme://ip:port)`.
    pub fn display_label(&self) -> (r: String)
        ensures
            r@ == self.alias@ + " ("@ + scheme(self.https) + self.ip@ + ":"@ + decimal(self.port as nat) + ")"@,
    {
        let head = concat2(self.alias.as_str(), " (");
        let sch = if self.https { "https://" } else { "http://" };
        let head = concat3(head.as_str(), sch, self.ip.as_str());
        let port = decimal_string(self.port as u64);
        let s = concat3(head.as_str(), ":", port.as_str());
        concat2(s.as_str(), ")")
    }
}

// ---------------------------------------------------------------- multicast

/// The transport a device serves on.
#[derive(Clone, Copy, Debug, PartialEq, Eq, Structural)]
pub enum ProtocolType {
    Http,
    Https,
}

/// A multicast announcement (or the answer to one).
#[derive(Clone, Debug)]
pub struct MulticastMessage {
    pub alias: String,
    pub version: String,
    pub device_model: Option<String>,
    pub device_type: Option<DeviceType>,
    pub fingerprint: String,
    pub port: u16,
    pub protocol: ProtocolType,
    pub download: bool,
    pub announce: bool,
}

/// This device's announcement: its alias, protocol version, operating system,
/// headless type, fingerprint, port and transport; downloads are not offered.
pub open spec fn is_own_message(m: MulticastMessage, config: AppConfig, identity: Identity, announce: bool, os: Seq<char>) -> bool {
    &&& m.alias@ == config.alias@
    &&& m.version@ == PROTOCOL_VERSION@
    &&& opt_view(m.device_model) == Some(os)
    &&& m.device_type == Some(DeviceType::Headless)
    &&& m.fingerprint@ == identity.fingerprint@
    &&& m.port == config.port
    &&& m.protocol == (if config.https { ProtocolType::Https } else { ProtocolType::Http })
    &&& !m.download
    &&& m.announce == announce
}

/// This device's announcement (or, with `announce` false, its answer to one).
pub fn build_multicast_message(config: &AppConfig, identity: &Identity, announce: bool, os: &str) -> (r: MulticastMessage)
    ensures
        is_own_message(r, *config, *identity, announce, os@),
{
    MulticastMessage {
        alias: config.alias.clone(),
        version: String::from_str(PROTOCOL_VERSION),
        device_model: Some(String::from_str(os)),
        device_type: Some(DeviceType::Headless),
        fingerprint: identity.fingerprint.clone(),
        port: config.port,
        protocol: if config.https {
            ProtocolType::Https
        } else {
            ProtocolType::Http
        },
        download: false,
        announce,
    }
}

/// The device an announcement describes; a port of zero means the default.
pub open spec fn message_device(m: MulticastMessage, ip: Seq<char>, fallback_port: u16) -> DeviceView {
    DeviceView {
        alias: m.alias@,
        ip,
        port: if m.port == 0 {
            fallback_port
        } else {
            m.port
        },
        fingerprint: m.fingerprint@,
        https: m.protocol == ProtocolType::Https,
        version: m.version@,
        device_type: m.device_type,
        device_model: opt_view(m.device_model),
    }
}

/// The device an announcement received from `ip` describes.
pub fn message_to_device(message: &MulticastMessage, ip: &str, fallback_port: u16) -> (r: DiscoveredDevice)
    ensures
        r@ == message_device(*message, ip@, fallback_port),
{
    DiscoveredDevice {
        alias: message.alias.clone(),
        ip: String::from_str(ip),
        port: if message.port == 0 {
            fallback_port
        } else {
            message.port
        },
        fingerprint: message.fingerprint.clone(),
        https: message.protocol == ProtocolType::Https,
        version: message.version.clone(),
        device_type: message.device_type,
        device_model: clone_opt(&message.device_model),
    }
}

/// What the multicast listener does with one announcement: ignore its own,
/// record the device, and answer an announcement with this device's message.
#[derive(Debug)]
pub struct MulticastAction {
    pub device: Option<DiscoveredDevice>,
    pub reply: Option<MulticastMessage>,
}

/// Decides what to do with an announcement received from `ip`.
pub fn on_multicast_message(
    message: &MulticastMessage,
    ip: &str,
    config: &AppConfig,
    identity: &Identity,
    os: &str,
) -> (r: MulticastAction)
    ensures
        message.fingerprint@ == identity.fingerprint@ ==> r.device is None && r.reply is None,
        message.fingerprint@ != identity.fingerprint@ ==> {
            &&& (r.device matches Some(d) && d@ == message_device(*message, ip@, config.port))
            &&& r.reply is Some == message.announce
            &&& (r.reply matches Some(m) ==> is_own_message(m, *config, *identity, false, os@))
        },
{
    if str_eq(message.fingerprint.as_str(), identity.fingerprint.as_str()) {
        return MulticastAction { device: None, reply: None };
    }
    let device = message_to_device(message, ip, config.port);
    let reply = if message.announce {
        Some(build_multicast_message(config, identity, false, os))
    } else {
        None
    };
    MulticastAction { device: Some(device), reply }
}

// ---------------------------------------------------------------- targets

/// The device for a target given as an address (`is_ip` says whether the
/// target parses as an IP address): contacted on the configured port and
/// transport, with no fingerprint known.
pub fn direct_target(target: &str, is_ip: bool, config: &AppConfig) -> (r: Option<DiscoveredDevice>)
    ensures
        !is_ip ==> r is None,
        is_ip ==> (r matches Some(d) && d@ == (DeviceView {
            alias: target@,
            ip: target@,
            port: config.port,
            fingerprint: Seq::empty(),
            https: config.https,
            version: PROTOCOL_VERSION@,
            device_type: None,
            device_model: None,
        })),
{
    if !is_ip {
        return None;
    }
    Some(
        DiscoveredDevice {
            alias: String::from_str(target),
            ip: String::from_str(target),
            port: config.port,
            fingerprint: String::new(),
            https: config.https,
            version: String::from_str(PROTOCOL_VERSION),
            device_type: None,
            device_model: None,
        },
    )
}

/// The first device whose alias matches, ignoring ASCII case.
pub open spec fn alias_match(devices: Seq<DeviceView>, target: Seq<char>) -> int
    decreases devices.len(),
{
    if devices.len() == 0 {
        -1
    } else if eq_ignore_case(devices[0].alias, target) {
        0
    } else {
        let i = alias_match(devices.drop_first(), target);
        if i < 0 {
            -1
        } else {
            i + 1
        }
    }
}

pub open spec fn devices_view(v: Seq<DiscoveredDevice>) -> Seq<DeviceView> {
    v.map_values(|d: DiscoveredDevice| d@)
}

pub open spec fn not_found_message(target: Seq<char>) -> Seq<char> {
    "No device found with alias \""@ + target + "\""@
}

/// The device picked for an alias is the first whose alias equals the target
/// up to ASCII case; an alias that only begins with the target, or differs in
/// any other way, is never picked; none is picked when no alias equals it.
pub proof fn law_alias_pick_is_first_equal_alias(devices: Seq<DeviceView>, target: Seq<char>)
    ensures
        -1 <= alias_match(devices, target) < devices.len(),
        alias_match(devices, target) >= 0 ==> lower_seq(devices[alias_match(devices, target)].alias) == lower_seq(
            target,
        ),
        forall|j: int|
            0 <= j < devices.len() && (alias_match(devices, target) < 0 || j < alias_match(devices, target))
                ==> lower_seq((#[trigger] devices[j]).alias) != lower_seq(target),
    decreases devices.len(),
{
    if devices.len() > 0 {
        let t = devices.drop_first();
        law_alias_pick_is_first_equal_alias(t, target);
        assert forall|j: int|
            0 <= j < devices.len() && (alias_match(devices, target) < 0 || j < alias_match(devices, target))
                implies lower_seq((#[trigger] devices[j]).alias) != lower_seq(target) by {
            if j > 0 {
                assert(devices[j] == t[j - 1]);
            }
        }
    }
}

/// Picks a scanned device by alias (ignoring ASCII case); the error names the
/// alias.
pub fn find_by_alias(devices: &Vec<DiscoveredDevice>, target: &str) -> (r: Result<DiscoveredDevice, String>)
    ensures
        ({
            let i = alias_match(devices_view(devices@), target@);
            &&& i < 0 ==> (r matches Err(m) && m@ == not_found_message(target@))
            &&& i >= 0 ==> (r matches Ok(d) && d@ == devices_view(devices@)[i])
        }),
{
    let mut i: usize = 0;
    assert(devices_view(devices@).skip(0) == devices_view(devices@));
    while i < devices.len()
        invariant
            i <= devices@.len(),
            alias_match(devices_view(devices@), target@) == if alias_match(devices_view(devices@).skip(i as int), target@) < 0 {
                -1
            } else {
                alias_match(devices_view(devices@).skip(i as int), target@) + i
            },
        decreases devices@.len() - i,
    {
        let ghost rest = devices_view(devices@).skip(i as int);
        assert(rest.drop_first() == devices_view(devices@).skip(i + 1));
        assert(rest[0] == devices@[i as int]@);
        if str_eq_ignore_ascii_case(devices[i].alias.as_str(), target) {
            return Ok(devices[i].copy());
        }
        i = i + 1;
    }
    assert(devices_view(devices@).skip(i as int) =~= Seq::empty());
    let m = concat3("No device found with alias \"", target, "\"");
    Err(m)
}

/// How a send target is found.
#[derive(Debug)]
pub enum TargetPlan {
    /// The target is an address: contact it directly.
    Direct(DiscoveredDevice),
    /// The target is an alias and scanning is off: it cannot be found; the
    /// message says so.
    NotFound(String),
    /// The target is an alias: scan for it.
    Scan,
}

/// Decides how to find a send target (`is_ip` says whether it parses as an IP
/// address): an address directly; an alias by scanning, or, with scanning
/// off, not at all.
pub fn target_plan(target: &str, is_ip: bool, allow_scan: bool, config: &AppConfig) -> (r: TargetPlan)
    ensures
        is_ip ==> (r matches TargetPlan::Direct(d) && d@ == (DeviceView {
            alias: target@,
            ip: target@,
            port: config.port,
            fingerprint: Seq::empty(),
            https: config.https,
            version: PROTOCOL_VERSION@,
            device_type: None,
            device_model: None,
        })),
        !is_ip && !allow_scan ==> (r matches TargetPlan::NotFound(m) && m@ == not_found_message(target@)),
        !is_ip && allow_scan ==> r is Scan,
{
    match direct_target(target, is_ip, config) {
        Some(d) => TargetPlan::Direct(d),
        None => if allow_scan {
            TargetPlan::Scan
        } else {
            TargetPlan::NotFound(concat3("No device found with alias \"", target, "\""))
        },
    }
}

// ---------------------------------------------------------------- device table

/// Found devices, one per fingerprint (a later sighting replaces an earlier one).
#[derive(Debug)]
pub struct DeviceTable {
    pub devices: Vec<DiscoveredDevice>,
}

/// The table as a map from fingerprint to device.
pub open spec fn table_map(v: Seq<DiscoveredDevice>) -> Map<Seq<char>, DeviceView>
    decreases v.len(),
{
    if v.len() == 0 {
        Map::empty()
    } else {
        table_map(v.drop_last()).insert(v.last().fingerprint@, v.last()@)
    }
}

pub open spec fn fingerprints_unique(v: Seq<DiscoveredDevice>) -> bool {
    forall|i: int, j: int| 0 <= i < j < v.len() ==> v[i].fingerprint@ != v[j].fingerprint@
}

impl DeviceTable {
    pub open spec fn wf(&self) -> bool {
        fingerprints_unique(self.devices@)
    }

    pub open spec fn view_map(&self) -> Map<Seq<char>, DeviceView> {
        table_map(self.devices@)
    }

    /// An empty table.
    pub fn new() -> (r: DeviceTable)
        ensures
            r.wf(),
            r.view_map() == Map::<Seq<char>, DeviceView>::empty(),
            r.devices@.len() == 0,
    {
        DeviceTable { devices: Vec::new() }
    }

    /// Records a device under its fingerprint (`HashMap::insert`).
    pub fn insert(&mut self, device: DiscoveredDevice)
        requires
            old(self).wf(),
        ensures
            final(self).wf(),
            final(self).view_map() == old(self).view_map().insert(device.fingerprint@, device@),
            final(self).devices@.len() == old(self).devices@.len() + (if old(self).view_map().dom().contains(device.fingerprint@) { 0int } else { 1int }),
    {
        let ghost old_v = self.devices@;
        proof {
            lemma_table_dom(old_v);
        }
        let mut i: usize = 0;
        while i < self.devices.len()
            invariant
                i <= self.devices@.len(),
                self.devices@ == old_v,
                old_v == old(self).devices@,
                fingerprints_unique(old_v),
                forall|j: int| 0 <= j < i ==> old_v[j].fingerprint@ != device.fingerprint@,
            decreases self.devices@.len() - i,
        {
            if str_eq(self.devices[i].fingerprint.as_str(), device.fingerprint.as_str()) {
                let ghost dv = device@;
                let ghost k = device.fingerprint@;
                self.devices.set(i, device);
                proof {
                    lemma_table_dom(old_v);
                    assert(self.devices@ == old_v.update(i as int, self.devices@[i as int]));
                    assert(self.devices@[i as int]@ == dv);
                    lemma_table_replace(old_v, i as int, self.devices@[i as int]);
                    assert(old_v[i as int].fingerprint@ == k);
                    assert(table_map(old_v).dom().contains(k));
                }
                return;
            }
            i = i + 1;
        }
        let ghost dv = device@;
        self.devices.push(device);
        proof {
            assert(self.devices@.drop_last() == old_v);
            assert(!table_map(old_v).dom().contains(dv.fingerprint));
        }
    }

    /// The device recorded under a fingerprint.
    pub fn get(&self, fingerprint: &str) -> (r: Option<&DiscoveredDevice>)
        requires
            self.wf(),
        ensures
            match r {
                Some(d) => self.view_map().dom().contains(fingerprint@) && self.view_map()[fingerprint@] == d@,
                None => !self.view_map().dom().contains(fingerprint@),
            },
    {
        proof {
            lemma_table_dom(self.devices@);
        }
        let mut i: usize = 0;
        while i < self.devices.len()
            invariant
                i <= self.devices@.len(),
                fingerprints_unique(self.devices@),
                forall|j: int| 0 <= j < i ==> self.devices@[j].fingerprint@ != fingerprint@,
            decreases self.devices@.len() - i,
        {
            if str_eq(self.devices[i].fingerprint.as_str(), fingerprint) {
                proof {
                    lemma_table_at(self.devices@, i as int);
                }
                return Some(&self.devices[i]);
            }
            i = i + 1;
        }
        None
    }

    /// The recorded devices (`into_values`).
    pub fn into_devices(self) -> (r: Vec<DiscoveredDevice>)
        ensures
            r@ == self.devices@,
    {
        self.devices
    }
}

/// The table's keys are exactly the recorded fingerprints.
proof fn lemma_table_dom(v: Seq<DiscoveredDevice>)
    ensures
        forall|k: Seq<char>| table_map(v).dom().contains(k) <==> exists|j: int| 0 <= j < v.len() && (#[trigger] v[j]).fingerprint@ == k,
    decreases v.len(),
{
    if v.len() > 0 {
        let vd = v.drop_last();
        lemma_table_dom(vd);
        assert(table_map(v) == table_map(vd).insert(v.last().fingerprint@, v.last()@));
        assert(v[v.len() - 1] == v.last());
        assert forall|k: Seq<char>| table_map(v).dom().contains(k) <==> exists|j: int| 0 <= j < v.len() && (#[trigger] v[j]).fingerprint@ == k by {
            if table_map(v).dom().contains(k) {
                if k == v.last().fingerprint@ {
                    assert(v[v.len() - 1].fingerprint@ == k);
                } else {
                    assert(table_map(vd).dom().contains(k));
                    let j = choose|j: int| 0 <= j < vd.len() && (#[trigger] vd[j]).fingerprint@ == k;
                    assert(vd[j] == v[j]);
                    assert(v[j].fingerprint@ == k);
                }
            }
            if exists|j: int| 0 <= j < v.len() && (#[trigger] v[j]).fingerprint@ == k {
                let j = choose|j: int| 0 <= j < v.len() && (#[trigger] v[j]).fingerprint@ == k;
                if j < v.len() - 1 {
                    assert(vd[j] == v[j]);
                    assert(vd[j].fingerprint@ == k);
                    assert(table_map(vd).dom().contains(k));
                } else {
                    assert(v[j] == v.last());
                }
            }
        }
    }
}

/// With unique fingerprints, the table maps each recorded fingerprint to its device.
proof fn lemma_table_at(v: Seq<DiscoveredDevice>, i: int)
    requires
        fingerprints_unique(v),
        0 <= i < v.len(),
    ensures
        table_map(v).dom().contains(v[i].fingerprint@),
        table_map(v)[v[i].fingerprint@] == v[i]@,
    decreases v.len(),
{
    if i < v.len() - 1 {
        let w = v.drop_last();
        assert(w[i] == v[i]);
        assert(fingerprints_unique(w)) by {
            assert forall|a: int, b: int| 0 <= a < b < w.len() implies w[a].fingerprint@ != w[b].fingerprint@ by {
                assert(w[a] == v[a] && w[b] == v[b]);
            }
        }
        lemma_table_at(w, i);
        assert(v.last().fingerprint@ != v[i].fingerprint@);
    }
}

/// Replacing the device at a position by one with the same fingerprint.
proof fn lemma_table_replace(v: Seq<DiscoveredDevice>, i: int, d: DiscoveredDevice)
    requires
        fingerprints_unique(v),
        0 <= i < v.len(),
        d.fingerprint@ == v[i].fingerprint@,
    ensures
        fingerprints_unique(v.update(i, d)),
        table_map(v.update(i, d)) == table_map(v).insert(d.fingerprint@, d@),
    decreases v.len(),
{
    let w = v.update(i, d);
    assert(fingerprints_unique(w)) by {
        assert forall|a: int, b: int| 0 <= a < b < w.len() implies w[a].fingerprint@ != w[b].fingerprint@ by {
            assert(w[a].fingerprint@ == v[a].fingerprint@);
            assert(w[b].fingerprint@ == v[b].fingerprint@);
        }
    }
    if i == v.len() - 1 {
        assert(w.drop_last() == v.drop_last());
        assert(table_map(v).insert(d.fingerprint@, d@) =~= table_map(v.drop_last()).insert(d.fingerprint@, d@));
    } else {
        let vd = v.drop_last();
        assert(w.drop_last() == vd.update(i, d));
        assert(fingerprints_unique(vd)) by {
            assert forall|a: int, b: int| 0 <= a < b < vd.len() implies vd[a].fingerprint@ != vd[b].fingerprint@ by {
                assert(vd[a] == v[a] && vd[b] == v[b]);
            }
        }
        assert(vd[i] == v[i]);
        lemma_table_replace(vd, i, d);
        assert(w.last() == v.last());
        assert(v.last().fingerprint@ != d.fingerprint@);
        assert(table_map(w) =~= table_map(v).insert(d.fingerprint@, d@));
    }
}

/// A recorded device is found under its fingerprint; every other fingerprint
/// finds what it found before.
pub proof fn law_recorded_device_is_found(table: Map<Seq<char>, DeviceView>, d: DeviceView, other: Seq<char>)
    ensures
        table.insert(d.fingerprint, d).dom().contains(d.fingerprint),
        table.insert(d.fingerprint, d)[d.fingerprint] == d,
        other != d.fingerprint ==> table.insert(d.fingerprint, d).dom().contains(other) == table.dom().contains(other),
        other != d.fingerprint && table.dom().contains(other) ==> table.insert(d.fingerprint, d)[other] == table[other],
{
}

} // verus!
