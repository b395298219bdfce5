//! The fallback scan: probing every host of the local subnets over HTTP when
//! multicast found nothing.
use vstd::prelude::*;

use crate::config::PROTOCOL_VERSION;
use crate::discovery::{DeviceView, DiscoveredDevice, ProtocolType};
use crate::text::{concat2, concat3, decimal, decimal_string};
use crate::transfer::{clone_opt, opt_view};
use crate::util::{device_type_spec, parse_device_type};

verus! {

broadcast use vstd::string::group_string_axioms;

/// At most this many interfaces' subnets are probed.
pub const MAX_SUBNETS: usize = 3;
/// Probes run in batches of this size.
pub const SCAN_CONCURRENCY: usize = 50;
/// How long one probe may take, in milliseconds.
pub const PROBE_TIMEOUT_MS: u64 = 750;

/// The host numbers probed on a /24 subnet: 1 to 254 except this device's own.
pub open spec fn host_numbers(own: u8) -> Seq<nat> {
    if 1 <= own <= 254 {
        Seq::new(253, |i: int| if i + 1 < own { (i + 1) as nat } else { (i + 2) as nat })
    } else {
        Seq::new(254, |i: int| (i + 1) as nat)
    }
}

/// `a.b.c.`, the prefix of an address's /24 subnet.
pub open spec fn subnet_prefix(ip: [u8; 4]) -> Seq<char> {
    decimal(ip[0] as nat) + "."@ + decimal(ip[1] as nat) + "."@ + decimal(ip[2] as nat) + "."@
}

/// The addresses probed on an interface's /24 subnet, in host order.
pub open spec fn hosts_spec(iface: [u8; 4]) -> Seq<Seq<char>> {
    Seq::new(host_numbers(iface[3]).len(), |i: int| subnet_prefix(iface) + decimal(host_numbers(iface[3])[i]))
}

pub open spec fn strings_view(v: Seq<String>) -> Seq<Seq<char>> {
    v.map_values(|s: String| s@)
}

/// The addresses to probe on an interface's /24 subnet.
pub fn subnet_hosts(iface: [u8; 4]) -> (r: Vec<String>)
    ensures
        strings_view(r@) == hosts_spec(iface),
{
    let a = decimal_string(iface[0] as u64);
    let b = decimal_string(iface[1] as u64);
    let c = decimal_string(iface[2] as u64);
    let p = concat3(a.as_str(), ".", b.as_str());
    let p = concat3(p.as_str(), ".", c.as_str());
    let prefix = concat2(p.as_str(), ".");
    let own = iface[3];
    let ghost hosts = host_numbers(own);
    let mut out: Vec<String> = Vec::new();
    let mut host: u8 = 1;
    while host <= 254
        invariant
            1 <= host <= 255,
            prefix@ == subnet_prefix(iface),
            own == iface[3],
            hosts == host_numbers(own),
            out@.len() == if 1 <= own && own < host { host - 2 } else { host - 1 },
            forall|i: int| 0 <= i < out@.len() ==> (#[trigger] out@[i])@ == subnet_prefix(iface) + decimal(hosts[i]),
        decreases 255 - host,
    {
        if host != own {
            let h = decimal_string(host as u64);
            let s = concat2(prefix.as_str(), h.as_str());
            let ghost k = out@.len();
            proof {
                if 1 <= own <= 254 {
                    if own < host {
                        assert(hosts[k as int] == host as nat);
                    } else {
                        assert(hosts[k as int] == host as nat);
                    }
                } else {
                    assert(hosts[k as int] == host as nat);
                }
            }
            out.push(s);
        }
        host = host + 1;
    }
    assert(strings_view(out@) =~= hosts_spec(iface));
    out
}

/// A device's answer to `GET /info`.
#[derive(Debug, Clone)]
pub struct InfoResponseCompat {
    pub alias: String,
    pub version: Option<String>,
    pub device_model: Option<String>,
    pub device_type: Option<String>,
    pub fingerprint: String,
}

/// The device that answered a probe at `ip:port`; a missing version is taken
/// to be the current protocol version.
pub fn device_from_info(info: InfoResponseCompat, ip: &str, port: u16, https: bool) -> (r: DiscoveredDevice)
    ensures
        r@ == (DeviceView {
            alias: info.alias@,
            ip: ip@,
            port,
            fingerprint: info.fingerprint@,
            https,
            version: match info.version {
                Some(v) => v@,
                None => PROTOCOL_VERSION@,
            },
            device_type: match info.device_type {
                Some(t) => device_type_spec(t@),
                None => None,
            },
            device_model: opt_view(info.device_model),
        }),
{
    let device_type = match &info.device_type {
        Some(t) => parse_device_type(t.as_str()),
        None => None,
    };
    DiscoveredDevice {
        alias: info.alias,
        ip: String::from_str(ip),
        port,
        fingerprint: info.fingerprint,
        https,
        version: match info.version {
            Some(v) => v,
            None => String::from_str(PROTOCOL_VERSION),
        },
        device_type,
        device_model: info.device_model,
    }
}

/// The transports to try, the preferred one first.
pub fn probe_protocols(prefer_https: bool) -> (r: [ProtocolType; 2])
    ensures
        prefer_https ==> r@ == seq![ProtocolType::Https, ProtocolType::Http],
        !prefer_https ==> r@ == seq![ProtocolType::Http, ProtocolType::Https],
{
    if prefer_https {
        [ProtocolType::Https, ProtocolType::Http]
    } else {
        [ProtocolType::Http, ProtocolType::Https]
    }
}

pub open spec fn protocol_name(p: ProtocolType) -> Seq<char> {
    match p {
        ProtocolType::Http => "http"@,
        ProtocolType::Https => "https"@,
    }
}

/// The version 1 info URL of a host, naming this device's fingerprint so that
/// the host can recognise itself.
pub fn info_url(protocol: ProtocolType, ip: &str, port: u16, fingerprint: &str) -> (r: String)
    ensures
        r@ == protocol_name(protocol) + "://"@ + ip@ + ":"@ + decimal(port as nat) + "/api/localsend/v1/info?fingerprint="@ + fingerprint@,
{
    let scheme = match protocol {
        ProtocolType::Http => "http",
        ProtocolType::Https => "https",
    };
    let s = concat3(scheme, "://", ip);
    let p = decimal_string(port as u64);
    let s = concat3(s.as_str(), ":", p.as_str());
    concat3(s.as_str(), "/api/localsend/v1/info?fingerprint=", fingerprint)
}

/// The subnets' addresses of the given interfaces, in order.
pub open spec fn targets_spec(ifs: Seq<[u8; 4]>) -> Seq<Seq<char>>
    decreases ifs.len(),
{
    if ifs.len() == 0 {
        Seq::empty()
    } else {
        targets_spec(ifs.drop_last()) + hosts_spec(ifs.last())
    }
}

/// The addresses to probe: the subnets of the first three interfaces, in order.
pub fn scan_targets(interfaces: &Vec<[u8; 4]>) -> (r: Vec<String>)
    ensures
        strings_view(r@) == targets_spec(interfaces@.take(
            if interfaces@.len() < MAX_SUBNETS { interfaces@.len() as int } else { MAX_SUBNETS as int },
        )),
{
    let mut targets: Vec<String> = Vec::new();
    let mut i: usize = 0;
    assert(interfaces@.take(0) =~= Seq::<[u8; 4]>::empty());
    assert(strings_view(targets@) =~= Seq::empty());
    while i < interfaces.len() && i < MAX_SUBNETS
        invariant
            i <= interfaces@.len(),
            i <= MAX_SUBNETS,
            strings_view(targets@) == targets_spec(interfaces@.take(i as int)),
        decreases interfaces@.len() - i,
    {
        let hosts = subnet_hosts(interfaces[i]);
        let ghost before = targets@;
        let mut k: usize = 0;
        while k < hosts.len()
            invariant
                k <= hosts@.len(),
                strings_view(targets@) == strings_view(before) + strings_view(hosts@).take(k as int),
            decreases hosts@.len() - k,
        {
            let ghost t0 = targets@;
            targets.push(hosts[k].clone());
            assert(strings_view(targets@) =~= strings_view(t0).push(hosts@[k as int]@));
            assert(strings_view(hosts@).take(k + 1) =~= strings_view(hosts@).take(k as int).push(hosts@[k as int]@));
            assert(strings_view(targets@) =~= strings_view(before) + strings_view(hosts@).take(k + 1));
            k = k + 1;
        }
        assert(strings_view(hosts@).take(hosts@.len() as int) == strings_view(hosts@));
        assert(interfaces@.take(i + 1).drop_last() == interfaces@.take(i as int));
        assert(interfaces@.take(i + 1).last() == interfaces@[i as int]);
        i = i + 1;
    }
    targets
}

} // verus!
