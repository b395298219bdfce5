//! The discovery server a scan runs: devices that register themselves over
//! HTTP are recorded, and this device answers with its own description.
use vstd::prelude::*;

use crate::config::{AppConfig, PROTOCOL_VERSION};
use crate::discovery::{DeviceView, DiscoveredDevice};
use crate::identity::Identity;
use crate::server::{error_reply, error_response, opt_seq, Reply, ReplyView};
use crate::text::{str_eq, str_eq_ignore_ascii_case, eq_ignore_case};
use crate::transfer::{clone_opt, opt_view};
use crate::util::{device_type_spec, parse_device_type, DeviceType};

verus! {

broadcast use vstd::string::group_string_axioms;

/// A registration body; version 1 senders name the fingerprint `token`.
#[derive(Debug, Clone)]
pub struct RegisterCompat {
    pub alias: String,
    pub version: Option<String>,
    pub device_model: Option<String>,
    pub device_type: Option<String>,
    pub fingerprint: String,
    pub token: String,
    pub port: Option<u16>,
    pub protocol: Option<String>,
}

/// The sender's fingerprint: the `fingerprint` field, else the legacy `token`.
pub open spec fn register_fingerprint(fingerprint: Seq<char>, token: Seq<char>) -> Seq<char> {
    if fingerprint.len() > 0 {
        fingerprint
    } else {
        token
    }
}

impl RegisterCompat {
    /// Prefers `fingerprint`, falls back to the legacy `token`.
    pub fn fingerprint(&self) -> (r: &str)
        ensures
            r@ == register_fingerprint(self.fingerprint@, self.token@),
    {
        if !self.fingerprint.as_str().is_empty() {
            self.fingerprint.as_str()
        } else {
            self.token.as_str()
        }
    }
}

/// The device a registration describes, seen from `ip`: the transport it
/// names (`https` in any case), else the configured one; its port, else the
/// configured one; its version, else the current protocol version.
pub open spec fn registered_device(p: RegisterCompat, ip: Seq<char>, config: AppConfig) -> DeviceView {
    DeviceView {
        alias: p.alias@,
        ip,
        port: match p.port {
            Some(port) => port,
            None => config.port,
        },
        fingerprint: register_fingerprint(p.fingerprint@, p.token@),
        https: match p.protocol {
            Some(proto) => eq_ignore_case(proto@, "https"@),
            None => config.https,
        },
        version: match p.version {
            Some(v) => v@,
            None => PROTOCOL_VERSION@,
        },
        device_type: match p.device_type {
            Some(t) => device_type_spec(t@),
            None => None,
        },
        device_model: opt_view(p.device_model),
    }
}

pub open spec fn register_spec(p: RegisterCompat, ip: Seq<char>, config: AppConfig, own: Seq<char>) -> Result<DeviceView, ReplyView> {
    let f = register_fingerprint(p.fingerprint@, p.token@);
    if f.len() == 0 {
        Err(error_reply(400, "Missing fingerprint"@))
    } else if f == own {
        Err(error_reply(412, "Self-discovered"@))
    } else {
        Ok(registered_device(p, ip, config))
    }
}

/// Decides a registration received from `ip`: refused
/// without a fingerprint, refused as self-discovered with this device's own
/// fingerprint, else the device to record.
pub fn register_device(payload: &RegisterCompat, ip: &str, config: &AppConfig, identity: &Identity) -> (r: Result<DiscoveredDevice, Reply>)
    ensures
        match r {
            Ok(d) => register_spec(*payload, ip@, *config, identity.fingerprint@) == Ok::<DeviceView, ReplyView>(d@),
            Err(e) => register_spec(*payload, ip@, *config, identity.fingerprint@) == Err::<DeviceView, ReplyView>(e@),
        },
{
    let fingerprint = payload.fingerprint();
    if fingerprint.is_empty() {
        return Err(error_response(400, "Missing fingerprint"));
    }
    if str_eq(fingerprint, identity.fingerprint.as_str()) {
        return Err(error_response(412, "Self-discovered"));
    }
    let https = match &payload.protocol {
        Some(p) => str_eq_ignore_ascii_case(p.as_str(), "https"),
        None => config.https,
    };
    let device_type = match &payload.device_type {
        Some(t) => parse_device_type(t.as_str()),
        None => None,
    };
    Ok(
        DiscoveredDevice {
            alias: payload.alias.clone(),
            ip: String::from_str(ip),
            port: match payload.port {
                Some(p) => p,
                None => config.port,
            },
            fingerprint: String::from_str(fingerprint),
            https,
            version: match &payload.version {
                Some(v) => v.clone(),
                None => String::from_str(PROTOCOL_VERSION),
            },
            device_type,
            device_model: clone_opt(&payload.device_model),
        },
    )
}

} // verus!
