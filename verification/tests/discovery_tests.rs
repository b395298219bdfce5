use lsend::config::AppConfig;
use lsend::discovery::{
    build_multicast_message, direct_target, find_by_alias, message_to_device, on_multicast_message, DeviceTable,
    DiscoveredDevice, ProtocolType,
};
use lsend::identity::Identity;
use lsend::legacy::{device_from_info, info_url, probe_protocols, scan_targets, subnet_hosts, InfoResponseCompat};
use lsend::network::{is_usable_interface, select_ipv4_interfaces, InterfaceInfo};
use lsend::scan_server::{register_device, RegisterCompat};
use lsend::server::RegisterPayloadCompat;
use lsend::util::DeviceType;

fn config() -> AppConfig {
    AppConfig::new("Me".into(), 53317, true, "c".into(), None, None)
}

fn identity() -> Identity {
    Identity { cert_pem: String::new(), key_pem: String::new(), fingerprint: "abc123".into() }
}

fn dev(alias: &str, fp: &str) -> DiscoveredDevice {
    DiscoveredDevice {
        alias: alias.into(),
        ip: "10.0.0.5".into(),
        port: 53317,
        fingerprint: fp.into(),
        https: false,
        version: "2.1".into(),
        device_type: None,
        device_model: None,
    }
}

#[test]
fn display_label_shows_scheme_ip_and_port() {
    assert_eq!(dev("Bob", "x").display_label(), "Bob (http://10.0.0.5:53317)");
}

#[test]
fn multicast_message_round_trip() {
    let msg = build_multicast_message(&config(), &identity(), true, "linux");
    assert_eq!(msg.version, "2.1");
    assert_eq!(msg.protocol, ProtocolType::Https);
    assert!(msg.announce);
    let mut other = msg.clone();
    other.fingerprint = "peer".into();
    other.port = 0;
    let d = message_to_device(&other, "10.0.0.7", 53317);
    assert_eq!(d.port, 53317);
    assert!(d.https);
    assert_eq!(d.ip, "10.0.0.7");
    let own = on_multicast_message(&msg, "10.0.0.2", &config(), &identity(), "linux");
    assert!(own.device.is_none() && own.reply.is_none());
    let act = on_multicast_message(&other, "10.0.0.7", &config(), &identity(), "linux");
    assert!(act.device.is_some());
    assert!(!act.reply.unwrap().announce);
}

#[test]
fn targets_resolve_by_address_or_alias() {
    let d = direct_target("192.168.1.4", true, &config()).unwrap();
    assert_eq!(d.alias, "192.168.1.4");
    assert_eq!(d.fingerprint, "");
    assert!(direct_target("Bob", false, &config()).is_none());
    let devices = vec![dev("Alice", "a"), dev("Bob", "b")];
    assert_eq!(find_by_alias(&devices, "bob").unwrap().fingerprint, "b");
    assert_eq!(find_by_alias(&devices, "Carol").unwrap_err(), "No device found with alias \"Carol\"");
}

#[test]
fn device_table_keeps_one_entry_per_fingerprint() {
    let mut table = DeviceTable::new();
    table.insert(dev("Alice", "a"));
    table.insert(dev("Bob", "b"));
    table.insert(dev("Alice 2", "a"));
    assert_eq!(table.get("a").unwrap().alias, "Alice 2");
    assert_eq!(table.get("b").unwrap().alias, "Bob");
    assert!(table.get("c").is_none());
    assert_eq!(table.into_devices().len(), 2);
}

#[test]
fn subnet_hosts_excludes_self_and_returns_253() {
    let hosts = subnet_hosts([192, 168, 1, 50]);
    assert_eq!(hosts.len(), 253);
    assert!(!hosts.contains(&"192.168.1.50".to_string()));
    assert!(hosts.contains(&"192.168.1.1".to_string()));
    assert!(hosts.contains(&"192.168.1.254".to_string()));
    assert!(!hosts.contains(&"192.168.1.0".to_string()));
    assert!(!hosts.contains(&"192.168.1.255".to_string()));
}

#[test]
fn subnet_hosts_when_iface_is_first_host_skips_to_2() {
    let hosts = subnet_hosts([10, 0, 0, 1]);
    assert_eq!(hosts.first(), Some(&"10.0.0.2".to_string()));
    assert_eq!(hosts.last(), Some(&"10.0.0.254".to_string()));
}

#[test]
fn scan_targets_cover_at_most_three_subnets() {
    let ifs = vec![[10, 0, 0, 1], [10, 0, 1, 1], [10, 0, 2, 1], [10, 0, 3, 1]];
    let targets = scan_targets(&ifs);
    assert_eq!(targets.len(), 3 * 253);
    assert!(!targets.contains(&"10.0.3.2".to_string()));
}

#[test]
fn device_from_info_uses_provided_endpoint() {
    let info = InfoResponseCompat {
        alias: "Bob".into(),
        version: Some("2.1".into()),
        device_model: Some("iPhone".into()),
        device_type: Some("mobile".into()),
        fingerprint: "bob-fp".into(),
    };
    let device = device_from_info(info, "10.0.0.7", 12345, true);
    assert_eq!(device.alias, "Bob");
    assert_eq!(device.ip, "10.0.0.7");
    assert_eq!(device.port, 12345);
    assert!(device.https);
    assert_eq!(device.fingerprint, "bob-fp");
    assert_eq!(device.device_model.as_deref(), Some("iPhone"));
    assert_eq!(device.device_type, Some(DeviceType::Mobile));
}

#[test]
fn device_from_info_falls_back_to_current_protocol_version() {
    let info = InfoResponseCompat {
        alias: "Old".into(),
        version: None,
        device_model: None,
        device_type: None,
        fingerprint: "old-fp".into(),
    };
    let device = device_from_info(info, "10.0.0.8", 53317, false);
    assert_eq!(device.version, "2.1");
    assert_eq!(device.device_type, None);
    assert!(!device.https);
}

#[test]
fn probes_prefer_the_configured_transport() {
    assert_eq!(probe_protocols(true), [ProtocolType::Https, ProtocolType::Http]);
    assert_eq!(probe_protocols(false), [ProtocolType::Http, ProtocolType::Https]);
    assert_eq!(
        info_url(ProtocolType::Https, "10.0.0.3", 53317, "fp"),
        "https://10.0.0.3:53317/api/localsend/v1/info?fingerprint=fp"
    );
}

#[test]
fn skips_clash_fake_ip_interface() {
    assert!(!is_usable_interface("utun8", [198, 18, 0, 1]));
    assert!(is_usable_interface("en0", [192, 168, 30, 52]));
    assert!(!is_usable_interface("LO0", [10, 0, 0, 1]));
    assert!(!is_usable_interface("en1", [100, 100, 1, 1]));
}

#[test]
fn interfaces_are_filtered_sorted_and_deduplicated() {
    let i = |name: &str, ip: [u8; 4], up: bool| InterfaceInfo { name: name.into(), ip, oper_up: up, loopback: false };
    let list = vec![
        i("en1", [192, 168, 1, 9], true),
        i("en0", [10, 0, 0, 2], true),
        i("en2", [192, 168, 1, 9], true),
        i("en3", [169, 254, 3, 3], true),
        i("en4", [172, 16, 0, 1], false),
        i("utun0", [10, 8, 0, 1], true),
    ];
    assert_eq!(select_ipv4_interfaces(&list), vec![[10, 0, 0, 2], [192, 168, 1, 9]]);
}

fn compat(fingerprint: &str, token: &str) -> RegisterCompat {
    RegisterCompat {
        alias: "a".into(),
        version: None,
        device_model: None,
        device_type: None,
        fingerprint: fingerprint.into(),
        token: token.into(),
        port: None,
        protocol: None,
    }
}

#[test]
fn register_compat_prefers_fingerprint_over_legacy_token() {
    let mut v2 = compat("fingerprint-value", "");
    v2.version = Some("2.1".into());
    v2.port = Some(53317);
    v2.protocol = Some("https".into());
    assert_eq!(v2.fingerprint(), "fingerprint-value");

    let mut v1 = compat("", "legacy-token");
    v1.port = Some(53317);
    v1.protocol = Some("http".into());
    assert_eq!(v1.fingerprint(), "legacy-token");
}

#[test]
fn register_compat_uses_empty_when_neither_field_present() {
    let c = compat("", "");
    assert_eq!(c.fingerprint(), "");
}

#[test]
fn register_device_checks_fingerprint() {
    assert_eq!(register_device(&compat("", ""), "10.0.0.4", &config(), &identity()).unwrap_err().status, 400);
    assert_eq!(register_device(&compat("abc123", ""), "10.0.0.4", &config(), &identity()).unwrap_err().status, 412);
    let mut p = compat("", "peer");
    p.protocol = Some("HTTP".into());
    p.device_type = Some("Desktop".into());
    let d = register_device(&p, "10.0.0.4", &config(), &identity()).unwrap();
    assert_eq!(d.fingerprint, "peer");
    assert!(!d.https);
    assert_eq!(d.port, 53317);
    assert_eq!(d.version, "2.1");
    assert_eq!(d.device_type, Some(DeviceType::Desktop));
}

#[test]
fn register_payload_compat_prefers_fingerprint() {
    let p = RegisterPayloadCompat {
        alias: "a".into(),
        version: None,
        device_model: None,
        device_type: None,
        fingerprint: String::new(),
        token: "tok".into(),
        port: None,
        protocol: None,
    };
    assert_eq!(p.fingerprint(), "tok");
}

#[test]
fn target_plan_uses_an_address_directly_and_scans_for_an_alias() {
    let config = AppConfig::new("Me".into(), 53317, true, "c".into(), None, None);
    match lsend::discovery::target_plan("192.168.1.7", true, false, &config) {
        lsend::discovery::TargetPlan::Direct(d) => {
            assert_eq!(d.ip, "192.168.1.7");
            assert_eq!(d.port, 53317);
            assert!(d.https);
        }
        other => panic!("unexpected: {other:?}"),
    }
    match lsend::discovery::target_plan("Bob", false, false, &config) {
        lsend::discovery::TargetPlan::NotFound(m) => assert_eq!(m, "No device found with alias \"Bob\""),
        other => panic!("unexpected: {other:?}"),
    }
    assert!(matches!(lsend::discovery::target_plan("Bob", false, true, &config), lsend::discovery::TargetPlan::Scan));
}
