use lsend::config::{AppConfig, DEFAULT_DISCOVERY_TIMEOUT_MS, DEFAULT_MULTICAST_GROUP, DEFAULT_PORT, PROTOCOL_VERSION};

#[test]
fn protocol_version_is_v2_1() {
    assert_eq!(PROTOCOL_VERSION, "2.1");
}

#[test]
fn default_port_is_53317() {
    assert_eq!(DEFAULT_PORT, 53317);
    assert_eq!(AppConfig::DEFAULT_PORT, 53317);
}

#[test]
fn default_multicast_group_is_in_24_block() {
    let octets: Vec<u8> = DEFAULT_MULTICAST_GROUP.split('.').map(|p| p.parse().unwrap()).collect();
    assert_eq!(octets.len(), 4);
    assert_eq!(octets[0], 224);
    assert_eq!(octets[1], 0);
    assert_eq!(octets[2], 0);
    assert_eq!(octets[3], 167);
}

#[test]
fn default_discovery_timeout_in_range() {
    assert!(DEFAULT_DISCOVERY_TIMEOUT_MS >= 100);
    assert!(DEFAULT_DISCOVERY_TIMEOUT_MS <= 60_000);
}

#[test]
fn app_config_new_uses_overrides() {
    let cfg = AppConfig::new(
        "MyAlias".to_string(),
        12345,
        true,
        "/home/u/.config/lsend".to_string(),
        Some("/tmp/inbox".to_string()),
        Some("/home/u/Downloads".to_string()),
    );
    assert_eq!(cfg.alias, "MyAlias");
    assert_eq!(cfg.port, 12345);
    assert!(cfg.https);
    assert_eq!(cfg.receive_dir, "/tmp/inbox");
    assert_eq!(cfg.multicast_group, "224.0.0.167");
    assert!(cfg.config_dir.contains("lsend"));
}

#[test]
fn app_config_uses_default_download_dir_when_receive_dir_none() {
    let cfg = AppConfig::new("X".to_string(), DEFAULT_PORT, false, "c".to_string(), None, Some("/home/u/Downloads".to_string()));
    assert_eq!(cfg.receive_dir, "/home/u/Downloads");
    let cfg = AppConfig::new("X".to_string(), DEFAULT_PORT, false, "c".to_string(), None, None);
    assert_eq!(cfg.receive_dir, ".");
}
