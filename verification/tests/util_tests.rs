use lsend::util::{fingerprint_from_cert_pem, os_display_name_for, parse_device_type, pem_body_text, random_fingerprint, DeviceType};

#[test]
fn os_display_name_uses_brand_casing() {
    assert_eq!(os_display_name_for("macos"), "macOS");
    assert_eq!(os_display_name_for("linux"), "Linux");
    assert_eq!(os_display_name_for("windows"), "Windows");
    assert_eq!(os_display_name_for("ios"), "iOS");
    assert_eq!(os_display_name_for("tvos"), "tvOS");
    assert_eq!(os_display_name_for("watchos"), "watchOS");
    assert_eq!(os_display_name_for("visionos"), "visionOS");
    assert_eq!(os_display_name_for("android"), "Android");
    assert_eq!(os_display_name_for("freebsd"), "FreeBSD");
    assert_eq!(os_display_name_for("openbsd"), "OpenBSD");
    assert_eq!(os_display_name_for("netbsd"), "NetBSD");
    assert_eq!(os_display_name_for("dragonfly"), "DragonFly BSD");
    assert_eq!(os_display_name_for("solaris"), "Solaris");
    assert_eq!(os_display_name_for("illumos"), "illumos");
    assert_eq!(os_display_name_for("haiku"), "Haiku");
    assert_eq!(os_display_name_for("fuchsia"), "Fuchsia");
    assert_eq!(os_display_name_for("redox"), "Redox");
    assert_eq!(os_display_name_for("hurd"), "GNU Hurd");
    assert_eq!(os_display_name_for("aix"), "AIX");
    assert_eq!(os_display_name_for("apple"), "Apple");
    assert_eq!(os_display_name_for("espidf"), "ESP-IDF");
    assert_eq!(os_display_name_for("vxworks"), "VxWorks");
    assert_eq!(os_display_name_for("wasm32"), "WebAssembly");
    assert_eq!(os_display_name_for("cloudabi"), "CloudABI");
    assert_eq!(os_display_name_for("plan9"), "Plan9");
}

#[test]
fn os_display_name_empty_string_is_empty() {
    assert_eq!(os_display_name_for(""), "");
}

#[test]
fn parse_device_type_accepts_lowercase() {
    assert_eq!(parse_device_type("mobile"), Some(DeviceType::Mobile));
    assert_eq!(parse_device_type("desktop"), Some(DeviceType::Desktop));
    assert_eq!(parse_device_type("web"), Some(DeviceType::Web));
    assert_eq!(parse_device_type("headless"), Some(DeviceType::Headless));
    assert_eq!(parse_device_type("server"), Some(DeviceType::Server));
}

#[test]
fn parse_device_type_is_case_insensitive() {
    assert_eq!(parse_device_type("MOBILE"), Some(DeviceType::Mobile));
    assert_eq!(parse_device_type("Desktop"), Some(DeviceType::Desktop));
}

#[test]
fn parse_device_type_rejects_unknown() {
    assert_eq!(parse_device_type(""), None);
    assert_eq!(parse_device_type("smartwatch"), None);
    assert_eq!(parse_device_type("unknown"), None);
}

#[test]
fn random_fingerprint_is_uuidv4_no_hyphens() {
    let f = random_fingerprint();
    assert_eq!(f.len(), 32);
    assert!(f.chars().all(|c| c.is_ascii_hexdigit()));
    assert!(!f.contains('-'));
}

#[test]
fn random_fingerprint_is_unique_across_calls() {
    let a = random_fingerprint();
    let b = random_fingerprint();
    assert_ne!(a, b);
}

#[test]
fn fingerprint_from_cert_pem_is_stable_hex_sha256() {
    let cert = rcgen::generate_simple_self_signed(vec!["localhost".to_string()]).unwrap();
    let pem = cert.cert.pem();
    let fp = fingerprint_from_cert_pem(&pem).unwrap();
    assert_eq!(fp.len(), 64);
    assert!(fp.chars().all(|c| c.is_ascii_hexdigit()));
    assert_eq!(fingerprint_from_cert_pem(&pem).unwrap(), fp);
}

#[test]
fn pem_body_drops_armour_lines_and_line_endings() {
    let pem = "-----BEGIN X-----\r\nQUJD\r\nREVG\n-----END X-----\n";
    assert_eq!(pem_body_text(pem), "QUJDREVG");
}

#[test]
fn fingerprint_of_known_bytes() {
    // "abc" in base64, between armour lines.
    let pem = "-----BEGIN CERTIFICATE-----\nYWJj\n-----END CERTIFICATE-----\n";
    assert_eq!(
        fingerprint_from_cert_pem(pem).unwrap(),
        "ba7816bf8f01cfea414140de5dae2223b00361a396177a9cb410ff61f20015ad"
    );
    assert!(fingerprint_from_cert_pem("-----BEGIN X-----\n!!!!\n").is_err());
}
