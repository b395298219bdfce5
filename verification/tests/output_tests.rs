use lsend::discovery::DiscoveredDevice;
use lsend::error::CliError;
use lsend::events::ReceiveEvent;
use lsend::output::{error_envelope, no_tui_value, DeviceJson, OutputMode, OutputOptions, ReceiveEventJson};
use lsend::util::DeviceType;

#[test]
fn error_envelope_includes_hint() {
    let err = CliError::PortInUse { port: 53317 };
    let envelope = error_envelope("receive", &err);
    assert_eq!(envelope.code, "port_in_use");
    assert!(envelope.hint.is_some());
}

#[test]
fn error_envelope_for_other_error_has_no_hint() {
    let err = CliError::Other("boom".to_string());
    let envelope = error_envelope("send", &err);
    assert_eq!(envelope.command, "send");
    assert!(!envelope.ok);
    assert_eq!(envelope.code, "error");
    assert_eq!(envelope.error, "boom");
    assert!(envelope.hint.is_none());
}

#[test]
fn output_options_json_flag_forces_json() {
    let opts = OutputOptions::new(true, false);
    assert!(opts.is_json());
    assert!(!opts.show_human_progress());
}

#[test]
fn output_options_human_with_quiet() {
    let opts = OutputOptions::new(false, true);
    assert!(!opts.is_json());
    assert!(!opts.show_human_progress());
}

#[test]
fn output_options_human_verbose() {
    let opts = OutputOptions::new(false, false);
    assert!(!opts.is_json());
    assert!(opts.show_human_progress());
}

#[test]
fn no_tui_env_forces_json_mode() {
    let output = OutputOptions::from_cli(false, false, true);
    assert!(output.is_json());
    assert_eq!(output.mode, OutputMode::Json);
}

#[test]
fn device_type_label_covers_all_variants() {
    let device = |t: DeviceType| DiscoveredDevice {
        alias: "x".into(),
        ip: "1.2.3.4".into(),
        port: 53317,
        fingerprint: "abc".into(),
        https: true,
        version: "2.1".into(),
        device_type: Some(t),
        device_model: None,
    };
    assert_eq!(DeviceJson::from_device(&device(DeviceType::Mobile)).device_type.as_deref(), Some("mobile"));
    assert_eq!(DeviceJson::from_device(&device(DeviceType::Desktop)).device_type.as_deref(), Some("desktop"));
    assert_eq!(DeviceJson::from_device(&device(DeviceType::Web)).device_type.as_deref(), Some("web"));
    assert_eq!(DeviceJson::from_device(&device(DeviceType::Headless)).device_type.as_deref(), Some("headless"));
    assert_eq!(DeviceJson::from_device(&device(DeviceType::Server)).device_type.as_deref(), Some("server"));
}

#[test]
fn receive_event_json_copies_fields() {
    let e = ReceiveEvent::FileSaved { path: "/tmp/inbox/foo.txt".into(), file_name: "foo.txt".into(), size: 1024 };
    match ReceiveEventJson::from_event(&e) {
        ReceiveEventJson::FileSaved { path, file_name, size } => {
            assert_eq!(path, "/tmp/inbox/foo.txt");
            assert_eq!(file_name, "foo.txt");
            assert_eq!(size, 1024);
        }
        other => panic!("unexpected: {other:?}"),
    }
    assert!(matches!(ReceiveEventJson::from_event(&ReceiveEvent::Shutdown), ReceiveEventJson::Shutdown));
}

#[test]
fn no_tui_value_accepts_one_true_yes() {
    assert!(no_tui_value("1"));
    assert!(no_tui_value(" TRUE "));
    assert!(no_tui_value("Yes"));
    assert!(!no_tui_value("0"));
    assert!(!no_tui_value(""));
    assert!(!no_tui_value("on"));
}
