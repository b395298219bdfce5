use lsend::error::{parse_port_from_message, CliError};

#[test]
fn classifies_port_in_use() {
    let err = CliError::from_anyhow(anyhow::Error::msg("Address already in use (os error 48)"));
    assert_eq!(err.code(), "port_in_use");
    assert_eq!(err.exit_code(), 3);
    assert!(err.hint().is_some());
}

#[test]
fn structured_port_in_use_carries_port() {
    let err = CliError::PortInUse { port: 53317 };
    assert!(err.to_string().contains("53317"));
    let hint = err.hint().unwrap();
    assert!(hint.contains("53317"));
    assert!(hint.contains("Reuse an existing receiver"));
    assert!(hint.contains("Avoid alternate `--port`"));
}

#[test]
fn exit_codes_match_documented_table() {
    assert_eq!(CliError::PortInUse { port: 1 }.exit_code(), 3);
    assert_eq!(CliError::TargetNotFound { target: "x".into() }.exit_code(), 2);
    assert_eq!(CliError::NoFiles.exit_code(), 2);
    assert_eq!(CliError::InvalidAlias { reason: "x".into() }.exit_code(), 2);
    assert_eq!(CliError::Other("x".into()).exit_code(), 1);
}

#[test]
fn code_constants_match_documented_strings() {
    assert_eq!(CliError::PortInUse { port: 1 }.code(), "port_in_use");
    assert_eq!(CliError::TargetNotFound { target: "x".into() }.code(), "target_not_found");
    assert_eq!(CliError::NoFiles.code(), "no_files");
    assert_eq!(CliError::InvalidAlias { reason: "x".into() }.code(), "invalid_alias");
    assert_eq!(CliError::Other("x".into()).code(), "error");
}

#[test]
fn from_anyhow_classifies_target_not_found() {
    let err = CliError::from_anyhow(anyhow::Error::msg("No device found with alias \"Bob\""));
    match err {
        CliError::TargetNotFound { target } => assert_eq!(target, "Bob"),
        other => panic!("unexpected: {other:?}"),
    }
}

#[test]
fn from_anyhow_classifies_no_files() {
    let err = CliError::from_anyhow(anyhow::Error::msg("No files to send"));
    assert!(matches!(err, CliError::NoFiles));
}

#[test]
fn from_anyhow_classifies_invalid_alias() {
    let err = CliError::from_anyhow(anyhow::Error::msg("Alias must not be empty"));
    match err {
        CliError::InvalidAlias { reason } => assert!(reason.contains("empty")),
        other => panic!("unexpected: {other:?}"),
    }
}

#[test]
fn from_anyhow_passthrough_preserves_inner_cli_error() {
    let inner = CliError::NoFiles;
    let any: anyhow::Error = inner.clone().into();
    let back = CliError::from_anyhow(any);
    assert!(matches!(back, CliError::NoFiles));
}

#[test]
fn from_anyhow_classifies_bind_on_default_port() {
    let err = CliError::from_anyhow(anyhow::Error::msg("Address already in use (os error 48)"));
    match err {
        CliError::PortInUse { .. } => {}
        other => panic!("unexpected: {other:?}"),
    }
}

#[test]
fn from_anyhow_falls_back_to_other() {
    let err = CliError::from_anyhow(anyhow::Error::msg("something else went wrong"));
    match err {
        CliError::Other(s) => assert_eq!(s, "something else went wrong"),
        other => panic!("unexpected: {other:?}"),
    }
}

#[test]
fn parse_port_extracts_digit_token() {
    assert_eq!(parse_port_from_message("error 48"), Some(48));
    assert_eq!(parse_port_from_message("no port here"), None);
}

#[test]
fn target_not_found_hint_suggests_scan() {
    let err = CliError::TargetNotFound { target: "x".into() };
    let hint = err.hint().unwrap();
    assert!(hint.contains("scan"));
}

#[test]
fn other_error_has_no_hint() {
    assert!(CliError::Other("x".into()).hint().is_none());
}

#[test]
fn port_in_use_message_names_the_port_twice() {
    let err = CliError::PortInUse { port: 8080 };
    assert_eq!(
        err.to_string(),
        "Port 8080 is already in use. Close any other process holding port 8080 (e.g. the LocalSend app, another `lsend receive`)."
    );
}

#[test]
fn bind_message_with_port_number_is_port_in_use() {
    let err = CliError::from_message("Failed to bind discovery HTTP server on port 4000");
    match err {
        CliError::PortInUse { port } => assert_eq!(port, 4000),
        other => panic!("unexpected: {other:?}"),
    }
}

#[test]
fn already_in_use_without_number_defaults_to_53317() {
    match CliError::from_message("socket already in use") {
        CliError::PortInUse { port } => assert_eq!(port, 53317),
        other => panic!("unexpected: {other:?}"),
    }
}

#[test]
fn target_not_found_without_closing_quote_keeps_message() {
    let message = "No device found with alias \"Bob\". Run `lsend scan --json` first or pass an IP address.";
    match CliError::from_message(message) {
        CliError::TargetNotFound { target } => assert_eq!(target, message),
        other => panic!("unexpected: {other:?}"),
    }
}

#[test]
fn parse_port_trims_non_digits_around_token() {
    assert_eq!(parse_port_from_message("port :8080, busy"), Some(8080));
    assert_eq!(parse_port_from_message("value 99999 then 12"), Some(12));
}

#[test]
fn no_files_hint_and_message() {
    let err = CliError::NoFiles;
    assert_eq!(err.to_string(), "No files to send");
    assert_eq!(
        err.hint().unwrap(),
        "Pass file paths, or use --text (stdin), --message \"...\", or --clipboard."
    );
}

#[test]
fn from_anyhow_classifies_failed_discovery_bind() {
    let err = CliError::from_anyhow(anyhow::Error::msg("Failed to bind discovery server on port 12345"));
    assert!(matches!(err, CliError::PortInUse { port: 12345 }));
    assert_eq!(err.code(), "port_in_use");
    assert_eq!(err.exit_code(), 3);
}

#[test]
fn from_anyhow_reads_back_no_files_and_port_in_use() {
    let back = CliError::from_anyhow(anyhow::Error::from(CliError::NoFiles));
    assert!(matches!(back, CliError::NoFiles));
    let back = CliError::from_anyhow(anyhow::Error::from(CliError::PortInUse { port: 4242 }));
    assert!(matches!(back, CliError::PortInUse { port: 4242 }));
}

#[test]
fn alias_refusals_are_reported_as_invalid_alias() {
    for message in ["Alias must not be empty", "Alias must be at most 255 characters"] {
        let err = CliError::alias_change_error(message);
        assert!(matches!(&err, CliError::InvalidAlias { reason } if reason == message));
        assert_eq!(err.code(), "invalid_alias");
        assert_eq!(err.exit_code(), 2);
        let again = CliError::from_anyhow(anyhow::Error::msg(message));
        assert!(matches!(again, CliError::InvalidAlias { .. }));
    }
    assert!(matches!(CliError::alias_change_error("No files to send"), CliError::NoFiles));
}
