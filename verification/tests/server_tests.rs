use lsend::config::AppConfig;
use lsend::events::ReceiveEvent;
use lsend::identity::Identity;
use lsend::output::OutputMode;
use lsend::prepare::parse_prepare_upload_request;
use lsend::server::{
    evaluate_cancel, extract_embedded_text_message, info_response, is_text_file_type, CancelDecision, ReceiveSession,
    RegisterPayloadCompat, ReplyBody, ServerState, SessionStatus,
};
use lsend::util::{device_type_label, DeviceType};
use lsend::transfer::FileDto;

fn dummy_session(id: &str, ip: &str, version: &str, status: SessionStatus) -> ReceiveSession {
    ReceiveSession {
        session_id: id.to_string(),
        sender_ip: ip.to_string(),
        sender_version: version.to_string(),
        destination_dir: "/tmp".to_string(),
        files: Vec::new(),
        status,
    }
}

#[test]
fn evaluate_cancel_allows_v1_against_v1_session() {
    let s = dummy_session("s1", "10.0.0.1", "1.0", SessionStatus::Sending);
    assert_eq!(evaluate_cancel(Some(&s), "10.0.0.1", None), CancelDecision::Allow);
}

#[test]
fn evaluate_cancel_allows_v2_with_matching_session_id() {
    let s = dummy_session("abc", "10.0.0.1", "2.1", SessionStatus::Sending);
    assert_eq!(evaluate_cancel(Some(&s), "10.0.0.1", Some("abc")), CancelDecision::Allow);
}

#[test]
fn evaluate_cancel_allows_finished_with_errors() {
    let s = dummy_session("abc", "10.0.0.1", "2.1", SessionStatus::FinishedWithErrors);
    assert_eq!(evaluate_cancel(Some(&s), "10.0.0.1", Some("abc")), CancelDecision::Allow);
}

#[test]
fn evaluate_cancel_denies_v1_against_v2_session() {
    let s = dummy_session("abc", "10.0.0.1", "2.1", SessionStatus::Sending);
    assert!(matches!(evaluate_cancel(Some(&s), "10.0.0.1", None), CancelDecision::Deny(_)));
}

#[test]
fn evaluate_cancel_denies_ip_mismatch() {
    let s = dummy_session("abc", "10.0.0.1", "2.1", SessionStatus::Sending);
    assert!(matches!(evaluate_cancel(Some(&s), "10.0.0.2", Some("abc")), CancelDecision::Deny(_)));
}

#[test]
fn evaluate_cancel_denies_v2_with_wrong_session_id() {
    let s = dummy_session("abc", "10.0.0.1", "2.1", SessionStatus::Sending);
    assert!(matches!(evaluate_cancel(Some(&s), "10.0.0.1", Some("xyz")), CancelDecision::Deny(_)));
}

#[test]
fn evaluate_cancel_denies_when_no_session() {
    assert!(matches!(evaluate_cancel(None, "10.0.0.1", Some("abc")), CancelDecision::Deny(_)));
}

#[test]
fn evaluate_cancel_denies_in_finished_state() {
    let s = dummy_session("abc", "10.0.0.1", "2.1", SessionStatus::Finished);
    assert!(matches!(evaluate_cancel(Some(&s), "10.0.0.1", Some("abc")), CancelDecision::Deny(_)));
}

#[test]
fn evaluate_cancel_reasons_are_specific() {
    let s = dummy_session("abc", "10.0.0.1", "2.1", SessionStatus::Sending);
    assert_eq!(evaluate_cancel(None, "10.0.0.1", None), CancelDecision::Deny("no active session"));
    assert_eq!(evaluate_cancel(Some(&s), "10.0.0.1", None), CancelDecision::Deny("v1 cancel against v2 session"));
    assert_eq!(evaluate_cancel(Some(&s), "10.0.0.9", Some("abc")), CancelDecision::Deny("ip mismatch"));
    assert_eq!(evaluate_cancel(Some(&s), "10.0.0.1", Some("x")), CancelDecision::Deny("session id mismatch"));
}

#[test]
fn is_text_file_type_matches_text_and_text_slash() {
    assert!(is_text_file_type("text"));
    assert!(is_text_file_type("text/plain"));
    assert!(is_text_file_type("TEXT/PLAIN"));
    assert!(!is_text_file_type("image/png"));
    assert!(!is_text_file_type("application/json"));
}

fn dto(id: &str, name: &str, size: u64, file_type: &str, preview: Option<&str>) -> FileDto {
    FileDto {
        id: id.to_string(),
        file_name: name.to_string(),
        size,
        file_type: file_type.to_string(),
        sha256: None,
        preview: preview.map(|p| p.to_string()),
        metadata: None,
    }
}

#[test]
fn extract_embedded_text_message_only_for_single_text_file() {
    let files = vec![("a".to_string(), dto("a", "a.txt", 5, "text/plain", Some("hello")))];
    assert_eq!(extract_embedded_text_message(&files), Some("hello"));

    let files = vec![("a".to_string(), dto("a", "a.png", 5, "image/png", Some("hello")))];
    assert_eq!(extract_embedded_text_message(&files), None);

    let files = vec![
        ("a".to_string(), dto("a", "a.txt", 1, "text/plain", Some("hi"))),
        ("b".to_string(), dto("b", "b.txt", 1, "text/plain", Some("hi"))),
    ];
    assert_eq!(extract_embedded_text_message(&files), None);
}

#[test]
fn parses_official_style_prepare_upload_with_token_field() {
    let json = r#"{
        "info": {
            "alias": "Cute Apple",
            "version": "2.1",
            "deviceModel": "iPhone",
            "deviceType": "mobile",
            "token": "sender-fingerprint",
            "port": 53317,
            "protocol": "https",
            "hasWebInterface": false
        },
        "files": {
            "abc": {
                "id": "abc",
                "fileName": "hello.txt",
                "size": 5,
                "fileType": "text/plain",
                "preview": "hello"
            }
        }
    }"#;
    let parsed = parse_prepare_upload_request(json).expect("parse");
    assert_eq!(parsed.sender_alias, "Cute Apple");
    assert_eq!(parsed.files.len(), 1);
    assert_eq!(extract_embedded_text_message(&parsed.files), Some("hello"));
}

#[test]
fn parses_prepare_upload_with_fingerprint_and_hash_fields() {
    let json = r#"{
        "info": {
            "alias": "Sender",
            "version": "2.1",
            "fingerprint": "abc123",
            "port": 53317,
            "protocol": "https",
            "download": false
        },
        "files": {
            "f1": {
                "id": "f1",
                "fileName": "photo.png",
                "size": 1024,
                "fileType": "image/png",
                "hash": "deadbeef"
            }
        }
    }"#;
    let parsed = parse_prepare_upload_request(json).expect("parse");
    assert_eq!(parsed.file("f1").and_then(|f| f.sha256.as_deref()), Some("deadbeef"));
    assert!(extract_embedded_text_message(&parsed.files).is_none());
}

#[test]
fn parses_prepare_upload_without_file_id_using_map_key() {
    let json = r#"{
        "info": {
            "alias": "Sender",
            "deviceType": "mobile"
        },
        "files": {
            "f1": {
                "fileName": "photo.png",
                "size": 1024,
                "fileType": "image"
            }
        }
    }"#;
    let parsed = parse_prepare_upload_request(json).expect("parse");
    assert_eq!(parsed.file("f1").map(|f| f.id.as_str()), Some("f1"));
}

#[test]
fn parses_prepare_upload_with_string_size() {
    let json = r#"{
        "info": { "alias": "Sender" },
        "files": {
            "f1": {
                "id": "f1",
                "fileName": "photo.png",
                "size": "1024",
                "fileType": "image/jpeg"
            }
        }
    }"#;
    let parsed = parse_prepare_upload_request(json).expect("parse");
    assert_eq!(parsed.file("f1").map(|f| f.size), Some(1024));
}

#[test]
fn parse_prepare_upload_rejects_empty_body() {
    let err = parse_prepare_upload_request("").expect_err("should fail");
    assert!(err.to_string().contains("json error"));
}

#[test]
fn parse_prepare_upload_rejects_missing_info() {
    let json = r#"{"files": {}}"#;
    let err = parse_prepare_upload_request(json).expect_err("should fail");
    assert!(err.to_string().contains("info"));
}

#[test]
fn parse_prepare_upload_rejects_missing_files() {
    let json = r#"{"info": {"alias": "Sender"}}"#;
    let err = parse_prepare_upload_request(json).expect_err("should fail");
    assert!(err.to_string().contains("files"));
}

#[test]
fn parse_prepare_upload_rejects_file_missing_name() {
    let json = r#"{
        "info": {"alias": "Sender"},
        "files": {"f1": {"id": "f1", "size": 1, "fileType": "image"}}
    }"#;
    let err = parse_prepare_upload_request(json).expect_err("should fail");
    assert!(err.to_string().contains("fileName"));
}

#[test]
fn parse_prepare_upload_rejects_file_missing_size() {
    let json = r#"{
        "info": {"alias": "Sender"},
        "files": {"f1": {"id": "f1", "fileName": "x.png", "fileType": "image"}}
    }"#;
    let err = parse_prepare_upload_request(json).expect_err("should fail");
    assert!(err.to_string().contains("size"));
}

#[test]
fn parse_prepare_upload_rejects_file_missing_type() {
    let json = r#"{
        "info": {"alias": "Sender"},
        "files": {"f1": {"id": "f1", "fileName": "x.png", "size": 1}}
    }"#;
    let err = parse_prepare_upload_request(json).expect_err("should fail");
    assert!(err.to_string().contains("fileType"));
}

#[test]
fn parse_prepare_upload_falls_back_to_snake_case_keys() {
    let json = r#"{
        "info": {"alias": "Sender", "version": "2.1"},
        "files": {
            "f1": {
                "id": "f1",
                "file_name": "x.png",
                "size": 1,
                "file_type": "image/png"
            }
        }
    }"#;
    let parsed = parse_prepare_upload_request(json).expect("parse");
    assert_eq!(parsed.file("f1").map(|f| f.file_name.clone()), Some("x.png".to_string()));
}

#[test]
fn parse_prepare_upload_defaults_sender_version_to_v1() {
    let json = r#"{
        "info": {"alias": "Sender"},
        "files": {"f1": {"id": "f1", "fileName": "x", "size": 1, "fileType": "image"}}
    }"#;
    let parsed = parse_prepare_upload_request(json).expect("parse");
    assert_eq!(parsed.sender_version, "1.0");
}

#[test]
fn parse_prepare_upload_captures_explicit_sender_version() {
    let json = r#"{
        "info": {"alias": "Sender", "version": "2.1"},
        "files": {"f1": {"id": "f1", "fileName": "x", "size": 1, "fileType": "image"}}
    }"#;
    let parsed = parse_prepare_upload_request(json).expect("parse");
    assert_eq!(parsed.sender_version, "2.1");
}

#[test]
fn parse_prepare_upload_reads_metadata_and_rejects_non_object_file() {
    let json = r#"{
        "info": {"alias": "S"},
        "files": {"f1": {"fileName": "x", "size": 1, "fileType": "image",
                         "metadata": {"modified": "2024-01-01", "accessed": "2024-01-02"}}}
    }"#;
    let parsed = parse_prepare_upload_request(json).expect("parse");
    let meta = parsed.file("f1").unwrap().metadata.clone().unwrap();
    assert_eq!(meta.modified.as_deref(), Some("2024-01-01"));
    assert_eq!(meta.accessed.as_deref(), Some("2024-01-02"));

    let bad = r#"{"info": {"alias": "S"}, "files": {"f1": 5}}"#;
    let err = parse_prepare_upload_request(bad).expect_err("should fail");
    assert_eq!(err.to_string(), "invalid field: files.*");
}

// ---------------------------------------------------------------- the receiver's requests

fn make_state(pin: Option<&str>) -> ServerState {
    let config = AppConfig::new(
        "Tester".to_string(),
        53317,
        true,
        "/tmp/lsend-config".to_string(),
        Some("/tmp/inbox".to_string()),
        None,
    );
    let identity = Identity { cert_pem: String::new(), key_pem: String::new(), fingerprint: "test-fp".to_string() };
    ServerState::new(config, identity, pin.map(|p| p.to_string()), OutputMode::Json, false)
}

fn prepare_body(version: &str, file_count: usize) -> String {
    let files: Vec<String> = (1..=file_count)
        .map(|i| {
            format!(
                r#""f{i}": {{"id":"f{i}","fileName":"a{}.bin","size":4,"fileType":"application/octet-stream"}}"#,
                i - 1
            )
        })
        .collect();
    format!(
        r#"{{"info":{{"alias":"Sender","version":"{version}","fingerprint":"sfp"}},"files":{{{}}}}}"#,
        files.join(",")
    )
}

const PEER: &str = "10.0.0.1";
const OTHER: &str = "10.0.0.99";

#[test]
fn prepare_upload_v2_returns_session_id_and_tokens() {
    let mut state = make_state(None);
    let body = prepare_body("2.1", 2);
    let out = state.prepare_upload(PEER, None, None, &body, true);
    assert_eq!(out.reply.status, 200);
    match &out.reply.body {
        ReplyBody::PrepareV2 { session_id, files } => {
            assert_eq!(session_id.len(), 36);
            assert_eq!(files.len(), 2);
            for (_, token) in files {
                assert_eq!(token.len(), 36);
            }
        }
        other => panic!("unexpected: {other:?}"),
    }
    assert!(matches!(out.events[0], ReceiveEvent::TransferStarted { file_count: 2, .. }));
    let second = state.prepare_upload(PEER, None, None, &body, true);
    assert_eq!(second.reply.status, 409);
}

#[test]
fn prepare_upload_v1_returns_legacy_file_map() {
    let mut state = make_state(None);
    let out = state.prepare_upload(PEER, None, None, &prepare_body("1.0", 1), false);
    assert_eq!(out.reply.status, 200);
    match &out.reply.body {
        ReplyBody::PrepareV1 { files } => assert_eq!(files.len(), 1),
        other => panic!("unexpected: {other:?}"),
    }
}

#[test]
fn prepare_upload_rejects_empty_files() {
    let mut state = make_state(None);
    let out = state.prepare_upload(PEER, None, None, r#"{"info":{"alias":"X"},"files":{}}"#, true);
    assert_eq!(out.reply.status, 400);
    assert!(state.session.is_none());
}

#[test]
fn prepare_upload_rejects_malformed_body() {
    let mut state = make_state(None);
    let out = state.prepare_upload(PEER, None, None, "not json", true);
    assert_eq!(out.reply.status, 400);
    match &out.reply.body {
        ReplyBody::Error(m) => assert_eq!(m, "Request body malformed"),
        other => panic!("unexpected: {other:?}"),
    }
}

#[test]
fn prepare_upload_returns_204_for_embedded_text_message() {
    let mut state = make_state(None);
    let body = r#"{
        "info": {"alias": "X", "version": "2.1", "fingerprint": "sfp"},
        "files": {"f1": {"id": "f1", "fileName": "msg.txt", "size": 5, "fileType": "text/plain", "preview": "hello"}}
    }"#;
    let out = state.prepare_upload(PEER, None, None, body, true);
    assert_eq!(out.reply.status, 204);
    assert_eq!(out.delay_ms, 1200);
    match &out.events[0] {
        ReceiveEvent::MessageReceived { sender_alias, text, size } => {
            assert_eq!(sender_alias, "X");
            assert_eq!(text, "hello");
            assert_eq!(*size, 5);
        }
        other => panic!("unexpected: {other:?}"),
    }
    assert!(matches!(out.events[1], ReceiveEvent::TransferComplete));
    let again = state.prepare_upload(PEER, None, None, &prepare_body("2.1", 1), true);
    assert_eq!(again.reply.status, 200);
}

#[test]
fn prepare_upload_requires_pin_when_set() {
    let mut state = make_state(Some("123456"));
    let body = prepare_body("2.1", 1);
    let out = state.prepare_upload(PEER, Some(String::new()), None, &body, true);
    assert_eq!(out.reply.status, 401);
    let out = state.prepare_upload(PEER, Some("123456".into()), None, &body, true);
    assert_eq!(out.reply.status, 200);
    for _ in 0..2 {
        let out = state.prepare_upload(PEER, Some("wrong".into()), None, &body, true);
        assert_eq!(out.reply.status, 401);
    }
    let out = state.prepare_upload(PEER, Some("wrong".into()), None, &body, true);
    assert_eq!(out.reply.status, 429);
}

#[test]
fn prepare_upload_pin_works_via_header_too() {
    let mut state = make_state(Some("abcdef"));
    let out = state.prepare_upload(PEER, None, Some("abcdef".into()), &prepare_body("2.1", 1), true);
    assert_eq!(out.reply.status, 200);
}

#[test]
fn pin_rate_limit_is_per_ip_and_independent() {
    let mut state = make_state(Some("right"));
    let body = prepare_body("2.1", 1);
    for _ in 0..2 {
        let out = state.prepare_upload(PEER, Some("wrong".into()), None, &body, true);
        assert_eq!(out.reply.status, 401);
    }
    let out = state.prepare_upload(OTHER, Some("wrong".into()), None, &body, true);
    assert_eq!(out.reply.status, 401);
    let out = state.prepare_upload(PEER, Some("wrong".into()), None, &body, true);
    assert_eq!(out.reply.status, 429);
    let out = state.prepare_upload(PEER, Some("right".into()), None, &body, true);
    assert_eq!(out.reply.status, 429);
    let out = state.prepare_upload(OTHER, Some("right".into()), None, &body, true);
    assert_eq!(out.reply.status, 200);
}

fn open_session(state: &mut ServerState) -> (String, String) {
    let out = state.prepare_upload(PEER, None, None, &prepare_body("2.1", 1), true);
    match out.reply.body {
        ReplyBody::PrepareV2 { session_id, files } => (session_id, files[0].1.clone()),
        other => panic!("unexpected: {other:?}"),
    }
}

#[test]
fn upload_v2_writes_file_to_receive_dir() {
    let mut state = make_state(None);
    let (sid, token) = open_session(&mut state);
    let target = state
        .begin_upload(PEER, Some(sid), Some("f1".into()), Some(token), true)
        .expect("accepted");
    assert_eq!(target.desired_name, "a0.bin");
    assert_eq!(target.destination_dir, "/tmp/inbox");
    let out = state.finish_upload("f1", Ok(("/tmp/inbox/a0.bin".to_string(), 4)));
    assert_eq!(out.reply.status, 200);
    assert!(matches!(out.events[0], ReceiveEvent::FileSaved { size: 4, .. }));
    assert!(matches!(out.events[1], ReceiveEvent::TransferComplete));
    assert!(state.session.is_none());
}

#[test]
fn upload_v2_rejects_wrong_session_id() {
    let mut state = make_state(None);
    let (_, token) = open_session(&mut state);
    let err = state.begin_upload(PEER, Some("wrong".into()), Some("f1".into()), Some(token), true).unwrap_err();
    assert_eq!(err.status, 403);
}

#[test]
fn upload_v2_rejects_wrong_token() {
    let mut state = make_state(None);
    let (sid, _) = open_session(&mut state);
    let err = state.begin_upload(PEER, Some(sid), Some("f1".into()), Some("wrong".into()), true).unwrap_err();
    assert_eq!(err.status, 403);
}

#[test]
fn upload_v2_missing_parameters_returns_400() {
    let mut state = make_state(None);
    let err = state.begin_upload(PEER, None, None, None, true).unwrap_err();
    assert_eq!(err.status, 400);
}

#[test]
fn upload_from_other_ip_is_refused_with_its_address() {
    let mut state = make_state(None);
    let (sid, token) = open_session(&mut state);
    let err = state.begin_upload(OTHER, Some(sid), Some("f1".into()), Some(token), true).unwrap_err();
    assert_eq!(err.status, 403);
    match err.body {
        ReplyBody::Error(m) => assert_eq!(m, "Invalid IP address: 10.0.0.99"),
        other => panic!("unexpected: {other:?}"),
    }
}

#[test]
fn failed_save_keeps_session_for_retry() {
    let mut state = make_state(None);
    let (sid, token) = open_session(&mut state);
    state.begin_upload(PEER, Some(sid.clone()), Some("f1".into()), Some(token.clone()), true).unwrap();
    let out = state.finish_upload("f1", Err("disk full".to_string()));
    assert_eq!(out.reply.status, 500);
    assert!(state.session.is_some());
    state.begin_upload(PEER, Some(sid), Some("f1".into()), Some(token), true).unwrap();
    let out = state.finish_upload("f1", Ok(("/tmp/inbox/a0.bin".to_string(), 4)));
    assert!(matches!(out.events[1], ReceiveEvent::TransferComplete));
    assert!(state.session.is_none());
}

#[test]
fn cancel_v2_succeeds_for_active_session() {
    let mut state = make_state(None);
    let (sid, _) = open_session(&mut state);
    let out = state.cancel(PEER, Some(sid));
    assert_eq!(out.reply.status, 200);
    assert!(matches!(out.events[0], ReceiveEvent::TransferCancelled));
    let again = state.prepare_upload(PEER, None, None, &prepare_body("2.1", 1), true);
    assert_eq!(again.reply.status, 200);
}

#[test]
fn cancel_v2_rejects_wrong_ip() {
    let mut state = make_state(None);
    let (sid, _) = open_session(&mut state);
    assert_eq!(state.cancel(OTHER, Some(sid)).reply.status, 403);
    assert!(state.session.is_some());
}

#[test]
fn cancel_v2_rejects_wrong_session_id() {
    let mut state = make_state(None);
    open_session(&mut state);
    assert_eq!(state.cancel(PEER, Some("wrong".into())).reply.status, 403);
}

#[test]
fn cancel_returns_403_when_no_active_session() {
    let mut state = make_state(None);
    assert_eq!(state.cancel(PEER, Some("anything".into())).reply.status, 403);
}

#[test]
fn info_v1_returns_412_for_self_fingerprint() {
    let state = make_state(None);
    let err = state.info_v1(Some("test-fp".into()), "Linux").unwrap_err();
    assert_eq!(err.status, 412);
    let info = state.info_v1(Some("other".into()), "Linux").unwrap();
    assert_eq!(info.alias, "Tester");
    assert_eq!(info.version, "2.1");
    assert_eq!(info.fingerprint, "test-fp");
    assert!(!info.download);
}

#[test]
fn info_v1_returns_alias_version_and_lowercase_device_type() {
    let state = make_state(None);
    let info = state.info_v1(Some("other".into()), "Linux").unwrap();
    assert_eq!(info.alias, "Tester");
    assert_eq!(info.version, "2.1");
    assert_eq!(device_type_label(info.device_type.as_ref().unwrap()), "headless");
    assert_eq!(info.fingerprint, "test-fp");
    assert!(!info.download);
}

fn register_payload(alias: &str, fingerprint: &str) -> RegisterPayloadCompat {
    RegisterPayloadCompat {
        alias: alias.to_string(),
        version: None,
        device_model: None,
        device_type: None,
        fingerprint: fingerprint.to_string(),
        token: String::new(),
        port: Some(53317),
        protocol: Some("http".to_string()),
    }
}

#[test]
fn register_v1_echoes_alias_and_fingerprint() {
    let state = make_state(None);
    let info = state.register_v1(&register_payload("Peer", "peer-fp"), "Linux").unwrap();
    assert_eq!(info.alias, "Tester");
    assert_eq!(device_type_label(info.device_type.as_ref().unwrap()), "headless");
}

#[test]
fn register_v1_rejects_self_fingerprint() {
    let state = make_state(None);
    let err = state.register_v1(&register_payload("Self", "test-fp"), "Linux").unwrap_err();
    assert_eq!(err.status, 412);
}

#[test]
fn register_v1_rejects_missing_fingerprint() {
    let state = make_state(None);
    let err = state.register_v1(&register_payload("X", ""), "Linux").unwrap_err();
    assert_eq!(err.status, 400);
}

#[test]
fn info_response_uses_lowercase_headless_device_type() {
    let config = AppConfig::new("Scanner".to_string(), 53317, true, "/tmp/lsend-config".to_string(), None, None);
    let identity = Identity { cert_pem: String::new(), key_pem: String::new(), fingerprint: "abc123".to_string() };
    let resp = info_response(&config, &identity, "Linux");
    let device_type = resp.device_type.as_ref().unwrap();
    assert!(matches!(device_type, DeviceType::Headless));
    assert_eq!(device_type_label(device_type), "headless");
    assert_ne!(device_type_label(device_type), "HEADLESS");
    assert_eq!(resp.version, "2.1");
    assert_eq!(resp.fingerprint, "abc123");
    assert!(!resp.download);
}

#[test]
fn empty_file_id_takes_the_map_key() {
    let json = r#"{"info": {"alias": "S"}, "files": {"k1": {"id": "", "fileName": "a.txt", "size": 1, "fileType": "text/plain"}}}"#;
    let parsed = parse_prepare_upload_request(json).expect("parse");
    assert_eq!(parsed.file("k1").unwrap().id, "k1");
}

#[test]
fn empty_file_id_stays_empty_when_read_field_by_field() {
    // `file_name` instead of `fileName` does not fit the typed reading.
    let json = r#"{"info": {"alias": "S"}, "files": {"k1": {"id": "", "file_name": "a.txt", "size": 1, "fileType": "text/plain"}}}"#;
    let parsed = parse_prepare_upload_request(json).expect("parse");
    assert_eq!(parsed.file("k1").unwrap().id, "");
    let missing = r#"{"info": {"alias": "S"}, "files": {"k1": {"file_name": "a.txt", "size": 1, "fileType": "text/plain"}}}"#;
    assert_eq!(parse_prepare_upload_request(missing).unwrap().file("k1").unwrap().id, "k1");
}

#[test]
fn typed_metadata_reads_only_modified_and_accessed() {
    let typed = r#"{"info": {"alias": "S"}, "files": {"k": {"fileName": "a", "size": 1, "fileType": "t", "metadata": {"lastModified": "x", "accessed": "y"}}}}"#;
    let m = parse_prepare_upload_request(typed).unwrap().file("k").unwrap().metadata.clone().unwrap();
    assert_eq!(m.modified, None);
    assert_eq!(m.accessed.as_deref(), Some("y"));
    let loose = r#"{"info": {"alias": "S", "port": "x"}, "files": {"k": {"fileName": "a", "size": 1, "fileType": "t", "metadata": {"lastModified": "x"}}}}"#;
    let m = parse_prepare_upload_request(loose).unwrap().file("k").unwrap().metadata.clone().unwrap();
    assert_eq!(m.modified.as_deref(), Some("x"));
}
