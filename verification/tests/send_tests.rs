use lsend::config::AppConfig;
use lsend::discovery::DiscoveredDevice;
use lsend::identity::Identity;
use lsend::output::{SendFileResult, SendKind};
use lsend::send::{
    build_prepare_request, build_send_result, file_result, find_token, input_mode, is_message_send,
    local_file_from_bytes, local_file_from_path, message_status, plan_results, plan_uploads, prepare_answer, require_inputs, InputMode,
    PrepareAnswer, UploadStep,
};

#[test]
fn is_message_send_classifies_each_mode() {
    assert!(is_message_send(true, false, false));
    assert!(is_message_send(false, true, false));
    assert!(is_message_send(false, false, true));
    assert!(is_message_send(false, true, true));
    assert!(!is_message_send(false, false, false));
}

#[test]
fn rejects_mixed_paths_and_text_modes() {
    match input_mode(true, true, None, false) {
        Err(err) => assert!(err.contains("Cannot combine")),
        Ok(_) => panic!("expected error when mixing paths with --text"),
    }
    assert_eq!(input_mode(false, false, Some("hi".into()), true).unwrap(), InputMode::Message("hi".into()));
    assert_eq!(input_mode(true, false, None, false).unwrap(), InputMode::Paths);
}

#[test]
fn text_file_uses_plain_mime_and_txt_name() {
    let file = local_file_from_bytes(b"hello".to_vec(), "stdin");
    assert!(file.file_name.ends_with(".txt"));
    assert_eq!(file.file_type, "text/plain");
    assert_eq!(file.in_memory_preview().as_deref(), Some("hello"));
}

#[test]
fn text_file_message_returns_full_text() {
    let file = local_file_from_bytes(b"hello world".to_vec(), "inline");
    assert_eq!(file.message_text(), "hello world");
}

#[test]
fn text_file_size_matches_byte_length() {
    let file = local_file_from_bytes(b"\x00\x01\x02".to_vec(), "x");
    assert_eq!(file.size, 3);
}

#[test]
fn local_file_display_source_for_memory() {
    let file = local_file_from_bytes(b"x".to_vec(), "stdin");
    let display = file.display_source();
    assert!(display.contains("stdin") || !display.is_empty());
}

#[test]
fn local_file_from_path_captures_size_and_mime() {
    let file = local_file_from_path("/tmp/hello.txt", "hello.txt", 5);
    assert_eq!(file.file_name, "hello.txt");
    assert_eq!(file.size, 5);
    assert!(file.file_type.starts_with("text/"), "got: {}", file.file_type);
    assert_eq!(file.display_source(), "/tmp/hello.txt");
    let unknown = local_file_from_path("/tmp/blob.zzzunknown", "blob.zzzunknown", 1);
    assert_eq!(unknown.file_type, "application/octet-stream");
}

fn device() -> DiscoveredDevice {
    DiscoveredDevice {
        alias: "Peer".into(),
        ip: "192.168.1.10".into(),
        port: 53317,
        fingerprint: String::new(),
        https: true,
        version: "2.1".into(),
        device_type: None,
        device_model: None,
    }
}

#[test]
fn single_text_file_is_announced_with_preview() {
    let config = AppConfig::new("Me".into(), 53317, false, "c".into(), None, None);
    let identity = Identity { cert_pem: String::new(), key_pem: String::new(), fingerprint: "fp".into() };
    let files = vec![local_file_from_bytes(b"hi".to_vec(), "inline")];
    let req = build_prepare_request(&config, &identity, &files, "Linux");
    assert_eq!(req.info.alias, "Me");
    assert_eq!(req.info.version, "2.1");
    assert_eq!(req.info.fingerprint, "fp");
    assert_eq!(req.files.len(), 1);
    assert_eq!(req.files[0].1.preview.as_deref(), Some("hi"));

    let two = vec![local_file_from_bytes(b"a".to_vec(), "x"), local_file_from_bytes(b"b".to_vec(), "y")];
    let req = build_prepare_request(&config, &identity, &two, "Linux");
    assert!(req.files.iter().all(|(_, f)| f.preview.is_none()));
}

#[test]
fn tokens_and_statuses_decide_the_result() {
    let tokens = vec![("a".to_string(), "t1".to_string())];
    assert_eq!(find_token(&tokens, "a").as_deref(), Some("t1"));
    assert_eq!(find_token(&tokens, "b"), None);
    let file = local_file_from_bytes(b"hey".to_vec(), "inline");
    let results: Vec<SendFileResult> = vec![file_result(&file, "finished"), file_result(&file, "skipped")];
    assert_eq!(message_status(&results), "skipped");
    assert_eq!(message_status(&results[..1].to_vec()), "finished");
    let result = build_send_result(&device(), "ip", true, &vec![file], vec![], "finished");
    match result.kind {
        SendKind::Message { text, size, status } => {
            assert_eq!(text, "hey");
            assert_eq!(size, 3);
            assert_eq!(status, "finished");
        }
        other => panic!("unexpected: {other:?}"),
    }
    assert_eq!(result.target.ip, "192.168.1.10");
    assert_eq!(result.resolved_via, "ip");
}

#[test]
fn prepare_answer_reads_the_status_code() {
    assert_eq!(prepare_answer(204), PrepareAnswer::Delivered);
    assert_eq!(prepare_answer(200), PrepareAnswer::Accepted);
    assert_eq!(prepare_answer(299), PrepareAnswer::Accepted);
    assert_eq!(prepare_answer(401), PrepareAnswer::Rejected);
    assert_eq!(prepare_answer(409), PrepareAnswer::Rejected);
    assert_eq!(prepare_answer(500), PrepareAnswer::Rejected);
    assert_eq!(prepare_answer(199), PrepareAnswer::Rejected);
}

#[test]
fn plan_uploads_accepted_files_and_skips_the_rest() {
    let mut a = local_file_from_path("/tmp/a.txt", "a.txt", 1);
    a.id = "id-a".into();
    let mut b = local_file_from_path("/tmp/b.txt", "b.txt", 2);
    b.id = "id-b".into();
    let files = vec![a, b];
    let tokens = vec![("id-b".to_string(), "tok-b".to_string())];
    let plan = plan_uploads(&files, &tokens);
    assert_eq!(plan.len(), 2);
    assert!(matches!(plan[0], UploadStep::Skip));
    match &plan[1] {
        UploadStep::Upload { token } => assert_eq!(token, "tok-b"),
        UploadStep::Skip => panic!("b was accepted"),
    }
    let results = plan_results(&files, &plan);
    assert_eq!(results[0].status, "skipped");
    assert_eq!(results[0].name, "a.txt");
    assert_eq!(results[0].path, "/tmp/a.txt");
    assert_eq!(results[1].status, "finished");
    assert_eq!(results[1].size, 2);
    assert_eq!(message_status(&results), "skipped");
}

#[test]
fn send_finishes_when_every_file_is_accepted() {
    let mut a = local_file_from_path("/tmp/a.txt", "a.txt", 1);
    a.id = "id-a".into();
    let files = vec![a];
    let tokens = vec![("id-a".to_string(), "tok".to_string())];
    let results = plan_results(&files, &plan_uploads(&files, &tokens));
    assert_eq!(message_status(&results), "finished");
    let none: Vec<(String, String)> = vec![];
    let results = plan_results(&files, &plan_uploads(&files, &none));
    assert_eq!(message_status(&results), "skipped");
}

#[test]
fn require_inputs_refuses_an_empty_send() {
    let none: Vec<lsend::send::LocalFile> = vec![];
    assert!(matches!(require_inputs(&none), Err(lsend::error::CliError::NoFiles)));
    let one = vec![local_file_from_bytes(b"x".to_vec(), "inline")];
    assert!(require_inputs(&one).is_ok());
}
