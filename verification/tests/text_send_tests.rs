use lsend::text_send::{clipboard_text_bytes, read_message_text, text_file_name, text_preview};

#[test]
fn text_file_name_uses_txt_suffix() {
    assert!(text_file_name().ends_with(".txt"));
}

#[test]
fn message_rejects_empty_string() {
    assert!(read_message_text("").is_err());
}

#[test]
fn preview_decodes_utf8() {
    assert_eq!(text_preview(b"hello").as_deref(), Some("hello"));
}

#[test]
fn text_preview_returns_none_for_empty_input() {
    assert_eq!(text_preview(b""), None);
}

#[test]
fn read_message_text_round_trips_bytes() {
    let bytes = read_message_text("hello world").unwrap();
    assert_eq!(bytes, b"hello world".to_vec());
}

#[test]
fn text_file_name_is_uuidv4_with_txt_suffix() {
    let name = text_file_name();
    assert_eq!(name.len(), 40);
    assert!(name.ends_with(".txt"));
    let uuid_str = name.trim_end_matches(".txt");
    uuid::Uuid::parse_str(uuid_str).expect("valid uuid");
}

#[test]
fn preview_replaces_invalid_utf8() {
    assert_eq!(text_preview(&[0x68, 0xff, 0x69]).as_deref(), Some("h\u{fffd}i"));
    assert_eq!(read_message_text("héllo").unwrap().len(), 6);
}

#[test]
fn clipboard_text_must_not_be_empty() {
    assert_eq!(clipboard_text_bytes("").unwrap_err(), "Clipboard text is empty");
    assert_eq!(clipboard_text_bytes("hi").unwrap(), b"hi".to_vec());
}
