//! Text messages: turning typed, piped or copied text into a sendable file.
use vstd::prelude::*;
use vstd::utf8::{decode_utf8, encode_utf8, valid_utf8};

use crate::ids::{is_hyphenated_uuid, new_uuid_string};
use crate::text::concat2;

verus! {

broadcast use vstd::string::group_string_axioms;

/// The MIME type a text message is announced with.
pub const TEXT_FILE_TYPE: &'static str = "text/plain";

/// A fresh random name for a text message file: a UUID and `.txt`.
pub fn text_file_name() -> (r: String)
    ensures
        r@.len() == 40,
        is_hyphenated_uuid(r@.take(36)),
        r@.skip(36) == ".txt"@,
{
    let id = new_uuid_string();
    let r = concat2(id.as_str(), ".txt");
    proof {
        reveal_strlit(".txt");
        assert(r@.take(36) == id@);
        assert(r@.skip(36) == ".txt"@);
    }
    r
}

/// The bytes of a `--message` text (UTF-8); an empty message is refused.
pub fn read_message_text(message: &str) -> (r: Result<Vec<u8>, String>)
    ensures
        message@.len() == 0 ==> (r matches Err(e) && e@ == "--message must not be empty"@),
        message@.len() > 0 ==> (r matches Ok(b) && b@ == encode_utf8(message@)),
{
    if message.is_empty() {
        return Err(String::from_str("--message must not be empty"));
    }
    Ok(vstd::slice::slice_to_vec(message.as_bytes()))
}

/// The bytes of clipboard text (UTF-8); empty text is refused.
pub fn clipboard_text_bytes(text: &str) -> (r: Result<Vec<u8>, String>)
    ensures
        text@.len() == 0 ==> (r matches Err(e) && e@ == "Clipboard text is empty"@),
        text@.len() > 0 ==> (r matches Ok(b) && b@ == encode_utf8(text@)),
{
    if text.is_empty() {
        return Err(String::from_str("Clipboard text is empty"));
    }
    Ok(vstd::slice::slice_to_vec(text.as_bytes()))
}

/// What `String::from_utf8_lossy` makes of some bytes: the text they encode,
/// with each invalid sequence shown as U+FFFD.
pub uninterp spec fn utf8_lossy(data: Seq<u8>) -> Seq<char>;

/// `String::from_utf8_lossy(data).into_owned()`. Valid UTF-8 decodes to the
/// text it encodes, as std documents; for other bytes only the name is stated.
#[verifier::external_body]
fn decode_lossy(data: &[u8]) -> (r: String)
    ensures
        r@ == utf8_lossy(data@),
        valid_utf8(data@) ==> r@ == decode_utf8(data@),
{
    String::from_utf8_lossy(data).into_owned()
}

/// The text shown as a message's preview: the bytes decoded, none for no bytes.
pub fn text_preview(data: &[u8]) -> (r: Option<String>)
    ensures
        data@.len() == 0 ==> r is None,
        data@.len() > 0 ==> (r matches Some(t) && t@ == utf8_lossy(data@)),
        data@.len() > 0 && valid_utf8(data@) ==> (r matches Some(t) && t@ == decode_utf8(data@)),
{
    if data.len() == 0 {
        return None;
    }
    Some(decode_lossy(data))
}

} // verus!
