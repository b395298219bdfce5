//! Sending: which inputs make up a transfer, the prepare-upload request that
//! announces them, and what the receiver's answer means for each file.
use vstd::prelude::*;
use vstd::utf8::{decode_utf8, encode_utf8, valid_utf8};

use crate::config::{AppConfig, PROTOCOL_VERSION};
use crate::discovery::{DiscoveredDevice, ProtocolType};
use crate::error::{CliError, CliErrorView};
use crate::identity::Identity;
use crate::ids::{is_hyphenated_uuid, new_uuid_string};
use crate::output::{DeviceJson, SendFileResult, SendKind, SendResult};
use crate::text::str_eq;
use crate::text_send::{text_file_name, text_preview, utf8_lossy, TEXT_FILE_TYPE};
use crate::transfer::{opt_view, FileDto};
use crate::util::DeviceType;

verus! {

broadcast use vstd::string::group_string_axioms;

/// Files are streamed in pieces of this many bytes.
pub const CHUNK_SIZE: usize = 524288;

/// What a send was asked to do.
#[derive(Debug, Clone)]
pub struct SendRequest {
    pub target: String,
    pub paths: Vec<String>,
    pub text_stdin: bool,
    pub message: Option<String>,
    pub clipboard: bool,
    pub pin: Option<String>,
    pub no_scan: bool,
}

/// Where a file's bytes come from.
#[derive(Debug, Clone)]
pub enum FileSource {
    Path(String),
    Memory { data: Vec<u8>, label: String },
}

/// A file to send.
#[derive(Debug, Clone)]
pub struct LocalFile {
    pub id: String,
    pub file_name: String,
    pub source: FileSource,
    pub size: u64,
    pub file_type: String,
}

pub open spec fn preview_spec(source: FileSource) -> Option<Seq<char>> {
    match source {
        FileSource::Memory { data, .. } => if data@.len() > 0 {
            Some(utf8_lossy(data@))
        } else {
            None
        },
        FileSource::Path(_) => None,
    }
}

impl LocalFile {
    /// Where the file came from, for display: its path, or the label of an
    /// in-memory text (`stdin`, `inline`, `clipboard`).
    pub fn display_source(&self) -> (r: String)
        ensures
            r@ == match self.source {
                FileSource::Path(p) => p@,
                FileSource::Memory { label, .. } => label@,
            },
    {
        match &self.source {
            FileSource::Path(path) => path.clone(),
            FileSource::Memory { label, .. } => label.clone(),
        }
    }

    /// The text of an in-memory file; files on disk have none.
    pub fn in_memory_preview(&self) -> (r: Option<String>)
        ensures
            opt_view(r) == preview_spec(self.source),
    {
        match &self.source {
            FileSource::Memory { data, .. } => text_preview(data.as_slice()),
            FileSource::Path(_) => None,
        }
    }

    /// The text of a message file, empty when there is none.
    pub fn message_text(&self) -> (r: String)
        ensures
            r@ == match preview_spec(self.source) {
                Some(t) => t,
                None => Seq::empty(),
            },
    {
        match self.in_memory_preview() {
            Some(t) => t,
            None => String::new(),
        }
    }
}

/// A send is a text message when stdin, `--message` or the clipboard supplies it.
pub fn is_message_send(text_stdin: bool, has_message: bool, clipboard: bool) -> (r: bool)
    ensures
        r == (text_stdin || has_message || clipboard),
{
    text_stdin || has_message || clipboard
}

/// Which input a send reads.
#[derive(Debug, Clone, PartialEq, Eq)]
pub enum InputMode {
    Stdin,
    Message(String),
    Clipboard,
    Paths,
}

/// Chooses the input: text modes cannot be combined with
/// paths; stdin wins over `--message`, which wins over the clipboard.
pub fn input_mode(has_paths: bool, text_stdin: bool, message: Option<String>, clipboard: bool) -> (r: Result<InputMode, String>)
    ensures
        (text_stdin || message is Some || clipboard) && has_paths ==> (r matches Err(e)
            && e@ == "Cannot combine file paths with --text, --message, or --clipboard"@),
        !((text_stdin || message is Some || clipboard) && has_paths) ==> (r matches Ok(m) && (
            if text_stdin {
                m == InputMode::Stdin
            } else if message is Some {
                m == InputMode::Message(message->0)
            } else if clipboard {
                m == InputMode::Clipboard
            } else {
                m == InputMode::Paths
            })),
{
    let text_mode = text_stdin || message.is_some() || clipboard;
    if text_mode && has_paths {
        return Err(String::from_str("Cannot combine file paths with --text, --message, or --clipboard"));
    }
    if text_stdin {
        Ok(InputMode::Stdin)
    } else {
        match message {
            Some(m) => Ok(InputMode::Message(m)),
            None => if clipboard {
                Ok(InputMode::Clipboard)
            } else {
                Ok(InputMode::Paths)
            },
        }
    }
}

/// An in-memory text file: a fresh id, a fresh `.txt` name, the bytes, and
/// the plain-text type.
pub fn local_file_from_bytes(data: Vec<u8>, label: &str) -> (r: LocalFile)
    ensures
        is_hyphenated_uuid(r.id@),
        r.file_name@.len() == 40,
        r.file_name@.skip(36) == ".txt"@,
        (r.source matches FileSource::Memory { data: d, label: l } && d@ == data@ && l@ == label@),
        r.size == data@.len(),
        r.file_type@ == TEXT_FILE_TYPE@,
{
    let size = data.len() as u64;
    LocalFile {
        id: new_uuid_string(),
        file_name: text_file_name(),
        source: FileSource::Memory { data, label: String::from_str(label) },
        size,
        file_type: String::from_str(TEXT_FILE_TYPE),
    }
}

/// The MIME type guessed from a path's extension (`application/octet-stream`
/// when nothing is known).
pub uninterp spec fn mime_for_path(path: Seq<char>) -> Seq<char>;

/// `mime_guess::from_path(path).first_or_octet_stream().essence_str()`.
#[verifier::external_body]
fn guess_mime(path: &str) -> (r: String)
    ensures
        r@ == mime_for_path(path@),
{
    mime_guess::from_path(path).first_or_octet_stream().essence_str().to_string()
}

/// A file on disk of the given size, sent under `file_name`, typed by its
/// extension, with a fresh id.
pub fn local_file_from_path(path: &str, file_name: &str, size: u64) -> (r: LocalFile)
    ensures
        is_hyphenated_uuid(r.id@),
        r.file_name@ == file_name@,
        (r.source matches FileSource::Path(p) && p@ == path@),
        r.size == size,
        r.file_type@ == mime_for_path(path@),
{
    LocalFile {
        id: new_uuid_string(),
        file_name: String::from_str(file_name),
        source: FileSource::Path(String::from_str(path)),
        size,
        file_type: guess_mime(path),
    }
}

// ---------------------------------------------------------------- the request

/// How this device introduces itself to a receiver.
#[derive(Debug, Clone)]
pub struct RegisterDto {
    pub alias: String,
    pub version: String,
    pub device_model: Option<String>,
    pub device_type: Option<DeviceType>,
    pub fingerprint: String,
    pub port: u16,
    pub protocol: ProtocolType,
    pub download: bool,
}

/// The prepare-upload request a sender posts.
#[derive(Debug, Clone)]
pub struct PrepareUploadRequest {
    pub info: RegisterDto,
    pub files: Vec<(String, FileDto)>,
}

/// A single plain-text file carries its text as preview (an inline message).
pub open spec fn includes_preview(files: Seq<LocalFile>) -> bool {
    files.len() == 1 && files[0].file_type@ == TEXT_FILE_TYPE@
}

pub open spec fn announced(f: LocalFile, with_preview: bool) -> crate::transfer::FileDtoView {
    crate::transfer::FileDtoView {
        id: f.id@,
        file_name: f.file_name@,
        size: f.size,
        file_type: f.file_type@,
        sha256: None,
        preview: if with_preview { preview_spec(f.source) } else { None },
        metadata: None,
    }
}

/// The request announcing the files, keyed by id, with this device's
/// description.
pub fn build_prepare_request(config: &AppConfig, identity: &Identity, files: &Vec<LocalFile>, device_model: &str) -> (r: PrepareUploadRequest)
    ensures
        r.info.alias@ == config.alias@,
        r.info.version@ == PROTOCOL_VERSION@,
        opt_view(r.info.device_model) == Some(device_model@),
        r.info.device_type == Some(DeviceType::Headless),
        r.info.fingerprint@ == identity.fingerprint@,
        r.info.port == config.port,
        r.info.protocol == (if config.https { ProtocolType::Https } else { ProtocolType::Http }),
        !r.info.download,
        r.files@.len() == files@.len(),
        forall|i: int| 0 <= i < files@.len() ==> (#[trigger] r.files@[i]).0@ == files@[i].id@
            && r.files@[i].1@ == announced(files@[i], includes_preview(files@)),
{
    let info = RegisterDto {
        alias: config.alias.clone(),
        version: String::from_str(PROTOCOL_VERSION),
        device_model: Some(String::from_str(device_model)),
        device_type: Some(DeviceType::Headless),
        fingerprint: identity.fingerprint.clone(),
        port: config.port,
        protocol: if config.https {
            ProtocolType::Https
        } else {
            ProtocolType::Http
        },
        download: false,
    };
    let with_preview = files.len() == 1 && str_eq(files[0].file_type.as_str(), TEXT_FILE_TYPE);
    let mut out: Vec<(String, FileDto)> = Vec::new();
    let mut i: usize = 0;
    while i < files.len()
        invariant
            i <= files@.len(),
            with_preview == includes_preview(files@),
            out@.len() == i,
            forall|k: int| 0 <= k < i ==> (#[trigger] out@[k]).0@ == files@[k].id@
                && out@[k].1@ == announced(files@[k], includes_preview(files@)),
        decreases files@.len() - i,
    {
        let f = &files[i];
        let preview = if with_preview {
            f.in_memory_preview()
        } else {
            None
        };
        let dto = FileDto {
            id: f.id.clone(),
            file_name: f.file_name.clone(),
            size: f.size,
            file_type: f.file_type.clone(),
            sha256: None,
            preview,
            metadata: None,
        };
        out.push((f.id.clone(), dto));
        i = i + 1;
    }
    PrepareUploadRequest { info, files: out }
}

// ---------------------------------------------------------------- the answer

/// The token the receiver issued for a file id, if any.
pub open spec fn token_for(tokens: Seq<(String, String)>, id: Seq<char>) -> Option<Seq<char>>
    decreases tokens.len(),
{
    if tokens.len() == 0 {
        None
    } else if tokens[0].0@ == id {
        Some(tokens[0].1@)
    } else {
        token_for(tokens.drop_first(), id)
    }
}

/// Looks up the token issued for a file id.
pub fn find_token(tokens: &Vec<(String, String)>, id: &str) -> (r: Option<String>)
    ensures
        opt_view(r) == token_for(tokens@, id@),
{
    let mut i: usize = 0;
    assert(tokens@.skip(0) == tokens@);
    while i < tokens.len()
        invariant
            i <= tokens@.len(),
            token_for(tokens@, id@) == token_for(tokens@.skip(i as int), id@),
        decreases tokens@.len() - i,
    {
        let ghost rest = tokens@.skip(i as int);
        assert(rest.drop_first() == tokens@.skip(i + 1));
        assert(rest[0] == tokens@[i as int]);
        if str_eq(tokens[i].0.as_str(), id) {
            return Some(tokens[i].1.clone());
        }
        i = i + 1;
    }
    None
}

/// A file's line in the result, with a status.
pub fn file_result(local: &LocalFile, status: &'static str) -> (r: SendFileResult)
    ensures
        r.name@ == local.file_name@,
        r.path@ == match local.source {
            FileSource::Path(p) => p@,
            FileSource::Memory { label, .. } => label@,
        },
        r.size == local.size,
        r.status@ == status@,
{
    SendFileResult { name: local.file_name.clone(), path: local.display_source(), size: local.size, status }
}

/// A message's status: finished when every file finished, else skipped.
pub fn message_status(results: &Vec<SendFileResult>) -> (r: &'static str)
    ensures
        (forall|i: int| 0 <= i < results@.len() ==> (#[trigger] results@[i]).status@ == "finished"@) ==> r@ == "finished"@,
        !(forall|i: int| 0 <= i < results@.len() ==> (#[trigger] results@[i]).status@ == "finished"@) ==> r@ == "skipped"@,
{
    let mut i: usize = 0;
    while i < results.len()
        invariant
            i <= results@.len(),
            forall|k: int| 0 <= k < i ==> (#[trigger] results@[k]).status@ == "finished"@,
        decreases results@.len() - i,
    {
        if !str_eq(results[i].status, "finished") {
            return "skipped";
        }
        i = i + 1;
    }
    "finished"
}

/// The document of a completed send: a message's text
/// and size, or the files' lines. A message send carries exactly one file.
pub fn build_send_result(
    device: &DiscoveredDevice,
    resolved_via: &'static str,
    is_message: bool,
    locals: &Vec<LocalFile>,
    file_results: Vec<SendFileResult>,
    message_status: &'static str,
) -> (r: SendResult)
    requires
        is_message ==> locals@.len() > 0,
    ensures
        r.command@ == "send"@,
        r.ok,
        r.target.alias@ == device.alias@ && r.target.ip@ == device.ip@ && r.target.port == device.port,
        r.resolved_via@ == resolved_via@,
        is_message ==> (r.kind matches SendKind::Message { text, size, status } && text@ == match preview_spec(locals@[0].source) {
            Some(t) => t,
            None => Seq::empty(),
        } && size == locals@[0].size && status@ == message_status@),
        !is_message ==> (r.kind matches SendKind::File { files } && files@ == file_results@),
{
    let kind = if is_message {
        let local = &locals[0];
        SendKind::Message { text: local.message_text(), size: local.size, status: message_status }
    } else {
        SendKind::File { files: file_results }
    };
    SendResult { command: "send", ok: true, target: DeviceJson::from_device(device), resolved_via, kind }
}

/// A send needs something to send: no inputs is the no-files error.
pub fn require_inputs(files: &Vec<LocalFile>) -> (r: Result<(), CliError>)
    ensures
        files@.len() == 0 ==> (r matches Err(e) && e@ == CliErrorView::NoFiles),
        files@.len() > 0 ==> r is Ok,
{
    if files.len() == 0 {
        Err(CliError::NoFiles)
    } else {
        Ok(())
    }
}

/// How the receiver answered a prepare-upload request.
#[derive(Debug, Clone, Copy, PartialEq, Eq)]
pub enum PrepareAnswer {
    /// `204`: a text message was shown; nothing is uploaded.
    Delivered,
    /// Another `2xx`: the body lists the files accepted, with their tokens.
    Accepted,
    /// Anything else: the transfer was refused.
    Rejected,
}

/// Reads the status code of the answer to prepare-upload.
pub fn prepare_answer(status: u16) -> (r: PrepareAnswer)
    ensures
        status == 204 ==> r == PrepareAnswer::Delivered,
        (200 <= status < 300 && status != 204) ==> r == PrepareAnswer::Accepted,
        !(200 <= status < 300) ==> r == PrepareAnswer::Rejected,
{
    if status == 204 {
        PrepareAnswer::Delivered
    } else if 200 <= status && status < 300 {
        PrepareAnswer::Accepted
    } else {
        PrepareAnswer::Rejected
    }
}

/// What the sender does with one file once the receiver has answered.
#[derive(Debug, Clone)]
pub enum UploadStep {
    /// Upload it with the token the receiver issued for it.
    Upload { token: String },
    /// The receiver did not accept it.
    Skip,
}

pub open spec fn step_token(s: UploadStep) -> Option<Seq<char>> {
    match s {
        UploadStep::Upload { token } => Some(token@),
        UploadStep::Skip => None,
    }
}

/// One step per file, in order: upload the files that got a token, skip the others.
pub fn plan_uploads(files: &Vec<LocalFile>, tokens: &Vec<(String, String)>) -> (r: Vec<UploadStep>)
    ensures
        r@.len() == files@.len(),
        forall|i: int| 0 <= i < files@.len() ==> step_token(#[trigger] r@[i]) == token_for(tokens@, files@[i].id@),
{
    let mut out: Vec<UploadStep> = Vec::new();
    let mut i: usize = 0;
    while i < files.len()
        invariant
            i <= files@.len(),
            out@.len() == i,
            forall|k: int| 0 <= k < i ==> step_token(#[trigger] out@[k]) == token_for(tokens@, files@[k].id@),
        decreases files@.len() - i,
    {
        let step = match find_token(tokens, files[i].id.as_str()) {
            Some(token) => UploadStep::Upload { token },
            None => UploadStep::Skip,
        };
        out.push(step);
        i = i + 1;
    }
    out
}

/// The status a file ends with once every upload of the plan went through.
pub open spec fn step_status(s: UploadStep) -> Seq<char> {
    match s {
        UploadStep::Upload { .. } => "finished"@,
        UploadStep::Skip => "skipped"@,
    }
}

/// The files' lines after the plan has run: `finished` for each upload,
/// `skipped` for each file the receiver left out. (A failed upload ends the
/// send with an error, so no line is ever written for it.)
pub fn plan_results(files: &Vec<LocalFile>, plan: &Vec<UploadStep>) -> (r: Vec<SendFileResult>)
    requires
        plan@.len() == files@.len(),
    ensures
        r@.len() == files@.len(),
        forall|i: int|
            0 <= i < files@.len() ==> {
                &&& (#[trigger] r@[i]).name@ == files@[i].file_name@
                &&& r@[i].path@ == match files@[i].source {
                    FileSource::Path(p) => p@,
                    FileSource::Memory { label, .. } => label@,
                }
                &&& r@[i].size == files@[i].size
                &&& r@[i].status@ == step_status(plan@[i])
            },
{
    proof {
        reveal_strlit("finished");
        reveal_strlit("skipped");
    }
    let mut out: Vec<SendFileResult> = Vec::new();
    let mut i: usize = 0;
    while i < files.len()
        invariant
            i <= files@.len(),
            plan@.len() == files@.len(),
            out@.len() == i,
            forall|k: int|
                0 <= k < i ==> {
                    &&& (#[trigger] out@[k]).name@ == files@[k].file_name@
                    &&& out@[k].path@ == match files@[k].source {
                        FileSource::Path(p) => p@,
                        FileSource::Memory { label, .. } => label@,
                    }
                    &&& out@[k].size == files@[k].size
                    &&& out@[k].status@ == step_status(plan@[k])
                },
        decreases files@.len() - i,
    {
        let status: &'static str = match &plan[i] {
            UploadStep::Upload { .. } => "finished",
            UploadStep::Skip => "skipped",
        };
        out.push(file_result(&files[i], status));
        i = i + 1;
    }
    out
}

// ---------------------------------------------------------------- laws

/// A send ends `finished` exactly when the receiver accepted every file; if
/// it left one out, the send ends `skipped`.
pub proof fn law_send_finishes_iff_all_accepted(
    files: Seq<LocalFile>,
    tokens: Seq<(String, String)>,
    plan: Seq<UploadStep>,
    results: Seq<SendFileResult>,
)
    requires
        plan.len() == files.len(),
        results.len() == files.len(),
        forall|i: int| 0 <= i < files.len() ==> step_token(#[trigger] plan[i]) == token_for(tokens, files[i].id@),
        forall|i: int| 0 <= i < files.len() ==> (#[trigger] results[i]).status@ == step_status(plan[i]),
    ensures
        (forall|i: int| 0 <= i < results.len() ==> (#[trigger] results[i]).status@ == "finished"@) <==> (forall|i: int|
            0 <= i < files.len() ==> (#[trigger] token_for(tokens, files[i].id@)) is Some),
{
    reveal_strlit("finished");
    reveal_strlit("skipped");
    if forall|i: int| 0 <= i < files.len() ==> (#[trigger] token_for(tokens, files[i].id@)) is Some {
        assert forall|i: int| 0 <= i < results.len() implies (#[trigger] results[i]).status@ == "finished"@ by {
            assert(step_token(plan[i]) == token_for(tokens, files[i].id@));
        }
    }
    if forall|i: int| 0 <= i < results.len() ==> (#[trigger] results[i]).status@ == "finished"@ {
        assert forall|i: int| 0 <= i < files.len() implies (#[trigger] token_for(tokens, files[i].id@)) is Some by {
            assert(results[i].status@ == "finished"@);
            assert(step_token(plan[i]) == token_for(tokens, files[i].id@));
            if plan[i] is Skip {
                assert("skipped"@ != "finished"@) by {
                    assert("skipped"@[0] != "finished"@[0]);
                }
            }
        }
    }
}

/// A message typed with `--message` is delivered as its own text: its bytes
/// preview as the message again.
pub proof fn law_message_preview_round_trips(message: Seq<char>)
    requires
        message.len() > 0,
    ensures
        valid_utf8(encode_utf8(message)),
        decode_utf8(encode_utf8(message)) == message,
        encode_utf8(message).len() > 0,
{
    vstd::utf8::encode_utf8_valid_utf8(message);
    vstd::utf8::encode_utf8_decode_utf8(message);
    assert(encode_utf8(message) == vstd::utf8::encode_scalar(message[0] as u32) + encode_utf8(message.drop_first()));
}

} // verus!
