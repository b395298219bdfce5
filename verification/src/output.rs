//! How results reach the user: human text or one JSON document per line.
use vstd::prelude::*;

use crate::discovery::DiscoveredDevice;
use crate::error::{code_spec, hint_spec, message_spec, CliError};
use crate::events::{ReceiveEvent, ReceiveEventView};
use crate::text::{lower_seq, str_eq, str_to_lower, trim, trim_str};
use crate::transfer::{clone_opt, opt_view};
use crate::util::{device_type_label, device_type_name};

verus! {

broadcast use vstd::string::group_string_axioms;

/// Whether the value of the no-terminal environment variable asks for JSON:
/// `1`, `true` or `yes`, in any ASCII case, blanks around ignored.
pub open spec fn no_tui_requested(value: Seq<char>) -> bool {
    let v = lower_seq(trim(value));
    v == "1"@ || v == "true"@ || v == "yes"@
}

/// Reads the value of the no-terminal environment variable.
pub fn no_tui_value(value: &str) -> (r: bool)
    ensures
        r == no_tui_requested(value@),
{
    let t = trim_str(value);
    let v = str_to_lower(t.as_str());
    str_eq(v.as_str(), "1") || str_eq(v.as_str(), "true") || str_eq(v.as_str(), "yes")
}

/// Human-readable text, or JSON documents.
#[derive(Clone, Copy, Debug, PartialEq, Eq, Structural)]
pub enum OutputMode {
    Human,
    Json,
}

/// The output mode together with whether progress chatter is suppressed.
#[derive(Clone, Copy, Debug, PartialEq, Eq, Structural)]
pub struct OutputOptions {
    pub mode: OutputMode,
    pub quiet: bool,
}

impl OutputOptions {
    /// Options from the command line's `--json` and `--quiet` flags, where
    /// `force_json` says that the environment asks for JSON (no terminal on
    /// standard output, or `LSEND_NO_TUI` set).
    pub fn from_cli(json_flag: bool, quiet_flag: bool, force_json: bool) -> (r: OutputOptions)
        ensures
            r == OutputOptions::spec_new(json_flag || force_json, quiet_flag),
    {
        OutputOptions::new(json_flag || force_json, quiet_flag)
    }

    pub open spec fn spec_new(json: bool, quiet: bool) -> OutputOptions {
        OutputOptions {
            mode: if json {
                OutputMode::Json
            } else {
                OutputMode::Human
            },
            quiet: json || quiet,
        }
    }

    /// JSON output implies quiet.
    pub fn new(json: bool, quiet: bool) -> (r: OutputOptions)
        ensures
            r == OutputOptions::spec_new(json, quiet),
    {
        OutputOptions {
            mode: if json {
                OutputMode::Json
            } else {
                OutputMode::Human
            },
            quiet: json || quiet,
        }
    }

    pub fn is_json(&self) -> (r: bool)
        ensures
            r == (self.mode == OutputMode::Json),
    {
        self.mode == OutputMode::Json
    }

    pub fn show_human_progress(&self) -> (r: bool)
        ensures
            r == (self.mode == OutputMode::Human && !self.quiet),
    {
        self.mode == OutputMode::Human && !self.quiet
    }
}

// ---------------------------------------------------------------- JSON documents

/// A device as JSON output lists it.
#[derive(Debug, Clone)]
pub struct DeviceJson {
    pub alias: String,
    pub ip: String,
    pub port: u16,
    pub fingerprint: String,
    pub https: bool,
    pub version: String,
    pub device_type: Option<String>,
    pub device_model: Option<String>,
}

impl DeviceJson {
    /// The JSON form of a discovered device (`From<&DiscoveredDevice>`).
    pub fn from_device(device: &DiscoveredDevice) -> (r: DeviceJson)
        ensures
            r.alias@ == device.alias@,
            r.ip@ == device.ip@,
            r.port == device.port,
            r.fingerprint@ == device.fingerprint@,
            r.https == device.https,
            r.version@ == device.version@,
            opt_view(r.device_type) == match device.device_type {
                Some(t) => Some(device_type_name(t)),
                None => None,
            },
            opt_view(r.device_model) == opt_view(device.device_model),
    {
        DeviceJson {
            alias: device.alias.clone(),
            ip: device.ip.clone(),
            port: device.port,
            fingerprint: device.fingerprint.clone(),
            https: device.https,
            version: device.version.clone(),
            device_type: match &device.device_type {
                Some(t) => Some(device_type_label(t)),
                None => None,
            },
            device_model: clone_opt(&device.device_model),
        }
    }
}

/// The JSON document of a failed command.
#[derive(Debug, Clone)]
pub struct ErrorEnvelope {
    pub command: &'static str,
    pub ok: bool,
    pub code: &'static str,
    pub error: String,
    pub hint: Option<String>,
}

/// The error document of a command: its code, message and hint.
pub fn error_envelope(command: &'static str, err: &CliError) -> (r: ErrorEnvelope)
    ensures
        r.command@ == command@,
        !r.ok,
        r.code@ == code_spec(err@),
        r.error@ == message_spec(err@),
        opt_view(r.hint) == hint_spec(err@),
{
    ErrorEnvelope { command, ok: false, code: err.code(), error: err.to_string(), hint: err.hint() }
}

/// The alias document of `alias show`.
#[derive(Debug, Clone)]
pub struct AliasShowResult {
    pub command: &'static str,
    pub action: &'static str,
    pub ok: bool,
    pub alias: String,
    pub path: String,
    pub locale: String,
    pub created: bool,
}

/// The alias document of `alias regenerate`.
#[derive(Debug, Clone)]
pub struct AliasRegenerateResult {
    pub command: &'static str,
    pub action: &'static str,
    pub ok: bool,
    pub previous: Option<String>,
    pub alias: String,
    pub path: String,
    pub locale: String,
}

/// The alias document of `alias set`.
#[derive(Debug, Clone)]
pub struct AliasSetResult {
    pub command: &'static str,
    pub action: &'static str,
    pub ok: bool,
    pub previous: Option<String>,
    pub alias: String,
    pub path: String,
}

/// The document of `scan`.
#[derive(Debug, Clone)]
pub struct ScanResult {
    pub command: &'static str,
    pub ok: bool,
    pub timeout_ms: u64,
    pub devices: Vec<DeviceJson>,
}

/// One file's line in the document of `send`.
#[derive(Debug, Clone)]
pub struct SendFileResult {
    pub name: String,
    pub path: String,
    pub size: u64,
    pub status: &'static str,
}

/// What was sent: files, or one text message.
#[derive(Debug, Clone)]
pub enum SendKind {
    File { files: Vec<SendFileResult> },
    Message { text: String, size: u64, status: &'static str },
}

/// The document of `send`.
#[derive(Debug, Clone)]
pub struct SendResult {
    pub command: &'static str,
    pub ok: bool,
    pub target: DeviceJson,
    pub resolved_via: &'static str,
    pub kind: SendKind,
}

/// A receive event as a JSON line.
#[derive(Debug, Clone)]
pub enum ReceiveEventJson {
    Ready { alias: String, port: u16, https: bool, receive_dir: String },
    TransferStarted { sender_alias: String, file_count: usize },
    MessageReceived { sender_alias: String, text: String, size: u64 },
    FileSaved { path: String, file_name: String, size: u64 },
    TransferComplete,
    TransferFinishedWithErrors,
    TransferCancelled,
    Shutdown,
}

impl ReceiveEventJson {
    /// The JSON line of an event, field for field.
    pub fn from_event(e: &ReceiveEvent) -> (r: ReceiveEventJson)
        ensures
            r.view_event() == e@,
    {
        match e {
            ReceiveEvent::Ready { alias, port, https, receive_dir } => ReceiveEventJson::Ready {
                alias: alias.clone(),
                port: *port,
                https: *https,
                receive_dir: receive_dir.clone(),
            },
            ReceiveEvent::TransferStarted { sender_alias, file_count } => ReceiveEventJson::TransferStarted {
                sender_alias: sender_alias.clone(),
                file_count: *file_count,
            },
            ReceiveEvent::MessageReceived { sender_alias, text, size } => ReceiveEventJson::MessageReceived {
                sender_alias: sender_alias.clone(),
                text: text.clone(),
                size: *size,
            },
            ReceiveEvent::FileSaved { path, file_name, size } => ReceiveEventJson::FileSaved {
                path: path.clone(),
                file_name: file_name.clone(),
                size: *size,
            },
            ReceiveEvent::TransferComplete => ReceiveEventJson::TransferComplete,
            ReceiveEvent::TransferFinishedWithErrors => ReceiveEventJson::TransferFinishedWithErrors,
            ReceiveEvent::TransferCancelled => ReceiveEventJson::TransferCancelled,
            ReceiveEvent::Shutdown => ReceiveEventJson::Shutdown,
        }
    }

    pub open spec fn view_event(&self) -> ReceiveEventView {
        match self {
            ReceiveEventJson::Ready { alias, port, https, receive_dir } => ReceiveEventView::Ready {
                alias: alias@,
                port: *port,
                https: *https,
                receive_dir: receive_dir@,
            },
            ReceiveEventJson::TransferStarted { sender_alias, file_count } => ReceiveEventView::TransferStarted {
                sender_alias: sender_alias@,
                file_count: *file_count,
            },
            ReceiveEventJson::MessageReceived { sender_alias, text, size } => ReceiveEventView::MessageReceived {
                sender_alias: sender_alias@,
                text: text@,
                size: *size,
            },
            ReceiveEventJson::FileSaved { path, file_name, size } => ReceiveEventView::FileSaved {
                path: path@,
                file_name: file_name@,
                size: *size,
            },
            ReceiveEventJson::TransferComplete => ReceiveEventView::TransferComplete,
            ReceiveEventJson::TransferFinishedWithErrors => ReceiveEventView::TransferFinishedWithErrors,
            ReceiveEventJson::TransferCancelled => ReceiveEventView::TransferCancelled,
            ReceiveEventJson::Shutdown => ReceiveEventView::Shutdown,
        }
    }
}

} // verus!
