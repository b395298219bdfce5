//! The guides for automated callers (`lsend agent [topic]`).
use vstd::prelude::*;

verus! {

/// The guide topics.
#[derive(Debug, Clone, Copy, PartialEq, Eq, Structural)]
pub enum AgentCommand {
    Scan,
    Send,
    Receive,
    Errors,
    Eval,
}

/// The `overview` guide.
pub const OVERVIEW_GUIDE: &'static str = "lsend-cli — agent integration guide (progressive disclosure)\n\nRun `lsend agent <topic>` for focused instructions:\n\n  scan      Discover devices on the LAN\n  send      Send files to a device\n  receive   Accept incoming files\n  errors    Exit codes and error JSON schema\n  eval      Smoke-test checklist for agents\n\nGlobal flags for automation:\n  --json           Structured stdout (required for parsing; auto when piped)\n  --quiet          Suppress human progress text (implied by --json)\n  --verbose / -v   Diagnostics on stderr only\n  LSEND_NO_TUI=1   Force JSON stdout (same as --json)\n\nQuick start:\n  lsend scan --json --timeout 5000\n  lsend send <IP> ./file.pdf --json\n  lsend receive --json --once --dir /tmp/inbox\n\nFull reference: AGENTS.md in the repository root.\n";

/// The `scan` guide.
pub const SCAN_GUIDE: &'static str = "## scan — discover LocalSend devices\n\nCommand:\n  lsend scan --json [--timeout MS]\n\nDefaults:\n  timeout: 1500 ms (multicast wait is at least 3500 ms internally)\n\nSuccess stdout (single JSON object):\n  {\n    \"command\": \"scan\",\n    \"ok\": true,\n    \"timeout_ms\": 1500,\n    \"devices\": [\n      {\n        \"alias\": \"Cute Apple\",\n        \"ip\": \"192.168.30.162\",\n        \"port\": 53317,\n        \"fingerprint\": \"...\",\n        \"https\": true,\n        \"version\": \"2.1\",\n        \"device_type\": \"desktop\",\n        \"device_model\": \"macOS\"\n      }\n    ]\n  }\n\nNotes:\n  - Empty devices[] with ok:true means no peers were found (not an error).\n  - Prefer device.ip for subsequent send commands (avoid alias rescan).\n  - Do not run scan while debugging with -v unless you need stderr logs.\n";

/// The `send` guide.
pub const SEND_GUIDE: &'static str = "## send — transfer files to a device\n\n Command:\n  lsend send <TARGET> [FILE...] --json [--pin PIN] [--no-scan]\n  lsend send <TARGET> --text --json [--no-scan]          # stdin pipe\n  lsend send <TARGET> --message \"...\" --json [--no-scan]\n  lsend send <TARGET> --clipboard --json [--no-scan]\n\nTARGET:\n  - IP address (recommended for agents): no network scan, fast\n  - Alias: triggers a full scan unless --no-scan is set\n\nRecommended agent workflow:\n  1. DEVICES=$(lsend scan --json --timeout 5000)\n  2. Pick .devices[].ip from JSON\n  3. lsend send \"$IP\" /path/to/file --json --no-scan\n\nText / automation:\n  echo \"hello\" | lsend send \"$IP\" --text --json --no-scan\n  lsend send \"$IP\" --message \"hello\" --json --no-scan\n  lsend send \"$IP\" --clipboard --json --no-scan\n\nSuccess stdout:\n  {\n    \"command\": \"send\",\n    \"ok\": true,\n    \"target\": { \"alias\": \"...\", \"ip\": \"...\", \"port\": 53317, ... },\n    \"resolved_via\": \"ip\",\n    \"files\": [\n      { \"name\": \"file.pdf\", \"path\": \"/abs/file.pdf\", \"size\": 1024, \"status\": \"sent\" }\n    ]\n  }\n\nresolved_via:\n  - \"ip\"    — target was an IP address (preferred)\n  - \"scan\"  — alias required a discovery scan\n\nFlags:\n  --no-scan   Fail if TARGET is not an IP (prevents slow implicit scan)\n  --pin PIN   Required when the receiver uses LSEND_RECEIVE_PIN\n  --text      Read UTF-8 from stdin (pipe required; do not use on a TTY)\n  --message   Send inline text as a .txt file (text/plain)\n  --clipboard Send plain text from the system clipboard\n";

/// The `receive` guide.
pub const RECEIVE_GUIDE: &'static str = "## receive — accept incoming files\n\nCommand:\n  lsend receive --json --once [--dir PATH] [--pin PIN]\n\nAlways use --once for agents so the process exits after the first transfer.\n\nStdout is NDJSON (one JSON object per line):\n  {\"event\":\"ready\",\"alias\":\"...\",\"port\":53317,\"https\":true,\"receive_dir\":\"...\"}\n  {\"event\":\"transfer_started\",\"sender_alias\":\"...\",\"file_count\":2}\n  {\"event\":\"file_saved\",\"path\":\"...\",\"file_name\":\"...\",\"size\":4096}\n  {\"event\":\"transfer_complete\"}\n  {\"event\":\"shutdown\"}\n\nReceive PIN (sender must pass --pin when sending to you):\n  lsend receive --json --once --pin 123456\n\nPIN priority: --pin (saved to receive_pin) > config file > LSEND_RECEIVE_PIN env.\n\nImportant:\n  - Port is checked before bind; port_in_use errors include a hint with remediation.\n  - Close the official app before receive (port 53317 conflict).\n  - Do not use alternate --port for receive: discovery uses the same UDP/TCP port, so the official LocalSend app and default scan (53317) will not see this device.\n  - On port_in_use: close the official app or reuse an existing receiver; do not auto-kill processes or silently switch ports.\n  - Without --once the process runs until Ctrl+C (avoid for agents).\n  - JSON mode is auto-enabled when stdout is piped or LSEND_NO_TUI=1.\n";

/// The `errors` guide.
pub const ERRORS_GUIDE: &'static str = "## errors — exit codes and JSON failures\n\nExit codes:\n  0  success\n  1  general error\n  2  not found (unknown alias, no files, etc.)\n  3  port already in use (official app or another lsend instance)\n\nFailure stdout with --json:\n  {\n    \"ok\": false,\n    \"command\": \"send\",\n    \"code\": \"target_not_found\",\n    \"error\": \"No device found with alias \\\"...\\\".\",\n    \"hint\": \"Run `lsend scan --json` first and use the device IP, or pass an IP address directly.\"\n  }\n\nError codes (code field):\n  port_in_use       — bind failed (usually 53317); hint explains discovery impact of alternate ports\n  target_not_found  — alias not found (use scan + IP, or drop --no-scan)\n  no_files          — send called with no paths and no --text/--message/--clipboard\n  error             — other failures\n\nHuman mode prints \"Error: ...\" to stderr; JSON mode prints only the envelope to stdout.\n";

/// The `eval` guide.
pub const EVAL_GUIDE: &'static str = "## eval — agent smoke test\n\nRun these in order from the built binary (adjust paths as needed):\n\n1. Help / agent docs load\n   lsend agent\n   lsend agent scan\n\n2. Discovery (requires a peer running the official app on the LAN)\n   lsend scan --json --timeout 5000\n   Expect: ok=true and devices[] (may be empty if no peers)\n\n3. Send (requires a reachable peer IP from step 2)\n   lsend send <IP> ./README.md --json --no-scan\n   Expect: ok=true, files[].status == \"sent\"\n\n4. Receive (stop the official app on this machine first)\n   lsend receive --json --once --dir /tmp/lsend-inbox\n   Expect NDJSON: ready -> ... -> shutdown after a peer sends a file\n\nPass criteria:\n  - Exit code 0 on success paths\n  - stdout is valid JSON / NDJSON when --json is set\n  - No interactive prompts at any step\n";

/// The guide for a topic, the overview without one.
pub fn print(topic: Option<AgentCommand>) -> (r: &'static str)
    ensures
        r@ == match topic {
            None => OVERVIEW_GUIDE@,
            Some(AgentCommand::Scan) => SCAN_GUIDE@,
            Some(AgentCommand::Send) => SEND_GUIDE@,
            Some(AgentCommand::Receive) => RECEIVE_GUIDE@,
            Some(AgentCommand::Errors) => ERRORS_GUIDE@,
            Some(AgentCommand::Eval) => EVAL_GUIDE@,
        },
{
    match topic {
        None => OVERVIEW_GUIDE,
        Some(AgentCommand::Scan) => SCAN_GUIDE,
        Some(AgentCommand::Send) => SEND_GUIDE,
        Some(AgentCommand::Receive) => RECEIVE_GUIDE,
        Some(AgentCommand::Errors) => ERRORS_GUIDE,
        Some(AgentCommand::Eval) => EVAL_GUIDE,
    }
}

} // verus!
