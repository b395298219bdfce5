//! Classified command failures: stable codes, exit statuses and hints.
use vstd::prelude::*;

use crate::config::DEFAULT_PORT;
use crate::text::{
    chars_eq, contains_seq, occurs_at, decimal, decimal_string, from_chars, is_digit, is_prefix_of,
    is_suffix_of, is_whitespace, is_ws, lemma_words_skip_ws, lemma_words_step, parse_u16_digits,
    parse_u16_spec, starts_with, str_contains, to_chars, words, lemma_decimal_reads_back, all_digits,
};

verus! {

broadcast use vstd::string::group_string_axioms;

/// A failure of a command, classified for the JSON envelope and the exit code.
#[derive(Debug, Clone)]
pub enum CliError {
    PortInUse { port: u16 },
    TargetNotFound { target: String },
    NoFiles,
    InvalidAlias { reason: String },
    Other(String),
}

/// The mathematical value of a [`CliError`].
pub enum CliErrorView {
    PortInUse { port: u16 },
    TargetNotFound { target: Seq<char> },
    NoFiles,
    InvalidAlias { reason: Seq<char> },
    Other(Seq<char>),
}

impl View for CliError {
    type V = CliErrorView;

    open spec fn view(&self) -> CliErrorView {
        match self {
            CliError::PortInUse { port } => CliErrorView::PortInUse { port: *port },
            CliError::TargetNotFound { target } => CliErrorView::TargetNotFound { target: target@ },
            CliError::NoFiles => CliErrorView::NoFiles,
            CliError::InvalidAlias { reason } => CliErrorView::InvalidAlias { reason: reason@ },
            CliError::Other(message) => CliErrorView::Other(message@),
        }
    }
}

pub open spec fn code_spec(e: CliErrorView) -> Seq<char> {
    match e {
        CliErrorView::PortInUse { .. } => "port_in_use"@,
        CliErrorView::TargetNotFound { .. } => "target_not_found"@,
        CliErrorView::NoFiles => "no_files"@,
        CliErrorView::InvalidAlias { .. } => "invalid_alias"@,
        CliErrorView::Other(_) => "error"@,
    }
}

pub open spec fn exit_code_spec(e: CliErrorView) -> i32 {
    match e {
        CliErrorView::PortInUse { .. } => 3,
        CliErrorView::TargetNotFound { .. } => 2,
        CliErrorView::NoFiles => 2,
        CliErrorView::InvalidAlias { .. } => 2,
        CliErrorView::Other(_) => 1,
    }
}

pub open spec fn port_hint(port: u16) -> Seq<char> {
    "Close any other process holding port "@ + decimal(port as nat)
        + " (e.g. the LocalSend app, another `lsend receive`). Reuse an existing receiver when possible. Avoid alternate `--port`: discovery uses the same UDP/TCP port, so the LocalSend app and default `scan` (port "@
        + decimal(port as nat) + ") will not see this device."@
}

pub open spec fn hint_spec(e: CliErrorView) -> Option<Seq<char>> {
    match e {
        CliErrorView::PortInUse { port } => Some(port_hint(port)),
        CliErrorView::TargetNotFound { .. } => Some(
            "Run `lsend scan --json` first and use the device IP, or pass an IP address directly."@,
        ),
        CliErrorView::NoFiles => Some(
            "Pass file paths, or use --text (stdin), --message \"...\", or --clipboard."@,
        ),
        CliErrorView::InvalidAlias { .. } => Some(
            "Provide a non-empty alias up to 255 characters."@,
        ),
        CliErrorView::Other(_) => None,
    }
}

/// The human-readable message of an error.
pub open spec fn message_spec(e: CliErrorView) -> Seq<char> {
    match e {
        CliErrorView::PortInUse { port } => "Port "@ + decimal(port as nat)
            + " is already in use. Close any other process holding port "@ + decimal(port as nat)
            + " (e.g. the LocalSend app, another `lsend receive`)."@,
        CliErrorView::TargetNotFound { target } => "No device found with alias \""@ + target
            + "\". Run `lsend scan --json` first or pass an IP address."@,
        CliErrorView::NoFiles => "No files to send"@,
        CliErrorView::InvalidAlias { reason } => reason,
        CliErrorView::Other(message) => message,
    }
}

/// A whitespace-separated token with its leading and trailing non-digits removed.
pub open spec fn strip_nondigits_start(t: Seq<char>) -> Seq<char>
    decreases t.len(),
{
    if t.len() > 0 && !is_digit(t[0]) {
        strip_nondigits_start(t.drop_first())
    } else {
        t
    }
}

pub open spec fn strip_nondigits_end(t: Seq<char>) -> Seq<char>
    decreases t.len(),
{
    if t.len() > 0 && !is_digit(t.last()) {
        strip_nondigits_end(t.drop_last())
    } else {
        t
    }
}

pub open spec fn token_port(t: Seq<char>) -> Option<u16> {
    parse_u16_spec(strip_nondigits_end(strip_nondigits_start(t)))
}

/// The port of the first token that reads as one.
pub open spec fn first_port(tokens: Seq<Seq<char>>) -> Option<u16>
    decreases tokens.len(),
{
    if tokens.len() == 0 {
        None
    } else {
        match token_port(tokens[0]) {
            Some(p) => Some(p),
            None => first_port(tokens.drop_first()),
        }
    }
}

/// `parse_port_from_message`: the first whitespace-separated token that, stripped
/// of non-digits at both ends, is a 16-bit decimal number.
pub open spec fn port_in_message(m: Seq<char>) -> Option<u16> {
    first_port(words(m))
}

/// A failed bind is reported as the port being in use, whatever words the
/// failing layer used.
pub open spec fn mentions_port_in_use(m: Seq<char>) -> bool {
    contains_seq(m, "Address already in use"@) || contains_seq(m, "discovery HTTP server on port"@)
        || contains_seq(m, "Failed to bind"@)
        || (contains_seq(m, "bind"@) && contains_seq(m, "53317"@)) || contains_seq(
        m,
        "already in use"@,
    )
}

pub open spec fn alias_prefix() -> Seq<char> {
    "No device found with alias \""@
}

/// How an error message is classified.
pub open spec fn classify(m: Seq<char>) -> CliErrorView {
    if mentions_port_in_use(m) {
        CliErrorView::PortInUse {
            port: match port_in_message(m) {
                Some(p) => p,
                None => DEFAULT_PORT,
            },
        }
    } else if contains_seq(m, "No device found with alias"@) {
        if is_prefix_of(alias_prefix(), m) && is_suffix_of(
            seq!['"'],
            m.skip(alias_prefix().len() as int),
        ) {
            CliErrorView::TargetNotFound {
                target: m.skip(alias_prefix().len() as int).drop_last(),
            }
        } else {
            CliErrorView::TargetNotFound { target: m }
        }
    } else if m == "No files to send"@ {
        CliErrorView::NoFiles
    } else if is_prefix_of("Alias must"@, m) {
        CliErrorView::InvalidAlias { reason: m }
    } else {
        CliErrorView::Other(m)
    }
}

proof fn lemma_strip_start(t: Seq<char>, i: int)
    requires
        0 <= i <= t.len(),
        forall|j: int| 0 <= j < i ==> !is_digit(#[trigger] t[j]),
        i == t.len() || is_digit(t[i]),
    ensures
        strip_nondigits_start(t) == t.skip(i),
    decreases i,
{
    if i == 0 {
        assert(t.skip(0) == t);
    } else {
        let u = t.drop_first();
        assert forall|j: int| 0 <= j < i - 1 implies !is_digit(#[trigger] u[j]) by {
            assert(u[j] == t[j + 1]);
        }
        lemma_strip_start(u, i - 1);
        assert(u.skip(i - 1) == t.skip(i));
    }
}

proof fn lemma_strip_end(t: Seq<char>, k: int)
    requires
        0 <= k <= t.len(),
        forall|j: int| k <= j < t.len() ==> !is_digit(#[trigger] t[j]),
        k == 0 || is_digit(t[k - 1]),
    ensures
        strip_nondigits_end(t) == t.take(k),
    decreases t.len() - k,
{
    if k == t.len() {
        assert(t.take(k) == t);
    } else {
        let u = t.drop_last();
        assert forall|j: int| k <= j < u.len() implies !is_digit(#[trigger] u[j]) by {
            assert(u[j] == t[j]);
        }
        if k > 0 {
            assert(u[k - 1] == t[k - 1]);
        }
        lemma_strip_end(u, k);
        assert(u.take(k) == t.take(k));
    }
}

/// The port a single token names, if any.
fn port_of_token(s: &[char], lo: usize, hi: usize) -> (r: Option<u16>)
    requires
        lo <= hi <= s@.len(),
    ensures
        r == token_port(s@.subrange(lo as int, hi as int)),
{
    let ghost t = s@.subrange(lo as int, hi as int);
    let mut i: usize = lo;
    while i < hi && !('0' <= s[i] && s[i] <= '9')
        invariant
            lo <= i <= hi <= s@.len(),
            forall|j: int| lo <= j < i ==> !is_digit(#[trigger] s@[j]),
        decreases hi - i,
    {
        i = i + 1;
    }
    proof {
        assert forall|j: int| 0 <= j < i - lo implies !is_digit(#[trigger] t[j]) by {
            assert(t[j] == s@[j + lo]);
        }
        if i < hi {
            assert(t[i - lo] == s@[i as int]);
        }
        lemma_strip_start(t, i - lo);
    }
    let mut k: usize = hi;
    while k > i && !('0' <= s[k - 1] && s[k - 1] <= '9')
        invariant
            lo <= i <= k <= hi <= s@.len(),
            forall|j: int| k <= j < hi ==> !is_digit(#[trigger] s@[j]),
        decreases k,
    {
        k = k - 1;
    }
    let mut v: Vec<char> = Vec::new();
    let mut p: usize = i;
    while p < k
        invariant
            i <= p <= k <= hi <= s@.len(),
            v@ == s@.subrange(i as int, p as int),
        decreases k - p,
    {
        v.push(s[p]);
        assert(s@.subrange(i as int, p + 1) == s@.subrange(i as int, p as int).push(s@[p as int]));
        p = p + 1;
    }
    proof {
        let u = t.skip(i - lo);
        assert forall|j: int| k - i <= j < u.len() implies !is_digit(#[trigger] u[j]) by {
            assert(u[j] == s@[j + i]);
        }
        if k > i {
            assert(u[k - i - 1] == s@[k - 1]);
        }
        lemma_strip_end(u, k - i);
        assert(u.take(k - i) == s@.subrange(i as int, k as int));
        if k > i {
            assert(v@[0] == s@[i as int]);
        }
    }
    parse_u16_digits(v.as_slice())
}

/// The first port-like token of a message.
pub fn parse_port_from_message(message: &str) -> (r: Option<u16>)
    ensures
        r == port_in_message(message@),
{
    let s = to_chars(message);
    let n = s.len();
    let mut i: usize = 0;
    assert(s@.skip(0) == s@);
    while i < n
        invariant
            i <= n,
            n == s@.len(),
            s@ == message@,
            port_in_message(message@) == first_port(words(s@.skip(i as int))),
        decreases n - i,
    {
        if is_whitespace(s[i]) {
            proof {
                lemma_words_skip_ws(s@, i as int);
            }
            i = i + 1;
        } else {
            let mut j: usize = i + 1;
            while j < n && !is_whitespace(s[j])
                invariant
                    i < j <= n,
                    n == s@.len(),
                    !is_ws(s@[i as int]),
                    forall|m: int| i <= m < j ==> !is_ws(#[trigger] s@[m]),
                decreases n - j,
            {
                j = j + 1;
            }
            proof {
                lemma_words_step(s@, i as int, j as int);
                let ws = seq![s@.subrange(i as int, j as int)] + words(s@.skip(j as int));
                assert(ws[0] == s@.subrange(i as int, j as int));
                assert(ws.drop_first() == words(s@.skip(j as int)));
            }
            let p = port_of_token(s.as_slice(), i, j);
            if p.is_some() {
                return p;
            }
            i = j;
        }
    }
    assert(s@.skip(i as int) =~= Seq::<char>::empty());
    None
}

/// Declares `anyhow::Error` so that it can stand in signatures.
#[verifier::external_type_specification]
#[verifier::external_body]
pub struct ExAnyhowError(anyhow::Error);

/// The message an `anyhow::Error` displays (its `Display` text).
pub uninterp spec fn anyhow_text(err: anyhow::Error) -> Seq<char>;

/// The rendered message of an `anyhow::Error` (`to_string` of its `Display`).
#[verifier::external_body]
fn anyhow_message(err: &anyhow::Error) -> (r: String)
    ensures
        r@ == anyhow_text(*err),
{
    err.to_string()
}

/// `anyhow::Error::msg`: an error whose displayed message is the given text.
#[verifier::external_body]
fn anyhow_from_message(message: String) -> (r: anyhow::Error)
    ensures
        anyhow_text(r) == message@,
{
    anyhow::Error::msg(message)
}

impl CliError {
    /// The stable machine-readable code of the error.
    pub fn code(&self) -> (r: &'static str)
        ensures
            r@ == code_spec(self@),
    {
        match self {
            CliError::PortInUse { .. } => "port_in_use",
            CliError::TargetNotFound { .. } => "target_not_found",
            CliError::NoFiles => "no_files",
            CliError::InvalidAlias { .. } => "invalid_alias",
            CliError::Other(_) => "error",
        }
    }

    /// The process exit status for the error.
    pub fn exit_code(&self) -> (r: i32)
        ensures
            r == exit_code_spec(self@),
    {
        match self {
            CliError::PortInUse { .. } => 3,
            CliError::TargetNotFound { .. } | CliError::NoFiles | CliError::InvalidAlias { .. } => 2,
            CliError::Other(_) => 1,
        }
    }

    /// A remediation hint, where there is one.
    pub fn hint(&self) -> (r: Option<String>)
        ensures
            match r {
                Some(h) => hint_spec(self@) == Some(h@),
                None => hint_spec(self@) is None,
            },
    {
        match self {
            CliError::PortInUse { port } => {
                let d = decimal_string(*port as u64);
                let mut s = String::new();
                s.append("Close any other process holding port ");
                s.append(d.as_str());
                s.append(
                    " (e.g. the LocalSend app, another `lsend receive`). Reuse an existing receiver when possible. Avoid alternate `--port`: discovery uses the same UDP/TCP port, so the LocalSend app and default `scan` (port ",
                );
                s.append(d.as_str());
                s.append(") will not see this device.");
                Some(s)
            },
            CliError::TargetNotFound { .. } => Some(
                String::from_str(
                    "Run `lsend scan --json` first and use the device IP, or pass an IP address directly.",
                ),
            ),
            CliError::NoFiles => Some(
                String::from_str(
                    "Pass file paths, or use --text (stdin), --message \"...\", or --clipboard.",
                ),
            ),
            CliError::InvalidAlias { .. } => Some(
                String::from_str("Provide a non-empty alias up to 255 characters."),
            ),
            CliError::Other(_) => None,
        }
    }

    /// The human-readable message (what the error displays as).
    pub fn to_string(&self) -> (r: String)
        ensures
            r@ == message_spec(self@),
    {
        match self {
            CliError::PortInUse { port } => {
                let d = decimal_string(*port as u64);
                let mut s = String::new();
                s.append("Port ");
                s.append(d.as_str());
                s.append(" is already in use. Close any other process holding port ");
                s.append(d.as_str());
                s.append(" (e.g. the LocalSend app, another `lsend receive`).");
                s
            },
            CliError::TargetNotFound { target } => {
                let mut s = String::new();
                s.append("No device found with alias \"");
                s.append(target.as_str());
                s.append("\". Run `lsend scan --json` first or pass an IP address.");
                s
            },
            CliError::NoFiles => String::from_str("No files to send"),
            CliError::InvalidAlias { reason } => reason.clone(),
            CliError::Other(message) => message.clone(),
        }
    }

    /// Classifies an error message.
    pub fn from_message(message: &str) -> (r: CliError)
        ensures
            r@ == classify(message@),
    {
        if str_contains(message, "Address already in use") || str_contains(
            message,
            "discovery HTTP server on port",
        ) || str_contains(message, "Failed to bind") || (str_contains(message, "bind") && str_contains(message, "53317")) || str_contains(
            message,
            "already in use",
        ) {
            let port = match parse_port_from_message(message) {
                Some(p) => p,
                None => DEFAULT_PORT,
            };
            return CliError::PortInUse { port };
        }
        if str_contains(message, "No device found with alias") {
            let m = to_chars(message);
            let pre = to_chars("No device found with alias \"");
            if starts_with(m.as_slice(), pre.as_slice()) {
                let mut rest: Vec<char> = Vec::new();
                let mut i: usize = pre.len();
                while i < m.len()
                    invariant
                        pre@.len() <= i <= m@.len(),
                        rest@ == m@.subrange(pre@.len() as int, i as int),
                    decreases m@.len() - i,
                {
                    rest.push(m[i]);
                    assert(m@.subrange(pre@.len() as int, i + 1) == m@.subrange(
                        pre@.len() as int,
                        i as int,
                    ).push(m@[i as int]));
                    i = i + 1;
                }
                assert(rest@ == m@.skip(pre@.len() as int));
                let n = rest.len();
                if n > 0 && rest[n - 1] == '"' {
                    let ghost r0 = rest@;
                    rest.pop();
                    proof {
                        assert(r0.skip(r0.len() - 1) =~= seq!['"']);
                    }
                    return CliError::TargetNotFound { target: from_chars(rest.as_slice()) };
                }
                proof {
                    if n > 0 {
                        assert(rest@.skip(n - 1)[0] == rest@[n - 1]);
                    }
                }
            }
            return CliError::TargetNotFound { target: String::from_str(message) };
        }
        let m = to_chars(message);
        let nf = to_chars("No files to send");
        if chars_eq(m.as_slice(), nf.as_slice()) {
            return CliError::NoFiles;
        }
        let am = to_chars("Alias must");
        if starts_with(m.as_slice(), am.as_slice()) {
            return CliError::InvalidAlias { reason: String::from_str(message) };
        }
        CliError::Other(String::from_str(message))
    }

    /// How a refused alias change is reported: a message about the alias
    /// itself is an invalid alias carrying that message; any other message
    /// is classified by its text.
    pub fn alias_change_error(message: &str) -> (r: CliError)
        ensures
            r@ == (if contains_seq(message@, "Alias must"@) {
                CliErrorView::InvalidAlias { reason: message@ }
            } else {
                classify(message@)
            }),
    {
        if str_contains(message, "Alias must") {
            CliError::InvalidAlias { reason: String::from_str(message) }
        } else {
            CliError::from_message(message)
        }
    }

    /// Classifies an `anyhow::Error` by its message. An error made from a
    /// `CliError` carries that error's message (see the `From` impl below),
    /// so the message is all there is to classify.
    pub fn from_anyhow(err: anyhow::Error) -> (r: CliError)
        ensures
            r@ == classify(anyhow_text(err)),
    {
        let message = anyhow_message(&err);
        CliError::from_message(message.as_str())
    }
}

impl From<CliError> for anyhow::Error {
    fn from(value: CliError) -> (r: anyhow::Error)
        ensures
            anyhow_text(r) == message_spec(value@),
    {
        anyhow_from_message(value.to_string())
    }
}

impl vstd::std_specs::convert::FromSpecImpl<CliError> for anyhow::Error {
    open spec fn obeys_from_spec() -> bool {
        false
    }

    open spec fn from_spec(v: CliError) -> anyhow::Error {
        arbitrary()
    }
}

/// "No files to send", turned into an `anyhow::Error` and classified again, is
/// again the no-files error.
pub proof fn law_no_files_message_reads_back(err: anyhow::Error)
    requires
        anyhow_text(err) == message_spec(CliErrorView::NoFiles),
    ensures
        classify(anyhow_text(err)) == CliErrorView::NoFiles,
{
    let m = "No files to send"@;
    reveal_strlit("No files to send");
    reveal_strlit("Address already in use");
    reveal_strlit("discovery HTTP server on port");
    reveal_strlit("53317");
    reveal_strlit("already in use");
    reveal_strlit("No device found with alias");
    reveal_strlit("Failed to bind");
    assert(m.len() == 16);
    assert(!contains_seq(m, "Failed to bind"@)) by {
        if contains_seq(m, "Failed to bind"@) {
            let i = choose|i: int| occurs_at(m, "Failed to bind"@, i);
            assert(m.subrange(i, i + 14)[0] == 'F');
            assert(m[i] == 'F');
            assert(0 <= i <= 2);
            assert(false);
        }
    }
    assert(!contains_seq(m, "Address already in use"@));
    assert(!contains_seq(m, "discovery HTTP server on port"@));
    assert(!contains_seq(m, "No device found with alias"@));
    assert(!contains_seq(m, "53317"@)) by {
        if contains_seq(m, "53317"@) {
            let i = choose|i: int| occurs_at(m, "53317"@, i);
            assert(m.subrange(i, i + 5)[0] == '5');
            assert(m[i] == '5');
            assert(0 <= i <= 11);
            assert(false);
        }
    }
    assert(!contains_seq(m, "already in use"@)) by {
        if contains_seq(m, "already in use"@) {
            let i = choose|i: int| occurs_at(m, "already in use"@, i);
            assert(m.subrange(i, i + 14)[0] == 'a');
            assert(m[i] == 'a');
            assert(0 <= i <= 2);
            assert(false);
        }
    }
}

/// A port-in-use error, turned into an `anyhow::Error` and classified again,
/// is again the port-in-use error with the same port.
pub proof fn law_port_in_use_message_reads_back(err: anyhow::Error, port: u16)
    requires
        anyhow_text(err) == message_spec(CliErrorView::PortInUse { port }),
    ensures
        classify(anyhow_text(err)) == (CliErrorView::PortInUse { port }),
{
    let m = anyhow_text(err);
    let d = decimal(port as nat);
    lemma_decimal_reads_back(port as nat);
    let pre = "Port "@;
    let r1 = " is already in use. Close any other process holding port "@;
    let r2 = " (e.g. the LocalSend app, another `lsend receive`)."@;
    reveal_strlit("Port ");
    reveal_strlit(" is already in use. Close any other process holding port ");
    reveal_strlit(" (e.g. the LocalSend app, another `lsend receive`).");
    reveal_strlit("already in use");
    assert(m == pre + d + r1 + d + r2);
    let n = d.len() as int;
    // the message says the port is in use
    let at = 5 + n + 4;
    assert(m.subrange(at, at + 14) =~= "already in use"@) by {
        assert forall|k: int| 0 <= k < 14 implies #[trigger] m.subrange(at, at + 14)[k] == "already in use"@[k] by {
            assert(m[at + k] == r1[4 + k]);
        }
    }
    assert(occurs_at(m, "already in use"@, at));
    assert(mentions_port_in_use(m));
    // its first two words are "Port" and the port's digits
    assert forall|k: int| 0 <= k < 4 implies !is_ws(#[trigger] m[k]) by {
        assert(m[k] == pre[k]);
    }
    assert(m[4] == ' ');
    lemma_words_step(m, 0, 4);
    assert(m.skip(0) == m);
    lemma_words_skip_ws(m, 4);
    assert forall|k: int| 5 <= k < 5 + n implies !is_ws(#[trigger] m[k]) by {
        assert(m[k] == d[k - 5]);
        assert(is_digit(d[k - 5]));
    }
    assert(m[5 + n] == r1[0]);
    lemma_words_step(m, 5, 5 + n);
    let w = words(m);
    assert(m.subrange(0, 4) =~= "Port"@) by {
        reveal_strlit("Port");
    }
    assert(m.subrange(5, 5 + n) =~= d);
    assert(w == seq!["Port"@] + (seq![d] + words(m.skip(5 + n))));
    // "Port" holds no digit; the digits read back as the port
    reveal_strlit("Port");
    reveal_with_fuel(strip_nondigits_start, 5);
    assert(strip_nondigits_start("Port"@) =~= Seq::<char>::empty()) by {
        reveal_strlit("ort");
        assert("Port"@.drop_first() =~= "ort"@);
        reveal_strlit("rt");
        reveal_strlit("t");
        assert("ort"@.drop_first() =~= "rt"@);
        assert("rt"@.drop_first() =~= "t"@);
        assert("t"@.drop_first() =~= Seq::<char>::empty());
    }
    assert(token_port("Port"@) is None);
    assert(is_digit(d[0]));
    assert(strip_nondigits_start(d) == d);
    assert(is_digit(d.last()));
    assert(strip_nondigits_end(d) == d);
    assert(token_port(d) == Some(port));
    assert(w[0] == "Port"@);
    assert(w.drop_first() =~= seq![d] + words(m.skip(5 + n)));
    assert(w.drop_first()[0] == d);
    assert(first_port(w.drop_first()) == Some(port));
    assert(first_port(w) == Some(port));
    assert(port_in_message(m) == Some(port));
}


/// The two messages an alias is refused with are classified as an invalid
/// alias, carrying the message as the reason (exit code 2).
pub proof fn law_alias_refusals_are_invalid_alias()
    ensures
        classify("Alias must not be empty"@) == (CliErrorView::InvalidAlias { reason: "Alias must not be empty"@ }),
        classify("Alias must be at most 255 characters"@) == (CliErrorView::InvalidAlias { reason: "Alias must be at most 255 characters"@ }),
{
    reveal_strlit("Address already in use");
    reveal_strlit("discovery HTTP server on port");
    reveal_strlit("Failed to bind");
    reveal_strlit("53317");
    reveal_strlit("already in use");
    reveal_strlit("No device found with alias");
    reveal_strlit("Alias must not be empty");
    reveal_strlit("Alias must be at most 255 characters");
    reveal_strlit("Alias must");
    reveal_strlit("No files to send");
    let m1 = "Alias must not be empty"@;
    let m2 = "Alias must be at most 255 characters"@;
    assert(!contains_seq(m1, "Address already in use"@)) by {
        if contains_seq(m1, "Address already in use"@) {
            let i = choose|i: int| occurs_at(m1, "Address already in use"@, i);
            assert(m1.subrange(i, i + 22)[0] == m1[i]);
            assert(m1.subrange(i, i + 22)[1] == m1[i + 1]);
            assert(m1[i] == 'A' && m1[i + 1] == 'd');
            assert(0 <= i <= 1);
            assert(false);
        }
    }
    assert(!contains_seq(m1, "discovery HTTP server on port"@)) by {
        if contains_seq(m1, "discovery HTTP server on port"@) {
            let i = choose|i: int| occurs_at(m1, "discovery HTTP server on port"@, i);
            assert(false);
        }
    }
    assert(!contains_seq(m1, "Failed to bind"@)) by {
        if contains_seq(m1, "Failed to bind"@) {
            let i = choose|i: int| occurs_at(m1, "Failed to bind"@, i);
            assert(m1.subrange(i, i + 14)[0] == m1[i]);
            assert(m1.subrange(i, i + 14)[1] == m1[i + 1]);
            assert(m1[i] == 'F' && m1[i + 1] == 'a');
            assert(0 <= i <= 9);
            assert(false);
        }
    }
    assert(!contains_seq(m1, "53317"@)) by {
        if contains_seq(m1, "53317"@) {
            let i = choose|i: int| occurs_at(m1, "53317"@, i);
            assert(m1.subrange(i, i + 5)[0] == m1[i]);
            assert(m1.subrange(i, i + 5)[1] == m1[i + 1]);
            assert(m1[i] == '5' && m1[i + 1] == '3');
            assert(0 <= i <= 18);
            assert(false);
        }
    }
    assert(!contains_seq(m1, "already in use"@)) by {
        if contains_seq(m1, "already in use"@) {
            let i = choose|i: int| occurs_at(m1, "already in use"@, i);
            assert(m1.subrange(i, i + 14)[0] == m1[i]);
            assert(m1.subrange(i, i + 14)[1] == m1[i + 1]);
            assert(m1[i] == 'a' && m1[i + 1] == 'l');
            assert(0 <= i <= 9);
            assert(false);
        }
    }
    assert(!contains_seq(m1, "No device found with alias"@)) by {
        if contains_seq(m1, "No device found with alias"@) {
            let i = choose|i: int| occurs_at(m1, "No device found with alias"@, i);
            assert(false);
        }
    }
    assert(!contains_seq(m2, "Address already in use"@)) by {
        if contains_seq(m2, "Address already in use"@) {
            let i = choose|i: int| occurs_at(m2, "Address already in use"@, i);
            assert(m2.subrange(i, i + 22)[0] == m2[i]);
            assert(m2.subrange(i, i + 22)[1] == m2[i + 1]);
            assert(m2[i] == 'A' && m2[i + 1] == 'd');
            assert(0 <= i <= 14);
            assert(false);
        }
    }
    assert(!contains_seq(m2, "discovery HTTP server on port"@)) by {
        if contains_seq(m2, "discovery HTTP server on port"@) {
            let i = choose|i: int| occurs_at(m2, "discovery HTTP server on port"@, i);
            assert(m2.subrange(i, i + 29)[0] == m2[i]);
            assert(m2.subrange(i, i + 29)[1] == m2[i + 1]);
            assert(m2[i] == 'd' && m2[i + 1] == 'i');
            assert(0 <= i <= 7);
            assert(false);
        }
    }
    assert(!contains_seq(m2, "Failed to bind"@)) by {
        if contains_seq(m2, "Failed to bind"@) {
            let i = choose|i: int| occurs_at(m2, "Failed to bind"@, i);
            assert(m2.subrange(i, i + 14)[0] == m2[i]);
            assert(m2.subrange(i, i + 14)[1] == m2[i + 1]);
            assert(m2[i] == 'F' && m2[i + 1] == 'a');
            assert(0 <= i <= 22);
            assert(false);
        }
    }
    assert(!contains_seq(m2, "53317"@)) by {
        if contains_seq(m2, "53317"@) {
            let i = choose|i: int| occurs_at(m2, "53317"@, i);
            assert(m2.subrange(i, i + 5)[0] == m2[i]);
            assert(m2.subrange(i, i + 5)[1] == m2[i + 1]);
            assert(m2[i] == '5' && m2[i + 1] == '3');
            assert(0 <= i <= 31);
            assert(false);
        }
    }
    assert(!contains_seq(m2, "already in use"@)) by {
        if contains_seq(m2, "already in use"@) {
            let i = choose|i: int| occurs_at(m2, "already in use"@, i);
            assert(m2.subrange(i, i + 14)[0] == m2[i]);
            assert(m2.subrange(i, i + 14)[1] == m2[i + 1]);
            assert(m2[i] == 'a' && m2[i + 1] == 'l');
            assert(0 <= i <= 22);
            assert(false);
        }
    }
    assert(!contains_seq(m2, "No device found with alias"@)) by {
        if contains_seq(m2, "No device found with alias"@) {
            let i = choose|i: int| occurs_at(m2, "No device found with alias"@, i);
            assert(m2.subrange(i, i + 26)[0] == m2[i]);
            assert(m2.subrange(i, i + 26)[1] == m2[i + 1]);
            assert(m2[i] == 'N' && m2[i + 1] == 'o');
            assert(0 <= i <= 10);
            assert(false);
        }
    }
    assert(is_prefix_of("Alias must"@, m1)) by {
        assert(m1.take(10) =~= "Alias must"@);
    }
    assert(is_prefix_of("Alias must"@, m2)) by {
        assert(m2.take(10) =~= "Alias must"@);
    }
    assert(m1 != "No files to send"@) by {
        assert(m1.len() != "No files to send"@.len());
    }
    assert(m2 != "No files to send"@) by {
        assert(m2.len() != "No files to send"@.len());
    }
}

} // verus!
