//! The receiver: the decisions behind each request of the receive protocol,
//! taken on the receiver's state, with the reply and the notifications they
//! produce. Sockets, files and clocks stay with the caller.
use vstd::prelude::*;

use crate::config::{AppConfig, PROTOCOL_VERSION};
use crate::events::{events_view, ReceiveEvent, ReceiveEventView};
use crate::identity::Identity;
use crate::output::OutputMode;
use crate::scan_server::register_fingerprint;
use crate::util::DeviceType;
use crate::ids::{is_hyphenated_uuid, new_uuid_string};
use crate::prepare::{files_view, parse_prepare_upload_request, prepare_request_spec, result_view, ParsedPrepareUpload, ParsedView};
use crate::text::{
    chars_eq, concat2, concat3, decimal, decimal_string, is_prefix_of, lower_seq, starts_with, str_eq,
    str_to_lower, to_chars,
};
use vstd::utf8::encode_utf8;
use crate::transfer::{FileDto, FileDtoView};

verus! {

broadcast use vstd::string::group_string_axioms;

/// How many wrong PINs an address may send before it is locked out.
pub const MAX_PIN_ATTEMPTS: u32 = 3;

/// How long the reply to an inline text message waits, in milliseconds, so
/// that the sender's screen can finish its transition first.
pub const TEXT_MESSAGE_RESPONSE_DELAY_MS: u64 = 1200;

// ---------------------------------------------------------------- replies

/// The body of an HTTP reply.
#[derive(Debug)]
pub enum ReplyBody {
    /// No body.
    Empty,
    /// `{"message": ...}`.
    Error(String),
    /// `{"sessionId": ..., "files": {fileId: token}}`.
    PrepareV2 { session_id: String, files: Vec<(String, String)> },
    /// `{fileId: token}`, for version 1 senders.
    PrepareV1 { files: Vec<(String, String)> },
}

/// An HTTP status and body.
#[derive(Debug)]
pub struct Reply {
    pub status: u16,
    pub body: ReplyBody,
}

pub enum ReplyBodyView {
    Empty,
    Error(Seq<char>),
    PrepareV2 { session_id: Seq<char>, files: Seq<(Seq<char>, Seq<char>)> },
    PrepareV1 { files: Seq<(Seq<char>, Seq<char>)> },
}

pub struct ReplyView {
    pub status: u16,
    pub body: ReplyBodyView,
}

pub open spec fn pairs_view(v: Seq<(String, String)>) -> Seq<(Seq<char>, Seq<char>)> {
    v.map_values(|p: (String, String)| (p.0@, p.1@))
}

impl View for Reply {
    type V = ReplyView;

    open spec fn view(&self) -> ReplyView {
        ReplyView {
            status: self.status,
            body: match self.body {
                ReplyBody::Empty => ReplyBodyView::Empty,
                ReplyBody::Error(m) => ReplyBodyView::Error(m@),
                ReplyBody::PrepareV2 { session_id, files } => ReplyBodyView::PrepareV2 {
                    session_id: session_id@,
                    files: pairs_view(files@),
                },
                ReplyBody::PrepareV1 { files } => ReplyBodyView::PrepareV1 { files: pairs_view(files@) },
            },
        }
    }
}

pub open spec fn error_reply(status: u16, message: Seq<char>) -> ReplyView {
    ReplyView { status, body: ReplyBodyView::Error(message) }
}

/// A reply with `{"message": ...}`.
pub fn error_response(status: u16, message: &str) -> (r: Reply)
    ensures
        r@ == error_reply(status, message@),
{
    Reply { status, body: ReplyBody::Error(String::from_str(message)) }
}

/// What handling a request amounts to: the reply, the lines to show a human
/// (only in human output mode), the events to report, how long to wait
/// before replying, and whether the receiver should stop afterwards.
#[derive(Debug)]
pub struct Outcome {
    pub reply: Reply,
    pub human: Vec<String>,
    pub events: Vec<ReceiveEvent>,
    pub delay_ms: u64,
    pub stop: bool,
}

pub struct OutcomeView {
    pub reply: ReplyView,
    pub human: Seq<Seq<char>>,
    pub events: Seq<ReceiveEventView>,
    pub delay_ms: u64,
    pub stop: bool,
}

pub open spec fn strings_view(v: Seq<String>) -> Seq<Seq<char>> {
    v.map_values(|s: String| s@)
}

impl View for Outcome {
    type V = OutcomeView;

    open spec fn view(&self) -> OutcomeView {
        OutcomeView {
            reply: self.reply@,
            human: strings_view(self.human@),
            events: events_view(self.events@),
            delay_ms: self.delay_ms,
            stop: self.stop,
        }
    }
}

/// An outcome that is only a reply.
pub open spec fn reply_only(r: ReplyView) -> OutcomeView {
    OutcomeView { reply: r, human: Seq::empty(), events: Seq::empty(), delay_ms: 0, stop: false }
}

fn outcome_of(reply: Reply) -> (r: Outcome)
    ensures
        r@ == reply_only(reply@),
{
    let r = Outcome { reply, human: Vec::new(), events: Vec::new(), delay_ms: 0, stop: false };
    assert(strings_view(r.human@) =~= Seq::empty());
    assert(events_view(r.events@) =~= Seq::empty());
    r
}

// ---------------------------------------------------------------- PIN attempts

/// The number of wrong PINs recorded for an address; none recorded is zero.
pub open spec fn attempts_of(v: Seq<(String, u32)>, ip: Seq<char>) -> u32
    decreases v.len(),
{
    if v.len() == 0 {
        0
    } else if v[0].0@ == ip {
        v[0].1
    } else {
        attempts_of(v.drop_first(), ip)
    }
}

/// The verdict on a request's PIN.
pub enum PinVerdict {
    Pass,
    Required,
    Invalid,
    TooMany,
}

/// The PIN the receiver asks for: a configured, non-empty one.
pub open spec fn expected_pin(pin: Option<Seq<char>>) -> Option<Seq<char>> {
    match pin {
        Some(p) => if p.len() > 0 {
            Some(p)
        } else {
            None
        },
        None => None,
    }
}

/// The PIN a request carries: the `pin` query parameter, else the `pin` header.
pub open spec fn provided_pin(query: Option<Seq<char>>, header: Option<Seq<char>>) -> Option<Seq<char>> {
    match query {
        Some(q) => Some(q),
        None => header,
    }
}

/// The verdict on a PIN and the address's attempt count afterwards. An address
/// with three wrong attempts is refused whatever it sends; a missing or empty
/// PIN is not counted; a wrong one is, and the third wrong one is refused as
/// too many.
pub open spec fn pin_check_spec(expected: Option<Seq<char>>, attempts: u32, provided: Option<Seq<char>>) -> (PinVerdict, u32) {
    match expected {
        None => (PinVerdict::Pass, attempts),
        Some(e) => if attempts >= MAX_PIN_ATTEMPTS {
            (PinVerdict::TooMany, attempts)
        } else {
            match provided {
                None => (PinVerdict::Required, attempts),
                Some(p) => if p.len() == 0 {
                    (PinVerdict::Required, attempts)
                } else if p == e {
                    (PinVerdict::Pass, attempts)
                } else if attempts == 2 {
                    (PinVerdict::TooMany, (attempts + 1) as u32)
                } else {
                    (PinVerdict::Invalid, (attempts + 1) as u32)
                },
            }
        },
    }
}

/// The reply to a PIN verdict other than a pass.
pub open spec fn pin_reply(v: PinVerdict) -> Option<ReplyView> {
    match v {
        PinVerdict::Pass => None,
        PinVerdict::Required => Some(error_reply(401, "PIN required"@)),
        PinVerdict::Invalid => Some(error_reply(401, "Invalid PIN"@)),
        PinVerdict::TooMany => Some(error_reply(429, "Too many attempts."@)),
    }
}

pub open spec fn opt_seq(o: Option<String>) -> Option<Seq<char>> {
    match o {
        Some(s) => Some(s@),
        None => None,
    }
}

pub open spec fn opt_reply_view(o: Option<Reply>) -> Option<ReplyView> {
    match o {
        Some(r) => Some(r@),
        None => None,
    }
}

/// The first record for `ip`, if any.
fn find_attempts(v: &Vec<(String, u32)>, ip: &str) -> (r: Option<usize>)
    ensures
        match r {
            Some(i) => i < v@.len() && v@[i as int].0@ == ip@ && attempts_of(v@, ip@) == v@[i as int].1
                && forall|j: int| 0 <= j < i ==> v@[j].0@ != ip@,
            None => attempts_of(v@, ip@) == 0 && forall|j: int| 0 <= j < v@.len() ==> v@[j].0@ != ip@,
        },
{
    let mut i: usize = 0;
    assert(v@.skip(0) == v@);
    while i < v.len()
        invariant
            i <= v@.len(),
            attempts_of(v@, ip@) == attempts_of(v@.skip(i as int), ip@),
            forall|j: int| 0 <= j < i ==> v@[j].0@ != ip@,
        decreases v@.len() - i,
    {
        let ghost rest = v@.skip(i as int);
        assert(rest.drop_first() == v@.skip(i + 1));
        assert(rest[0] == v@[i as int]);
        if str_eq(v[i].0.as_str(), ip) {
            return Some(i);
        }
        i = i + 1;
    }
    None
}

/// Looking up an address in a record list after one record changed.
proof fn lemma_attempts_update(v: Seq<(String, u32)>, i: int, k: String, n: u32, ip: Seq<char>)
    requires
        0 <= i < v.len(),
        v[i].0@ == k@,
        forall|j: int| 0 <= j < i ==> v[j].0@ != k@,
    ensures
        attempts_of(v.update(i, (k, n)), ip) == if ip == k@ {
            n
        } else {
            attempts_of(v, ip)
        },
    decreases i,
{
    let w = v.update(i, (k, n));
    if i == 0 {
        assert(w.drop_first() == v.drop_first());
    } else {
        assert(w.drop_first() == v.drop_first().update(i - 1, (k, n)));
        lemma_attempts_update(v.drop_first(), i - 1, k, n, ip);
    }
}

/// Looking up an address in a record list after a record was added at the end.
proof fn lemma_attempts_push(v: Seq<(String, u32)>, k: String, n: u32, ip: Seq<char>)
    requires
        forall|j: int| 0 <= j < v.len() ==> v[j].0@ != k@,
    ensures
        attempts_of(v.push((k, n)), ip) == if ip == k@ {
            n
        } else {
            attempts_of(v, ip)
        },
    decreases v.len(),
{
    let w = v.push((k, n));
    if v.len() == 0 {
        assert(w.drop_first() =~= Seq::<(String, u32)>::empty());
        assert(w[0] == (k, n));
        assert(attempts_of(w.drop_first(), ip) == 0);
    } else {
        assert(w.drop_first() == v.drop_first().push((k, n)));
        assert(w[0] == v[0]);
        assert(v[0].0@ != k@);
        let t = v.drop_first();
        assert forall|j: int| 0 <= j < t.len() implies t[j].0@ != k@ by {
            assert(t[j] == v[j + 1]);
        }
        lemma_attempts_push(t, k, n, ip);
    }
}

/// Records `n` wrong attempts for `ip`.
fn set_attempts(v: &mut Vec<(String, u32)>, ip: &str, n: u32)
    ensures
        attempts_of(final(v)@, ip@) == n,
        forall|other: Seq<char>| other != ip@ ==> attempts_of(final(v)@, other) == attempts_of(old(v)@, other),
{
    match find_attempts(v, ip) {
        Some(i) => {
            let ghost old_v = v@;
            let k = String::from_str(ip);
            v.set(i, (k, n));
            assert(v@ == old_v.update(i as int, (k, n)));
            proof {
                lemma_attempts_update(old_v, i as int, k, n, ip@);
                assert forall|other: Seq<char>| other != ip@ implies attempts_of(v@, other) == attempts_of(old_v, other) by {
                    lemma_attempts_update(old_v, i as int, k, n, other);
                }
            }
        },
        None => {
            let ghost old_v = v@;
            let k = String::from_str(ip);
            v.push((k, n));
            assert(v@ == old_v.push((k, n)));
            proof {
                lemma_attempts_push(old_v, k, n, ip@);
                assert forall|other: Seq<char>| other != ip@ implies attempts_of(v@, other) == attempts_of(old_v, other) by {
                    lemma_attempts_push(old_v, k, n, other);
                }
            }
        },
    }
}

// ---------------------------------------------------------------- sessions

/// Where a session stands.
#[derive(Clone, Copy, Debug, PartialEq, Eq, Structural)]
pub enum SessionStatus {
    Sending,
    Finished,
    FinishedWithErrors,
}

/// One announced file of a session and how far it got.
#[derive(Debug)]
pub struct ReceivingFileEntry {
    pub file: FileDto,
    pub token: String,
    pub desired_name: String,
    pub path: Option<String>,
    pub failed: bool,
}

/// The transfer a sender has opened.
#[derive(Debug)]
pub struct ReceiveSession {
    pub session_id: String,
    pub sender_ip: String,
    pub sender_version: String,
    pub destination_dir: String,
    pub files: Vec<(String, ReceivingFileEntry)>,
    pub status: SessionStatus,
}

pub struct EntryView {
    pub file: FileDtoView,
    pub token: Seq<char>,
    pub desired_name: Seq<char>,
    pub path: Option<Seq<char>>,
    pub failed: bool,
}

pub struct SessionView {
    pub session_id: Seq<char>,
    pub sender_ip: Seq<char>,
    pub sender_version: Seq<char>,
    pub destination_dir: Seq<char>,
    pub files: Seq<(Seq<char>, EntryView)>,
    pub status: SessionStatus,
}

impl View for ReceivingFileEntry {
    type V = EntryView;

    open spec fn view(&self) -> EntryView {
        EntryView {
            file: self.file@,
            token: self.token@,
            desired_name: self.desired_name@,
            path: opt_seq(self.path),
            failed: self.failed,
        }
    }
}

pub open spec fn entries_view(v: Seq<(String, ReceivingFileEntry)>) -> Seq<(Seq<char>, EntryView)> {
    v.map_values(|e: (String, ReceivingFileEntry)| (e.0@, e.1@))
}

impl View for ReceiveSession {
    type V = SessionView;

    open spec fn view(&self) -> SessionView {
        SessionView {
            session_id: self.session_id@,
            sender_ip: self.sender_ip@,
            sender_version: self.sender_version@,
            destination_dir: self.destination_dir@,
            files: entries_view(self.files@),
            status: self.status,
        }
    }
}

pub open spec fn session_opt_view(s: Option<ReceiveSession>) -> Option<SessionView> {
    match s {
        Some(x) => Some(x@),
        None => None,
    }
}

// ---------------------------------------------------------------- the receiver

/// The receiver's state: its settings, the open session if any, and the
/// wrong-PIN count of each address.
#[derive(Debug)]
pub struct ServerState {
    pub config: AppConfig,
    pub identity: Identity,
    pub receive_pin: Option<String>,
    pub output: OutputMode,
    pub stop_after_transfer: bool,
    pub session: Option<ReceiveSession>,
    pub pin_attempts: Vec<(String, u32)>,
}

impl ServerState {
    /// A receiver with no session and no recorded attempts.
    pub fn new(
        config: AppConfig,
        identity: Identity,
        receive_pin: Option<String>,
        output: OutputMode,
        stop_after_transfer: bool,
    ) -> (r: ServerState)
        ensures
            r.config == config,
            r.identity == identity,
            r.receive_pin == receive_pin,
            r.output == output,
            r.stop_after_transfer == stop_after_transfer,
            r.session is None,
            forall|ip: Seq<char>| attempts_of(r.pin_attempts@, ip) == 0,
    {
        ServerState {
            config,
            identity,
            receive_pin,
            output,
            stop_after_transfer,
            session: None,
            pin_attempts: Vec::new(),
        }
    }

    pub open spec fn human(&self) -> bool {
        self.output == OutputMode::Human
    }

    /// Checks a request's PIN: `None` lets the request through,
    /// otherwise the reply refuses it. Only the caller's own count changes.
    pub fn check_pin(&mut self, client_ip: &str, query_pin: Option<String>, header_pin: Option<String>) -> (r: Option<Reply>)
        ensures
            ({
                let (verdict, n) = pin_check_spec(
                    expected_pin(opt_seq(old(self).receive_pin)),
                    attempts_of(old(self).pin_attempts@, client_ip@),
                    provided_pin(opt_seq(query_pin), opt_seq(header_pin)),
                );
                &&& opt_reply_view(r) == pin_reply(verdict)
                &&& attempts_of(final(self).pin_attempts@, client_ip@) == n
            }),
            forall|other: Seq<char>| other != client_ip@ ==> attempts_of(final(self).pin_attempts@, other) == attempts_of(old(self).pin_attempts@, other),
            final(self).config == old(self).config,
            final(self).identity == old(self).identity,
            final(self).receive_pin == old(self).receive_pin,
            final(self).output == old(self).output,
            final(self).stop_after_transfer == old(self).stop_after_transfer,
            final(self).session == old(self).session,
    {
        let expected = match &self.receive_pin {
            Some(p) => if !p.as_str().is_empty() { Some(p.clone()) } else { None },
            None => None,
        };
        let expected = match expected {
            Some(e) => e,
            None => {
                return None;
            },
        };
        let attempts = match find_attempts(&self.pin_attempts, client_ip) {
            Some(i) => self.pin_attempts[i].1,
            None => 0,
        };
        if attempts >= MAX_PIN_ATTEMPTS {
            return Some(error_response(429, "Too many attempts."));
        }
        let provided = match query_pin {
            Some(q) => Some(q),
            None => header_pin,
        };
        match provided {
            None => Some(error_response(401, "PIN required")),
            Some(value) => {
                if value.as_str().is_empty() {
                    Some(error_response(401, "PIN required"))
                } else if str_eq(value.as_str(), expected.as_str()) {
                    None
                } else {
                    let previous = attempts;
                    set_attempts(&mut self.pin_attempts, client_ip, previous + 1);
                    if previous == 2 {
                        Some(error_response(429, "Too many attempts."))
                    } else {
                        Some(error_response(401, "Invalid PIN"))
                    }
                }
            },
        }
    }
}

// ---------------------------------------------------------------- PIN laws

/// Once an address has made three wrong attempts it is refused as making too
/// many, whatever it sends, and its count no longer changes.
pub proof fn law_pin_lockout_is_sticky(expected: Seq<char>, attempts: u32, provided: Option<Seq<char>>)
    requires
        expected.len() > 0,
        attempts >= MAX_PIN_ATTEMPTS,
    ensures
        pin_check_spec(Some(expected), attempts, provided) == (PinVerdict::TooMany, attempts),
{
}

/// From a fresh address, three wrong PINs in a row are answered "Invalid PIN",
/// "Invalid PIN", then "Too many attempts.", and leave the count at three.
pub proof fn law_third_wrong_pin_locks_out(expected: Seq<char>, wrong: Seq<char>)
    requires
        expected.len() > 0,
        wrong.len() > 0,
        wrong != expected,
    ensures
        pin_check_spec(Some(expected), 0, Some(wrong)) == (PinVerdict::Invalid, 1u32),
        pin_check_spec(Some(expected), 1, Some(wrong)) == (PinVerdict::Invalid, 2u32),
        pin_check_spec(Some(expected), 2, Some(wrong)) == (PinVerdict::TooMany, 3u32),
        pin_reply(PinVerdict::Invalid) == Some(error_reply(401, "Invalid PIN"@)),
        pin_reply(PinVerdict::TooMany) == Some(error_reply(429, "Too many attempts."@)),
{
}

/// The right PIN is accepted, without being counted, as long as the address
/// is not locked out; a missing or empty PIN is refused without being counted.
pub proof fn law_right_or_missing_pin_is_not_counted(expected: Seq<char>, attempts: u32)
    requires
        expected.len() > 0,
        attempts < MAX_PIN_ATTEMPTS,
    ensures
        pin_check_spec(Some(expected), attempts, Some(expected)) == (PinVerdict::Pass, attempts),
        pin_check_spec(Some(expected), attempts, None) == (PinVerdict::Required, attempts),
        pin_check_spec(Some(expected), attempts, Some(Seq::empty())) == (PinVerdict::Required, attempts),
{
}

/// What a PIN verdict answers: nothing for a pass, else the reply's status.
pub open spec fn pin_status(v: PinVerdict) -> Option<u16> {
    match pin_reply(v) {
        Some(r) => Some(r.status),
        None => None,
    }
}

/// The answers to successive requests from one address, each with the PIN
/// it gives, starting from `attempts` wrong ones.
pub open spec fn pin_statuses(expected: Option<Seq<char>>, attempts: u32, provided: Seq<Option<Seq<char>>>) -> Seq<Option<u16>>
    decreases provided.len(),
{
    if provided.len() == 0 {
        Seq::empty()
    } else {
        let (v, n) = pin_check_spec(expected, attempts, provided[0]);
        seq![pin_status(v)] + pin_statuses(expected, n, provided.drop_first())
    }
}

proof fn lemma_locked_out_stays_429(expected: Seq<char>, attempts: u32, later: Seq<Option<Seq<char>>>)
    requires
        expected.len() > 0,
        attempts >= MAX_PIN_ATTEMPTS,
    ensures
        pin_statuses(Some(expected), attempts, later) == Seq::new(later.len(), |i: int| Some(429u16)),
    decreases later.len(),
{
    if later.len() > 0 {
        lemma_locked_out_stays_429(expected, attempts, later.drop_first());
        assert(pin_statuses(Some(expected), attempts, later) =~= Seq::new(later.len(), |i: int| Some(429u16)));
    } else {
        assert(pin_statuses(Some(expected), attempts, later) =~= Seq::new(later.len(), |i: int| Some(429u16)));
    }
}

/// From a fresh address, three wrong PINs are answered 401, 401 and 429, and
/// every later request from that address is answered 429, whatever PIN it
/// gives, the right one included.
pub proof fn law_pin_sequence_locks_out(
    expected: Seq<char>,
    w1: Seq<char>,
    w2: Seq<char>,
    w3: Seq<char>,
    later: Seq<Option<Seq<char>>>,
)
    requires
        expected.len() > 0,
        w1.len() > 0 && w1 != expected,
        w2.len() > 0 && w2 != expected,
        w3.len() > 0 && w3 != expected,
    ensures
        pin_statuses(Some(expected), 0, seq![Some(w1), Some(w2), Some(w3)] + later) == seq![
            Some(401u16),
            Some(401u16),
            Some(429u16),
        ] + Seq::new(later.len(), |i: int| Some(429u16)),
{
    let s0 = seq![Some(w1), Some(w2), Some(w3)] + later;
    let s1 = seq![Some(w2), Some(w3)] + later;
    let s2 = seq![Some(w3)] + later;
    assert(s0.drop_first() =~= s1);
    assert(s1.drop_first() =~= s2);
    assert(s2.drop_first() =~= later);
    lemma_locked_out_stays_429(expected, 3, later);
    assert(pin_statuses(Some(expected), 2, s2) =~= seq![Some(429u16)] + Seq::new(later.len(), |i: int| Some(429u16)));
    assert(pin_statuses(Some(expected), 1, s1) =~= seq![Some(401u16)] + pin_statuses(Some(expected), 2, s2));
    assert(pin_statuses(Some(expected), 0, s0) =~= seq![Some(401u16)] + pin_statuses(Some(expected), 1, s1));
    assert(seq![Some(401u16)] + (seq![Some(401u16)] + (seq![Some(429u16)] + Seq::new(later.len(), |i: int| Some(429u16))))
        =~= seq![Some(401u16), Some(401u16), Some(429u16)] + Seq::new(later.len(), |i: int| Some(429u16)));
}

/// Without a configured PIN every request passes and nothing is counted.
pub proof fn law_no_pin_configured_passes(pin: Option<Seq<char>>, attempts: u32, provided: Option<Seq<char>>)
    requires
        pin is None || pin->0.len() == 0,
    ensures
        pin_check_spec(expected_pin(pin), attempts, provided) == (PinVerdict::Pass, attempts),
{
}

// ---------------------------------------------------------------- cancel

/// Whether a cancel request is honoured, and why not.
#[derive(Debug, PartialEq, Eq)]
pub enum CancelDecision {
    Allow,
    Deny(&'static str),
}

pub enum CancelDecisionView {
    Allow,
    Deny(Seq<char>),
}

impl View for CancelDecision {
    type V = CancelDecisionView;

    open spec fn view(&self) -> CancelDecisionView {
        match self {
            CancelDecision::Allow => CancelDecisionView::Allow,
            CancelDecision::Deny(r) => CancelDecisionView::Deny(r@),
        }
    }
}

pub open spec fn cancellable(status: SessionStatus) -> bool {
    status == SessionStatus::Sending || status == SessionStatus::FinishedWithErrors
}

/// A cancel is honoured for the open session's own sender, naming the
/// session when it is a version 2 cancel (a version 1 cancel only applies to
/// a version 1.0 session), while the session is still sending or has failed
/// files.
pub open spec fn cancel_spec(session: Option<SessionView>, ip: Seq<char>, requested: Option<Seq<char>>) -> CancelDecisionView {
    match session {
        None => CancelDecisionView::Deny("no active session"@),
        Some(s) => if requested is None && s.sender_version != "1.0"@ {
            CancelDecisionView::Deny("v1 cancel against v2 session"@)
        } else if s.sender_ip != ip {
            CancelDecisionView::Deny("ip mismatch"@)
        } else if requested is Some && requested != Some(s.session_id) {
            CancelDecisionView::Deny("session id mismatch"@)
        } else if !cancellable(s.status) {
            CancelDecisionView::Deny("session not cancellable in current state"@)
        } else {
            CancelDecisionView::Allow
        },
    }
}

pub open spec fn opt_ref_session_view(s: Option<&ReceiveSession>) -> Option<SessionView> {
    match s {
        Some(x) => Some(x@),
        None => None,
    }
}

pub open spec fn opt_str_view(s: Option<&str>) -> Option<Seq<char>> {
    match s {
        Some(x) => Some(x@),
        None => None,
    }
}

/// Decides a cancel request against the current session.
pub fn evaluate_cancel(session: Option<&ReceiveSession>, requester_ip: &str, requested_session_id: Option<&str>) -> (r: CancelDecision)
    ensures
        r@ == cancel_spec(opt_ref_session_view(session), requester_ip@, opt_str_view(requested_session_id)),
{
    let v2_cancel = requested_session_id.is_some();
    let session = match session {
        Some(s) => s,
        None => {
            return CancelDecision::Deny("no active session");
        },
    };
    if !v2_cancel && !str_eq(session.sender_version.as_str(), "1.0") {
        return CancelDecision::Deny("v1 cancel against v2 session");
    }
    if !str_eq(session.sender_ip.as_str(), requester_ip) {
        return CancelDecision::Deny("ip mismatch");
    }
    match requested_session_id {
        Some(id) => {
            if !str_eq(id, session.session_id.as_str()) {
                return CancelDecision::Deny("session id mismatch");
            }
        },
        None => {},
    }
    if session.status != SessionStatus::Sending && session.status != SessionStatus::FinishedWithErrors {
        return CancelDecision::Deny("session not cancellable in current state");
    }
    CancelDecision::Allow
}

/// The outcome of an honoured cancel.
pub open spec fn cancelled_outcome(human: bool) -> OutcomeView {
    OutcomeView {
        reply: ReplyView { status: 200, body: ReplyBodyView::Empty },
        human: if human {
            seq!["Transfer cancelled by sender."@]
        } else {
            Seq::empty()
        },
        events: seq![ReceiveEventView::TransferCancelled],
        delay_ms: 0,
        stop: false,
    }
}

/// The receiver's settings are unchanged between two states.
pub open spec fn same_settings(a: ServerState, b: ServerState) -> bool {
    &&& a.config == b.config
    &&& a.identity == b.identity
    &&& a.receive_pin == b.receive_pin
    &&& a.output == b.output
    &&& a.stop_after_transfer == b.stop_after_transfer
}

/// Builds an outcome with one event and at most one human line.
fn outcome_with(human: bool, line: &str, reply: Reply, events: Vec<ReceiveEvent>, delay_ms: u64, stop: bool) -> (r: Outcome)
    ensures
        r@ == (OutcomeView {
            reply: reply@,
            human: if human {
                seq![line@]
            } else {
                Seq::empty()
            },
            events: events_view(events@),
            delay_ms,
            stop,
        }),
{
    let mut lines: Vec<String> = Vec::new();
    if human {
        lines.push(String::from_str(line));
    }
    let r = Outcome { reply, human: lines, events, delay_ms, stop };
    if human {
        assert(strings_view(r.human@) =~= seq![line@]);
    } else {
        assert(strings_view(r.human@) =~= Seq::empty());
    }
    r
}

impl ServerState {
    /// Handles a cancel request: an honoured cancel closes the session.
    pub fn cancel(&mut self, requester_ip: &str, requested_session_id: Option<String>) -> (r: Outcome)
        ensures
            same_settings(*final(self), *old(self)),
            final(self).pin_attempts == old(self).pin_attempts,
            match cancel_spec(session_opt_view(old(self).session), requester_ip@, opt_seq(requested_session_id)) {
                CancelDecisionView::Allow => {
                    &&& final(self).session is None
                    &&& r@ == cancelled_outcome(old(self).human())
                },
                CancelDecisionView::Deny(_) => {
                    &&& final(self).session == old(self).session
                    &&& r@ == reply_only(ReplyView { status: 403, body: ReplyBodyView::Empty })
                },
            },
    {
        let requested = match &requested_session_id {
            Some(s) => Some(s.as_str()),
            None => None,
        };
        let decision = match &self.session {
            Some(s) => evaluate_cancel(Some(s), requester_ip, requested),
            None => evaluate_cancel(None, requester_ip, requested),
        };
        match decision {
            CancelDecision::Allow => {
                self.session = None;
                let mut events: Vec<ReceiveEvent> = Vec::new();
                events.push(ReceiveEvent::TransferCancelled);
                assert(events_view(events@) =~= seq![ReceiveEventView::TransferCancelled]);
                outcome_with(
                    self.output == OutputMode::Human,
                    "Transfer cancelled by sender.",
                    Reply { status: 200, body: ReplyBody::Empty },
                    events,
                    0,
                    false,
                )
            },
            CancelDecision::Deny(_) => outcome_of(Reply { status: 403, body: ReplyBody::Empty }),
        }
    }
}

// ---------------------------------------------------------------- prepare-upload

/// A file type that announces text: `text`, or `text/...`, in any letter case.
pub open spec fn is_text_type(t: Seq<char>) -> bool {
    lower_seq(t) == "text"@ || is_prefix_of("text/"@, lower_seq(t))
}

/// Whether a file type announces text.
pub fn is_text_file_type(file_type: &str) -> (r: bool)
    ensures
        r == is_text_type(file_type@),
{
    let lower = str_to_lower(file_type);
    let l = to_chars(lower.as_str());
    let t = to_chars("text");
    let ts = to_chars("text/");
    chars_eq(l.as_slice(), t.as_slice()) || starts_with(l.as_slice(), ts.as_slice())
}

/// A request is an inline text message when it announces exactly one file,
/// of a text type, with a preview: the preview is the message.
pub open spec fn embedded_text_spec(files: Seq<(Seq<char>, FileDtoView)>) -> Option<Seq<char>> {
    if files.len() == 1 && is_text_type(files[0].1.file_type) {
        files[0].1.preview
    } else {
        None
    }
}

/// The inline text message of a request, if it is one.
pub fn extract_embedded_text_message(files: &Vec<(String, FileDto)>) -> (r: Option<&str>)
    ensures
        opt_str_view(r) == embedded_text_spec(files_view(files@)),
{
    if files.len() != 1 {
        return None;
    }
    let file = &files[0].1;
    assert(files_view(files@)[0].1 == file@);
    if !is_text_file_type(file.file_type.as_str()) {
        return None;
    }
    match &file.preview {
        Some(p) => Some(p.as_str()),
        None => None,
    }
}

/// The outcome of an inline text message: shown, reported, answered with 204
/// after a short delay; the receiver stops afterwards if it was asked to stop
/// after one transfer.
pub open spec fn message_outcome(human: bool, stop_after: bool, alias: Seq<char>, text: Seq<char>) -> OutcomeView {
    OutcomeView {
        reply: ReplyView { status: 204, body: ReplyBodyView::Empty },
        human: if human {
            seq!["Message from "@ + alias + ": "@ + text]
        } else {
            Seq::empty()
        },
        events: seq![
            ReceiveEventView::MessageReceived {
                sender_alias: alias,
                text,
                size: (encode_utf8(text).len() as usize) as u64,
            },
            ReceiveEventView::TransferComplete,
        ],
        delay_ms: TEXT_MESSAGE_RESPONSE_DELAY_MS,
        stop: stop_after,
    }
}

/// The session opened for a request, with its id and one token per file.
pub open spec fn session_from(ip: Seq<char>, p: ParsedView, sid: Seq<char>, toks: Seq<Seq<char>>, dir: Seq<char>) -> SessionView {
    SessionView {
        session_id: sid,
        sender_ip: ip,
        sender_version: p.sender_version,
        destination_dir: dir,
        files: Seq::new(
            p.files.len(),
            |i: int|
                (
                    p.files[i].0,
                    EntryView {
                        file: p.files[i].1,
                        token: toks[i],
                        desired_name: p.files[i].1.file_name,
                        path: None,
                        failed: false,
                    },
                ),
        ),
        status: SessionStatus::Sending,
    }
}

/// Each announced file's id with its upload token.
pub open spec fn token_pairs(p: ParsedView, toks: Seq<Seq<char>>) -> Seq<(Seq<char>, Seq<char>)> {
    Seq::new(p.files.len(), |i: int| (p.files[i].0, toks[i]))
}

pub open spec fn started_line(alias: Seq<char>, n: nat) -> Seq<char> {
    "Incoming transfer from "@ + alias + " ("@ + decimal(n) + " file(s))"@
}

/// The outcome of an accepted request: the session id and tokens (the
/// version 1 reply has the tokens only), and a started transfer.
pub open spec fn accepted_outcome(human: bool, v2: bool, p: ParsedView, sid: Seq<char>, toks: Seq<Seq<char>>) -> OutcomeView {
    OutcomeView {
        reply: ReplyView {
            status: 200,
            body: if v2 {
                ReplyBodyView::PrepareV2 { session_id: sid, files: token_pairs(p, toks) }
            } else {
                ReplyBodyView::PrepareV1 { files: token_pairs(p, toks) }
            },
        },
        human: if human {
            seq![started_line(p.sender_alias, p.files.len())]
        } else {
            Seq::empty()
        },
        events: seq![
            ReceiveEventView::TransferStarted {
                sender_alias: p.sender_alias,
                file_count: p.files.len() as usize,
            },
        ],
        delay_ms: 0,
        stop: false,
    }
}

impl ServerState {
    /// The outcome of an inline text message.
    pub fn embedded_text_outcome(&self, sender_alias: &str, text: &str) -> (r: Outcome)
        ensures
            r@ == message_outcome(self.human(), self.stop_after_transfer, sender_alias@, text@),
    {
        let bytes = text.len() as u64;
        let line = concat3("Message from ", sender_alias, ": ");
        let line = concat2(line.as_str(), text);
        let mut events: Vec<ReceiveEvent> = Vec::new();
        events.push(
            ReceiveEvent::MessageReceived {
                sender_alias: String::from_str(sender_alias),
                text: String::from_str(text),
                size: bytes,
            },
        );
        events.push(ReceiveEvent::TransferComplete);
        assert(events_view(events@) =~= message_outcome(self.human(), self.stop_after_transfer, sender_alias@, text@).events);
        let r = outcome_with(
            self.output == OutputMode::Human,
            line.as_str(),
            Reply { status: 204, body: ReplyBody::Empty },
            events,
            TEXT_MESSAGE_RESPONSE_DELAY_MS,
            self.stop_after_transfer,
        );
        r
    }

    /// Opens a session for an accepted request, with the given session id and
    /// one token per announced file, in order.
    pub fn accept_prepared(
        &mut self,
        client_ip: &str,
        request: ParsedPrepareUpload,
        session_id: String,
        tokens: Vec<String>,
        v2_api: bool,
    ) -> (r: Outcome)
        requires
            tokens@.len() == request.files@.len(),
        ensures
            same_settings(*final(self), *old(self)),
            final(self).pin_attempts == old(self).pin_attempts,
            session_opt_view(final(self).session) == Some(
                session_from(client_ip@, request@, session_id@, strings_view(tokens@), old(self).config.receive_dir@),
            ),
            r@ == accepted_outcome(old(self).human(), v2_api, request@, session_id@, strings_view(tokens@)),
    {
        let ghost p = request@;
        let ghost toks = strings_view(tokens@);
        let n = request.files.len();
        let mut response_files: Vec<(String, String)> = Vec::new();
        let mut session_files: Vec<(String, ReceivingFileEntry)> = Vec::new();
        let ParsedPrepareUpload { sender_alias, sender_version, files } = request;
        let mut i: usize = 0;
        while i < n
            invariant
                i <= n,
                n == files@.len(),
                tokens@.len() == n,
                p.files == files_view(files@),
                toks == strings_view(tokens@),
                pairs_view(response_files@) == token_pairs(p, toks).take(i as int),
                entries_view(session_files@) == session_from(client_ip@, p, session_id@, toks, old(self).config.receive_dir@).files.take(i as int),
            decreases n - i,
        {
            let ghost rf = pairs_view(response_files@);
            let ghost sf = entries_view(session_files@);
            assert(p.files[i as int] == (files@[i as int].0@, files@[i as int].1@));
            assert(toks[i as int] == tokens@[i as int]@);
            let id = files[i].0.clone();
            let file = files[i].1.copy();
            let token = tokens[i].clone();
            let desired_name = file.file_name.clone();
            response_files.push((id.clone(), token.clone()));
            let entry = ReceivingFileEntry { file, token, desired_name, path: None, failed: false };
            session_files.push((id, entry));
            proof {
                assert(pairs_view(response_files@) =~= rf.push((p.files[i as int].0, toks[i as int])));
                assert(entries_view(session_files@) =~= sf.push(session_from(client_ip@, p, session_id@, toks, old(self).config.receive_dir@).files[i as int]));
                assert(pairs_view(response_files@) =~= token_pairs(p, toks).take(i + 1));
                assert(entries_view(session_files@) =~= session_from(client_ip@, p, session_id@, toks, old(self).config.receive_dir@).files.take(i + 1));
            }
            i = i + 1;
        }
        proof {
            assert(token_pairs(p, toks).take(n as int) =~= token_pairs(p, toks));
            assert(session_from(client_ip@, p, session_id@, toks, old(self).config.receive_dir@).files.take(n as int)
                =~= session_from(client_ip@, p, session_id@, toks, old(self).config.receive_dir@).files);
        }
        let line = concat3("Incoming transfer from ", sender_alias.as_str(), " (");
        let count = decimal_string(n as u64);
        let line = concat3(line.as_str(), count.as_str(), " file(s))");
        let mut events: Vec<ReceiveEvent> = Vec::new();
        events.push(ReceiveEvent::TransferStarted { sender_alias: sender_alias.clone(), file_count: n });
        assert(events_view(events@) =~= seq![
            ReceiveEventView::TransferStarted { sender_alias: p.sender_alias, file_count: n },
        ]);
        let body = if v2_api {
            ReplyBody::PrepareV2 { session_id: session_id.clone(), files: response_files }
        } else {
            ReplyBody::PrepareV1 { files: response_files }
        };
        self.session = Some(
            ReceiveSession {
                session_id,
                sender_ip: String::from_str(client_ip),
                sender_version,
                destination_dir: self.config.receive_dir.clone(),
                files: session_files,
                status: SessionStatus::Sending,
            },
        );
        let r = outcome_with(self.output == OutputMode::Human, line.as_str(), Reply { status: 200, body }, events, 0, false);
        r
    }
}

/// What a prepare-upload request amounts to once its PIN passed: refused
/// while another session is open, refused when the body is not a request or
/// announces no file, answered as an inline message, or accepted with some
/// session id and tokens (given here).
pub open spec fn prepare_after_pin(
    old: ServerState,
    new: ServerState,
    r: OutcomeView,
    client_ip: Seq<char>,
    body: Seq<char>,
    v2_api: bool,
) -> bool {
    if old.session is Some {
        r == reply_only(error_reply(409, "Blocked by another session"@)) && new.session == old.session
    } else {
        match prepare_request_spec(body) {
            Err(_) => r == reply_only(error_reply(400, "Request body malformed"@)) && new.session is None,
            Ok(p) => if p.files.len() == 0 {
                r == reply_only(error_reply(400, "Request must contain at least one file"@)) && new.session is None
            } else {
                match embedded_text_spec(p.files) {
                    Some(t) => r == message_outcome(old.human(), old.stop_after_transfer, p.sender_alias, t)
                        && new.session is None,
                    None => exists|sid: Seq<char>, toks: Seq<Seq<char>>|
                        {
                            &&& is_hyphenated_uuid(sid)
                            &&& toks.len() == p.files.len()
                            &&& forall|i: int| 0 <= i < toks.len() ==> is_hyphenated_uuid(#[trigger] toks[i])
                            &&& session_opt_view(new.session) == Some(
                                session_from(client_ip, p, sid, toks, old.config.receive_dir@),
                            )
                            &&& r == accepted_outcome(old.human(), v2_api, p, sid, toks)
                        },
                }
            },
        }
    }
}

impl ServerState {
    /// Handles a prepare-upload request: the PIN,
    /// then the open session, then the body decide. A new session gets a
    /// fresh random id and one fresh random token per file.
    pub fn prepare_upload(
        &mut self,
        client_ip: &str,
        query_pin: Option<String>,
        header_pin: Option<String>,
        body: &str,
        v2_api: bool,
    ) -> (r: Outcome)
        ensures
            same_settings(*final(self), *old(self)),
            forall|other: Seq<char>| other != client_ip@ ==> attempts_of(final(self).pin_attempts@, other) == attempts_of(old(self).pin_attempts@, other),
            ({
                let (verdict, n) = pin_check_spec(
                    expected_pin(opt_seq(old(self).receive_pin)),
                    attempts_of(old(self).pin_attempts@, client_ip@),
                    provided_pin(opt_seq(query_pin), opt_seq(header_pin)),
                );
                &&& attempts_of(final(self).pin_attempts@, client_ip@) == n
                &&& if !(verdict is Pass) {
                    r@ == reply_only(pin_reply(verdict)->0) && final(self).session == old(self).session
                } else {
                    prepare_after_pin(*old(self), *final(self), r@, client_ip@, body@, v2_api)
                }
            }),
    {
        match self.check_pin(client_ip, query_pin, header_pin) {
            Some(reply) => {
                return outcome_of(reply);
            },
            None => {},
        }
        if self.session.is_some() {
            return outcome_of(error_response(409, "Blocked by another session"));
        }
        let request = match parse_prepare_upload_request(body) {
            Ok(request) => request,
            Err(_) => {
                return outcome_of(error_response(400, "Request body malformed"));
            },
        };
        if request.files.len() == 0 {
            return outcome_of(error_response(400, "Request must contain at least one file"));
        }
        match extract_embedded_text_message(&request.files) {
            Some(text) => {
                return self.embedded_text_outcome(request.sender_alias.as_str(), text);
            },
            None => {},
        }
        let session_id = new_uuid_string();
        let n = request.files.len();
        let mut tokens: Vec<String> = Vec::new();
        let mut i: usize = 0;
        while i < n
            invariant
                i <= n,
                tokens@.len() == i,
                forall|j: int| 0 <= j < i ==> is_hyphenated_uuid(#[trigger] tokens@[j]@),
            decreases n - i,
        {
            tokens.push(new_uuid_string());
            i = i + 1;
        }
        let ghost p = request@;
        let ghost toks = strings_view(tokens@);
        let r = self.accept_prepared(client_ip, request, session_id, tokens, v2_api);
        assert(forall|j: int| 0 <= j < toks.len() ==> is_hyphenated_uuid(#[trigger] toks[j]));
        r
    }
}

// ---------------------------------------------------------------- upload

/// Where an accepted upload goes: the file's id, the name the sender asked
/// for, and the session's receive directory.
#[derive(Debug)]
pub struct UploadTarget {
    pub file_id: String,
    pub desired_name: String,
    pub destination_dir: String,
}

/// The position of the entry for `key`, or -1.
pub open spec fn entry_index(files: Seq<(Seq<char>, EntryView)>, key: Seq<char>) -> int
    decreases files.len(),
{
    if files.len() == 0 {
        -1
    } else if files[0].0 == key {
        0
    } else {
        let i = entry_index(files.drop_first(), key);
        if i < 0 {
            -1
        } else {
            i + 1
        }
    }
}

proof fn lemma_entry_index_bounds(files: Seq<(Seq<char>, EntryView)>, key: Seq<char>)
    ensures
        -1 <= entry_index(files, key) < files.len(),
        entry_index(files, key) >= 0 ==> files[entry_index(files, key)].0 == key,
    decreases files.len(),
{
    if files.len() > 0 {
        lemma_entry_index_bounds(files.drop_first(), key);
    }
}

/// The entry for `key` (`HashMap::get_mut`), searching from the front.
fn find_entry(files: &Vec<(String, ReceivingFileEntry)>, key: &str) -> (r: Option<usize>)
    ensures
        match r {
            Some(i) => i < files@.len() && entry_index(entries_view(files@), key@) == i,
            None => entry_index(entries_view(files@), key@) == -1,
        },
{
    let mut i: usize = 0;
    assert(entries_view(files@).skip(0) == entries_view(files@));
    while i < files.len()
        invariant
            i <= files@.len(),
            entry_index(entries_view(files@), key@) == if entry_index(entries_view(files@).skip(i as int), key@) < 0 {
                -1
            } else {
                entry_index(entries_view(files@).skip(i as int), key@) + i
            },
        decreases files@.len() - i,
    {
        let ghost rest = entries_view(files@).skip(i as int);
        assert(rest.drop_first() == entries_view(files@).skip(i + 1));
        assert(rest[0] == (files@[i as int].0@, files@[i as int].1@));
        if str_eq(files[i].0.as_str(), key) {
            return Some(i);
        }
        i = i + 1;
    }
    assert(entries_view(files@).skip(i as int) =~= Seq::empty());
    None
}

pub open spec fn with_status(s: SessionView, status: SessionStatus) -> SessionView {
    SessionView { status, ..s }
}

pub open spec fn with_entry(s: SessionView, i: int, path: Option<Seq<char>>, failed: bool) -> SessionView {
    SessionView {
        files: s.files.update(i, (s.files[i].0, EntryView { path, failed, ..s.files[i].1 })),
        ..s
    }
}

pub struct TargetView {
    pub file_id: Seq<char>,
    pub desired_name: Seq<char>,
    pub destination_dir: Seq<char>,
}

/// The checks before a file's bytes are accepted, in order: the parameters,
/// an open session, its id, the sender's address, its state (a session with
/// failed files goes back to sending), then the file's token. An accepted
/// file is no longer marked failed.
pub open spec fn begin_upload_spec(
    s: Option<SessionView>,
    ip: Seq<char>,
    sid: Option<Seq<char>>,
    fid: Option<Seq<char>>,
    tok: Option<Seq<char>>,
    require_sid: bool,
) -> (Option<SessionView>, Result<TargetView, ReplyView>) {
    if (require_sid && sid is None) || fid is None || tok is None {
        (s, Err(error_reply(400, "Missing parameters"@)))
    } else {
        match s {
            None => (s, Err(error_reply(409, "No session"@))),
            Some(ss) => if sid is Some && sid != Some(ss.session_id) {
                (s, Err(error_reply(403, "Invalid session id"@)))
            } else if ss.sender_ip != ip {
                (s, Err(error_reply(403, "Invalid IP address: "@ + ip)))
            } else if !cancellable(ss.status) {
                (s, Err(error_reply(409, "Recipient is in wrong state"@)))
            } else {
                let s1 = with_status(ss, SessionStatus::Sending);
                let i = entry_index(s1.files, fid->0);
                if i < 0 || s1.files[i].1.token != tok->0 {
                    (Some(s1), Err(error_reply(403, "Invalid token"@)))
                } else {
                    (
                        Some(with_entry(s1, i, s1.files[i].1.path, false)),
                        Ok(
                            TargetView {
                                file_id: fid->0,
                                desired_name: s1.files[i].1.desired_name,
                                destination_dir: ss.destination_dir,
                            },
                        ),
                    )
                }
            },
        }
    }
}

pub open spec fn target_result_view(r: Result<UploadTarget, Reply>) -> Result<TargetView, ReplyView> {
    match r {
        Ok(t) => Ok(TargetView { file_id: t.file_id@, desired_name: t.desired_name@, destination_dir: t.destination_dir@ }),
        Err(e) => Err(e@),
    }
}

/// A copy of an entry with a new path and failure mark.
fn entry_with(e: &ReceivingFileEntry, path: Option<String>, failed: bool) -> (r: ReceivingFileEntry)
    ensures
        r@ == (EntryView { path: opt_seq(path), failed, ..e@ }),
{
    ReceivingFileEntry {
        file: e.file.copy(),
        token: e.token.clone(),
        desired_name: e.desired_name.clone(),
        path,
        failed,
    }
}

/// Replaces the path and failure mark of entry `i`.
fn set_entry(files: &mut Vec<(String, ReceivingFileEntry)>, i: usize, path: Option<String>, failed: bool)
    requires
        i < old(files)@.len(),
    ensures
        final(files)@.len() == old(files)@.len(),
        entries_view(final(files)@) == entries_view(old(files)@).update(
            i as int,
            (old(files)@[i as int].0@, EntryView { path: opt_seq(path), failed, ..old(files)@[i as int].1@ }),
        ),
{
    let key = files[i].0.clone();
    let e = entry_with(&files[i].1, path, failed);
    let ghost ev = e@;
    files.set(i, (key, e));
    assert(entries_view(files@) =~= entries_view(old(files)@).update(i as int, (old(files)@[i as int].0@, ev)));
}

impl ServerState {
    /// The checks before an upload's bytes are read. On success the caller stores the bytes and reports
    /// back with `finish_upload`.
    pub fn begin_upload(
        &mut self,
        client_ip: &str,
        session_id: Option<String>,
        file_id: Option<String>,
        token: Option<String>,
        require_session_id: bool,
    ) -> (r: Result<UploadTarget, Reply>)
        ensures
            same_settings(*final(self), *old(self)),
            final(self).pin_attempts == old(self).pin_attempts,
            ({
                let (s, res) = begin_upload_spec(
                    session_opt_view(old(self).session),
                    client_ip@,
                    opt_seq(session_id),
                    opt_seq(file_id),
                    opt_seq(token),
                    require_session_id,
                );
                &&& session_opt_view(final(self).session) == s
                &&& target_result_view(r) == res
            }),
    {
        if require_session_id && session_id.is_none() {
            return Err(error_response(400, "Missing parameters"));
        }
        let file_id = match file_id {
            Some(v) => v,
            None => {
                return Err(error_response(400, "Missing parameters"));
            },
        };
        let token = match token {
            Some(v) => v,
            None => {
                return Err(error_response(400, "Missing parameters"));
            },
        };
        let mut session = match self.session.take() {
            Some(s) => s,
            None => {
                return Err(error_response(409, "No session"));
            },
        };
        match &session_id {
            Some(expected) => {
                if !str_eq(session.session_id.as_str(), expected.as_str()) {
                    self.session = Some(session);
                    return Err(error_response(403, "Invalid session id"));
                }
            },
            None => {},
        }
        if !str_eq(session.sender_ip.as_str(), client_ip) {
            self.session = Some(session);
            let message = concat2("Invalid IP address: ", client_ip);
            return Err(Reply { status: 403, body: ReplyBody::Error(message) });
        }
        if session.status != SessionStatus::Sending && session.status != SessionStatus::FinishedWithErrors {
            self.session = Some(session);
            return Err(error_response(409, "Recipient is in wrong state"));
        }
        session.status = SessionStatus::Sending;
        let i = match find_entry(&session.files, file_id.as_str()) {
            Some(i) => i,
            None => {
                self.session = Some(session);
                return Err(error_response(403, "Invalid token"));
            },
        };
        if !str_eq(session.files[i].1.token.as_str(), token.as_str()) {
            self.session = Some(session);
            return Err(error_response(403, "Invalid token"));
        }
        let desired_name = session.files[i].1.desired_name.clone();
        let destination_dir = session.destination_dir.clone();
        let path = match &session.files[i].1.path {
            Some(p) => Some(p.clone()),
            None => None,
        };
        let ghost before = session@;
        set_entry(&mut session.files, i, path, false);
        assert(session@ == with_entry(before, i as int, before.files[i as int].1.path, false));
        self.session = Some(session);
        Ok(UploadTarget { file_id, desired_name, destination_dir })
    }
}

/// Every file is either saved or failed.
pub open spec fn all_done(files: Seq<(Seq<char>, EntryView)>) -> bool {
    forall|i: int| 0 <= i < files.len() ==> (#[trigger] files[i]).1.path is Some || files[i].1.failed
}

/// Some file failed.
pub open spec fn any_failed(files: Seq<(Seq<char>, EntryView)>) -> bool {
    exists|i: int| 0 <= i < files.len() && (#[trigger] files[i]).1.failed
}

pub open spec fn saved_line(path: Seq<char>, bytes: u64) -> Seq<char> {
    "Saved "@ + path + " ("@ + decimal(bytes as nat) + " bytes)"@
}

pub open spec fn lines_if(human: bool, lines: Seq<Seq<char>>) -> Seq<Seq<char>> {
    if human {
        lines
    } else {
        Seq::empty()
    }
}

/// What storing a file's bytes leads to. A failed store marks the file failed
/// and answers 500 with the error. A stored file records its path; when no
/// file is left pending the session either stays open with the failures
/// (for the sender to retry) or, when none failed, closes; the receiver then
/// stops if it was asked to stop after one transfer.
pub open spec fn finish_upload_spec(
    s: Option<SessionView>,
    fid: Seq<char>,
    save: Result<(Seq<char>, u64), Seq<char>>,
    human: bool,
    stop_after: bool,
) -> (Option<SessionView>, OutcomeView) {
    match s {
        None => (s, reply_only(error_reply(409, "No session"@))),
        Some(ss) => {
            let i = entry_index(ss.files, fid);
            if i < 0 {
                (s, reply_only(error_reply(403, "Invalid token"@)))
            } else {
                match save {
                    Err(e) => (Some(with_entry(ss, i, ss.files[i].1.path, true)), reply_only(error_reply(500, e))),
                    Ok((path, bytes)) => {
                        let s1 = with_entry(ss, i, Some(path), false);
                        let saved = ReceiveEventView::FileSaved {
                            path,
                            file_name: ss.files[i].1.desired_name,
                            size: bytes,
                        };
                        let ok = ReplyView { status: 200, body: ReplyBodyView::Empty };
                        if !all_done(s1.files) {
                            (
                                Some(s1),
                                OutcomeView {
                                    reply: ok,
                                    human: lines_if(human, seq![saved_line(path, bytes)]),
                                    events: seq![saved],
                                    delay_ms: 0,
                                    stop: false,
                                },
                            )
                        } else if any_failed(s1.files) {
                            (
                                Some(with_status(s1, SessionStatus::FinishedWithErrors)),
                                OutcomeView {
                                    reply: ok,
                                    human: lines_if(human, seq![saved_line(path, bytes), "Transfer finished with errors."@]),
                                    events: seq![saved, ReceiveEventView::TransferFinishedWithErrors],
                                    delay_ms: 0,
                                    stop: false,
                                },
                            )
                        } else {
                            (
                                None,
                                OutcomeView {
                                    reply: ok,
                                    human: lines_if(human, seq![saved_line(path, bytes), "Transfer complete."@]),
                                    events: seq![saved, ReceiveEventView::TransferComplete],
                                    delay_ms: 0,
                                    stop: stop_after,
                                },
                            )
                        }
                    },
                }
            }
        },
    }
}

pub open spec fn save_view(r: Result<(String, u64), String>) -> Result<(Seq<char>, u64), Seq<char>> {
    match r {
        Ok((p, n)) => Ok((p@, n)),
        Err(e) => Err(e@),
    }
}

/// Whether every file is saved or failed, and whether any failed.
fn completion(files: &Vec<(String, ReceivingFileEntry)>) -> (r: (bool, bool))
    ensures
        r.0 == all_done(entries_view(files@)),
        r.1 == any_failed(entries_view(files@)),
{
    let ghost ev = entries_view(files@);
    let mut done = true;
    let mut failed = false;
    let mut i: usize = 0;
    while i < files.len()
        invariant
            i <= files@.len(),
            ev == entries_view(files@),
            done == (forall|j: int| 0 <= j < i ==> (#[trigger] ev[j]).1.path is Some || ev[j].1.failed),
            failed == (exists|j: int| 0 <= j < i && (#[trigger] ev[j]).1.failed),
        decreases files@.len() - i,
    {
        assert(ev[i as int] == (files@[i as int].0@, files@[i as int].1@));
        let e = &files[i].1;
        if !(e.path.is_some() || e.failed) {
            done = false;
        }
        if e.failed {
            failed = true;
        }
        i = i + 1;
    }
    (done, failed)
}

impl ServerState {
    /// Records how storing an accepted file's bytes went: the stored path and size, or the error.
    pub fn finish_upload(&mut self, file_id: &str, save: Result<(String, u64), String>) -> (r: Outcome)
        ensures
            same_settings(*final(self), *old(self)),
            final(self).pin_attempts == old(self).pin_attempts,
            ({
                let (s, o) = finish_upload_spec(
                    session_opt_view(old(self).session),
                    file_id@,
                    save_view(save),
                    old(self).human(),
                    old(self).stop_after_transfer,
                );
                &&& session_opt_view(final(self).session) == s
                &&& r@ == o
            }),
    {
        let human = self.output == OutputMode::Human;
        let mut session = match self.session.take() {
            Some(s) => s,
            None => {
                return outcome_of(error_response(409, "No session"));
            },
        };
        let i = match find_entry(&session.files, file_id) {
            Some(i) => i,
            None => {
                self.session = Some(session);
                return outcome_of(error_response(403, "Invalid token"));
            },
        };
        proof {
            lemma_entry_index_bounds(entries_view(session.files@), file_id@);
        }
        let ghost before = session@;
        match save {
            Err(e) => {
                let path = match &session.files[i].1.path {
                    Some(p) => Some(p.clone()),
                    None => None,
                };
                set_entry(&mut session.files, i, path, true);
                assert(session@ == with_entry(before, i as int, before.files[i as int].1.path, true));
                self.session = Some(session);
                outcome_of(Reply { status: 500, body: ReplyBody::Error(e) })
            },
            Ok((path, bytes)) => {
                let desired_name = session.files[i].1.desired_name.clone();
                let line = concat3("Saved ", path.as_str(), " (");
                let count = decimal_string(bytes);
                let line = concat3(line.as_str(), count.as_str(), " bytes)");
                let ghost pv = path@;
                let mut events: Vec<ReceiveEvent> = Vec::new();
                events.push(ReceiveEvent::FileSaved { path: path.clone(), file_name: desired_name, size: bytes });
                let mut lines: Vec<String> = Vec::new();
                if human {
                    lines.push(line);
                }
                set_entry(&mut session.files, i, Some(path), false);
                assert(session@ == with_entry(before, i as int, Some(pv), false));
                let (done, failed) = completion(&session.files);
                let mut stop = false;
                if done {
                    if failed {
                        session.status = SessionStatus::FinishedWithErrors;
                        if human {
                            lines.push(String::from_str("Transfer finished with errors."));
                        }
                        events.push(ReceiveEvent::TransferFinishedWithErrors);
                        self.session = Some(session);
                    } else {
                        if human {
                            lines.push(String::from_str("Transfer complete."));
                        }
                        events.push(ReceiveEvent::TransferComplete);
                        stop = self.stop_after_transfer;
                    }
                } else {
                    self.session = Some(session);
                }
                let r = Outcome {
                    reply: Reply { status: 200, body: ReplyBody::Empty },
                    human: lines,
                    events,
                    delay_ms: 0,
                    stop,
                };
                let ghost (_, o) = finish_upload_spec(
                    Some(before),
                    file_id@,
                    save_view(Ok::<(String, u64), String>((path, bytes))),
                    human,
                    old(self).stop_after_transfer,
                );
                assert(strings_view(r.human@) =~= o.human);
                assert(events_view(r.events@) =~= o.events);
                r
            },
        }
    }
}

// ---------------------------------------------------------------- info and register

/// This device's description, as `/info` and `/register` answer it.
#[derive(Debug, Clone)]
pub struct InfoResponse {
    pub alias: String,
    pub version: String,
    pub device_model: Option<String>,
    pub device_type: Option<DeviceType>,
    pub fingerprint: String,
    pub download: bool,
}

/// The description carries the alias, the protocol version, the operating
/// system's display name, the headless type and the fingerprint; downloads
/// are not offered.
pub open spec fn is_info_response(r: InfoResponse, config: AppConfig, identity: Identity, device_model: Seq<char>) -> bool {
    &&& r.alias@ == config.alias@
    &&& r.version@ == PROTOCOL_VERSION@
    &&& opt_seq(r.device_model) == Some(device_model)
    &&& r.device_type == Some(DeviceType::Headless)
    &&& r.fingerprint@ == identity.fingerprint@
    &&& !r.download
}

/// This device's description, `device_model` being the
/// operating system's display name.
pub fn info_response(config: &AppConfig, identity: &Identity, device_model: &str) -> (r: InfoResponse)
    ensures
        is_info_response(r, *config, *identity, device_model@),
{
    InfoResponse {
        alias: config.alias.clone(),
        version: String::from_str(PROTOCOL_VERSION),
        device_model: Some(String::from_str(device_model)),
        device_type: Some(DeviceType::Headless),
        fingerprint: identity.fingerprint.clone(),
        download: false,
    }
}

/// A version 1 registration body (same fields as a scan registration).
#[derive(Debug, Clone)]
pub struct RegisterPayloadCompat {
    pub alias: String,
    pub version: Option<String>,
    pub device_model: Option<String>,
    pub device_type: Option<String>,
    pub fingerprint: String,
    pub token: String,
    pub port: Option<u16>,
    pub protocol: Option<String>,
}

impl RegisterPayloadCompat {
    /// Prefers `fingerprint`, falls back to the legacy `token`.
    pub fn fingerprint(&self) -> (r: &str)
        ensures
            r@ == register_fingerprint(self.fingerprint@, self.token@),
    {
        if !self.fingerprint.as_str().is_empty() {
            self.fingerprint.as_str()
        } else {
            self.token.as_str()
        }
    }
}

impl ServerState {
    /// `GET /info` for version 1 peers: refused with 412 when the query names
    /// this device's own fingerprint.
    pub fn info_v1(&self, query_fingerprint: Option<String>, device_model: &str) -> (r: Result<InfoResponse, Reply>)
        ensures
            opt_seq(query_fingerprint) == Some(self.identity.fingerprint@) ==> (r matches Err(e) && e@ == error_reply(412, "Self-discovered"@)),
            opt_seq(query_fingerprint) != Some(self.identity.fingerprint@) ==> (r matches Ok(i) && is_info_response(i, self.config, self.identity, device_model@)),
    {
        match &query_fingerprint {
            Some(fp) => {
                if str_eq(fp.as_str(), self.identity.fingerprint.as_str()) {
                    return Err(error_response(412, "Self-discovered"));
                }
            },
            None => {},
        }
        Ok(info_response(&self.config, &self.identity, device_model))
    }

    /// `POST /register` for version 1 peers: refused without a fingerprint
    /// (400) or with this device's own (412).
    pub fn register_v1(&self, payload: &RegisterPayloadCompat, device_model: &str) -> (r: Result<InfoResponse, Reply>)
        ensures
            ({
                let f = register_fingerprint(payload.fingerprint@, payload.token@);
                &&& f.len() == 0 ==> (r matches Err(e) && e@ == error_reply(400, "Missing fingerprint"@))
                &&& f.len() > 0 && f == self.identity.fingerprint@ ==> (r matches Err(e) && e@ == error_reply(412, "Self-discovered"@))
                &&& f.len() > 0 && f != self.identity.fingerprint@ ==> (r matches Ok(i) && is_info_response(i, self.config, self.identity, device_model@))
            }),
    {
        let fingerprint = payload.fingerprint();
        if fingerprint.is_empty() {
            return Err(error_response(400, "Missing fingerprint"));
        }
        if str_eq(fingerprint, self.identity.fingerprint.as_str()) {
            return Err(error_response(412, "Self-discovered"));
        }
        Ok(info_response(&self.config, &self.identity, device_model))
    }
}

// ---------------------------------------------------------------- session laws

/// With no session open, a prepare-upload that passed the PIN check is never
/// refused as blocked by another session; in particular after an honoured
/// cancel (which closes the session, see `cancel`).
pub proof fn law_no_session_is_never_busy(
    old: ServerState,
    new: ServerState,
    r: OutcomeView,
    client_ip: Seq<char>,
    body: Seq<char>,
    v2_api: bool,
)
    requires
        old.session is None,
        prepare_after_pin(old, new, r, client_ip, body, v2_api),
    ensures
        r.reply.status != 409,
{
    match prepare_request_spec(body) {
        Err(_) => {},
        Ok(p) => {
            if p.files.len() > 0 && embedded_text_spec(p.files) is None {
                let (sid, toks) = choose|sid: Seq<char>, toks: Seq<Seq<char>>|
                    {
                        &&& is_hyphenated_uuid(sid)
                        &&& toks.len() == p.files.len()
                        &&& forall|i: int| 0 <= i < toks.len() ==> is_hyphenated_uuid(#[trigger] toks[i])
                        &&& session_opt_view(new.session) == Some(session_from(client_ip, p, sid, toks, old.config.receive_dir@))
                        &&& r == accepted_outcome(old.human(), v2_api, p, sid, toks)
                    };
            }
        },
    }
}

/// Bytes are accepted only from the session's own sender, for a file of the
/// session, with that file's token, and with the session's id when one is
/// given.
pub proof fn law_upload_needs_session_token_and_sender(
    s: Option<SessionView>,
    ip: Seq<char>,
    sid: Option<Seq<char>>,
    fid: Option<Seq<char>>,
    tok: Option<Seq<char>>,
    require_sid: bool,
)
    requires
        begin_upload_spec(s, ip, sid, fid, tok, require_sid).1 is Ok,
    ensures
        s matches Some(ss) && ss.sender_ip == ip && cancellable(ss.status) && (sid is Some ==> sid == Some(ss.session_id))
            && (require_sid ==> sid is Some) && exists|i: int|
            0 <= i < ss.files.len() && (#[trigger] ss.files[i]).0 == fid->0 && ss.files[i].1.token == tok->0,
{
    let ss = s->0;
    let s1 = with_status(ss, SessionStatus::Sending);
    lemma_entry_index_bounds(s1.files, fid->0);
    let i = entry_index(s1.files, fid->0);
    assert(ss.files[i] == s1.files[i]);
}

/// When the last pending file is stored and none failed, the session closes
/// and the transfer is reported complete.
pub proof fn law_last_saved_file_completes_transfer(
    ss: SessionView,
    fid: Seq<char>,
    path: Seq<char>,
    bytes: u64,
    human: bool,
    stop_after: bool,
)
    requires
        entry_index(ss.files, fid) >= 0,
        all_done(with_entry(ss, entry_index(ss.files, fid), Some(path), false).files),
        !any_failed(with_entry(ss, entry_index(ss.files, fid), Some(path), false).files),
    ensures
        finish_upload_spec(Some(ss), fid, Ok((path, bytes)), human, stop_after).0 is None,
        finish_upload_spec(Some(ss), fid, Ok((path, bytes)), human, stop_after).1.events.last()
            == ReceiveEventView::TransferComplete,
        finish_upload_spec(Some(ss), fid, Ok((path, bytes)), human, stop_after).1.stop == stop_after,
{
}

/// Once a prepare-upload has been accepted (answered 200, opening a
/// session), the next one that passes the PIN check is answered 409 and
/// leaves that session as it is.
pub proof fn law_accepted_session_blocks_the_next(
    s0: ServerState,
    s1: ServerState,
    r1: OutcomeView,
    ip1: Seq<char>,
    body1: Seq<char>,
    v2a: bool,
    s2: ServerState,
    r2: OutcomeView,
    ip2: Seq<char>,
    body2: Seq<char>,
    v2b: bool,
)
    requires
        s0.session is None,
        prepare_after_pin(s0, s1, r1, ip1, body1, v2a),
        r1.reply.status == 200,
        prepare_after_pin(s1, s2, r2, ip2, body2, v2b),
    ensures
        s1.session is Some,
        r2 == reply_only(error_reply(409, "Blocked by another session"@)),
        s2.session == s1.session,
{
    match prepare_request_spec(body1) {
        Err(_) => {},
        Ok(p) => {
            if p.files.len() > 0 && embedded_text_spec(p.files) is None {
                let (sid, toks) = choose|sid: Seq<char>, toks: Seq<Seq<char>>|
                    {
                        &&& is_hyphenated_uuid(sid)
                        &&& toks.len() == p.files.len()
                        &&& forall|i: int| 0 <= i < toks.len() ==> is_hyphenated_uuid(#[trigger] toks[i])
                        &&& session_opt_view(s1.session) == Some(session_from(ip1, p, sid, toks, s0.config.receive_dir@))
                        &&& r1 == accepted_outcome(s0.human(), v2a, p, sid, toks)
                    };
            }
        },
    }
}

/// An inline text message (answered 204) opens no session: after it, a
/// prepare-upload that passes the PIN check and announces files (not a
/// single text message) is accepted with 200 and opens a session.
pub proof fn law_message_leaves_no_session(
    s0: ServerState,
    s1: ServerState,
    r1: OutcomeView,
    ip1: Seq<char>,
    body1: Seq<char>,
    v2a: bool,
    s2: ServerState,
    r2: OutcomeView,
    ip2: Seq<char>,
    body2: Seq<char>,
    v2b: bool,
)
    requires
        s0.session is None,
        prepare_after_pin(s0, s1, r1, ip1, body1, v2a),
        r1.reply.status == 204,
        prepare_after_pin(s1, s2, r2, ip2, body2, v2b),
        prepare_request_spec(body2) matches Ok(p) && p.files.len() > 0 && embedded_text_spec(p.files) is None,
    ensures
        s1.session is None,
        r2.reply.status == 200,
        s2.session is Some,
{
    match prepare_request_spec(body1) {
        Err(_) => {},
        Ok(p) => {
            if p.files.len() > 0 && embedded_text_spec(p.files) is None {
                let (sid, toks) = choose|sid: Seq<char>, toks: Seq<Seq<char>>|
                    {
                        &&& is_hyphenated_uuid(sid)
                        &&& toks.len() == p.files.len()
                        &&& forall|i: int| 0 <= i < toks.len() ==> is_hyphenated_uuid(#[trigger] toks[i])
                        &&& session_opt_view(s1.session) == Some(session_from(ip1, p, sid, toks, s0.config.receive_dir@))
                        &&& r1 == accepted_outcome(s0.human(), v2a, p, sid, toks)
                    };
            }
        },
    }
    let p2 = prepare_request_spec(body2)->Ok_0;
    let (sid, toks) = choose|sid: Seq<char>, toks: Seq<Seq<char>>|
        {
            &&& is_hyphenated_uuid(sid)
            &&& toks.len() == p2.files.len()
            &&& forall|i: int| 0 <= i < toks.len() ==> is_hyphenated_uuid(#[trigger] toks[i])
            &&& session_opt_view(s2.session) == Some(session_from(ip2, p2, sid, toks, s1.config.receive_dir@))
            &&& r2 == accepted_outcome(s1.human(), v2b, p2, sid, toks)
        };
}

/// After a file is stored while another file of the session is neither
/// stored nor failed, the session stays open: same id, state and files (in
/// the same order), the answer is 200 with only the file-saved event, and
/// the receiver does not stop.
pub proof fn law_pending_file_keeps_session_open(
    ss: SessionView,
    fid: Seq<char>,
    path: Seq<char>,
    bytes: u64,
    human: bool,
    stop_after: bool,
    j: int,
)
    requires
        entry_index(ss.files, fid) >= 0,
        0 <= j < ss.files.len(),
        ss.files[j].0 != fid,
        ss.files[j].1.path is None,
        !ss.files[j].1.failed,
    ensures
        ({
            let (next, out) = finish_upload_spec(Some(ss), fid, Ok((path, bytes)), human, stop_after);
            &&& next matches Some(n) && n.session_id == ss.session_id && n.status == ss.status
                && n.sender_ip == ss.sender_ip && n.files.len() == ss.files.len()
                && forall|k: int| 0 <= k < ss.files.len() ==> (#[trigger] n.files[k]).0 == ss.files[k].0
                    && n.files[k].1.token == ss.files[k].1.token
            &&& n_pending(next, j)
            &&& out.reply.status == 200
            &&& out.events.len() == 1
            &&& out.events[0] is FileSaved
            &&& !out.stop
        }),
{
    lemma_entry_index_bounds(ss.files, fid);
    let i = entry_index(ss.files, fid);
    let s1 = with_entry(ss, i, Some(path), false);
    assert(i != j);
    assert(s1.files[j] == ss.files[j]);
    assert(!all_done(s1.files));
}

/// Whether the `j`-th file of a session is still pending.
pub open spec fn n_pending(s: Option<SessionView>, j: int) -> bool {
    s matches Some(n) && 0 <= j < n.files.len() && n.files[j].1.path is None && !n.files[j].1.failed
}

/// A stored file closes the session only when every other file of it is
/// stored and none failed; the transfer is then reported complete.
pub proof fn law_session_closes_only_when_all_stored(
    ss: SessionView,
    fid: Seq<char>,
    save: Result<(Seq<char>, u64), Seq<char>>,
    human: bool,
    stop_after: bool,
)
    requires
        finish_upload_spec(Some(ss), fid, save, human, stop_after).0 is None,
    ensures
        save is Ok,
        entry_index(ss.files, fid) >= 0,
        forall|k: int|
            0 <= k < ss.files.len() && (#[trigger] ss.files[k]).0 != fid ==> ss.files[k].1.path is Some
                && !ss.files[k].1.failed,
        finish_upload_spec(Some(ss), fid, save, human, stop_after).1.events.last() == ReceiveEventView::TransferComplete,
{
    lemma_entry_index_bounds(ss.files, fid);
    let i = entry_index(ss.files, fid);
    let (path, bytes) = save->Ok_0;
    let s1 = with_entry(ss, i, Some(path), false);
    assert forall|k: int|
        0 <= k < ss.files.len() && (#[trigger] ss.files[k]).0 != fid implies ss.files[k].1.path is Some
            && !ss.files[k].1.failed by {
        assert(k != i);
        assert(s1.files[k] == ss.files[k]);
        assert(s1.files[k].1.path is Some || s1.files[k].1.failed);
        if ss.files[k].1.failed {
            assert(any_failed(s1.files));
        }
    }
}

/// Keys that appear once each.
pub open spec fn entry_keys_unique(files: Seq<(Seq<char>, FileDtoView)>) -> bool {
    forall|a: int, b: int| 0 <= a < b < files.len() ==> files[a].0 != files[b].0
}

proof fn lemma_entry_index_of_unique(files: Seq<(Seq<char>, EntryView)>, i: int)
    requires
        0 <= i < files.len(),
        forall|a: int, b: int| 0 <= a < b < files.len() ==> files[a].0 != files[b].0,
    ensures
        entry_index(files, files[i].0) == i,
    decreases i,
{
    if i > 0 {
        let t = files.drop_first();
        assert(t[i - 1] == files[i]);
        assert forall|a: int, b: int| 0 <= a < b < t.len() implies t[a].0 != t[b].0 by {
            assert(t[a] == files[a + 1] && t[b] == files[b + 1]);
        }
        assert(files[0].0 != files[i].0);
        lemma_entry_index_of_unique(t, i - 1);
    }
}

/// A new session stores, for each announced file, exactly the token the
/// reply gives for that file (the `i`-th fresh token for the `i`-th file),
/// and an upload of that file from the same sender, with the session's id
/// and the token it was given, passes the session's checks.
pub proof fn law_issued_tokens_are_the_stored_tokens(
    ip: Seq<char>,
    p: ParsedView,
    sid: Seq<char>,
    toks: Seq<Seq<char>>,
    dir: Seq<char>,
    human: bool,
    v2: bool,
)
    requires
        toks.len() == p.files.len(),
        entry_keys_unique(p.files),
    ensures
        ({
            let ss = session_from(ip, p, sid, toks, dir);
            let reply_files = match accepted_outcome(human, v2, p, sid, toks).reply.body {
                ReplyBodyView::PrepareV2 { files, .. } => files,
                ReplyBodyView::PrepareV1 { files } => files,
                _ => Seq::empty(),
            };
            &&& reply_files.len() == p.files.len()
            &&& ss.files.len() == p.files.len()
            &&& forall|i: int|
                0 <= i < p.files.len() ==> {
                    &&& (#[trigger] reply_files[i]) == (p.files[i].0, toks[i])
                    &&& ss.files[i].0 == p.files[i].0
                    &&& ss.files[i].1.token == toks[i]
                    &&& begin_upload_spec(Some(ss), ip, Some(sid), Some(p.files[i].0), Some(toks[i]), true).1 is Ok
                }
        }),
{
    let ss = session_from(ip, p, sid, toks, dir);
    assert forall|i: int| 0 <= i < p.files.len() implies begin_upload_spec(
        Some(ss),
        ip,
        Some(sid),
        Some(p.files[i].0),
        Some(toks[i]),
        true,
    ).1 is Ok by {
        let s1 = with_status(ss, SessionStatus::Sending);
        assert forall|a: int, b: int| 0 <= a < b < s1.files.len() implies s1.files[a].0 != s1.files[b].0 by {
            assert(s1.files[a].0 == p.files[a].0 && s1.files[b].0 == p.files[b].0);
        }
        lemma_entry_index_of_unique(s1.files, i);
        assert(s1.files[i].0 == p.files[i].0);
    }
}

} // verus!
