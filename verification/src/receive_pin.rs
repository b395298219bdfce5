//! The receive PIN: from the command line (and then remembered), else the
//! remembered one, else the `LSEND_RECEIVE_PIN` environment variable.
use vstd::prelude::*;

use crate::alias::{join_path, join_spec, opt_view};
use crate::text::{concat2, lemma_trim_idempotent, lemma_trim_newline, trim, trim_str};

verus! {

broadcast use vstd::string::group_string_axioms;

/// The file, in the configuration directory, that remembers the PIN.
pub const RECEIVE_PIN_FILE: &'static str = "receive_pin";

/// Where the PIN is remembered.
pub fn pin_path(config_dir: &str) -> (r: String)
    ensures
        r@ == join_spec(config_dir@, RECEIVE_PIN_FILE@),
{
    join_path(config_dir, RECEIVE_PIN_FILE)
}

/// A trimmed value, unless empty.
pub open spec fn nonempty_trim(v: Option<Seq<char>>) -> Option<Seq<char>> {
    match v {
        Some(x) => if trim(x).len() > 0 { Some(trim(x)) } else { None },
        None => None,
    }
}

fn nonempty_trim_exec(v: &Option<String>) -> (r: Option<String>)
    ensures
        opt_view(r) == nonempty_trim(opt_view(*v)),
{
    match v {
        Some(x) => {
            let t = trim_str(x.as_str());
            if t.as_str().is_empty() {
                None
            } else {
                Some(t)
            }
        },
        None => None,
    }
}

/// The remembered PIN in the file's content (`None` when there is no file).
pub fn load_persisted(content: &Option<String>) -> (r: Option<String>)
    ensures
        opt_view(r) == nonempty_trim(opt_view(*content)),
{
    nonempty_trim_exec(content)
}

/// The PIN a receiver uses and the content to remember, if any.
#[derive(Debug, Clone, PartialEq, Eq)]
pub struct PinChoice {
    pub pin: Option<String>,
    pub persist: Option<String>,
}

/// Chooses the receive PIN, given the `--pin` value, the
/// remembered file's content and the environment variable's value. A
/// `--pin` value is trimmed, must not be empty, and is remembered.
pub fn resolve(cli_pin: Option<String>, persisted: Option<String>, env_value: Option<String>) -> (r: Result<PinChoice, String>)
    ensures
        match opt_view(cli_pin) {
            Some(p) => if trim(p).len() == 0 {
                r matches Err(e) && e@ == "Receive PIN must not be empty"@
            } else {
                r matches Ok(c) && opt_view(c.pin) == Some(trim(p)) && opt_view(c.persist) == Some(trim(p) + "\n"@)
            },
            None => r matches Ok(c) && c.persist is None && opt_view(c.pin) == match nonempty_trim(opt_view(persisted)) {
                Some(p) => Some(p),
                None => nonempty_trim(opt_view(env_value)),
            },
        },
{
    match cli_pin {
        Some(p) => {
            let pin = trim_str(p.as_str());
            if pin.as_str().is_empty() {
                return Err(String::from_str("Receive PIN must not be empty"));
            }
            let content = concat2(pin.as_str(), "\n");
            Ok(PinChoice { pin: Some(pin), persist: Some(content) })
        },
        None => {
            let pin = match load_persisted(&persisted) {
                Some(p) => Some(p),
                None => nonempty_trim_exec(&env_value),
            };
            Ok(PinChoice { pin, persist: None })
        },
    }
}

/// A PIN given on the command line is the one read back from what is remembered.
pub proof fn law_remembered_pin_reads_back(p: Seq<char>)
    requires
        trim(p).len() > 0,
    ensures
        nonempty_trim(Some(trim(p) + "\n"@)) == Some(trim(p)),
{
    lemma_trim_idempotent(p);
    assert("\n"@ == seq!['\n']) by {
        reveal_strlit("\n");
    }
    lemma_trim_newline(trim(p));
}

} // verus!
