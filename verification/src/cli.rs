//! The command line: global flags and subcommands.
use vstd::prelude::*;

use crate::agent::AgentCommand;

verus! {

/// What `alias` does.
#[derive(Debug, Clone, PartialEq, Eq)]
pub enum AliasAction {
    /// Show the alias, generating one if needed.
    Show,
    /// Replace the alias by a random one, optionally in a given locale.
    Regenerate { locale: Option<String> },
    /// Set the alias.
    SetAlias { name: String },
}

/// The `alias` subcommand's options.
#[derive(Debug, Clone, PartialEq, Eq)]
pub struct AliasOpts {
    pub action: Option<AliasAction>,
}

/// The subcommands.
#[derive(Debug, Clone, PartialEq, Eq)]
pub enum Commands {
    /// Discover devices on the local network.
    Scan { timeout: u64 },
    /// Send files or a text to a device (address or alias).
    Send {
        target: String,
        paths: Vec<String>,
        text: bool,
        message: Option<String>,
        clipboard: bool,
        pin: Option<String>,
        no_scan: bool,
    },
    /// Receive files.
    Receive { dir: Option<String>, once: bool, pin: Option<String> },
    /// Show or change this device's alias.
    Alias(AliasOpts),
    /// Print the guide for automated callers.
    Agent { topic: Option<AgentCommand> },
}

/// The parsed command line.
#[derive(Debug, Clone, PartialEq, Eq)]
pub struct Cli {
    pub command: Commands,
    pub http: bool,
    pub port: u16,
    pub alias: Option<String>,
    pub verbose: bool,
    pub json: bool,
    pub quiet: bool,
}

impl AliasOpts {
    /// The action to run: showing when none is given.
    pub fn action_or_show(self) -> (r: AliasAction)
        ensures
            r == match self.action {
                Some(a) => a,
                None => AliasAction::Show,
            },
    {
        match self.action {
            Some(a) => a,
            None => AliasAction::Show,
        }
    }
}

} // verus!
