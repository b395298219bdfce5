use vstd::prelude::*;

pub mod agent;
pub mod alias;
pub mod alias_laws;
pub mod cli;
pub mod config;
pub mod discovery;
pub mod error;
pub mod events;
pub mod identity;
pub mod ids;
pub mod json;
pub mod legacy;
pub mod locale_laws;
pub mod network;
pub mod output;
pub mod prepare;
pub mod receive_path;
pub mod receive_pin;
pub mod scan_server;
pub mod send;
pub mod server;
pub mod text;
pub mod text_send;
pub mod transfer;
pub mod util;

verus! {
} // verus!
