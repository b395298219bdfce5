//! Protocol constants and the receiver's configuration.
use vstd::prelude::*;

verus! {

broadcast use vstd::string::group_string_axioms;

/// The LocalSend protocol version this device speaks.
pub const PROTOCOL_VERSION: &'static str = "2.1";
/// The port used for both HTTP(S) and multicast discovery.
pub const DEFAULT_PORT: u16 = 53317;
/// The multicast group on which devices announce themselves.
pub const DEFAULT_MULTICAST_GROUP: &'static str = "224.0.0.167";
/// How long a scan listens for answers, in milliseconds.
pub const DEFAULT_DISCOVERY_TIMEOUT_MS: u64 = 1500;

/// Where the configuration lives, relative to the system's configuration root.
pub const CONFIG_DIR_NAME: &'static str = "lsend";

/// The settings a receiver or sender runs with.
#[derive(Debug, Clone)]
pub struct AppConfig {
    pub alias: String,
    pub port: u16,
    pub https: bool,
    pub multicast_group: String,
    pub config_dir: String,
    pub receive_dir: String,
}

impl AppConfig {
    /// The default port, as an associated constant.
    pub const DEFAULT_PORT: u16 = 53317;
    /// The default scan time, as an associated constant.
    pub const DEFAULT_DISCOVERY_TIMEOUT_MS: u64 = 1500;

    /// Assembles a configuration. The receive directory is the one asked for,
    /// else the system's download directory, else the current directory.
    pub fn new(
        alias: String,
        port: u16,
        https: bool,
        config_dir: String,
        receive_dir: Option<String>,
        download_dir: Option<String>,
    ) -> (r: AppConfig)
        ensures
            r.alias@ == alias@,
            r.port == port,
            r.https == https,
            r.multicast_group@ == DEFAULT_MULTICAST_GROUP@,
            r.config_dir@ == config_dir@,
            r.receive_dir@ == match receive_dir {
                Some(d) => d@,
                None => match download_dir {
                    Some(d) => d@,
                    None => "."@,
                },
            },
    {
        let receive_dir = match receive_dir {
            Some(d) => d,
            None => match download_dir {
                Some(d) => d,
                None => String::from_str("."),
            },
        };
        AppConfig {
            alias,
            port,
            https,
            multicast_group: String::from_str(DEFAULT_MULTICAST_GROUP),
            config_dir,
            receive_dir,
        }
    }
}

} // verus!
