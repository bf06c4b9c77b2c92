//! What the service is configured with before it accepts connections.

use vstd::prelude::*;

verus! {

/// The settings that every connection shares. They are fixed before the
/// listener starts and only read afterwards.
#[derive(Debug, PartialEq, Eq)]
pub struct Config {
    /// The root directory of all uploads, absolute and canonical.
    pub directory_path: String,
    /// The address to listen on, as `host:port`.
    pub addr: String,
    /// The time a connection is given, in seconds; at least one.
    pub timeout: u64,
}

impl Config {
    /// The timeout leaves a connection some time at all.
    pub open spec fn well_formed(&self) -> bool {
        self.timeout >= 1
    }
}

impl Default for Config {
    /// Listens on `127.0.0.1:25565`, stores under `server_directory`, and
    /// gives a connection thirty seconds.
    fn default() -> (config: Config)
        ensures
            config.directory_path@ == "server_directory"@,
            config.addr@ == "127.0.0.1:25565"@,
            config.timeout == 30,
            config.well_formed(),
    {
        Config {
            directory_path: "server_directory".to_owned(),
            addr: "127.0.0.1:25565".to_owned(),
            timeout: 30,
        }
    }
}

} // verus!
