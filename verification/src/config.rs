//! Runtime configuration: where the configuration file and the data
//! directory live, the platform token, the poll interval, and the optional
//! user-agent string sent with fetches.  Reading arguments, environment and
//! the file itself happens at the edge; this is the value the rest of the
//! system is handed.

use vstd::prelude::*;

verus! {

/// The configuration the system runs with.  Paths are carried as plain
/// strings.
#[derive(Clone, Debug, PartialEq, Eq)]
pub struct Config {
    pub config_file: String,
    pub data_dir: String,
    pub discord_token: String,
    /// Seconds between poll cycles.
    pub interval: u64,
    pub user_agent: Option<String>,
}

impl Config {
    /// The configuration used when no configuration file exists yet: the
    /// given locations and token, a ten-minute poll interval, and no
    /// user-agent override.
    pub fn with_defaults(config_file: String, data_dir: String, discord_token: String) -> (c:
        Config)
        ensures
            c.config_file == config_file,
            c.data_dir == data_dir,
            c.discord_token == discord_token,
            c.interval == 600,
            c.user_agent is None,
    {
        Config { config_file, data_dir, discord_token, interval: 600, user_agent: None }
    }
}

} // verus!
