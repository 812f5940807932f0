//! What the process is started with: a listen port and the session credential.

use crate::text::{parse_port, port_of};
use vstd::prelude::*;

verus! {

/// The port that the service listens on when none is given.
pub const DEFAULT_PORT: u16 = 3030;

/// The settings of a running process. They are resolved once, at startup.
#[derive(Clone, Debug, PartialEq, Eq)]
pub struct Config {
    /// The port to listen on, on all interfaces.
    pub port: u16,
    /// The opaque credential of the downstream client's session.
    pub credential: String,
}

/// Why the process cannot start.
#[derive(Clone, Copy, Debug, PartialEq, Eq, Structural)]
pub enum ConfigError {
    /// No session credential was given.
    MissingCredential,
}

/// The characters of an optional borrowed text.
pub open spec fn setting_view(text: Option<&str>) -> Option<Seq<char>> {
    match text {
        Some(t) => Some(t@),
        None => None,
    }
}

/// The port that a setting stands for: what it spells, or the default where
/// it is missing or spells no port.
pub open spec fn port_setting(text: Option<Seq<char>>) -> u16 {
    match text {
        Some(t) => match port_of(t) {
            Some(port) => port,
            None => DEFAULT_PORT,
        },
        None => DEFAULT_PORT,
    }
}

impl Config {
    /// Resolves the settings from what the environment gave. Without a
    /// credential there are none; a missing or unreadable port is the default.
    pub fn resolve(port: Option<&str>, credential: Option<String>) -> (resolved: Result<
        Config,
        ConfigError,
    >)
        ensures
            match credential {
                Some(given) => resolved matches Ok(config) && config.credential@ == given@
                    && config.port == port_setting(setting_view(port)),
                None => resolved == Err::<Config, ConfigError>(ConfigError::MissingCredential),
            },
    {
        let credential: String = match credential {
            Some(given) => given,
            None => {
                return Err(ConfigError::MissingCredential);
            },
        };
        let port: u16 = match port {
            Some(text) => match parse_port(text) {
                Some(port) => port,
                None => DEFAULT_PORT,
            },
            None => DEFAULT_PORT,
        };
        Ok(Config { port, credential })
    }
}

} // verus!
