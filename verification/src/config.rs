//! What the service is started with.

use crate::decimal::{decimal_value, is_numeral, parse_decimal};
use vstd::prelude::*;
use vstd::utf8::encode_utf8;

verus! {

/// The port that the service listens on unless it is told another one.
pub const DEFAULT_PORT: u16 = 8080;

/// Why the service cannot start with the settings it was given.
#[derive(Clone, Copy, Debug, PartialEq, Eq, Structural)]
pub enum ConfigError {
    /// No connection string for the store was given.
    MissingDatabaseUrl,
    /// The port is not a decimal number between 0 and 65535.
    InvalidPort,
}

/// The settings as they were found where the service was started, each of
/// them there or not.
#[derive(Clone, Debug, PartialEq, Eq)]
pub struct Settings {
    pub database_url: Option<String>,
    pub host: Option<String>,
    pub port: Option<String>,
    pub base_path: Option<String>,
}

/// The settings of one run of the service. They are made once, at start,
/// and handed to whatever opens the store and the listening socket.
#[derive(Clone, Debug, PartialEq, Eq)]
pub struct Config {
    /// The connection string of the relational store.
    pub database_url: String,
    /// The address that the listening socket is bound to.
    pub host: String,
    /// The port that the listening socket is bound to.
    pub port: u16,
    /// The path of the collection of users.
    pub base_path: String,
}

/// The port that `text` names: `text` must be a numeral, and the number it
/// writes must be a port number.
pub open spec fn port_of(text: Seq<char>) -> Option<u16> {
    let digits = encode_utf8(text);
    if is_numeral(digits) && decimal_value(digits) <= u16::MAX {
        Some(decimal_value(digits) as u16)
    } else {
        None
    }
}

/// The text of a setting, or `default` where the setting is not there.
pub open spec fn text_or(setting: Option<String>, default: Seq<char>) -> Seq<char> {
    match setting {
        Some(text) => text@,
        None => default,
    }
}

/// The text of a setting, or `default` where the setting is not there.
fn or_default(setting: Option<String>, default: &str) -> (r: String)
    ensures
        r@ == text_or(setting, default@),
{
    match setting {
        Some(text) => text,
        None => default.to_owned(),
    }
}

impl Config {
    /// Makes the settings of a run. The connection string must be there.
    /// Where nothing else is said the service listens on all addresses of
    /// the machine, on the default port, and keeps its users under `/users`.
    pub fn load(settings: Settings) -> (r: Result<Config, ConfigError>)
        ensures
            match r {
                Ok(config) => {
                    &&& settings.database_url matches Some(url) && config.database_url@ == url@
                    &&& config.host@ == text_or(settings.host, "0.0.0.0"@)
                    &&& config.base_path@ == text_or(settings.base_path, "/users"@)
                    &&& match settings.port {
                        Some(text) => port_of(text@) == Some(config.port),
                        None => config.port == DEFAULT_PORT,
                    }
                },
                Err(ConfigError::MissingDatabaseUrl) => settings.database_url is None,
                Err(ConfigError::InvalidPort) => {
                    &&& settings.database_url is Some
                    &&& settings.port matches Some(text) && port_of(text@) is None
                },
            },
    {
        let database_url = match settings.database_url {
            Some(url) => url,
            None => {
                return Err(ConfigError::MissingDatabaseUrl);
            },
        };
        let port = match settings.port {
            Some(text) => match parse_decimal(text.as_str().as_bytes()) {
                Some(n) => if n <= 65535 {
                    n as u16
                } else {
                    return Err(ConfigError::InvalidPort);
                },
                None => {
                    return Err(ConfigError::InvalidPort);
                },
            },
            None => DEFAULT_PORT,
        };
        Ok(
            Config {
                database_url,
                host: or_default(settings.host, "0.0.0.0"),
                port,
                base_path: or_default(settings.base_path, "/users"),
            },
        )
    }
}

} // verus!
