//! The configuration of the server, read once at start-up from the values
//! that the environment gives, and handed on from there.

use crate::auth::{configured_hours, expiry_hours};
use crate::models::opt_text;
use crate::text::{parse_unsigned, unsigned_value};
use vstd::prelude::*;
use vstd::string::*;

verus! {

/// The port the server listens on when none is configured.
pub const DEFAULT_PORT: u16 = 8000u16;

/// The largest number of connections to the storage that are open at one
/// time.
pub const MAX_CONNECTIONS: u32 = 5u32;

/// The values found in the environment, each as written there.
#[derive(Debug)]
pub struct Settings {
    pub database_url: Option<String>,
    pub upload_dir: Option<String>,
    pub host: Option<String>,
    pub port: Option<String>,
    pub jwt_secret: Option<String>,
    pub jwt_expiry_hours: Option<String>,
}

/// The configuration of the server.
#[derive(Debug, PartialEq, Eq)]
pub struct Config {
    pub database_url: String,
    pub upload_dir: String,
    pub host: String,
    pub port: u16,
    pub jwt_secret: Option<String>,
    pub jwt_expiry_hours: u64,
}

/// Why the server cannot start.
#[derive(Debug, Clone, Copy, PartialEq, Eq, Structural)]
pub enum ConfigError {
    /// No address of the storage is configured.
    MissingDatabaseUrl,
    /// The configured port is no number from 0 to 65535.
    InvalidPort,
}

impl ConfigError {
    /// The message with which the server refuses to start.
    pub fn message(&self) -> (message: &'static str)
        ensures
            message@ == match self {
                ConfigError::MissingDatabaseUrl => "DATABASE_URL must be set"@,
                ConfigError::InvalidPort => "PORT must be a valid number"@,
            },
    {
        match self {
            ConfigError::MissingDatabaseUrl => "DATABASE_URL must be set",
            ConfigError::InvalidPort => "PORT must be a valid number",
        }
    }
}

/// The port that a configured text stands for: 8000 if nothing is
/// configured, and no port if the text is no number from 0 to 65535.
pub open spec fn configured_port(port: Option<Seq<char>>) -> Option<int> {
    match port {
        None => Some(DEFAULT_PORT as int),
        Some(text) => unsigned_value(text, u16::MAX as int),
    }
}

/// A configured text, or the default where nothing is configured.
pub open spec fn text_or(configured: Option<Seq<char>>, default: Seq<char>) -> Seq<char> {
    match configured {
        Some(text) => text,
        None => default,
    }
}

fn or_default(configured: Option<String>, default: &str) -> (text: String)
    ensures
        text@ == text_or(opt_text(configured), default@),
{
    match configured {
        Some(text) => text,
        None => default.to_owned(),
    }
}

impl Config {
    /// Reads the configuration from the values of the environment.
    ///
    /// The address of the storage must be there. Uploads go to
    /// `./uploads`, the host is `0.0.0.0`, the port is 8000 and tokens are
    /// valid for 24 hours, unless configured otherwise; a port that is no
    /// number is an error, a number of hours that is none counts as not
    /// configured.
    pub fn load(settings: Settings) -> (r: Result<Config, ConfigError>)
        ensures
            r is Ok <==> settings.database_url is Some && configured_port(opt_text(settings.port)) is Some,
            r matches Ok(config) ==> {
                &&& Some(config.database_url) == settings.database_url
                &&& config.upload_dir@ == text_or(opt_text(settings.upload_dir), "./uploads"@)
                &&& config.host@ == text_or(opt_text(settings.host), "0.0.0.0"@)
                &&& Some(config.port as int) == configured_port(opt_text(settings.port))
                &&& config.jwt_secret == settings.jwt_secret
                &&& config.jwt_expiry_hours == configured_hours(opt_text(settings.jwt_expiry_hours))
            },
            r matches Err(e) ==> e == if settings.database_url is None {
                ConfigError::MissingDatabaseUrl
            } else {
                ConfigError::InvalidPort
            },
    {
        let Settings { database_url, upload_dir, host, port, jwt_secret, jwt_expiry_hours } = settings;
        let database_url = match database_url {
            Some(url) => url,
            None => {
                return Err(ConfigError::MissingDatabaseUrl);
            },
        };
        let port: u16 = match &port {
            None => DEFAULT_PORT,
            Some(text) => match parse_unsigned(text.as_str(), 65535) {
                Some(number) => number as u16,
                None => {
                    return Err(ConfigError::InvalidPort);
                },
            },
        };
        let hours = match &jwt_expiry_hours {
            Some(text) => expiry_hours(Some(text.as_str())),
            None => expiry_hours(None),
        };
        Ok(
            Config {
                database_url,
                upload_dir: or_default(upload_dir, "./uploads"),
                host: or_default(host, "0.0.0.0"),
                port,
                jwt_secret,
                jwt_expiry_hours: hours,
            },
        )
    }
}

} // verus!
