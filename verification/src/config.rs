//! The settings of the program and the addresses built from them.

use vstd::prelude::*;
use vstd::string::StringExecFns;
use crate::text::{decimal, decimal_text};

verus! {

/// Builds the address of a resource from its settings.
pub trait BuildUrl {
    /// The address as a mathematical value.
    spec fn url(&self) -> Seq<char>;

    /// The address.
    fn build_url(&self) -> (url: String)
        ensures
            url@ == self.url(),
    ;
}

/// Where the store lives.
#[derive(Debug)]
pub struct DatabaseSettings {
    /// The path of the database file, without its extension.
    pub database: String,
}

impl BuildUrl for DatabaseSettings {
    /// `sqlite://`, the database, then `.sqlite?mode=rwc`: the file is opened
    /// for reading and writing, and created if it is missing.
    open spec fn url(&self) -> Seq<char> {
        "sqlite://"@ + self.database@ + ".sqlite?mode=rwc"@
    }

    fn build_url(&self) -> (url: String) {
        let mut url = String::from_str("sqlite://");
        url.append(self.database.as_str());
        url.append(".sqlite?mode=rwc");
        url
    }
}

/// Where pipeline manifests are looked for.
#[derive(Debug)]
pub struct PipelineSettings {
    pub dirs: Vec<String>,
}

/// Where the web server listens.
#[derive(Debug)]
pub struct ServerSettings {
    pub scheme: String,
    pub host: String,
    pub port: u32,
}

impl BuildUrl for ServerSettings {
    /// The scheme, `://`, the host, a colon, and the port in decimal.
    open spec fn url(&self) -> Seq<char> {
        self.scheme@ + "://"@ + self.host@ + ":"@ + decimal(self.port as nat)
    }

    fn build_url(&self) -> (url: String) {
        let mut url = self.scheme.clone();
        url.append("://");
        url.append(self.host.as_str());
        url.append(":");
        let port = decimal_text(self.port as u64);
        url.append(port.as_str());
        url
    }
}

/// All settings of the program.
#[derive(Debug)]
pub struct Settings {
    pub server: ServerSettings,
    pub pipelines: PipelineSettings,
    pub database: DatabaseSettings,
}

/// The values found for the settings in the configuration sources, each
/// absent where the sources hold none.
#[derive(Debug)]
pub struct RawSettings {
    pub server_scheme: Option<String>,
    pub server_host: Option<String>,
    pub server_port: Option<i64>,
    pub pipelines_dirs: Option<Vec<String>>,
    pub database: Option<String>,
}

/// A setting, by its place in the configuration.
#[derive(Debug, Clone, Copy, PartialEq, Eq, Structural)]
pub enum Setting {
    ServerScheme,
    ServerHost,
    ServerPort,
    PipelinesDirs,
    Database,
}

/// Why the settings could not be put together.
#[derive(Debug, Clone, Copy, PartialEq, Eq, Structural)]
pub enum ConfigError {
    /// The sources hold no value for a setting.
    Missing(Setting),
    /// The port is not a number from 0 to 4294967295.
    PortOutOfRange(i64),
}

/// The first fault of the raw settings, taken in the order server scheme,
/// server host, server port, pipeline directories, database.
pub open spec fn fault(raw: RawSettings) -> Option<ConfigError> {
    if raw.server_scheme is None {
        Some(ConfigError::Missing(Setting::ServerScheme))
    } else if raw.server_host is None {
        Some(ConfigError::Missing(Setting::ServerHost))
    } else if raw.server_port is None {
        Some(ConfigError::Missing(Setting::ServerPort))
    } else if !(0 <= raw.server_port->0 <= u32::MAX) {
        Some(ConfigError::PortOutOfRange(raw.server_port->0))
    } else if raw.pipelines_dirs is None {
        Some(ConfigError::Missing(Setting::PipelinesDirs))
    } else if raw.database is None {
        Some(ConfigError::Missing(Setting::Database))
    } else {
        None
    }
}

/// Puts the settings together from the values that the configuration sources
/// gave: every setting must be there, and the port must be a port.
pub fn load_config(raw: RawSettings) -> (loaded: Result<Settings, ConfigError>)
    ensures
        match loaded {
            Ok(settings) => {
                &&& fault(raw) is None
                &&& Some(settings.server.scheme) == raw.server_scheme
                &&& Some(settings.server.host) == raw.server_host
                &&& Some(settings.server.port as i64) == raw.server_port
                &&& Some(settings.pipelines.dirs) == raw.pipelines_dirs
                &&& Some(settings.database.database) == raw.database
            },
            Err(error) => fault(raw) == Some(error),
        },
{
    let scheme = match raw.server_scheme {
        Some(scheme) => scheme,
        None => { return Err(ConfigError::Missing(Setting::ServerScheme)); },
    };
    let host = match raw.server_host {
        Some(host) => host,
        None => { return Err(ConfigError::Missing(Setting::ServerHost)); },
    };
    let port = match raw.server_port {
        Some(port) => port,
        None => { return Err(ConfigError::Missing(Setting::ServerPort)); },
    };
    if port < 0 || port > 4294967295 {
        return Err(ConfigError::PortOutOfRange(port));
    }
    let dirs = match raw.pipelines_dirs {
        Some(dirs) => dirs,
        None => { return Err(ConfigError::Missing(Setting::PipelinesDirs)); },
    };
    let database = match raw.database {
        Some(database) => database,
        None => { return Err(ConfigError::Missing(Setting::Database)); },
    };
    Ok(
        Settings {
            server: ServerSettings { scheme, host, port: port as u32 },
            pipelines: PipelineSettings { dirs },
            database: DatabaseSettings { database },
        },
    )
}

} // verus!
