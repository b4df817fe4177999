//! The settings of the program, and what they are where nothing sets them.

use vstd::prelude::*;
use vstd::string::StringExecFns;

verus! {

/// The settings of the HTTP server.
#[derive(Clone, Debug)]
pub struct ApiSettings {
    /// The address to listen on.
    pub host: String,
    /// The port to listen on.
    pub port: u16,
    /// Whether requests from other origins are answered.
    pub cors_enabled: bool,
}

/// The settings of the storage engine.
#[derive(Clone, Copy, Debug, PartialEq, Eq, Structural)]
pub struct StorageSettings {
    /// Whether writes are refused as such.
    pub read_only: bool,
    /// Whether writes are wanted.
    pub enable_write: bool,
    /// Whether the engine may work in parallel.
    pub parallel: bool,
}

/// The settings of the log.
#[derive(Clone, Debug)]
pub struct LoggingSettings {
    /// The lowest level that is logged.
    pub level: String,
}

/// All settings.
#[derive(Clone, Debug)]
pub struct Settings {
    /// The directory that holds the tables.
    pub data_dir: String,
    /// The settings of the HTTP server.
    pub api: ApiSettings,
    /// The settings of the storage engine.
    pub storage: StorageSettings,
    /// The settings of the log.
    pub logging: LoggingSettings,
}

/// Whether the engine may work in parallel where nothing says.
pub fn default_parallel() -> (parallel: bool)
    ensures
        parallel,
{
    true
}

impl Default for Settings {
    /// The settings where nothing sets them: the directory `./data`, the
    /// server on 127.0.0.1:8080 with CORS, writes wanted and not refused,
    /// parallel work, and the log at level `info`.
    fn default() -> (settings: Settings)
        ensures
            settings.data_dir@ == "./data"@,
            settings.api.host@ == "127.0.0.1"@,
            settings.api.port == 8080,
            settings.api.cors_enabled,
            settings.storage == (StorageSettings {
                read_only: false,
                enable_write: true,
                parallel: true,
            }),
            settings.logging.level@ == "info"@,
    {
        Settings {
            data_dir: String::from_str("./data"),
            api: ApiSettings { host: String::from_str("127.0.0.1"), port: 8080, cors_enabled: true },
            storage: StorageSettings {
                read_only: false,
                enable_write: true,
                parallel: default_parallel(),
            },
            logging: LoggingSettings { level: String::from_str("info") },
        }
    }
}

/// What the environment sets, each where it does.
#[derive(Clone, Debug)]
pub struct Overrides {
    /// The directory that holds the tables.
    pub data_dir: Option<String>,
    /// The address to listen on.
    pub host: Option<String>,
    /// The port to listen on.
    pub port: Option<u16>,
    /// Whether writes are refused as such.
    pub read_only: Option<bool>,
}

impl Settings {
    /// The settings with what the environment sets in the place of what
    /// the file or the defaults gave.
    pub fn with_overrides(self, overrides: Overrides) -> (settings: Settings)
        ensures
            settings.data_dir == match overrides.data_dir {
                Some(dir) => dir,
                None => self.data_dir,
            },
            settings.api.host == match overrides.host {
                Some(host) => host,
                None => self.api.host,
            },
            settings.api.port == match overrides.port {
                Some(port) => port,
                None => self.api.port,
            },
            settings.api.cors_enabled == self.api.cors_enabled,
            settings.storage == (StorageSettings {
                read_only: match overrides.read_only {
                    Some(read_only) => read_only,
                    None => self.storage.read_only,
                },
                ..self.storage
            }),
            settings.logging == self.logging,
    {
        let mut settings = self;
        if let Some(dir) = overrides.data_dir {
            settings.data_dir = dir;
        }
        if let Some(host) = overrides.host {
            settings.api.host = host;
        }
        if let Some(port) = overrides.port {
            settings.api.port = port;
        }
        if let Some(read_only) = overrides.read_only {
            settings.storage.read_only = read_only;
        }
        settings
    }
}

} // verus!
