//! Start-up configuration: the bind address and the store directory, taken
//! from the environment and overridden by command-line flags.

use vstd::prelude::*;

verus! {

/// Largest request body that is accepted, in bytes: 10 MiB.
pub const MAX_PAYLOAD_BYTES: usize = 10 * 1024 * 1024;

/// The two values that are fixed at start-up.
#[derive(Debug, Clone, PartialEq, Eq)]
pub struct Configuration {
    /// Where to listen, as `host:port`.
    pub bind_address: String,
    /// The directory of the manifest store.
    pub store_dir: String,
}

/// A configuration over plain text.
pub struct ConfigurationView {
    pub bind_address: Seq<char>,
    pub store_dir: Seq<char>,
}

impl View for Configuration {
    type V = ConfigurationView;

    open spec fn view(&self) -> ConfigurationView {
        ConfigurationView { bind_address: self.bind_address@, store_dir: self.store_dir@ }
    }
}

/// A required variable is missing from the environment.
#[derive(Debug, Clone, Copy, PartialEq, Eq)]
pub enum ConfigError {
    /// `C2PA_HOST_PORT` is not set.
    MissingHostPort,
    /// `C2PA_DIR` is not set.
    MissingStoreDir,
}

/// View of a variable or flag that may be absent.
pub open spec fn text_view(value: Option<String>) -> Option<Seq<char>> {
    match value {
        Some(text) => Some(text@),
        None => None,
    }
}

/// View of a configuration that may have failed.
pub open spec fn config_view(r: Result<Configuration, ConfigError>) -> Result<
    ConfigurationView,
    ConfigError,
> {
    match r {
        Ok(config) => Ok(config@),
        Err(e) => Err(e),
    }
}

/// The configuration that the environment gives: both variables are
/// required, and the bind address is asked for first.
pub open spec fn environment_config(
    host_port: Option<Seq<char>>,
    store_dir: Option<Seq<char>>,
) -> Result<ConfigurationView, ConfigError> {
    match host_port {
        None => Err(ConfigError::MissingHostPort),
        Some(bind_address) => match store_dir {
            None => Err(ConfigError::MissingStoreDir),
            Some(store_dir) => Ok(ConfigurationView { bind_address, store_dir }),
        },
    }
}

/// A value after its flag: the flag's where the flag is present, the value
/// as it was otherwise.
pub open spec fn overridden(value: Seq<char>, flag: Option<Seq<char>>) -> Seq<char> {
    match flag {
        Some(text) => text,
        None => value,
    }
}

/// The text that reports a missing variable.
pub open spec fn error_text(e: ConfigError) -> Seq<char> {
    match e {
        ConfigError::MissingHostPort => ".env variable C2PA_HOST_PORT not set"@,
        ConfigError::MissingStoreDir => ".env variable C2PA_DIR not set"@,
    }
}

/// Reads the configuration from the values of `C2PA_HOST_PORT` and
/// `C2PA_DIR`. It fails exactly when one of them is missing, and names the
/// bind address where both are.
pub fn from_environment(host_port: Option<String>, store_dir: Option<String>) -> (r: Result<
    Configuration,
    ConfigError,
>)
    ensures
        config_view(r) == environment_config(text_view(host_port), text_view(store_dir)),
        r is Ok <==> host_port is Some && store_dir is Some,
{
    match host_port {
        None => Err(ConfigError::MissingHostPort),
        Some(bind_address) => match store_dir {
            None => Err(ConfigError::MissingStoreDir),
            Some(store_dir) => Ok(Configuration { bind_address, store_dir }),
        },
    }
}

impl Configuration {
    /// Applies the command-line flags: `endpoint` replaces the bind address
    /// and `store` the store directory, each only where it is present.
    pub fn with_overrides(self, endpoint: Option<String>, store: Option<String>) -> (config:
        Configuration)
        ensures
            config@.bind_address == overridden(self@.bind_address, text_view(endpoint)),
            config@.store_dir == overridden(self@.store_dir, text_view(store)),
    {
        let bind_address = match endpoint {
            Some(text) => text,
            None => self.bind_address,
        };
        let store_dir = match store {
            Some(text) => text,
            None => self.store_dir,
        };
        Configuration { bind_address, store_dir }
    }
}

impl ConfigError {
    /// The text that reports this error.
    pub fn message(&self) -> (text: String)
        ensures
            text@ == error_text(*self),
    {
        match self {
            ConfigError::MissingHostPort => ".env variable C2PA_HOST_PORT not set".to_owned(),
            ConfigError::MissingStoreDir => ".env variable C2PA_DIR not set".to_owned(),
        }
    }
}

} // verus!
