//! The settings of a scan.

use vstd::prelude::*;

verus! {

/// The settings of a scan: `request_timeout` is the time given to one probe,
/// in seconds.
#[derive(Clone, Copy, Debug, PartialEq, Eq, Structural)]
pub struct AppConfig {
    pub request_timeout: u64,
}

impl Default for AppConfig {
    /// One second for each probe.
    fn default() -> (config: AppConfig)
        ensures
            config == (AppConfig { request_timeout: 1 }),
    {
        AppConfig { request_timeout: 1 }
    }
}

/// Why the settings could not be had.
#[derive(Clone, Debug, PartialEq, Eq)]
pub enum ConfigError {
    Message(String),
}

/// The settings of a scan. There is no source of settings but the defaults,
/// so this never fails.
pub fn load_config() -> (loaded: Result<AppConfig, ConfigError>)
    ensures
        loaded == Ok::<AppConfig, ConfigError>(AppConfig { request_timeout: 1 }),
{
    Ok(AppConfig { request_timeout: 1 })
}

} // verus!
