//! Application configuration as plain values.
//!
//! The configuration file itself is read and parsed outside the library;
//! the library only holds the resulting values.

use vstd::prelude::*;

verus! {

/// Settings for the messaging-platform integration.
pub struct TelegramConfig {
    pub enabled: bool,
}

/// The whole application configuration.
pub struct Config {
    pub telegram: TelegramConfig,
}

impl Config {
    /// Builds a configuration from its only recognized setting.
    pub fn new(enabled: bool) -> (r: Config)
        ensures
            r.telegram.enabled == enabled,
    {
        Config { telegram: TelegramConfig { enabled } }
    }
}

} // verus!
