//! Application configuration (UI preferences, defaults). Contains **no secrets**.

use vstd::prelude::*;
use vstd::string::*;
use vstd::utf8::*;

use crate::error::{read_or_default, CoreError, ReadOutcome};
use crate::platform;
use crate::platform::{config_dir, join};

verus! {

/// Colour theme.
#[derive(Debug, Clone, Copy, PartialEq, Eq, Structural)]
pub enum ThemeMode {
    System,
    Light,
    Dark,
}

impl Default for ThemeMode {
    fn default() -> (r: Self)
        ensures
            r == ThemeMode::System,
    {
        ThemeMode::System
    }
}

/// Top-level user configuration.
#[derive(Debug, PartialEq, Eq)]
pub struct AppConfig {
    pub theme: ThemeMode,
    /// Default SSH port suggested in the UI.
    pub default_ssh_port: u16,
    /// `tracing` filter applied if `RUST_LOG` is not set.
    pub log_filter: String,
    /// Confirm before sending flagged commands in multi-exec mode.
    pub confirm_dangerous_commands: bool,
}

impl Clone for AppConfig {
    fn clone(&self) -> (r: Self)
        ensures
            r == *self,
    {
        AppConfig {
            theme: self.theme,
            default_ssh_port: self.default_ssh_port,
            log_filter: self.log_filter.clone(),
            confirm_dangerous_commands: self.confirm_dangerous_commands,
        }
    }
}

/// Whether a configuration is the default one.
pub open spec fn is_default(config: AppConfig) -> bool {
    &&& config.theme == ThemeMode::System
    &&& config.default_ssh_port == 22
    &&& config.log_filter@ == "info"@
    &&& config.confirm_dangerous_commands
}

impl Default for AppConfig {
    fn default() -> (r: Self)
        ensures
            is_default(r),
    {
        AppConfig {
            theme: ThemeMode::System,
            default_ssh_port: 22,
            log_filter: "info".to_string(),
            confirm_dangerous_commands: true,
        }
    }
}

impl AppConfig {
    /// Standard config file path: `<config_dir>/config.toml`.
    pub fn default_path(base: Option<Vec<u8>>) -> (r: Vec<u8>)
        ensures
            r@ == platform::joined(platform::app_dir(base), encode_utf8("config.toml"@)),
    {
        join(&config_dir(base), "config.toml")
    }

    /// The configuration that a file holds, or [`AppConfig::default`] if it is
    /// absent.
    pub fn load_or_default(outcome: ReadOutcome<AppConfig>) -> (r: Result<AppConfig, CoreError>)
        ensures
            match outcome {
                ReadOutcome::Parsed(config) => r == Ok::<AppConfig, CoreError>(config),
                ReadOutcome::Malformed(why) => r == Err::<AppConfig, CoreError>(
                    CoreError::Serde(why),
                ),
                ReadOutcome::Missing => r matches Ok(config) && is_default(config),
                ReadOutcome::Failed(why) => r == Err::<AppConfig, CoreError>(CoreError::Io(why)),
            },
    {
        read_or_default(outcome, AppConfig::default())
    }
}

/// The default configuration follows the system's theme, suggests port 22, logs
/// at `info` and has dangerous commands confirmed.
pub proof fn law_default_configuration(config: AppConfig)
    requires
        is_default(config),
    ensures
        config.theme == ThemeMode::System,
        config.default_ssh_port == 22,
        config.log_filter@ == "info"@,
        config.confirm_dangerous_commands,
{
}

} // verus!
