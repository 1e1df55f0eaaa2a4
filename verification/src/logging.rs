//! Logging configuration as plain values. Wiring a subscriber to these
//! settings is process setup and happens outside this crate.

use vstd::prelude::*;

verus! {

/// The verbosity threshold, from most to least chatty.
#[derive(Debug, Clone, Copy, PartialEq, Eq, Structural)]
pub enum LogLevel {
    Trace,
    Debug,
    Info,
    Warn,
    Error,
}

/// Where and how the process logs.
#[derive(Debug, Clone)]
pub struct LoggingConfig {
    pub log_level: LogLevel,
    pub log_file_path: String,
    pub json_logging: bool,
    pub console_logging: bool,
}

impl Default for LoggingConfig {
    /// Info-level JSON and console logging into `logs/runes-sdk.log`.
    fn default() -> (c: Self)
        ensures
            c.log_level == LogLevel::Info,
            c.log_file_path@ == "logs/runes-sdk.log"@,
            c.json_logging,
            c.console_logging,
    {
        LoggingConfig {
            log_level: LogLevel::Info,
            log_file_path: "logs/runes-sdk.log".to_owned(),
            json_logging: true,
            console_logging: true,
        }
    }
}

} // verus!
