//! The configuration the event listener runs with.

use vstd::prelude::*;
use crate::events::{WindowEventHandler, WorkspaceEventHandler};
use crate::Error;

verus! {

/// How much to log in syslog mode.
#[derive(Clone, Copy, PartialEq, Eq, Structural, Debug)]
pub enum LogLevel {
    Critical,
    Error,
    Warning,
    Info,
    Debug,
    Trace,
}

impl Default for LogLevel {
    /// The default level.
    fn default() -> (r: Self)
        ensures
            r == LogLevel::Info,
    {
        LogLevel::Info
    }
}

/// The whole configuration: the log level and the event handlers.
pub struct Config {
    /// Max log level for syslog mode.
    pub log_level: LogLevel,
    /// Window events handlers.
    pub window_event_handlers: Vec<WindowEventHandler>,
    /// Workspace events handlers.
    pub workspace_event_handlers: Vec<WorkspaceEventHandler>,
}

impl Config {
    /// Check a loaded configuration.  Every parseable configuration is
    /// acceptable.
    pub fn validate(&self) -> (r: Result<(), Error>)
        ensures
            r is Ok,
    {
        Ok(())
    }
}

} // verus!
