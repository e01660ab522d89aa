//! A store middleware that logs the actions, states and events to the web
//! browser's console.

use vstd::prelude::*;

verus! {

/// The console level at which the middleware logs.
#[derive(Debug, Clone, Copy, PartialEq, Eq, Structural)]
pub enum LogLevel {
    Trace,
    Debug,
    Warn,
    Info,
    Log,
}

impl Default for LogLevel {
    fn default() -> (l: LogLevel)
        ensures
            l == LogLevel::Log,
    {
        LogLevel::Log
    }
}

/// Logs the actions, the states before and after them, and the events
/// they cause, to the console.
#[derive(Debug)]
pub struct WebLoggerMiddleware {
    log_level: LogLevel,
}

impl WebLoggerMiddleware {
    /// The level at which the middleware logs.
    pub closed spec fn level(&self) -> LogLevel {
        self.log_level
    }

    /// A middleware that logs at the default level (log).
    pub fn new() -> (m: Self)
        ensures
            m.level() == LogLevel::Log,
    {
        WebLoggerMiddleware { log_level: LogLevel::default() }
    }

    /// This middleware, logging at `log_level`.
    pub fn log_level(self, log_level: LogLevel) -> (m: Self)
        ensures
            m.level() == log_level,
    {
        WebLoggerMiddleware { log_level }
    }

    /// The level at which the middleware logs.
    pub fn get_log_level(&self) -> (l: LogLevel)
        ensures
            l == self.level(),
    {
        self.log_level
    }
}

} // verus!
