//! A store middleware that logs the actions and states through the `log`
//! crate.

use vstd::prelude::*;

verus! {

/// The level at which the middleware logs.
#[derive(Debug, Clone, Copy, PartialEq, Eq, Structural)]
pub enum LogLevel {
    Trace,
    Debug,
    Warn,
    Info,
}

impl Default for LogLevel {
    fn default() -> (l: LogLevel)
        ensures
            l == LogLevel::Debug,
    {
        LogLevel::Debug
    }
}

/// Logs the actions, the states before and after them, and the events
/// they cause.
#[derive(Debug)]
pub struct SimpleLoggerMiddleware {
    log_level: LogLevel,
}

impl SimpleLoggerMiddleware {
    /// The level at which the middleware logs.
    pub closed spec fn level(&self) -> LogLevel {
        self.log_level
    }

    /// A middleware that logs at the default level (debug).
    pub fn new() -> (m: Self)
        ensures
            m.level() == LogLevel::Debug,
    {
        SimpleLoggerMiddleware { log_level: LogLevel::default() }
    }

    /// This middleware, logging at `log_level`.
    pub fn log_level(self, log_level: LogLevel) -> (m: Self)
        ensures
            m.level() == log_level,
    {
        SimpleLoggerMiddleware { log_level }
    }

    /// The level at which the middleware logs.
    pub fn get_log_level(&self) -> (l: LogLevel)
        ensures
            l == self.level(),
    {
        self.log_level
    }
}

} // verus!
