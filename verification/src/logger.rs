//! Encapsulates which diagnostics should be surfaced: the engine computes
//! what would be logged; emitting the text is the host application's
//! business.
use vstd::prelude::*;

verus! {

/// Diagnostic severities, coarsest first.
#[derive(PartialEq, Eq, Structural, Clone, Copy, Debug)]
pub enum LogLevel {
    Off,
    Error,
    Warn,
    Info,
    Debug,
    Trace,
}

/// How much detail a level admits: higher means chattier.
pub open spec fn level_rank(level: LogLevel) -> int {
    match level {
        LogLevel::Off => 0,
        LogLevel::Error => 1,
        LogLevel::Warn => 2,
        LogLevel::Info => 3,
        LogLevel::Debug => 4,
        LogLevel::Trace => 5,
    }
}

/// Decides which diagnostics of the state machine are worth surfacing.
#[derive(Clone, Copy, Debug)]
pub struct HSMLogger {
    log_level_allowed: LogLevel,
}

impl HSMLogger {
    /// The level this logger lets through.
    pub closed spec fn allowed_spec(self) -> LogLevel {
        self.log_level_allowed
    }

    /// `level_allowed` is the chattiest level that will actually be let
    /// through.
    pub fn new(level_allowed: LogLevel) -> (r: Self)
        ensures
            r.allowed_spec() == level_allowed,
    {
        HSMLogger { log_level_allowed: level_allowed }
    }

    /// Should a message at this level be surfaced? True exactly when the
    /// requested level is no chattier than the allowed one.
    pub fn allows(&self, log_requested: &LogLevel) -> (r: bool)
        ensures
            r == (level_rank(*log_requested) <= level_rank(self.allowed_spec())),
    {
        let requested = Self::rank(log_requested);
        let allowed = Self::rank(&self.log_level_allowed);
        requested <= allowed
    }

    /// The numeric rank of a level.
    fn rank(level: &LogLevel) -> (r: u8)
        ensures
            r as int == level_rank(*level),
    {
        match level {
            LogLevel::Off => 0,
            LogLevel::Error => 1,
            LogLevel::Warn => 2,
            LogLevel::Info => 3,
            LogLevel::Debug => 4,
            LogLevel::Trace => 5,
        }
    }
}

} // verus!
