//! The decisions of the engine's logger: which records pass its level and how
//! a level is abbreviated.

use vstd::prelude::*;

verus! {

/// The severity of a log record, most severe first.
#[derive(Clone, Copy, Debug, PartialEq, Eq, Structural)]
pub enum Level {
    Error,
    Warn,
    Info,
    Debug,
    Trace,
}

/// The rank of a level: the more verbose, the higher.
pub open spec fn rank(level: Level) -> nat {
    match level {
        Level::Error => 1,
        Level::Warn => 2,
        Level::Info => 3,
        Level::Debug => 4,
        Level::Trace => 5,
    }
}

/// The one-letter name of a level.
pub open spec fn short_name(level: Level) -> Seq<char> {
    match level {
        Level::Error => "E"@,
        Level::Warn => "W"@,
        Level::Info => "I"@,
        Level::Debug => "D"@,
        Level::Trace => "T"@,
    }
}

/// A logger that passes the records up to a level.
pub struct Logger {
    pub level: Level,
}

impl Logger {
    /// The logger for `level`, to be installed once as the process's logger.
    pub fn init_with_level(level: Level) -> (r: Logger)
        ensures
            r.level == level,
    {
        Logger { level }
    }

    /// The one-letter name of `level`.
    pub fn short_level_name(level: Level) -> (r: &'static str)
        ensures
            r@ == short_name(level),
    {
        match level {
            Level::Error => "E",
            Level::Warn => "W",
            Level::Info => "I",
            Level::Debug => "D",
            Level::Trace => "T",
        }
    }

    fn rank_of(level: Level) -> (r: u8)
        ensures
            r as nat == rank(level),
    {
        match level {
            Level::Error => 1,
            Level::Warn => 2,
            Level::Info => 3,
            Level::Debug => 4,
            Level::Trace => 5,
        }
    }

    /// Whether a record of `level` passes this logger.
    pub fn enabled(&self, level: Level) -> (r: bool)
        ensures
            r == (rank(level) <= rank(self.level)),
    {
        Self::rank_of(level) <= Self::rank_of(self.level)
    }
}

} // verus!
