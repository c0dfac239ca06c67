//! Mapping from a verbosity count to the most detailed severity that is recorded.

use vstd::prelude::*;

verus! {

/// Severity of a log record, from the least to the most detailed.
#[derive(Clone, Copy, Debug, PartialEq, Eq, Structural)]
pub enum LogLevel {
    Error,
    Warn,
    Info,
    Debug,
    Trace,
}

/// The most detailed level recorded at verbosity `v`: 0 records errors only,
/// each further step adds one level, and 4 or more records everything.
pub open spec fn level_of(v: nat) -> LogLevel {
    if v == 0 {
        LogLevel::Error
    } else if v == 1 {
        LogLevel::Warn
    } else if v == 2 {
        LogLevel::Info
    } else if v == 3 {
        LogLevel::Debug
    } else {
        LogLevel::Trace
    }
}

/// The most detailed level recorded at the given verbosity count.
pub fn level_for_verbosity(verbosity: u8) -> (r: LogLevel)
    ensures
        r == level_of(verbosity as nat),
{
    match verbosity {
        0 => LogLevel::Error,
        1 => LogLevel::Warn,
        2 => LogLevel::Info,
        3 => LogLevel::Debug,
        _ => LogLevel::Trace,
    }
}

} // verus!
