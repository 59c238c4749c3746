//! Severity levels of system journal entries and their syslog priorities.
use vstd::prelude::*;

verus! {

/// Severity levels of system journal entries.
#[derive(Debug, Clone, Copy, PartialEq, Eq, Structural)]
pub enum LogLevel {
    Debug,
    Info,
    Notice,
    Warning,
    Error,
    Critical,
    Alert,
    Emergency,
}

/// The syslog priority number of a level (0 is the most severe).
pub open spec fn priority_of(level: LogLevel) -> int {
    match level {
        LogLevel::Emergency => 0,
        LogLevel::Alert => 1,
        LogLevel::Critical => 2,
        LogLevel::Error => 3,
        LogLevel::Warning => 4,
        LogLevel::Notice => 5,
        LogLevel::Info => 6,
        LogLevel::Debug => 7,
    }
}

/// The level of a syslog priority number; numbers past 6 (and negative
/// ones) count as debug.
pub open spec fn level_of(p: int) -> LogLevel {
    if p == 0 {
        LogLevel::Emergency
    } else if p == 1 {
        LogLevel::Alert
    } else if p == 2 {
        LogLevel::Critical
    } else if p == 3 {
        LogLevel::Error
    } else if p == 4 {
        LogLevel::Warning
    } else if p == 5 {
        LogLevel::Notice
    } else if p == 6 {
        LogLevel::Info
    } else {
        LogLevel::Debug
    }
}

/// A level's priority maps back to the level, and every priority from 0 to
/// 7 is the priority of the level it maps to.
pub proof fn law_priority_round_trip(level: LogLevel, p: int)
    ensures
        level_of(priority_of(level)) == level,
        0 <= p <= 7 ==> priority_of(level_of(p)) == p,
        0 <= priority_of(level) <= 7,
{
}

impl LogLevel {
    /// Syslog priority of this level.
    pub fn to_priority(self) -> (p: i32)
        ensures
            p == priority_of(self),
    {
        match self {
            LogLevel::Emergency => 0,
            LogLevel::Alert => 1,
            LogLevel::Critical => 2,
            LogLevel::Error => 3,
            LogLevel::Warning => 4,
            LogLevel::Notice => 5,
            LogLevel::Info => 6,
            LogLevel::Debug => 7,
        }
    }

    /// The level of a syslog priority number.
    pub fn from_priority(p: i32) -> (r: Self)
        ensures
            r == level_of(p as int),
    {
        match p {
            0 => LogLevel::Emergency,
            1 => LogLevel::Alert,
            2 => LogLevel::Critical,
            3 => LogLevel::Error,
            4 => LogLevel::Warning,
            5 => LogLevel::Notice,
            6 => LogLevel::Info,
            _ => LogLevel::Debug,
        }
    }
}

} // verus!
