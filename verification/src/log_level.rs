//! Verbosity levels of diagnostic logs.

use vstd::prelude::*;

verus! {

/// A verbosity level, from the least to the most verbose.
#[derive(Debug, Clone, Copy, PartialEq, Eq, Structural)]
pub enum LogLevel {
    /// Errors only.
    Error,
    /// Warnings and errors.
    Warn,
    /// Informational messages and above.
    Info,
    /// Debug messages and above.
    Debug,
    /// Everything.
    Trace,
}

impl LogLevel {
    /// The name of the level, in lower case.
    pub open spec fn name(self) -> Seq<char> {
        match self {
            LogLevel::Error => "error"@,
            LogLevel::Warn => "warn"@,
            LogLevel::Info => "info"@,
            LogLevel::Debug => "debug"@,
            LogLevel::Trace => "trace"@,
        }
    }

    /// How verbose the level is: a level shows what every level below it shows.
    pub open spec fn verbosity(self) -> int {
        match self {
            LogLevel::Error => 0,
            LogLevel::Warn => 1,
            LogLevel::Info => 2,
            LogLevel::Debug => 3,
            LogLevel::Trace => 4,
        }
    }

    /// Return the name of the level, in lower case.
    pub fn as_str(&self) -> (name: &'static str)
        ensures
            name@ == self.name(),
            name@ == match self {
                LogLevel::Error => "error"@,
                LogLevel::Warn => "warn"@,
                LogLevel::Info => "info"@,
                LogLevel::Debug => "debug"@,
                LogLevel::Trace => "trace"@,
            },
    {
        match self {
            LogLevel::Error => "error",
            LogLevel::Warn => "warn",
            LogLevel::Info => "info",
            LogLevel::Debug => "debug",
            LogLevel::Trace => "trace",
        }
    }
}

/// No two levels share a name.
pub proof fn law_level_names_are_distinct(a: LogLevel, b: LogLevel)
    ensures
        a.name() == b.name() <==> a == b,
{
    reveal_strlit("error");
    reveal_strlit("warn");
    reveal_strlit("info");
    reveal_strlit("debug");
    reveal_strlit("trace");
    if a != b && a.name().len() == b.name().len() {
        assert(a.name()[0] != b.name()[0]);
    }
}

/// From errors over warnings, information and debugging to tracing, each level shows more
/// than the one before it.
pub proof fn law_levels_grow_more_verbose(level: LogLevel)
    ensures
        LogLevel::Error.verbosity() < LogLevel::Warn.verbosity() < LogLevel::Info.verbosity()
            < LogLevel::Debug.verbosity() < LogLevel::Trace.verbosity(),
        LogLevel::Error.verbosity() <= level.verbosity() <= LogLevel::Trace.verbosity(),
{
}

} // verus!
