//! Shared CLI verbosity flags.

use crate::log_level::LogLevel;
use vstd::prelude::*;

verus! {

/// Mutually-exclusive tracing verbosity flags.
#[derive(Debug, Clone, Copy)]
pub struct LogArgs {
    /// Show error-level diagnostic logs.
    pub error: bool,
    /// Show warning and error diagnostic logs.
    pub warn: bool,
    /// Show info, warning, and error diagnostic logs.
    pub info: bool,
    /// Show debug and higher diagnostic logs.
    pub debug: bool,
    /// Show all diagnostic logs (most verbose).
    pub trace: bool,
}

/// How one verbosity flag is declared to a command line parser.
#[derive(Debug)]
pub struct LogFlag {
    /// The level that the flag selects.
    pub level: LogLevel,
    /// The name of the flag, which follows two hyphens on the command line.
    pub name: &'static str,
    /// What the flag does, in one line.
    pub help: &'static str,
    /// Whether the flag may also follow a subcommand.
    pub global: bool,
    /// The names of the flags that may not be given together with this one.
    pub conflicts: Vec<&'static str>,
}

/// Two flags that were given although they exclude each other.
#[derive(Debug, Clone, Copy, PartialEq, Eq, Structural)]
pub struct LogFlagConflict {
    /// The level of the least verbose flag that was given.
    pub first: LogLevel,
    /// The level of the least verbose of the other flags that were given.
    pub second: LogLevel,
}

/// All levels, from the least to the most verbose.
pub open spec fn all_levels() -> Seq<LogLevel> {
    seq![LogLevel::Error, LogLevel::Warn, LogLevel::Info, LogLevel::Debug, LogLevel::Trace]
}

/// What the flag of a level does, in one line.
pub open spec fn flag_help(level: LogLevel) -> Seq<char> {
    match level {
        LogLevel::Error => "Show error-level diagnostic logs"@,
        LogLevel::Warn => "Show warning and error diagnostic logs"@,
        LogLevel::Info => "Show info, warning, and error diagnostic logs"@,
        LogLevel::Debug => "Show debug and higher diagnostic logs"@,
        LogLevel::Trace => "Show all diagnostic logs (most verbose)"@,
    }
}

/// The levels whose flags may not be given together with that of `level`.
pub open spec fn conflicting_levels(level: LogLevel) -> Seq<LogLevel> {
    all_levels().remove(level.verbosity())
}

impl LogFlag {
    /// The flag is declared as that of `level`.
    pub open spec fn declares(self, level: LogLevel) -> bool {
        &&& self.level == level
        &&& self.name@ == level.name()
        &&& self.help@ == flag_help(level)
        &&& self.global
        &&& self.conflicts@.map_values(|name: &'static str| name@)
            == conflicting_levels(level).map_values(|other: LogLevel| other.name())
    }
}

impl LogArgs {
    /// The flag of `level` was given.
    pub open spec fn given(self, level: LogLevel) -> bool {
        match level {
            LogLevel::Error => self.error,
            LogLevel::Warn => self.warn,
            LogLevel::Info => self.info,
            LogLevel::Debug => self.debug,
            LogLevel::Trace => self.trace,
        }
    }

    /// The least verbose level whose flag was given is selected, and none where no flag
    /// was given.
    pub open spec fn selects(self, selected: Option<LogLevel>) -> bool {
        match selected {
            Some(level) => {
                &&& self.given(level)
                &&& forall|other: LogLevel| #[trigger]
                    self.given(other) ==> level.verbosity() <= other.verbosity()
            },
            None => forall|other: LogLevel| !#[trigger] self.given(other),
        }
    }

    /// No two flags were given.
    pub open spec fn is_exclusive(self) -> bool {
        forall|a: LogLevel, b: LogLevel| #[trigger]
            self.given(a) && #[trigger] self.given(b) ==> a == b
    }

    /// The two flags were given, and no flag beside the first is less verbose than the
    /// second.
    pub open spec fn clashes(self, conflict: LogFlagConflict) -> bool {
        &&& self.selects(Some(conflict.first))
        &&& self.given(conflict.second)
        &&& conflict.second != conflict.first
        &&& forall|other: LogLevel| #[trigger]
            self.given(other) && other != conflict.first ==> conflict.second.verbosity()
                <= other.verbosity()
    }

    /// Accept the flags of a command line only where no two of them were given, whether
    /// they stood before the subcommand or after it.
    pub fn into_exclusive(self) -> (checked: Result<Self, LogFlagConflict>)
        ensures
            match checked {
                Ok(args) => args == self && self.is_exclusive(),
                Err(conflict) => self.clashes(conflict) && !self.is_exclusive(),
            },
            checked is Ok <==> {
                &&& self.error ==> !self.warn && !self.info && !self.debug && !self.trace
                &&& self.warn ==> !self.info && !self.debug && !self.trace
                &&& self.info ==> !self.debug && !self.trace
                &&& self.debug ==> !self.trace
            },
            checked matches Err(conflict) ==> match (conflict.first, conflict.second) {
                (LogLevel::Error, LogLevel::Warn) => self.error && self.warn,
                (LogLevel::Error, LogLevel::Info) => self.error && !self.warn && self.info,
                (LogLevel::Error, LogLevel::Debug) => self.error && !self.warn && !self.info
                    && self.debug,
                (LogLevel::Error, LogLevel::Trace) => self.error && !self.warn && !self.info
                    && !self.debug && self.trace,
                (LogLevel::Warn, LogLevel::Info) => !self.error && self.warn && self.info,
                (LogLevel::Warn, LogLevel::Debug) => !self.error && self.warn && !self.info
                    && self.debug,
                (LogLevel::Warn, LogLevel::Trace) => !self.error && self.warn && !self.info
                    && !self.debug && self.trace,
                (LogLevel::Info, LogLevel::Debug) => !self.error && !self.warn && self.info
                    && self.debug,
                (LogLevel::Info, LogLevel::Trace) => !self.error && !self.warn && self.info
                    && !self.debug && self.trace,
                (LogLevel::Debug, LogLevel::Trace) => !self.error && !self.warn && !self.info
                    && self.debug && self.trace,
                _ => false,
            },
    {
        match self.selected_level() {
            None => Ok(self),
            Some(first) => {
                let rest = self.without(first);
                match rest.selected_level() {
                    None => {
                        assert forall|level: LogLevel| #[trigger] self.given(level) implies level
                            == first by {
                            assert(!rest.given(level));
                        }
                        Ok(self)
                    },
                    Some(second) => {
                        assert(rest.given(second));
                        assert forall|other: LogLevel| #[trigger]
                            self.given(other) && other != first implies second.verbosity()
                            <= other.verbosity() by {
                            assert(rest.given(other));
                        }
                        Err(LogFlagConflict { first, second })
                    },
                }
            },
        }
    }

    /// Return the flags without that of one level.
    fn without(self, level: LogLevel) -> (rest: Self)
        ensures
            forall|other: LogLevel| #[trigger]
                rest.given(other) <==> self.given(other) && other != level,
            rest.error == (self.error && level != LogLevel::Error),
            rest.warn == (self.warn && level != LogLevel::Warn),
            rest.info == (self.info && level != LogLevel::Info),
            rest.debug == (self.debug && level != LogLevel::Debug),
            rest.trace == (self.trace && level != LogLevel::Trace),
    {
        LogArgs {
            error: self.error && level != LogLevel::Error,
            warn: self.warn && level != LogLevel::Warn,
            info: self.info && level != LogLevel::Info,
            debug: self.debug && level != LogLevel::Debug,
            trace: self.trace && level != LogLevel::Trace,
        }
    }

    /// Return the selected log level, if any.
    pub fn selected_level(&self) -> (selected: Option<LogLevel>)
        ensures
            self.selects(selected),
            match selected {
                Some(LogLevel::Error) => self.error,
                Some(LogLevel::Warn) => !self.error && self.warn,
                Some(LogLevel::Info) => !self.error && !self.warn && self.info,
                Some(LogLevel::Debug) => !self.error && !self.warn && !self.info && self.debug,
                Some(LogLevel::Trace) => !self.error && !self.warn && !self.info && !self.debug
                    && self.trace,
                None => !self.error && !self.warn && !self.info && !self.debug && !self.trace,
            },
    {
        if self.error {
            Some(LogLevel::Error)
        } else if self.warn {
            Some(LogLevel::Warn)
        } else if self.info {
            Some(LogLevel::Info)
        } else if self.debug {
            Some(LogLevel::Debug)
        } else if self.trace {
            Some(LogLevel::Trace)
        } else {
            None
        }
    }
}

impl Default for LogArgs {
    /// No flag was given.
    fn default() -> (args: Self)
        ensures
            forall|level: LogLevel| !#[trigger] args.given(level),
            !args.error && !args.warn && !args.info && !args.debug && !args.trace,
    {
        LogArgs { error: false, warn: false, info: false, debug: false, trace: false }
    }
}

/// Declare the verbosity flags, from the least to the most verbose level.
pub fn log_flags() -> (flags: Vec<LogFlag>)
    ensures
        flags.len() == all_levels().len(),
        forall|i: int|
            0 <= i < flags.len() ==> (#[trigger] flags@[i]).declares(all_levels()[i]),
        flags.len() == 5,
        flags@[0].level == LogLevel::Error && flags@[0].name@ == "error"@,
        flags@[0].help@ == "Show error-level diagnostic logs"@,
        flags@[1].level == LogLevel::Warn && flags@[1].name@ == "warn"@,
        flags@[1].help@ == "Show warning and error diagnostic logs"@,
        flags@[2].level == LogLevel::Info && flags@[2].name@ == "info"@,
        flags@[2].help@ == "Show info, warning, and error diagnostic logs"@,
        flags@[3].level == LogLevel::Debug && flags@[3].name@ == "debug"@,
        flags@[3].help@ == "Show debug and higher diagnostic logs"@,
        flags@[4].level == LogLevel::Trace && flags@[4].name@ == "trace"@,
        flags@[4].help@ == "Show all diagnostic logs (most verbose)"@,
        forall|i: int|
            0 <= i < 5 ==> (#[trigger] flags@[i]).global && flags@[i].conflicts.len() == 4,
        // The conflicts of a flag are the names of all others, in their order.
        forall|i: int, k: int|
            0 <= i < 5 && 0 <= k < 4 ==> (#[trigger] flags@[i].conflicts@[k])@ == flags@[if k < i {
                k
            } else {
                k + 1
            }].name@,
{
    let levels: [LogLevel; 5] = [
        LogLevel::Error,
        LogLevel::Warn,
        LogLevel::Info,
        LogLevel::Debug,
        LogLevel::Trace,
    ];
    let mut flags: Vec<LogFlag> = Vec::new();
    let mut i: usize = 0;
    while i < 5
        invariant
            i <= 5,
            levels@ == all_levels(),
            flags.len() == i,
            forall|j: int| 0 <= j < i ==> (#[trigger] flags@[j]).declares(all_levels()[j]),
        decreases 5 - i,
    {
        flags.push(log_flag(levels[i]));
        i += 1;
    }
    proof {
        assert(forall|j: int| 0 <= j < 5 ==> all_levels()[j].verbosity() == j);
        assert(forall|j: int| 0 <= j < 5 ==> (#[trigger] flags@[j]).declares(all_levels()[j]));
        assert forall|j: int| 0 <= j < 5 implies (#[trigger] flags@[j]).global
            && flags@[j].conflicts.len() == 4 by {
            let names = flags@[j].conflicts@.map_values(|name: &'static str| name@);
            assert(names.len() == flags@[j].conflicts.len());
            assert(names.len() == conflicting_levels(all_levels()[j]).len());
        }
        assert forall|j: int, k: int| 0 <= j < 5 && 0 <= k < 4 implies (
        #[trigger] flags@[j].conflicts@[k])@ == flags@[if k < j {
            k
        } else {
            k + 1
        }].name@ by {
            let level = all_levels()[j];
            let names = flags@[j].conflicts@.map_values(|name: &'static str| name@);
            assert(flags@[j].declares(level));
            assert(names[k] == flags@[j].conflicts@[k]@);
            let other = if k < j {
                k
            } else {
                k + 1
            };
            assert(conflicting_levels(level)[k] == all_levels()[other]);
            assert(flags@[other].declares(all_levels()[other]));
        }
    }
    flags
}

/// Declare the flag of one level.
fn log_flag(level: LogLevel) -> (flag: LogFlag)
    ensures
        flag.declares(level),
{
    let help = match level {
        LogLevel::Error => "Show error-level diagnostic logs",
        LogLevel::Warn => "Show warning and error diagnostic logs",
        LogLevel::Info => "Show info, warning, and error diagnostic logs",
        LogLevel::Debug => "Show debug and higher diagnostic logs",
        LogLevel::Trace => "Show all diagnostic logs (most verbose)",
    };
    let conflicts = match level {
        LogLevel::Error => vec!["warn", "info", "debug", "trace"],
        LogLevel::Warn => vec!["error", "info", "debug", "trace"],
        LogLevel::Info => vec!["error", "warn", "debug", "trace"],
        LogLevel::Debug => vec!["error", "warn", "info", "trace"],
        LogLevel::Trace => vec!["error", "warn", "info", "debug"],
    };
    assert(conflicts@.map_values(|name: &'static str| name@) =~= conflicting_levels(
        level,
    ).map_values(|other: LogLevel| other.name()));
    LogFlag { level, name: level.as_str(), help, global: true, conflicts }
}

/// Any two different flags exclude each other, and no flag excludes itself.
pub proof fn law_flags_are_mutually_exclusive(a: LogLevel, b: LogLevel)
    ensures
        conflicting_levels(a).contains(b) <==> a != b,
        conflicting_levels(a).contains(b) == conflicting_levels(b).contains(a),
{
    lemma_conflicting_levels(a, b);
    lemma_conflicting_levels(b, a);
}

proof fn lemma_conflicting_levels(a: LogLevel, b: LogLevel)
    ensures
        conflicting_levels(a).contains(b) <==> a != b,
{
    let rest = conflicting_levels(a);
    let at = b.verbosity();
    assert(all_levels()[at] == b);
    if a != b {
        assert(rest[if at < a.verbosity() { at } else { at - 1 }] == b);
    } else {
        assert forall|k: int| 0 <= k < rest.len() implies rest[k] != b by {
            assert(rest[k] == all_levels()[if k < at { k } else { k + 1 }]);
        }
    }
}

/// There is one selection for any combination of flags.
pub proof fn law_selection_is_unique(args: LogArgs, a: Option<LogLevel>, b: Option<LogLevel>)
    requires
        args.selects(a),
        args.selects(b),
    ensures
        a == b,
{
    if a is Some && b is Some {
        assert(args.given(a->0) && args.given(b->0));
    } else if a is Some {
        assert(args.given(a->0));
    } else if b is Some {
        assert(args.given(b->0));
    }
}

/// A flag that is given alone selects its own level.
pub proof fn law_lone_flag_selects_its_level(args: LogArgs, level: LogLevel)
    requires
        args.given(level),
        forall|other: LogLevel| #[trigger] args.given(other) ==> other == level,
    ensures
        args.selects(Some(level)),
{
}

/// Without a flag no level is selected.
pub proof fn law_no_flag_selects_no_level(args: LogArgs, selected: Option<LogLevel>)
    requires
        forall|level: LogLevel| !#[trigger] args.given(level),
    ensures
        args.selects(selected) <==> selected is None,
{
}

/// At most one flag was given exactly where no two of the given flags are declared to
/// exclude each other.
pub proof fn law_exclusive_flags_respect_the_declared_conflicts(args: LogArgs)
    ensures
        args.is_exclusive() <==> forall|a: LogLevel, b: LogLevel| #[trigger]
            args.given(a) && #[trigger] args.given(b) ==> !conflicting_levels(a).contains(b),
{
    assert forall|a: LogLevel, b: LogLevel| conflicting_levels(a).contains(b) == (a != b) by {
        lemma_conflicting_levels(a, b);
    }
}

/// Of flags that were accepted as exclusive, one selects its level exactly where it was
/// given.
pub proof fn law_exclusive_flag_decides(args: LogArgs, level: LogLevel)
    requires
        args.is_exclusive(),
    ensures
        args.selects(Some(level)) <==> args.given(level),
{
}

} // verus!
