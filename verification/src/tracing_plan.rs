//! What is installed for tracing, and how the capture file of policy denials is opened.

use crate::log_level::LogLevel;
use tracing_subscriber::filter::{Directive, Targets};
use tracing_subscriber::EnvFilter;
use vstd::prelude::*;

verus! {

/// `tracing_subscriber::EnvFilter`, a set of filter directives.
#[verifier::external_type_specification]
#[verifier::external_body]
pub struct ExEnvFilter(tracing_subscriber::EnvFilter);

/// `tracing_subscriber::filter::Targets`, a set of targets, each with a level.
#[verifier::external_type_specification]
#[verifier::external_body]
pub struct ExTargets(tracing_subscriber::filter::Targets);

/// The plain directives of an `EnvFilter`: those that set one of the five levels and name
/// no span and no field. Each is listed under its target, and sets the level of all
/// targets that begin so; one without a target sets the level of all targets.
pub uninterp spec fn env_filter_levels(filter: EnvFilter) -> Map<Option<Seq<char>>, LogLevel>;

/// The entries of a `Targets` filter that set one of the five levels and name no field.
/// Each is listed under its target, and sets the level of all targets that begin so; the
/// default, which has no target, sets the level of all targets.
pub uninterp spec fn target_levels(filter: Targets) -> Map<Option<Seq<char>>, LogLevel>;

/// A filter that sets no level.
pub open spec fn no_levels() -> Map<Option<Seq<char>>, LogLevel> {
    Map::empty()
}

/// A target that is written in lower case letters, digits and underscores.
pub open spec fn is_plain_target(target: Seq<char>) -> bool {
    &&& target.len() > 0
    &&& forall|i: int|
        0 <= i < target.len() ==> 'a' <= #[trigger] target[i] <= 'z' || '0' <= target[i] <= '9'
            || target[i] == '_'
}

/// The text is the directive that sets `level` for `target`.
pub open spec fn is_directive(text: Seq<char>, target: Seq<char>, level: LogLevel) -> bool {
    is_plain_target(target) && text == target.push('=') + level.name()
}

/// `EnvFilter::new` parses a list of directives. The text has to be the name of a level;
/// the filter then holds one directive, which sets that level for all targets.
#[verifier::external_body]
fn env_filter_new(directives: &str) -> (filter: EnvFilter)
    requires
        exists|level: LogLevel| directives@ == #[trigger] level.name(),
    ensures
        forall|level: LogLevel|
            directives@ == #[trigger] level.name() ==> env_filter_levels(filter)
                == no_levels().insert(None, level),
{
    EnvFilter::new(directives)
}

/// `EnvFilter::add_directive` adds a directive, which `Directive::from_str` has parsed from
/// its text, and overwrites the one that the filter held for the same target. The other
/// directives stay. The text has to be a plain target, an equals sign and the name of a
/// level, which parses without error.
#[verifier::external_body]
fn env_filter_add_directive(filter: EnvFilter, directive: &str) -> (extended: EnvFilter)
    requires
        exists|target: Seq<char>, level: LogLevel| is_directive(directive@, target, level),
    ensures
        forall|target: Seq<char>, level: LogLevel| #[trigger]
            is_directive(directive@, target, level) ==> env_filter_levels(extended)
                == env_filter_levels(filter).insert(Some(target), level),
{
    filter.add_directive(directive.parse::<Directive>().unwrap())
}

/// `Targets::new` returns a filter that sets no level.
pub assume_specification[ tracing_subscriber::filter::Targets::new ]() -> (filter: Targets)
    ensures
        target_levels(filter) == no_levels(),
;

/// `Targets::with_target` sets the level of one target, and overwrites the one that was
/// set for the same target. The other levels stay.
#[verifier::external_body]
fn targets_with_target(filter: Targets, target: &str, level: LogLevel) -> (extended: Targets)
    ensures
        target_levels(extended) == target_levels(filter).insert(Some(target@), level),
{
    let level = match level {
        LogLevel::Error => tracing::Level::ERROR,
        LogLevel::Warn => tracing::Level::WARN,
        LogLevel::Info => tracing::Level::INFO,
        LogLevel::Debug => tracing::Level::DEBUG,
        LogLevel::Trace => tracing::Level::TRACE,
    };
    filter.with_target(target, level)
}

/// The layer that writes diagnostic logs to standard error.
pub struct StderrPlan {
    /// Which logs are written.
    pub filter: EnvFilter,
    /// Whether color escape sequences are written.
    pub ansi: bool,
}

/// The layer that writes policy denials to a capture file, one JSON object a line.
pub struct DenyPlan<F> {
    /// The opened capture file.
    pub file: F,
    /// Which logs are written.
    pub filter: Targets,
    /// Whether color escape sequences are written.
    pub ansi: bool,
}

/// The layers to install.
pub struct TracingPlan<F> {
    /// The layer for standard error, where a level was selected.
    pub stderr: Option<StderrPlan>,
    /// The layer for the capture file, where one was configured.
    pub deny: Option<DenyPlan<F>>,
}

/// How the capture file of policy denials is opened.
#[derive(Debug, Clone, Copy, PartialEq, Eq, Structural)]
pub struct DenyLogOptions {
    /// Whether the file is created where it does not exist.
    pub create: bool,
    /// Whether what is written goes to the end of the file.
    pub append: bool,
    /// The permission bits of a new file, where the system has such bits.
    pub mode: u32,
}

/// The level of the registry client, which logs its authentication token in debug mode:
/// the selected level, but no more than `info`.
pub open spec fn registry_client_level(level: LogLevel) -> LogLevel {
    if level.verbosity() <= LogLevel::Info.verbosity() {
        level
    } else {
        LogLevel::Info
    }
}

/// The levels of the logs on standard error: the selected level for all targets, and that
/// of the registry client for its own.
pub open spec fn stderr_levels(level: LogLevel) -> Map<Option<Seq<char>>, LogLevel> {
    no_levels().insert(None, level).insert(Some("oci_client"@), registry_client_level(level))
}

/// The levels of the captured logs: everything of the target for policy denials, and
/// nothing else.
pub open spec fn deny_levels() -> Map<Option<Seq<char>>, LogLevel> {
    no_levels().insert(Some("policy_deny"@), LogLevel::Trace)
}

/// Return the filter of the logs on standard error.
pub fn stderr_filter(level: LogLevel) -> (filter: EnvFilter)
    ensures
        env_filter_levels(filter) == stderr_levels(level),
        forall|listed: Option<Seq<char>>| #[trigger]
            env_filter_levels(filter).contains_key(listed) <==> listed is None || listed == Some(
                "oci_client"@,
            ),
        env_filter_levels(filter)[None] == level,
        env_filter_levels(filter)[Some("oci_client"@)] == match level {
            LogLevel::Error => LogLevel::Error,
            LogLevel::Warn => LogLevel::Warn,
            LogLevel::Info | LogLevel::Debug | LogLevel::Trace => LogLevel::Info,
        },
{
    let base = env_filter_new(level.as_str());
    // The registry client logs its authentication token in debug mode:
    // https://github.com/oras-project/rust-oci-client/issues/254
    let directive = match level {
        LogLevel::Error => "oci_client=error",
        LogLevel::Warn => "oci_client=warn",
        LogLevel::Info | LogLevel::Debug | LogLevel::Trace => "oci_client=info",
    };
    proof {
        reveal_strlit("oci_client");
        reveal_strlit("oci_client=error");
        reveal_strlit("oci_client=warn");
        reveal_strlit("oci_client=info");
        reveal_strlit("error");
        reveal_strlit("warn");
        reveal_strlit("info");
        assert(directive@ =~= "oci_client"@.push('=') + registry_client_level(level).name());
        assert(is_directive(directive@, "oci_client"@, registry_client_level(level)));
    }
    env_filter_add_directive(base, directive)
}

/// Return the filter of the captured logs.
pub fn deny_filter() -> (filter: Targets)
    ensures
        target_levels(filter) == deny_levels(),
        forall|listed: Option<Seq<char>>| #[trigger]
            target_levels(filter).contains_key(listed) <==> listed == Some("policy_deny"@),
        target_levels(filter)[Some("policy_deny"@)] == LogLevel::Trace,
{
    targets_with_target(Targets::new(), "policy_deny", LogLevel::Trace)
}

/// Decide what is installed for tracing.
///
/// `ansi` controls whether the logs on standard error hold color escape sequences.
/// `capture` is what came of opening the configured capture file, if one was configured.
/// A file that could not be opened stops the startup: without the capture, policy
/// enforcement would be active but could not be observed.
pub fn plan_tracing<F, E>(
    log_level: Option<LogLevel>,
    ansi: bool,
    capture: Option<Result<F, E>>,
) -> (plan: Result<Option<TracingPlan<F>>, E>)
    ensures
        match plan {
            Err(error) => capture == Some(Err::<F, E>(error)),
            Ok(None) => log_level is None && capture is None,
            Ok(Some(layers)) => {
                &&& log_level is Some || capture is Some
                &&& match log_level {
                    Some(level) => {
                        &&& layers.stderr is Some
                        &&& env_filter_levels(layers.stderr->0.filter) == stderr_levels(level)
                        &&& layers.stderr->0.ansi == ansi
                        &&& forall|listed: Option<Seq<char>>| #[trigger]
                            env_filter_levels(layers.stderr->0.filter).contains_key(listed)
                                <==> listed is None || listed == Some("oci_client"@)
                        &&& env_filter_levels(layers.stderr->0.filter)[None] == level
                        &&& env_filter_levels(layers.stderr->0.filter)[Some("oci_client"@)]
                            == match level {
                            LogLevel::Error => LogLevel::Error,
                            LogLevel::Warn => LogLevel::Warn,
                            LogLevel::Info | LogLevel::Debug | LogLevel::Trace => LogLevel::Info,
                        }
                    },
                    None => layers.stderr is None,
                }
                &&& match layers.deny {
                    Some(deny) => {
                        &&& capture == Some(Ok::<F, E>(deny.file))
                        &&& target_levels(deny.filter) == deny_levels()
                        &&& !deny.ansi
                        &&& forall|listed: Option<Seq<char>>| #[trigger]
                            target_levels(deny.filter).contains_key(listed) <==> listed == Some(
                                "policy_deny"@,
                            )
                        &&& target_levels(deny.filter)[Some("policy_deny"@)] == LogLevel::Trace
                    },
                    None => capture is None,
                }
            },
        },
{
    let file = match capture {
        Some(Ok(file)) => Some(file),
        Some(Err(error)) => {
            return Err(error);
        },
        None => None,
    };
    let stderr = match log_level {
        Some(level) => Some(StderrPlan { filter: stderr_filter(level), ansi }),
        None => None,
    };
    let deny = match file {
        Some(file) => Some(DenyPlan { file, filter: deny_filter(), ansi: false }),
        None => None,
    };
    if stderr.is_some() || deny.is_some() {
        Ok(Some(TracingPlan { stderr, deny }))
    } else {
        Ok(None)
    }
}

/// Return how the capture file is opened: it is appended to, and a new one is not made
/// readable by others.
pub fn deny_log_options() -> (options: DenyLogOptions)
    ensures
        options.create,
        options.append,
        options.mode == 0o600,
        options.mode & 0o077 == 0,
{
    assert(0o600u32 & 0o077u32 == 0) by (bit_vector);
    DenyLogOptions { create: true, append: true, mode: 0o600 }
}

/// A listed target applies to the targets that begin with it, and the entry without a
/// target to all.
pub open spec fn applies(listed: Option<Seq<char>>, target: Seq<char>) -> bool {
    match listed {
        Some(prefix) => prefix.is_prefix_of(target),
        None => true,
    }
}

/// How specific an entry is: the longer its target, the more, and least without one.
pub open spec fn specificity(listed: Option<Seq<char>>) -> int {
    match listed {
        Some(prefix) => prefix.len() as int,
        None => -1,
    }
}

/// The entry is the most specific of those that apply to a target.
pub open spec fn decides(
    levels: Map<Option<Seq<char>>, LogLevel>,
    listed: Option<Seq<char>>,
    target: Seq<char>,
) -> bool {
    &&& levels.contains_key(listed)
    &&& applies(listed, target)
    &&& forall|other: Option<Seq<char>>| #[trigger]
        levels.contains_key(other) && applies(other, target) ==> specificity(other)
            <= specificity(listed)
}

/// A filter with these levels lets an event through: the most specific entry for the
/// target of the event sets a level at least as verbose as that of the event.
pub open spec fn enables(
    levels: Map<Option<Seq<char>>, LogLevel>,
    target: Seq<char>,
    level: LogLevel,
) -> bool {
    exists|listed: Option<Seq<char>>| #[trigger]
        decides(levels, listed, target) && level.verbosity() <= levels[listed].verbosity()
}

/// The longest listed prefix of a target decides: an event passes exactly where its level
/// is no more verbose than the one listed there.
pub proof fn law_longest_prefix_decides(
    levels: Map<Option<Seq<char>>, LogLevel>,
    prefix: Seq<char>,
    rest: Seq<char>,
    level: LogLevel,
)
    requires
        levels.contains_key(Some(prefix)),
        forall|longer: Seq<char>| #[trigger]
            levels.contains_key(Some(longer)) && longer.len() > prefix.len() ==> longer.len()
                > prefix.len() + rest.len() || (prefix + rest).take(longer.len() as int) != longer,
    ensures
        enables(levels, prefix + rest, level) <==> level.verbosity() <= levels[Some(
            prefix,
        )].verbosity(),
{
    let target = prefix + rest;
    assert(prefix.is_prefix_of(target)) by {
        assert(target.subrange(0, prefix.len() as int) =~= prefix);
    }
    assert forall|other: Option<Seq<char>>| #[trigger] levels.contains_key(other) && applies(
        other,
        target,
    ) implies specificity(other) <= specificity(Some(prefix)) by {
        if other is Some && other->0.len() > prefix.len() {
            assert(levels.contains_key(Some(other->0)));
            assert(target.take(other->0.len() as int) =~= other->0);
        }
    }
    assert(decides(levels, Some(prefix), target));
    assert forall|listed: Option<Seq<char>>| #[trigger] decides(levels, listed, target) implies
        listed == Some(prefix) by {
        assert(levels.contains_key(Some(prefix)));
        assert(listed is Some && listed->0.len() == prefix.len());
        assert(listed->0 =~= prefix);
    }
}

/// Where no listed target is a prefix of that of an event, the entry without a target
/// decides, and without such an entry nothing passes.
pub proof fn law_entry_without_target_decides_last(
    levels: Map<Option<Seq<char>>, LogLevel>,
    target: Seq<char>,
    level: LogLevel,
)
    requires
        forall|prefix: Seq<char>| #[trigger]
            levels.contains_key(Some(prefix)) ==> prefix.len() > target.len() || target.take(
                prefix.len() as int,
            ) != prefix,
    ensures
        enables(levels, target, level) <==> levels.contains_key(None) && level.verbosity()
            <= levels[None].verbosity(),
{
    assert forall|listed: Option<Seq<char>>| #[trigger] levels.contains_key(listed) && applies(
        listed,
        target,
    ) implies listed is None by {
        if listed is Some {
            assert(levels.contains_key(Some(listed->0)));
            assert(target.take(listed->0.len() as int) =~= listed->0);
        }
    }
    if levels.contains_key(None) {
        assert(decides(levels, None, target));
    }
}

/// The registry client is never raised above the selected level, nor above `info`, and
/// every other setting of the filter is the selected level for all targets.
pub proof fn law_registry_client_is_never_raised(level: LogLevel, listed: Option<Seq<char>>)
    ensures
        stderr_levels(level)[Some("oci_client"@)].verbosity() <= level.verbosity(),
        stderr_levels(level)[Some("oci_client"@)].verbosity() <= LogLevel::Info.verbosity(),
        stderr_levels(level).contains_key(listed) && listed != Some("oci_client"@) ==> listed
            is None && stderr_levels(level)[listed] == level,
{
}

/// Apart from the registry client, exactly the events up to the selected level are shown.
pub proof fn law_selected_level_is_shown(selected: LogLevel, target: Seq<char>, level: LogLevel)
    requires
        !"oci_client"@.is_prefix_of(target),
    ensures
        enables(stderr_levels(selected), target, level) <==> level.verbosity()
            <= selected.verbosity(),
{
    assert(decides(stderr_levels(selected), None, target));
}

/// Of the registry client, exactly the events up to its own level are shown.
pub proof fn law_registry_client_level_is_shown(
    selected: LogLevel,
    target: Seq<char>,
    level: LogLevel,
)
    requires
        "oci_client"@.is_prefix_of(target),
    ensures
        enables(stderr_levels(selected), target, level) <==> level.verbosity()
            <= registry_client_level(selected).verbosity(),
{
    let levels = stderr_levels(selected);
    assert(decides(levels, Some("oci_client"@), target));
    assert forall|listed: Option<Seq<char>>| #[trigger] decides(levels, listed, target) implies
        listed == Some("oci_client"@) by {
        assert(levels.contains_key(Some("oci_client"@)));
    }
}

/// Exactly the events whose target begins with that of policy denials are captured, at
/// every level.
pub proof fn law_only_denials_are_captured(target: Seq<char>, level: LogLevel)
    ensures
        enables(deny_levels(), target, level) <==> "policy_deny"@.is_prefix_of(target),
{
    if "policy_deny"@.is_prefix_of(target) {
        assert(decides(deny_levels(), Some("policy_deny"@), target));
    }
}

/// What the registry client logs in debug mode, its authentication token among it, is
/// neither shown nor captured, whatever level is selected.
pub proof fn law_registry_token_is_not_logged(
    selected: LogLevel,
    target: Seq<char>,
    level: LogLevel,
)
    requires
        "oci_client"@.is_prefix_of(target),
        level == LogLevel::Debug || level == LogLevel::Trace,
    ensures
        !enables(stderr_levels(selected), target, level),
        !enables(deny_levels(), target, level),
{
    law_registry_client_level_is_shown(selected, target, level);
    law_only_denials_are_captured(target, level);
    reveal_strlit("oci_client");
    reveal_strlit("policy_deny");
    assert("oci_client"@[0] == target[0]);
    if "policy_deny"@.is_prefix_of(target) {
        assert("policy_deny"@[0] == target[0]);
    }
}

} // verus!
