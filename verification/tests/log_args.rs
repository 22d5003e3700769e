use clap::error::ErrorKind;
use clap::{Arg, ArgAction, Command};
use sandbox_config::log_args::{log_flags, LogArgs, LogFlagConflict};
use sandbox_config::log_level::LogLevel;

fn test_cli() -> Command {
    let mut cli = Command::new("msb")
        .subcommand_required(true)
        .subcommand(Command::new("machine"))
        .subcommand(Command::new("run"));
    for flag in log_flags() {
        cli = cli.arg(
            Arg::new(flag.name)
                .long(flag.name)
                .help(flag.help)
                .action(ArgAction::SetTrue)
                .global(flag.global)
                .conflicts_with_all(flag.conflicts),
        );
    }
    cli
}

fn try_parse_from(args: &[&'static str]) -> Result<LogArgs, clap::Error> {
    let matches = test_cli().try_get_matches_from(args.iter().copied())?;
    let flags = LogArgs {
        error: matches.get_flag("error"),
        warn: matches.get_flag("warn"),
        info: matches.get_flag("info"),
        debug: matches.get_flag("debug"),
        trace: matches.get_flag("trace"),
    };
    flags.into_exclusive().map_err(|conflict| {
        clap::Error::raw(
            ErrorKind::ArgumentConflict,
            format!("--{} and --{}", conflict.first.as_str(), conflict.second.as_str()),
        )
    })
}

#[test]
fn test_global_log_flag_after_subcommand() {
    let logs = try_parse_from(&["msb", "run", "--debug"]).unwrap();
    assert_eq!(logs.selected_level(), Some(LogLevel::Debug));
}

#[test]
fn test_no_log_flag_means_silent() {
    let logs = try_parse_from(&["msb", "machine"]).unwrap();
    assert_eq!(logs.selected_level(), None);
}

#[test]
fn test_log_flags_conflict() {
    let err = try_parse_from(&["msb", "--info", "--debug", "machine"]).unwrap_err();
    let rendered = err.to_string();
    assert!(rendered.contains("--debug"));
    assert!(rendered.contains("--info"));
}

#[test]
fn every_pair_of_log_flags_conflicts() {
    let names = ["--error", "--warn", "--info", "--debug", "--trace"];
    for a in names {
        for b in names {
            if a != b {
                assert!(try_parse_from(&["msb", a, b, "run"]).is_err());
                assert!(try_parse_from(&["msb", a, "run", b]).is_err());
                assert!(try_parse_from(&["msb", "run", a, b]).is_err());
            }
        }
    }
}

#[test]
fn the_parser_alone_accepts_flags_on_both_sides_of_a_subcommand() {
    let matches = test_cli()
        .try_get_matches_from(["msb", "--info", "run", "--debug"])
        .unwrap();
    assert!(matches.get_flag("info"));
    assert!(matches.get_flag("debug"));
    let err = try_parse_from(&["msb", "--info", "run", "--debug"]).unwrap_err();
    assert_eq!(err.kind(), ErrorKind::ArgumentConflict);
}

#[test]
fn exclusive_flags_are_accepted_and_others_named() {
    let none = LogArgs::default();
    assert_eq!(none.into_exclusive().unwrap().selected_level(), None);
    let one = LogArgs { trace: true, ..none };
    assert_eq!(one.into_exclusive().unwrap().selected_level(), Some(LogLevel::Trace));
    let three = LogArgs { trace: true, warn: true, debug: true, ..none };
    assert_eq!(
        three.into_exclusive().unwrap_err(),
        LogFlagConflict { first: LogLevel::Warn, second: LogLevel::Debug }
    );
}

#[test]
fn each_log_flag_selects_its_level() {
    let flags = [
        ("--error", LogLevel::Error),
        ("--warn", LogLevel::Warn),
        ("--info", LogLevel::Info),
        ("--debug", LogLevel::Debug),
        ("--trace", LogLevel::Trace),
    ];
    for (flag, level) in flags {
        let logs = try_parse_from(&["msb", flag, "machine"]).unwrap();
        assert_eq!(logs.selected_level(), Some(level));
    }
}

#[test]
fn the_least_verbose_of_several_flags_is_selected() {
    let logs = LogArgs { error: false, warn: true, info: true, debug: false, trace: true };
    assert_eq!(logs.selected_level(), Some(LogLevel::Warn));
    let all = LogArgs { error: true, warn: true, info: true, debug: true, trace: true };
    assert_eq!(all.selected_level(), Some(LogLevel::Error));
    assert_eq!(LogArgs::default().selected_level(), None);
}

#[test]
fn log_flags_are_declared_in_order() {
    let flags = log_flags();
    let names: Vec<&str> = flags.iter().map(|flag| flag.name).collect();
    assert_eq!(names, vec!["error", "warn", "info", "debug", "trace"]);
    assert_eq!(flags[2].level, LogLevel::Info);
    assert_eq!(flags[2].help, "Show info, warning, and error diagnostic logs");
    assert!(flags[2].global);
    assert_eq!(flags[2].conflicts, vec!["error", "warn", "debug", "trace"]);
}

#[test]
fn level_names_are_lower_case() {
    assert_eq!(LogLevel::Error.as_str(), "error");
    assert_eq!(LogLevel::Warn.as_str(), "warn");
    assert_eq!(LogLevel::Info.as_str(), "info");
    assert_eq!(LogLevel::Debug.as_str(), "debug");
    assert_eq!(LogLevel::Trace.as_str(), "trace");
}
