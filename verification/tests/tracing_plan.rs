use sandbox_config::log_level::LogLevel;
use sandbox_config::tracing_plan::{
    deny_filter, deny_log_options, plan_tracing, stderr_filter, TracingPlan,
};
use tracing::Level;

#[test]
fn registry_client_is_never_raised() {
    assert_eq!(stderr_filter(LogLevel::Error).to_string(), "oci_client=error,error");
    assert_eq!(stderr_filter(LogLevel::Warn).to_string(), "oci_client=warn,warn");
    assert_eq!(stderr_filter(LogLevel::Info).to_string(), "oci_client=info,info");
    assert_eq!(stderr_filter(LogLevel::Debug).to_string(), "oci_client=info,debug");
    assert_eq!(stderr_filter(LogLevel::Trace).to_string(), "oci_client=info,trace");
}

#[test]
fn only_denials_are_captured() {
    let filter = deny_filter();
    assert!(filter.would_enable("policy_deny", &Level::TRACE));
    assert!(filter.would_enable("policy_deny", &Level::ERROR));
    assert!(filter.would_enable("policy_deny::egress", &Level::DEBUG));
    assert!(!filter.would_enable("policy", &Level::ERROR));
    assert!(!filter.would_enable("oci_client", &Level::ERROR));
    assert_eq!(filter.iter().count(), 1);
    assert!(filter.default_level().is_none());
}

#[test]
fn events_pass_up_to_the_level_of_their_most_specific_entry() {
    let filter = |level: LogLevel| {
        stderr_filter(level)
            .to_string()
            .parse::<tracing_subscriber::filter::Targets>()
            .unwrap()
    };
    let errors = filter(LogLevel::Error);
    assert!(errors.would_enable("oci_client", &Level::ERROR));
    assert!(!errors.would_enable("oci_client", &Level::WARN));
    assert!(!errors.would_enable("oci_client", &Level::INFO));
    assert!(errors.would_enable("msb", &Level::ERROR));
    assert!(!errors.would_enable("msb", &Level::WARN));
    let all = filter(LogLevel::Trace);
    assert!(all.would_enable("oci_client::client", &Level::INFO));
    assert!(!all.would_enable("oci_client::client", &Level::DEBUG));
    assert!(!all.would_enable("oci_client", &Level::TRACE));
    assert!(all.would_enable("msb", &Level::TRACE));
}

#[test]
fn nothing_is_installed_without_level_and_capture() {
    let plan: Result<Option<TracingPlan<u8>>, u8> = plan_tracing(None, true, None);
    assert!(matches!(plan, Ok(None)));
}

#[test]
fn a_selected_level_installs_the_stderr_layer() {
    let plan: Result<Option<TracingPlan<u8>>, u8> =
        plan_tracing(Some(LogLevel::Debug), true, None);
    let layers = plan.unwrap().unwrap();
    let stderr = layers.stderr.unwrap();
    assert!(stderr.ansi);
    assert_eq!(stderr.filter.to_string(), "oci_client=info,debug");
    assert!(layers.deny.is_none());
}

#[test]
fn an_opened_capture_file_installs_the_deny_layer() {
    let plan: Result<Option<TracingPlan<u8>>, u8> = plan_tracing(None, true, Some(Ok(7)));
    let layers = plan.unwrap().unwrap();
    assert!(layers.stderr.is_none());
    let deny = layers.deny.unwrap();
    assert_eq!(deny.file, 7);
    assert!(!deny.ansi);
    assert!(deny.filter.would_enable("policy_deny", &Level::TRACE));
}

#[test]
fn both_layers_are_installed_together() {
    let plan: Result<Option<TracingPlan<u8>>, u8> =
        plan_tracing(Some(LogLevel::Warn), false, Some(Ok(7)));
    let layers = plan.unwrap().unwrap();
    assert!(!layers.stderr.unwrap().ansi);
    assert_eq!(layers.deny.unwrap().file, 7);
}

#[test]
fn a_capture_file_that_does_not_open_is_an_error() {
    let silent: Result<Option<TracingPlan<u8>>, u8> = plan_tracing(None, true, Some(Err(3)));
    assert!(matches!(silent, Err(3)));
    let shown: Result<Option<TracingPlan<u8>>, u8> =
        plan_tracing(Some(LogLevel::Trace), false, Some(Err(3)));
    assert!(matches!(shown, Err(3)));
}

#[test]
fn the_capture_file_is_private_and_appended_to() {
    let options = deny_log_options();
    assert!(options.create);
    assert!(options.append);
    assert_eq!(options.mode & 0o777, 0o600);
}
