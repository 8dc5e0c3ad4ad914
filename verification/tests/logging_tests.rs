//! Tests of the logging bootstrap's decisions: level mapping, rotation
//! mapping, sink selection with its console fallback, the target filter and
//! the one-shot installation guard.

use pgmoneta_mcp::logging::{
    claim_init, BootstrapState, LogLevelFilter, Logger, LoggingSetupError, Rotation, Severity,
    SinkPlan,
};

#[test]
fn get_level_maps_each_textual_level() {
    assert_eq!(Logger::get_level("trace"), LogLevelFilter::Trace);
    assert_eq!(Logger::get_level("debug"), LogLevelFilter::Debug);
    assert_eq!(Logger::get_level("info"), LogLevelFilter::Info);
    assert_eq!(Logger::get_level("warn"), LogLevelFilter::Warn);
    assert_eq!(Logger::get_level("error"), LogLevelFilter::Error);
}

#[test]
fn get_level_degrades_unknown_text_to_info() {
    assert_eq!(Logger::get_level("verbose"), LogLevelFilter::Info);
    assert_eq!(Logger::get_level(""), LogLevelFilter::Info);
    assert_eq!(Logger::get_level("WARN"), LogLevelFilter::Info);
}

#[test]
fn rotation_age_h_selects_hourly() {
    assert_eq!(Logger::map_log_rotation_age("h").unwrap(), Rotation::Hourly);
    assert_eq!(Logger::map_log_rotation_age("H").unwrap(), Rotation::Hourly);
}

#[test]
fn rotation_age_zero_selects_never() {
    assert_eq!(Logger::map_log_rotation_age("0").unwrap(), Rotation::Never);
}

#[test]
fn rotation_age_other_characters() {
    assert_eq!(Logger::map_log_rotation_age("m").unwrap(), Rotation::Minutely);
    assert_eq!(Logger::map_log_rotation_age("M").unwrap(), Rotation::Minutely);
    assert_eq!(Logger::map_log_rotation_age("d").unwrap(), Rotation::Daily);
    assert_eq!(Logger::map_log_rotation_age("D").unwrap(), Rotation::Daily);
    assert_eq!(Logger::map_log_rotation_age("w").unwrap(), Rotation::Weekly);
    assert_eq!(Logger::map_log_rotation_age("W").unwrap(), Rotation::Weekly);
}

#[test]
fn rotation_age_unknown_character_is_refused() {
    let err = Logger::map_log_rotation_age("x").unwrap_err();
    match err {
        LoggingSetupError::InvalidRotationAge { given } => assert_eq!(given, "x"),
        _ => panic!("expected an invalid-rotation-age error"),
    }
}

#[test]
fn rotation_age_wrong_length_is_refused() {
    assert!(Logger::map_log_rotation_age("12").is_err());
    assert!(Logger::map_log_rotation_age("").is_err());
    assert!(Logger::map_log_rotation_age("hh").is_err());
}

#[test]
fn sink_selection_per_type_and_mode() {
    assert_eq!(Logger::select_sink("console", "append", "0").unwrap(), SinkPlan::Console);
    assert_eq!(Logger::select_sink("file", "create", "0").unwrap(), SinkPlan::FileCreate);
    assert_eq!(
        Logger::select_sink("file", "append", "h").unwrap(),
        SinkPlan::FileAppend(Rotation::Hourly)
    );
    assert_eq!(Logger::select_sink("syslog", "append", "0").unwrap(), SinkPlan::Syslog);
}

#[test]
fn invalid_sink_kind_is_refused() {
    let err = Logger::select_sink("network", "append", "0").unwrap_err();
    match err {
        LoggingSetupError::InvalidLogType { given } => assert_eq!(given, "network"),
        _ => panic!("expected an invalid-log-type error"),
    }
}

#[test]
fn invalid_file_mode_is_refused() {
    let err = Logger::select_sink("file", "overwrite", "0").unwrap_err();
    match err {
        LoggingSetupError::InvalidLogMode { given } => assert_eq!(given, "overwrite"),
        _ => panic!("expected an invalid-log-mode error"),
    }
}

#[test]
fn bad_rotation_age_falls_back_to_console_with_diagnostic() {
    let (sink, diag) = Logger::resolve_sink("file", "append", "x");
    assert_eq!(sink, SinkPlan::Console);
    let err = diag.expect("a diagnostic is kept");
    assert_eq!(err.describe(), "Invalid log rotation age: x");

    let (sink, diag) = Logger::resolve_sink("file", "append", "12");
    assert_eq!(sink, SinkPlan::Console);
    assert!(diag.is_some());
}

#[test]
fn good_rotation_age_keeps_the_file_sink() {
    let (sink, diag) = Logger::resolve_sink("file", "append", "h");
    assert_eq!(sink, SinkPlan::FileAppend(Rotation::Hourly));
    assert!(diag.is_none());

    let (sink, diag) = Logger::resolve_sink("file", "append", "0");
    assert_eq!(sink, SinkPlan::FileAppend(Rotation::Never));
    assert!(diag.is_none());
}

#[test]
fn init_plan_combines_level_and_sink() {
    let plan = Logger::init_plan("warn", "file", "append", "d");
    assert_eq!(plan.level, LogLevelFilter::Warn);
    assert_eq!(plan.sink, SinkPlan::FileAppend(Rotation::Daily));
    assert!(plan.fallback.is_none());

    let plan = Logger::init_plan("nonsense", "nowhere", "append", "0");
    assert_eq!(plan.level, LogLevelFilter::Info);
    assert_eq!(plan.sink, SinkPlan::Console);
    assert!(plan.fallback.is_some());
}

#[test]
fn warn_threshold_suppresses_application_events_below_warning() {
    let configured = Logger::get_level("warn");
    assert!(!Logger::event_enabled("pgmoneta_mcp", Severity::Trace, configured));
    assert!(!Logger::event_enabled("pgmoneta_mcp", Severity::Debug, configured));
    assert!(!Logger::event_enabled("pgmoneta_mcp", Severity::Info, configured));
    assert!(Logger::event_enabled("pgmoneta_mcp", Severity::Warn, configured));
    assert!(Logger::event_enabled("pgmoneta_mcp", Severity::Error, configured));
}

#[test]
fn dependency_events_keep_their_warning_cap_under_error_threshold() {
    let configured = Logger::get_level("error");
    assert!(Logger::event_enabled("tokio", Severity::Warn, configured));
    assert!(Logger::event_enabled("rmcp", Severity::Warn, configured));
    assert!(!Logger::event_enabled("tokio", Severity::Info, configured));
    assert!(!Logger::event_enabled("pgmoneta_mcp", Severity::Warn, configured));
}

#[test]
fn other_sources_are_suppressed_entirely() {
    let configured = Logger::get_level("trace");
    assert!(!Logger::event_enabled("hyper", Severity::Error, configured));
    assert!(!Logger::event_enabled("", Severity::Error, configured));
}

#[test]
fn filter_directives_list_the_three_targets() {
    let dirs = Logger::filter_directives(LogLevelFilter::Debug);
    assert_eq!(dirs.len(), 3);
    assert_eq!(dirs[0].0, "pgmoneta_mcp");
    assert_eq!(dirs[0].1, LogLevelFilter::Debug);
    assert_eq!(dirs[1].0, "tokio");
    assert_eq!(dirs[1].1, LogLevelFilter::Warn);
    assert_eq!(dirs[2].0, "rmcp");
    assert_eq!(dirs[2].1, LogLevelFilter::Warn);
}

#[test]
fn second_initialization_attempt_is_refused() {
    let (state, granted) = claim_init(BootstrapState::Uninitialized);
    assert_eq!(state, BootstrapState::Ready);
    assert!(granted);
    let (state, granted) = claim_init(state);
    assert_eq!(state, BootstrapState::Ready);
    assert!(!granted);
    let (state, granted) = claim_init(state);
    assert_eq!(state, BootstrapState::Ready);
    assert!(!granted);
}

#[test]
fn setup_error_messages() {
    let e = LoggingSetupError::InvalidLogType { given: "net".to_string() };
    assert_eq!(e.describe(), "Invalid log type: net");
    let e = LoggingSetupError::InvalidLogMode { given: "x".to_string() };
    assert_eq!(e.describe(), "Invalid log mode: x");
}
