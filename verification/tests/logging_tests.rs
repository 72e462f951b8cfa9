use docker_direct::logging::{level_from_name, parse_log_level, LogLevel};

#[test]
fn log_level_names_are_known() {
    assert_eq!(parse_log_level("error").unwrap(), LogLevel::Error);
    assert_eq!(parse_log_level("warn").unwrap(), LogLevel::Warn);
    assert_eq!(parse_log_level("info").unwrap(), LogLevel::Info);
    assert_eq!(parse_log_level("debug").unwrap(), LogLevel::Debug);
    assert_eq!(parse_log_level("trace").unwrap(), LogLevel::Trace);
}

#[test]
fn log_level_ignores_case() {
    assert_eq!(parse_log_level("ERROR").unwrap(), LogLevel::Error);
    assert_eq!(parse_log_level("Warn").unwrap(), LogLevel::Warn);
    assert_eq!(parse_log_level("dEbUg").unwrap(), LogLevel::Debug);
    assert_eq!(parse_log_level("TRACE").unwrap(), LogLevel::Trace);
}

#[test]
fn unknown_log_level_is_info() {
    assert_eq!(parse_log_level("").unwrap(), LogLevel::Info);
    assert_eq!(parse_log_level("verbose").unwrap(), LogLevel::Info);
    assert_eq!(parse_log_level(" debug").unwrap(), LogLevel::Info);
    assert!(parse_log_level("anything").is_ok());
}

#[test]
fn level_names_must_be_lower_case() {
    assert_eq!(level_from_name("debug"), LogLevel::Debug);
    assert_eq!(level_from_name("DEBUG"), LogLevel::Info);
    assert_eq!(level_from_name("error"), LogLevel::Error);
    assert_eq!(level_from_name("errors"), LogLevel::Info);
}
