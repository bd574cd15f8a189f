use weld_jni::log_level::{log_level_from_name, LogControl, LogLevel};

#[test]
fn level_names_ignore_case() {
    assert_eq!(log_level_from_name("ERROR"), Some(LogLevel::Error));
    assert_eq!(log_level_from_name("Warn"), Some(LogLevel::Warn));
    assert_eq!(log_level_from_name("info"), Some(LogLevel::Info));
    assert_eq!(log_level_from_name("DeBuG"), Some(LogLevel::Debug));
    assert_eq!(log_level_from_name("trace"), Some(LogLevel::Trace));
    assert_eq!(log_level_from_name("OFF"), Some(LogLevel::Off));
}

#[test]
fn unknown_level_names() {
    assert_eq!(log_level_from_name("verbose"), None);
    assert_eq!(log_level_from_name(""), None);
    assert_eq!(log_level_from_name("errors"), None);
    assert_eq!(log_level_from_name(" info"), None);
}

#[test]
fn unknown_level_leaves_current() {
    let mut c = LogControl::new(LogLevel::Info);
    assert_eq!(c.set_log_level("loud"), None);
    assert_eq!(c.level, LogLevel::Info);
    assert_eq!(c.set_log_level("TRACE"), Some(LogLevel::Trace));
    assert_eq!(c.level, LogLevel::Trace);
    assert_eq!(c.set_log_level("nonsense"), None);
    assert_eq!(c.level, LogLevel::Trace);
}
