use moodb::utils::debug::{DebugClient, DebugLevel};
use moodb::Configuration;

#[test]
fn test_debug() {
    let mut debug = DebugClient::new(true, None, Configuration::default(), true);

    for i in 0..100 {
        debug.log(format!("Debug index #{} out of #{}", i, 100));
    }

    assert_eq!(debug.enabled, true);
}

#[test]
fn debug_test_debug() {
    let mut debug =
        DebugClient::new(true, Some(DebugLevel::Info), Configuration::default(), true);

    for i in 0..100 {
        debug.log(format!("Debug index #{} out of #{}", i, 100));
    }

    assert_eq!(debug.enabled, true);
}

#[test]
fn default_configuration_is_as_documented() {
    let config = Configuration::default();
    assert_eq!(config.db_dir, "db/moo");
    assert_eq!(config.debug_mode, false);
    assert_eq!(config.debug_level, Some(DebugLevel::Info));
}

#[test]
fn log_path_is_debug_log_in_the_configured_directory() {
    let config = Configuration { db_dir: "some/where", debug_mode: true, debug_level: None };
    assert_eq!(DebugClient::log_path(&config), "some/where/debug.log");
    assert_eq!(DebugClient::log_path(&Configuration::default()), "db/moo/debug.log");
}

#[test]
fn sink_that_is_switched_off_has_no_file_and_records_nothing() {
    let mut sink = DebugClient::new(false, Some(DebugLevel::Error), Configuration::default(), true);
    assert_eq!(sink.enabled, false);
    assert_eq!(sink.level, DebugLevel::Error);
    assert_eq!(sink.path, None);
    sink.log("nothing".to_string());
    sink.record("now", "nothing");
    assert!(sink.lines.is_empty());
}

#[test]
fn sink_without_file_is_still_switched_on() {
    let mut sink = DebugClient::new(true, None, Configuration::default(), false);
    assert_eq!(sink.enabled, true);
    assert_eq!(sink.level, DebugLevel::Info);
    assert_eq!(sink.path, None);
    sink.record("t", "m");
    assert_eq!(sink.lines, vec!["[t] Info - m\n".to_string()]);
}

#[test]
fn sink_with_file_names_it() {
    let sink = DebugClient::new(true, Some(DebugLevel::Warning), Configuration::default(), true);
    assert_eq!(sink.path, Some("db/moo/debug.log".to_string()));
    assert_eq!(sink.level, DebugLevel::Warning);
    assert!(sink.lines.is_empty());
}

#[test]
fn entry_has_timestamp_level_and_message() {
    let info = DebugClient::new(true, None, Configuration::default(), true);
    assert_eq!(
        info.format("2024-01-02 03:04:05 +00:00", "Insert new record with key: 1"),
        "[2024-01-02 03:04:05 +00:00] Info - Insert new record with key: 1\n"
    );
    let warning = DebugClient::new(true, Some(DebugLevel::Warning), Configuration::default(), true);
    assert_eq!(warning.format("t", "m"), "[t] Warning - m\n");
    let error = DebugClient::new(true, Some(DebugLevel::Error), Configuration::default(), true);
    assert_eq!(error.format("", ""), "[] Error - \n");
}

#[test]
fn record_appends_in_order() {
    let mut sink = DebugClient::new(true, None, Configuration::default(), true);
    sink.record("1", "first");
    sink.record("2", "second");
    assert_eq!(sink.lines, vec!["[1] Info - first\n".to_string(), "[2] Info - second\n".to_string()]);
}

#[test]
fn log_stamps_the_entry_with_the_time() {
    let mut sink = DebugClient::new(true, None, Configuration::default(), true);
    sink.log("hello".to_string());
    assert_eq!(sink.lines.len(), 1);
    let line = &sink.lines[0];
    assert!(line.starts_with('['));
    assert!(line.ends_with("] Info - hello\n"));
    let stamp = &line[1..line.len() - "] Info - hello\n".len()];
    assert!(stamp.len() >= 19);
    assert!(stamp.starts_with("20"));
    assert_eq!(&stamp[4..5], "-");
    assert_eq!(&stamp[10..11], " ");
}

#[test]
fn take_lines_hands_out_and_forgets() {
    let mut sink = DebugClient::new(true, None, Configuration::default(), true);
    sink.record("1", "first");
    sink.record("2", "second");
    let lines = sink.take_lines();
    assert_eq!(lines, vec!["[1] Info - first\n".to_string(), "[2] Info - second\n".to_string()]);
    assert!(sink.lines.is_empty());
    assert!(sink.take_lines().is_empty());
    assert_eq!(sink.enabled, true);
}

#[test]
fn clone_keeps_sink_and_entries() {
    let mut sink = DebugClient::new(true, Some(DebugLevel::Error), Configuration::default(), true);
    sink.record("1", "first");
    let copy = sink.clone();
    assert_eq!(copy.enabled, sink.enabled);
    assert_eq!(copy.level, sink.level);
    assert_eq!(copy.path, sink.path);
    assert_eq!(copy.lines, sink.lines);
}
