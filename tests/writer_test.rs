use krossbar_log::rotation::{archive_path, RetentionPolicy, RotationState};
use krossbar_log::writer::{compose_line, format_line, Level, LogEvent, Writer};

fn event(message: &str) -> LogEvent {
    LogEvent {
        service_name: "svc".to_string(),
        pid: 42,
        timestamp_ms: 947638923004,
        level: Level::Info,
        target: "main".to_string(),
        message: message.to_string(),
    }
}

#[test]
fn line_format_with_given_time() {
    let line = compose_line("01-02-2003 04:05:06.007", &event("hello"));
    assert_eq!(line, "<01-02-2003 04:05:06.007> svc#42 [INFO] main > hello\n");
    let mut e = event("x");
    e.pid = 0;
    e.level = Level::Error;
    assert_eq!(compose_line("t", &e), "<t> svc#0 [ERROR] main > x\n");
}

#[test]
fn line_format_renders_timestamp() {
    let line = format_line(&event("hello")).unwrap();
    assert_eq!(line, "<12-01-2000 01:02:03.004> svc#42 [INFO] main > hello\n");
    let mut e = event("epoch");
    e.timestamp_ms = 0;
    e.level = Level::Warn;
    assert_eq!(format_line(&e).unwrap(), "<01-01-1970 00:00:00.000> svc#42 [WARN] main > epoch\n");
}

#[test]
fn level_names() {
    assert_eq!(Level::Debug.as_str(), "DEBUG");
    assert_eq!(Level::Trace.as_str(), "TRACE");
}

#[test]
fn rotation_threshold_resets_counter() {
    let mut state = RotationState::new(10);
    assert!(!state.record_append(4));
    assert_eq!(state.current_byte_count(), 4);
    assert!(state.record_append(6));
    assert_eq!(state.current_byte_count(), 0);
    assert!(!state.record_append(3));
    assert_eq!(state.current_byte_count(), 3);
    assert!(state.record_append(u64::MAX));
    assert_eq!(state.current_byte_count(), 0);
}

#[test]
fn zero_threshold_rotates_every_line() {
    let mut state = RotationState::new(0);
    assert!(state.record_append(0));
    assert!(state.record_append(5));
    assert_eq!(state.current_byte_count(), 0);
}

#[test]
fn retention_keeps_most_recent() {
    let mut policy = RetentionPolicy::new(2);
    let p0 = policy.rotate();
    assert_eq!(p0.archive_seq, 0);
    assert!(p0.pruned.is_empty());
    let p1 = policy.rotate();
    assert_eq!(p1.archive_seq, 1);
    assert!(p1.pruned.is_empty());
    let p2 = policy.rotate();
    assert_eq!(p2.archive_seq, 2);
    assert_eq!(p2.pruned, vec![0]);
    let p3 = policy.rotate();
    assert_eq!(p3.pruned, vec![1]);
}

#[test]
fn retention_of_zero_prunes_immediately() {
    let mut policy = RetentionPolicy::new(0);
    let p = policy.rotate();
    assert_eq!(p.archive_seq, 0);
    assert_eq!(p.pruned, vec![0]);
}

#[test]
fn archive_paths_are_numbered() {
    assert_eq!(archive_path(&"karo.log".to_string(), 0), "karo.log.0");
    assert_eq!(archive_path(&"karo.log".to_string(), 1234567890), "karo.log.1234567890");
    assert_eq!(archive_path(&"/var/log/x".to_string(), u64::MAX), "/var/log/x.18446744073709551615");
}

#[test]
fn writer_rotates_when_threshold_reached() {
    let line_len = compose_line("12-01-2000 01:02:03.004", &event("hello")).len() as u64;
    let mut writer = Writer::new("karo.log".to_string(), 2 * line_len, 1);
    let s1 = writer.log_message(&event("hello")).unwrap();
    assert_eq!(s1.line, "<12-01-2000 01:02:03.004> svc#42 [INFO] main > hello\n");
    assert!(s1.rotation.is_none());
    let s2 = writer.log_message(&event("hello")).unwrap();
    let r2 = s2.rotation.unwrap();
    assert_eq!(r2.archived_path, "karo.log.0");
    assert!(r2.deleted_paths.is_empty());
    let s3 = writer.log_message(&event("hello")).unwrap();
    assert!(s3.rotation.is_none());
    let s4 = writer.log_message(&event("hello")).unwrap();
    let r4 = s4.rotation.unwrap();
    assert_eq!(r4.archived_path, "karo.log.1");
    assert_eq!(r4.deleted_paths, vec!["karo.log.0".to_string()]);
}

#[test]
fn timestamp_outside_chrono_range_is_refused() {
    let mut e = event("far");
    e.timestamp_ms = i64::MIN;
    assert_eq!(format_line(&e), None);
    let mut writer = Writer::new("karo.log".to_string(), 10, 1);
    assert!(writer.log_message(&e).is_none());
    e.timestamp_ms = -8_334_601_228_800_000;
    assert!(format_line(&e).is_some());
    e.timestamp_ms = 8_210_266_876_799_999;
    assert!(format_line(&e).is_some());
    e.timestamp_ms = -8_334_601_228_800_001;
    assert_eq!(format_line(&e), None);
    e.timestamp_ms = 8_210_266_876_800_000;
    assert_eq!(format_line(&e), None);
}
