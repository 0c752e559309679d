use futures_diagnose::absolute_time::duration_nanos;
use futures_diagnose::output::{archive_file_name, OutputState, WriteAction, LOGS_ROTATION_NS};
use std::time::Duration;

#[test]
fn rotation_every_interval() {
    let mut out = OutputState::new(42, 0, 100);
    assert_eq!(out.write_record(10, b"a"), WriteAction::Append);
    assert_eq!(out.write_record(99, b"b"), WriteAction::Append);
    assert_eq!(out.write_record(100, b"c"), WriteAction::Rotate { archive_name: b"profile.42.0.json".to_vec() });
    assert_eq!(out.write_record(150, b"d"), WriteAction::Append);
    assert_eq!(out.write_record(450, b"e"), WriteAction::Rotate { archive_name: b"profile.42.1.json".to_vec() });
    assert_eq!(out.write_record(451, b"f"), WriteAction::Rotate { archive_name: b"profile.42.2.json".to_vec() });
    assert_eq!(out.write_record(452, b"g"), WriteAction::Rotate { archive_name: b"profile.42.3.json".to_vec() });
    assert_eq!(out.write_record(499, b"h"), WriteAction::Append);
}

#[test]
fn archive_names() {
    assert_eq!(archive_file_name(0, 0), b"profile.0.0.json".to_vec());
    assert_eq!(archive_file_name(u32::MAX, 17), b"profile.4294967295.17.json".to_vec());
}

#[test]
fn rotation_interval_is_thirty_seconds() {
    assert_eq!(LOGS_ROTATION_NS, 30 * 1_000_000_000);
}

#[test]
fn duration_in_nanoseconds() {
    assert_eq!(duration_nanos(0, 0), 0);
    assert_eq!(duration_nanos(2, 500), 2_000_000_500);
    assert_eq!(duration_nanos(u64::MAX / 1_000_000_000, 999_999_999), u64::MAX);
    assert_eq!(duration_nanos(u64::MAX, 0), u64::MAX);
}

#[test]
fn duration_parts_in_nanoseconds() {
    let d = Duration::new(3, 7);
    assert_eq!(duration_nanos(d.as_secs(), d.subsec_nanos()), 3_000_000_007);
}
