use futures_diagnose::log_out::{is_enabled, log_poll, log_wake_up};
use futures_diagnose::logger;
use futures_diagnose::record::{encode_record, push_decimal, serialize_record, BindingPoint, Category, Phase, Record};

fn rec(ph: Phase, ts: u64, id: Option<u64>, bp: Option<BindingPoint>) -> Record {
    Record { cat: Category::Polling, name: "t".to_string(), ph, pid: 0, tid: 3, ts, dur: None, id, bp }
}

#[test]
fn single_resume_that_completes_has_no_flow_record() {
    let r = log_poll("t", 5, 3, 2_500, 7_999, true, true);
    assert_eq!(r, vec![rec(Phase::Begin, 2, None, None), rec(Phase::End, 7, None, None)]);
}

#[test]
fn first_resume_flow_starts_at_span_end() {
    let r = log_poll("t", 5, 3, 1_000, 4_000, true, false);
    assert_eq!(r[2], rec(Phase::FlowStart, 4, Some(5), Some(BindingPoint::Enclosing)));
    assert_eq!(r.len(), 3);
}

#[test]
fn middle_and_last_resume_flows_at_span_start() {
    let r = log_poll("t", 5, 3, 10_000, 20_000, false, false);
    assert_eq!(r[2], rec(Phase::FlowStep, 10, Some(5), Some(BindingPoint::Enclosing)));
    let r = log_poll("t", 5, 3, 30_000, 40_000, false, true);
    assert_eq!(r[2], rec(Phase::FlowEnd, 30, Some(5), Some(BindingPoint::Enclosing)));
}

#[test]
fn wake_up_record_is_an_instant() {
    let r = log_wake_up("w", 9, 2, 123_456_789);
    assert_eq!(r, Record { cat: Category::Wakeup, name: "w".to_string(), ph: Phase::Instant, pid: 0, tid: 2, ts: 123_456, dur: None, id: None, bp: None });
}

#[test]
fn enabled_only_with_a_directory() {
    assert!(!is_enabled(&None));
    assert!(is_enabled(&Some("/tmp/profile".to_string())));
}

#[test]
fn decimal_digits() {
    let mut v = Vec::new();
    push_decimal(&mut v, 0);
    assert_eq!(v, b"0".to_vec());
    let mut v = Vec::new();
    push_decimal(&mut v, u64::MAX);
    assert_eq!(v, b"18446744073709551615".to_vec());
}

#[test]
fn encode_record_exact_text() {
    let r = rec(Phase::FlowStart, 4, Some(5), Some(BindingPoint::Enclosing));
    let out = encode_record(&r, b"\"t\"");
    assert_eq!(
        String::from_utf8(out).unwrap(),
        "{\"cat\":\"polling\",\"name\":\"t\",\"ph\":\"s\",\"pid\":0,\"tid\":3,\"ts\":4,\"id\":5,\"bp\":\"e\",\"arg\":null}"
    );
}

#[test]
fn serialize_record_escapes_the_name() {
    let mut r = rec(Phase::Begin, 1, None, None);
    r.name = "a\"b\\c\n".to_string();
    let out = serialize_record(&r).unwrap();
    assert_eq!(
        String::from_utf8(out).unwrap(),
        "{\"cat\":\"polling\",\"name\":\"a\\\"b\\\\c\\n\",\"ph\":\"B\",\"pid\":0,\"tid\":3,\"ts\":1,\"arg\":null},\n"
    );
}

#[test]
fn serialized_records_parse_back() {
    let r = Record { cat: Category::Polling, name: "é x".to_string(), ph: Phase::Complete, pid: 0, tid: 1, ts: 10, dur: Some(20), id: None, bp: None };
    let out = serialize_record(&r).unwrap();
    let text = String::from_utf8(out).unwrap();
    let body = text.strip_suffix(",\n").unwrap();
    let v: serde_json::Value = serde_json::from_str(body).unwrap();
    assert_eq!(v["cat"], "polling");
    assert_eq!(v["name"], "é x");
    assert_eq!(v["ph"], "X");
    assert_eq!(v["ts"], 10);
    assert_eq!(v["dur"], 20);
    assert!(v["arg"].is_null());
    assert!(v.get("id").is_none());
}

#[test]
fn logger_resume_records() {
    let r = logger::log_out::log_poll("t", 5, 3, 1_000, 6_000, false, false);
    assert_eq!(r.len(), 3);
    assert_eq!(r[0].ph, Phase::FlowEnd);
    assert_eq!(r[0].ts, 1);
    assert_eq!(r[1].ph, Phase::Complete);
    assert_eq!(r[1].dur, Some(5));
    assert_eq!(r[2].ph, Phase::FlowStart);
    assert_eq!(r[2].ts, 6);
    let only = logger::log_out::log_poll("t", 5, 3, 1_000, 6_000, true, true);
    assert_eq!(only.len(), 1);
    assert_eq!(only[0].ph, Phase::Complete);
}

#[test]
fn logger_wake_up_matches_main_variant() {
    assert_eq!(logger::log_out::log_wake_up("w", 1, 2, 5_000), log_wake_up("w", 1, 2, 5_000));
}

#[test]
fn serialize_record_escapes_control_characters() {
    let mut r = rec(Phase::End, 2, None, None);
    r.name = "\u{1}\t\u{8}\u{c}\r\u{1f}/".to_string();
    let out = String::from_utf8(serialize_record(&r).unwrap()).unwrap();
    assert!(out.contains("\"name\":\"\\u0001\\t\\b\\f\\r\\u001f/\""), "{}", out);
}
