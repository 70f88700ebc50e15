use log2jaeger::{
    convert_to_jaeger, convert_with_times, count_uncorrelated, create_tags, hex16, normalize_trace_id, parse_timestamp,
    ConvertError, JaegerTrace, LogEntry,
};

const TS: &str = "2025-06-28 14:32:15.123456 +0700";
const TS_MICROS: i64 = 1751095935123456;

fn entry(
    timestamp: &str,
    message: &str,
    request_id: Option<&str>,
    service_name: Option<&str>,
    err: Option<&str>,
    tag: Option<&str>,
) -> LogEntry {
    LogEntry {
        timestamp: timestamp.to_string(),
        severity: "INFO".to_string(),
        message: message.to_string(),
        request_id: request_id.map(|s| s.to_string()),
        service_name: service_name.map(|s| s.to_string()),
        err: err.map(|s| s.to_string()),
        tag: tag.map(|s| s.to_string()),
    }
}

fn simple(message: &str, request_id: Option<&str>) -> LogEntry {
    entry(TS, message, request_id, None, None, None)
}

fn ok(r: Result<Vec<JaegerTrace>, ConvertError>) -> Vec<JaegerTrace> {
    match r {
        Ok(t) => t,
        Err(ConvertError::MalformedTimestamp(raw)) => panic!("unexpected malformed timestamp {}", raw),
    }
}

fn operations(t: &JaegerTrace) -> Vec<String> {
    t.spans.iter().map(|s| s.operation_name.clone()).collect()
}

#[test]
fn hex16_pads_to_sixteen_lowercase_digits() {
    assert_eq!(hex16(0), "0000000000000000");
    assert_eq!(hex16(1), "0000000000000001");
    assert_eq!(hex16(255), "00000000000000ff");
    assert_eq!(hex16(0xabcdef0123456789), "abcdef0123456789");
    assert_eq!(hex16(u64::MAX), "ffffffffffffffff");
}

#[test]
fn trace_id_drops_hyphens_and_underscores() {
    assert_eq!(normalize_trace_id("abc-123_xyz"), "abc123xyz");
    assert_eq!(normalize_trace_id("plain"), "plain");
    assert_eq!(normalize_trace_id("-_-"), "");
    assert_eq!(normalize_trace_id(""), "");
}

#[test]
fn timestamp_parses_to_pinned_micros() {
    match parse_timestamp(TS) {
        Ok(us) => assert_eq!(us, TS_MICROS),
        Err(_) => panic!("timestamp should parse"),
    }
    match parse_timestamp("2025-06-28 07:32:15.123456 +0000") {
        Ok(us) => assert_eq!(us, TS_MICROS),
        Err(_) => panic!("timestamp should parse"),
    }
}

#[test]
fn malformed_timestamp_reports_raw_text() {
    match parse_timestamp("28/06/2025 14:32") {
        Ok(_) => panic!("timestamp should not parse"),
        Err(ConvertError::MalformedTimestamp(raw)) => assert_eq!(raw, "28/06/2025 14:32"),
    }
}

#[test]
fn tags_without_error() {
    let e = simple("hello", Some("r"));
    let tags = create_tags(&e);
    assert_eq!(tags.len(), 2);
    assert_eq!((tags[0].key.as_str(), tags[0].tag_type.as_str(), tags[0].value.as_str()), ("severity", "string", "INFO"));
    assert_eq!((tags[1].key.as_str(), tags[1].tag_type.as_str(), tags[1].value.as_str()), ("message", "string", "hello"));
}

#[test]
fn tags_with_error() {
    let e = entry(TS, "boom", Some("r"), None, Some("disk full"), None);
    let tags = create_tags(&e);
    assert_eq!(tags.len(), 4);
    assert_eq!(tags[0].key, "severity");
    assert_eq!(tags[1].key, "message");
    assert_eq!((tags[2].key.as_str(), tags[2].tag_type.as_str(), tags[2].value.as_str()), ("error", "bool", "true"));
    assert_eq!(
        (tags[3].key.as_str(), tags[3].tag_type.as_str(), tags[3].value.as_str()),
        ("error.message", "string", "disk full")
    );
}

#[test]
fn group_keeps_count_and_input_order() {
    let logs = vec![
        simple("a1", Some("a")),
        simple("b1", Some("b")),
        simple("a2", Some("a")),
        simple("none", None),
        simple("a3", Some("a")),
    ];
    let traces = ok(convert_to_jaeger(&logs));
    assert_eq!(traces.len(), 2);
    assert_eq!(traces[0].trace_id, "a");
    assert_eq!(operations(&traces[0]), vec!["a1", "a2", "a3"]);
    assert_eq!(traces[1].trace_id, "b");
    assert_eq!(operations(&traces[1]), vec!["b1"]);
}

#[test]
fn parent_chain_is_linear() {
    let logs = vec![simple("x", Some("r")), simple("y", Some("r")), simple("z", Some("r"))];
    let traces = ok(convert_to_jaeger(&logs));
    let spans = &traces[0].spans;
    assert_eq!(spans[0].span_id, "0000000000000001");
    assert_eq!(spans[0].parent_span_id, None);
    assert_eq!(spans[1].span_id, "0000000000000002");
    assert_eq!(spans[1].parent_span_id.as_deref(), Some("0000000000000001"));
    assert_eq!(spans[2].span_id, "0000000000000003");
    assert_eq!(spans[2].parent_span_id.as_deref(), Some("0000000000000002"));
    for s in spans {
        assert_eq!(s.trace_id, "r");
        assert_eq!(s.duration, 1000);
        assert_eq!(s.start_time, TS_MICROS);
    }
}

#[test]
fn uncorrelated_entries_are_left_out() {
    let logs = vec![
        entry(TS, "lonely", None, Some("svc"), Some("bad"), Some("op")),
        simple("kept", Some("k")),
        simple("also lonely", None),
    ];
    let traces = ok(convert_to_jaeger(&logs));
    assert_eq!(traces.len(), 1);
    assert_eq!(operations(&traces[0]), vec!["kept"]);
    assert_eq!(traces[0].processes.len(), 1);
    assert_eq!(traces[0].processes[0].0, "punknown");
}

#[test]
fn only_uncorrelated_entries_give_no_trace() {
    let logs = vec![simple("a", None), simple("b", None)];
    assert!(ok(convert_to_jaeger(&logs)).is_empty());
    assert!(ok(convert_to_jaeger(&[])).is_empty());
}

#[test]
fn one_process_per_service() {
    let logs = vec![
        entry(TS, "m1", Some("r"), Some("auth"), None, None),
        entry(TS, "m2", Some("r"), Some("db"), None, None),
        entry(TS, "m3", Some("r"), Some("auth"), None, None),
        entry(TS, "m4", Some("r"), None, None, None),
    ];
    let traces = ok(convert_to_jaeger(&logs));
    let t = &traces[0];
    let keys: Vec<&str> = t.processes.iter().map(|p| p.0.as_str()).collect();
    assert_eq!(keys, vec!["pauth", "pdb", "punknown"]);
    let services: Vec<&str> = t.processes.iter().map(|p| p.1.service_name.as_str()).collect();
    assert_eq!(services, vec!["auth", "db", "unknown"]);
    assert!(t.processes.iter().all(|p| p.1.tags.is_empty()));
    let ids: Vec<&str> = t.spans.iter().map(|s| s.process_id.as_str()).collect();
    assert_eq!(ids, vec!["pauth", "pdb", "pauth", "punknown"]);
}

#[test]
fn operation_name_prefers_non_empty_tag() {
    let logs = vec![
        entry(TS, "msg1", Some("r"), None, None, Some("op")),
        entry(TS, "msg2", Some("r"), None, None, Some("")),
        entry(TS, "msg3", Some("r"), None, None, None),
    ];
    let traces = ok(convert_to_jaeger(&logs));
    assert_eq!(operations(&traces[0]), vec!["op", "msg2", "msg3"]);
}

#[test]
fn end_to_end_two_entries() {
    let logs = vec![
        entry(TS, "user login", Some("req-1"), Some("auth"), None, Some("login")),
        entry(TS, "request failed", Some("req-1"), None, Some("timeout"), None),
    ];
    let traces = ok(convert_to_jaeger(&logs));
    assert_eq!(traces.len(), 1);
    let t = &traces[0];
    assert_eq!(t.trace_id, "req1");
    assert_eq!(t.spans.len(), 2);
    assert_eq!(t.spans[0].operation_name, "login");
    assert_eq!(t.spans[1].operation_name, "request failed");
    assert_eq!(t.spans[0].tags.len(), 2);
    let tags = &t.spans[1].tags;
    assert_eq!(tags.len(), 4);
    let keys: Vec<&str> = tags.iter().map(|g| g.key.as_str()).collect();
    assert_eq!(keys, vec!["severity", "message", "error", "error.message"]);
    assert_eq!(tags[2].value, "true");
    assert_eq!(tags[2].tag_type, "bool");
    assert_eq!(tags[3].value, "timeout");
    let pkeys: Vec<&str> = t.processes.iter().map(|p| p.0.as_str()).collect();
    assert_eq!(pkeys, vec!["pauth", "punknown"]);
}

#[test]
fn malformed_timestamp_fails_whole_batch() {
    let logs = vec![
        simple("fine", Some("a")),
        entry("not a time", "bad", Some("b"), None, None, None),
        entry("also bad", "bad2", Some("a"), None, None, None),
    ];
    match convert_to_jaeger(&logs) {
        Ok(_) => panic!("conversion should fail"),
        Err(ConvertError::MalformedTimestamp(raw)) => assert_eq!(raw, "not a time"),
    }
}

#[test]
fn malformed_timestamp_of_uncorrelated_entry_is_ignored() {
    let logs = vec![entry("garbage", "skip", None, None, None, None), simple("fine", Some("a"))];
    let traces = ok(convert_to_jaeger(&logs));
    assert_eq!(traces.len(), 1);
    assert_eq!(traces[0].spans[0].start_time, TS_MICROS);
}

#[test]
fn given_times_become_start_times() {
    let logs = vec![simple("a", Some("x")), simple("b", None), simple("c", Some("x"))];
    let traces = ok(convert_with_times(&logs, &[Some(10), None, Some(-5)]));
    assert_eq!(traces[0].spans[0].start_time, 10);
    assert_eq!(traces[0].spans[1].start_time, -5);
    match convert_with_times(&logs, &[Some(10), None, None]) {
        Ok(_) => panic!("conversion should fail"),
        Err(ConvertError::MalformedTimestamp(raw)) => assert_eq!(raw, TS),
    }
}

#[test]
fn traces_follow_first_appearance() {
    let logs = vec![
        simple("1", Some("z_9")),
        simple("2", Some("a-1")),
        simple("3", Some("z_9")),
        simple("4", Some("m")),
    ];
    let traces = ok(convert_to_jaeger(&logs));
    let ids: Vec<&str> = traces.iter().map(|t| t.trace_id.as_str()).collect();
    assert_eq!(ids, vec!["z9", "a1", "m"]);
}

#[test]
fn uncorrelated_entries_are_counted() {
    let logs = vec![simple("a", None), simple("b", Some("x")), simple("c", None)];
    assert_eq!(count_uncorrelated(&logs), 2);
    assert_eq!(count_uncorrelated(&[]), 0);
}
