use fp::logs::{contains_logs, parse_log_events, parse_logs, parse_logs_at, LogGroups, LogRecord};
use fp::timestamps::{parse_timestamp, Timestamp};
use std::collections::HashMap;
use time::format_description::well_known::Rfc3339;
use time::OffsetDateTime;

/// Unix timestamps with a fractional part, as the command line front end
/// parses them (floating point).
fn float_seconds(s: &str) -> Option<i128> {
    let f: f64 = s.parse().ok()?;
    if f.is_nan() {
        return None;
    }
    let nanos = f * 1_000_000_000f64;
    OffsetDateTime::from_unix_timestamp_nanos(nanos as i128)
        .ok()
        .map(|t| t.unix_timestamp_nanos())
}

fn group<'a>(logs: &'a LogGroups, key: &str) -> Vec<&'a LogRecord> {
    for i in 0..logs.len() {
        if logs.key(i) == key {
            return (0..logs.group_len(i)).map(|j| logs.record(i, j)).collect();
        }
    }
    panic!("no group {}", key)
}

fn field_map(m: &fp::fields::FieldMap) -> HashMap<String, String> {
    (0..m.len()).map(|i| m.entry(i)).collect()
}

fn utc(s: &str) -> Timestamp {
    let t = OffsetDateTime::parse(s, &Rfc3339).unwrap();
    Timestamp { unix_nanos: t.unix_timestamp_nanos(), offset_seconds: 0 }
}

#[test]
fn parse_logs_json_logs() {
    let logs = r#"{"ts": "2018-01-01T00:00:00.000Z", "body": "test"}
        {"timestamp": "1657619253", "message": "hello", "trace_id": "123", "thing": 1, "host.name": "blah"}"#;
    let logs = parse_logs(logs, &float_seconds);
    assert_eq!(logs.len(), 2);
    assert_eq!(group(&logs, "2018-01-01T00:00:00Z")[0].body, "test");
    assert_eq!(group(&logs, "2022-07-12T09:47:33Z")[0].body, "hello");
    assert_eq!(
        group(&logs, "2022-07-12T09:47:33Z")[0].trace_id,
        Some("123".to_string())
    );
    assert_eq!(field_map(&group(&logs, "2022-07-12T09:47:33Z")[0].attributes)["thing"], "1");
    assert_eq!(
        field_map(&group(&logs, "2022-07-12T09:47:33Z")[0].resource)["host.name"],
        "blah"
    );
}

#[test]
fn parse_logs_nginx_logs() {
    let logs = r#"
192.0.7.128 - - [11/Jul/2022:13:04:26 +0000] "GET / HTTP/1.1" 200 472 "-" "ELB-HealthChecker/2.0" "-"
192.0.6.198 - - [11/Jul/2022:13:04:27 +0000] "GET / HTTP/1.1" 200 472 "-" "ELB-HealthChecker/2.0" "-""#;
    let logs = parse_logs(logs, &float_seconds);
    assert_eq!(logs.len(), 2);
    let mut attributes: HashMap<String, String> = [
        ("auth", "-"),
        ("referrer", "-"),
        ("ident", "-"),
        ("clientip", "192.0.7.128"),
        ("verb", "GET"),
        ("agent", "ELB-HealthChecker/2.0"),
        ("response", "200"),
        ("bytes", "472"),
        ("httpversion", "1.1"),
        ("request", "/"),
    ]
    .iter()
    .map(|(k, v)| (k.to_string(), v.to_string()))
    .collect();
    assert_eq!(field_map(&group(&logs, "2022-07-11T13:04:26Z")[0].attributes), attributes);

    *attributes.get_mut("clientip").unwrap() = "192.0.6.198".to_string();
    assert_eq!(field_map(&group(&logs, "2022-07-11T13:04:27Z")[0].attributes), attributes);
}

#[test]
fn parse_logs_github_action_logs() {
    let logs = "
build   Set up job      2022-07-11T15:12:28.2324317Z Packages: write
build   Set up job      2022-07-11T15:12:28.2324660Z Pages: write
build   Set up job      2022-07-11T15:12:28.2325020Z PullRequests: write";
    let logs = parse_logs(logs, &float_seconds);
    assert_eq!(logs.len(), 3);
    assert_eq!(
        group(&logs, "2022-07-11T15:12:28.2324317Z")[0].timestamp as f32,
        1657552348.2324317
    );
    assert_eq!(
        group(&logs, "2022-07-11T15:12:28.2324317Z")[0].body,
        "Packages: write"
    );
    assert_eq!(
        field_map(&group(&logs, "2022-07-11T15:12:28.2324317Z")[0].attributes)["job"],
        "build"
    );
    assert_eq!(
        field_map(&group(&logs, "2022-07-11T15:12:28.2324317Z")[0].attributes)["step"],
        "Set up job"
    );
}

#[test]
fn parse_logs_no_timestamps() {
    let logs = r#"
/docker-entrypoint.sh: Launching /docker-entrypoint.d/20-envsubst-on-templates.sh
/docker-entrypoint.sh: Launching /docker-entrypoint.d/30-tune-worker-processes.sh
/docker-entrypoint.sh: Configuration complete; ready for start up"#;
    let logs = parse_logs(logs, &float_seconds);
    assert_eq!(logs.len(), 1);
    assert_eq!(logs.group_len(0), 3);
}

#[test]
fn parse_logs_lines_without_timestamps() {
    let logs = r#"
/docker-entrypoint.sh: Launching /docker-entrypoint.d/20-envsubst-on-templates.sh
/docker-entrypoint.sh: Launching /docker-entrypoint.d/30-tune-worker-processes.sh
/docker-entrypoint.sh: Configuration complete; ready for start up
192.0.7.128 - - [11/Jul/2022:13:04:26 +0000] "GET / HTTP/1.1" 200 472 "-" "ELB-HealthChecker/2.0" "-"
192.0.6.198 - - [11/Jul/2022:13:04:26 +0000] "GET / HTTP/1.1" 200 472 "-" "ELB-HealthChecker/2.0" "-""#;
    let logs = parse_logs(logs, &float_seconds);
    assert_eq!(group(&logs, "2022-07-11T13:04:26Z").len(), 5);
    assert_eq!(
        group(&logs, "2022-07-11T13:04:26Z")[0].body,
        "/docker-entrypoint.sh: Launching /docker-entrypoint.d/20-envsubst-on-templates.sh"
    );
    assert_eq!(
        group(&logs, "2022-07-11T13:04:26Z")[1].body,
        "/docker-entrypoint.sh: Launching /docker-entrypoint.d/30-tune-worker-processes.sh"
    );
}

#[test]
fn plain_lines_after_a_log_line_are_stored_once() {
    let logs = "{\"ts\": \"2018-01-01T00:00:00Z\", \"msg\": \"a\"}\nplain\n{\"ts\": \"2018-01-01T00:00:01Z\", \"msg\": \"b\"}";
    let now = utc("2030-01-01T00:00:00Z");
    let logs = parse_logs_at(logs, now, &float_seconds);
    assert_eq!(logs.len(), 2);
    let first: Vec<_> = group(&logs, "2018-01-01T00:00:00Z").iter().map(|r| r.body.clone()).collect();
    let second: Vec<_> = group(&logs, "2018-01-01T00:00:01Z").iter().map(|r| r.body.clone()).collect();
    assert_eq!(first, vec!["a", "plain"]);
    assert_eq!(second, vec!["b"]);
    assert_eq!(group(&logs, "2018-01-01T00:00:00Z")[1].timestamp, 1514764800);
}

#[test]
fn no_timestamps_go_under_now() {
    let now = utc("2030-01-01T00:00:00Z");
    let logs = parse_logs_at("x\n  \ny\n", now, &float_seconds);
    assert_eq!(logs.len(), 1);
    assert_eq!(logs.key(0), "2030-01-01T00:00:00Z");
    let bodies: Vec<_> = group(&logs, "2030-01-01T00:00:00Z").iter().map(|r| r.body.clone()).collect();
    assert_eq!(bodies, vec!["x", "y"]);
    assert_eq!(group(&logs, "2030-01-01T00:00:00Z")[0].timestamp, 1893456000);
}

#[test]
fn nested_json_is_flattened() {
    let line = r#"{"ts": "2018-01-01T00:00:00Z", "a": {"b": [true, null, 2.5]}, "span.id": "s", "container.labels": "l", "service.name": "svc"}"#;
    let logs = parse_logs(line, &float_seconds);
    let rec = group(&logs, "2018-01-01T00:00:00Z")[0];
    let attributes = field_map(&rec.attributes);
    assert_eq!(attributes["a.b[0]"], "true");
    assert_eq!(attributes["a.b[1]"], "");
    assert_eq!(attributes["a.b[2]"], "2.5");
    assert_eq!(attributes["container.labels"], "l");
    assert_eq!(field_map(&rec.resource)["service.name"], "svc");
    assert_eq!(rec.span_id, Some("s".to_string()));
    assert_eq!(rec.body, "");
}

#[test]
fn contains_logs_detects_log_lines() {
    assert!(contains_logs("hello\n{\"ts\": \"2018-01-01T00:00:00Z\"}\n", &float_seconds));
    assert!(!contains_logs("hello\nworld\n", &float_seconds));
    assert!(!contains_logs("", &float_seconds));
}

#[test]
fn rfc3339() {
    let timestamp = parse_timestamp("2022-07-11T10:56:04.2324317Z", &float_seconds);
    assert_eq!(timestamp, Some(utc("2022-07-11T10:56:04.2324317Z")));
}

#[test]
fn iso8601() {
    let timestamp = parse_timestamp("20220711T105604Z", &float_seconds);
    assert_eq!(timestamp, Some(utc("2022-07-11T10:56:04Z")));
}

#[test]
fn rfc2822() {
    let timestamp = parse_timestamp("Tue, 11 Jul 2022 10:56:04 GMT", &float_seconds);
    assert_eq!(timestamp, Some(utc("2022-07-11T10:56:04Z")));
}

#[test]
fn nginx() {
    let timestamp = parse_timestamp("11/Jul/2022:10:56:04 +0000", &float_seconds);
    assert_eq!(timestamp, Some(utc("2022-07-11T10:56:04Z")));
}

#[test]
fn unix_float_string() {
    let timestamp = parse_timestamp("1657536964.123456", &float_seconds);
    assert_eq!(timestamp, Some(utc("2022-07-11T10:56:04.123456Z")));
}

#[test]
fn not_a_timestamp() {
    assert_eq!(parse_timestamp("yesterday", &float_seconds), None);
}

#[test]
fn unix() {
    let timestamp = parse_timestamp("1657536964", &float_seconds);
    assert_eq!(timestamp, Some(utc("2022-07-11T10:56:04Z")));
}

#[test]
fn unix_float() {
    // a JSON number is flattened to its text before it is parsed
    let value = serde_json::Value::from(1657536964.123456f64).to_string();
    let timestamp = parse_timestamp(&value, &float_seconds);
    assert_eq!(timestamp, Some(utc("2022-07-11T10:56:04.123456Z")));
}

#[test]
fn log_events_json_logs() {
    let logs = r#"{"ts": "2018-01-01T00:00:00.000Z", "body": "test"}
        {"timestamp": "1657619253", "message": "hello", "trace_id": "123", "thing": 1, "host.name": "blah"}"#;
    let now = utc("2030-01-01T00:00:00Z");
    let events = parse_log_events(logs, now, &float_seconds);
    assert_eq!(events.len(), 2);
    assert_eq!(events[0].body, "test");
    assert_eq!(events[0].timestamp, 1514764800);
    assert_eq!(events[1].body, "hello");
    assert_eq!(events[1].timestamp, 1657619253);
    assert_eq!(field_map(&events[1].resource)["host.name"], "blah");
}

#[test]
fn log_events_no_timestamps() {
    let logs = r#"
/docker-entrypoint.sh: Launching /docker-entrypoint.d/20-envsubst-on-templates.sh
/docker-entrypoint.sh: Launching /docker-entrypoint.d/30-tune-worker-processes.sh
/docker-entrypoint.sh: Configuration complete; ready for start up"#;
    let now = utc("2030-01-01T00:00:00Z");
    let events = parse_log_events(logs, now, &float_seconds);
    assert_eq!(events.len(), 3);
    assert!(events.iter().all(|e| e.timestamp == 1893456000));
}

#[test]
fn log_events_lines_without_timestamps() {
    let logs = r#"
/docker-entrypoint.sh: Launching /docker-entrypoint.d/20-envsubst-on-templates.sh
/docker-entrypoint.sh: Launching /docker-entrypoint.d/30-tune-worker-processes.sh
/docker-entrypoint.sh: Configuration complete; ready for start up
192.0.7.128 - - [11/Jul/2022:13:04:26 +0000] "GET / HTTP/1.1" 200 472 "-" "ELB-HealthChecker/2.0" "-"
192.0.6.198 - - [11/Jul/2022:13:04:26 +0000] "GET / HTTP/1.1" 200 472 "-" "ELB-HealthChecker/2.0" "-""#;
    let now = utc("2030-01-01T00:00:00Z");
    let events = parse_log_events(logs, now, &float_seconds);
    assert_eq!(events.len(), 5);
    assert_eq!(
        events[0].body,
        "/docker-entrypoint.sh: Launching /docker-entrypoint.d/20-envsubst-on-templates.sh"
    );
    assert_eq!(
        events[1].body,
        "/docker-entrypoint.sh: Launching /docker-entrypoint.d/30-tune-worker-processes.sh"
    );
    assert!(events.iter().all(|e| e.timestamp == 1657544666));
}

#[test]
fn log_events_plain_line_takes_the_recent_timestamp() {
    let logs = "{\"ts\": \"2018-01-01T00:00:00Z\", \"msg\": \"a\"}\nplain\n\n{\"ts\": \"2018-01-01T00:00:01Z\", \"msg\": \"b\"}";
    let events = parse_log_events(logs, utc("2030-01-01T00:00:00Z"), &float_seconds);
    let bodies: Vec<_> = events.iter().map(|e| e.body.clone()).collect();
    assert_eq!(bodies, vec!["a", "plain", "b"]);
    assert_eq!(events[1].timestamp, 1514764800);
    assert_eq!(events[2].timestamp, 1514764801);
}

#[test]
fn each_line_is_stored_once_when_grouped() {
    let logs = "early\n{\"ts\": \"2018-01-01T00:00:00Z\", \"msg\": \"a\"}\nplain\nmore\n{\"ts\": \"2018-01-01T00:00:01Z\", \"msg\": \"b\"}\nlast";
    let logs = parse_logs_at(logs, utc("2030-01-01T00:00:00Z"), &float_seconds);
    let total: usize = (0..logs.len()).map(|i| logs.group_len(i)).sum();
    assert_eq!(total, 6);
    let first: Vec<_> = group(&logs, "2018-01-01T00:00:00Z").iter().map(|r| r.body.clone()).collect();
    assert_eq!(first, vec!["early", "a", "plain", "more"]);
    let second: Vec<_> = group(&logs, "2018-01-01T00:00:01Z").iter().map(|r| r.body.clone()).collect();
    assert_eq!(second, vec!["b", "last"]);
}
