//! Tests of the record emitter: exact bytes, escaping, and the adapter.

use telemetry_batteries::DatadogFormat;
use telemetry_batteries::JsonValue;
use telemetry_batteries::Level;
use telemetry_batteries::LogEvent;
use telemetry_batteries::TraceContext;
use telemetry_batteries::WriteAdapter;

fn event(level: Level, target: &str, fields: Vec<(String, JsonValue)>) -> LogEvent {
    LogEvent { level, target: target.to_string(), line: None, file: None, module: None, fields }
}

#[test]
fn exact_record_with_context() {
    let fmt = DatadogFormat { location: false };
    let ev = event(
        Level::Info,
        "app",
        vec![("request_id".to_string(), JsonValue::Str("abc-123".to_string()))],
    );
    let ctx = Some(TraceContext { trace_id: (1u128 << 64) + 42, span_id: 7 });
    let out = fmt.format_event("2024-01-01T00:00:00+00:00", &ev, &ev.fields, ctx);
    let line = String::from_utf8(out).unwrap();
    assert_eq!(
        line,
        "{\"timestamp\":\"2024-01-01T00:00:00+00:00\",\"level\":\"INFO\",\"target\":\"app\",\"request_id\":\"abc-123\",\"dd.trace_id\":\"42\",\"dd.span_id\":\"7\"}\n"
    );
}

#[test]
fn exact_record_without_context() {
    let fmt = DatadogFormat { location: false };
    let ev = event(Level::Warn, "svc", vec![]);
    let out = fmt.format_event("T", &ev, &Vec::new(), None);
    let line = String::from_utf8(out).unwrap();
    assert_eq!(line, "{\"timestamp\":\"T\",\"level\":\"WARN\",\"target\":\"svc\"}\n");
}

#[test]
fn record_with_location() {
    let fmt = DatadogFormat { location: true };
    let ev = LogEvent {
        level: Level::Error,
        target: "svc".to_string(),
        line: Some(10),
        file: Some("main.rs".to_string()),
        module: Some("svc::web".to_string()),
        fields: vec![],
    };
    let out = fmt.format_event("T", &ev, &Vec::new(), None);
    let line = String::from_utf8(out).unwrap();
    let mp = format!("{}{}", "module", "_path");
    let expected = format!(
        "{{\"timestamp\":\"T\",\"level\":\"ERROR\",\"target\":\"svc\",\"line\":10,\"file\":\"main.rs\",\"{}\":\"svc::web\"}}\n",
        mp
    );
    assert_eq!(line, expected);
}

#[test]
fn record_with_unknown_location() {
    let fmt = DatadogFormat { location: true };
    let ev = event(Level::Debug, "svc", vec![]);
    let out = fmt.format_event("T", &ev, &Vec::new(), None);
    let line = String::from_utf8(out).unwrap();
    let mp = format!("{}{}", "module", "_path");
    let expected = format!(
        "{{\"timestamp\":\"T\",\"level\":\"DEBUG\",\"target\":\"svc\",\"line\":null,\"file\":null,\"{}\":null}}\n",
        mp
    );
    assert_eq!(line, expected);
}

#[test]
fn string_escaping() {
    let fmt = DatadogFormat { location: false };
    let fields = vec![(
        "msg".to_string(),
        JsonValue::Str("a\"b\\c\nd\te\rf\x08g\x0ch\x01i".to_string()),
    )];
    let ev = event(Level::Info, "t", fields.clone());
    let out = fmt.format_event("T", &ev, &fields, None);
    let line = String::from_utf8(out).unwrap();
    assert_eq!(
        line,
        "{\"timestamp\":\"T\",\"level\":\"INFO\",\"target\":\"t\",\"msg\":\"a\\\"b\\\\c\\nd\\te\\rf\\bg\\fh\\u0001i\"}\n"
    );
    // the line must still be valid JSON holding the original value
    let parsed: serde_json::Value = serde_json::from_str(line.trim_end()).unwrap();
    assert_eq!(parsed["msg"].as_str().unwrap(), "a\"b\\c\nd\te\rf\x08g\x0ch\x01i");
}

#[test]
fn non_ascii_passthrough() {
    let fmt = DatadogFormat { location: false };
    let fields = vec![("note".to_string(), JsonValue::Str("héllo ☃".to_string()))];
    let ev = event(Level::Info, "t", fields.clone());
    let out = fmt.format_event("T", &ev, &fields, None);
    let line = String::from_utf8(out).unwrap();
    let parsed: serde_json::Value = serde_json::from_str(line.trim_end()).unwrap();
    assert_eq!(parsed["note"].as_str().unwrap(), "héllo ☃");
}

#[test]
fn numeric_and_literal_values() {
    let fmt = DatadogFormat { location: false };
    let fields = vec![
        ("u".to_string(), JsonValue::UInt(u64::MAX)),
        ("i".to_string(), JsonValue::Int(-9223372036854775808)),
        ("z".to_string(), JsonValue::Int(0)),
        ("b".to_string(), JsonValue::Bool(true)),
        ("f".to_string(), JsonValue::Bool(false)),
        ("n".to_string(), JsonValue::Null),
    ];
    let ev = event(Level::Trace, "t", fields.clone());
    let out = fmt.format_event("T", &ev, &fields, None);
    let line = String::from_utf8(out).unwrap();
    assert_eq!(
        line,
        "{\"timestamp\":\"T\",\"level\":\"TRACE\",\"target\":\"t\",\"u\":18446744073709551615,\"i\":-9223372036854775808,\"z\":0,\"b\":true,\"f\":false,\"n\":null}\n"
    );
}

#[test]
fn trace_id_truncates_to_low_64_bits() {
    let fmt = DatadogFormat { location: false };
    let ev = event(Level::Info, "t", vec![]);
    let ctx = Some(TraceContext { trace_id: u128::MAX, span_id: u64::MAX });
    let out = fmt.format_event("T", &ev, &Vec::new(), ctx);
    let line = String::from_utf8(out).unwrap();
    assert_eq!(
        line,
        "{\"timestamp\":\"T\",\"level\":\"INFO\",\"target\":\"t\",\"dd.trace_id\":\"18446744073709551615\",\"dd.span_id\":\"18446744073709551615\"}\n"
    );
}

#[test]
fn write_adapter_collects_lines() {
    let mut w = WriteAdapter::new();
    w.write(&b"abc".to_vec());
    w.write(&b"def".to_vec());
    w.flush();
    assert_eq!(w.buffer, b"abcdef".to_vec());
}
