//! Tests of the per-event pipeline: correlation, inheritance, the queue
//! policies, and shutdown.

use telemetry_batteries::DatadogFormat;
use telemetry_batteries::JsonValue;
use telemetry_batteries::Level;
use telemetry_batteries::LogEvent;
use telemetry_batteries::OtelSpanData;
use telemetry_batteries::Pipeline;
use telemetry_batteries::QueueFullPolicy;
use telemetry_batteries::TelemetryGuard;

fn pipeline() -> Pipeline {
    Pipeline::new(DatadogFormat { location: false }, Level::Trace, 16, QueueFullPolicy::Block)
}

fn event(fields: Vec<(String, JsonValue)>) -> LogEvent {
    LogEvent {
        level: Level::Info,
        target: "app".to_string(),
        line: None,
        file: None,
        module: None,
        fields,
    }
}

fn sfield(k: &str, v: &str) -> (String, JsonValue) {
    (k.to_string(), JsonValue::Str(v.to_string()))
}

fn parsed_line(p: &Pipeline, i: usize) -> serde_json::Value {
    let line = String::from_utf8(p.queue[i].clone()).unwrap();
    assert!(line.ends_with('\n'));
    serde_json::from_str(line.trim_end()).unwrap()
}

fn otel(builder_trace: u128, builder_span: u64) -> OtelSpanData {
    OtelSpanData {
        parent_trace_id: 0,
        parent_span_id: 0,
        builder_trace_id: Some(builder_trace),
        builder_span_id: Some(builder_span),
    }
}

#[test]
fn no_active_span_emits_no_correlation_keys() {
    let mut p = pipeline();
    p.on_event(&event(vec![sfield("k", "v")]), "T");
    let v = parsed_line(&p, 0);
    let obj = v.as_object().unwrap();
    assert!(!obj.contains_key("dd.trace_id"));
    assert!(!obj.contains_key("dd.span_id"));
    assert_eq!(obj["k"], "v");
}

#[test]
fn single_span_fields_are_inherited() {
    let mut p = pipeline();
    let s = p.open_span("request".to_string(), vec![sfield("request_id", "abc-123")]);
    p.attach_otel(s, otel(5, 6));
    p.on_event(&event(vec![]), "T");
    let v = parsed_line(&p, 0);
    assert_eq!(v["request_id"], "abc-123");
    assert_eq!(v["dd.trace_id"], "5");
    assert_eq!(v["dd.span_id"], "6");
}

#[test]
fn nested_spans_inner_wins() {
    let mut p = pipeline();
    let _outer = p.open_span(
        "outer".to_string(),
        vec![sfield("shared", "from_outer"), sfield("outer_only", "yes")],
    );
    let _inner = p.open_span(
        "inner".to_string(),
        vec![sfield("shared", "from_inner"), sfield("inner_only", "yes")],
    );
    p.on_event(&event(vec![]), "T");
    let v = parsed_line(&p, 0);
    assert_eq!(v["shared"], "from_inner");
    assert_eq!(v["outer_only"], "yes");
    assert_eq!(v["inner_only"], "yes");
}

#[test]
fn event_fields_win_over_span_fields() {
    let mut p = pipeline();
    let _s = p.open_span("s".to_string(), vec![sfield("user", "from_span")]);
    p.on_event(&event(vec![sfield("user", "from_event")]), "T");
    let v = parsed_line(&p, 0);
    assert_eq!(v["user"], "from_event");
}

#[test]
fn overwritten_key_keeps_first_position() {
    let mut p = pipeline();
    let _s = p.open_span(
        "s".to_string(),
        vec![sfield("a", "1"), sfield("b", "2")],
    );
    p.on_event(&event(vec![sfield("a", "3"), sfield("c", "4")]), "T");
    let line = String::from_utf8(p.queue[0].clone()).unwrap();
    let a = line.find("\"a\":").unwrap();
    let b = line.find("\"b\":").unwrap();
    let c = line.find("\"c\":").unwrap();
    assert!(a < b && b < c);
    let v = parsed_line(&p, 0);
    assert_eq!(v["a"], "3");
    assert_eq!(v["b"], "2");
    assert_eq!(v["c"], "4");
}

#[test]
fn round_trip_preserves_key_set() {
    let mut p = pipeline();
    let s = p.open_span("s".to_string(), vec![sfield("request_id", "abc")]);
    p.attach_otel(s, otel(1, 2));
    p.on_event(&event(vec![sfield("msg", "hello")]), "T");
    let line = String::from_utf8(p.queue[0].clone()).unwrap();
    // every emitted line parses as valid JSON
    let v: serde_json::Value = serde_json::from_str(line.trim_end()).unwrap();
    // re-serializing the parsed object and parsing again yields the same object
    let again: serde_json::Value = serde_json::from_str(&serde_json::to_string(&v).unwrap()).unwrap();
    assert_eq!(v, again);
    // the key set is the field set plus the fixed metadata keys
    let mut keys: Vec<&str> = v.as_object().unwrap().keys().map(|k| k.as_str()).collect();
    keys.sort_unstable();
    let mut expected = vec!["timestamp", "level", "target", "request_id", "msg", "dd.trace_id", "dd.span_id"];
    expected.sort_unstable();
    assert_eq!(keys, expected);
}

#[test]
fn close_span_evicts_metadata_and_resolver_tolerates_it() {
    let mut p = pipeline();
    let outer = p.open_span("outer".to_string(), vec![]);
    p.attach_otel(outer, otel(9, 10));
    let inner = p.open_span("inner".to_string(), vec![]);
    p.attach_otel(inner, otel(9, 11));
    // closing evicts the inner span's metadata before any later lookup
    p.close_span();
    // the event is now charged to the outer span, whose metadata survives
    p.on_event(&event(vec![]), "T");
    let v = parsed_line(&p, 0);
    assert_eq!(v["dd.trace_id"], "9");
    assert_eq!(v["dd.span_id"], "10");
}

#[test]
fn remote_parent_context_wins_over_builder_ids() {
    let mut p = pipeline();
    let s = p.open_span("s".to_string(), vec![]);
    p.attach_otel(
        s,
        OtelSpanData {
            parent_trace_id: 77,
            parent_span_id: 78,
            builder_trace_id: Some(1),
            builder_span_id: Some(2),
        },
    );
    p.on_event(&event(vec![]), "T");
    let v = parsed_line(&p, 0);
    assert_eq!(v["dd.trace_id"], "77");
    assert_eq!(v["dd.span_id"], "78");
}

#[test]
fn span_without_metadata_yields_no_correlation() {
    let mut p = pipeline();
    let _s = p.open_span("s".to_string(), vec![sfield("k", "v")]);
    p.on_event(&event(vec![]), "T");
    let v = parsed_line(&p, 0);
    let obj = v.as_object().unwrap();
    assert!(!obj.contains_key("dd.trace_id"));
    assert!(!obj.contains_key("dd.span_id"));
    assert_eq!(obj["k"], "v");
}

#[test]
fn severity_filter_runs_before_formatting() {
    let mut p = Pipeline::new(
        DatadogFormat { location: false },
        Level::Warn,
        16,
        QueueFullPolicy::Block,
    );
    let mut ev = event(vec![]);
    ev.level = Level::Info;
    p.on_event(&ev, "T");
    assert_eq!(p.queue.len(), 0);
    ev.level = Level::Error;
    p.on_event(&ev, "T");
    assert_eq!(p.queue.len(), 1);
}

#[test]
fn queue_policy_block_flushes_to_sink() {
    let mut p = Pipeline::new(
        DatadogFormat { location: false },
        Level::Trace,
        1,
        QueueFullPolicy::Block,
    );
    p.on_event(&event(vec![sfield("n", "1")]), "T");
    let first = p.queue[0].clone();
    p.on_event(&event(vec![sfield("n", "2")]), "T");
    // the writer drained the full queue before the new line was queued
    assert_eq!(p.sink.buffer, first);
    assert_eq!(p.queue.len(), 1);
    assert_eq!(p.dropped, 0);
}

#[test]
fn queue_policy_drop_newest_counts_loss() {
    let mut p = Pipeline::new(
        DatadogFormat { location: false },
        Level::Trace,
        1,
        QueueFullPolicy::DropNewest,
    );
    p.on_event(&event(vec![sfield("n", "1")]), "T");
    let first = p.queue[0].clone();
    p.on_event(&event(vec![sfield("n", "2")]), "T");
    assert_eq!(p.queue.len(), 1);
    assert_eq!(p.queue[0], first);
    assert_eq!(p.dropped, 1);
}

#[test]
fn queue_policy_drop_oldest_counts_loss() {
    let mut p = Pipeline::new(
        DatadogFormat { location: false },
        Level::Trace,
        1,
        QueueFullPolicy::DropOldest,
    );
    p.on_event(&event(vec![sfield("n", "1")]), "T");
    p.on_event(&event(vec![sfield("n", "2")]), "T");
    assert_eq!(p.queue.len(), 1);
    let v = parsed_line(&p, 0);
    assert_eq!(v["n"], "2");
    assert_eq!(p.dropped, 1);
}

#[test]
fn shutdown_guard_flushes_queued_lines() {
    let mut p = pipeline();
    p.on_event(&event(vec![sfield("last", "words")]), "T");
    let queued = p.queue[0].clone();
    assert!(p.sink.buffer.is_empty());
    let mut guard = TelemetryGuard::new(None).with_pipeline(p);
    guard.shutdown();
    let p = guard.pipeline.take().unwrap();
    assert_eq!(p.queue.len(), 0);
    assert_eq!(p.sink.buffer, queued);
}

#[test]
fn shutdown_drains_export_stage_after_flush() {
    let mut p = pipeline();
    let s = p.open_span("s".to_string(), vec![]);
    p.close_span();
    p.on_event(&event(vec![]), "T");
    assert_eq!(p.export_queue.len(), 2);
    assert_eq!(p.exported.len(), 0);
    p.shutdown();
    assert_eq!(p.export_queue.len(), 0);
    assert_eq!(p.exported.len(), 2);
    assert_eq!(p.exported[0].span, s);
    assert!(!p.exported[0].closed);
    assert!(p.exported[1].closed);
}

#[test]
fn timestamp_now_is_rfc3339_like() {
    let mut p = pipeline();
    p.on_event_now(&event(vec![]));
    let v = parsed_line(&p, 0);
    let ts = v["timestamp"].as_str().unwrap();
    // e.g. 2024-01-01T00:00:00.123456789+00:00
    assert!(ts.len() >= 19);
    assert_eq!(&ts[4..5], "-");
    assert_eq!(&ts[10..11], "T");
}
