//! Tests of the context resolver, including the span-close fallback.

use telemetry_batteries::OtelSpanData;
use telemetry_batteries::SpanRecord;
use telemetry_batteries::SpanRegistry;
use telemetry_batteries::TraceContext;
use telemetry_batteries::capture_enabled;
use telemetry_batteries::opentelemetry_span_id;
use telemetry_batteries::opentelemetry_trace_id;
use telemetry_batteries::resolve_context;

fn record(parent: Option<usize>, otel: Option<OtelSpanData>) -> SpanRecord {
    SpanRecord {
        name: "s".to_string(),
        parent,
        otel,
        fields: vec![],
        cache: None,
    }
}

fn registry(spans: Vec<SpanRecord>) -> SpanRegistry {
    SpanRegistry { spans }
}

#[test]
fn no_span_resolves_to_nothing() {
    let reg = registry(vec![]);
    assert_eq!(resolve_context(&reg, None, None), None);
    assert_eq!(opentelemetry_trace_id(&reg, None, None), None);
    assert_eq!(opentelemetry_span_id(&reg, None, None), None);
}

#[test]
fn current_span_metadata_resolves() {
    let data = OtelSpanData {
        parent_trace_id: 0,
        parent_span_id: 0,
        builder_trace_id: Some(11),
        builder_span_id: Some(12),
    };
    let reg = registry(vec![record(None, Some(data))]);
    assert_eq!(
        resolve_context(&reg, Some(0), None),
        Some(TraceContext { trace_id: 11, span_id: 12 })
    );
}

#[test]
fn falls_back_to_parent_when_current_is_unavailable() {
    // During span-close processing the closing span is no longer current;
    // the resolver retries with the event's parent span.
    let data = OtelSpanData {
        parent_trace_id: 0,
        parent_span_id: 0,
        builder_trace_id: Some(21),
        builder_span_id: Some(22),
    };
    let reg = registry(vec![record(None, Some(data))]);
    assert_eq!(
        resolve_context(&reg, None, Some(0)),
        Some(TraceContext { trace_id: 21, span_id: 22 })
    );
}

#[test]
fn evicted_metadata_resolves_to_nothing() {
    let reg = registry(vec![record(None, None)]);
    assert_eq!(resolve_context(&reg, Some(0), None), None);
}

#[test]
fn remote_parent_wins_only_when_nonzero() {
    let remote = OtelSpanData {
        parent_trace_id: 31,
        parent_span_id: 32,
        builder_trace_id: Some(1),
        builder_span_id: Some(2),
    };
    let reg = registry(vec![record(None, Some(remote))]);
    assert_eq!(
        resolve_context(&reg, Some(0), None),
        Some(TraceContext { trace_id: 31, span_id: 32 })
    );

    let local_only = OtelSpanData {
        parent_trace_id: 0,
        parent_span_id: 0,
        builder_trace_id: Some(1),
        builder_span_id: Some(2),
    };
    let reg = registry(vec![record(None, Some(local_only))]);
    assert_eq!(
        resolve_context(&reg, Some(0), None),
        Some(TraceContext { trace_id: 1, span_id: 2 })
    );
}

#[test]
fn partial_metadata_yields_no_context() {
    // a context is reported only when both ids are present
    let no_span_id = OtelSpanData {
        parent_trace_id: 41,
        parent_span_id: 0,
        builder_trace_id: None,
        builder_span_id: None,
    };
    let reg = registry(vec![record(None, Some(no_span_id))]);
    assert_eq!(opentelemetry_trace_id(&reg, Some(0), None), Some(41));
    assert_eq!(opentelemetry_span_id(&reg, Some(0), None), None);
    assert_eq!(resolve_context(&reg, Some(0), None), None);
}

#[test]
fn capture_override_beats_default() {
    assert!(capture_enabled(Some("1".to_string()), false));
    assert!(capture_enabled(Some("full".to_string()), false));
    assert!(!capture_enabled(Some("0".to_string()), true));
    assert!(capture_enabled(None, true));
    assert!(!capture_enabled(None, false));
}
