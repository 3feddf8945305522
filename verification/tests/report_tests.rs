//! Tests of the JSON error-report formatter.

use telemetry_batteries::BacktraceSymbol;
use telemetry_batteries::JsonFormatter;
use telemetry_batteries::SpanFrame;
use tracing_error::ErrorLayer;
use tracing_error::SpanTrace;
use tracing_error::SpanTraceStatus;
use tracing_subscriber::layer::SubscriberExt;

fn chain(messages: &[&str]) -> Vec<String> {
    messages.iter().map(|m| m.to_string()).collect()
}

#[test]
fn test_formatter_no_backtrace() {
    let formatter = JsonFormatter::new(chain(&["context 1", "context 0", "root cause"]), None, None);

    assert_eq!(
        formatter.error_chain,
        vec![
            (0, "context 1".to_string()),
            (1, "context 0".to_string()),
            (2, "root cause".to_string()),
        ]
    );

    let json = String::from_utf8(formatter.to_json()).unwrap();
    assert_eq!(
        json,
        "{\"error_chain\":[[0,\"context 1\"],[1,\"context 0\"],[2,\"root cause\"]]}"
    );
}

fn capture_symbols() -> Vec<BacktraceSymbol> {
    let backtrace = backtrace::Backtrace::new();
    backtrace
        .frames()
        .iter()
        .flat_map(|frame| frame.symbols().iter())
        .map(|symbol| BacktraceSymbol {
            function: symbol.name().map(|name| name.to_string()),
            file: symbol.filename().map(|filename| filename.display().to_string()),
            line: symbol.lineno(),
        })
        .collect()
}

#[test]
fn test_formatter_with_backtrace() {
    let symbols = capture_symbols();
    let original = symbols.clone();

    let formatter = JsonFormatter::new(chain(&["Some error"]), Some(symbols), None);

    let json = String::from_utf8(formatter.to_json()).unwrap();

    // Parse the JSON back to verify roundtrip
    let parsed: serde_json::Value = serde_json::from_str(&json).unwrap();

    // Verify backtrace array length matches
    let json_backtrace = parsed["backtrace"].as_array().unwrap();
    assert_eq!(
        json_backtrace.len(),
        original.len(),
        "Backtrace symbol count mismatch: JSON has {}, original has {}",
        json_backtrace.len(),
        original.len()
    );

    for (i, (json_entry, original_symbol)) in
        json_backtrace.iter().zip(original.iter()).enumerate()
    {
        // JSON structure is [index, {function, file, line}]
        let json_idx = json_entry[0].as_u64().unwrap() as usize;
        let json_symbol = &json_entry[1];

        assert_eq!(json_idx, i, "Symbol index mismatch at position {}", i);

        let json_function = json_symbol["function"].as_str().map(|s| s.to_string());
        assert_eq!(
            json_function, original_symbol.function,
            "Function name mismatch at symbol {}",
            i
        );

        let json_file = json_symbol["file"].as_str().map(|s| s.to_string());
        assert_eq!(json_file, original_symbol.file, "File name mismatch at symbol {}", i);

        let json_line = json_symbol["line"].as_u64().map(|l| l as u32);
        assert_eq!(json_line, original_symbol.line, "Line number mismatch at symbol {}", i);
    }
}

#[test]
fn mod_test_formatter_no_backtrace() {
    let formatter = JsonFormatter::new(chain(&["context 1", "context 0", "root cause"]), None, None);

    assert_eq!(
        formatter.error_chain,
        vec![
            (0, "context 1".to_string()),
            (1, "context 0".to_string()),
            (2, "root cause".to_string()),
        ]
    );

    let json = String::from_utf8(formatter.to_json()).unwrap();
    assert_eq!(
        json,
        "{\"error_chain\":[[0,\"context 1\"],[1,\"context 0\"],[2,\"root cause\"]]}"
    );
}

#[test]
fn mod_test_formatter_with_backtrace() {
    let symbols = capture_symbols();
    let original = symbols.clone();

    let formatter = JsonFormatter::new(
        chain(&["context 1", "context 0", "root cause"]),
        Some(symbols),
        None,
    );

    let json = String::from_utf8(formatter.to_json()).unwrap();
    let parsed: serde_json::Value = serde_json::from_str(&json).unwrap();

    let json_backtrace = parsed["backtrace"].as_array().unwrap();
    assert_eq!(
        json_backtrace.len(),
        original.len(),
        "Backtrace symbol count mismatch: JSON has {}, original has {}",
        json_backtrace.len(),
        original.len()
    );

    for (i, (json_entry, original_symbol)) in
        json_backtrace.iter().zip(original.iter()).enumerate()
    {
        let json_idx = json_entry[0].as_u64().unwrap() as usize;
        let json_symbol = &json_entry[1];

        assert_eq!(json_idx, i, "Symbol index mismatch at position {}", i);

        let json_function = json_symbol["function"].as_str().map(|s| s.to_string());
        assert_eq!(
            json_function, original_symbol.function,
            "Function name mismatch at symbol {}",
            i
        );

        let json_file = json_symbol["file"].as_str().map(|s| s.to_string());
        assert_eq!(json_file, original_symbol.file, "File name mismatch at symbol {}", i);

        let json_line = json_symbol["line"].as_u64().map(|l| l as u32);
        assert_eq!(json_line, original_symbol.line, "Line number mismatch at symbol {}", i);
    }
}

// Hand-built callsites for creating spans without macro support.
struct TestCallsite(fn() -> &'static tracing::Metadata<'static>);

impl tracing::Callsite for TestCallsite {
    fn set_interest(&self, _interest: tracing::subscriber::Interest) {}

    fn metadata(&self) -> &tracing::Metadata<'static> {
        (self.0)()
    }
}

static OUTER_CALLSITE: TestCallsite = TestCallsite(|| &OUTER_META);
static OUTER_FIELDS: [&str; 2] = ["user_id", "action"];
static OUTER_META: tracing::Metadata<'static> = tracing::Metadata::new(
    "outer_span",
    "test",
    tracing::Level::INFO,
    Some("report_tests.rs"),
    Some(1),
    Some("report_tests"),
    tracing::field::FieldSet::new(&OUTER_FIELDS, tracing::callsite::Identifier(&OUTER_CALLSITE)),
    tracing::metadata::Kind::SPAN,
);

static INNER_CALLSITE: TestCallsite = TestCallsite(|| &INNER_META);
static INNER_FIELDS: [&str; 1] = ["request_id"];
static INNER_META: tracing::Metadata<'static> = tracing::Metadata::new(
    "inner_span",
    "test",
    tracing::Level::INFO,
    Some("report_tests.rs"),
    Some(2),
    Some("report_tests"),
    tracing::field::FieldSet::new(&INNER_FIELDS, tracing::callsite::Identifier(&INNER_CALLSITE)),
    tracing::metadata::Kind::SPAN,
);

#[test]
fn test_formatter_with_spantrace() {
    // Install a subscriber with ErrorLayer - required for SpanTrace to capture
    let subscriber = tracing_subscriber::registry().with(ErrorLayer::default());
    let _guard = tracing::subscriber::set_default(subscriber);

    // Create nested spans with fields
    let outer_fields = OUTER_META.fields();
    let user_id_field = outer_fields.field("user_id").unwrap();
    let action_field = outer_fields.field("action").unwrap();
    let user_id_value = 42u64;
    let action_value = "test";
    let outer_values = [
        (&user_id_field, Some(&user_id_value as &dyn tracing::field::Value)),
        (&action_field, Some(&action_value as &dyn tracing::field::Value)),
    ];
    let outer_value_set = outer_fields.value_set(&outer_values);
    let outer_span = tracing::Span::new(&OUTER_META, &outer_value_set);
    let _outer_enter = outer_span.enter();

    let inner_fields = INNER_META.fields();
    let request_id_field = inner_fields.field("request_id").unwrap();
    let request_id_value = "abc-123";
    let inner_values = [(&request_id_field, Some(&request_id_value as &dyn tracing::field::Value))];
    let inner_value_set = inner_fields.value_set(&inner_values);
    let inner_span = tracing::Span::new(&INNER_META, &inner_value_set);
    let _inner_enter = inner_span.enter();

    let spantrace = SpanTrace::capture();
    assert_eq!(spantrace.status(), SpanTraceStatus::CAPTURED, "SpanTrace should be captured");

    let mut original_spans = Vec::new();
    let mut frames = Vec::new();
    spantrace.with_spans(|metadata, fields| {
        original_spans.push((metadata, fields.to_string()));
        frames.push(SpanFrame::from_span_info(
            metadata.target(),
            metadata.name(),
            metadata.file().map(|s| s.to_string()),
            metadata.line(),
            fields,
        ));
        true
    });

    let formatter = JsonFormatter::new(chain(&["test error"]), None, Some(frames));

    let json = String::from_utf8(formatter.to_json()).unwrap();

    let parsed: serde_json::Value = serde_json::from_str(&json).unwrap();

    // Verify spantrace array exists and has correct length
    let json_spantrace = parsed["spantrace"].as_array().expect("spantrace should be an array");
    assert_eq!(
        json_spantrace.len(),
        original_spans.len(),
        "Spantrace span count mismatch: JSON has {}, original has {}",
        json_spantrace.len(),
        original_spans.len()
    );

    // Verify each span frame matches
    for (i, ((metadata, fields), json_entry)) in
        original_spans.iter().zip(json_spantrace.iter()).enumerate()
    {
        // JSON structure is [index, {full_name, file, line, fields}]
        let json_idx = json_entry[0].as_u64().unwrap() as usize;
        let json_frame = &json_entry[1];

        assert_eq!(json_idx, i, "Span index mismatch at position {}", i);

        // Compare full_name (target::name)
        let expected_full_name = format!("{}::{}", metadata.target(), metadata.name());
        let json_full_name = json_frame["full_name"].as_str().unwrap();
        assert_eq!(json_full_name, expected_full_name, "Full name mismatch at span {}", i);

        // Compare file
        let expected_file = metadata.file().map(|s| s.to_string());
        let json_file = json_frame["file"].as_str().map(|s| s.to_string());
        assert_eq!(json_file, expected_file, "File mismatch at span {}", i);

        // Compare line
        let expected_line = metadata.line();
        let json_line = json_frame["line"].as_u64().map(|l| l as u32);
        assert_eq!(json_line, expected_line, "Line mismatch at span {}", i);

        // Compare fields
        let expected_fields = if fields.is_empty() { None } else { Some(fields.clone()) };
        let json_fields = json_frame["fields"].as_str().map(|s| s.to_string());
        assert_eq!(json_fields, expected_fields, "Fields mismatch at span {}", i);
    }

    // Inner span should be first (most recent)
    let first_span = &json_spantrace[0][1];
    assert!(
        first_span["full_name"].as_str().unwrap().contains("inner_span"),
        "First span should be inner_span"
    );
    assert!(
        first_span["fields"].as_str().unwrap().contains("request_id"),
        "Inner span should have request_id field"
    );

    // Outer span should be second
    let second_span = &json_spantrace[1][1];
    assert!(
        second_span["full_name"].as_str().unwrap().contains("outer_span"),
        "Second span should be outer_span"
    );
    assert!(
        second_span["fields"].as_str().unwrap().contains("user_id"),
        "Outer span should have user_id field"
    );
}

#[test]
fn spantrace_serialization() {
    let frames = vec![
        SpanFrame::from_span_info(
            "app",
            "inner_span",
            Some("lib.rs".to_string()),
            Some(12),
            "request_id=abc-123",
        ),
        SpanFrame::from_span_info("app", "outer_span", None, None, ""),
    ];
    let formatter = JsonFormatter::new(chain(&["test error"]), None, Some(frames));
    let json = String::from_utf8(formatter.to_json()).unwrap();
    let parsed: serde_json::Value = serde_json::from_str(&json).unwrap();
    let st = parsed["spantrace"].as_array().unwrap();
    assert_eq!(st.len(), 2);
    assert_eq!(st[0][0], 0);
    assert_eq!(st[0][1]["full_name"], "app::inner_span");
    assert_eq!(st[0][1]["file"], "lib.rs");
    assert_eq!(st[0][1]["line"], 12);
    assert_eq!(st[0][1]["fields"], "request_id=abc-123");
    assert_eq!(st[1][1]["full_name"], "app::outer_span");
    assert!(st[1][1]["file"].is_null());
    assert!(st[1][1]["line"].is_null());
    assert!(st[1][1]["fields"].is_null());
}

#[test]
fn from_span_info_empty_fields_are_absent() {
    let f = SpanFrame::from_span_info("t", "n", None, Some(3), "");
    assert_eq!(f.full_name, "t::n");
    assert_eq!(f.line, Some(3));
    assert!(f.fields.is_none());
    let g = SpanFrame::from_span_info("t", "n", None, None, "k=v");
    assert_eq!(g.fields.as_deref(), Some("k=v"));
}
