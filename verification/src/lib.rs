//! Telemetry initialization helpers: a structured-log event formatter with
//! distributed-trace correlation, span field inheritance, trace and span
//! identifier generation, and the pipeline that ties them together.

mod batteries;
mod config;
mod context;
mod fields;
mod format;
mod guard;
mod ids;
mod json;
mod pipeline;
mod report;
mod spans;

pub use batteries::BatteryError;
pub use batteries::MetricsBattery;
pub use batteries::StatsdBattery;
pub use batteries::TelemetryBatteries;
pub use batteries::TracingBattery;
pub use config::EnvValues;
pub use config::EyreConfig;
pub use config::EyreMode;
pub use config::InitError;
pub use config::LogFormat;
pub use config::MetricsBackend;
pub use config::MetricsConfig;
pub use config::PrometheusConfig;
pub use config::PrometheusMode;
pub use config::StatsdConfig;
pub use config::TelemetryConfig;
pub use config::TelemetryPreset;
pub use config::TracingBackend;
pub use config::TracingConfig;
pub use config::default_log_level;
pub use config::parse_bool;
pub use config::parse_u16;
pub use config::parse_u64;
pub use context::TraceContext;
pub use context::opentelemetry_span_id;
pub use context::opentelemetry_trace_id;
pub use context::resolve_context;
pub use fields::merge_fields;
pub use fields::upsert_field;
pub use format::DatadogFormat;
pub use format::Level;
pub use format::LogEvent;
pub use format::WriteAdapter;
pub use guard::TelemetryGuard;
pub use guard::TracingShutdownHandle;
pub use ids::ReducedIdGenerator;
pub use json::JsonValue;
pub use json::JsonValueView;
pub use pipeline::Pipeline;
pub use pipeline::QueueFullPolicy;
pub use pipeline::SpanLifecycle;
pub use report::BacktraceSymbol;
pub use report::capture_enabled;
pub use report::JsonFormatter;
pub use report::SpanFrame;
pub use spans::OtelSpanData;
pub use spans::SpanRecord;
pub use spans::SpanRegistry;
