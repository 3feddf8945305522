//! Tests of configuration parsing and resolution.

use telemetry_batteries::EnvValues;
use telemetry_batteries::EyreMode;
use telemetry_batteries::InitError;
use telemetry_batteries::LogFormat;
use telemetry_batteries::MetricsBackend;
use telemetry_batteries::PrometheusMode;
use telemetry_batteries::TelemetryConfig;
use telemetry_batteries::TelemetryPreset;
use telemetry_batteries::TracingBackend;
use telemetry_batteries::default_log_level;
use telemetry_batteries::parse_bool;
use telemetry_batteries::parse_u16;
use telemetry_batteries::parse_u64;

#[test]
fn preset_keywords() {
    assert_eq!(TelemetryPreset::from_str("local").unwrap(), TelemetryPreset::Local);
    assert_eq!(TelemetryPreset::from_str("LOCAL").unwrap(), TelemetryPreset::Local);
    assert_eq!(TelemetryPreset::from_str("Datadog").unwrap(), TelemetryPreset::Datadog);
    assert_eq!(TelemetryPreset::from_str("otel").unwrap(), TelemetryPreset::Otel);
    assert_eq!(TelemetryPreset::from_str("OTLP").unwrap(), TelemetryPreset::Otel);
    assert_eq!(TelemetryPreset::from_str("OpenTelemetry").unwrap(), TelemetryPreset::Otel);
    assert_eq!(TelemetryPreset::from_str("none").unwrap(), TelemetryPreset::Disabled);
}

#[test]
fn preset_invalid() {
    let err = TelemetryPreset::from_str("bogus").unwrap_err();
    match err {
        InitError::InvalidConfig { field, message } => {
            assert_eq!(field, "TELEMETRY_PRESET");
            assert_eq!(message, "expected 'local', 'datadog', 'otel', or 'none', got 'bogus'");
        }
        other => panic!("unexpected error: {:?}", other),
    }
}

#[test]
fn log_format_keywords() {
    assert_eq!(LogFormat::from_str("pretty").unwrap(), LogFormat::Pretty);
    assert_eq!(LogFormat::from_str("json").unwrap(), LogFormat::Json);
    assert_eq!(LogFormat::from_str("compact").unwrap(), LogFormat::Compact);
    assert_eq!(LogFormat::from_str("datadog").unwrap(), LogFormat::DatadogJson);
    assert_eq!(LogFormat::from_str("DATADOG_JSON").unwrap(), LogFormat::DatadogJson);
    assert_eq!(LogFormat::from_str("datadogjson").unwrap(), LogFormat::DatadogJson);
    let err = LogFormat::from_str("xml").unwrap_err();
    match err {
        InitError::InvalidConfig { field, message } => {
            assert_eq!(field, "TELEMETRY_LOG_FORMAT");
            assert_eq!(
                message,
                "expected 'pretty', 'json', 'compact', or 'datadog_json', got 'xml'"
            );
        }
        other => panic!("unexpected error: {:?}", other),
    }
}

#[test]
fn backend_keywords_and_preset_mapping() {
    assert_eq!(TracingBackend::from_str("stdout").unwrap(), TracingBackend::Stdout);
    assert_eq!(TracingBackend::from_str("datadog").unwrap(), TracingBackend::Datadog);
    assert_eq!(TracingBackend::from_str("none").unwrap(), TracingBackend::Disabled);
    assert!(TracingBackend::from_str("zipkin").is_err());
    assert_eq!(TracingBackend::Stdout.to_preset(), TelemetryPreset::Local);
    assert_eq!(TracingBackend::Datadog.to_preset(), TelemetryPreset::Datadog);
    assert_eq!(TracingBackend::Disabled.to_preset(), TelemetryPreset::Disabled);
}

#[test]
fn metrics_prometheus_eyre_keywords() {
    assert_eq!(MetricsBackend::from_str("prometheus").unwrap(), MetricsBackend::Prometheus);
    assert_eq!(MetricsBackend::from_str("statsd").unwrap(), MetricsBackend::Statsd);
    assert_eq!(MetricsBackend::from_str("none").unwrap(), MetricsBackend::Disabled);
    assert!(MetricsBackend::from_str("graphite").is_err());
    assert_eq!(PrometheusMode::from_str("http").unwrap(), PrometheusMode::Http);
    assert_eq!(PrometheusMode::from_str("PUSH").unwrap(), PrometheusMode::Push);
    assert!(PrometheusMode::from_str("pull").is_err());
    assert_eq!(EyreMode::from_str("color").unwrap(), EyreMode::Color);
    assert_eq!(EyreMode::from_str("json").unwrap(), EyreMode::Json);
    assert!(EyreMode::from_str("plain").is_err());
}

#[test]
fn parse_bool_values() {
    assert_eq!(parse_bool("true", "F").unwrap(), true);
    assert_eq!(parse_bool("1", "F").unwrap(), true);
    assert_eq!(parse_bool("YES", "F").unwrap(), true);
    assert_eq!(parse_bool("false", "F").unwrap(), false);
    assert_eq!(parse_bool("0", "F").unwrap(), false);
    assert_eq!(parse_bool("no", "F").unwrap(), false);
    match parse_bool("maybe", "F").unwrap_err() {
        InitError::InvalidConfig { field, message } => {
            assert_eq!(field, "F");
            assert_eq!(message, "expected 'true' or 'false', got 'maybe'");
        }
        other => panic!("unexpected error: {:?}", other),
    }
}

#[test]
fn parse_numbers() {
    assert_eq!(parse_u64("0"), Some(0));
    assert_eq!(parse_u64("18446744073709551615"), Some(u64::MAX));
    assert_eq!(parse_u64("18446744073709551616"), None);
    assert_eq!(parse_u64(""), None);
    assert_eq!(parse_u64("12a"), None);
    assert_eq!(parse_u64("-1"), None);
    assert_eq!(parse_u16("65535"), Some(65535));
    assert_eq!(parse_u16("65536"), None);
    assert_eq!(parse_u16("8125"), Some(8125));
}

#[test]
fn default_level_is_info() {
    assert_eq!(default_log_level(), "info");
}

fn empty_env() -> EnvValues {
    EnvValues::default()
}

#[test]
fn from_env_values_defaults() {
    let c = TelemetryConfig::from_env_values(empty_env()).unwrap();
    assert_eq!(c.preset, TelemetryPreset::Local);
    assert!(c.service_name.is_none());
    assert!(c.log_format.is_none());
    assert!(c.datadog_endpoint.is_none());
    assert!(c.otlp_endpoint.is_none());
    assert_eq!(c.tracing.backend, TracingBackend::Stdout);
    assert_eq!(c.tracing.format, LogFormat::Json);
    assert!(!c.tracing.location);
    assert_eq!(c.tracing.log_level, "info");
    assert_eq!(c.metrics.backend, MetricsBackend::Disabled);
    assert_eq!(c.metrics.prometheus.mode, PrometheusMode::Http);
    assert_eq!(c.metrics.prometheus.listen, "0.0.0.0:9090");
    assert_eq!(c.metrics.prometheus.interval_secs, 10);
    assert_eq!(c.metrics.statsd.host, "localhost");
    assert_eq!(c.metrics.statsd.port, 8125);
    assert_eq!(c.metrics.statsd.queue_size, 5000);
    assert_eq!(c.metrics.statsd.buffer_size, 1024);
    assert_eq!(c.eyre.mode, EyreMode::Color);
    assert!(c.eyre.with_default_backtrace);
    assert!(c.eyre.with_default_spantrace);
}

#[test]
fn from_env_values_full() {
    let mut v = empty_env();
    v.preset = Some("datadog".to_string());
    v.service_name = Some("svc".to_string());
    v.log_format = Some("compact".to_string());
    v.datadog_endpoint = Some("http://agent:8126".to_string());
    v.rust_log = Some("debug".to_string());
    v.tracing_location = Some("true".to_string());
    v.metrics_backend = Some("statsd".to_string());
    v.statsd_host = Some("statsd.local".to_string());
    v.statsd_port = Some("9125".to_string());
    v.statsd_prefix = Some("svc".to_string());
    v.prometheus_mode = Some("push".to_string());
    v.prometheus_interval = Some("30".to_string());
    v.eyre_mode = Some("json".to_string());
    let c = TelemetryConfig::from_env_values(v).unwrap();
    assert_eq!(c.preset, TelemetryPreset::Datadog);
    assert_eq!(c.service_name.as_deref(), Some("svc"));
    assert_eq!(c.log_format, Some(LogFormat::Compact));
    assert_eq!(c.datadog_endpoint.as_deref(), Some("http://agent:8126"));
    assert_eq!(c.tracing.format, LogFormat::Compact);
    assert!(c.tracing.location);
    assert_eq!(c.tracing.log_level, "debug");
    assert_eq!(c.metrics.backend, MetricsBackend::Statsd);
    assert_eq!(c.metrics.statsd.host, "statsd.local");
    assert_eq!(c.metrics.statsd.port, 9125);
    assert_eq!(c.metrics.statsd.prefix.as_deref(), Some("svc"));
    assert_eq!(c.metrics.prometheus.mode, PrometheusMode::Push);
    assert_eq!(c.metrics.prometheus.interval_secs, 30);
    assert_eq!(c.eyre.mode, EyreMode::Json);
}

#[test]
fn from_env_values_legacy_backend_sets_preset() {
    let mut v = empty_env();
    v.tracing_backend = Some("datadog".to_string());
    v.tracing_endpoint = Some("http://legacy:8126".to_string());
    let c = TelemetryConfig::from_env_values(v).unwrap();
    assert_eq!(c.preset, TelemetryPreset::Datadog);
    assert_eq!(c.datadog_endpoint.as_deref(), Some("http://legacy:8126"));
    assert_eq!(c.tracing.backend, TracingBackend::Datadog);
    assert_eq!(c.tracing.endpoint.as_deref(), Some("http://legacy:8126"));
}

#[test]
fn from_env_values_preset_wins_over_backend() {
    let mut v = empty_env();
    v.preset = Some("none".to_string());
    v.tracing_backend = Some("datadog".to_string());
    let c = TelemetryConfig::from_env_values(v).unwrap();
    assert_eq!(c.preset, TelemetryPreset::Disabled);
}

#[test]
fn listen_address_verdict_is_honored() {
    // the caller's parser accepted the address: it passes through unchanged
    let mut v = empty_env();
    v.prometheus_listen = Some("127.0.0.1:9100".to_string());
    v.prometheus_listen_valid = true;
    let c = TelemetryConfig::from_env_values(v).unwrap();
    assert_eq!(c.metrics.prometheus.listen, "127.0.0.1:9100");

    // the caller's parser rejected it: resolution fails fast, naming it
    let mut v = empty_env();
    v.prometheus_listen = Some("not-an-address".to_string());
    v.prometheus_listen_valid = false;
    match TelemetryConfig::from_env_values(v).unwrap_err() {
        InitError::InvalidConfig { field, message } => {
            assert_eq!(field, "TELEMETRY_PROMETHEUS_LISTEN");
            assert_eq!(message, "invalid socket address: not-an-address");
        }
        other => panic!("unexpected error: {:?}", other),
    }
}

#[test]
fn from_env_values_rejects_bad_values() {
    let mut v = empty_env();
    v.preset = Some("bogus".to_string());
    assert!(TelemetryConfig::from_env_values(v).is_err());
    let mut v = empty_env();
    v.statsd_port = Some("70000".to_string());
    match TelemetryConfig::from_env_values(v).unwrap_err() {
        InitError::InvalidConfig { field, message } => {
            assert_eq!(field, "TELEMETRY_STATSD_PORT");
            assert_eq!(message, "expected u16 port number, got '70000'");
        }
        other => panic!("unexpected error: {:?}", other),
    }
    let mut v = empty_env();
    v.prometheus_interval = Some("soon".to_string());
    match TelemetryConfig::from_env_values(v).unwrap_err() {
        InitError::InvalidConfig { field, message } => {
            assert_eq!(field, "TELEMETRY_PROMETHEUS_INTERVAL");
            assert_eq!(message, "expected integer seconds, got 'soon'");
        }
        other => panic!("unexpected error: {:?}", other),
    }
}

#[test]
fn effective_log_format_follows_preset() {
    let mut c = TelemetryConfig::from_env_values(empty_env()).unwrap();
    assert_eq!(c.effective_log_format(), LogFormat::Pretty);
    c.preset = TelemetryPreset::Datadog;
    assert_eq!(c.effective_log_format(), LogFormat::DatadogJson);
    c.preset = TelemetryPreset::Otel;
    assert_eq!(c.effective_log_format(), LogFormat::Json);
    c.preset = TelemetryPreset::Disabled;
    assert_eq!(c.effective_log_format(), LogFormat::Json);
    c.log_format = Some(LogFormat::Compact);
    assert_eq!(c.effective_log_format(), LogFormat::Compact);
}

#[test]
fn log_level_precedence() {
    assert_eq!(
        TelemetryConfig::log_level_from(Some("warn".to_string()), Some("debug".to_string())),
        "warn"
    );
    assert_eq!(TelemetryConfig::log_level_from(None, Some("debug".to_string())), "debug");
    assert_eq!(TelemetryConfig::log_level_from(None, None), "info");
}
