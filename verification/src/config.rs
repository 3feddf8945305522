//! Configuration types for telemetry initialization.
//!
//! Configuration is resolved once, before the pipeline exists; a failure
//! here is reported and nothing is initialized partially.  Keyword values
//! are matched case-insensitively (ASCII).

use vstd::prelude::*;
use vstd::string::StringSliceAdditionalSpecFns;

verus! {

/// A configuration failure: reported at initialization, never after.
#[derive(Debug, PartialEq, Eq)]
pub enum InitError {
    /// A required configuration value was not provided.
    MissingConfig(&'static str),
    /// A configuration value was invalid.
    InvalidConfig { field: &'static str, message: String },
    /// A feature was requested but not compiled in.
    FeatureNotCompiled(&'static str),
}

/// The ASCII lower-case image of one byte.
pub open spec fn lower_byte(b: u8) -> u8 {
    if 65 <= b && b <= 90 {
        (b + 32) as u8
    } else {
        b
    }
}

/// The ASCII lower-case image of a byte string.  Bytes outside `A`-`Z`
/// (including every byte of a multi-byte UTF-8 sequence) are unchanged.
pub open spec fn lower_bytes(s: Seq<u8>) -> Seq<u8> {
    s.map_values(|b: u8| lower_byte(b))
}

/// Whether `s`, lowered, equals the (already lower-case) keyword `kw`.
fn eq_lower(s: &str, kw: &str) -> (r: bool)
    ensures
        r == (lower_bytes(s.spec_bytes()) == kw.spec_bytes()),
{
    let sb = s.as_bytes();
    let kb = kw.as_bytes();
    if sb.len() != kb.len() {
        proof {
            assert(lower_bytes(s.spec_bytes()).len() == s.spec_bytes().len());
        }
        return false;
    }
    let mut i: usize = 0;
    while i < sb.len()
        invariant
            i <= sb@.len(),
            sb@ == s.spec_bytes(),
            kb@ == kw.spec_bytes(),
            sb@.len() == kb@.len(),
            forall|j: int| 0 <= j < i ==> lower_byte(sb@[j]) == kb@[j],
        decreases sb@.len() - i,
    {
        let b = sb[i];
        let low: u8 = if 65 <= b && b <= 90 {
            b + 32
        } else {
            b
        };
        if low != kb[i] {
            proof {
                assert(lower_bytes(s.spec_bytes())[i as int] != kw.spec_bytes()[i as int]);
            }
            return false;
        }
        i = i + 1;
    }
    proof {
        assert(lower_bytes(s.spec_bytes()) =~= kw.spec_bytes());
    }
    true
}

/// Build the message `…expected…, got '<s>'`.
fn got_message(expected: &str, s: &str) -> (r: String)
    ensures
        r@ == expected@ + s@ + "'"@,
{
    let mut m = expected.to_owned();
    m.append(s);
    m.append("'");
    m
}

/// Build the message `<prefix><s>`.
fn prefixed_message(prefix: &str, s: &str) -> (r: String)
    ensures
        r@ == prefix@ + s@,
{
    let mut m = prefix.to_owned();
    m.append(s);
    m
}

/// Telemetry preset for common configurations.
///
/// Presets configure sensible defaults for logging and span export;
/// individual settings can be overridden.
#[derive(Debug, Clone, Copy, PartialEq, Eq, Structural)]
pub enum TelemetryPreset {
    /// Local development: pretty stdout logs, no span export.
    Local,
    /// Datadog: JSON logs with correlation ids, spans to the agent.
    Datadog,
    /// OpenTelemetry: JSON logs, spans to an OTLP collector.
    Otel,
    /// Disable all telemetry output.
    Disabled,
}

impl TelemetryPreset {
    /// Parse a preset keyword, case-insensitively.
    pub fn from_str(s: &str) -> (r: Result<TelemetryPreset, InitError>)
        ensures
            ({
                let l = lower_bytes(s.spec_bytes());
                if l == "local".spec_bytes() {
                    r == Ok::<TelemetryPreset, InitError>(TelemetryPreset::Local)
                } else if l == "datadog".spec_bytes() {
                    r == Ok::<TelemetryPreset, InitError>(TelemetryPreset::Datadog)
                } else if l == "otel".spec_bytes() || l == "otlp".spec_bytes() || l
                    == "opentelemetry".spec_bytes() {
                    r == Ok::<TelemetryPreset, InitError>(TelemetryPreset::Otel)
                } else if l == "none".spec_bytes() {
                    r == Ok::<TelemetryPreset, InitError>(TelemetryPreset::Disabled)
                } else {
                    (r matches Err(InitError::InvalidConfig { field, message }) && field@
                        == "TELEMETRY_PRESET"@ && message@
                        == "expected 'local', 'datadog', 'otel', or 'none', got '"@ + s@ + "'"@)
                }
            }),
    {
        if eq_lower(s, "local") {
            Ok(TelemetryPreset::Local)
        } else if eq_lower(s, "datadog") {
            Ok(TelemetryPreset::Datadog)
        } else if eq_lower(s, "otel") || eq_lower(s, "otlp") || eq_lower(s, "opentelemetry") {
            Ok(TelemetryPreset::Otel)
        } else if eq_lower(s, "none") {
            Ok(TelemetryPreset::Disabled)
        } else {
            Err(InitError::InvalidConfig {
                field: "TELEMETRY_PRESET",
                message: got_message("expected 'local', 'datadog', 'otel', or 'none', got '", s),
            })
        }
    }
}

/// Log output format.
#[derive(Debug, Clone, Copy, PartialEq, Eq, Structural)]
pub enum LogFormat {
    /// Pretty-printed human-readable output.
    Pretty,
    /// JSON-formatted output.
    Json,
    /// Compact single-line output.
    Compact,
    /// JSON with correlation ids for log-trace joining.
    DatadogJson,
}

impl LogFormat {
    /// Parse a format keyword, case-insensitively.
    pub fn from_str(s: &str) -> (r: Result<LogFormat, InitError>)
        ensures
            ({
                let l = lower_bytes(s.spec_bytes());
                if l == "pretty".spec_bytes() {
                    r == Ok::<LogFormat, InitError>(LogFormat::Pretty)
                } else if l == "json".spec_bytes() {
                    r == Ok::<LogFormat, InitError>(LogFormat::Json)
                } else if l == "compact".spec_bytes() {
                    r == Ok::<LogFormat, InitError>(LogFormat::Compact)
                } else if l == "datadog".spec_bytes() || l == "datadog_json".spec_bytes() || l
                    == "datadogjson".spec_bytes() {
                    r == Ok::<LogFormat, InitError>(LogFormat::DatadogJson)
                } else {
                    (r matches Err(InitError::InvalidConfig { field, message }) && field@
                        == "TELEMETRY_LOG_FORMAT"@ && message@
                        == "expected 'pretty', 'json', 'compact', or 'datadog_json', got '"@ + s@
                        + "'"@)
                }
            }),
    {
        if eq_lower(s, "pretty") {
            Ok(LogFormat::Pretty)
        } else if eq_lower(s, "json") {
            Ok(LogFormat::Json)
        } else if eq_lower(s, "compact") {
            Ok(LogFormat::Compact)
        } else if eq_lower(s, "datadog") || eq_lower(s, "datadog_json") || eq_lower(
            s,
            "datadogjson",
        ) {
            Ok(LogFormat::DatadogJson)
        } else {
            Err(InitError::InvalidConfig {
                field: "TELEMETRY_LOG_FORMAT",
                message: got_message(
                    "expected 'pretty', 'json', 'compact', or 'datadog_json', got '",
                    s,
                ),
            })
        }
    }
}

/// Tracing/logging backend, the older way to choose a preset.
#[derive(Debug, Clone, Copy, PartialEq, Eq, Structural)]
pub enum TracingBackend {
    /// Output traces to stdout.
    Stdout,
    /// Send traces to the Datadog agent.
    Datadog,
    /// Disable tracing.
    Disabled,
}

impl TracingBackend {
    /// Parse a backend keyword, case-insensitively.
    pub fn from_str(s: &str) -> (r: Result<TracingBackend, InitError>)
        ensures
            ({
                let l = lower_bytes(s.spec_bytes());
                if l == "stdout".spec_bytes() {
                    r == Ok::<TracingBackend, InitError>(TracingBackend::Stdout)
                } else if l == "datadog".spec_bytes() {
                    r == Ok::<TracingBackend, InitError>(TracingBackend::Datadog)
                } else if l == "none".spec_bytes() {
                    r == Ok::<TracingBackend, InitError>(TracingBackend::Disabled)
                } else {
                    (r matches Err(InitError::InvalidConfig { field, message }) && field@
                        == "TELEMETRY_TRACING_BACKEND"@ && message@
                        == "expected 'stdout', 'datadog', or 'none', got '"@ + s@ + "'"@)
                }
            }),
    {
        if eq_lower(s, "stdout") {
            Ok(TracingBackend::Stdout)
        } else if eq_lower(s, "datadog") {
            Ok(TracingBackend::Datadog)
        } else if eq_lower(s, "none") {
            Ok(TracingBackend::Disabled)
        } else {
            Err(InitError::InvalidConfig {
                field: "TELEMETRY_TRACING_BACKEND",
                message: got_message("expected 'stdout', 'datadog', or 'none', got '", s),
            })
        }
    }

    /// The preset this backend stands for.
    pub fn to_preset(self) -> (r: TelemetryPreset)
        ensures
            self == TracingBackend::Stdout ==> r == TelemetryPreset::Local,
            self == TracingBackend::Datadog ==> r == TelemetryPreset::Datadog,
            self == TracingBackend::Disabled ==> r == TelemetryPreset::Disabled,
    {
        match self {
            TracingBackend::Stdout => TelemetryPreset::Local,
            TracingBackend::Datadog => TelemetryPreset::Datadog,
            TracingBackend::Disabled => TelemetryPreset::Disabled,
        }
    }
}

/// Metrics backend.
#[derive(Debug, Clone, Copy, PartialEq, Eq, Structural)]
pub enum MetricsBackend {
    /// Prometheus metrics exporter.
    Prometheus,
    /// StatsD metrics exporter.
    Statsd,
    /// Disable metrics.
    Disabled,
}

impl MetricsBackend {
    /// Parse a backend keyword, case-insensitively.
    pub fn from_str(s: &str) -> (r: Result<MetricsBackend, InitError>)
        ensures
            ({
                let l = lower_bytes(s.spec_bytes());
                if l == "prometheus".spec_bytes() {
                    r == Ok::<MetricsBackend, InitError>(MetricsBackend::Prometheus)
                } else if l == "statsd".spec_bytes() {
                    r == Ok::<MetricsBackend, InitError>(MetricsBackend::Statsd)
                } else if l == "none".spec_bytes() {
                    r == Ok::<MetricsBackend, InitError>(MetricsBackend::Disabled)
                } else {
                    (r matches Err(InitError::InvalidConfig { field, message }) && field@
                        == "TELEMETRY_METRICS_BACKEND"@ && message@
                        == "expected 'prometheus', 'statsd', or 'none', got '"@ + s@ + "'"@)
                }
            }),
    {
        if eq_lower(s, "prometheus") {
            Ok(MetricsBackend::Prometheus)
        } else if eq_lower(s, "statsd") {
            Ok(MetricsBackend::Statsd)
        } else if eq_lower(s, "none") {
            Ok(MetricsBackend::Disabled)
        } else {
            Err(InitError::InvalidConfig {
                field: "TELEMETRY_METRICS_BACKEND",
                message: got_message("expected 'prometheus', 'statsd', or 'none', got '", s),
            })
        }
    }
}

/// Prometheus export mode.
#[derive(Debug, Clone, Copy, PartialEq, Eq, Structural)]
pub enum PrometheusMode {
    /// Run an HTTP listener for scraping.
    Http,
    /// Push metrics to a push gateway.
    Push,
}

impl PrometheusMode {
    /// Parse a mode keyword, case-insensitively.
    pub fn from_str(s: &str) -> (r: Result<PrometheusMode, InitError>)
        ensures
            ({
                let l = lower_bytes(s.spec_bytes());
                if l == "http".spec_bytes() {
                    r == Ok::<PrometheusMode, InitError>(PrometheusMode::Http)
                } else if l == "push".spec_bytes() {
                    r == Ok::<PrometheusMode, InitError>(PrometheusMode::Push)
                } else {
                    (r matches Err(InitError::InvalidConfig { field, message }) && field@
                        == "TELEMETRY_PROMETHEUS_MODE"@ && message@
                        == "expected 'http' or 'push', got '"@ + s@ + "'"@)
                }
            }),
    {
        if eq_lower(s, "http") {
            Ok(PrometheusMode::Http)
        } else if eq_lower(s, "push") {
            Ok(PrometheusMode::Push)
        } else {
            Err(InitError::InvalidConfig {
                field: "TELEMETRY_PROMETHEUS_MODE",
                message: got_message("expected 'http' or 'push', got '", s),
            })
        }
    }
}

/// Error-report output mode.
#[derive(Debug, Clone, Copy, PartialEq, Eq, Structural)]
pub enum EyreMode {
    /// Colored multi-line output.
    Color,
    /// JSON output.
    Json,
}

impl EyreMode {
    /// Parse a mode keyword, case-insensitively.
    pub fn from_str(s: &str) -> (r: Result<EyreMode, InitError>)
        ensures
            ({
                let l = lower_bytes(s.spec_bytes());
                if l == "color".spec_bytes() {
                    r == Ok::<EyreMode, InitError>(EyreMode::Color)
                } else if l == "json".spec_bytes() {
                    r == Ok::<EyreMode, InitError>(EyreMode::Json)
                } else {
                    (r matches Err(InitError::InvalidConfig { field, message }) && field@
                        == "TELEMETRY_EYRE_MODE"@ && message@
                        == "expected 'color' or 'json', got '"@ + s@ + "'"@)
                }
            }),
    {
        if eq_lower(s, "color") {
            Ok(EyreMode::Color)
        } else if eq_lower(s, "json") {
            Ok(EyreMode::Json)
        } else {
            Err(InitError::InvalidConfig {
                field: "TELEMETRY_EYRE_MODE",
                message: got_message("expected 'color' or 'json', got '", s),
            })
        }
    }
}

/// Parse a boolean flag: `true`/`1`/`yes` or `false`/`0`/`no`.
pub fn parse_bool(s: &str, field: &'static str) -> (r: Result<bool, InitError>)
    ensures
        ({
            let l = lower_bytes(s.spec_bytes());
            if l == "true".spec_bytes() || l == "1".spec_bytes() || l == "yes".spec_bytes() {
                r == Ok::<bool, InitError>(true)
            } else if l == "false".spec_bytes() || l == "0".spec_bytes() || l
                == "no".spec_bytes() {
                r == Ok::<bool, InitError>(false)
            } else {
                (r matches Err(InitError::InvalidConfig { field: f, message }) && f == field
                    && message@ == "expected 'true' or 'false', got '"@ + s@ + "'"@)
            }
        }),
{
    if eq_lower(s, "true") || eq_lower(s, "1") || eq_lower(s, "yes") {
        Ok(true)
    } else if eq_lower(s, "false") || eq_lower(s, "0") || eq_lower(s, "no") {
        Ok(false)
    } else {
        Err(InitError::InvalidConfig {
            field,
            message: got_message("expected 'true' or 'false', got '", s),
        })
    }
}

/// The default log level filter.
pub fn default_log_level() -> (r: String)
    ensures
        r@ == "info"@,
{
    "info".to_owned()
}


/// Whether `s` is one or more decimal digit bytes.
pub open spec fn is_dec_digits(s: Seq<u8>) -> bool {
    s.len() > 0 && forall|i: int| 0 <= i < s.len() ==> 48 <= #[trigger] s[i] <= 57
}

/// The number the digit bytes of `s` denote.
pub open spec fn dec_value(s: Seq<u8>) -> int
    decreases s.len(),
{
    if s.len() == 0 {
        0
    } else {
        dec_value(s.drop_last()) * 10 + (s.last() - 48)
    }
}

/// A digit string's value never shrinks as digits are appended.
proof fn lemma_dec_value_prefix_le(s: Seq<u8>, i: int)
    requires
        0 <= i <= s.len(),
        forall|j: int| 0 <= j < s.len() ==> 48 <= #[trigger] s[j] <= 57,
    ensures
        dec_value(s.take(i)) <= dec_value(s),
        dec_value(s.take(i)) >= 0,
    decreases s.len() - i,
{
    if i == s.len() {
        assert(s.take(i) =~= s);
        lemma_dec_value_nonneg(s);
    } else {
        lemma_dec_value_prefix_le(s, i + 1);
        lemma_dec_value_nonneg(s.take(i));
        assert(s.take(i + 1).drop_last() =~= s.take(i));
        assert(dec_value(s.take(i + 1)) == dec_value(s.take(i)) * 10 + (s[i] - 48));
        assert(dec_value(s.take(i)) * 10 >= dec_value(s.take(i))) by (nonlinear_arith)
            requires
                dec_value(s.take(i)) >= 0,
        ;
    }
}

/// A digit string's value is never negative.
proof fn lemma_dec_value_nonneg(s: Seq<u8>)
    requires
        forall|j: int| 0 <= j < s.len() ==> 48 <= #[trigger] s[j] <= 57,
    ensures
        dec_value(s) >= 0,
    decreases s.len(),
{
    if s.len() > 0 {
        assert(forall|j: int| 0 <= j < s.drop_last().len() ==> 48 <= #[trigger] s.drop_last()[j]
            <= 57);
        lemma_dec_value_nonneg(s.drop_last());
        assert(dec_value(s.drop_last()) * 10 >= 0) by (nonlinear_arith)
            requires
                dec_value(s.drop_last()) >= 0,
        ;
    }
}

/// Parse an unsigned decimal number.  `None` when `s` is empty, holds a
/// non-digit, or denotes a value above `u64::MAX`.
pub fn parse_u64(s: &str) -> (r: Option<u64>)
    ensures
        match r {
            Some(n) => is_dec_digits(s.spec_bytes()) && n == dec_value(s.spec_bytes()),
            None => !is_dec_digits(s.spec_bytes()) || dec_value(s.spec_bytes()) > u64::MAX,
        },
{
    let sb = s.as_bytes();
    if sb.len() == 0 {
        return None;
    }
    let mut acc: u64 = 0;
    let mut i: usize = 0;
    while i < sb.len()
        invariant
            i <= sb@.len(),
            sb@ == s.spec_bytes(),
            sb@.len() > 0,
            forall|j: int| 0 <= j < i ==> 48 <= #[trigger] sb@[j] <= 57,
            acc == dec_value(sb@.take(i as int)),
        decreases sb@.len() - i,
    {
        let b = sb[i];
        if b < 48 || b > 57 {
            return None;
        }
        let d: u64 = (b - 48) as u64;
        if acc > (u64::MAX - d) / 10 {
            proof {
                assert(sb@.take(i as int + 1).drop_last() =~= sb@.take(i as int));
                assert(dec_value(sb@.take(i as int + 1)) == acc * 10 + d);
                assert(acc * 10 + d > u64::MAX) by (nonlinear_arith)
                    requires
                        acc > (u64::MAX - d) / 10,
                        0 <= d <= 9,
                        acc >= 0,
                ;
                if is_dec_digits(sb@) {
                    lemma_dec_value_prefix_le(sb@, i as int + 1);
                }
            }
            return None;
        }
        proof {
            assert(acc * 10 + d <= u64::MAX) by (nonlinear_arith)
                requires
                    acc <= (u64::MAX - d) / 10,
                    0 <= d <= 9,
                    acc >= 0,
            ;
            assert(sb@.take(i as int + 1).drop_last() =~= sb@.take(i as int));
        }
        acc = acc * 10 + d;
        i = i + 1;
    }
    proof {
        assert(sb@.take(sb@.len() as int) =~= sb@);
    }
    Some(acc)
}

/// Parse a port number: an unsigned decimal that fits in sixteen bits.
pub fn parse_u16(s: &str) -> (r: Option<u16>)
    ensures
        match r {
            Some(n) => is_dec_digits(s.spec_bytes()) && n == dec_value(s.spec_bytes()),
            None => !is_dec_digits(s.spec_bytes()) || dec_value(s.spec_bytes()) > u16::MAX,
        },
{
    match parse_u64(s) {
        Some(n) => if n <= 65535 {
            Some(n as u16)
        } else {
            None
        },
        None => {
            proof {
                if is_dec_digits(s.spec_bytes()) {
                    assert(dec_value(s.spec_bytes()) > u64::MAX);
                }
            }
            None
        }
    }
}

/// Tracing configuration, the older shape.
#[derive(Debug)]
pub struct TracingConfig {
    /// Tracing backend to use.
    pub backend: TracingBackend,
    /// Endpoint for the tracing backend.
    pub endpoint: Option<String>,
    /// Log output format.
    pub format: LogFormat,
    /// Include source location in traces.
    pub location: bool,
    /// Log level filter, in the filter syntax of the subscriber.
    pub log_level: String,
}

impl Default for TracingConfig {
    /// Stdout backend, JSON format, no location, the default level.
    fn default() -> (r: TracingConfig)
        ensures
            r.backend == TracingBackend::Stdout,
            r.endpoint is None,
            r.format == LogFormat::Json,
            !r.location,
            r.log_level@ == "info"@,
    {
        TracingConfig {
            backend: TracingBackend::Stdout,
            endpoint: None,
            format: LogFormat::Json,
            location: false,
            log_level: default_log_level(),
        }
    }
}

/// Prometheus-specific configuration.  The listen address is kept as text
/// and handed to the exporter unchecked.
#[derive(Debug)]
pub struct PrometheusConfig {
    /// Export mode (HTTP listener or push gateway).
    pub mode: PrometheusMode,
    /// Listen address for HTTP mode.
    pub listen: String,
    /// Push gateway endpoint.
    pub endpoint: Option<String>,
    /// Push interval in seconds.
    pub interval_secs: u64,
}

impl Default for PrometheusConfig {
    /// HTTP mode on the conventional scrape address, every ten seconds.
    fn default() -> (r: PrometheusConfig)
        ensures
            r.mode == PrometheusMode::Http,
            r.listen@ == "0.0.0.0:9090"@,
            r.endpoint is None,
            r.interval_secs == 10,
    {
        PrometheusConfig {
            mode: PrometheusMode::Http,
            listen: "0.0.0.0:9090".to_owned(),
            endpoint: None,
            interval_secs: 10,
        }
    }
}

/// StatsD-specific configuration.
#[derive(Debug)]
pub struct StatsdConfig {
    /// StatsD server host.
    pub host: String,
    /// StatsD server port.
    pub port: u16,
    /// Metric name prefix.
    pub prefix: Option<String>,
    /// Queue size for the exporter.
    pub queue_size: usize,
    /// Buffer size for the exporter.
    pub buffer_size: usize,
}

impl Default for StatsdConfig {
    /// The conventional local agent, with the stock queue and buffer sizes.
    fn default() -> (r: StatsdConfig)
        ensures
            r.host@ == "localhost"@,
            r.port == 8125,
            r.prefix is None,
            r.queue_size == 5000,
            r.buffer_size == 1024,
    {
        StatsdConfig {
            host: "localhost".to_owned(),
            port: 8125,
            prefix: None,
            queue_size: 5000,
            buffer_size: 1024,
        }
    }
}

/// Metrics configuration.
#[derive(Debug)]
pub struct MetricsConfig {
    /// Metrics backend to use.
    pub backend: MetricsBackend,
    /// Prometheus-specific configuration.
    pub prometheus: PrometheusConfig,
    /// StatsD-specific configuration.
    pub statsd: StatsdConfig,
}

impl Default for MetricsConfig {
    /// Metrics disabled, with stock backend settings.
    fn default() -> (r: MetricsConfig)
        ensures
            r.backend == MetricsBackend::Disabled,
    {
        MetricsConfig {
            backend: MetricsBackend::Disabled,
            prometheus: PrometheusConfig::default(),
            statsd: StatsdConfig::default(),
        }
    }
}

/// Error-report configuration.
#[derive(Debug, Clone, Copy)]
pub struct EyreConfig {
    /// Error-report output mode.
    pub mode: EyreMode,
    /// Capture backtraces by default.
    pub with_default_backtrace: bool,
    /// Capture spantraces by default.
    pub with_default_spantrace: bool,
}

impl Default for EyreConfig {
    /// Colored reports, with both captures on.
    fn default() -> (r: EyreConfig)
        ensures
            r.mode == EyreMode::Color,
            r.with_default_backtrace,
            r.with_default_spantrace,
    {
        EyreConfig { mode: EyreMode::Color, with_default_backtrace: true, with_default_spantrace: true }
    }
}

/// Main telemetry configuration.
#[derive(Debug)]
pub struct TelemetryConfig {
    /// Telemetry preset.
    pub preset: TelemetryPreset,
    /// Service name (required for the datadog and otel presets).
    pub service_name: Option<String>,
    /// Override of the preset's log format.
    pub log_format: Option<LogFormat>,
    /// Datadog agent endpoint.
    pub datadog_endpoint: Option<String>,
    /// OTLP collector endpoint.
    pub otlp_endpoint: Option<String>,
    /// Metrics configuration, independent of the preset.
    pub metrics: MetricsConfig,
    /// Error-report configuration.
    pub eyre: EyreConfig,
    /// Older tracing configuration, kept for callers that still read it.
    pub tracing: TracingConfig,
}

impl TelemetryConfig {
    /// The log format in force: the explicit override, else the preset's.
    pub fn effective_log_format(&self) -> (r: LogFormat)
        ensures
            self.log_format matches Some(f) ==> r == f,
            self.log_format is None ==> r == match self.preset {
                TelemetryPreset::Local => LogFormat::Pretty,
                TelemetryPreset::Datadog => LogFormat::DatadogJson,
                TelemetryPreset::Otel => LogFormat::Json,
                TelemetryPreset::Disabled => LogFormat::Json,
            },
    {
        match self.log_format {
            Some(f) => f,
            None => match self.preset {
                TelemetryPreset::Local => LogFormat::Pretty,
                TelemetryPreset::Datadog => LogFormat::DatadogJson,
                TelemetryPreset::Otel => LogFormat::Json,
                TelemetryPreset::Disabled => LogFormat::Json,
            },
        }
    }

    /// The log level in force, from the two raw settings: the first wins,
    /// then the second, then the default.
    pub fn log_level_from(rust_log: Option<String>, fallback: Option<String>) -> (r: String)
        ensures
            rust_log matches Some(s) ==> r@ == s@,
            rust_log is None ==> ((fallback matches Some(s) ==> r@ == s@) && (fallback is None
                ==> r@ == "info"@)),
    {
        match rust_log {
            Some(s) => s,
            None => match fallback {
                Some(s) => s,
                None => default_log_level(),
            },
        }
    }
}


/// The lowered UTF-8 bytes of a string value.
pub open spec fn lowered(s: Seq<char>) -> Seq<u8> {
    lower_bytes(vstd::utf8::encode_utf8(s))
}

/// The UTF-8 bytes of a string value.
pub open spec fn utf8(s: Seq<char>) -> Seq<u8> {
    vstd::utf8::encode_utf8(s)
}

/// The view of an optional string value.
pub open spec fn opt_str_view(o: Option<String>) -> Option<Seq<char>> {
    match o {
        Some(s) => Some(s@),
        None => None,
    }
}

/// The preset a lowered keyword denotes.
pub open spec fn kw_preset(l: Seq<u8>) -> Option<TelemetryPreset> {
    if l == "local".spec_bytes() {
        Some(TelemetryPreset::Local)
    } else if l == "datadog".spec_bytes() {
        Some(TelemetryPreset::Datadog)
    } else if l == "otel".spec_bytes() || l == "otlp".spec_bytes() || l
        == "opentelemetry".spec_bytes() {
        Some(TelemetryPreset::Otel)
    } else if l == "none".spec_bytes() {
        Some(TelemetryPreset::Disabled)
    } else {
        None
    }
}

/// The log format a lowered keyword denotes.
pub open spec fn kw_format(l: Seq<u8>) -> Option<LogFormat> {
    if l == "pretty".spec_bytes() {
        Some(LogFormat::Pretty)
    } else if l == "json".spec_bytes() {
        Some(LogFormat::Json)
    } else if l == "compact".spec_bytes() {
        Some(LogFormat::Compact)
    } else if l == "datadog".spec_bytes() || l == "datadog_json".spec_bytes() || l
        == "datadogjson".spec_bytes() {
        Some(LogFormat::DatadogJson)
    } else {
        None
    }
}

/// The tracing backend a lowered keyword denotes.
pub open spec fn kw_backend(l: Seq<u8>) -> Option<TracingBackend> {
    if l == "stdout".spec_bytes() {
        Some(TracingBackend::Stdout)
    } else if l == "datadog".spec_bytes() {
        Some(TracingBackend::Datadog)
    } else if l == "none".spec_bytes() {
        Some(TracingBackend::Disabled)
    } else {
        None
    }
}

/// The metrics backend a lowered keyword denotes.
pub open spec fn kw_metrics(l: Seq<u8>) -> Option<MetricsBackend> {
    if l == "prometheus".spec_bytes() {
        Some(MetricsBackend::Prometheus)
    } else if l == "statsd".spec_bytes() {
        Some(MetricsBackend::Statsd)
    } else if l == "none".spec_bytes() {
        Some(MetricsBackend::Disabled)
    } else {
        None
    }
}

/// The Prometheus mode a lowered keyword denotes.
pub open spec fn kw_prom_mode(l: Seq<u8>) -> Option<PrometheusMode> {
    if l == "http".spec_bytes() {
        Some(PrometheusMode::Http)
    } else if l == "push".spec_bytes() {
        Some(PrometheusMode::Push)
    } else {
        None
    }
}

/// The error-report mode a lowered keyword denotes.
pub open spec fn kw_eyre(l: Seq<u8>) -> Option<EyreMode> {
    if l == "color".spec_bytes() {
        Some(EyreMode::Color)
    } else if l == "json".spec_bytes() {
        Some(EyreMode::Json)
    } else {
        None
    }
}

/// The flag a lowered keyword denotes.
pub open spec fn kw_bool(l: Seq<u8>) -> Option<bool> {
    if l == "true".spec_bytes() || l == "1".spec_bytes() || l == "yes".spec_bytes() {
        Some(true)
    } else if l == "false".spec_bytes() || l == "0".spec_bytes() || l == "no".spec_bytes() {
        Some(false)
    } else {
        None
    }
}

/// The raw configuration values, exactly as read from the process
/// environment by the caller; `None` where a variable was unset.
///
/// The listen address's grammar belongs to the caller's socket-address
/// parser, so the caller reports its verdict alongside the raw string.
#[derive(Debug, Default)]
pub struct EnvValues {
    pub preset: Option<String>,
    pub tracing_backend: Option<String>,
    pub log_format: Option<String>,
    pub datadog_endpoint: Option<String>,
    pub tracing_endpoint: Option<String>,
    pub otlp_endpoint: Option<String>,
    pub rust_log: Option<String>,
    pub log_level: Option<String>,
    pub tracing_location: Option<String>,
    pub prometheus_mode: Option<String>,
    pub prometheus_listen: Option<String>,
    /// Whether `prometheus_listen` parses as a socket address, as the
    /// caller's parser judged it; read only when an address is set.
    pub prometheus_listen_valid: bool,
    pub prometheus_endpoint: Option<String>,
    pub prometheus_interval: Option<String>,
    pub statsd_host: Option<String>,
    pub statsd_port: Option<String>,
    pub statsd_prefix: Option<String>,
    pub metrics_backend: Option<String>,
    pub eyre_mode: Option<String>,
    pub service_name: Option<String>,
}

/// Whether every raw value that is present parses.
pub open spec fn env_ok(v: EnvValues) -> bool {
    &&& match v.preset {
        Some(s) => kw_preset(lowered(s@)) is Some,
        None => true,
    }
    &&& match v.tracing_backend {
        Some(s) => kw_backend(lowered(s@)) is Some,
        None => true,
    }
    &&& match v.log_format {
        Some(s) => kw_format(lowered(s@)) is Some,
        None => true,
    }
    &&& match v.tracing_location {
        Some(s) => kw_bool(lowered(s@)) is Some,
        None => true,
    }
    &&& match v.prometheus_mode {
        Some(s) => kw_prom_mode(lowered(s@)) is Some,
        None => true,
    }
    &&& match v.prometheus_listen {
        Some(_) => v.prometheus_listen_valid,
        None => true,
    }
    &&& match v.prometheus_interval {
        Some(s) => is_dec_digits(utf8(s@)) && dec_value(utf8(s@)) <= u64::MAX,
        None => true,
    }
    &&& match v.statsd_port {
        Some(s) => is_dec_digits(utf8(s@)) && dec_value(utf8(s@)) <= u16::MAX,
        None => true,
    }
    &&& match v.metrics_backend {
        Some(s) => kw_metrics(lowered(s@)) is Some,
        None => true,
    }
    &&& match v.eyre_mode {
        Some(s) => kw_eyre(lowered(s@)) is Some,
        None => true,
    }
}

/// The variable whose value the resolution rejects first, in resolution
/// order; empty when every present value parses.
pub open spec fn first_bad_field(v: EnvValues) -> Seq<char> {
    if (match v.preset {
        Some(s) => kw_preset(lowered(s@)) is None,
        None => false,
    }) {
        "TELEMETRY_PRESET"@
    } else if (match v.tracing_backend {
        Some(s) => kw_backend(lowered(s@)) is None,
        None => false,
    }) {
        "TELEMETRY_TRACING_BACKEND"@
    } else if (match v.log_format {
        Some(s) => kw_format(lowered(s@)) is None,
        None => false,
    }) {
        "TELEMETRY_LOG_FORMAT"@
    } else if (match v.tracing_location {
        Some(s) => kw_bool(lowered(s@)) is None,
        None => false,
    }) {
        "TELEMETRY_TRACING_LOCATION"@
    } else if (match v.prometheus_mode {
        Some(s) => kw_prom_mode(lowered(s@)) is None,
        None => false,
    }) {
        "TELEMETRY_PROMETHEUS_MODE"@
    } else if (match v.prometheus_listen {
        Some(_) => !v.prometheus_listen_valid,
        None => false,
    }) {
        "TELEMETRY_PROMETHEUS_LISTEN"@
    } else if (match v.prometheus_interval {
        Some(s) => !(is_dec_digits(utf8(s@)) && dec_value(utf8(s@)) <= u64::MAX),
        None => false,
    }) {
        "TELEMETRY_PROMETHEUS_INTERVAL"@
    } else if (match v.statsd_port {
        Some(s) => !(is_dec_digits(utf8(s@)) && dec_value(utf8(s@)) <= u16::MAX),
        None => false,
    }) {
        "TELEMETRY_STATSD_PORT"@
    } else if (match v.metrics_backend {
        Some(s) => kw_metrics(lowered(s@)) is None,
        None => false,
    }) {
        "TELEMETRY_METRICS_BACKEND"@
    } else if (match v.eyre_mode {
        Some(s) => kw_eyre(lowered(s@)) is None,
        None => false,
    }) {
        "TELEMETRY_EYRE_MODE"@
    } else {
        Seq::empty()
    }
}

/// The preset the raw values select: the preset keyword wins, then the
/// older backend keyword, then local development.
pub open spec fn env_preset(v: EnvValues) -> TelemetryPreset {
    match v.preset {
        Some(s) => kw_preset(lowered(s@))->Some_0,
        None => match v.tracing_backend {
            Some(s) => match kw_backend(lowered(s@))->Some_0 {
                TracingBackend::Stdout => TelemetryPreset::Local,
                TracingBackend::Datadog => TelemetryPreset::Datadog,
                TracingBackend::Disabled => TelemetryPreset::Disabled,
            },
            None => TelemetryPreset::Local,
        },
    }
}

impl TelemetryConfig {
    /// Resolve a configuration from raw environment values.
    ///
    /// Fails exactly when some present value does not parse — never
    /// partially: an error names the first offending variable and no
    /// configuration escapes.  On success every setting is the parsed value
    /// or its documented default.
    pub fn from_env_values(v: EnvValues) -> (r: Result<TelemetryConfig, InitError>)
        ensures
            r is Ok <==> env_ok(v),
            r matches Err(e) ==> (e matches InitError::InvalidConfig { field, .. } && field@
                == first_bad_field(v)),
            r matches Ok(c) ==> {
                &&& c.preset == env_preset(v)
                &&& opt_str_view(c.service_name) == opt_str_view(v.service_name)
                &&& c.log_format == match v.log_format {
                    Some(s) => kw_format(lowered(s@)),
                    None => None::<LogFormat>,
                }
                &&& opt_str_view(c.datadog_endpoint) == match v.datadog_endpoint {
                    Some(s) => Some(s@),
                    None => opt_str_view(v.tracing_endpoint),
                }
                &&& opt_str_view(c.otlp_endpoint) == opt_str_view(v.otlp_endpoint)
                &&& c.tracing.backend == match v.tracing_backend {
                    Some(s) => kw_backend(lowered(s@))->Some_0,
                    None => TracingBackend::Stdout,
                }
                &&& opt_str_view(c.tracing.endpoint) == opt_str_view(c.datadog_endpoint)
                &&& c.tracing.format == match v.log_format {
                    Some(s) => kw_format(lowered(s@))->Some_0,
                    None => LogFormat::Json,
                }
                &&& c.tracing.location == match v.tracing_location {
                    Some(s) => kw_bool(lowered(s@))->Some_0,
                    None => false,
                }
                &&& c.tracing.log_level@ == match v.rust_log {
                    Some(s) => s@,
                    None => match v.log_level {
                        Some(s) => s@,
                        None => "info"@,
                    },
                }
                &&& c.metrics.backend == match v.metrics_backend {
                    Some(s) => kw_metrics(lowered(s@))->Some_0,
                    None => MetricsBackend::Disabled,
                }
                &&& c.metrics.prometheus.mode == match v.prometheus_mode {
                    Some(s) => kw_prom_mode(lowered(s@))->Some_0,
                    None => PrometheusMode::Http,
                }
                &&& c.metrics.prometheus.listen@ == match v.prometheus_listen {
                    Some(s) => s@,
                    None => "0.0.0.0:9090"@,
                }
                &&& opt_str_view(c.metrics.prometheus.endpoint) == opt_str_view(
                    v.prometheus_endpoint,
                )
                &&& c.metrics.prometheus.interval_secs == match v.prometheus_interval {
                    Some(s) => dec_value(utf8(s@)),
                    None => 10,
                }
                &&& c.metrics.statsd.host@ == match v.statsd_host {
                    Some(s) => s@,
                    None => "localhost"@,
                }
                &&& c.metrics.statsd.port == match v.statsd_port {
                    Some(s) => dec_value(utf8(s@)),
                    None => 8125,
                }
                &&& opt_str_view(c.metrics.statsd.prefix) == opt_str_view(v.statsd_prefix)
                &&& c.metrics.statsd.queue_size == 5000
                &&& c.metrics.statsd.buffer_size == 1024
                &&& c.eyre.mode == match v.eyre_mode {
                    Some(s) => kw_eyre(lowered(s@))->Some_0,
                    None => EyreMode::Color,
                }
                &&& c.eyre.with_default_backtrace
                &&& c.eyre.with_default_spantrace
            },
    {
        let preset_parsed: Option<TelemetryPreset> = match &v.preset {
            Some(s) => match TelemetryPreset::from_str(s.as_str()) {
                Ok(p) => Some(p),
                Err(e) => {
                    return Err(e);
                }
            },
            None => None,
        };
        let backend_parsed: Option<TracingBackend> = match &v.tracing_backend {
            Some(s) => match TracingBackend::from_str(s.as_str()) {
                Ok(b) => Some(b),
                Err(e) => {
                    return Err(e);
                }
            },
            None => None,
        };
        let format_parsed: Option<LogFormat> = match &v.log_format {
            Some(s) => match LogFormat::from_str(s.as_str()) {
                Ok(f) => Some(f),
                Err(e) => {
                    return Err(e);
                }
            },
            None => None,
        };
        let location: bool = match &v.tracing_location {
            Some(s) => match parse_bool(s.as_str(), "TELEMETRY_TRACING_LOCATION") {
                Ok(b) => b,
                Err(e) => {
                    return Err(e);
                }
            },
            None => false,
        };
        let prom_mode: PrometheusMode = match &v.prometheus_mode {
            Some(s) => match PrometheusMode::from_str(s.as_str()) {
                Ok(m) => m,
                Err(e) => {
                    return Err(e);
                }
            },
            None => PrometheusMode::Http,
        };
        match &v.prometheus_listen {
            Some(s) => {
                if !v.prometheus_listen_valid {
                    return Err(InitError::InvalidConfig {
                        field: "TELEMETRY_PROMETHEUS_LISTEN",
                        message: prefixed_message("invalid socket address: ", s.as_str()),
                    });
                }
            }
            None => {}
        }
        let interval_secs: u64 = match &v.prometheus_interval {
            Some(s) => match parse_u64(s.as_str()) {
                Some(n) => n,
                None => {
                    return Err(InitError::InvalidConfig {
                        field: "TELEMETRY_PROMETHEUS_INTERVAL",
                        message: got_message("expected integer seconds, got '", s.as_str()),
                    });
                }
            },
            None => 10,
        };
        let port: u16 = match &v.statsd_port {
            Some(s) => match parse_u16(s.as_str()) {
                Some(n) => n,
                None => {
                    return Err(InitError::InvalidConfig {
                        field: "TELEMETRY_STATSD_PORT",
                        message: got_message("expected u16 port number, got '", s.as_str()),
                    });
                }
            },
            None => 8125,
        };
        let metrics_backend: MetricsBackend = match &v.metrics_backend {
            Some(s) => match MetricsBackend::from_str(s.as_str()) {
                Ok(b) => b,
                Err(e) => {
                    return Err(e);
                }
            },
            None => MetricsBackend::Disabled,
        };
        let eyre_mode: EyreMode = match &v.eyre_mode {
            Some(s) => match EyreMode::from_str(s.as_str()) {
                Ok(m) => m,
                Err(e) => {
                    return Err(e);
                }
            },
            None => EyreMode::Color,
        };
        let preset: TelemetryPreset = match preset_parsed {
            Some(p) => p,
            None => match backend_parsed {
                Some(b) => b.to_preset(),
                None => TelemetryPreset::Local,
            },
        };
        let datadog_endpoint: Option<String> = match v.datadog_endpoint {
            Some(s) => Some(s),
            None => v.tracing_endpoint,
        };
        let tracing_endpoint: Option<String> = match &datadog_endpoint {
            Some(s) => Some(s.clone()),
            None => None,
        };
        let log_level = TelemetryConfig::log_level_from(v.rust_log, v.log_level);
        let tracing = TracingConfig {
            backend: match backend_parsed {
                Some(b) => b,
                None => TracingBackend::Stdout,
            },
            endpoint: tracing_endpoint,
            format: match format_parsed {
                Some(f) => f,
                None => LogFormat::Json,
            },
            location,
            log_level,
        };
        let prometheus = PrometheusConfig {
            mode: prom_mode,
            listen: match v.prometheus_listen {
                Some(s) => s,
                None => "0.0.0.0:9090".to_owned(),
            },
            endpoint: v.prometheus_endpoint,
            interval_secs,
        };
        let statsd = StatsdConfig {
            host: match v.statsd_host {
                Some(s) => s,
                None => "localhost".to_owned(),
            },
            port,
            prefix: v.statsd_prefix,
            queue_size: 5000,
            buffer_size: 1024,
        };
        let metrics = MetricsConfig { backend: metrics_backend, prometheus, statsd };
        let eyre = EyreConfig {
            mode: eyre_mode,
            with_default_backtrace: true,
            with_default_spantrace: true,
        };
        Ok(TelemetryConfig {
            preset,
            service_name: v.service_name,
            log_format: format_parsed,
            datadog_endpoint,
            otlp_endpoint: v.otlp_endpoint,
            metrics,
            eyre,
            tracing,
        })
    }
}

} // verus!
