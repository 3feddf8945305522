//! Tests of battery composition.

use telemetry_batteries::BatteryError;
use telemetry_batteries::MetricsBattery;
use telemetry_batteries::StatsdBattery;
use telemetry_batteries::TelemetryBatteries;
use telemetry_batteries::TracingBattery;

struct NoopTracing;

impl TracingBattery for NoopTracing {
    fn init(&self) -> Result<(), BatteryError> {
        Ok(())
    }
}

struct FailingMetrics;

impl MetricsBattery for FailingMetrics {
    fn init(&self) -> Result<(), BatteryError> {
        Err(BatteryError::SetRecorderError("already set".to_string()))
    }
}

struct NoopMetrics;

impl MetricsBattery for NoopMetrics {
    fn init(&self) -> Result<(), BatteryError> {
        Ok(())
    }
}

#[test]
fn statsd_battery_collects_settings() {
    let b = StatsdBattery::new("statsd.local", 9125, 100, 64, Some("svc")).unwrap();
    assert_eq!(b.host, "statsd.local");
    assert_eq!(b.port, 9125);
    assert_eq!(b.queue_size, 100);
    assert_eq!(b.buffer_size, 64);
    assert_eq!(b.prefix.as_deref(), Some("svc"));
}

#[test]
fn empty_composition_initializes() {
    let batteries: TelemetryBatteries<NoopTracing, NoopMetrics> = TelemetryBatteries::new();
    assert!(batteries.init().is_ok());
}

#[test]
fn composition_runs_both_stages() {
    let batteries: TelemetryBatteries<NoopTracing, NoopMetrics> =
        TelemetryBatteries::new().tracing(NoopTracing).metrics(NoopMetrics);
    assert!(batteries.init().is_ok());
}

#[test]
fn metrics_failure_is_reported() {
    let batteries: TelemetryBatteries<NoopTracing, FailingMetrics> =
        TelemetryBatteries::new().tracing(NoopTracing).metrics(FailingMetrics);
    match batteries.init().unwrap_err() {
        BatteryError::SetRecorderError(m) => assert_eq!(m, "already set"),
        other => panic!("unexpected error: {:?}", other),
    }
}
