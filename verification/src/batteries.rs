//! Battery composition: pluggable tracing and metrics stages.
//!
//! A battery is a configured stage a user hands to [`TelemetryBatteries`];
//! its `init` performs whatever installation the stage needs.  The library
//! validates and carries the configuration; the installation itself is the
//! caller's implementation.

use vstd::prelude::*;

verus! {

/// A failure while initializing a battery.
#[derive(Debug, PartialEq, Eq)]
pub enum BatteryError {
    /// The trace exporter failed to install.
    TraceError(String),
    /// A worker guard was already set.
    WorkerGuardSetError(String),
    /// An I/O failure.
    IoError(String),
    /// The global metrics recorder was already set.
    SetRecorderError(String),
    /// The StatsD exporter failed to build.
    StatsdError(String),
}

/// A tracing stage: implementors install their subscriber when asked.
pub trait TracingBattery {
    fn init(&self) -> Result<(), BatteryError>;
}

/// A metrics stage: implementors install their recorder when asked.
pub trait MetricsBattery {
    fn init(&self) -> Result<(), BatteryError>;
}

/// The validated settings of a StatsD metrics stage.
#[derive(Debug, PartialEq, Eq)]
pub struct StatsdBattery {
    /// StatsD server host.
    pub host: String,
    /// StatsD server port.
    pub port: u16,
    /// Queue size for the exporter.
    pub queue_size: usize,
    /// Buffer size for the exporter.
    pub buffer_size: usize,
    /// Metric name prefix.
    pub prefix: Option<String>,
}

impl StatsdBattery {
    /// Collect the settings of a StatsD stage.
    pub fn new(
        host: &str,
        port: u16,
        queue_size: usize,
        buffer_size: usize,
        prefix: Option<&str>,
    ) -> (r: Result<StatsdBattery, BatteryError>)
        ensures
            r matches Ok(b) && ({
                &&& b.host@ == host@
                &&& b.port == port
                &&& b.queue_size == queue_size
                &&& b.buffer_size == buffer_size
                &&& match (b.prefix, prefix) {
                    (Some(a), Some(c)) => a@ == c@,
                    (None, None) => true,
                    _ => false,
                }
            }),
    {
        Ok(StatsdBattery {
            host: host.to_owned(),
            port,
            queue_size,
            buffer_size,
            prefix: match prefix {
                Some(p) => Some(p.to_owned()),
                None => None,
            },
        })
    }
}

/// The composition of an optional tracing stage and an optional metrics
/// stage.
pub struct TelemetryBatteries<T: TracingBattery, M: MetricsBattery> {
    /// The tracing stage, if any.
    pub tracing_battery: Option<T>,
    /// The metrics stage, if any.
    pub metrics_battery: Option<M>,
}

impl<T: TracingBattery, M: MetricsBattery> TelemetryBatteries<T, M> {
    /// No stages yet.
    pub fn new() -> (r: TelemetryBatteries<T, M>)
        ensures
            r.tracing_battery is None,
            r.metrics_battery is None,
    {
        TelemetryBatteries { tracing_battery: None, metrics_battery: None }
    }

    /// Add a tracing stage.
    pub fn tracing(self, battery: T) -> (r: TelemetryBatteries<T, M>)
        ensures
            r.tracing_battery == Some(battery),
            r.metrics_battery == self.metrics_battery,
    {
        TelemetryBatteries { tracing_battery: Some(battery), metrics_battery: self.metrics_battery }
    }

    /// Add a metrics stage.
    pub fn metrics(self, battery: M) -> (r: TelemetryBatteries<T, M>)
        ensures
            r.metrics_battery == Some(battery),
            r.tracing_battery == self.tracing_battery,
    {
        TelemetryBatteries { tracing_battery: self.tracing_battery, metrics_battery: Some(battery) }
    }

    /// Initialize the stages that were added, tracing first.  With no
    /// stages added nothing can fail.
    pub fn init(self) -> (r: Result<(), BatteryError>)
        ensures
            self.tracing_battery is None && self.metrics_battery is None ==> r is Ok,
    {
        if let Some(tracing_battery) = &self.tracing_battery {
            match tracing_battery.init() {
                Ok(_) => {}
                Err(e) => {
                    return Err(e);
                }
            }
        }
        if let Some(metrics_battery) = &self.metrics_battery {
            match metrics_battery.init() {
                Ok(_) => {}
                Err(e) => {
                    return Err(e);
                }
            }
        }
        Ok(())
    }
}

} // verus!
