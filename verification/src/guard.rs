//! Scoped shutdown of the telemetry pipeline.
//!
//! The guard owns what must stay alive while the program logs.  Shutting it
//! down — once, at the end of the owning scope — flushes every buffered log
//! line to the sink and then drains the span-export stage, in that order.

use vstd::prelude::*;

use crate::pipeline::Pipeline;
use crate::pipeline::cat_lines;
use crate::pipeline::queue_view;

verus! {

/// Marks that the trace-export backend is installed and must be shut down
/// when this handle is released.
#[must_use]
#[derive(Debug)]
pub struct TracingShutdownHandle;

/// Guard that ensures telemetry is properly shut down at the end of the
/// owning scope.
pub struct TelemetryGuard {
    /// Shutdown handle of the trace-export backend, if one was installed.
    pub tracing_handle: Option<TracingShutdownHandle>,
    /// The log pipeline to flush on shutdown, if the guard owns one.
    pub pipeline: Option<Pipeline>,
}

impl TelemetryGuard {
    /// A guard holding the export backend's shutdown handle.
    pub fn new(tracing_handle: Option<TracingShutdownHandle>) -> (r: TelemetryGuard)
        ensures
            r.pipeline is None,
            r.tracing_handle is Some <==> tracing_handle is Some,
    {
        TelemetryGuard { tracing_handle, pipeline: None }
    }

    /// Hand the guard the pipeline to flush on shutdown.
    pub fn with_pipeline(self, pipeline: Pipeline) -> (r: TelemetryGuard)
        ensures
            r.pipeline == Some(pipeline),
            r.tracing_handle is Some <==> self.tracing_handle is Some,
    {
        TelemetryGuard { tracing_handle: self.tracing_handle, pipeline: Some(pipeline) }
    }

    /// Release the guard: flush every buffered log line to the sink, then
    /// drain the span-export stage.  Under a clean shutdown no queued line
    /// is lost.
    pub fn shutdown(&mut self)
        requires
            match old(self).pipeline {
                Some(p) => p.wf(),
                None => true,
            },
        ensures
            match old(self).pipeline {
                Some(p) => final(self).pipeline matches Some(q) && ({
                    &&& q.wf()
                    &&& q.sink@ == p.sink@ + cat_lines(queue_view(p.queue@))
                    &&& q.queue@.len() == 0
                    &&& q.exported@ == p.exported@ + p.export_queue@
                    &&& q.export_queue@.len() == 0
                }),
                None => final(self).pipeline is None,
            },
    {
        match &mut self.pipeline {
            Some(p) => {
                p.shutdown();
            }
            None => {}
        }
    }
}

} // verus!
