//! Resolving the trace context for a log event.
//!
//! The resolver looks up the event's active span — falling back to the
//! event's parent span when the active one cannot be found, the tolerated
//! ordering hazard of span-close processing — and reads the trace metadata
//! the export stage attached to it.  A remote parent context with a non-zero
//! id wins over the locally assigned id; an event with no span at all has no
//! context, which is an absence, not an error.

use vstd::prelude::*;

use crate::spans::OtelSpanData;
use crate::spans::SpanRecordView;
use crate::spans::SpanRegistry;
use crate::spans::wf_spans;

verus! {

/// A resolved (trace id, span id) pair.  When a context is reported both
/// fields are present; "no context" is `None` at the caller, never a pair of
/// zero ids.
#[derive(Debug, Clone, Copy, PartialEq, Eq)]
pub struct TraceContext {
    /// The full trace id; the wire format consumes only its low 64 bits.
    pub trace_id: u128,
    /// The span id.
    pub span_id: u64,
}

/// The span an event is charged to: the currently active span, or the
/// event's parent span when no span is current.
pub open spec fn span_for_event(current: Option<int>, parent: Option<int>) -> Option<int> {
    match current {
        Some(c) => Some(c),
        None => parent,
    }
}

/// The trace id carried by span metadata: the remote parent context when its
/// trace id is non-zero (context was propagated in), else the id assigned
/// locally at span creation.
pub open spec fn trace_id_of(d: OtelSpanData) -> Option<u128> {
    if d.parent_trace_id != 0 {
        Some(d.parent_trace_id)
    } else {
        d.builder_trace_id
    }
}

/// The span id carried by span metadata, with the same precedence.
pub open spec fn span_id_of(d: OtelSpanData) -> Option<u64> {
    if d.parent_span_id != 0 {
        Some(d.parent_span_id)
    } else {
        d.builder_span_id
    }
}

/// The trace id an event resolves to, if any.
pub open spec fn resolved_trace_id(
    spans: Seq<SpanRecordView>,
    current: Option<int>,
    parent: Option<int>,
) -> Option<u128> {
    match span_for_event(current, parent) {
        Some(i) => if 0 <= i < spans.len() {
            match spans[i].otel {
                Some(d) => trace_id_of(d),
                None => None,
            }
        } else {
            None
        },
        None => None,
    }
}

/// The span id an event resolves to, if any.
pub open spec fn resolved_span_id(
    spans: Seq<SpanRecordView>,
    current: Option<int>,
    parent: Option<int>,
) -> Option<u64> {
    match span_for_event(current, parent) {
        Some(i) => if 0 <= i < spans.len() {
            match spans[i].otel {
                Some(d) => span_id_of(d),
                None => None,
            }
        } else {
            None
        },
        None => None,
    }
}

/// The context an event resolves to: present exactly when both ids resolve.
pub open spec fn resolved_context(
    spans: Seq<SpanRecordView>,
    current: Option<int>,
    parent: Option<int>,
) -> Option<TraceContext> {
    match (
        resolved_trace_id(spans, current, parent),
        resolved_span_id(spans, current, parent),
    ) {
        (Some(t), Some(s)) => Some(TraceContext { trace_id: t, span_id: s }),
        _ => None,
    }
}

/// The view of an optional arena index.
pub open spec fn opt_index_view(i: Option<usize>) -> Option<int> {
    match i {
        Some(x) => Some(x as int),
        None => None,
    }
}

/// Find the trace id for an event, walking up one level when the current
/// span is unavailable.
pub fn opentelemetry_trace_id(
    registry: &SpanRegistry,
    current: Option<usize>,
    parent: Option<usize>,
) -> (r: Option<u128>)
    requires
        wf_spans(registry@),
        match current {
            Some(c) => c < registry@.len(),
            None => true,
        },
        match parent {
            Some(p) => p < registry@.len(),
            None => true,
        },
    ensures
        r == resolved_trace_id(registry@, opt_index_view(current), opt_index_view(parent)),
        r matches Some(t) ==> t != 0,
{
    let i = match current {
        Some(c) => c,
        None => match parent {
            Some(p) => p,
            None => {
                return None;
            }
        },
    };
    match registry.spans[i].otel {
        Some(d) => {
            if d.parent_trace_id != 0 {
                Some(d.parent_trace_id)
            } else {
                d.builder_trace_id
            }
        }
        None => None,
    }
}

/// Find the span id for an event, with the same fallback.
pub fn opentelemetry_span_id(
    registry: &SpanRegistry,
    current: Option<usize>,
    parent: Option<usize>,
) -> (r: Option<u64>)
    requires
        wf_spans(registry@),
        match current {
            Some(c) => c < registry@.len(),
            None => true,
        },
        match parent {
            Some(p) => p < registry@.len(),
            None => true,
        },
    ensures
        r == resolved_span_id(registry@, opt_index_view(current), opt_index_view(parent)),
        r matches Some(s) ==> s != 0,
{
    let i = match current {
        Some(c) => c,
        None => match parent {
            Some(p) => p,
            None => {
                return None;
            }
        },
    };
    match registry.spans[i].otel {
        Some(d) => {
            if d.parent_span_id != 0 {
                Some(d.parent_span_id)
            } else {
                d.builder_span_id
            }
        }
        None => None,
    }
}

/// Resolve the full context for an event: `None` when no span is active and
/// none is inherited, or when the chosen span carries no usable metadata.
pub fn resolve_context(
    registry: &SpanRegistry,
    current: Option<usize>,
    parent: Option<usize>,
) -> (r: Option<TraceContext>)
    requires
        wf_spans(registry@),
        match current {
            Some(c) => c < registry@.len(),
            None => true,
        },
        match parent {
            Some(p) => p < registry@.len(),
            None => true,
        },
    ensures
        r == resolved_context(registry@, opt_index_view(current), opt_index_view(parent)),
        current is None && parent is None ==> r is None,
        r matches Some(c) ==> c.trace_id != 0 && c.span_id != 0,
{
    let t = opentelemetry_trace_id(registry, current, parent);
    let s = opentelemetry_span_id(registry, current, parent);
    match (t, s) {
        (Some(trace_id), Some(span_id)) => Some(TraceContext { trace_id, span_id }),
        _ => None,
    }
}

} // verus!
