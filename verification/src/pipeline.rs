//! The per-event processing pipeline.
//!
//! Severity filtering runs before formatting, and formatting before trace
//! export; the log queue and the span-export stage are independent, so that
//! neither can block or corrupt the other.  Formatted lines go to a bounded
//! queue with an explicit queue-full policy — loss is counted, never silent —
//! and shutdown flushes the queue to the sink and drains the export stage.

use vstd::prelude::*;

use crate::context::TraceContext;
use crate::context::opt_index_view;
use crate::context::resolve_context;
use crate::context::resolved_context;
use crate::fields::fields_view;
use crate::fields::merge_chain;
use crate::fields::merge_fields;
use crate::fields::merged_fields;
use crate::fields::wf_fields;
use crate::fields::FieldsView;
use crate::format::DatadogFormat;
use crate::format::Level;
use crate::format::LogEvent;
use crate::format::LogEventView;
use crate::format::WriteAdapter;
use crate::format::record_bytes;
use crate::format::wf_event;
use crate::json::JsonValue;
use crate::spans::SpanRecordView;
use crate::spans::SpanRegistry;
use crate::spans::OtelSpanData;
use crate::spans::ancestor_chain;
use crate::spans::span_fields_chain;
use crate::spans::wf_spans;

verus! {

/// What to do with a new line when the queue is full.  Silent loss is a
/// correctness gap: the dropping policies count every lost line.
#[derive(Debug, Clone, Copy, PartialEq, Eq)]
pub enum QueueFullPolicy {
    /// Wait for the writer: the queue is drained to the sink, then the new
    /// line is queued.  No line is lost.
    Block,
    /// Drop the new line and count it.
    DropNewest,
    /// Drop the oldest queued line, count it, and queue the new line.
    DropOldest,
}

/// One span lifecycle notice for the export stage.
#[derive(Debug, Clone, Copy, PartialEq, Eq)]
pub struct SpanLifecycle {
    /// The arena index of the span.
    pub span: usize,
    /// Whether this notice reports the close (else the open).
    pub closed: bool,
}

/// The deep view of the line queue.
pub open spec fn queue_view(q: Seq<Vec<u8>>) -> Seq<Seq<u8>> {
    q.map_values(|l: Vec<u8>| l@)
}

/// All queued lines, concatenated in order.
pub open spec fn cat_lines(ls: Seq<Seq<u8>>) -> Seq<u8>
    decreases ls.len(),
{
    if ls.len() == 0 {
        Seq::empty()
    } else {
        ls[0] + cat_lines(ls.drop_first())
    }
}

/// Saturating loss counter.
pub open spec fn sat_inc(d: u64) -> u64 {
    if d == u64::MAX {
        d
    } else {
        (d + 1) as u64
    }
}

/// How one line enters the queue: the relation between the queue, sink and
/// loss counter before and after, under the configured bound and policy.
pub open spec fn enqueue_rel(
    cap: int,
    policy: QueueFullPolicy,
    q0: Seq<Seq<u8>>,
    s0: Seq<u8>,
    d0: u64,
    line: Seq<u8>,
    q1: Seq<Seq<u8>>,
    s1: Seq<u8>,
    d1: u64,
) -> bool {
    if q0.len() < cap {
        q1 == q0.push(line) && s1 == s0 && d1 == d0
    } else {
        match policy {
            QueueFullPolicy::Block => q1 == seq![line] && s1 == s0 + cat_lines(q0) && d1 == d0,
            QueueFullPolicy::DropNewest => q1 == q0 && s1 == s0 && d1 == sat_inc(d0),
            QueueFullPolicy::DropOldest => q1 == q0.drop_first().push(line) && s1 == s0 && d1
                == sat_inc(d0),
        }
    }
}

/// The span an event is charged to: the innermost open span.
pub open spec fn stack_top(stack: Seq<usize>) -> Option<int> {
    if stack.len() == 0 {
        None
    } else {
        Some(stack.last() as int)
    }
}

/// The merged field map of one event: the ancestor chain's field sets
/// root-to-leaf, then the event's own fields.
pub open spec fn event_merged(
    spans: Seq<SpanRecordView>,
    cur: Option<int>,
    ev: LogEventView,
) -> FieldsView {
    match cur {
        Some(i) => merged_fields(span_fields_chain(spans, i), ev.fields),
        None => merged_fields(Seq::empty(), ev.fields),
    }
}

/// The exact line one event produces.
pub open spec fn event_line(
    spans: Seq<SpanRecordView>,
    cur: Option<int>,
    ev: LogEventView,
    ts: Seq<char>,
    location: bool,
) -> Seq<u8> {
    record_bytes(ts, ev, location, event_merged(spans, cur, ev), resolved_context(spans, cur, None))
}

/// The per-event processing pipeline.
#[derive(Debug)]
pub struct Pipeline {
    /// The formatting strategy, chosen once at initialization.
    pub format: DatadogFormat,
    /// Events below this severity are filtered out before formatting.
    pub min_level: Level,
    /// The span arena.
    pub registry: SpanRegistry,
    /// The active span scope stack, innermost last.
    pub stack: Vec<usize>,
    /// The queue bound (at least one).
    pub capacity: usize,
    /// What to do when the queue is full.
    pub policy: QueueFullPolicy,
    /// Formatted lines awaiting the writer.
    pub queue: Vec<Vec<u8>>,
    /// The downstream sink the writer drains into.
    pub sink: WriteAdapter,
    /// Lines lost to the queue-full policy.
    pub dropped: u64,
    /// Span lifecycle notices awaiting export.
    pub export_queue: Vec<SpanLifecycle>,
    /// Lifecycle notices handed to the export backend.
    pub exported: Vec<SpanLifecycle>,
}

impl Pipeline {
    /// The pipeline invariant: a well-formed arena, stack entries inside the
    /// arena, and a bounded queue.
    pub open spec fn wf(&self) -> bool {
        &&& wf_spans(self.registry@)
        &&& self.capacity >= 1
        &&& self.queue@.len() <= self.capacity
        &&& forall|j: int| 0 <= j < self.stack@.len() ==> self.stack@[j] < self.registry@.len()
    }

    /// A fresh pipeline with an empty arena, queue and sink.
    pub fn new(format: DatadogFormat, min_level: Level, capacity: usize, policy: QueueFullPolicy) -> (r: Pipeline)
        requires
            capacity >= 1,
        ensures
            r.wf(),
            r.format == format,
            r.min_level == min_level,
            r.capacity == capacity,
            r.policy == policy,
            r.registry@.len() == 0,
            r.stack@.len() == 0,
            r.queue@.len() == 0,
            r.sink@.len() == 0,
            r.dropped == 0,
            r.export_queue@.len() == 0,
            r.exported@.len() == 0,
    {
        Pipeline {
            format,
            min_level,
            registry: SpanRegistry::new(),
            stack: Vec::new(),
            capacity,
            policy,
            queue: Vec::new(),
            sink: WriteAdapter::new(),
            dropped: 0,
            export_queue: Vec::new(),
            exported: Vec::new(),
        }
    }

    /// Drain every queued line to the sink, in order.
    pub fn flush_queue(&mut self)
        requires
            old(self).wf(),
        ensures
            final(self).wf(),
            final(self).sink@ == old(self).sink@ + cat_lines(queue_view(old(self).queue@)),
            final(self).queue@.len() == 0,
            final(self).registry@ == old(self).registry@,
            final(self).stack@ == old(self).stack@,
            final(self).dropped == old(self).dropped,
            final(self).export_queue@ == old(self).export_queue@,
            final(self).exported@ == old(self).exported@,
            final(self).format == old(self).format,
            final(self).min_level == old(self).min_level,
            final(self).capacity == old(self).capacity,
            final(self).policy == old(self).policy,
    {
        let ghost s0 = self.sink@;
        let ghost q0 = queue_view(self.queue@);
        while self.queue.len() > 0
            invariant
                wf_spans(self.registry@),
                self.capacity >= 1,
                self.queue@.len() <= self.capacity,
                s0 + cat_lines(q0) == self.sink@ + cat_lines(queue_view(self.queue@)),
                self.registry@ == old(self).registry@,
                self.stack@ == old(self).stack@,
                self.dropped == old(self).dropped,
                self.export_queue@ == old(self).export_queue@,
                self.exported@ == old(self).exported@,
                self.format == old(self).format,
                self.min_level == old(self).min_level,
                self.capacity == old(self).capacity,
                self.policy == old(self).policy,
            decreases self.queue@.len(),
        {
            let ghost qbefore = queue_view(self.queue@);
            let ghost sbefore = self.sink@;
            let line = self.queue.remove(0);
            self.sink.write(&line);
            proof {
                assert(queue_view(self.queue@) =~= qbefore.drop_first());
                assert(qbefore[0] == line@);
                assert(cat_lines(qbefore) == qbefore[0] + cat_lines(qbefore.drop_first()));
                assert(sbefore + cat_lines(qbefore) =~= (sbefore + line@) + cat_lines(
                    qbefore.drop_first(),
                ));
            }
        }
        proof {
            assert(cat_lines(queue_view(self.queue@)) =~= Seq::<u8>::empty());
            assert(self.sink@ =~= s0 + cat_lines(q0));
        }
    }

    /// Put one formatted line on the queue, under the bound and policy.
    fn enqueue_line(&mut self, line: Vec<u8>)
        requires
            old(self).wf(),
        ensures
            final(self).wf(),
            enqueue_rel(
                old(self).capacity as int,
                old(self).policy,
                queue_view(old(self).queue@),
                old(self).sink@,
                old(self).dropped,
                line@,
                queue_view(final(self).queue@),
                final(self).sink@,
                final(self).dropped,
            ),
            final(self).registry@ == old(self).registry@,
            final(self).stack@ == old(self).stack@,
            final(self).export_queue@ == old(self).export_queue@,
            final(self).exported@ == old(self).exported@,
            final(self).format == old(self).format,
            final(self).min_level == old(self).min_level,
            final(self).capacity == old(self).capacity,
            final(self).policy == old(self).policy,
    {
        if self.queue.len() < self.capacity {
            self.queue.push(line);
            proof {
                assert(queue_view(self.queue@) =~= queue_view(old(self).queue@).push(line@));
            }
        } else {
            match self.policy {
                QueueFullPolicy::Block => {
                    self.flush_queue();
                    self.queue.push(line);
                    proof {
                        assert(queue_view(self.queue@) =~= seq![line@]);
                    }
                }
                QueueFullPolicy::DropNewest => {
                    if self.dropped < u64::MAX {
                        self.dropped = self.dropped + 1;
                    }
                    proof {
                        assert(queue_view(self.queue@) =~= queue_view(old(self).queue@));
                    }
                }
                QueueFullPolicy::DropOldest => {
                    let _oldest = self.queue.remove(0);
                    self.queue.push(line);
                    if self.dropped < u64::MAX {
                        self.dropped = self.dropped + 1;
                    }
                    proof {
                        assert(queue_view(self.queue@) =~= queue_view(
                            old(self).queue@,
                        ).drop_first().push(line@));
                    }
                }
            }
        }
    }

    /// Open a span under the innermost open span, make it current, and hand
    /// the open notice to the export stage.
    pub fn open_span(&mut self, name: String, fields: Vec<(String, JsonValue)>) -> (idx: usize)
        requires
            old(self).wf(),
            wf_fields(fields_view(fields@)),
        ensures
            final(self).wf(),
            idx == old(self).registry@.len(),
            final(self).registry@.len() == old(self).registry@.len() + 1,
            forall|j: int|
                0 <= j < old(self).registry@.len() ==> final(self).registry@[j] == old(self).registry@[j],
            final(self).registry@[idx as int].name == name@,
            final(self).registry@[idx as int].fields == fields_view(fields@),
            final(self).registry@[idx as int].parent == stack_top(old(self).stack@),
            final(self).registry@[idx as int].otel is None,
            final(self).registry@[idx as int].cache is None,
            final(self).stack@ == old(self).stack@.push(idx),
            final(self).export_queue@ == old(self).export_queue@.push(
                SpanLifecycle { span: idx, closed: false },
            ),
            final(self).queue@ == old(self).queue@,
            final(self).sink@ == old(self).sink@,
            final(self).dropped == old(self).dropped,
            final(self).exported@ == old(self).exported@,
            final(self).format == old(self).format,
            final(self).min_level == old(self).min_level,
            final(self).capacity == old(self).capacity,
            final(self).policy == old(self).policy,
    {
        let parent: Option<usize> = if self.stack.len() == 0 {
            None
        } else {
            Some(self.stack[self.stack.len() - 1])
        };
        let idx = self.registry.open_span(name, fields, parent);
        self.stack.push(idx);
        self.export_queue.push(SpanLifecycle { span: idx, closed: false });
        idx
    }

    /// Attach trace metadata to a span, as the export stage does.  A
    /// locally assigned id must not be the reserved all-zero value.
    pub fn attach_otel(&mut self, i: usize, data: OtelSpanData)
        requires
            old(self).wf(),
            i < old(self).registry@.len(),
            crate::spans::wf_otel_data(data),
        ensures
            final(self).wf(),
            final(self).registry@.len() == old(self).registry@.len(),
            forall|j: int|
                0 <= j < old(self).registry@.len() && j != i ==> final(self).registry@[j] == old(self).registry@[j],
            final(self).registry@[i as int].otel == Some(data),
            final(self).registry@[i as int].name == old(self).registry@[i as int].name,
            final(self).registry@[i as int].parent == old(self).registry@[i as int].parent,
            final(self).registry@[i as int].fields == old(self).registry@[i as int].fields,
            final(self).registry@[i as int].cache == old(self).registry@[i as int].cache,
            final(self).stack@ == old(self).stack@,
            final(self).queue@ == old(self).queue@,
            final(self).sink@ == old(self).sink@,
            final(self).dropped == old(self).dropped,
            final(self).export_queue@ == old(self).export_queue@,
            final(self).exported@ == old(self).exported@,
            final(self).format == old(self).format,
            final(self).min_level == old(self).min_level,
            final(self).capacity == old(self).capacity,
            final(self).policy == old(self).policy,
    {
        self.registry.attach_otel(i, data);
    }

    /// Close the innermost open span.  The export stage acts first and has
    /// already evicted the span's trace metadata by the time the close
    /// notice is queued — the documented ordering hazard the context
    /// resolver tolerates.
    pub fn close_span(&mut self) -> (r: Option<usize>)
        requires
            old(self).wf(),
        ensures
            final(self).wf(),
            old(self).stack@.len() == 0 ==> r is None && final(self).stack@ == old(self).stack@
                && final(self).registry@ == old(self).registry@ && final(self).export_queue@ == old(self).export_queue@,
            old(self).stack@.len() > 0 ==> {
                &&& r == Some(old(self).stack@.last())
                &&& final(self).stack@ == old(self).stack@.drop_last()
                &&& final(self).registry@.len() == old(self).registry@.len()
                &&& forall|j: int|
                    0 <= j < old(self).registry@.len() && j != old(self).stack@.last() ==> final(self).registry@[j] == old(self).registry@[j]
                &&& final(self).registry@[old(self).stack@.last() as int].otel is None
                &&& final(self).registry@[old(self).stack@.last() as int].fields == old(self).registry@[old(self).stack@.last() as int].fields
                &&& final(self).registry@[old(self).stack@.last() as int].parent == old(self).registry@[old(self).stack@.last() as int].parent
                &&& final(self).export_queue@ == old(self).export_queue@.push(
                    SpanLifecycle { span: old(self).stack@.last(), closed: true },
                )
            },
            final(self).queue@ == old(self).queue@,
            final(self).sink@ == old(self).sink@,
            final(self).dropped == old(self).dropped,
            final(self).exported@ == old(self).exported@,
            final(self).format == old(self).format,
            final(self).min_level == old(self).min_level,
            final(self).capacity == old(self).capacity,
            final(self).policy == old(self).policy,
    {
        if self.stack.len() == 0 {
            return None;
        }
        let idx = self.stack[self.stack.len() - 1];
        self.stack.pop();
        proof {
            assert(self.stack@ =~= old(self).stack@.drop_last());
        }
        self.registry.evict_otel(idx);
        self.export_queue.push(SpanLifecycle { span: idx, closed: true });
        Some(idx)
    }

    /// Process one event: filter by severity, resolve the trace context,
    /// merge the inherited fields, format exactly one line, and queue it.
    /// The span-export stage is untouched.
    #[verifier::rlimit(60)]
    pub fn on_event(&mut self, event: &LogEvent, ts: &str)
        requires
            old(self).wf(),
            wf_event(event@),
        ensures
            final(self).wf(),
            // the registry keeps its spans; only field caches may fill in
            final(self).registry@.len() == old(self).registry@.len(),
            forall|j: int|
                0 <= j < old(self).registry@.len() ==> (#[trigger] final(self).registry@[j]).parent
                    == old(self).registry@[j].parent && final(self).registry@[j].fields == old(self).registry@[j].fields && final(self).registry@[j].otel == old(self).registry@[j].otel && final(self).registry@[j].name == old(self).registry@[j].name,
            final(self).stack@ == old(self).stack@,
            final(self).export_queue@ == old(self).export_queue@,
            final(self).exported@ == old(self).exported@,
            final(self).format == old(self).format,
            final(self).min_level == old(self).min_level,
            final(self).capacity == old(self).capacity,
            final(self).policy == old(self).policy,
            // filtering runs before formatting: a filtered event changes nothing
            event@.level.severity_spec() < old(self).min_level.severity_spec() ==> final(self).queue@ == old(self).queue@ && final(self).sink@ == old(self).sink@ && final(self).dropped == old(self).dropped && final(self).registry@ == old(self).registry@,
            // a passing event queues exactly its record, under the policy
            event@.level.severity_spec() >= old(self).min_level.severity_spec() ==> enqueue_rel(
                old(self).capacity as int,
                old(self).policy,
                queue_view(old(self).queue@),
                old(self).sink@,
                old(self).dropped,
                event_line(
                    old(self).registry@,
                    stack_top(old(self).stack@),
                    event@,
                    ts@,
                    old(self).format.location,
                ),
                queue_view(final(self).queue@),
                final(self).sink@,
                final(self).dropped,
            ),
    {
        if event.level.severity() < self.min_level.severity() {
            return;
        }
        let ghost reg0 = self.registry@;
        let ghost curv = stack_top(self.stack@);
        let current: Option<usize> = if self.stack.len() == 0 {
            None
        } else {
            Some(self.stack[self.stack.len() - 1])
        };
        proof {
            assert(opt_index_view(current) == curv);
        }
        let mut merged: Vec<(String, JsonValue)> = Vec::new();
        let ghost sets: Seq<FieldsView> = match curv {
            Some(i) => span_fields_chain(reg0, i),
            None => Seq::empty(),
        };
        match current {
            Some(leaf) => {
                let chain = self.registry.collect_chain(leaf);
                proof {
                    crate::spans::lemma_chain_in_bounds(reg0, leaf as int);
                    assert(chain@.map_values(|x: usize| x as int) == ancestor_chain(
                        reg0,
                        leaf as int,
                    ));
                    assert forall|m: int| 0 <= m < chain@.len() implies (#[trigger] chain@[m])
                        < reg0.len() by {
                        assert(chain@.map_values(|x: usize| x as int)[m] == chain@[m] as int);
                        assert(ancestor_chain(reg0, leaf as int)[m] < reg0.len());
                    }
                    assert(sets.take(0) =~= Seq::<FieldsView>::empty());
                    assert(fields_view(merged@) =~= Seq::<(
                        Seq<char>,
                        crate::json::JsonValueView,
                    )>::empty());
                }
                let mut k: usize = 0;
                while k < chain.len()
                    invariant
                        k <= chain@.len(),
                        self.registry@.len() == reg0.len(),
                        wf_spans(self.registry@),
                        forall|j: int|
                            0 <= j < reg0.len() ==> (#[trigger] self.registry@[j]).parent
                                == reg0[j].parent && self.registry@[j].fields == reg0[j].fields
                                && self.registry@[j].otel == reg0[j].otel
                                && self.registry@[j].name == reg0[j].name,
                        chain@.map_values(|x: usize| x as int) == ancestor_chain(
                            reg0,
                            stack_top(self.stack@)->Some_0,
                        ),
                        curv == stack_top(self.stack@),
                        curv is Some,
                        sets == span_fields_chain(reg0, curv->Some_0),
                        forall|m: int|
                            0 <= m < chain@.len() ==> (#[trigger] chain@[m]) < reg0.len(),
                        fields_view(merged@) == merge_chain(sets.take(k as int)),
                        self.stack@ == old(self).stack@,
                        self.queue@ == old(self).queue@,
                        self.sink@ == old(self).sink@,
                        self.dropped == old(self).dropped,
                        self.export_queue@ == old(self).export_queue@,
                        self.exported@ == old(self).exported@,
                        self.format == old(self).format,
                        self.min_level == old(self).min_level,
                        self.capacity == old(self).capacity,
                        self.policy == old(self).policy,
                    decreases chain@.len() - k,
                {
                    let idx = chain[k];
                    self.registry.ensure_cached(idx);
                    let ghost before = fields_view(merged@);
                    let cache = self.registry.cached_ref(idx);
                    merge_fields(&mut merged, cache);
                    proof {
                        assert(fields_view(cache@) == self.registry@[idx as int].fields);
                        assert(self.registry@[idx as int].fields == reg0[idx as int].fields);
                        assert(sets[k as int] == reg0[ancestor_chain(
                            reg0,
                            curv->Some_0,
                        )[k as int]].fields);
                        assert(ancestor_chain(reg0, curv->Some_0)[k as int] == chain@[
                            k as int] as int);
                        assert(fields_view(cache@) == sets[k as int]);
                        crate::fields::lemma_merge_chain_step(sets, k as int);
                        assert(fields_view(merged@) == merge_chain(sets.take(k as int + 1)));
                    }
                    k = k + 1;
                }
                proof {
                    assert(sets.take(sets.len() as int) =~= sets);
                    assert(chain@.len() == sets.len());
                    assert(fields_view(merged@) == merge_chain(sets));
                }
            }
            None => {
                proof {
                    assert(fields_view(merged@) =~= Seq::<(
                        Seq<char>,
                        crate::json::JsonValueView,
                    )>::empty());
                    assert(merge_chain(sets) =~= Seq::<(
                        Seq<char>,
                        crate::json::JsonValueView,
                    )>::empty());
                }
            }
        }
        merge_fields(&mut merged, &event.fields);
        proof {
            assert(fields_view(merged@) == merged_fields(sets, event@.fields));
            assert(fields_view(merged@) == event_merged(reg0, curv, event@));
        }
        let ctx: Option<TraceContext> = resolve_context(&self.registry, current, None);
        proof {
            assert(resolved_context(self.registry@, curv, None) == resolved_context(
                reg0,
                curv,
                None,
            ));
        }
        let line = self.format.format_event(ts, event, &merged, ctx);
        proof {
            assert(line@ == event_line(reg0, curv, event@, ts@, self.format.location));
            assert(self.wf());
        }
        self.enqueue_line(line);
    }

    /// Process one event with the timestamp taken now.  Whatever string the
    /// clock produced, the queued record is the one `on_event` states for
    /// it.
    pub fn on_event_now(&mut self, event: &LogEvent)
        requires
            old(self).wf(),
            wf_event(event@),
        ensures
            final(self).wf(),
            final(self).registry@.len() == old(self).registry@.len(),
            forall|j: int|
                0 <= j < old(self).registry@.len() ==> (#[trigger] final(self).registry@[j]).parent
                    == old(self).registry@[j].parent && final(self).registry@[j].fields == old(self).registry@[j].fields && final(self).registry@[j].otel == old(self).registry@[j].otel && final(self).registry@[j].name == old(self).registry@[j].name,
            final(self).stack@ == old(self).stack@,
            final(self).export_queue@ == old(self).export_queue@,
            final(self).exported@ == old(self).exported@,
            final(self).min_level == old(self).min_level,
            final(self).format == old(self).format,
            final(self).capacity == old(self).capacity,
            final(self).policy == old(self).policy,
            // a filtered event changes nothing
            event@.level.severity_spec() < old(self).min_level.severity_spec() ==> final(self).queue@ == old(self).queue@ && final(self).sink@ == old(self).sink@ && final(self).dropped == old(self).dropped && final(self).registry@ == old(self).registry@,
            // a passing event queues exactly its record, for the timestamp
            // the clock produced
            event@.level.severity_spec() >= old(self).min_level.severity_spec() ==> exists|
                ts: Seq<char>,
            |
                enqueue_rel(
                    old(self).capacity as int,
                    old(self).policy,
                    queue_view(old(self).queue@),
                    old(self).sink@,
                    old(self).dropped,
                    event_line(
                        old(self).registry@,
                        stack_top(old(self).stack@),
                        event@,
                        ts,
                        old(self).format.location,
                    ),
                    queue_view(final(self).queue@),
                    final(self).sink@,
                    final(self).dropped,
                ),
    {
        let ts = now_rfc3339();
        self.on_event(event, ts.as_str());
        proof {
            if event@.level.severity_spec() >= old(self).min_level.severity_spec() {
                assert(enqueue_rel(
                    old(self).capacity as int,
                    old(self).policy,
                    queue_view(old(self).queue@),
                    old(self).sink@,
                    old(self).dropped,
                    event_line(
                        old(self).registry@,
                        stack_top(old(self).stack@),
                        event@,
                        ts@,
                        old(self).format.location,
                    ),
                    queue_view(self.queue@),
                    self.sink@,
                    self.dropped,
                ));
            }
        }
    }

    /// Flush buffered lines, then drain the export stage, in that order.
    /// Under a clean shutdown no queued line is lost.
    pub fn shutdown(&mut self)
        requires
            old(self).wf(),
        ensures
            final(self).wf(),
            final(self).sink@ == old(self).sink@ + cat_lines(queue_view(old(self).queue@)),
            final(self).queue@.len() == 0,
            final(self).exported@ == old(self).exported@ + old(self).export_queue@,
            final(self).export_queue@.len() == 0,
            final(self).registry@ == old(self).registry@,
            final(self).stack@ == old(self).stack@,
            final(self).dropped == old(self).dropped,
            final(self).format == old(self).format,
            final(self).min_level == old(self).min_level,
            final(self).capacity == old(self).capacity,
            final(self).policy == old(self).policy,
    {
        self.flush_queue();
        self.exported.append(&mut self.export_queue);
    }
}

/// Relies on `chrono::Utc::now().to_rfc3339()`: the wall-clock instant in
/// RFC 3339 form.  The clock decides the contents; nothing is assumed of
/// them.
#[verifier::external_body]
fn now_rfc3339() -> String {
    chrono::Utc::now().to_rfc3339()
}

} // verus!
