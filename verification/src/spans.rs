//! The span registry: an arena of span records indexed by integer id.
//!
//! A child span holds the index of its parent; a parent never points at its
//! children, so the arena is free of ownership cycles.  Each record carries
//! the raw fields the span was opened with, a lazily populated cache of those
//! fields as they were first formatted, and the trace metadata the span
//! export stage attached to the span — which that stage may also have evicted
//! again, the ordering hazard the context resolver must tolerate.

use vstd::prelude::*;

use crate::fields::FieldsView;
use crate::fields::fields_view;
use crate::fields::wf_fields;
use crate::json::JsonValue;

verus! {

/// Trace metadata attached to a span by the export stage.
///
/// The `parent_*` pair is the remote parent context propagated in from an
/// external caller; an all-zero id means none was propagated.  The
/// `builder_*` pair is the identity assigned locally when the span was
/// created.
#[derive(Debug, Clone, Copy, PartialEq, Eq)]
pub struct OtelSpanData {
    pub parent_trace_id: u128,
    pub parent_span_id: u64,
    pub builder_trace_id: Option<u128>,
    pub builder_span_id: Option<u64>,
}

/// One span in the arena.
#[derive(Debug)]
pub struct SpanRecord {
    /// The span's name.
    pub name: String,
    /// Arena index of the enclosing span, if any.
    pub parent: Option<usize>,
    /// Trace metadata, absent until attached and absent again once evicted.
    pub otel: Option<OtelSpanData>,
    /// The fields the span was opened with (unique keys).
    pub fields: Vec<(String, JsonValue)>,
    /// The fields as first formatted; `None` until the span is formatted.
    pub cache: Option<Vec<(String, JsonValue)>>,
}

/// The model of one span record.
pub struct SpanRecordView {
    pub name: Seq<char>,
    pub parent: Option<int>,
    pub otel: Option<OtelSpanData>,
    pub fields: FieldsView,
    pub cache: Option<FieldsView>,
}

impl View for SpanRecord {
    type V = SpanRecordView;

    open spec fn view(&self) -> SpanRecordView {
        SpanRecordView {
            name: self.name@,
            parent: match self.parent {
                Some(p) => Some(p as int),
                None => None,
            },
            otel: self.otel,
            fields: fields_view(self.fields@),
            cache: match self.cache {
                Some(c) => Some(fields_view(c@)),
                None => None,
            },
        }
    }
}

/// The arena of span records.
#[derive(Debug)]
pub struct SpanRegistry {
    pub spans: Vec<SpanRecord>,
}

impl View for SpanRegistry {
    type V = Seq<SpanRecordView>;

    open spec fn view(&self) -> Seq<SpanRecordView> {
        self.spans@.map_values(|r: SpanRecord| r@)
    }
}

/// Well-formedness of span metadata: a locally assigned id is never the
/// all-zero value, which is reserved to mean "absent".  (The remote parent
/// ids use zero for exactly that: nothing was propagated in.)
pub open spec fn wf_otel_data(d: OtelSpanData) -> bool {
    &&& match d.builder_trace_id {
        Some(t) => t != 0,
        None => true,
    }
    &&& match d.builder_span_id {
        Some(s) => s != 0,
        None => true,
    }
}

/// Well-formedness of one record at arena index `i`: its parent stands
/// strictly before it, its field keys are unique, a populated cache holds
/// exactly its fields, and attached metadata carries no zero builder id.
pub open spec fn wf_span_record(rec: SpanRecordView, i: int) -> bool {
    &&& match rec.parent {
        Some(p) => 0 <= p < i,
        None => true,
    }
    &&& wf_fields(rec.fields)
    &&& match rec.cache {
        Some(c) => c == rec.fields,
        None => true,
    }
    &&& match rec.otel {
        Some(d) => wf_otel_data(d),
        None => true,
    }
}

/// Well-formedness of the whole arena.
pub open spec fn wf_spans(spans: Seq<SpanRecordView>) -> bool {
    forall|i: int| 0 <= i < spans.len() ==> wf_span_record(#[trigger] spans[i], i)
}

/// The ancestor chain of span `i`, root first, ending at `i`.
pub open spec fn ancestor_chain(spans: Seq<SpanRecordView>, i: int) -> Seq<int>
    decreases i,
{
    if 0 <= i < spans.len() {
        match spans[i].parent {
            Some(p) => if 0 <= p < i {
                ancestor_chain(spans, p).push(i)
            } else {
                seq![i]
            },
            None => seq![i],
        }
    } else {
        Seq::empty()
    }
}

/// The raw field sets of the ancestor chain of span `i`, root first.  Once
/// every span on the chain has been formatted, its cache holds exactly these
/// sets.
pub open spec fn span_fields_chain(spans: Seq<SpanRecordView>, i: int) -> Seq<FieldsView> {
    ancestor_chain(spans, i).map_values(|j: int| spans[j].fields)
}

/// Every index on an ancestor chain is a valid arena index.
pub proof fn lemma_chain_in_bounds(spans: Seq<SpanRecordView>, i: int)
    requires
        0 <= i < spans.len(),
    ensures
        ancestor_chain(spans, i).len() >= 1,
        ancestor_chain(spans, i).last() == i,
        forall|n: int|
            0 <= n < ancestor_chain(spans, i).len() ==> 0 <= #[trigger] ancestor_chain(
                spans,
                i,
            )[n] < spans.len(),
    decreases i,
{
    match spans[i].parent {
        Some(p) => {
            if 0 <= p < i {
                lemma_chain_in_bounds(spans, p);
            }
        }
        None => {}
    }
}

impl SpanRegistry {
    /// An empty arena.
    pub fn new() -> (r: SpanRegistry)
        ensures
            r@ == Seq::<SpanRecordView>::empty(),
    {
        let r = SpanRegistry { spans: Vec::new() };
        proof {
            assert(r@ =~= Seq::<SpanRecordView>::empty());
        }
        r
    }

    /// The number of spans ever opened.
    pub fn len(&self) -> (r: usize)
        ensures
            r == self@.len(),
    {
        self.spans.len()
    }

    /// Open a new span under `parent` and return its arena index.  The new
    /// record starts with no trace metadata and an unpopulated cache.
    pub fn open_span(&mut self, name: String, fields: Vec<(String, JsonValue)>, parent: Option<usize>) -> (idx: usize)
        requires
            wf_spans(old(self)@),
            match parent {
                Some(p) => p < old(self)@.len(),
                None => true,
            },
            wf_fields(fields_view(fields@)),
        ensures
            wf_spans(final(self)@),
            idx == old(self)@.len(),
            final(self)@.len() == old(self)@.len() + 1,
            forall|j: int| 0 <= j < old(self)@.len() ==> final(self)@[j] == old(self)@[j],
            final(self)@[idx as int].name == name@,
            final(self)@[idx as int].fields == fields_view(fields@),
            final(self)@[idx as int].cache is None,
            final(self)@[idx as int].otel is None,
            final(self)@[idx as int].parent == match parent {
                Some(p) => Some(p as int),
                None => None::<int>,
            },
    {
        let idx = self.spans.len();
        let rec = SpanRecord { name, parent, otel: None, fields, cache: None };
        self.spans.push(rec);
        proof {
            assert(final(self)@ =~= old(self)@.push(rec@));
        }
        idx
    }

    /// Attach trace metadata to span `i`, as the export stage does when the
    /// span starts.
    pub fn attach_otel(&mut self, i: usize, data: OtelSpanData)
        requires
            wf_spans(old(self)@),
            i < old(self)@.len(),
            wf_otel_data(data),
        ensures
            wf_spans(final(self)@),
            final(self)@.len() == old(self)@.len(),
            forall|j: int| 0 <= j < old(self)@.len() && j != i ==> final(self)@[j] == old(self)@[j],
            final(self)@[i as int].otel == Some(data),
            final(self)@[i as int].name == old(self)@[i as int].name,
            final(self)@[i as int].parent == old(self)@[i as int].parent,
            final(self)@[i as int].fields == old(self)@[i as int].fields,
            final(self)@[i as int].cache == old(self)@[i as int].cache,
    {
        self.spans[i].otel = Some(data);
        proof {
            assert(forall|j: int|
                0 <= j < old(self)@.len() && j != i ==> final(self)@[j] == old(self)@[j]);
        }
    }

    /// Remove the trace metadata of span `i`: the export stage evicts its
    /// extension data while the span closes, possibly before the formatter
    /// runs.
    pub fn evict_otel(&mut self, i: usize)
        requires
            wf_spans(old(self)@),
            i < old(self)@.len(),
        ensures
            wf_spans(final(self)@),
            final(self)@.len() == old(self)@.len(),
            forall|j: int| 0 <= j < old(self)@.len() && j != i ==> final(self)@[j] == old(self)@[j],
            final(self)@[i as int].otel is None,
            final(self)@[i as int].name == old(self)@[i as int].name,
            final(self)@[i as int].parent == old(self)@[i as int].parent,
            final(self)@[i as int].fields == old(self)@[i as int].fields,
            final(self)@[i as int].cache == old(self)@[i as int].cache,
    {
        self.spans[i].otel = None;
    }

    /// Populate the field cache of span `i` if it has never been formatted.
    pub fn ensure_cached(&mut self, i: usize)
        requires
            wf_spans(old(self)@),
            i < old(self)@.len(),
        ensures
            wf_spans(final(self)@),
            final(self)@.len() == old(self)@.len(),
            forall|j: int| 0 <= j < old(self)@.len() && j != i ==> final(self)@[j] == old(self)@[j],
            final(self)@[i as int].cache == Some(old(self)@[i as int].fields),
            final(self)@[i as int].name == old(self)@[i as int].name,
            final(self)@[i as int].parent == old(self)@[i as int].parent,
            final(self)@[i as int].fields == old(self)@[i as int].fields,
            final(self)@[i as int].otel == old(self)@[i as int].otel,
    {
        if self.spans[i].cache.is_none() {
            let mut copy: Vec<(String, JsonValue)> = Vec::new();
            let n = self.spans[i].fields.len();
            let ghost fs = self.spans@[i as int].fields@;
            let mut j: usize = 0;
            while j < n
                invariant
                    j <= n,
                    n == fs.len(),
                    i < self.spans@.len(),
                    fs == self.spans@[i as int].fields@,
                    fields_view(copy@) == fields_view(fs).take(j as int),
                decreases n - j,
            {
                let ghost before = copy@;
                let k = self.spans[i].fields[j].0.clone();
                let v = self.spans[i].fields[j].1.dup();
                copy.push((k, v));
                proof {
                    crate::fields::lemma_fields_view_push(before, (k, v));
                    assert((k@, v@) == fields_view(fs)[j as int]);
                    assert(fields_view(fs).take(j as int).push(fields_view(fs)[j as int]) =~= fields_view(
                        fs,
                    ).take(j as int + 1));
                }
                j = j + 1;
            }
            proof {
                assert(fields_view(fs).take(n as int) =~= fields_view(fs));
            }
            self.spans[i].cache = Some(copy);
            proof {
                assert(self@[i as int].fields == fields_view(fs));
                assert(self@[i as int].cache == Some(fields_view(fs)));
                assert(forall|j: int|
                    0 <= j < self@.len() && j != i ==> self@[j] == old(self)@[j]);
                assert(wf_spans(self@));
            }
        }
    }

    /// Borrow the cached field list of span `i`, which must be populated.
    pub fn cached_ref(&self, i: usize) -> (r: &Vec<(String, JsonValue)>)
        requires
            wf_spans(self@),
            i < self@.len(),
            self@[i as int].cache is Some,
        ensures
            fields_view(r@) == self@[i as int].fields,
    {
        match &self.spans[i].cache {
            Some(c) => c,
            None => {
                proof {
                    assert(false);
                }
                vstd::pervasive::unreached()
            }
        }
    }

    /// The ancestor chain of span `leaf`, root first, as arena indices.
    pub fn collect_chain(&self, leaf: usize) -> (r: Vec<usize>)
        requires
            wf_spans(self@),
            leaf < self@.len(),
        ensures
            r@.map_values(|x: usize| x as int) == ancestor_chain(self@, leaf as int),
    {
        let mut up: Vec<usize> = Vec::new();
        let mut cur: usize = leaf;
        up.push(cur);
        proof {
            lemma_chain_in_bounds(self@, leaf as int);
        }
        loop
            invariant
                wf_spans(self@),
                cur < self@.len(),
                up@.len() >= 1,
                up@[0] == leaf,
                // up holds the walked suffix reversed: up = reverse of chain(cur) tail
                ancestor_chain(self@, leaf as int) =~= ancestor_chain(self@, cur as int).add(
                    up@.map_values(|x: usize| x as int).drop_last().reverse(),
                ),
                up@.last() == cur,
            ensures
                cur < self@.len(),
                self@[cur as int].parent is None,
                up@.len() >= 1,
                ancestor_chain(self@, leaf as int) =~= ancestor_chain(self@, cur as int).add(
                    up@.map_values(|x: usize| x as int).drop_last().reverse(),
                ),
                up@.last() == cur,
            decreases cur,
        {
            let parent = self.spans[cur].parent;
            match parent {
                Some(p) => {
                    proof {
                        assert(self@[cur as int].parent == Some(p as int));
                        assert(0 <= p < cur);
                        assert(ancestor_chain(self@, cur as int) =~= ancestor_chain(
                            self@,
                            p as int,
                        ).push(cur as int));
                        let m0 = up@.map_values(|x: usize| x as int);
                        let m1 = up@.push(p).map_values(|x: usize| x as int);
                        assert(m1 =~= m0.push(p as int));
                        assert(m1.drop_last() =~= m0);
                        assert(m0.drop_last().reverse().insert(0, cur as int) =~= m0.reverse());
                        assert(ancestor_chain(self@, p as int).add(
                            seq![cur as int] + m0.drop_last().reverse(),
                        ) =~= ancestor_chain(self@, cur as int).add(m0.drop_last().reverse()));
                        assert(seq![cur as int] + m0.drop_last().reverse() =~= m0.reverse());
                        assert(m0.reverse() =~= m1.drop_last().reverse());
                    }
                    up.push(p);
                    cur = p;
                }
                None => {
                    break;
                }
            }
        }
        // reverse the walk to get the chain root first
        proof {
            assert(self@[cur as int].parent is None);
            assert(ancestor_chain(self@, cur as int) =~= seq![cur as int]);
        }
        let mut r: Vec<usize> = Vec::new();
        let mut i: usize = up.len();
        while i > 0
            invariant
                i <= up@.len(),
                r@ == up@.subrange(i as int, up@.len() as int).reverse(),
            decreases i,
        {
            i = i - 1;
            let x = up[i];
            r.push(x);
            proof {
                assert(r@ =~= up@.subrange(i as int, up@.len() as int).reverse());
            }
        }
        proof {
            assert(up@.subrange(0, up@.len() as int) =~= up@);
            let m = up@.map_values(|x: usize| x as int);
            assert(r@.map_values(|x: usize| x as int) =~= m.reverse());
            assert(ancestor_chain(self@, leaf as int) =~= seq![cur as int].add(
                m.drop_last().reverse(),
            ));
            assert(m.reverse() =~= seq![m.last()] + m.drop_last().reverse());
            assert(m.last() == cur as int);
            assert(seq![cur as int].add(m.drop_last().reverse()) =~= seq![m.last()]
                + m.drop_last().reverse());
        }
        r
    }
}

} // verus!
