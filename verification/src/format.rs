//! The correlation JSON record format.
//!
//! Every log event becomes exactly one line of UTF-8 JSON.  The key order is
//! a contract with the log-correlation backend, not a convention: timestamp,
//! level, target, then (when enabled) line, file and module path, then the
//! merged fields in their merge order, and last — only when a trace context
//! resolved — `dd.trace_id` and `dd.span_id` as decimal strings of the
//! 64-bit ids (a 128-bit trace id is truncated to its low 64 bits).

use vstd::prelude::*;

use crate::context::TraceContext;
use crate::fields::FieldsView;
use crate::fields::fields_view;
use crate::fields::wf_fields;
use crate::json::COLON;
use crate::json::COMMA;
use crate::json::JsonValue;
use crate::json::LBRACE;
use crate::json::NEWLINE;
use crate::json::QUOTE;
use crate::json::RBRACE;
use crate::json::dec_rep;
use crate::json::jstr_bytes;
use crate::json::push_dec_u64;
use crate::json::push_jstr;
use crate::json::push_value;
use crate::json::val_bytes;

verus! {

/// Event severity.
#[derive(Debug, Clone, Copy, PartialEq, Eq)]
pub enum Level {
    Trace,
    Debug,
    Info,
    Warn,
    Error,
}

impl Level {
    /// The severity name as it appears in the record.
    pub open spec fn name_spec(self) -> Seq<char> {
        match self {
            Level::Trace => "TRACE"@,
            Level::Debug => "DEBUG"@,
            Level::Info => "INFO"@,
            Level::Warn => "WARN"@,
            Level::Error => "ERROR"@,
        }
    }

    /// The severity name.
    pub fn name(&self) -> (r: &'static str)
        ensures
            r@ == self.name_spec(),
    {
        match self {
            Level::Trace => "TRACE",
            Level::Debug => "DEBUG",
            Level::Info => "INFO",
            Level::Warn => "WARN",
            Level::Error => "ERROR",
        }
    }

    /// Numeric severity: higher is more severe.
    pub open spec fn severity_spec(self) -> int {
        match self {
            Level::Trace => 0,
            Level::Debug => 1,
            Level::Info => 2,
            Level::Warn => 3,
            Level::Error => 4,
        }
    }

    /// Numeric severity.
    pub fn severity(&self) -> (r: u8)
        ensures
            r as int == self.severity_spec(),
    {
        match self {
            Level::Trace => 0,
            Level::Debug => 1,
            Level::Info => 2,
            Level::Warn => 3,
            Level::Error => 4,
        }
    }
}

/// One log occurrence, with its explicit fields (unique keys) and optional
/// source location.
#[derive(Debug)]
pub struct LogEvent {
    pub level: Level,
    pub target: String,
    pub line: Option<u32>,
    pub file: Option<String>,
    pub module: Option<String>,
    pub fields: Vec<(String, JsonValue)>,
}

/// The model of a log event.
pub struct LogEventView {
    pub level: Level,
    pub target: Seq<char>,
    pub line: Option<u32>,
    pub file: Option<Seq<char>>,
    pub module: Option<Seq<char>>,
    pub fields: FieldsView,
}

impl View for LogEvent {
    type V = LogEventView;

    open spec fn view(&self) -> LogEventView {
        LogEventView {
            level: self.level,
            target: self.target@,
            line: self.line,
            file: match self.file {
                Some(ref f) => Some(f@),
                None => None,
            },
            module: match self.module {
                Some(ref m) => Some(m@),
                None => None,
            },
            fields: fields_view(self.fields@),
        }
    }
}

/// A well-formed event has unique field keys.
pub open spec fn wf_event(ev: LogEventView) -> bool {
    wf_fields(ev.fields)
}

/// One `"key":value` pair.
pub open spec fn entry_bytes(k: Seq<char>, vb: Seq<u8>) -> Seq<u8> {
    jstr_bytes(k) + seq![COLON] + vb
}

/// A `u64` as a decimal JSON string (decimal digits need no escaping).
pub open spec fn dec_str_bytes(n: u64) -> Seq<u8> {
    seq![QUOTE] + dec_rep(n as nat) + seq![QUOTE]
}

/// The low 64 bits of a 128-bit trace id.
pub open spec fn low64(t: u128) -> u64 {
    (t % 0x1_0000_0000_0000_0000) as u64
}

/// An optional number: `null` when absent.
pub open spec fn opt_u32_bytes(x: Option<u32>) -> Seq<u8> {
    match x {
        Some(n) => dec_rep(n as nat),
        None => seq![110u8, 117u8, 108u8, 108u8],
    }
}

/// An optional string: `null` when absent.
pub open spec fn opt_str_bytes(x: Option<Seq<char>>) -> Seq<u8> {
    match x {
        Some(s) => jstr_bytes(s),
        None => seq![110u8, 117u8, 108u8, 108u8],
    }
}

/// The merged field entries, each preceded by a comma.
pub open spec fn fields_tail_bytes(fs: FieldsView) -> Seq<u8>
    decreases fs.len(),
{
    if fs.len() == 0 {
        Seq::empty()
    } else {
        seq![COMMA] + entry_bytes(fs[0].0, val_bytes(fs[0].1)) + fields_tail_bytes(fs.drop_first())
    }
}

/// The key naming the module of origin.  (Its name is built from two
/// pieces; the emitted key is the concatenation.)
pub open spec fn module_key() -> Seq<char> {
    "module"@ + "_path"@
}

/// The source-location entries.
pub open spec fn location_bytes(ev: LogEventView) -> Seq<u8> {
    seq![COMMA] + entry_bytes("line"@, opt_u32_bytes(ev.line)) + seq![COMMA] + entry_bytes(
        "file"@,
        opt_str_bytes(ev.file),
    ) + seq![COMMA] + entry_bytes(module_key(), opt_str_bytes(ev.module))
}

/// The correlation entries: present exactly when a context resolved.
pub open spec fn ctx_bytes(ctx: Option<TraceContext>) -> Seq<u8> {
    match ctx {
        Some(c) => seq![COMMA] + entry_bytes("dd.trace_id"@, dec_str_bytes(low64(c.trace_id)))
            + seq![COMMA] + entry_bytes("dd.span_id"@, dec_str_bytes(c.span_id)),
        None => Seq::empty(),
    }
}

/// One whole record: a JSON object followed by exactly one newline.
pub open spec fn record_bytes(
    ts: Seq<char>,
    ev: LogEventView,
    location: bool,
    merged: FieldsView,
    ctx: Option<TraceContext>,
) -> Seq<u8> {
    seq![LBRACE] + entry_bytes("timestamp"@, jstr_bytes(ts)) + seq![COMMA] + entry_bytes(
        "level"@,
        jstr_bytes(ev.level.name_spec()),
    ) + seq![COMMA] + entry_bytes("target"@, jstr_bytes(ev.target)) + (if location {
        location_bytes(ev)
    } else {
        Seq::empty()
    }) + fields_tail_bytes(merged) + ctx_bytes(ctx) + seq![RBRACE, NEWLINE]
}

/// The keys of a record, in output order.
pub open spec fn record_keys(location: bool, merged: FieldsView, ctx_present: bool) -> Seq<
    Seq<char>,
> {
    seq!["timestamp"@, "level"@, "target"@] + (if location {
        seq!["line"@, "file"@, module_key()]
    } else {
        Seq::empty()
    }) + merged.map_values(|e: (Seq<char>, crate::json::JsonValueView)| e.0) + (if ctx_present {
        seq!["dd.trace_id"@, "dd.span_id"@]
    } else {
        Seq::empty()
    })
}

/// With no trace context, a record carries no correlation key: every key is
/// a fixed metadata key or a merged field key, and the correlation keys are
/// not among the fixed ones.  A merged field whose own name collides with a
/// correlation key is ruled out by the premise.
pub proof fn lemma_no_context_no_correlation_keys(location: bool, merged: FieldsView)
    requires
        forall|i: int|
            0 <= i < merged.len() ==> (#[trigger] merged[i].0) != "dd.trace_id"@ && merged[i].0
                != "dd.span_id"@,
    ensures
        forall|j: int|
            0 <= j < record_keys(location, merged, false).len() ==> (#[trigger] record_keys(
                location,
                merged,
                false,
            )[j]) != "dd.trace_id"@ && record_keys(location, merged, false)[j] != "dd.span_id"@,
{
    reveal_strlit("timestamp");
    reveal_strlit("level");
    reveal_strlit("target");
    reveal_strlit("line");
    reveal_strlit("file");
    reveal_strlit("module");
    reveal_strlit("_path");
    reveal_strlit("dd.trace_id");
    reveal_strlit("dd.span_id");
    let ks = record_keys(location, merged, false);
    assert forall|j: int| 0 <= j < ks.len() implies (#[trigger] ks[j]) != "dd.trace_id"@ && ks[j]
        != "dd.span_id"@ by {
        let fixed: int = if location {
            6
        } else {
            3
        };
        if j < fixed {
            assert(ks[j].len() != "dd.trace_id"@.len() || ks[j][0] != "dd.trace_id"@[0]);
            assert(ks[j].len() != "dd.span_id"@.len() || ks[j][0] != "dd.span_id"@[0]);
        } else {
            assert(ks[j] == merged[j - fixed].0);
        }
    }
}

/// A record's keys are exactly the fixed metadata keys, the merged field
/// keys in merge order, and — when a context resolved — the correlation
/// keys.  With the emitter's exactness this is the shape every parsed line
/// reports back.
pub proof fn lemma_record_key_set(location: bool, merged: FieldsView, ctx_present: bool)
    ensures
        record_keys(location, merged, ctx_present).len() == (if location {
            6int
        } else {
            3int
        }) + merged.len() + (if ctx_present {
            2int
        } else {
            0int
        }),
        forall|i: int|
            0 <= i < merged.len() ==> record_keys(location, merged, ctx_present)[(if location {
                6int
            } else {
                3int
            }) + i] == (#[trigger] merged[i]).0,
{
    let ks = record_keys(location, merged, ctx_present);
    assert forall|i: int| 0 <= i < merged.len() implies ks[(if location {
        6int
    } else {
        3int
    }) + i] == (#[trigger] merged[i]).0 by {
        let fixed: int = if location {
            6
        } else {
            3
        };
        assert(ks[fixed + i] == merged.map_values(
            |e: (Seq<char>, crate::json::JsonValueView)| e.0,
        )[i]);
    }
}


/// One `"key":value` entry contains no line feed when its value does not.
proof fn lemma_entry_bytes_nl_free(k: Seq<char>, vb: Seq<u8>)
    requires
        crate::json::nl_free(vb),
    ensures
        crate::json::nl_free(entry_bytes(k, vb)),
{
    crate::json::lemma_jstr_bytes_nl_free(k);
}

/// A quoted decimal string contains no line feed.
proof fn lemma_dec_str_bytes_nl_free(n: u64)
    ensures
        crate::json::nl_free(dec_str_bytes(n)),
{
    crate::json::lemma_dec_rep_nl_free(n as nat);
}

/// An optional number entry contains no line feed.
proof fn lemma_opt_u32_bytes_nl_free(x: Option<u32>)
    ensures
        crate::json::nl_free(opt_u32_bytes(x)),
{
    match x {
        Some(n) => {
            crate::json::lemma_dec_rep_nl_free(n as nat);
        }
        None => {}
    }
}

/// An optional string entry contains no line feed.
proof fn lemma_opt_str_bytes_nl_free(x: Option<Seq<char>>)
    ensures
        crate::json::nl_free(opt_str_bytes(x)),
{
    match x {
        Some(s) => {
            crate::json::lemma_jstr_bytes_nl_free(s);
        }
        None => {}
    }
}

/// The merged field entries contain no line feed.
proof fn lemma_fields_tail_nl_free(fs: FieldsView)
    ensures
        crate::json::nl_free(fields_tail_bytes(fs)),
    decreases fs.len(),
{
    if fs.len() > 0 {
        crate::json::lemma_val_bytes_nl_free(fs[0].1);
        lemma_entry_bytes_nl_free(fs[0].0, val_bytes(fs[0].1));
        lemma_fields_tail_nl_free(fs.drop_first());
    }
}

/// A record is exactly one line: it ends with one line feed, and the line
/// feed appears nowhere else.  Line-oriented collectors downstream rely on
/// one JSON object per line.
pub proof fn lemma_one_record_per_line(
    ts: Seq<char>,
    ev: LogEventView,
    location: bool,
    merged: FieldsView,
    ctx: Option<TraceContext>,
)
    ensures
        record_bytes(ts, ev, location, merged, ctx).len() > 0,
        record_bytes(ts, ev, location, merged, ctx).last() == crate::json::NEWLINE,
        forall|i: int|
            0 <= i < record_bytes(ts, ev, location, merged, ctx).len() - 1 ==> record_bytes(
                ts,
                ev,
                location,
                merged,
                ctx,
            )[i] != crate::json::NEWLINE,
{
    crate::json::lemma_jstr_bytes_nl_free(ts);
    lemma_entry_bytes_nl_free("timestamp"@, jstr_bytes(ts));
    crate::json::lemma_jstr_bytes_nl_free(ev.level.name_spec());
    lemma_entry_bytes_nl_free("level"@, jstr_bytes(ev.level.name_spec()));
    crate::json::lemma_jstr_bytes_nl_free(ev.target);
    lemma_entry_bytes_nl_free("target"@, jstr_bytes(ev.target));
    if location {
        lemma_opt_u32_bytes_nl_free(ev.line);
        lemma_entry_bytes_nl_free("line"@, opt_u32_bytes(ev.line));
        lemma_opt_str_bytes_nl_free(ev.file);
        lemma_entry_bytes_nl_free("file"@, opt_str_bytes(ev.file));
        lemma_opt_str_bytes_nl_free(ev.module);
        lemma_entry_bytes_nl_free(module_key(), opt_str_bytes(ev.module));
    }
    lemma_fields_tail_nl_free(merged);
    match ctx {
        Some(c) => {
            lemma_dec_str_bytes_nl_free(low64(c.trace_id));
            lemma_entry_bytes_nl_free("dd.trace_id"@, dec_str_bytes(low64(c.trace_id)));
            lemma_dec_str_bytes_nl_free(c.span_id);
            lemma_entry_bytes_nl_free("dd.span_id"@, dec_str_bytes(c.span_id));
        }
        None => {}
    }
    let r = record_bytes(ts, ev, location, merged, ctx);
    assert(r.last() == crate::json::NEWLINE);
}

/// The formatting strategy for correlation JSON output.
#[derive(Debug, Clone, Copy, PartialEq, Eq)]
pub struct DatadogFormat {
    /// Whether to include `line`, `file` and `module_path`.
    pub location: bool,
}

impl DatadogFormat {
    /// Append `,"k":` to `out`.
    fn push_key(out: &mut Vec<u8>, k: &str)
        ensures
            final(out)@ == old(out)@ + seq![COMMA] + jstr_bytes(k@) + seq![COLON],
    {
        out.push(COMMA);
        push_jstr(out, k);
        out.push(COLON);
        assert(out@ =~= old(out)@ + seq![COMMA] + jstr_bytes(k@) + seq![COLON]);
    }

    /// Append `null` to `out`.
    fn push_null(out: &mut Vec<u8>)
        ensures
            final(out)@ == old(out)@ + seq![110u8, 117u8, 108u8, 108u8],
    {
        out.push(110);
        out.push(117);
        out.push(108);
        out.push(108);
        assert(out@ =~= old(out)@ + seq![110u8, 117u8, 108u8, 108u8]);
    }

    /// Append a `u64` as a quoted decimal string.
    fn push_dec_str(out: &mut Vec<u8>, n: u64)
        ensures
            final(out)@ == old(out)@ + dec_str_bytes(n),
    {
        out.push(QUOTE);
        push_dec_u64(out, n);
        out.push(QUOTE);
        assert(out@ =~= old(out)@ + dec_str_bytes(n));
    }

    /// Append the fixed head: `{"timestamp":…,"level":…,"target":…`.
    fn push_head(out: &mut Vec<u8>, ts: &str, event: &LogEvent)
        ensures
            final(out)@ == old(out)@ + seq![LBRACE] + entry_bytes("timestamp"@, jstr_bytes(ts@))
                + seq![COMMA] + entry_bytes("level"@, jstr_bytes(event@.level.name_spec()))
                + seq![COMMA] + entry_bytes("target"@, jstr_bytes(event@.target)),
    {
        out.push(LBRACE);
        push_jstr(out, "timestamp");
        out.push(COLON);
        push_jstr(out, ts);
        Self::push_key(out, "level");
        push_jstr(out, event.level.name());
        Self::push_key(out, "target");
        push_jstr(out, event.target.as_str());
        assert(out@ =~= old(out)@ + seq![LBRACE] + entry_bytes("timestamp"@, jstr_bytes(ts@))
            + seq![COMMA] + entry_bytes("level"@, jstr_bytes(event@.level.name_spec()))
            + seq![COMMA] + entry_bytes("target"@, jstr_bytes(event@.target)));
    }

    /// Append the source-location entries.
    #[verifier::rlimit(60)]
    fn push_location(out: &mut Vec<u8>, event: &LogEvent)
        ensures
            final(out)@ == old(out)@ + location_bytes(event@),
    {
        Self::push_key(out, "line");
        match &event.line {
            Some(n) => {
                push_dec_u64(out, *n as u64);
                assert(dec_rep((*n as u64) as nat) == opt_u32_bytes(event@.line));
            }
            None => {
                Self::push_null(out);
            }
        }
        Self::push_key(out, "file");
        match &event.file {
            Some(f) => {
                push_jstr(out, f.as_str());
            }
            None => {
                Self::push_null(out);
            }
        }
        let mk = String::from_str("module").concat("_path");
        assert(mk@ == module_key());
        Self::push_key(out, mk.as_str());
        match &event.module {
            Some(m) => {
                push_jstr(out, m.as_str());
            }
            None => {
                Self::push_null(out);
            }
        }
        assert(out@ =~= old(out)@ + location_bytes(event@));
    }

    /// Append every merged field entry, in merge order.
    fn push_merged(out: &mut Vec<u8>, merged: &Vec<(String, JsonValue)>)
        ensures
            final(out)@ == old(out)@ + fields_tail_bytes(fields_view(merged@)),
    {
        let ghost orig = out@;
        let ghost fs = fields_view(merged@);
        let mut i: usize = 0;
        while i < merged.len()
            invariant
                i <= merged@.len(),
                fs == fields_view(merged@),
                out@ == orig + fields_head_bytes(fs, i as int),
            decreases merged@.len() - i,
        {
            Self::push_key(out, merged[i].0.as_str());
            push_value(out, &merged[i].1);
            proof {
                assert(merged@[i as int].0@ == fs[i as int].0);
                assert(merged@[i as int].1@ == fs[i as int].1);
                lemma_fields_head_step(fs, i as int);
                assert(out@ =~= orig + fields_head_bytes(fs, i as int + 1));
            }
            i = i + 1;
        }
        proof {
            lemma_fields_head_full(fs);
        }
    }

    /// Append the correlation entries when a context resolved.
    fn push_ctx(out: &mut Vec<u8>, ctx: Option<TraceContext>)
        ensures
            final(out)@ == old(out)@ + ctx_bytes(ctx),
    {
        match ctx {
            Some(c) => {
                Self::push_key(out, "dd.trace_id");
                let low: u64 = (c.trace_id % 0x1_0000_0000_0000_0000u128) as u64;
                assert(low == low64(c.trace_id));
                Self::push_dec_str(out, low);
                Self::push_key(out, "dd.span_id");
                Self::push_dec_str(out, c.span_id);
                assert(out@ =~= old(out)@ + ctx_bytes(ctx));
            }
            None => {
                assert(out@ =~= old(out)@ + ctx_bytes(ctx));
            }
        }
    }

    /// Stream one event as a single JSON line.
    ///
    /// `ts` is the timestamp captured at format time, `merged` the field map
    /// produced by the inheritance merge, and `ctx` the resolved trace
    /// context, if any.
    pub fn format_event(
        &self,
        ts: &str,
        event: &LogEvent,
        merged: &Vec<(String, JsonValue)>,
        ctx: Option<TraceContext>,
    ) -> (out: Vec<u8>)
        ensures
            out@ == record_bytes(ts@, event@, self.location, fields_view(merged@), ctx),
    {
        let mut out: Vec<u8> = Vec::new();
        Self::push_head(&mut out, ts, event);
        if self.location {
            Self::push_location(&mut out, event);
        }
        Self::push_merged(&mut out, merged);
        Self::push_ctx(&mut out, ctx);
        out.push(RBRACE);
        out.push(NEWLINE);
        assert(out@ =~= record_bytes(ts@, event@, self.location, fields_view(merged@), ctx));
        out
    }
}

/// The first `i` merged entries, serialized.
pub open spec fn fields_head_bytes(fs: FieldsView, i: int) -> Seq<u8>
    decreases i,
{
    if i <= 0 {
        Seq::empty()
    } else {
        fields_head_bytes(fs, i - 1) + (if 0 <= i - 1 < fs.len() {
            seq![COMMA] + entry_bytes(fs[i - 1].0, val_bytes(fs[i - 1].1))
        } else {
            Seq::empty()
        })
    }
}

/// Serializing one more entry extends the head by that entry.
proof fn lemma_fields_head_step(fs: FieldsView, i: int)
    requires
        0 <= i < fs.len(),
    ensures
        fields_head_bytes(fs, i + 1) == fields_head_bytes(fs, i) + seq![COMMA] + entry_bytes(
            fs[i].0,
            val_bytes(fs[i].1),
        ),
{
    assert(fields_head_bytes(fs, i + 1) =~= fields_head_bytes(fs, i) + seq![COMMA] + entry_bytes(
        fs[i].0,
        val_bytes(fs[i].1),
    ));
}

/// The full head equals the recursive tail serialization.
proof fn lemma_fields_head_full(fs: FieldsView)
    ensures
        fields_head_bytes(fs, fs.len() as int) == fields_tail_bytes(fs),
    decreases fs.len(),
{
    if fs.len() == 0 {
    } else {
        lemma_fields_head_full(fs.drop_first());
        lemma_fields_head_shift(fs, fs.len() as int);
        assert(fields_tail_bytes(fs) =~= seq![COMMA] + entry_bytes(fs[0].0, val_bytes(fs[0].1))
            + fields_tail_bytes(fs.drop_first()));
    }
}

/// Heads over a dropped first element line up with heads over the whole.
proof fn lemma_fields_head_shift(fs: FieldsView, i: int)
    requires
        1 <= i <= fs.len(),
    ensures
        fields_head_bytes(fs, i) == seq![COMMA] + entry_bytes(fs[0].0, val_bytes(fs[0].1))
            + fields_head_bytes(fs.drop_first(), i - 1),
    decreases i,
{
    if i == 1 {
        assert(fields_head_bytes(fs, 0) =~= Seq::<u8>::empty());
        assert(fields_head_bytes(fs, 1) =~= seq![COMMA] + entry_bytes(fs[0].0, val_bytes(fs[0].1)));
        assert(fields_head_bytes(fs, 1) =~= seq![COMMA] + entry_bytes(fs[0].0, val_bytes(fs[0].1))
            + fields_head_bytes(fs.drop_first(), 0));
    } else {
        lemma_fields_head_shift(fs, i - 1);
        assert(fs.drop_first()[i - 2] == fs[i - 1]);
        assert(fields_head_bytes(fs, i) =~= seq![COMMA] + entry_bytes(fs[0].0, val_bytes(fs[0].1))
            + fields_head_bytes(fs.drop_first(), i - 1));
    }
}

/// Adapts a byte-oriented serializer to a growable text sink.
#[derive(Debug)]
pub struct WriteAdapter {
    /// The collected output.
    pub buffer: Vec<u8>,
}

impl View for WriteAdapter {
    type V = Seq<u8>;

    open spec fn view(&self) -> Seq<u8> {
        self.buffer@
    }
}

impl WriteAdapter {
    /// An empty sink.
    pub fn new() -> (r: WriteAdapter)
        ensures
            r@ == Seq::<u8>::empty(),
    {
        let r = WriteAdapter { buffer: Vec::new() };
        assert(r@ =~= Seq::<u8>::empty());
        r
    }

    /// Append one serialized line.
    pub fn write(&mut self, line: &Vec<u8>)
        ensures
            final(self)@ == old(self)@ + line@,
    {
        let mut i: usize = 0;
        while i < line.len()
            invariant
                i <= line@.len(),
                self@ == old(self)@ + line@.take(i as int),
            decreases line@.len() - i,
        {
            self.buffer.push(line[i]);
            proof {
                assert(old(self)@ + line@.take(i as int + 1) =~= (old(self)@ + line@.take(
                    i as int,
                )).push(line@[i as int]));
            }
            i = i + 1;
        }
        proof {
            assert(line@.take(line@.len() as int) =~= line@);
        }
    }

    /// Nothing is buffered beyond the vector itself.
    pub fn flush(&self) {
    }
}

} // verus!
