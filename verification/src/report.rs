//! JSON-formatted error reports.
//!
//! An error report carries its error chain (the last element is the root
//! cause), and optionally the captured backtrace symbols and the captured
//! span frames.  It serializes to one JSON object with the schema
//! `{"error_chain":[[0,"…"],…],"backtrace":[[0,{…}],…],"spantrace":[[0,{…}],…]}`,
//! where the optional members are omitted — not null — when capture was off.

use vstd::prelude::*;

use crate::format::opt_str_bytes;
use crate::format::opt_u32_bytes;
use crate::json::COLON;
use crate::json::COMMA;
use crate::json::LBRACE;
use crate::json::LBRACK;
use crate::json::RBRACE;
use crate::json::RBRACK;
use crate::json::dec_rep;
use crate::json::jstr_bytes;
use crate::json::push_bytes;
use crate::json::push_dec_u64;
use crate::json::push_jstr;

verus! {

/// One resolved symbol of a captured backtrace, as plain values.
#[derive(Debug, Clone, PartialEq, Eq)]
pub struct BacktraceSymbol {
    /// The demangled function name, if the symbol resolved.
    pub function: Option<String>,
    /// The source file, if known.
    pub file: Option<String>,
    /// The line number, if known.
    pub line: Option<u32>,
}

/// The model of a backtrace symbol.
pub struct BacktraceSymbolView {
    pub function: Option<Seq<char>>,
    pub file: Option<Seq<char>>,
    pub line: Option<u32>,
}

impl View for BacktraceSymbol {
    type V = BacktraceSymbolView;

    open spec fn view(&self) -> BacktraceSymbolView {
        BacktraceSymbolView {
            function: match self.function {
                Some(ref s) => Some(s@),
                None => None,
            },
            file: match self.file {
                Some(ref s) => Some(s@),
                None => None,
            },
            line: self.line,
        }
    }
}

/// One span of a captured spantrace, as plain values.
#[derive(Debug, Clone, PartialEq, Eq)]
pub struct SpanFrame {
    /// The span's `target::name`.
    pub full_name: String,
    /// The source file, if known.
    pub file: Option<String>,
    /// The line number, if known.
    pub line: Option<u32>,
    /// The span's formatted fields; absent when the span had none.
    pub fields: Option<String>,
}

/// The model of a span frame.
pub struct SpanFrameView {
    pub full_name: Seq<char>,
    pub file: Option<Seq<char>>,
    pub line: Option<u32>,
    pub fields: Option<Seq<char>>,
}

impl View for SpanFrame {
    type V = SpanFrameView;

    open spec fn view(&self) -> SpanFrameView {
        SpanFrameView {
            full_name: self.full_name@,
            file: match self.file {
                Some(ref s) => Some(s@),
                None => None,
            },
            line: self.line,
            fields: match self.fields {
                Some(ref s) => Some(s@),
                None => None,
            },
        }
    }
}

impl SpanFrame {
    /// Build a frame from span metadata: the full name is `target::name`,
    /// and empty fields are recorded as absent.
    pub fn from_span_info(
        target: &str,
        name: &str,
        file: Option<String>,
        line: Option<u32>,
        fields: &str,
    ) -> (r: SpanFrame)
        ensures
            r@.full_name == target@ + "::"@ + name@,
            r@.file == match file {
                Some(f) => Some(f@),
                None => None::<Seq<char>>,
            },
            r@.line == line,
            fields@.len() == 0 ==> r@.fields is None,
            fields@.len() > 0 ==> r@.fields == Some(fields@),
    {
        let mut full_name = target.to_owned();
        full_name.append("::");
        full_name.append(name);
        let fields_opt: Option<String> = if fields.is_empty() {
            None
        } else {
            Some(fields.to_owned())
        };
        SpanFrame { full_name, file, line, fields: fields_opt }
    }
}

/// Whether a capture is enabled: an environment override wins — any value
/// but `0` turns the capture on — and the configured default decides when
/// no override is set.
pub fn capture_enabled(env_value: Option<String>, default: bool) -> (r: bool)
    ensures
        env_value matches Some(v) ==> r == (v@ != "0"@),
        env_value is None ==> r == default,
{
    let zero = String::from_str("0");
    match env_value {
        Some(v) => !(v == zero),
        None => default,
    }
}

/// The serialized bytes of one backtrace symbol.
pub open spec fn symbol_bytes(s: BacktraceSymbolView) -> Seq<u8> {
    seq![LBRACE] + jstr_bytes("function"@) + seq![COLON] + opt_str_bytes(s.function) + seq![COMMA]
        + jstr_bytes("file"@) + seq![COLON] + opt_str_bytes(s.file) + seq![COMMA] + jstr_bytes(
        "line"@,
    ) + seq![COLON] + opt_u32_bytes(s.line) + seq![RBRACE]
}

/// The serialized bytes of one span frame.
pub open spec fn frame_bytes(f: SpanFrameView) -> Seq<u8> {
    seq![LBRACE] + jstr_bytes("full_name"@) + seq![COLON] + jstr_bytes(f.full_name) + seq![COMMA]
        + jstr_bytes("file"@) + seq![COLON] + opt_str_bytes(f.file) + seq![COMMA] + jstr_bytes(
        "line"@,
    ) + seq![COLON] + opt_u32_bytes(f.line) + seq![COMMA] + jstr_bytes("fields"@) + seq![COLON]
        + opt_str_bytes(f.fields) + seq![RBRACE]
}

/// An indexed pair `[i,<body>]`.
pub open spec fn pair_bytes(i: u32, body: Seq<u8>) -> Seq<u8> {
    seq![LBRACK] + dec_rep(i as nat) + seq![COMMA] + body + seq![RBRACK]
}

/// A JSON array of the given, already serialized, items.
pub open spec fn array_bytes(items: Seq<Seq<u8>>) -> Seq<u8> {
    seq![LBRACK] + array_head(items, items.len() as int) + seq![RBRACK]
}

/// The first `i` items of the array body, comma-separated.
pub open spec fn array_head(items: Seq<Seq<u8>>, i: int) -> Seq<u8>
    decreases i,
{
    if i <= 0 {
        Seq::empty()
    } else if i - 1 == 0 {
        if 0 <= i - 1 < items.len() {
            items[i - 1]
        } else {
            Seq::empty()
        }
    } else {
        array_head(items, i - 1) + (if 0 <= i - 1 < items.len() {
            seq![COMMA] + items[i - 1]
        } else {
            Seq::empty()
        })
    }
}

/// Serialize one array from per-item byte strings.
fn join_array(items: &Vec<Vec<u8>>) -> (out: Vec<u8>)
    ensures
        out@ == array_bytes(items@.map_values(|l: Vec<u8>| l@)),
{
    let ghost iv = items@.map_values(|l: Vec<u8>| l@);
    let mut out: Vec<u8> = Vec::new();
    out.push(LBRACK);
    let mut i: usize = 0;
    while i < items.len()
        invariant
            i <= items@.len(),
            iv == items@.map_values(|l: Vec<u8>| l@),
            out@ == seq![LBRACK] + array_head(iv, i as int),
        decreases items@.len() - i,
    {
        if i > 0 {
            out.push(COMMA);
        }
        push_bytes(&mut out, items[i].as_slice());
        proof {
            assert(iv[i as int] == items@[i as int]@);
            if i == 0 {
                assert(array_head(iv, 1) == iv[0]);
                assert(out@ =~= seq![LBRACK] + array_head(iv, 1));
            } else {
                assert(array_head(iv, i as int + 1) == array_head(iv, i as int) + (seq![COMMA]
                    + iv[i as int]));
                assert(out@ =~= seq![LBRACK] + array_head(iv, i as int + 1));
            }
        }
        i = i + 1;
    }
    out.push(RBRACK);
    proof {
        assert(out@ =~= array_bytes(iv));
    }
    out
}

/// The pair view of an indexed symbol list.
pub open spec fn symbol_pairs_view(v: Seq<(u32, BacktraceSymbol)>) -> Seq<(u32, BacktraceSymbolView)> {
    v.map_values(|e: (u32, BacktraceSymbol)| (e.0, e.1@))
}

/// The pair view of an indexed frame list.
pub open spec fn frame_pairs_view(v: Seq<(u32, SpanFrame)>) -> Seq<(u32, SpanFrameView)> {
    v.map_values(|e: (u32, SpanFrame)| (e.0, e.1@))
}

/// The serialized bytes of a whole report.
pub open spec fn formatter_bytes(
    chain: Seq<(u32, Seq<char>)>,
    backtrace: Option<Seq<(u32, BacktraceSymbolView)>>,
    spantrace: Option<Seq<(u32, SpanFrameView)>>,
) -> Seq<u8> {
    seq![LBRACE] + jstr_bytes("error_chain"@) + seq![COLON] + array_bytes(
        chain.map_values(|e: (u32, Seq<char>)| pair_bytes(e.0, jstr_bytes(e.1))),
    ) + (match backtrace {
        Some(items) => seq![COMMA] + jstr_bytes("backtrace"@) + seq![COLON] + array_bytes(
            items.map_values(|e: (u32, BacktraceSymbolView)| pair_bytes(e.0, symbol_bytes(e.1))),
        ),
        None => Seq::empty(),
    }) + (match spantrace {
        Some(items) => seq![COMMA] + jstr_bytes("spantrace"@) + seq![COLON] + array_bytes(
            items.map_values(|e: (u32, SpanFrameView)| pair_bytes(e.0, frame_bytes(e.1))),
        ),
        None => Seq::empty(),
    }) + seq![RBRACE]
}

/// A JSON-serializable error report.
#[derive(Debug)]
pub struct JsonFormatter {
    /// The error chain; the last element is the root cause, and each entry
    /// carries its index for convenience.
    pub error_chain: Vec<(u32, String)>,
    /// The captured backtrace; absent when capture was off.
    pub backtrace: Option<Vec<(u32, BacktraceSymbol)>>,
    /// The captured spantrace; absent when capture was off.
    pub spantrace: Option<Vec<(u32, SpanFrame)>>,
}

impl JsonFormatter {
    /// Build a report from the error-chain messages (outermost first) and
    /// the optional captures, indexing every element in order.
    pub fn new(
        messages: Vec<String>,
        backtrace: Option<Vec<BacktraceSymbol>>,
        spantrace: Option<Vec<SpanFrame>>,
    ) -> (r: JsonFormatter)
        requires
            messages@.len() <= u32::MAX,
            match backtrace {
                Some(b) => b@.len() <= u32::MAX,
                None => true,
            },
            match spantrace {
                Some(t) => t@.len() <= u32::MAX,
                None => true,
            },
        ensures
            r.error_chain@.len() == messages@.len(),
            forall|i: int|
                0 <= i < messages@.len() ==> (#[trigger] r.error_chain@[i]).0 == i
                    && r.error_chain@[i].1@ == messages@[i]@,
            match backtrace {
                Some(b) => r.backtrace matches Some(rb) && rb@.len() == b@.len() && forall|i: int|
                    0 <= i < b@.len() ==> (#[trigger] rb@[i]).0 == i && rb@[i].1@ == b@[i]@,
                None => r.backtrace is None,
            },
            match spantrace {
                Some(t) => r.spantrace matches Some(rt) && rt@.len() == t@.len() && forall|i: int|
                    0 <= i < t@.len() ==> (#[trigger] rt@[i]).0 == i && rt@[i].1@ == t@[i]@,
                None => r.spantrace is None,
            },
    {
        let mut chain: Vec<(u32, String)> = Vec::new();
        let mut rest = messages;
        let ghost orig = rest@;
        while rest.len() > 0
            invariant
                chain@.len() + rest@.len() == orig.len(),
                orig.len() <= u32::MAX,
                rest@ =~= orig.skip(chain@.len() as int),
                forall|i: int|
                    0 <= i < chain@.len() ==> (#[trigger] chain@[i]).0 == i && chain@[i].1@
                        == orig[i]@,
            decreases rest@.len(),
        {
            let idx = chain.len() as u32;
            let m = rest.remove(0);
            chain.push((idx, m));
            proof {
                assert(rest@ =~= orig.skip(chain@.len() as int));
            }
        }
        let bt: Option<Vec<(u32, BacktraceSymbol)>> = match backtrace {
            Some(items) => {
                let mut out: Vec<(u32, BacktraceSymbol)> = Vec::new();
                let mut rest = items;
                let ghost orig = rest@;
                while rest.len() > 0
                    invariant
                        out@.len() + rest@.len() == orig.len(),
                        orig.len() <= u32::MAX,
                        rest@ =~= orig.skip(out@.len() as int),
                        forall|i: int|
                            0 <= i < out@.len() ==> (#[trigger] out@[i]).0 == i && out@[i].1@
                                == orig[i]@,
                    decreases rest@.len(),
                {
                    let idx = out.len() as u32;
                    let sym = rest.remove(0);
                    out.push((idx, sym));
                    proof {
                        assert(rest@ =~= orig.skip(out@.len() as int));
                    }
                }
                Some(out)
            }
            None => None,
        };
        let st: Option<Vec<(u32, SpanFrame)>> = match spantrace {
            Some(items) => {
                let mut out: Vec<(u32, SpanFrame)> = Vec::new();
                let mut rest = items;
                let ghost orig = rest@;
                while rest.len() > 0
                    invariant
                        out@.len() + rest@.len() == orig.len(),
                        orig.len() <= u32::MAX,
                        rest@ =~= orig.skip(out@.len() as int),
                        forall|i: int|
                            0 <= i < out@.len() ==> (#[trigger] out@[i]).0 == i && out@[i].1@
                                == orig[i]@,
                    decreases rest@.len(),
                {
                    let idx = out.len() as u32;
                    let f = rest.remove(0);
                    out.push((idx, f));
                    proof {
                        assert(rest@ =~= orig.skip(out@.len() as int));
                    }
                }
                Some(out)
            }
            None => None,
        };
        JsonFormatter { error_chain: chain, backtrace: bt, spantrace: st }
    }

    /// The view of the error chain.
    pub open spec fn chain_view(&self) -> Seq<(u32, Seq<char>)> {
        self.error_chain@.map_values(|e: (u32, String)| (e.0, e.1@))
    }

    /// The view of the backtrace.
    pub open spec fn backtrace_view(&self) -> Option<Seq<(u32, BacktraceSymbolView)>> {
        match self.backtrace {
            Some(ref b) => Some(symbol_pairs_view(b@)),
            None => None,
        }
    }

    /// The view of the spantrace.
    pub open spec fn spantrace_view(&self) -> Option<Seq<(u32, SpanFrameView)>> {
        match self.spantrace {
            Some(ref t) => Some(frame_pairs_view(t@)),
            None => None,
        }
    }

    /// Serialize one backtrace symbol.
    #[verifier::rlimit(60)]
    fn push_symbol(out: &mut Vec<u8>, s: &BacktraceSymbol)
        ensures
            final(out)@ == old(out)@ + symbol_bytes(s@),
    {
        out.push(LBRACE);
        push_jstr(out, "function");
        out.push(COLON);
        Self::push_opt_str(out, &s.function);
        out.push(COMMA);
        push_jstr(out, "file");
        out.push(COLON);
        Self::push_opt_str(out, &s.file);
        out.push(COMMA);
        push_jstr(out, "line");
        out.push(COLON);
        Self::push_opt_u32(out, &s.line);
        out.push(RBRACE);
        assert(out@ =~= old(out)@ + symbol_bytes(s@));
    }

    /// Serialize one span frame.
    #[verifier::rlimit(60)]
    fn push_frame(out: &mut Vec<u8>, f: &SpanFrame)
        ensures
            final(out)@ == old(out)@ + frame_bytes(f@),
    {
        out.push(LBRACE);
        push_jstr(out, "full_name");
        out.push(COLON);
        push_jstr(out, f.full_name.as_str());
        out.push(COMMA);
        push_jstr(out, "file");
        out.push(COLON);
        Self::push_opt_str(out, &f.file);
        out.push(COMMA);
        push_jstr(out, "line");
        out.push(COLON);
        Self::push_opt_u32(out, &f.line);
        out.push(COMMA);
        push_jstr(out, "fields");
        out.push(COLON);
        Self::push_opt_str(out, &f.fields);
        out.push(RBRACE);
        assert(out@ =~= old(out)@ + frame_bytes(f@));
    }

    /// Serialize an optional string as a JSON string or `null`.
    fn push_opt_str(out: &mut Vec<u8>, s: &Option<String>)
        ensures
            final(out)@ == old(out)@ + opt_str_bytes(
                match s {
                    Some(x) => Some(x@),
                    None => None,
                },
            ),
    {
        match s {
            Some(x) => {
                push_jstr(out, x.as_str());
            }
            None => {
                out.push(110);
                out.push(117);
                out.push(108);
                out.push(108);
                assert(out@ =~= old(out)@ + seq![110u8, 117u8, 108u8, 108u8]);
            }
        }
    }

    /// Serialize an optional number as decimal or `null`.
    fn push_opt_u32(out: &mut Vec<u8>, n: &Option<u32>)
        ensures
            final(out)@ == old(out)@ + opt_u32_bytes(*n),
    {
        match n {
            Some(x) => {
                push_dec_u64(out, *x as u64);
            }
            None => {
                out.push(110);
                out.push(117);
                out.push(108);
                out.push(108);
                assert(out@ =~= old(out)@ + seq![110u8, 117u8, 108u8, 108u8]);
            }
        }
    }

    /// Serialize the error-chain array.
    fn chain_array(items: &Vec<(u32, String)>) -> (out: Vec<u8>)
        ensures
            out@ == array_bytes(
                items@.map_values(|e: (u32, String)| (e.0, e.1@)).map_values(
                    |e: (u32, Seq<char>)| pair_bytes(e.0, jstr_bytes(e.1)),
                ),
            ),
    {
        let mut built: Vec<Vec<u8>> = Vec::new();
        let mut i: usize = 0;
        while i < items.len()
            invariant
                i <= items@.len(),
                built@.len() == i,
                forall|j: int|
                    0 <= j < i ==> (#[trigger] built@[j])@ == pair_bytes(
                        items@[j].0,
                        jstr_bytes(items@[j].1@),
                    ),
            decreases items@.len() - i,
        {
            let mut item: Vec<u8> = Vec::new();
            item.push(LBRACK);
            push_dec_u64(&mut item, items[i].0 as u64);
            item.push(COMMA);
            push_jstr(&mut item, items[i].1.as_str());
            item.push(RBRACK);
            proof {
                assert(item@ =~= pair_bytes(items@[i as int].0, jstr_bytes(items@[i as int].1@)));
            }
            built.push(item);
            i = i + 1;
        }
        let out = join_array(&built);
        proof {
            assert(built@.map_values(|l: Vec<u8>| l@) =~= items@.map_values(
                |e: (u32, String)| (e.0, e.1@),
            ).map_values(|e: (u32, Seq<char>)| pair_bytes(e.0, jstr_bytes(e.1))));
        }
        out
    }

    /// Serialize the backtrace array.
    fn symbol_array(items: &Vec<(u32, BacktraceSymbol)>) -> (out: Vec<u8>)
        ensures
            out@ == array_bytes(
                symbol_pairs_view(items@).map_values(
                    |e: (u32, BacktraceSymbolView)| pair_bytes(e.0, symbol_bytes(e.1)),
                ),
            ),
    {
        let mut built: Vec<Vec<u8>> = Vec::new();
        let mut i: usize = 0;
        while i < items.len()
            invariant
                i <= items@.len(),
                built@.len() == i,
                forall|j: int|
                    0 <= j < i ==> (#[trigger] built@[j])@ == pair_bytes(
                        items@[j].0,
                        symbol_bytes(items@[j].1@),
                    ),
            decreases items@.len() - i,
        {
            let mut item: Vec<u8> = Vec::new();
            item.push(LBRACK);
            push_dec_u64(&mut item, items[i].0 as u64);
            item.push(COMMA);
            Self::push_symbol(&mut item, &items[i].1);
            item.push(RBRACK);
            proof {
                assert(item@ =~= pair_bytes(items@[i as int].0, symbol_bytes(items@[i as int].1@)));
            }
            built.push(item);
            i = i + 1;
        }
        let out = join_array(&built);
        proof {
            assert(built@.map_values(|l: Vec<u8>| l@) =~= symbol_pairs_view(items@).map_values(
                |e: (u32, BacktraceSymbolView)| pair_bytes(e.0, symbol_bytes(e.1)),
            ));
        }
        out
    }

    /// Serialize the spantrace array.
    fn frame_array(items: &Vec<(u32, SpanFrame)>) -> (out: Vec<u8>)
        ensures
            out@ == array_bytes(
                frame_pairs_view(items@).map_values(
                    |e: (u32, SpanFrameView)| pair_bytes(e.0, frame_bytes(e.1)),
                ),
            ),
    {
        let mut built: Vec<Vec<u8>> = Vec::new();
        let mut i: usize = 0;
        while i < items.len()
            invariant
                i <= items@.len(),
                built@.len() == i,
                forall|j: int|
                    0 <= j < i ==> (#[trigger] built@[j])@ == pair_bytes(
                        items@[j].0,
                        frame_bytes(items@[j].1@),
                    ),
            decreases items@.len() - i,
        {
            let mut item: Vec<u8> = Vec::new();
            item.push(LBRACK);
            push_dec_u64(&mut item, items[i].0 as u64);
            item.push(COMMA);
            Self::push_frame(&mut item, &items[i].1);
            item.push(RBRACK);
            proof {
                assert(item@ =~= pair_bytes(items@[i as int].0, frame_bytes(items@[i as int].1@)));
            }
            built.push(item);
            i = i + 1;
        }
        let out = join_array(&built);
        proof {
            assert(built@.map_values(|l: Vec<u8>| l@) =~= frame_pairs_view(items@).map_values(
                |e: (u32, SpanFrameView)| pair_bytes(e.0, frame_bytes(e.1)),
            ));
        }
        out
    }

    /// Serialize the report as one JSON object, with optional members
    /// omitted when their capture was off.
    pub fn to_json(&self) -> (out: Vec<u8>)
        ensures
            out@ == formatter_bytes(self.chain_view(), self.backtrace_view(), self.spantrace_view()),
    {
        let mut out: Vec<u8> = Vec::new();
        out.push(LBRACE);
        push_jstr(&mut out, "error_chain");
        out.push(COLON);
        let chain = Self::chain_array(&self.error_chain);
        push_bytes(&mut out, chain.as_slice());
        match &self.backtrace {
            Some(items) => {
                out.push(COMMA);
                push_jstr(&mut out, "backtrace");
                out.push(COLON);
                let arr = Self::symbol_array(items);
                push_bytes(&mut out, arr.as_slice());
            }
            None => {}
        }
        match &self.spantrace {
            Some(items) => {
                out.push(COMMA);
                push_jstr(&mut out, "spantrace");
                out.push(COLON);
                let arr = Self::frame_array(items);
                push_bytes(&mut out, arr.as_slice());
            }
            None => {}
        }
        out.push(RBRACE);
        proof {
            assert(out@ =~= formatter_bytes(
                self.chain_view(),
                self.backtrace_view(),
                self.spantrace_view(),
            ));
        }
        out
    }
}

} // verus!
