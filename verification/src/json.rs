//! A small JSON value model and byte-level serializers.
//!
//! Log records are emitted as single-line JSON objects.  The serializers here
//! work on UTF-8 bytes: every string is escaped with the conventional JSON
//! escapes (`\"`, `\\`, `\b`, `\t`, `\n`, `\f`, `\r`, and `\u00XX` for the
//! remaining control characters), and numbers are written in decimal.

use vstd::prelude::*;

verus! {

/// `"` as a byte.
pub const QUOTE: u8 = 34;
/// `\` as a byte.
pub const BACKSLASH: u8 = 92;
/// `{` as a byte.
pub const LBRACE: u8 = 123;
/// `}` as a byte.
pub const RBRACE: u8 = 125;
/// `:` as a byte.
pub const COLON: u8 = 58;
/// `,` as a byte.
pub const COMMA: u8 = 44;
/// Line feed as a byte.
pub const NEWLINE: u8 = 10;
/// `[` as a byte.
pub const LBRACK: u8 = 91;
/// `]` as a byte.
pub const RBRACK: u8 = 93;

/// A JSON value as it can appear in a log record field.
#[derive(Debug, Clone, PartialEq, Eq)]
pub enum JsonValue {
    Null,
    Bool(bool),
    UInt(u64),
    Int(i64),
    Str(String),
}

/// The mathematical model of a [`JsonValue`]: strings become character
/// sequences.
pub enum JsonValueView {
    Null,
    Bool(bool),
    UInt(u64),
    Int(i64),
    Str(Seq<char>),
}

impl View for JsonValue {
    type V = JsonValueView;

    open spec fn view(&self) -> JsonValueView {
        match self {
            JsonValue::Null => JsonValueView::Null,
            JsonValue::Bool(b) => JsonValueView::Bool(*b),
            JsonValue::UInt(n) => JsonValueView::UInt(*n),
            JsonValue::Int(i) => JsonValueView::Int(*i),
            JsonValue::Str(s) => JsonValueView::Str(s@),
        }
    }
}

impl JsonValue {
    /// An explicit copy whose model equals this value's.
    pub fn dup(&self) -> (r: JsonValue)
        ensures
            r@ == self@,
    {
        match self {
            JsonValue::Null => JsonValue::Null,
            JsonValue::Bool(b) => JsonValue::Bool(*b),
            JsonValue::UInt(n) => JsonValue::UInt(*n),
            JsonValue::Int(i) => JsonValue::Int(*i),
            JsonValue::Str(s) => JsonValue::Str(s.clone()),
        }
    }
}

/// The decimal digits of `n`, most significant first, as ASCII bytes.
pub open spec fn dec_rep(n: nat) -> Seq<u8>
    decreases n,
{
    if n < 10 {
        seq![(48 + n) as u8]
    } else {
        dec_rep(n / 10).push((48 + n % 10) as u8)
    }
}

/// The escape sequence that stands for the byte `b` inside a JSON string.
/// Bytes outside the escaped set stand for themselves; bytes at and above
/// 0x80 (UTF-8 continuation and leading bytes) pass through unchanged.
pub open spec fn esc_byte(b: u8) -> Seq<u8> {
    if b == QUOTE {
        seq![BACKSLASH, QUOTE]
    } else if b == BACKSLASH {
        seq![BACKSLASH, BACKSLASH]
    } else if b == 8 {
        seq![BACKSLASH, 98u8]  // \b
    } else if b == 9 {
        seq![BACKSLASH, 116u8]  // \t
    } else if b == 10 {
        seq![BACKSLASH, 110u8]  // \n
    } else if b == 12 {
        seq![BACKSLASH, 102u8]  // \f
    } else if b == 13 {
        seq![BACKSLASH, 114u8]  // \r
    } else if b < 32 {
        // \u00XX with lower-case hex digits
        seq![BACKSLASH, 117u8, 48u8, 48u8, hex_digit((b / 16) as nat), hex_digit((b % 16) as nat)]
    } else {
        seq![b]
    }
}

/// The ASCII byte for the hex digit `d` (lower-case letters).
pub open spec fn hex_digit(d: nat) -> u8 {
    if d < 10 {
        (48 + d) as u8
    } else {
        (87 + d) as u8
    }
}

/// The bytes of `s` with every byte replaced by its JSON escape.
pub open spec fn esc_bytes(s: Seq<u8>) -> Seq<u8>
    decreases s.len(),
{
    if s.len() == 0 {
        Seq::empty()
    } else {
        esc_byte(s[0]) + esc_bytes(s.drop_first())
    }
}

/// A JSON string literal: the escaped bytes of `s` between double quotes.
pub open spec fn jstr_bytes(s: Seq<char>) -> Seq<u8> {
    seq![QUOTE] + esc_bytes(vstd::utf8::encode_utf8(s)) + seq![QUOTE]
}

/// The serialized bytes of a JSON value.
pub open spec fn val_bytes(v: JsonValueView) -> Seq<u8> {
    match v {
        JsonValueView::Null => seq![110u8, 117u8, 108u8, 108u8],  // null
        JsonValueView::Bool(b) => if b {
            seq![116u8, 114u8, 117u8, 101u8]  // true
        } else {
            seq![102u8, 97u8, 108u8, 115u8, 101u8]  // false
        },
        JsonValueView::UInt(n) => dec_rep(n as nat),
        JsonValueView::Int(i) => if i >= 0 {
            dec_rep(i as nat)
        } else {
            seq![45u8] + dec_rep((-(i as int)) as nat)  // leading '-'
        },
        JsonValueView::Str(s) => jstr_bytes(s),
    }
}

/// Escaping distributes over appending one byte.
pub proof fn lemma_esc_bytes_push(s: Seq<u8>, b: u8)
    ensures
        esc_bytes(s.push(b)) == esc_bytes(s) + esc_byte(b),
    decreases s.len(),
{
    if s.len() == 0 {
        assert(s.push(b).drop_first() =~= Seq::<u8>::empty());
        assert(s.push(b)[0] == b);
        assert(esc_bytes(s.push(b)) =~= esc_byte(b) + esc_bytes(Seq::<u8>::empty()));
        assert(esc_bytes(s.push(b)) =~= esc_byte(b));
        assert(esc_bytes(s) + esc_byte(b) =~= esc_byte(b));
    } else {
        assert(s.push(b).drop_first() =~= s.drop_first().push(b));
        lemma_esc_bytes_push(s.drop_first(), b);
        assert(esc_bytes(s.push(b)) =~= esc_byte(s[0]) + (esc_bytes(s.drop_first()) + esc_byte(b)));
        assert(esc_byte(s[0]) + (esc_bytes(s.drop_first()) + esc_byte(b)) =~= esc_bytes(s) + esc_byte(b));
    }
}

/// Append the JSON escape of one byte to `out`.
fn push_esc_byte(out: &mut Vec<u8>, b: u8)
    ensures
        final(out)@ == old(out)@ + esc_byte(b),
{
    if b == QUOTE {
        out.push(BACKSLASH);
        out.push(QUOTE);
    } else if b == BACKSLASH {
        out.push(BACKSLASH);
        out.push(BACKSLASH);
    } else if b == 8 {
        out.push(BACKSLASH);
        out.push(98);
    } else if b == 9 {
        out.push(BACKSLASH);
        out.push(116);
    } else if b == 10 {
        out.push(BACKSLASH);
        out.push(110);
    } else if b == 12 {
        out.push(BACKSLASH);
        out.push(102);
    } else if b == 13 {
        out.push(BACKSLASH);
        out.push(114);
    } else if b < 32 {
        out.push(BACKSLASH);
        out.push(117);
        out.push(48);
        out.push(48);
        let hi = b / 16;
        let lo = b % 16;
        out.push(if hi < 10 { 48 + hi } else { 87 + hi });
        out.push(if lo < 10 { 48 + lo } else { 87 + lo });
    } else {
        out.push(b);
    }
    assert(out@ =~= old(out)@ + esc_byte(b));
}

/// Append the escaped bytes of `s` to `out`.
pub fn push_escaped(out: &mut Vec<u8>, s: &[u8])
    ensures
        final(out)@ == old(out)@ + esc_bytes(s@),
{
    let ghost orig = out@;
    let mut i: usize = 0;
    while i < s.len()
        invariant
            i <= s@.len(),
            out@ == orig + esc_bytes(s@.take(i as int)),
        decreases s@.len() - i,
    {
        proof {
            assert(s@.take(i as int).push(s@[i as int]) =~= s@.take(i as int + 1));
            lemma_esc_bytes_push(s@.take(i as int), s@[i as int]);
        }
        push_esc_byte(out, s[i]);
        i = i + 1;
    }
    proof {
        assert(s@.take(s@.len() as int) =~= s@);
    }
}

/// Append the bytes of `src` to `out`.
pub fn push_bytes(out: &mut Vec<u8>, src: &[u8])
    ensures
        final(out)@ == old(out)@ + src@,
{
    let mut i: usize = 0;
    while i < src.len()
        invariant
            i <= src@.len(),
            out@ == old(out)@ + src@.take(i as int),
        decreases src@.len() - i,
    {
        out.push(src[i]);
        proof {
            assert(old(out)@ + src@.take(i as int + 1) =~= (old(out)@ + src@.take(i as int)).push(
                src@[i as int],
            ));
        }
        i = i + 1;
    }
    proof {
        assert(src@.take(src@.len() as int) =~= src@);
    }
}

/// Append a JSON string literal holding `s` to `out`.
pub fn push_jstr(out: &mut Vec<u8>, s: &str)
    ensures
        final(out)@ == old(out)@ + jstr_bytes(s@),
{
    out.push(QUOTE);
    push_escaped(out, s.as_bytes());
    out.push(QUOTE);
    assert(out@ =~= old(out)@ + jstr_bytes(s@));
}

/// Append the decimal digits of `n` to `out`.
pub fn push_dec_u64(out: &mut Vec<u8>, n: u64)
    ensures
        final(out)@ == old(out)@ + dec_rep(n as nat),
    decreases n,
{
    if n < 10 {
        let d: u8 = 48 + (n as u8);
        out.push(d);
        assert(out@ =~= old(out)@ + dec_rep(n as nat));
    } else {
        push_dec_u64(out, n / 10);
        let d: u8 = 48 + ((n % 10) as u8);
        out.push(d);
        assert(out@ =~= old(out)@ + dec_rep(n as nat));
    }
}

/// Append the serialized bytes of `v` to `out`.
pub fn push_value(out: &mut Vec<u8>, v: &JsonValue)
    ensures
        final(out)@ == old(out)@ + val_bytes(v@),
{
    match v {
        JsonValue::Null => {
            out.push(110);
            out.push(117);
            out.push(108);
            out.push(108);
            assert(out@ =~= old(out)@ + val_bytes(v@));
        }
        JsonValue::Bool(b) => {
            if *b {
                out.push(116);
                out.push(114);
                out.push(117);
                out.push(101);
            } else {
                out.push(102);
                out.push(97);
                out.push(108);
                out.push(115);
                out.push(101);
            }
            assert(out@ =~= old(out)@ + val_bytes(v@));
        }
        JsonValue::UInt(n) => {
            push_dec_u64(out, *n);
        }
        JsonValue::Int(i) => {
            if *i >= 0 {
                push_dec_u64(out, *i as u64);
                assert(out@ =~= old(out)@ + val_bytes(v@));
            } else {
                out.push(45);
                let m: u64 = (-(*i + 1)) as u64;
                let m1: u64 = m + 1;
                assert(m1 as nat == (-(*i as int)) as nat);
                push_dec_u64(out, m1);
                assert(out@ =~= old(out)@ + val_bytes(v@));
            }
        }
        JsonValue::Str(s) => {
            push_jstr(out, s.as_str());
            assert(out@ =~= old(out)@ + val_bytes(v@));
        }
    }
}


/// No byte of `s` is a line feed.
pub open spec fn nl_free(s: Seq<u8>) -> bool {
    forall|i: int| 0 <= i < s.len() ==> s[i] != NEWLINE
}

/// Decimal digits contain no line feed.
pub proof fn lemma_dec_rep_nl_free(n: nat)
    ensures
        nl_free(dec_rep(n)),
    decreases n,
{
    if n >= 10 {
        lemma_dec_rep_nl_free(n / 10);
    }
}

/// An escaped byte expands to bytes that are never a line feed: a raw line
/// feed becomes `\n`, every other control byte is escaped too, and the
/// bytes that pass through are all at or above the space character.
pub proof fn lemma_esc_byte_nl_free(b: u8)
    ensures
        nl_free(esc_byte(b)),
{
}

/// An escaped string contains no line feed.
pub proof fn lemma_esc_bytes_nl_free(s: Seq<u8>)
    ensures
        nl_free(esc_bytes(s)),
    decreases s.len(),
{
    if s.len() > 0 {
        lemma_esc_byte_nl_free(s[0]);
        lemma_esc_bytes_nl_free(s.drop_first());
        assert forall|i: int| 0 <= i < esc_bytes(s).len() implies esc_bytes(s)[i] != NEWLINE by {
            if i < esc_byte(s[0]).len() {
                assert(esc_bytes(s)[i] == esc_byte(s[0])[i]);
            } else {
                assert(esc_bytes(s)[i] == esc_bytes(s.drop_first())[i - esc_byte(s[0]).len()]);
            }
        }
    }
}

/// A JSON string literal contains no line feed.
pub proof fn lemma_jstr_bytes_nl_free(s: Seq<char>)
    ensures
        nl_free(jstr_bytes(s)),
{
    lemma_esc_bytes_nl_free(vstd::utf8::encode_utf8(s));
}

/// A serialized value contains no line feed.
pub proof fn lemma_val_bytes_nl_free(v: JsonValueView)
    ensures
        nl_free(val_bytes(v)),
{
    match v {
        JsonValueView::Null => {}
        JsonValueView::Bool(_) => {}
        JsonValueView::UInt(n) => {
            lemma_dec_rep_nl_free(n as nat);
        }
        JsonValueView::Int(i) => {
            if i >= 0 {
                lemma_dec_rep_nl_free(i as nat);
            } else {
                lemma_dec_rep_nl_free((-(i as int)) as nat);
            }
        }
        JsonValueView::Str(s) => {
            lemma_jstr_bytes_nl_free(s);
        }
    }
}

} // verus!
