//! Byte-level scanner that splits the body of a JSON array (or object) into
//! the byte spans of its top-level elements (or members), without parsing the
//! elements themselves.
//!
//! The scanner is the state machine described by [`scan_step`]: it tracks the
//! bracket nesting depth over `{`, `}`, `[` and `]`, an "inside a string
//! literal" flag and an "the next byte is escaped" flag, so that structural
//! bytes inside string literals are never mistaken for element boundaries.
//! Whitespace and commas between elements belong to no element's span.

use vstd::prelude::*;

verus! {

/// Structural failure of a scan: the input is not one well-delimited
/// top-level array (or object). Such a failure ends the scan; nothing after
/// it is decoded.
#[derive(Clone, Copy, Debug, PartialEq, Eq, Structural)]
pub enum MalformedJson {
    /// The input ended inside a string literal.
    UnterminatedString,
    /// A closing bracket appeared at top level with no matching opener.
    BracketUnderflow,
    /// The input ended before the top-level array (or object) was closed.
    PrematureEnd,
    /// A byte stood where no well-formed input allows one: before the
    /// opening bracket, or after the closing one.
    UnexpectedByte,
}

/// Where the scanner stands relative to the one top-level array (or object).
#[derive(Clone, Copy, Debug, PartialEq, Eq, Structural)]
pub enum ScanPhase {
    /// Before the opening bracket; only whitespace may pass.
    Start,
    /// Between the opening and the closing bracket.
    Body,
    /// After the closing bracket; only whitespace may follow.
    Done,
    /// The input was malformed; the scan is over.
    Failed(MalformedJson),
}

/// The whole state of the scanner: the phase, the nesting depth relative to
/// the top level, the two string flags, the bytes of the element being
/// accumulated, and the spans already emitted.
pub struct ScanState {
    pub phase: ScanPhase,
    pub depth: nat,
    pub in_str: bool,
    pub esc: bool,
    pub buf: Seq<u8>,
    pub out: Seq<Seq<u8>>,
}

pub open spec fn is_ws(b: u8) -> bool {
    b == 32 || b == 9 || b == 10 || b == 13
}

pub open spec fn scan_init() -> ScanState {
    ScanState {
        phase: ScanPhase::Start,
        depth: 0,
        in_str: false,
        esc: false,
        buf: Seq::empty(),
        out: Seq::empty(),
    }
}

/// One byte of the scan. `open` and `close` are the top-level delimiters:
/// `[` and `]` when splitting an array into elements, `{` and `}` when
/// splitting an object into members.
///
/// At depth zero, whitespace and commas separate spans and belong to none;
/// a comma or the closing delimiter after accumulated bytes completes a span.
/// Inside a string literal every byte is accumulated and only an unescaped
/// `"` leaves the literal, so quotes, commas and brackets behind a `\` never
/// look structural.
pub open spec fn scan_step(open: u8, close: u8, s: ScanState, b: u8) -> ScanState {
    match s.phase {
        ScanPhase::Failed(_) => s,
        ScanPhase::Done => if is_ws(b) {
            s
        } else {
            ScanState { phase: ScanPhase::Failed(MalformedJson::UnexpectedByte), ..s }
        },
        ScanPhase::Start => if is_ws(b) {
            s
        } else if b == open {
            ScanState { phase: ScanPhase::Body, ..s }
        } else {
            ScanState { phase: ScanPhase::Failed(MalformedJson::UnexpectedByte), ..s }
        },
        ScanPhase::Body => if s.in_str {
            if s.esc {
                ScanState { esc: false, buf: s.buf.push(b), ..s }
            } else if b == 92 {
                ScanState { esc: true, buf: s.buf.push(b), ..s }
            } else if b == 34 {
                ScanState { in_str: false, buf: s.buf.push(b), ..s }
            } else {
                ScanState { buf: s.buf.push(b), ..s }
            }
        } else if b == 34 {
            ScanState { in_str: true, buf: s.buf.push(b), ..s }
        } else if b == 123 || b == 91 {
            ScanState { depth: s.depth + 1, buf: s.buf.push(b), ..s }
        } else if s.depth > 0 && (b == 125 || b == 93) {
            ScanState { depth: (s.depth - 1) as nat, buf: s.buf.push(b), ..s }
        } else if b == close {
            ScanState {
                phase: ScanPhase::Done,
                buf: Seq::empty(),
                out: if s.buf.len() > 0 {
                    s.out.push(s.buf)
                } else {
                    s.out
                },
                ..s
            }
        } else if b == 125 || b == 93 {
            ScanState { phase: ScanPhase::Failed(MalformedJson::BracketUnderflow), ..s }
        } else if s.depth == 0 && b == 44 {
            if s.buf.len() > 0 {
                ScanState { buf: Seq::empty(), out: s.out.push(s.buf), ..s }
            } else {
                s
            }
        } else if s.depth == 0 && is_ws(b) {
            s
        } else {
            ScanState { buf: s.buf.push(b), ..s }
        },
    }
}

/// The scanner run over `input` from state `s`.
pub open spec fn scan_seq(open: u8, close: u8, s: ScanState, input: Seq<u8>) -> ScanState
    decreases input.len(),
{
    if input.len() == 0 {
        s
    } else {
        scan_seq(open, close, scan_step(open, close, s, input.first()), input.drop_first())
    }
}

/// The scanner run over all of `input` from the initial state.
pub open spec fn scan_bytes(open: u8, close: u8, input: Seq<u8>) -> ScanState {
    scan_seq(open, close, scan_init(), input)
}

/// The terminal status of a finished scan: `None` when the input was one
/// well-delimited array (or object), otherwise which structural failure ends
/// it. An input that ends mid-string is an unterminated string; one that
/// ends before the closing bracket ends prematurely.
pub open spec fn scan_error_of(st: ScanState) -> Option<MalformedJson> {
    match st.phase {
        ScanPhase::Done => None,
        ScanPhase::Failed(k) => Some(k),
        ScanPhase::Start => Some(MalformedJson::PrematureEnd),
        ScanPhase::Body => if st.in_str {
            Some(MalformedJson::UnterminatedString)
        } else {
            Some(MalformedJson::PrematureEnd)
        },
    }
}

/// The element (or member) spans that a full scan of `input` emits.
pub open spec fn spans_of(open: u8, close: u8, input: Seq<u8>) -> Seq<Seq<u8>> {
    scan_bytes(open, close, input).out
}

/// The structural failure, if any, of a full scan of `input`.
pub open spec fn error_of(open: u8, close: u8, input: Seq<u8>) -> Option<MalformedJson> {
    scan_error_of(scan_bytes(open, close, input))
}

/// The element spans of `input` read as one top-level JSON array.
pub open spec fn array_spans(input: Seq<u8>) -> Seq<Seq<u8>> {
    spans_of(91, 93, input)
}

/// The structural failure, if any, of `input` read as one top-level JSON array.
pub open spec fn array_error(input: Seq<u8>) -> Option<MalformedJson> {
    error_of(91, 93, input)
}

/// Running the scanner over one more byte is one more step.
pub proof fn lemma_scan_snoc(open: u8, close: u8, s: ScanState, input: Seq<u8>, b: u8)
    ensures
        scan_seq(open, close, s, input.push(b)) == scan_step(
            open,
            close,
            scan_seq(open, close, s, input),
            b,
        ),
    decreases input.len(),
{
    let p = input.push(b);
    if input.len() == 0 {
        assert(p.first() == b);
        assert(p.drop_first() =~= Seq::<u8>::empty());
        assert(scan_seq(open, close, s, p) == scan_seq(
            open,
            close,
            scan_step(open, close, s, b),
            p.drop_first(),
        ));
        assert(scan_seq(open, close, scan_step(open, close, s, b), p.drop_first())
            == scan_step(open, close, s, b));
        assert(scan_seq(open, close, s, input) == s);
    } else {
        assert(p.first() == input.first());
        assert(p.drop_first() =~= input.drop_first().push(b));
        lemma_scan_snoc(open, close, scan_step(open, close, s, input.first()), input.drop_first(), b);
        assert(scan_seq(open, close, s, p) == scan_seq(
            open,
            close,
            scan_step(open, close, s, input.first()),
            p.drop_first(),
        ));
    }
}

/// Splits `bytes`, read as one top-level array (when `open` is `[`) or
/// object (when `open` is `{`), into the byte spans of its elements or
/// members, exactly as the scanner state machine emits them — together
/// with the structural failure, if any, that ended the scan. The spans
/// completed before a failure are all there.
pub(crate) fn split_delimited(bytes: &[u8], open: u8, close: u8) -> (r: (
    Vec<Vec<u8>>,
    Option<MalformedJson>,
))
    ensures
        r.0.deep_view() == spans_of(open, close, bytes@),
        r.1 == error_of(open, close, bytes@),
{
    let n = bytes.len();
    let mut i: usize = 0;
    let mut phase = ScanPhase::Start;
    let mut depth: usize = 0;
    let mut in_str = false;
    let mut esc = false;
    let mut buf: Vec<u8> = Vec::new();
    let mut out: Vec<Vec<u8>> = Vec::new();
    while i < n
        invariant
            i <= n,
            n == bytes@.len(),
            ({
                let st = scan_seq(open, close, scan_init(), bytes@.subrange(0, i as int));
                &&& phase == st.phase
                &&& depth as nat == st.depth
                &&& in_str == st.in_str
                &&& esc == st.esc
                &&& buf@ == st.buf
                &&& out.deep_view() == st.out
                &&& st.depth <= i
            }),
        decreases n - i,
    {
        let b = bytes[i];
        proof {
            lemma_scan_snoc(open, close, scan_init(), bytes@.subrange(0, i as int), b);
            assert(bytes@.subrange(0, i + 1) =~= bytes@.subrange(0, i as int).push(b));
        }
        let ghost pre = scan_seq(open, close, scan_init(), bytes@.subrange(0, i as int));
        let ghost post = scan_step(open, close, pre, b);
        match phase {
            ScanPhase::Failed(_) => {},
            ScanPhase::Done => {
                if !(b == 32 || b == 9 || b == 10 || b == 13) {
                    phase = ScanPhase::Failed(MalformedJson::UnexpectedByte);
                }
            },
            ScanPhase::Start => {
                if b == 32 || b == 9 || b == 10 || b == 13 {
                } else if b == open {
                    phase = ScanPhase::Body;
                } else {
                    phase = ScanPhase::Failed(MalformedJson::UnexpectedByte);
                }
            },
            ScanPhase::Body => {
                if in_str {
                    buf.push(b);
                    if esc {
                        esc = false;
                    } else if b == 92 {
                        esc = true;
                    } else if b == 34 {
                        in_str = false;
                    }
                } else if b == 34 {
                    in_str = true;
                    buf.push(b);
                } else if b == 123 || b == 91 {
                    depth = depth + 1;
                    buf.push(b);
                } else if depth > 0 && (b == 125 || b == 93) {
                    depth = depth - 1;
                    buf.push(b);
                } else if b == close {
                    phase = ScanPhase::Done;
                    if buf.len() > 0 {
                        let el = buf;
                        buf = Vec::new();
                        out.push(el);
                        proof {
                            assert(out.deep_view() =~~= post.out);
                        }
                    }
                } else if b == 125 || b == 93 {
                    phase = ScanPhase::Failed(MalformedJson::BracketUnderflow);
                } else if depth == 0 && b == 44 {
                    if buf.len() > 0 {
                        let el = buf;
                        buf = Vec::new();
                        out.push(el);
                        proof {
                            assert(out.deep_view() =~~= post.out);
                        }
                    }
                } else if depth == 0 && (b == 32 || b == 9 || b == 10 || b == 13) {
                } else {
                    buf.push(b);
                }
            },
        }
        i = i + 1;
    }
    proof {
        assert(bytes@.subrange(0, n as int) =~= bytes@);
    }
    let err = match phase {
        ScanPhase::Done => None,
        ScanPhase::Failed(k) => Some(k),
        ScanPhase::Start => Some(MalformedJson::PrematureEnd),
        ScanPhase::Body => if in_str {
            Some(MalformedJson::UnterminatedString)
        } else {
            Some(MalformedJson::PrematureEnd)
        },
    };
    (out, err)
}

/// Splits one top-level JSON array into the byte spans of its elements, in
/// source order. Whitespace and commas between elements belong to no span;
/// quotes, commas and brackets inside string literals (escaped or not) never
/// end a span. On a structurally malformed input — an unterminated string, a
/// closing bracket with no opener, bytes outside the array, or input that
/// ends before `]` — the matching [`MalformedJson`] comes back instead.
pub fn split_json_array(bytes: &[u8]) -> (r: Result<Vec<Vec<u8>>, MalformedJson>)
    ensures
        match r {
            Ok(els) => array_error(bytes@) is None && els.deep_view() == array_spans(bytes@),
            Err(k) => array_error(bytes@) == Some(k),
        },
{
    let (els, err) = split_delimited(bytes, 91, 93);
    match err {
        None => Ok(els),
        Some(k) => Err(k),
    }
}

/// Law: bytes inside a string literal are never structural. While the
/// scanner stands inside a string literal, a byte — a quote behind a
/// backslash, a comma, a bracket — never changes the nesting depth, never
/// completes an element, never ends the scan, and is accumulated like any
/// other byte; a byte behind a backslash never even leaves the literal.
pub proof fn lemma_string_bytes_not_structural(open: u8, close: u8, s: ScanState, b: u8)
    requires
        s.phase is Body,
        s.in_str,
    ensures
        ({
            let s2 = scan_step(open, close, s, b);
            &&& s2.depth == s.depth
            &&& s2.out == s.out
            &&& s2.phase == s.phase
            &&& s2.buf == s.buf.push(b)
            &&& (s.esc ==> s2.in_str)
            &&& s2.esc == (!s.esc && b == 92)
        }),
{
}

/// Law: one byte grows the element buffer by at most one byte.
pub proof fn lemma_buffer_growth(open: u8, close: u8, s: ScanState, b: u8)
    ensures
        scan_step(open, close, s, b).buf.len() <= s.buf.len() + 1,
{
}

/// Law: completing an element empties the buffer. Together with
/// [`lemma_buffer_growth`] this bounds the scanner's resident state by a
/// constant plus the length of the element being assembled, whatever the
/// length of the whole array.
pub proof fn lemma_emit_clears_buffer(open: u8, close: u8, s: ScanState, b: u8)
    ensures
        ({
            let s2 = scan_step(open, close, s, b);
            s2.out.len() > s.out.len() ==> s2.buf.len() == 0
        }),
{
}

/// Law: the spans once emitted stay emitted, whatever bytes follow — also
/// on an input whose tail is malformed, every element completed before the
/// failure is in the output.
pub proof fn lemma_out_monotone(open: u8, close: u8, s: ScanState, input: Seq<u8>)
    ensures
        scan_seq(open, close, s, input).out.len() >= s.out.len(),
        scan_seq(open, close, s, input).out.subrange(0, s.out.len() as int) == s.out,
    decreases input.len(),
{
    if input.len() == 0 {
        assert(scan_seq(open, close, s, input).out.subrange(0, s.out.len() as int) =~= s.out);
    } else {
        let s1 = scan_step(open, close, s, input.first());
        lemma_out_monotone(open, close, s1, input.drop_first());
        assert(s1.out.subrange(0, s.out.len() as int) =~= s.out);
        let fin = scan_seq(open, close, s1, input.drop_first());
        assert(fin.out.subrange(0, s1.out.len() as int).subrange(0, s.out.len() as int) =~= fin.out.subrange(0, s.out.len() as int));
    }
}

/// Law: a run of whitespace moves the scanner nowhere, outside an element
/// and outside a string literal: before the opening bracket, between
/// elements, and after the closing bracket.
pub proof fn lemma_ws_run_is_skipped(open: u8, close: u8, s: ScanState, w: Seq<u8>)
    requires
        !is_ws(open),
        !is_ws(close),
        forall|i: int| 0 <= i < w.len() ==> is_ws(#[trigger] w[i]),
        s.phase is Start || s.phase is Done || (s.phase is Body && !s.in_str && s.depth == 0
            && s.buf.len() == 0),
    ensures
        scan_seq(open, close, s, w) == s,
    decreases w.len(),
{
    if w.len() > 0 {
        assert(is_ws(w[0]));
        assert(scan_step(open, close, s, w.first()) == s);
        assert forall|i: int| 0 <= i < w.drop_first().len() implies is_ws(
            #[trigger] w.drop_first()[i],
        ) by {
            assert(w.drop_first()[i] == w[i + 1]);
        }
        lemma_ws_run_is_skipped(open, close, s, w.drop_first());
    }
}

/// The scanner over two inputs in turn is the scanner over the one after
/// the other.
pub proof fn lemma_scan_append(open: u8, close: u8, s: ScanState, x: Seq<u8>, y: Seq<u8>)
    ensures
        scan_seq(open, close, s, x + y) == scan_seq(open, close, scan_seq(open, close, s, x), y),
    decreases x.len(),
{
    if x.len() == 0 {
        assert(x + y =~= y);
    } else {
        assert((x + y).first() == x.first());
        assert((x + y).drop_first() =~= x.drop_first() + y);
        lemma_scan_append(open, close, scan_step(open, close, s, x.first()), x.drop_first(), y);
    }
}

/// Law: an array that holds nothing but whitespace between its brackets —
/// with any whitespace around them — yields no element and no error.
pub proof fn lemma_empty_array(a: Seq<u8>, b: Seq<u8>, c: Seq<u8>)
    requires
        forall|i: int| 0 <= i < a.len() ==> is_ws(#[trigger] a[i]),
        forall|i: int| 0 <= i < b.len() ==> is_ws(#[trigger] b[i]),
        forall|i: int| 0 <= i < c.len() ==> is_ws(#[trigger] c[i]),
    ensures
        array_spans(a + seq![91u8] + b + seq![93u8] + c) =~= Seq::<Seq<u8>>::empty(),
        array_error(a + seq![91u8] + b + seq![93u8] + c) is None,
{
    let input = a + seq![91u8] + b + seq![93u8] + c;
    let s0 = scan_init();
    lemma_scan_append(91, 93, s0, a + seq![91u8] + b + seq![93u8], c);
    lemma_scan_append(91, 93, s0, a + seq![91u8] + b, seq![93u8]);
    lemma_scan_append(91, 93, s0, a + seq![91u8], b);
    lemma_scan_append(91, 93, s0, a, seq![91u8]);
    lemma_ws_run_is_skipped(91, 93, s0, a);
    let s1 = scan_seq(91, 93, s0, a + seq![91u8]);
    assert(scan_seq(91, 93, s0, seq![91u8]) == scan_step(91, 93, s0, 91)) by {
        assert(seq![91u8].len() == 1);
        assert(seq![91u8].first() == 91u8);
        assert(seq![91u8].drop_first() =~= Seq::<u8>::empty());
        assert(scan_seq(91, 93, scan_step(91, 93, s0, 91), Seq::<u8>::empty()) == scan_step(
            91,
            93,
            s0,
            91,
        ));
    }
    assert(s1 == scan_step(91, 93, s0, 91));
    lemma_ws_run_is_skipped(91, 93, s1, b);
    let s2 = scan_seq(91, 93, s0, a + seq![91u8] + b);
    assert(s2 == s1);
    let s3 = scan_seq(91, 93, s0, a + seq![91u8] + b + seq![93u8]);
    assert(s3 == scan_step(91, 93, s2, 93)) by {
        assert(seq![93u8].len() == 1);
        assert(seq![93u8].first() == 93u8);
        assert(seq![93u8].drop_first() =~= Seq::<u8>::empty());
        assert(scan_seq(91, 93, scan_step(91, 93, s2, 93), Seq::<u8>::empty()) == scan_step(
            91,
            93,
            s2,
            93,
        ));
        assert(scan_seq(91, 93, s2, seq![93u8]) == scan_step(91, 93, s2, 93));
    }
    lemma_ws_run_is_skipped(91, 93, s3, c);
    assert(scan_seq(91, 93, s0, input) == s3);
    assert(s3.phase is Done);
    assert(s3.out =~= Seq::<Seq<u8>>::empty());
}

} // verus!
