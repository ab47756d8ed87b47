//! The streaming decoder's pure core: line splitting, the `data: ` line
//! filter, per-frame decoding with per-frame error isolation, and the
//! success/error status disambiguation.
//!
//! The transport reads bytes and hands lines (or the whole error body) in
//! as plain values; everything decided about them is decided here.

use vstd::prelude::*;

verus! {

use crate::event::{ResponseEvent, ResponseEventV, FrameError, sp_decode_event, decode_event};
use crate::json::{spec_parse_json, parse_json};
use crate::strutil::{spec_starts_with, str_starts_with, to_char_vec, chars_to_string};

/// A whole-call failure: these resolve the call itself instead of ever
/// producing an event sequence.
#[derive(Debug, Clone, PartialEq, Eq)]
pub enum ApiError {
    /// The connection, send or read failed before or during the exchange.
    Transport { message: String },
    /// The outbound request body could not be built.
    Serialization { message: String },
    /// A non-success status whose body did not decode as an event frame:
    /// the expected shape of a real error reply.
    HttpStatus { status: u16, body: String },
    /// A non-success status whose body nevertheless decodes as a
    /// well-formed event frame: a protocol mismatch worth flagging.
    AnomalousResponse { body: String },
}

/// The mathematical value of an [`ApiError`].
pub enum ApiErrorV {
    Transport { message: Seq<char> },
    Serialization { message: Seq<char> },
    HttpStatus { status: u16, body: Seq<char> },
    AnomalousResponse { body: Seq<char> },
}

impl DeepView for ApiError {
    type V = ApiErrorV;

    open spec fn deep_view(&self) -> ApiErrorV {
        match self {
            ApiError::Transport { message } => ApiErrorV::Transport { message: message@ },
            ApiError::Serialization { message } => ApiErrorV::Serialization { message: message@ },
            ApiError::HttpStatus { status, body } => ApiErrorV::HttpStatus {
                status: *status,
                body: body@,
            },
            ApiError::AnomalousResponse { body } => ApiErrorV::AnomalousResponse { body: body@ },
        }
    }
}

/// Does the transport consider this status a success?
pub fn is_success_status(status: u16) -> (r: bool)
    ensures
        r == (200 <= status < 300),
{
    200 <= status && status < 300
}

/// One frame's decoding: the JSON text of a significant line either
/// parses and decodes to an event, or yields the per-frame error saying
/// why not.
pub open spec fn sp_decode_frame(s: Seq<char>) -> Result<ResponseEventV, FrameError> {
    match spec_parse_json(s) {
        None => Err(FrameError::Syntax),
        Some(j) => sp_decode_event(j),
    }
}

/// Decodes one frame, mirroring [`sp_decode_frame`].
pub fn decode_frame(s: &str) -> (r: Result<ResponseEvent, FrameError>)
    ensures
        match r {
            Ok(e) => sp_decode_frame(s@) == Ok::<_, FrameError>(e.deep_view()),
            Err(f) => sp_decode_frame(s@) == Err::<ResponseEventV, _>(f),
        },
{
    let v = to_char_vec(s);
    match parse_json(&v) {
        None => Err(FrameError::Syntax),
        Some(j) => decode_event(&j),
    }
}

/// A line is significant exactly when it begins with the `data: ` prefix.
pub open spec fn spec_significant(line: Seq<char>) -> bool {
    spec_starts_with(line, "data: "@)
}

/// The frame text of a significant line: everything after the prefix.
pub open spec fn sp_frame_text(line: Seq<char>) -> Seq<char> {
    line.subrange("data: "@.len() as int, line.len() as int)
}

/// What one line contributes to the event sequence: nothing at all if it
/// is not significant, otherwise exactly one element carrying the frame's
/// event or its per-frame error.
pub open spec fn sp_line_event(line: Seq<char>) -> Option<Result<ResponseEventV, FrameError>> {
    if spec_significant(line) {
        Some(sp_decode_frame(sp_frame_text(line)))
    } else {
        None
    }
}

/// The view of one produced sequence element.
pub open spec fn sp_result_view(r: Result<ResponseEvent, FrameError>) -> Result<
    ResponseEventV,
    FrameError,
> {
    match r {
        Ok(e) => Ok(e.deep_view()),
        Err(f) => Err(f),
    }
}

/// The element-wise view of the produced sequence.
pub open spec fn sp_results_view(rs: Seq<Result<ResponseEvent, FrameError>>) -> Seq<
    Result<ResponseEventV, FrameError>,
> {
    Seq::new(rs.len(), |k: int| sp_result_view(rs[k]))
}

/// Decodes one line, mirroring [`sp_line_event`]: insignificant lines are
/// skipped outright, never yielded as an event or an error.
pub fn line_event(line: &str) -> (r: Option<Result<ResponseEvent, FrameError>>)
    ensures
        r is None <==> !spec_significant(line@),
        match r {
            Some(res) => sp_line_event(line@) == Some(sp_result_view(res)),
            None => sp_line_event(line@) is None,
        },
{
    proof {
        reveal_strlit("data: ");
    }
    if str_starts_with(line, "data: ") {
        let n = line.unicode_len();
        let frame = line.substring_char(6, n);
        assert(frame@ == sp_frame_text(line@));
        Some(decode_frame(frame))
    } else {
        None
    }
}

/// The event sequence an entire run of lines decodes to: each significant
/// line contributes exactly one element, in line order; every other line
/// contributes nothing.
pub open spec fn sp_decode_lines(lines: Seq<Seq<char>>) -> Seq<Result<ResponseEventV, FrameError>>
    decreases lines.len(),
{
    if lines.len() == 0 {
        Seq::empty()
    } else {
        sp_decode_lines(lines.drop_last()) + (match sp_line_event(lines.last()) {
            Some(r) => seq![r],
            None => Seq::empty(),
        })
    }
}

/// Decodes a run of lines, mirroring [`sp_decode_lines`].
pub fn decode_lines(lines: &Vec<String>) -> (r: Vec<Result<ResponseEvent, FrameError>>)
    ensures
        sp_results_view(r@) == sp_decode_lines(lines.deep_view()),
{
    let ghost dv = lines.deep_view();
    let mut out: Vec<Result<ResponseEvent, FrameError>> = Vec::new();
    proof {
        assert(dv.subrange(0, 0) =~= Seq::<Seq<char>>::empty());
        assert(sp_results_view(out@) =~= sp_decode_lines(dv.subrange(0, 0)));
    }
    let mut i: usize = 0;
    while i < lines.len()
        invariant
            i <= lines@.len(),
            dv == lines.deep_view(),
            dv.len() == lines@.len(),
            sp_results_view(out@) == sp_decode_lines(dv.subrange(0, i as int)),
        decreases lines@.len() - i,
    {
        proof {
            assert(dv.subrange(0, i + 1 as int).drop_last() =~= dv.subrange(0, i as int));
            assert(dv.subrange(0, i + 1 as int).last() == dv[i as int]);
            assert(dv[i as int] == lines@[i as int]@);
        }
        let ghost out_old = sp_results_view(out@);
        match line_event(lines[i].as_str()) {
            Some(res) => {
                out.push(res);
                proof {
                    assert(sp_results_view(out@) =~= out_old + seq![sp_result_view(res)]);
                }
            },
            None => {
                proof {
                    assert(sp_results_view(out@) =~= out_old + Seq::empty());
                }
            },
        }
        i += 1;
    }
    proof {
        assert(dv.subrange(0, dv.len() as int) =~= dv);
    }
    out
}

/// Resolution of a non-success response: a body that nevertheless decodes
/// as a well-formed event frame is an anomaly of its own kind; any other
/// body is reported with the status attached, if and only if so.
pub open spec fn sp_resolve_error(status: u16, body: Seq<char>) -> ApiErrorV {
    if sp_decode_frame(body) is Ok {
        ApiErrorV::AnomalousResponse { body }
    } else {
        ApiErrorV::HttpStatus { status, body }
    }
}

/// Resolves a non-success response to its whole-call error, mirroring
/// [`sp_resolve_error`]: the raw body text is always retained.
pub fn resolve_error(status: u16, body: &str) -> (e: ApiError)
    ensures
        e.deep_view() == sp_resolve_error(status, body@),
{
    match decode_frame(body) {
        Ok(_) => ApiError::AnomalousResponse { body: body.to_owned() },
        Err(_) => ApiError::HttpStatus { status, body: body.to_owned() },
    }
}

/// A line that does not carry the `data: ` prefix can be inserted
/// anywhere — or dropped from anywhere — without changing the decoded
/// event sequence: such lines are never yielded as an event or an error.
pub proof fn lemma_insignificant_line_skipped(lines: Seq<Seq<char>>, k: int, line: Seq<char>)
    requires
        0 <= k <= lines.len(),
        !spec_significant(line),
    ensures
        sp_decode_lines(lines.insert(k, line)) == sp_decode_lines(lines),
    decreases lines.len(),
{
    let bigger = lines.insert(k, line);
    if k == lines.len() {
        assert(bigger.drop_last() =~= lines);
        assert(bigger.last() == line);
        assert(sp_decode_lines(bigger) =~= sp_decode_lines(lines));
    } else {
        assert(bigger.drop_last() =~= lines.drop_last().insert(k, line));
        assert(bigger.last() == lines.last());
        lemma_insignificant_line_skipped(lines.drop_last(), k, line);
    }
}

/// Decoding distributes over concatenation of line runs: what comes of
/// the later lines is decoded the same whatever stood before them, so one
/// bad frame never ends the sequence, and events keep line order.
pub proof fn lemma_decode_lines_append(l1: Seq<Seq<char>>, l2: Seq<Seq<char>>)
    ensures
        sp_decode_lines(l1 + l2) == sp_decode_lines(l1) + sp_decode_lines(l2),
    decreases l2.len(),
{
    if l2.len() == 0 {
        assert(l1 + l2 =~= l1);
        assert(sp_decode_lines(l1) + sp_decode_lines(l2) =~= sp_decode_lines(l1));
    } else {
        assert((l1 + l2).drop_last() =~= l1 + l2.drop_last());
        assert((l1 + l2).last() == l2.last());
        lemma_decode_lines_append(l1, l2.drop_last());
        assert(sp_decode_lines(l1) + sp_decode_lines(l2) =~= (sp_decode_lines(l1)
            + sp_decode_lines(l2.drop_last())) + (match sp_line_event(l2.last()) {
            Some(r) => seq![r],
            None => Seq::empty(),
        }));
    }
}

/// The first newline at or after `i`, or the end of the input.
pub open spec fn sp_find_nl(s: Seq<char>, i: int) -> int
    decreases s.len() - i,
{
    if 0 <= i < s.len() {
        if s[i] == '\n' {
            i
        } else {
            sp_find_nl(s, i + 1)
        }
    } else {
        i
    }
}

pub proof fn lemma_find_nl_bounds(s: Seq<char>, i: int)
    requires
        0 <= i <= s.len(),
    ensures
        i <= sp_find_nl(s, i) <= s.len(),
    decreases s.len() - i,
{
    if i < s.len() && s[i] != '\n' {
        lemma_find_nl_bounds(s, i + 1);
    }
}

/// Strips one carriage return from the end of a line that ended in a
/// newline pair.
pub open spec fn sp_strip_cr(line: Seq<char>) -> Seq<char> {
    if line.len() > 0 && line.last() == '\r' {
        line.drop_last()
    } else {
        line
    }
}

/// The lines of the text from `i` on: split at each newline, with a
/// carriage return before a newline stripped; a final segment without a
/// newline is kept as it stands, and nothing comes after the last
/// newline-terminated line.
pub open spec fn sp_split_from(s: Seq<char>, i: int) -> Seq<Seq<char>>
    decreases s.len() - i,
    via sp_split_from_dec
{
    if !(0 <= i < s.len()) {
        Seq::empty()
    } else {
        let k = sp_find_nl(s, i);
        if k >= s.len() {
            seq![s.subrange(i, s.len() as int)]
        } else {
            seq![sp_strip_cr(s.subrange(i, k))] + sp_split_from(s, k + 1)
        }
    }
}

#[via_fn]
proof fn sp_split_from_dec(s: Seq<char>, i: int) {
    if 0 <= i < s.len() {
        lemma_find_nl_bounds(s, i);
    }
}

/// The lines of a whole body text.
pub open spec fn spec_split_lines(s: Seq<char>) -> Seq<Seq<char>> {
    sp_split_from(s, 0)
}

/// Finds the next newline, mirroring [`sp_find_nl`].
fn find_nl(v: &Vec<char>, i: usize) -> (r: usize)
    requires
        i <= v@.len(),
    ensures
        r == sp_find_nl(v@, i as int),
        i <= r <= v@.len(),
{
    let mut j = i;
    while j < v.len() && v[j] != '\n'
        invariant
            i <= j <= v@.len(),
            sp_find_nl(v@, i as int) == sp_find_nl(v@, j as int),
        decreases v@.len() - j,
    {
        j += 1;
    }
    j
}

/// Splits the text from `i` on, appending each line to `acc`, mirroring
/// [`sp_split_from`].
fn split_acc(v: &Vec<char>, i: usize, acc: Vec<String>) -> (r: Vec<String>)
    requires
        i <= v@.len(),
    ensures
        r.deep_view() == acc.deep_view() + sp_split_from(v@, i as int),
    decreases v@.len() - i,
{
    if i >= v.len() {
        proof {
            assert(acc.deep_view() + sp_split_from(v@, i as int) =~= acc.deep_view());
        }
        return acc;
    }
    let k = find_nl(v, i);
    let ghost acc_old = acc.deep_view();
    if k >= v.len() {
        let line = chars_to_string(&crate::json::subrange_chars(v, i, k));
        let mut acc2 = acc;
        acc2.push(line);
        proof {
            assert(acc2.deep_view() =~= acc_old + sp_split_from(v@, i as int));
        }
        acc2
    } else {
        let end = if k > i && v[k - 1] == '\r' {
            k - 1
        } else {
            k
        };
        let line = chars_to_string(&crate::json::subrange_chars(v, i, end));
        proof {
            if k > i && v@[k - 1] == '\r' {
                assert(v@.subrange(i as int, k as int).last() == v@[k - 1]);
                assert(v@.subrange(i as int, k as int).drop_last() =~= v@.subrange(
                    i as int,
                    k - 1,
                ));
            }
            assert(line@ == sp_strip_cr(v@.subrange(i as int, k as int)));
        }
        let mut acc2 = acc;
        acc2.push(line);
        proof {
            assert(acc2.deep_view() =~= acc_old + seq![line@]);
        }
        let r = split_acc(v, k + 1, acc2);
        proof {
            assert(r.deep_view() =~= acc_old + sp_split_from(v@, i as int));
        }
        r
    }
}

/// Splits a body text into the lines the stream reader would hand over:
/// one line per newline, carriage returns before newlines stripped, and a
/// final unterminated segment kept.
pub fn split_lines(text: &str) -> (r: Vec<String>)
    ensures
        r.deep_view() == spec_split_lines(text@),
{
    let v = to_char_vec(text);
    let start: Vec<String> = Vec::new();
    proof {
        assert(start.deep_view() =~= Seq::<Seq<char>>::empty());
    }
    let out = split_acc(&v, 0, start);
    proof {
        assert(out.deep_view() =~= spec_split_lines(text@));
    }
    out
}

/// Decodes a whole success body held in memory: split into lines, then
/// decode the significant ones. The streaming path in front of the
/// library does the same one line at a time through [`line_event`].
pub fn decode_body(text: &str) -> (r: Vec<Result<ResponseEvent, FrameError>>)
    ensures
        sp_results_view(r@) == sp_decode_lines(spec_split_lines(text@)),
{
    let lines = split_lines(text);
    decode_lines(&lines)
}

} // verus!
