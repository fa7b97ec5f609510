//! The walker for Rust-like source: comments and string literals are
//! prose, doc comments are walked as Markdown behind their line prefixes,
//! everything else is structure.

pub mod doc_comments;
pub mod tree;

use crate::engine::{push_spaced, spaced};
use crate::error::ParseError;
use crate::lex::{
    after_run, at, closing_quote, end_of_line, find_char, find_closing_quote,
    find_line_comment_end, line_comment_end, line_end, next_char, prose, skip_class, Class,
};
use crate::rust::doc_comments::{spaced_block, string_views, CommentStyle, DocCommentBlock};
use crate::text::{to_chars, to_text};
use crate::walker::{lemma_ordered_push, ordered, patch, patched, slice, views, Kind, Span};
use vstd::prelude::*;

verus! {

/// Whether a doc comment line starts at index `i`: `//!` for an inner
/// one, `///` not followed by a fourth slash for an outer one.
pub open spec fn doc_line_at(s: Seq<char>, i: int, inner: bool) -> bool {
    at(s, i, '/') && at(s, i + 1, '/') && if inner {
        at(s, i + 2, '!')
    } else {
        at(s, i + 2, '/') && !at(s, i + 3, '/')
    }
}

/// The end of the run of lines that begins with the line at index `i`
/// and goes on as long as the next line starts, at its first character,
/// a doc comment line of the same kind. The line feed of the last line
/// belongs to the run.
pub open spec fn doc_run_end(s: Seq<char>, i: int, inner: bool) -> int
    decreases s.len() - i,
{
    let e = line_end(s, i);
    if i < 0 || !(i <= e < s.len()) {
        s.len() as int
    } else if doc_line_at(s, e + 1, inner) {
        doc_run_end(s, e + 1, inner)
    } else {
        e + 1
    }
}

/// The end of the block of doc comment lines that starts at index `i`.
pub open spec fn doc_block_end(s: Seq<char>, i: int, inner: bool) -> Option<int> {
    let e = doc_run_end(s, i, inner);
    if doc_line_at(s, i, inner) && i < e <= s.len() {
        Some(e)
    } else {
        None
    }
}

/// The index of the `*/` that closes a block comment, looked for from
/// `j` on with `depth` comments open inside it.
pub open spec fn nested_close(s: Seq<char>, j: int, depth: nat) -> Option<int>
    decreases s.len() - j + 1,
{
    if j < 0 || j >= s.len() {
        None
    } else if s[j] == '/' && at(s, j + 1, '*') {
        nested_close(s, j + 2, depth + 1)
    } else if s[j] == '*' && at(s, j + 1, '/') {
        if depth == 0 {
            Some(j)
        } else {
            nested_close(s, j + 2, (depth - 1) as nat)
        }
    } else {
        nested_close(s, j + 1, depth)
    }
}

/// The index of the `*/` that closes the block comment that `/*` opens
/// at index `i`. Block comments nest.
pub open spec fn block_close(s: Seq<char>, i: int) -> Option<int> {
    let close = nested_close(s, i + 2, 0);
    if at(s, i, '/') && at(s, i + 1, '*') && close is Some && i + 2 <= close->0 && close->0 + 2
        <= s.len() {
        close
    } else {
        None
    }
}

/// The index after the first `"` from `j` on that at least `n` hashes
/// follow, and after those `n` hashes.
pub open spec fn raw_close(s: Seq<char>, j: int, n: int) -> Option<int>
    decreases s.len() - j,
{
    if j < 0 || j >= s.len() {
        None
    } else if s[j] == '"' && after_run(s, j + 1, Class::Hash) - (j + 1) >= n {
        Some(j + 1 + n)
    } else {
        raw_close(s, j + 1, n)
    }
}

/// The index after the raw string that `r` opens at index `i`: `r`, any
/// number of hashes, a quote, and everything up to the next quote that
/// as many hashes follow.
pub open spec fn raw_string_end(s: Seq<char>, i: int) -> Option<int> {
    let quote = after_run(s, i + 1, Class::Hash);
    let end = raw_close(s, quote + 1, quote - (i + 1));
    if at(s, i, 'r') && at(s, quote, '"') && end is Some && quote < end->0 <= s.len() {
        end
    } else {
        None
    }
}

/// The index of the quote that closes the string that `"` opens at index
/// `i`. A backslash takes the character after it along.
pub open spec fn string_close(s: Seq<char>, i: int) -> Option<int> {
    let close = closing_quote(s, i + 1, '"', true);
    if at(s, i, '"') && close is Some && i < close->0 < s.len() {
        close
    } else {
        None
    }
}

/// The index after the character literal that `'` opens at index `i`:
/// one character between two quotes, or a backslash and up to ten
/// characters between them.
pub open spec fn char_end(s: Seq<char>, i: int) -> Option<int> {
    let close = next_char(s, i + 3, '\'');
    if at(s, i, '\'') && at(s, i + 1, '\\') && close is Some && close->0 <= i + 12 {
        Some(close->0 + 1)
    } else if at(s, i, '\'') && !at(s, i + 1, '\\') && !at(s, i + 1, '\'') && at(s, i + 2, '\'') {
        Some(i + 3)
    } else {
        None
    }
}

/// Whether the span is the inside of a block doc comment, whose
/// delimiters `/**` or `/*!` and `*/` stand outside the span.
pub open spec fn is_block_doc(span: Span) -> bool {
    span.kind == Kind::BlockOuterDoc || span.kind == Kind::BlockInnerDoc
}

/// Where the token of the span starts.
pub open spec fn token_start(span: Span) -> int {
    if is_block_doc(span) {
        span.start - 3
    } else {
        span.start as int
    }
}

/// Where the token of the span ends.
pub open spec fn token_end(span: Span) -> int {
    if is_block_doc(span) {
        span.end + 2
    } else {
        span.end as int
    }
}

/// Whether the tokens of the spans lie inside a document of `len`
/// characters, each around its span, in document order and without
/// overlap.
pub open spec fn tokens_ordered(spans: Seq<Span>, len: int) -> bool {
    &&& forall|k: int|
        0 <= k < spans.len() ==> 0 <= token_start(#[trigger] spans[k]) <= spans[k].start
            <= spans[k].end <= token_end(spans[k]) <= len
    &&& forall|k: int|
        0 <= k && k + 1 < spans.len() ==> token_end(spans[k]) <= token_start(
            #[trigger] spans[k + 1],
        )
}

/// The span of the block comment that stands from index `i` to the `*/`
/// at `close`: the inside of a `/** */` or `/*! */` doc comment, or the
/// whole of another comment as prose.
pub open spec fn block_span(s: Seq<char>, i: int, close: int) -> Span {
    if at(s, i + 2, '*') && !at(s, i + 3, '*') && !at(s, i + 3, '/') && i + 3 <= close {
        Span { kind: Kind::BlockOuterDoc, start: (i + 3) as usize, end: close as usize }
    } else if at(s, i + 2, '!') && i + 3 <= close {
        Span { kind: Kind::BlockInnerDoc, start: (i + 3) as usize, end: close as usize }
    } else {
        prose(i, close + 2)
    }
}

/// The spans of the source `s` from index `i` on, after those in `acc`.
///
/// A run of `///` lines and a run of `//!` lines are doc comments. Any
/// other `//` comment is prose up to the end of its line. A block
/// comment is a doc comment or prose. A string literal, raw or not, is
/// prose, delimiters included. A character literal and any other
/// character are structure.
pub open spec fn spans_from(s: Seq<char>, i: int, acc: Seq<Span>) -> Seq<Span>
    decreases s.len() - i,
{
    if i < 0 || i >= s.len() {
        acc
    } else {
        let outer = doc_block_end(s, i, false);
        let inner = doc_block_end(s, i, true);
        let line = line_comment_end(s, i);
        let block = block_close(s, i);
        let raw = raw_string_end(s, i);
        let quoted = string_close(s, i);
        let literal = char_end(s, i);
        if outer is Some {
            spans_from(
                s,
                outer->0,
                acc.push(
                    Span { kind: Kind::LineOuterDoc, start: i as usize, end: outer->0 as usize },
                ),
            )
        } else if inner is Some {
            spans_from(
                s,
                inner->0,
                acc.push(
                    Span { kind: Kind::LineInnerDoc, start: i as usize, end: inner->0 as usize },
                ),
            )
        } else if line is Some {
            spans_from(s, line->0, acc.push(prose(i, line->0)))
        } else if block is Some {
            spans_from(s, block->0 + 2, acc.push(block_span(s, i, block->0)))
        } else if raw is Some {
            spans_from(s, raw->0, acc.push(prose(i, raw->0)))
        } else if quoted is Some {
            spans_from(s, quoted->0 + 1, acc.push(prose(i, quoted->0 + 1)))
        } else if literal is Some {
            spans_from(s, literal->0, acc)
        } else {
            spans_from(s, i + 1, acc)
        }
    }
}

/// The spans lie inside the source, in order and without overlap.
pub proof fn lemma_spans_ordered(s: Seq<char>, i: int, acc: Seq<Span>)
    requires
        0 <= i <= s.len() <= usize::MAX,
        ordered(acc, 0, i),
    ensures
        ordered(spans_from(s, i, acc), 0, s.len() as int),
    decreases s.len() - i,
{
    if i < s.len() {
        let outer = doc_block_end(s, i, false);
        let inner = doc_block_end(s, i, true);
        let line = line_comment_end(s, i);
        let block = block_close(s, i);
        let raw = raw_string_end(s, i);
        let quoted = string_close(s, i);
        let literal = char_end(s, i);
        if outer is Some {
            let span = Span { kind: Kind::LineOuterDoc, start: i as usize, end: outer->0 as usize };
            lemma_ordered_push(acc, span, 0, i, outer->0);
            lemma_spans_ordered(s, outer->0, acc.push(span));
        } else if inner is Some {
            let span = Span { kind: Kind::LineInnerDoc, start: i as usize, end: inner->0 as usize };
            lemma_ordered_push(acc, span, 0, i, inner->0);
            lemma_spans_ordered(s, inner->0, acc.push(span));
        } else if line is Some {
            lemma_ordered_push(acc, prose(i, line->0), 0, i, line->0);
            lemma_spans_ordered(s, line->0, acc.push(prose(i, line->0)));
        } else if block is Some {
            lemma_ordered_push(acc, block_span(s, i, block->0), 0, i, block->0 + 2);
            lemma_spans_ordered(s, block->0 + 2, acc.push(block_span(s, i, block->0)));
        } else if raw is Some {
            lemma_ordered_push(acc, prose(i, raw->0), 0, i, raw->0);
            lemma_spans_ordered(s, raw->0, acc.push(prose(i, raw->0)));
        } else if quoted is Some {
            lemma_ordered_push(acc, prose(i, quoted->0 + 1), 0, i, quoted->0 + 1);
            lemma_spans_ordered(s, quoted->0 + 1, acc.push(prose(i, quoted->0 + 1)));
        } else if literal is Some {
            assert(ordered(acc, 0, literal->0));
            lemma_spans_ordered(s, literal->0, acc);
        } else {
            assert(ordered(acc, 0, i + 1));
            lemma_spans_ordered(s, i + 1, acc);
        }
    }
}

/// The spans of the source `s`.
pub open spec fn spans(s: Seq<char>) -> Seq<Span> {
    spans_from(s, 0, Seq::empty())
}

/// The pieces of `t` from index `i` on, after those in `acc`: each piece
/// ends with a line feed, except the last. Where `keep_last` holds and a
/// line feed ends `t`, or `t` is empty, an empty piece comes last.
pub open spec fn cut(t: Seq<char>, i: int, keep_last: bool, acc: Seq<Seq<char>>) -> Seq<Seq<char>>
    decreases t.len() - i,
{
    if i < 0 || i >= t.len() {
        if keep_last {
            acc.push(Seq::empty())
        } else {
            acc
        }
    } else {
        let e = line_end(t, i);
        if i <= e < t.len() {
            cut(t, e + 1, keep_last, acc.push(t.subrange(i, e + 1)))
        } else {
            acc.push(t.subrange(i, t.len() as int))
        }
    }
}

/// What replaces the span: a doc comment with its prose spaced behind
/// the line prefixes, or the spaced prose.
pub open spec fn rewritten(s: Seq<char>, span: Span) -> Seq<char> {
    let body = s.subrange(span.start as int, span.end as int);
    match span.kind {
        Kind::LineOuterDoc => spaced_block(
            CommentStyle::LineOuter,
            cut(body, 0, false, Seq::empty()),
        ),
        Kind::LineInnerDoc => spaced_block(
            CommentStyle::LineInner,
            cut(body, 0, false, Seq::empty()),
        ),
        Kind::BlockOuterDoc => spaced_block(
            CommentStyle::BlockOuter,
            cut(body, 0, true, Seq::empty()),
        ),
        Kind::BlockInnerDoc => spaced_block(
            CommentStyle::BlockInner,
            cut(body, 0, true, Seq::empty()),
        ),
        _ => spaced(body),
    }
}

/// What replaces each span.
pub open spec fn texts(s: Seq<char>, spans: Seq<Span>) -> Seq<Seq<char>> {
    Seq::new(spans.len(), |k: int| rewritten(s, spans[k]))
}

/// The source `s` with its spans rewritten.
pub open spec fn output(s: Seq<char>) -> Seq<char> {
    patched(s, spans(s), texts(s, spans(s)), 0, 0)
}

fn is_doc_line(s: &Vec<char>, i: usize, inner: bool) -> (b: bool)
    ensures
        b == doc_line_at(s@, i as int, inner),
{
    if !(i < s.len() && s[i] == '/' && s.len() - i > 2 && s[i + 1] == '/') {
        return false;
    }
    if inner {
        s[i + 2] == '!'
    } else {
        s[i + 2] == '/' && !(s.len() - i > 3 && s[i + 3] == '/')
    }
}

/// Finds the end of the block of doc comment lines that starts at index
/// `i`.
pub fn scan_doc_block(s: &Vec<char>, i: usize, inner: bool) -> (r: Option<usize>)
    ensures
        match r {
            Some(e) => doc_block_end(s@, i as int, inner) == Some(e as int) && i < e <= s.len(),
            None => doc_block_end(s@, i as int, inner) is None,
        },
{
    if !is_doc_line(s, i, inner) {
        return None;
    }
    let mut k: usize = i;
    loop
        invariant
            i <= k < s.len(),
            doc_line_at(s@, i as int, inner),
            doc_run_end(s@, i as int, inner) == doc_run_end(s@, k as int, inner),
        decreases s.len() - k,
    {
        let e = end_of_line(s, k);
        if e >= s.len() {
            return Some(s.len());
        }
        if is_doc_line(s, e + 1, inner) {
            k = e + 1;
        } else {
            return Some(e + 1);
        }
    }
}

/// Finds the `*/` that closes the block comment that opens at index `i`.
pub fn scan_block_close(s: &Vec<char>, i: usize) -> (r: Option<usize>)
    ensures
        match r {
            Some(c) => block_close(s@, i as int) == Some(c as int) && i + 2 <= c && c + 2
                <= s.len(),
            None => block_close(s@, i as int) is None,
        },
{
    if !(i < s.len() && s[i] == '/' && s.len() - i > 1 && s[i + 1] == '*') {
        return None;
    }
    let mut j: usize = i + 2;
    let mut depth: usize = 0;
    while j < s.len()
        invariant
            i + 2 <= j,
            i + 1 < s.len(),
            s@[i as int] == '/',
            s@[i + 1] == '*',
            depth <= j - i,
            nested_close(s@, i + 2, 0) == nested_close(s@, j as int, depth as nat),
        decreases s.len() - j,
    {
        let c = s[j];
        let d = if s.len() - j > 1 {
            s[j + 1]
        } else {
            ' '
        };
        if c == '/' && d == '*' {
            depth += 1;
            j += 2;
        } else if c == '*' && d == '/' {
            if depth == 0 {
                return Some(j);
            }
            depth -= 1;
            j += 2;
        } else {
            j += 1;
        }
    }
    None
}

/// Finds the end of the raw string that opens at index `i`.
pub fn scan_raw_string(s: &Vec<char>, i: usize) -> (r: Option<usize>)
    ensures
        match r {
            Some(e) => raw_string_end(s@, i as int) == Some(e as int) && i < e <= s.len(),
            None => raw_string_end(s@, i as int) is None,
        },
{
    if !(i < s.len() && s[i] == 'r') {
        return None;
    }
    let quote = skip_class(s, i + 1, Class::Hash);
    if !(quote < s.len() && s[quote] == '"') {
        return None;
    }
    let n = quote - (i + 1);
    let mut j: usize = quote + 1;
    while j < s.len()
        invariant
            i < quote < j,
            quote < s.len(),
            n == quote - (i + 1),
            s@[i as int] == 'r',
            s@[quote as int] == '"',
            quote == after_run(s@, i + 1, Class::Hash),
            raw_close(s@, quote + 1, n as int) == raw_close(s@, j as int, n as int),
        decreases s.len() - j,
    {
        if s[j] == '"' {
            let hashes = skip_class(s, j + 1, Class::Hash);
            if hashes - (j + 1) >= n {
                return Some(j + 1 + n);
            }
        }
        j += 1;
    }
    None
}

/// Finds the quote that closes the string that opens at index `i`.
pub fn scan_string(s: &Vec<char>, i: usize) -> (r: Option<usize>)
    ensures
        match r {
            Some(c) => string_close(s@, i as int) == Some(c as int) && i < c < s.len(),
            None => string_close(s@, i as int) is None,
        },
{
    if i < s.len() && s[i] == '"' {
        find_closing_quote(s, i + 1, '"', true)
    } else {
        None
    }
}

/// Finds the end of the character literal that opens at index `i`.
pub fn scan_char(s: &Vec<char>, i: usize) -> (r: Option<usize>)
    ensures
        match r {
            Some(e) => char_end(s@, i as int) == Some(e as int) && i < e <= s.len(),
            None => char_end(s@, i as int) is None,
        },
{
    if !(i < s.len() && s[i] == '\'' && s.len() - i > 2) {
        return None;
    }
    if s[i + 1] == '\\' {
        match find_char(s, i + 3, '\'') {
            Some(close) => if close - i <= 12 {
                Some(close + 1)
            } else {
                None
            },
            None => None,
        }
    } else if s[i + 1] != '\'' && s[i + 2] == '\'' {
        Some(i + 3)
    } else {
        None
    }
}

fn block_span_of(s: &Vec<char>, i: usize, close: usize) -> (span: Span)
    requires
        i + 2 <= close,
        close + 2 <= s.len(),
    ensures
        span == block_span(s@, i as int, close as int),
        i <= span.start <= span.end <= close + 2,
        token_start(span) == i,
        token_end(span) == close + 2,
{
    if s[i + 2] == '*' && !(s[i + 3] == '*') && !(s[i + 3] == '/') && i + 3 <= close {
        Span { kind: Kind::BlockOuterDoc, start: i + 3, end: close }
    } else if s[i + 2] == '!' && i + 3 <= close {
        Span { kind: Kind::BlockInnerDoc, start: i + 3, end: close }
    } else {
        Span { kind: Kind::Prose, start: i, end: close + 2 }
    }
}

/// Finds the spans of a source text.
pub fn scan(s: &Vec<char>) -> (found: Vec<Span>)
    ensures
        found@ == spans(s@),
        ordered(found@, 0, s@.len() as int),
        tokens_ordered(found@, s@.len() as int),
{
    let mut found: Vec<Span> = Vec::new();
    let mut i: usize = 0;
    while i < s.len()
        invariant
            i <= s.len(),
            spans(s@) == spans_from(s@, i as int, found@),
            ordered(found@, 0, i as int),
            tokens_ordered(found@, i as int),
        decreases s.len() - i,
    {
        if let Some(e) = scan_doc_block(s, i, false) {
            found.push(Span { kind: Kind::LineOuterDoc, start: i, end: e });
            i = e;
        } else if let Some(e) = scan_doc_block(s, i, true) {
            found.push(Span { kind: Kind::LineInnerDoc, start: i, end: e });
            i = e;
        } else if let Some(e) = find_line_comment_end(s, i) {
            found.push(Span { kind: Kind::Prose, start: i, end: e });
            i = e;
        } else if let Some(close) = scan_block_close(s, i) {
            found.push(block_span_of(s, i, close));
            i = close + 2;
        } else if let Some(e) = scan_raw_string(s, i) {
            found.push(Span { kind: Kind::Prose, start: i, end: e });
            i = e;
        } else if let Some(close) = scan_string(s, i) {
            found.push(Span { kind: Kind::Prose, start: i, end: close + 1 });
            i = close + 1;
        } else if let Some(e) = scan_char(s, i) {
            i = e;
        } else {
            i += 1;
        }
    }
    found
}

/// Cuts `t` into pieces that each end with a line feed, except the last.
pub fn cut_lines(t: &Vec<char>, keep_last: bool) -> (out: Vec<String>)
    ensures
        string_views(out@) == cut(t@, 0, keep_last, Seq::empty()),
{
    let mut out: Vec<String> = Vec::new();
    let mut i: usize = 0;
    assert(string_views(out@) =~= Seq::<Seq<char>>::empty());
    while i < t.len()
        invariant
            i <= t.len(),
            cut(t@, 0, keep_last, Seq::empty()) == cut(t@, i as int, keep_last, string_views(out@)),
        decreases t.len() - i,
    {
        let ghost before = string_views(out@);
        let e = end_of_line(t, i);
        if e < t.len() {
            out.push(to_text(&slice(t, i, e + 1)));
            assert(string_views(out@) =~= before.push(t@.subrange(i as int, e + 1)));
            i = e + 1;
        } else {
            out.push(to_text(&slice(t, i, t.len())));
            assert(string_views(out@) =~= before.push(t@.subrange(i as int, t@.len() as int)));
            return out;
        }
    }
    if keep_last {
        let ghost before = string_views(out@);
        out.push(String::new());
        assert(string_views(out@) =~= before.push(Seq::<char>::empty()));
    }
    out
}

/// Rewrites one span of the source.
pub(crate) fn rewrite_span(s: &Vec<char>, span: Span) -> (text: Vec<char>)
    requires
        span.start <= span.end <= s.len(),
    ensures
        text@ == rewritten(s@, span),
{
    let style = match span.kind {
        Kind::LineOuterDoc => Some(CommentStyle::LineOuter),
        Kind::LineInnerDoc => Some(CommentStyle::LineInner),
        Kind::BlockOuterDoc => Some(CommentStyle::BlockOuter),
        Kind::BlockInnerDoc => Some(CommentStyle::BlockInner),
        _ => None,
    };
    match style {
        Some(style) => {
            let body = slice(s, span.start, span.end);
            let keep_last = match style {
                CommentStyle::BlockOuter => true,
                CommentStyle::BlockInner => true,
                _ => false,
            };
            let block = DocCommentBlock::new(style, cut_lines(&body, keep_last));
            to_chars(block.spacing().as_str())
        },
        None => {
            let mut text: Vec<char> = Vec::new();
            push_spaced(&mut text, s, span.start, span.end);
            assert(text@ =~= spaced(s@.subrange(span.start as int, span.end as int)));
            text
        },
    }
}

/// The source `s` with its spans rewritten, as characters.
pub fn rewrite(s: &Vec<char>) -> (out: Vec<char>)
    ensures
        out@ == output(s@),
{
    let found = scan(s);
    let mut rewritten: Vec<Vec<char>> = Vec::new();
    let mut k: usize = 0;
    while k < found.len()
        invariant
            k <= found.len(),
            rewritten.len() == k,
            ordered(found@, 0, s@.len() as int),
            forall|j: int| 0 <= j < k ==> (#[trigger] rewritten@[j])@ == texts(s@, found@)[j],
        decreases found.len() - k,
    {
        let text = rewrite_span(s, found[k]);
        rewritten.push(text);
        k += 1;
    }
    assert(views(rewritten@) =~= texts(s@, found@));
    patch(s, &found, &rewritten)
}

/// Spaces the comments and string literals of a source text, and the
/// prose of its doc comments. Every text is a source text to this
/// walker, so it never fails.
pub fn process(input: &str) -> (r: Result<String, ParseError>)
    ensures
        r matches Ok(out) && out@ == output(input@),
{
    let s = to_chars(input);
    let out = rewrite(&s);
    Ok(to_text(&out))
}

} // verus!
