//! The Markdown walker: text runs, link texts and image alt texts are
//! prose; code, link targets, emphasis marks and block quote marks are
//! structure.

use crate::error::ParseError;
use crate::lex::{after_indent, after_run, at, prose, skip_class, skip_indent_run, Class};
use crate::text::{to_chars, to_text};
use crate::walker::{lemma_ordered_push, ordered, respace, respaced, Kind, Span};
use vstd::prelude::*;

verus! {

/// The index after the first run of exactly `n` backticks that starts at
/// `k` or later.
pub open spec fn closing_ticks(s: Seq<char>, k: int, n: int) -> Option<int>
    decreases s.len() - k,
{
    if k < 0 || k >= s.len() {
        None
    } else if s[k] == '`' {
        let e = after_run(s, k, Class::Tick);
        if e - k == n {
            Some(e)
        } else if e > k {
            closing_ticks(s, e, n)
        } else {
            None
        }
    } else {
        closing_ticks(s, k + 1, n)
    }
}

/// The index after a code span that a run of backticks opens at index
/// `j`: the span runs through the next run of as many backticks.
pub open spec fn code_end(s: Seq<char>, j: int) -> Option<int> {
    let open = after_run(s, j, Class::Tick);
    let close = closing_ticks(s, open, open - j);
    if at(s, j, '`') && close is Some && open < close->0 <= s.len() {
        close
    } else {
        None
    }
}

/// The first index from `i` on whose character is `c` or a line feed, or
/// the length of `s`.
pub open spec fn skip_to(s: Seq<char>, i: int, c: char) -> int
    decreases s.len() - i,
{
    if i < 0 || i >= s.len() {
        s.len() as int
    } else if s[i] == c || s[i] == '\n' {
        i
    } else {
        skip_to(s, i + 1, c)
    }
}

/// `skip_to`, for an index `i` inside `s` or at its end.
pub open spec fn on_line(s: Seq<char>, i: int, c: char) -> int {
    let e = skip_to(s, i, c);
    if i <= e <= s.len() {
        e
    } else {
        i
    }
}

/// A link or an image that a `[` opens at index `j`: the index of the `]`
/// that ends its text and the index after the `)` that ends its target.
/// The `]` and the `)` stand on the line of the `[`, and the `(` directly
/// follows the `]`.
pub open spec fn link(s: Seq<char>, j: int) -> Option<(int, int)> {
    let close = on_line(s, j + 1, ']');
    let paren = on_line(s, close + 2, ')');
    if at(s, j, '[') && at(s, close, ']') && at(s, close + 1, '(') && at(s, paren, ')') {
        Some((close, paren + 1))
    } else {
        None
    }
}

/// Where the text of the line that starts at index `i` begins: after the
/// marks of a block quote, where the line has them, else at `i`.
pub open spec fn line_start(s: Seq<char>, i: int) -> int {
    if at(s, after_indent(s, i), '>') {
        after_run(s, i, Class::QuoteMark)
    } else {
        i
    }
}

/// The spans in `acc`, followed by the run from `from` to `to` where it
/// is not empty.
pub open spec fn with_run(acc: Seq<Span>, from: int, to: int) -> Seq<Span> {
    if from < to {
        acc.push(prose(from, to))
    } else {
        acc
    }
}

/// The prose spans of the document `s` from index `j` on, after those in
/// `acc`, where the text run being read began at `from`.
///
/// A run of backticks that no run of as many backticks follows is text.
/// A code span, an emphasis mark `*`, a line feed with the block quote
/// marks after it, and the brackets and target of a link or an image end
/// the run and are structure. The text of a link, and the alt text of
/// an image, is a run of its own.
pub open spec fn spans_from(s: Seq<char>, j: int, from: int, acc: Seq<Span>) -> Seq<Span>
    decreases s.len() - j,
{
    if j < 0 || j >= s.len() {
        with_run(acc, from, j)
    } else {
        let code = code_end(s, j);
        let target = link(s, j);
        if code is Some {
            spans_from(s, code->0, code->0, with_run(acc, from, j))
        } else if target is Some {
            spans_from(
                s,
                (target->0).1,
                (target->0).1,
                with_run(acc, from, j).push(prose(j + 1, (target->0).0)),
            )
        } else if s[j] == '`' && j < after_run(s, j, Class::Tick) {
            spans_from(s, after_run(s, j, Class::Tick), from, acc)
        } else if s[j] == '*' {
            spans_from(s, j + 1, j + 1, with_run(acc, from, j))
        } else if s[j] == '\n' {
            let start = line_start(s, j + 1);
            spans_from(s, start, start, with_run(acc, from, j))
        } else {
            spans_from(s, j + 1, from, acc)
        }
    }
}

/// The prose spans of the document `s`.
pub open spec fn prose_spans(s: Seq<char>) -> Seq<Span> {
    spans_from(s, line_start(s, 0), line_start(s, 0), Seq::empty())
}

/// The document `s` with its prose spaced.
pub open spec fn output(s: Seq<char>) -> Seq<char> {
    respaced(s, prose_spans(s))
}

/// Adding a run keeps spans in order.
pub proof fn lemma_with_run_ordered(acc: Seq<Span>, from: int, to: int)
    requires
        0 <= from <= to <= usize::MAX,
        ordered(acc, 0, from),
    ensures
        ordered(with_run(acc, from, to), 0, to),
{
    if from < to {
        lemma_ordered_push(acc, prose(from, to), 0, from, to);
    }
}

/// The prose spans lie inside the document, in order and without
/// overlap.
pub proof fn lemma_spans_ordered(s: Seq<char>, j: int, from: int, acc: Seq<Span>)
    requires
        0 <= from <= j <= s.len() <= usize::MAX,
        ordered(acc, 0, from),
    ensures
        ordered(spans_from(s, j, from, acc), 0, s.len() as int),
    decreases s.len() - j,
{
    lemma_with_run_ordered(acc, from, j);
    if j < s.len() {
        let code = code_end(s, j);
        let target = link(s, j);
        let run = with_run(acc, from, j);
        if code is Some {
            lemma_spans_ordered(s, code->0, code->0, run);
        } else if target is Some {
            let close = (target->0).0;
            let after = (target->0).1;
            lemma_ordered_push(run, prose(j + 1, close), 0, j, after);
            lemma_spans_ordered(s, after, after, run.push(prose(j + 1, close)));
        } else if s[j] == '`' && j < after_run(s, j, Class::Tick) {
            lemma_spans_ordered(s, after_run(s, j, Class::Tick), from, acc);
        } else if s[j] == '*' {
            lemma_spans_ordered(s, j + 1, j + 1, run);
        } else if s[j] == '\n' {
            let start = line_start(s, j + 1);
            lemma_spans_ordered(s, start, start, run);
        } else {
            lemma_spans_ordered(s, j + 1, from, acc);
        }
    }
}

/// Finds the end of the code span that opens at index `j`.
pub fn scan_code(s: &Vec<char>, j: usize) -> (r: Option<usize>)
    ensures
        match r {
            Some(e) => code_end(s@, j as int) == Some(e as int) && j < e <= s.len(),
            None => code_end(s@, j as int) is None,
        },
{
    if !(j < s.len() && s[j] == '`') {
        return None;
    }
    let open = skip_class(s, j, Class::Tick);
    let n = open - j;
    let mut k: usize = open;
    while k < s.len()
        invariant
            j < open <= k <= s.len(),
            n == open - j,
            open == after_run(s@, j as int, Class::Tick),
            s@[j as int] == '`',
            closing_ticks(s@, open as int, n as int) == closing_ticks(s@, k as int, n as int),
        decreases s.len() - k,
    {
        if s[k] == '`' {
            let e = skip_class(s, k, Class::Tick);
            if e - k == n {
                return Some(e);
            }
            k = e;
        } else {
            k += 1;
        }
    }
    None
}

fn skip_on_line(s: &Vec<char>, i: usize, c: char) -> (e: usize)
    requires
        i <= s.len(),
    ensures
        e == on_line(s@, i as int, c),
        i <= e <= s.len(),
{
    let mut j: usize = i;
    while j < s.len() && s[j] != c && s[j] != '\n'
        invariant
            i <= j <= s.len(),
            skip_to(s@, i as int, c) == skip_to(s@, j as int, c),
        decreases s.len() - j,
    {
        j += 1;
    }
    j
}

/// Reads the link or image that a `[` opens at index `j`.
pub fn scan_link(s: &Vec<char>, j: usize) -> (r: Option<(usize, usize)>)
    ensures
        match r {
            Some((close, after)) => link(s@, j as int) == Some((close as int, after as int)) && j
                < close && close + 2 < after <= s.len(),
            None => link(s@, j as int) is None,
        },
{
    if !(j < s.len() && s[j] == '[') {
        return None;
    }
    let close = skip_on_line(s, j + 1, ']');
    if !(close < s.len() && s[close] == ']' && close + 1 < s.len() && s[close + 1] == '(') {
        return None;
    }
    let paren = skip_on_line(s, close + 2, ')');
    if paren < s.len() && s[paren] == ')' {
        Some((close, paren + 1))
    } else {
        None
    }
}

/// Finds where the text of the line that starts at index `i` begins.
pub(crate) fn scan_line_start(s: &Vec<char>, i: usize) -> (e: usize)
    requires
        i <= s.len(),
    ensures
        e == line_start(s@, i as int),
        i <= e <= s.len(),
{
    let p = skip_indent_run(s, i);
    if !(p < s.len() && s[p] == '>') {
        return i;
    }
    skip_class(s, i, Class::QuoteMark)
}

fn push_run(spans: &mut Vec<Span>, from: usize, to: usize)
    ensures
        final(spans)@ == with_run(old(spans)@, from as int, to as int),
{
    if from < to {
        spans.push(Span { kind: Kind::Prose, start: from, end: to });
    }
}

/// Finds the prose spans of a document.
pub fn scan(s: &Vec<char>) -> (spans: Vec<Span>)
    ensures
        spans@ == prose_spans(s@),
        ordered(spans@, 0, s@.len() as int),
{
    let mut spans: Vec<Span> = Vec::new();
    let mut from: usize = scan_line_start(s, 0);
    let mut j: usize = from;
    while j < s.len()
        invariant
            from <= j <= s.len(),
            prose_spans(s@) == spans_from(s@, j as int, from as int, spans@),
            ordered(spans@, 0, from as int),
        decreases s.len() - j,
    {
        if let Some(e) = scan_code(s, j) {
            push_run(&mut spans, from, j);
            from = e;
            j = e;
        } else if let Some((close, after)) = scan_link(s, j) {
            push_run(&mut spans, from, j);
            spans.push(Span { kind: Kind::Prose, start: j + 1, end: close });
            from = after;
            j = after;
        } else if s[j] == '`' {
            j = skip_class(s, j, Class::Tick);
        } else if s[j] == '*' {
            push_run(&mut spans, from, j);
            from = j + 1;
            j = j + 1;
        } else if s[j] == '\n' {
            push_run(&mut spans, from, j);
            from = scan_line_start(s, j + 1);
            j = from;
        } else {
            j += 1;
        }
    }
    push_run(&mut spans, from, j);
    spans
}

/// The document `s` with its prose spaced, as characters.
pub fn rewrite(s: &Vec<char>) -> (out: Vec<char>)
    ensures
        out@ == output(s@),
{
    let spans = scan(s);
    respace(s, &spans)
}

/// Spaces the text runs of a Markdown document. Every text is a document
/// to this walker, so it never fails.
pub fn process(input: &str) -> (r: Result<String, ParseError>)
    ensures
        r matches Ok(out) && out@ == output(input@),
{
    let s = to_chars(input);
    let out = rewrite(&s);
    Ok(to_text(&out))
}

} // verus!
