//! The CSS walker: comment bodies and string bodies are prose, everything
//! else is structure.

use crate::error::ParseError;
use crate::lex::{
    block_comment_close, find_block_comment_close, find_string_close, prose, string_close,
};
use crate::text::{to_chars, to_text};
use crate::walker::{lemma_ordered_push, ordered, respace, respaced, Kind, Span};
use vstd::prelude::*;

verus! {

/// The prose spans of the style sheet `s` from index `i` on, after those
/// in `acc`.
///
/// A `/*` with a `*/` after it is a comment, and what lies between the two
/// is prose. A quote with a matching quote later on the same line, or on a
/// line that a backslash continues, is a string, and what lies between
/// the quotes is prose. Any other character is structure.
pub open spec fn spans_from(s: Seq<char>, i: int, acc: Seq<Span>) -> Seq<Span>
    decreases s.len() - i,
{
    if i < 0 || i >= s.len() {
        acc
    } else {
        let comment = block_comment_close(s, i);
        let string = string_close(s, i, false);
        if comment is Some {
            let e = comment->0;
            spans_from(
                s,
                e + 2,
                acc.push(prose(i + 2, e)),
            )
        } else if string is Some {
            let e = string->0;
            spans_from(
                s,
                e + 1,
                acc.push(prose(i + 1, e)),
            )
        } else {
            spans_from(s, i + 1, acc)
        }
    }
}

/// The prose spans of the style sheet `s`.
pub open spec fn prose_spans(s: Seq<char>) -> Seq<Span> {
    spans_from(s, 0, Seq::empty())
}

/// The style sheet `s` with its prose spaced.
pub open spec fn output(s: Seq<char>) -> Seq<char> {
    respaced(s, prose_spans(s))
}

/// The prose spans lie inside the style sheet, in order and without
/// overlap.
pub proof fn lemma_spans_ordered(s: Seq<char>, i: int, acc: Seq<Span>)
    requires
        0 <= i <= s.len() <= usize::MAX,
        ordered(acc, 0, i),
    ensures
        ordered(spans_from(s, i, acc), 0, s.len() as int),
    decreases s.len() - i,
{
    if i < s.len() {
        let comment = block_comment_close(s, i);
        let string = string_close(s, i, false);
        if comment is Some {
            let e = comment->0;
            lemma_ordered_push(acc, prose(i + 2, e), 0, i, e + 2);
            lemma_spans_ordered(s, e + 2, acc.push(prose(i + 2, e)));
        } else if string is Some {
            let e = string->0;
            lemma_ordered_push(acc, prose(i + 1, e), 0, i, e + 1);
            lemma_spans_ordered(s, e + 1, acc.push(prose(i + 1, e)));
        } else {
            assert(ordered(acc, 0, i + 1));
            lemma_spans_ordered(s, i + 1, acc);
        }
    }
}

/// Finds the prose spans of a style sheet.
pub fn scan(s: &Vec<char>) -> (spans: Vec<Span>)
    ensures
        spans@ == prose_spans(s@),
        ordered(spans@, 0, s@.len() as int),
{
    let mut spans: Vec<Span> = Vec::new();
    let mut i: usize = 0;
    while i < s.len()
        invariant
            i <= s.len(),
            prose_spans(s@) == spans_from(s@, i as int, spans@),
            ordered(spans@, 0, i as int),
        decreases s.len() - i,
    {
        match find_block_comment_close(s, i) {
            Some(e) => {
                spans.push(Span { kind: Kind::Prose, start: i + 2, end: e });
                i = e + 2;
            },
            None => match find_string_close(s, i, false) {
                Some(e) => {
                    spans.push(Span { kind: Kind::Prose, start: i + 1, end: e });
                    i = e + 1;
                },
                None => {
                    i += 1;
                },
            },
        }
    }
    spans
}

/// The CSS grammar.
pub struct CssParser;

impl CssParser {
    /// Reads a style sheet and gives its prose spans. Every text is a
    /// style sheet to this grammar.
    pub fn parse(input: &str) -> (spans: Vec<Span>)
        ensures
            spans@ == prose_spans(input@),
            ordered(spans@, 0, input@.len() as int),
    {
        scan(&to_chars(input))
    }
}

/// The style sheet `s` with its prose spaced, as characters.
pub fn rewrite(s: &Vec<char>) -> (out: Vec<char>)
    ensures
        out@ == output(s@),
{
    let spans = scan(s);
    respace(s, &spans)
}

/// Spaces the comments and strings of a style sheet. Every text is a
/// style sheet to this walker, so it never fails.
pub fn process(input: &str) -> (r: Result<String, ParseError>)
    ensures
        r matches Ok(out) && out@ == output(input@),
{
    let s = to_chars(input);
    let out = rewrite(&s);
    Ok(to_text(&out))
}

} // verus!
