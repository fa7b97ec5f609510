//! The PHP walker: the markup outside `<?php ?>`, and inside it the
//! comments and the literal text of strings and heredocs, are walked as
//! HTML; code and interpolated variables are structure.

use crate::error::ParseError;
use crate::html;
use crate::lex::{
    after_indent, after_word, at, block_comment_close, end_of_line, find_block_comment_close,
    find_char, find_literal, is_letter, is_word, lemma_run_bounds, letter, line_end, matches_at,
    next_char, next_literal, skip_indent_run, skip_word_run, starts_with_at, word, Class,
};
use crate::text::{to_chars, to_text};
use crate::walker::{
    lemma_ordered_append, lemma_ordered_push, ordered, patch, patched, slice, views, Kind, Span,
};
use vstd::prelude::*;

verus! {

/// The tag that opens PHP code.
pub open spec fn code_open() -> Seq<char> {
    seq!['<', '?', 'p', 'h', 'p']
}

/// The opener of a heredoc.
pub open spec fn doc_open() -> Seq<char> {
    seq!['<', '<', '<']
}

/// A span of markup from `start` to `end`.
pub open spec fn markup(start: int, end: int) -> Span {
    Span { kind: Kind::Markup, start: start as usize, end: end as usize }
}

/// The spans in `acc`, followed by the run from `from` to `to` where it
/// is not empty.
pub open spec fn with_run(acc: Seq<Span>, from: int, to: int) -> Seq<Span> {
    if from < to {
        acc.push(markup(from, to))
    } else {
        acc
    }
}

/// The index after the interpolated variable that starts at index `j`:
/// `$` and a name, or `{$` or `${` up to the next `}`.
pub open spec fn variable_end(s: Seq<char>, j: int) -> Option<int> {
    let name = after_word(s, j + 1);
    let brace = next_char(s, j + 2, '}');
    if at(s, j, '$') && 0 <= j + 1 < s.len() && (is_letter(s[j + 1]) || s[j + 1] == '_') {
        Some(name)
    } else if ((at(s, j, '{') && at(s, j + 1, '$')) || (at(s, j, '$') && at(s, j + 1, '{')))
        && brace is Some {
        Some(brace->0 + 1)
    } else {
        None
    }
}

/// The rest of a string from index `j` on, up to the quote `q` that
/// closes it, where the run of literal text being read began at `from`:
/// the spans in `acc` followed by the runs of literal text, and the
/// index after the closing quote; or nothing where the string is never
/// closed. A backslash with the character after it ends a run, and so
/// does, where the string interpolates, a variable.
pub open spec fn quoted_from(
    s: Seq<char>,
    j: int,
    from: int,
    q: char,
    interpolates: bool,
    acc: Seq<Span>,
) -> Option<(Seq<Span>, int)>
    decreases s.len() - j + 1,
{
    if j < 0 || j >= s.len() {
        None
    } else {
        let variable = variable_end(s, j);
        if s[j] == q {
            Some((with_run(acc, from, j), j + 1))
        } else if s[j] == '\\' {
            quoted_from(s, j + 2, j + 2, q, interpolates, with_run(acc, from, j))
        } else if interpolates && variable is Some {
            quoted_from(s, variable->0, variable->0, q, interpolates, with_run(acc, from, j))
        } else {
            quoted_from(s, j + 1, from, q, interpolates, acc)
        }
    }
}

/// The string that a quote opens at index `i`: the runs of its literal
/// text and the index after its closing quote. A string in double quotes
/// interpolates, one in single quotes does not.
pub open spec fn string(s: Seq<char>, i: int) -> Option<(Seq<Span>, int)> {
    let found = quoted_from(s, i + 1, i + 1, s[i], s[i] == '"', Seq::empty());
    if (at(s, i, '"') || at(s, i, '\'')) && found is Some && i < (found->0).1 <= s.len() {
        found
    } else {
        None
    }
}

/// The index at which the line begins that closes a heredoc with the
/// identifier `id`, looked for from the line that begins at `l` on: the
/// first line made of blanks or tabs, the identifier, and something that
/// cannot continue it.
pub open spec fn closing_line(s: Seq<char>, l: int, id: Seq<char>) -> Option<int>
    decreases s.len() - l,
{
    if l < 0 || l >= s.len() {
        None
    } else {
        let p = after_indent(s, l);
        let e = line_end(s, l);
        if starts_with_at(s, p, id) && !(p + id.len() < s.len() && is_word(s[p + id.len()])) {
            Some(l)
        } else if l <= e < s.len() {
            closing_line(s, e + 1, id)
        } else {
            None
        }
    }
}

/// The runs of literal text of a heredoc body from index `j` up to
/// `end`, after the spans in `acc`, where the run being read began at
/// `from`. A backslash with the character after it, and a variable, end
/// a run.
pub open spec fn body_from(s: Seq<char>, j: int, from: int, end: int, acc: Seq<Span>) -> Seq<Span>
    decreases end - j + 1,
{
    if j < 0 || j >= end || end > s.len() {
        with_run(acc, from, end)
    } else {
        let variable = variable_end(s, j);
        if s[j] == '\\' && end - j >= 2 {
            body_from(s, j + 2, j + 2, end, with_run(acc, from, j))
        } else if variable is Some && variable->0 <= end {
            body_from(s, variable->0, variable->0, end, with_run(acc, from, j))
        } else {
            body_from(s, j + 1, from, end, acc)
        }
    }
}

/// The parts of the opener `<<<` of a heredoc at index `i`: where its
/// identifier stands, whether single quotes enclose the identifier, and
/// where the body begins, which is after the end of the opener's line.
pub open spec fn doc_opener(s: Seq<char>, i: int) -> Option<(int, int, bool, int)> {
    let p = after_indent(s, i + 3);
    let quoted = at(s, p, '\'') || at(s, p, '"');
    let id_from = if quoted {
        p + 1
    } else {
        p
    };
    let id_to = after_word(s, id_from);
    let eol = line_end(s, id_to);
    if starts_with_at(s, i, doc_open()) && id_from < id_to && (quoted ==> at(s, id_to, s[p]))
        && id_to <= eol < s.len() {
        Some((id_from, id_to, at(s, p, '\''), eol + 1))
    } else {
        None
    }
}

/// The heredoc or nowdoc that `<<<` opens at index `i`: the runs of its
/// literal text and the index at which its closing line begins. The body
/// of a nowdoc, whose identifier stands in single quotes, is one run.
pub open spec fn heredoc(s: Seq<char>, i: int) -> Option<(Seq<Span>, int)> {
    match doc_opener(s, i) {
        None => None,
        Some((id_from, id_to, verbatim, body)) => {
            match closing_line(s, body, s.subrange(id_from, id_to)) {
                None => None,
                Some(close) => if !(body <= close <= s.len() && i < close) {
                    None
                } else if verbatim {
                    Some((with_run(Seq::empty(), body, close), close))
                } else {
                    Some((body_from(s, body, body, close, Seq::empty()), close))
                },
            }
        },
    }
}

/// The first index from `j` on at which a line feed or `?>` stands, or
/// the length of `s`.
pub open spec fn skip_comment(s: Seq<char>, j: int) -> int
    decreases s.len() - j,
{
    if j < 0 || j >= s.len() {
        s.len() as int
    } else if s[j] == '\n' || (s[j] == '?' && at(s, j + 1, '>')) {
        j
    } else {
        skip_comment(s, j + 1)
    }
}

/// The end of the line comment that `//` or `#` opens at index `j`: the
/// end of the line, or the `?>` that comes before it.
pub open spec fn line_comment_end(s: Seq<char>, j: int) -> Option<int> {
    let e = skip_comment(s, j + 1);
    if ((at(s, j, '/') && at(s, j + 1, '/')) || at(s, j, '#')) && j < e <= s.len() {
        Some(e)
    } else {
        None
    }
}

/// The spans of the document `s` from index `j` on, which lies in PHP
/// code, after those in `acc`.
///
/// `?>` ends the code. A comment, delimiters included, is a span; so is
/// each run of literal text of a string or a heredoc. Any other
/// character is structure.
pub open spec fn code_from(s: Seq<char>, j: int, acc: Seq<Span>) -> Seq<Span>
    decreases s.len() - j, 0int,
{
    if j < 0 || j >= s.len() {
        acc
    } else {
        let line = line_comment_end(s, j);
        let block = block_comment_close(s, j);
        let quoted = string(s, j);
        let doc = heredoc(s, j);
        if s[j] == '?' && at(s, j + 1, '>') {
            markup_from(s, j + 2, acc)
        } else if line is Some {
            code_from(s, line->0, acc.push(markup(j, line->0)))
        } else if block is Some {
            code_from(s, block->0 + 2, acc.push(markup(j, block->0 + 2)))
        } else if quoted is Some {
            code_from(s, (quoted->0).1, acc + (quoted->0).0)
        } else if doc is Some {
            code_from(s, (doc->0).1, acc + (doc->0).0)
        } else {
            code_from(s, j + 1, acc)
        }
    }
}

/// The spans of the document `s` from index `i` on, which lies outside
/// PHP code, after those in `acc`: the markup up to the next `<?php` is a
/// span, and code follows the tag.
pub open spec fn markup_from(s: Seq<char>, i: int, acc: Seq<Span>) -> Seq<Span>
    decreases s.len() - i, 1int,
{
    if i < 0 || i >= s.len() {
        acc
    } else {
        match next_literal(s, i, code_open()) {
            Some(p) => code_from(s, p + 5, with_run(acc, i, p)),
            None => acc.push(markup(i, s.len() as int)),
        }
    }
}

/// Adding a run keeps spans in order.
pub proof fn lemma_with_run_ordered(acc: Seq<Span>, low: int, from: int, to: int)
    requires
        0 <= low <= from <= to <= usize::MAX,
        ordered(acc, low, from),
    ensures
        ordered(with_run(acc, from, to), low, to),
{
    if from < to {
        lemma_ordered_push(acc, markup(from, to), low, from, to);
    }
}

/// A variable ends after its first character and inside the text.
pub proof fn lemma_variable_bounds(s: Seq<char>, j: int)
    requires
        0 <= j < s.len(),
    ensures
        variable_end(s, j) matches Some(e) ==> j < e <= s.len(),
{
    lemma_run_bounds(s, j + 1, Class::Word);
}

/// The runs of a string lie inside it, in order and without overlap, and
/// the string ends inside the text.
pub proof fn lemma_quoted_sound(
    s: Seq<char>,
    j: int,
    from: int,
    q: char,
    interpolates: bool,
    acc: Seq<Span>,
    low: int,
)
    requires
        0 <= low <= from <= j,
        s.len() <= usize::MAX,
        ordered(acc, low, from),
    ensures
        quoted_from(s, j, from, q, interpolates, acc) matches Some((runs, next)) ==> j < next
            <= s.len() && ordered(runs, low, next),
    decreases s.len() - j + 1,
{
    if j < s.len() {
        let variable = variable_end(s, j);
        lemma_variable_bounds(s, j);
        lemma_with_run_ordered(acc, low, from, j);
        let run = with_run(acc, from, j);
        if s[j] == q {
        } else if s[j] == '\\' {
            lemma_quoted_sound(s, j + 2, j + 2, q, interpolates, run, low);
        } else if interpolates && variable is Some {
            lemma_quoted_sound(s, variable->0, variable->0, q, interpolates, run, low);
        } else {
            lemma_quoted_sound(s, j + 1, from, q, interpolates, acc, low);
        }
    }
}

/// The runs of a heredoc body lie inside it, in order and without
/// overlap.
pub proof fn lemma_body_ordered(s: Seq<char>, j: int, from: int, end: int, acc: Seq<Span>, low: int)
    requires
        0 <= low <= from <= j,
        from <= end <= s.len() <= usize::MAX,
        ordered(acc, low, from),
    ensures
        ordered(body_from(s, j, from, end, acc), low, end),
    decreases end - j + 1,
{
    if j >= end {
        lemma_with_run_ordered(acc, low, from, end);
    } else {
        let variable = variable_end(s, j);
        lemma_variable_bounds(s, j);
        lemma_with_run_ordered(acc, low, from, j);
        let run = with_run(acc, from, j);
        if s[j] == '\\' && j + 2 <= end {
            lemma_body_ordered(s, j + 2, j + 2, end, run, low);
        } else if variable is Some && variable->0 <= end {
            lemma_body_ordered(s, variable->0, variable->0, end, run, low);
        } else {
            lemma_body_ordered(s, j + 1, from, end, acc, low);
        }
    }
}

/// The runs of a heredoc lie between its opener and its closing line, in
/// order and without overlap.
pub proof fn lemma_heredoc_sound(s: Seq<char>, i: int)
    requires
        0 <= i <= s.len() <= usize::MAX,
    ensures
        heredoc(s, i) matches Some((runs, next)) ==> i < next <= s.len() && ordered(
            runs,
            i,
            next,
        ),
{
    if let Some((id_from, id_to, verbatim, body)) = doc_opener(s, i) {
        lemma_run_bounds(s, i + 3, Class::Indent);
        if let Some(close) = closing_line(s, body, s.subrange(id_from, id_to)) {
            if body <= close <= s.len() && i < close {
                let none = Seq::<Span>::empty();
                if verbatim {
                    lemma_with_run_ordered(none, i, body, close);
                } else {
                    lemma_body_ordered(s, body, body, close, none, i);
                }
            }
        }
    }
}

/// The spans found in code lie inside the document, in order and without
/// overlap.
pub proof fn lemma_code_ordered(s: Seq<char>, j: int, acc: Seq<Span>)
    requires
        0 <= j <= s.len() <= usize::MAX,
        ordered(acc, 0, j),
    ensures
        ordered(code_from(s, j, acc), 0, s.len() as int),
    decreases s.len() - j, 0int,
{
    if j < s.len() {
        let line = line_comment_end(s, j);
        let block = block_comment_close(s, j);
        let quoted = string(s, j);
        let doc = heredoc(s, j);
        if s[j] == '?' && at(s, j + 1, '>') {
            assert(ordered(acc, 0, j + 2));
            lemma_markup_ordered(s, j + 2, acc);
        } else if line is Some {
            lemma_ordered_push(acc, markup(j, line->0), 0, j, line->0);
            lemma_code_ordered(s, line->0, acc.push(markup(j, line->0)));
        } else if block is Some {
            lemma_ordered_push(acc, markup(j, block->0 + 2), 0, j, block->0 + 2);
            lemma_code_ordered(s, block->0 + 2, acc.push(markup(j, block->0 + 2)));
        } else if quoted is Some {
            lemma_quoted_sound(s, j + 1, j + 1, s[j], s[j] == '"', Seq::empty(), j);
            lemma_ordered_append(acc, (quoted->0).0, 0, j, (quoted->0).1);
            lemma_code_ordered(s, (quoted->0).1, acc + (quoted->0).0);
        } else if doc is Some {
            lemma_heredoc_sound(s, j);
            lemma_ordered_append(acc, (doc->0).0, 0, j, (doc->0).1);
            lemma_code_ordered(s, (doc->0).1, acc + (doc->0).0);
        } else {
            assert(ordered(acc, 0, j + 1));
            lemma_code_ordered(s, j + 1, acc);
        }
    }
}

/// The spans found from markup on lie inside the document, in order and
/// without overlap.
pub proof fn lemma_markup_ordered(s: Seq<char>, i: int, acc: Seq<Span>)
    requires
        0 <= i <= s.len() <= usize::MAX,
        ordered(acc, 0, i),
    ensures
        ordered(markup_from(s, i, acc), 0, s.len() as int),
    decreases s.len() - i, 1int,
{
    if i < s.len() {
        match next_literal(s, i, code_open()) {
            Some(p) => {
                lemma_with_run_ordered(acc, 0, i, p);
                lemma_code_ordered(s, p + 5, with_run(acc, i, p));
            },
            None => {
                lemma_ordered_push(acc, markup(i, s.len() as int), 0, i, s.len() as int);
            },
        }
    }
}

/// The spans of the document `s`.
pub open spec fn spans(s: Seq<char>) -> Seq<Span> {
    markup_from(s, 0, Seq::empty())
}

/// What replaces each span: the span walked as HTML or, where it is no
/// HTML, as it stands.
pub open spec fn texts(s: Seq<char>, spans: Seq<Span>) -> Seq<Seq<char>> {
    Seq::new(
        spans.len(),
        |k: int| html::output_or_same(s.subrange(spans[k].start as int, spans[k].end as int)),
    )
}

/// The document `s` with its spans rewritten.
pub open spec fn output(s: Seq<char>) -> Seq<char> {
    patched(s, spans(s), texts(s, spans(s)), 0, 0)
}

fn push_run(spans: &mut Vec<Span>, from: usize, to: usize)
    ensures
        final(spans)@ == with_run(old(spans)@, from as int, to as int),
{
    if from < to {
        spans.push(Span { kind: Kind::Markup, start: from, end: to });
    }
}

/// Finds the end of the interpolated variable that starts at index `j`.
pub fn scan_variable(s: &Vec<char>, j: usize) -> (r: Option<usize>)
    ensures
        match r {
            Some(e) => variable_end(s@, j as int) == Some(e as int) && j < e <= s.len(),
            None => variable_end(s@, j as int) is None,
        },
{
    if j >= s.len() || j + 1 >= s.len() {
        return None;
    }
    let c = s[j];
    let d = s[j + 1];
    if c == '$' && (letter(d) || d == '_') {
        Some(skip_word_run(s, j + 1))
    } else if (c == '{' && d == '$') || (c == '$' && d == '{') {
        match find_char(s, j + 2, '}') {
            Some(e) => Some(e + 1),
            None => None,
        }
    } else {
        None
    }
}

/// Reads the string that a quote opens at index `i`.
pub fn scan_string(s: &Vec<char>, i: usize) -> (r: Option<(Vec<Span>, usize)>)
    ensures
        match r {
            Some((runs, next)) => string(s@, i as int) == Some((runs@, next as int)) && i < next
                <= s.len() && ordered(runs@, i as int, next as int),
            None => string(s@, i as int) is None,
        },
{
    if !(i < s.len() && (s[i] == '"' || s[i] == '\'')) {
        return None;
    }
    let q = s[i];
    let interpolates = q == '"';
    let mut runs: Vec<Span> = Vec::new();
    let mut from: usize = i + 1;
    let mut j: usize = i + 1;
    while j < s.len()
        invariant
            i < from <= j,
            i < s.len(),
            from <= s.len(),
            q == s@[i as int],
            q == '"' || q == '\'',
            interpolates == (q == '"'),
            quoted_from(s@, i + 1, i + 1, q, interpolates, Seq::empty()) == quoted_from(
                s@,
                j as int,
                from as int,
                q,
                interpolates,
                runs@,
            ),
            ordered(runs@, i as int, from as int),
        decreases s.len() - j,
    {
        let c = s[j];
        if c == q {
            push_run(&mut runs, from, j);
            return Some((runs, j + 1));
        } else if c == '\\' {
            if j + 1 >= s.len() {
                assert(quoted_from(
                    s@,
                    j + 2,
                    j + 2,
                    q,
                    interpolates,
                    with_run(runs@, from as int, j as int),
                ) is None);
                return None;
            }
            push_run(&mut runs, from, j);
            from = j + 2;
            j = j + 2;
        } else {
            let variable = if interpolates {
                scan_variable(s, j)
            } else {
                None
            };
            match variable {
                Some(e) => {
                    push_run(&mut runs, from, j);
                    from = e;
                    j = e;
                },
                None => {
                    j += 1;
                },
            }
        }
    }
    None
}

/// Finds the line that closes a heredoc with the identifier that stands
/// from `id_from` to `id_to`, from the line that begins at `l` on.
pub(crate) fn find_closing_line(s: &Vec<char>, l: usize, id_from: usize, id_to: usize) -> (r:
    Option<usize>)
    requires
        id_from <= id_to <= s.len(),
    ensures
        match r {
            Some(close) => closing_line(
                s@,
                l as int,
                s@.subrange(id_from as int, id_to as int),
            ) == Some(close as int) && l <= close < s.len(),
            None => closing_line(s@, l as int, s@.subrange(id_from as int, id_to as int))
                is None,
        },
{
    let id = slice(s, id_from, id_to);
    let mut k: usize = l;
    while k < s.len()
        invariant
            l <= k,
            id@ == s@.subrange(id_from as int, id_to as int),
            closing_line(s@, l as int, id@) == closing_line(s@, k as int, id@),
        decreases s.len() - k,
    {
        let p = skip_indent_run(s, k);
        if matches_at(s, p, id.as_slice()) && !(p + id.len() < s.len() && word(s[p + id.len()])) {
            return Some(k);
        }
        let e = end_of_line(s, k);
        if e >= s.len() {
            return None;
        }
        k = e + 1;
    }
    None
}

/// Finds the runs of literal text of a heredoc body that stands from
/// `body` to `end`.
pub(crate) fn scan_body(s: &Vec<char>, body: usize, end: usize) -> (runs: Vec<Span>)
    requires
        body <= end <= s.len(),
    ensures
        runs@ == body_from(s@, body as int, body as int, end as int, Seq::empty()),
        ordered(runs@, body as int, end as int),
{
    let mut runs: Vec<Span> = Vec::new();
    let mut from: usize = body;
    let mut j: usize = body;
    while j < end
        invariant
            body <= from <= j <= end <= s.len(),
            body_from(s@, body as int, body as int, end as int, Seq::empty()) == body_from(
                s@,
                j as int,
                from as int,
                end as int,
                runs@,
            ),
            ordered(runs@, body as int, from as int),
        decreases end - j,
    {
        if s[j] == '\\' && end - j >= 2 {
            push_run(&mut runs, from, j);
            from = j + 2;
            j = j + 2;
        } else {
            match scan_variable(s, j) {
                Some(e) => {
                    if e <= end {
                        push_run(&mut runs, from, j);
                        from = e;
                        j = e;
                    } else {
                        j += 1;
                    }
                },
                None => {
                    j += 1;
                },
            }
        }
    }
    push_run(&mut runs, from, end);
    runs
}

/// Reads the heredoc or nowdoc that `<<<` opens at index `i`.
pub fn scan_heredoc(s: &Vec<char>, i: usize) -> (r: Option<(Vec<Span>, usize)>)
    ensures
        match r {
            Some((runs, next)) => heredoc(s@, i as int) == Some((runs@, next as int)) && i < next
                <= s.len() && ordered(runs@, i as int, next as int),
            None => heredoc(s@, i as int) is None,
        },
{
    let opener = ['<', '<', '<'];
    assert(opener@ =~= doc_open());
    if !matches_at(s, i, opener.as_slice()) {
        return None;
    }
    assert(i + 3 <= s.len());
    let p = skip_indent_run(s, i + 3);
    let quoted = p < s.len() && (s[p] == '\'' || s[p] == '"');
    let id_from = if quoted {
        p + 1
    } else {
        p
    };
    let id_to = skip_word_run(s, id_from);
    if id_from >= id_to {
        return None;
    }
    if quoted && !(id_to < s.len() && s[id_to] == s[p]) {
        return None;
    }
    let eol = end_of_line(s, id_to);
    if eol >= s.len() {
        return None;
    }
    let verbatim = p < s.len() && s[p] == '\'';
    let body = eol + 1;
    match find_closing_line(s, body, id_from, id_to) {
        None => None,
        Some(close) => {
            if verbatim {
                let mut runs: Vec<Span> = Vec::new();
                push_run(&mut runs, body, close);
                Some((runs, close))
            } else {
                Some((scan_body(s, body, close), close))
            }
        },
    }
}

/// Finds the end of the line comment that opens at index `j`.
pub fn scan_line_comment(s: &Vec<char>, j: usize) -> (r: Option<usize>)
    ensures
        match r {
            Some(e) => line_comment_end(s@, j as int) == Some(e as int) && j < e <= s.len(),
            None => line_comment_end(s@, j as int) is None,
        },
{
    if !(j < s.len() && (s[j] == '#' || (s[j] == '/' && j + 1 < s.len() && s[j + 1] == '/'))) {
        return None;
    }
    let mut k: usize = j + 1;
    while k < s.len() && !(s[k] == '\n' || (s[k] == '?' && k + 1 < s.len() && s[k + 1] == '>'))
        invariant
            j < k <= s.len(),
            skip_comment(s@, j + 1) == skip_comment(s@, k as int),
        decreases s.len() - k,
    {
        k += 1;
    }
    Some(k)
}

/// Finds the spans of a document.
pub fn scan(s: &Vec<char>) -> (found: Vec<Span>)
    ensures
        found@ == spans(s@),
        ordered(found@, 0, s@.len() as int),
{
    let opener = ['<', '?', 'p', 'h', 'p'];
    assert(opener@ =~= code_open());
    let mut found: Vec<Span> = Vec::new();
    let mut in_code = false;
    let mut i: usize = 0;
    while i < s.len()
        invariant
            i <= s.len(),
            opener@ == code_open(),
            spans(s@) == if in_code {
                code_from(s@, i as int, found@)
            } else {
                markup_from(s@, i as int, found@)
            },
            ordered(found@, 0, i as int),
        decreases s.len() - i,
    {
        if !in_code {
            match find_literal(s, i, opener.as_slice()) {
                Some(p) => {
                    push_run(&mut found, i, p);
                    in_code = true;
                    i = p + 5;
                },
                None => {
                    found.push(Span { kind: Kind::Markup, start: i, end: s.len() });
                    i = s.len();
                },
            }
        } else if s[i] == '?' && i + 1 < s.len() && s[i + 1] == '>' {
            in_code = false;
            i = i + 2;
        } else if let Some(e) = scan_line_comment(s, i) {
            found.push(Span { kind: Kind::Markup, start: i, end: e });
            i = e;
        } else if let Some(e) = find_block_comment_close(s, i) {
            found.push(Span { kind: Kind::Markup, start: i, end: e + 2 });
            i = e + 2;
        } else if let Some((mut runs, next)) = scan_string(s, i) {
            proof {
                lemma_ordered_append(found@, runs@, 0, i as int, next as int);
            }
            found.append(&mut runs);
            i = next;
        } else if let Some((mut runs, next)) = scan_heredoc(s, i) {
            proof {
                lemma_ordered_append(found@, runs@, 0, i as int, next as int);
            }
            found.append(&mut runs);
            i = next;
        } else {
            i += 1;
        }
    }
    found
}

/// The document `s` with its spans rewritten, as characters.
pub fn rewrite(s: &Vec<char>) -> (out: Vec<char>)
    ensures
        out@ == output(s@),
{
    let words = html::Words::new();
    let found = scan(s);
    let mut rewritten: Vec<Vec<char>> = Vec::new();
    let mut k: usize = 0;
    while k < found.len()
        invariant
            words.wf(),
            k <= found.len(),
            rewritten.len() == k,
            ordered(found@, 0, s@.len() as int),
            forall|j: int| 0 <= j < k ==> (#[trigger] rewritten@[j])@ == texts(s@, found@)[j],
        decreases found.len() - k,
    {
        let span = found[k];
        let body = slice(s, span.start, span.end);
        let text = match html::rewrite(&body, &words) {
            Ok(walked) => walked,
            Err(_) => body,
        };
        rewritten.push(text);
        k += 1;
    }
    assert(views(rewritten@) =~= texts(s@, found@));
    patch(s, &found, &rewritten)
}

/// Spaces the markup of a PHP document and, inside its code, the
/// comments and the literal text of strings and heredocs. Every text is
/// a document to this walker, so it never fails.
pub fn process(input: &str) -> (r: Result<String, ParseError>)
    ensures
        r matches Ok(out) && out@ == output(input@),
{
    let s = to_chars(input);
    let out = rewrite(&s);
    Ok(to_text(&out))
}

} // verus!
