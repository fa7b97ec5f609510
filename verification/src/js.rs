//! The JavaScript walker: comment bodies, the bodies of quoted strings and
//! the literal chunks of template literals are prose.

use crate::error::{Format, ParseError};
use crate::lex::{
    at, block_comment_close, find_block_comment_close, find_line_comment_end, find_string_close,
    line_comment_end, prose, string_close,
};
use crate::text::{to_chars, to_text};
use crate::walker::{
    lemma_ordered_append, lemma_ordered_push, ordered, respace, respaced, Kind, Span,
};
use vstd::prelude::*;

verus! {

/// The index of the `}` that closes a template expression, looked for
/// from `k` on with `depth` braces open inside the expression.
pub open spec fn expression_close(s: Seq<char>, k: int, depth: nat) -> Option<int>
    decreases s.len() - k,
{
    if k < 0 || k >= s.len() {
        None
    } else if s[k] == '{' {
        expression_close(s, k + 1, depth + 1)
    } else if s[k] == '}' {
        if depth == 0 {
            Some(k)
        } else {
            expression_close(s, k + 1, (depth - 1) as nat)
        }
    } else {
        expression_close(s, k + 1, depth)
    }
}

/// The rest of a template literal from index `j` on, where the literal
/// chunk being read began at `from` and `acc` holds the chunks before it:
/// the chunks of the whole literal and the index after its closing
/// backtick, or nothing where the literal or one of its `${ }`
/// expressions is never closed.
pub open spec fn template_from(s: Seq<char>, j: int, from: int, acc: Seq<Span>) -> Option<
    (Seq<Span>, int),
>
    decreases s.len() - j + 1,
{
    if j < 0 || j >= s.len() {
        None
    } else if s[j] == '`' {
        Some((acc.push(prose(from, j)), j + 1))
    } else if s[j] == '\\' {
        template_from(s, j + 2, from, acc)
    } else if s[j] == '$' && at(s, j + 1, '{') {
        let close = expression_close(s, j + 2, 0);
        if close is Some && j + 2 <= close->0 < s.len() {
            template_from(s, close->0 + 1, close->0 + 1, acc.push(prose(from, j)))
        } else {
            None
        }
    } else {
        template_from(s, j + 1, from, acc)
    }
}

/// The literal chunks of a template literal opened by a backtick at index
/// `i`, and the index after its closing backtick.
pub open spec fn template(s: Seq<char>, i: int) -> Option<(Seq<Span>, int)> {
    let found = template_from(s, i + 1, i + 1, Seq::empty());
    if at(s, i, '`') && found is Some && i < (found->0).1 <= s.len() {
        found
    } else {
        None
    }
}

/// The prose spans of the program `s` from index `i` on, after those in
/// `acc`.
///
/// From `//` to the end of the line is a line comment, and what follows
/// the `//` is prose. Between a `/*` and the next `*/` is prose. Between a
/// quote and its matching quote on the same line, or on a line that a
/// backslash continues, is prose. The chunks of a template literal
/// outside its `${ }` expressions are prose. Any other character is
/// structure.
pub open spec fn spans_from(s: Seq<char>, i: int, acc: Seq<Span>) -> Seq<Span>
    decreases s.len() - i,
{
    if i < 0 || i >= s.len() {
        acc
    } else {
        let line = line_comment_end(s, i);
        let block = block_comment_close(s, i);
        let string = string_close(s, i, false);
        let literal = template(s, i);
        if line is Some {
            spans_from(s, line->0, acc.push(prose(i + 2, line->0)))
        } else if block is Some {
            spans_from(s, block->0 + 2, acc.push(prose(i + 2, block->0)))
        } else if string is Some {
            spans_from(s, string->0 + 1, acc.push(prose(i + 1, string->0)))
        } else if literal is Some {
            spans_from(s, (literal->0).1, acc + (literal->0).0)
        } else {
            spans_from(s, i + 1, acc)
        }
    }
}

/// The prose spans of the program `s`.
pub open spec fn prose_spans(s: Seq<char>) -> Seq<Span> {
    spans_from(s, 0, Seq::empty())
}

/// The program `s` with its prose spaced.
pub open spec fn output(s: Seq<char>) -> Seq<char> {
    respaced(s, prose_spans(s))
}

/// The chunks of a template literal lie inside it, in order and without
/// overlap, and the literal ends inside the program.
pub proof fn lemma_template_ordered(s: Seq<char>, j: int, from: int, acc: Seq<Span>, low: int)
    requires
        0 <= low <= from <= j,
        s.len() <= usize::MAX,
        ordered(acc, low, from),
    ensures
        match template_from(s, j, from, acc) {
            Some((chunks, next)) => ordered(chunks, low, next) && j < next <= s.len(),
            None => true,
        },
    decreases s.len() - j + 1,
{
    if 0 <= j < s.len() {
        if s[j] == '`' {
            lemma_ordered_push(acc, prose(from, j), low, from, j + 1);
        } else if s[j] == '\\' {
            lemma_template_ordered(s, j + 2, from, acc, low);
        } else if s[j] == '$' && at(s, j + 1, '{') {
            let close = expression_close(s, j + 2, 0);
            if close is Some && j + 2 <= close->0 < s.len() {
                lemma_ordered_push(acc, prose(from, j), low, from, close->0 + 1);
                lemma_template_ordered(
                    s,
                    close->0 + 1,
                    close->0 + 1,
                    acc.push(prose(from, j)),
                    low,
                );
            }
        } else {
            lemma_template_ordered(s, j + 1, from, acc, low);
        }
    }
}

/// The prose spans lie inside the program, in order and without overlap.
pub proof fn lemma_spans_ordered(s: Seq<char>, i: int, acc: Seq<Span>)
    requires
        0 <= i <= s.len() <= usize::MAX,
        ordered(acc, 0, i),
    ensures
        ordered(spans_from(s, i, acc), 0, s.len() as int),
    decreases s.len() - i,
{
    if i < s.len() {
        let line = line_comment_end(s, i);
        let block = block_comment_close(s, i);
        let string = string_close(s, i, false);
        let literal = template(s, i);
        if line is Some {
            lemma_ordered_push(acc, prose(i + 2, line->0), 0, i, line->0);
            lemma_spans_ordered(s, line->0, acc.push(prose(i + 2, line->0)));
        } else if block is Some {
            lemma_ordered_push(acc, prose(i + 2, block->0), 0, i, block->0 + 2);
            lemma_spans_ordered(s, block->0 + 2, acc.push(prose(i + 2, block->0)));
        } else if string is Some {
            lemma_ordered_push(acc, prose(i + 1, string->0), 0, i, string->0 + 1);
            lemma_spans_ordered(s, string->0 + 1, acc.push(prose(i + 1, string->0)));
        } else if literal is Some {
            lemma_template_ordered(s, i + 1, i + 1, Seq::empty(), i + 1);
            lemma_ordered_append(acc, (literal->0).0, 0, i + 1, (literal->0).1);
            lemma_spans_ordered(s, (literal->0).1, acc + (literal->0).0);
        } else {
            assert(ordered(acc, 0, i + 1));
            lemma_spans_ordered(s, i + 1, acc);
        }
    }
}

/// The constructs of the JavaScript grammar that can be asked for by
/// name.
#[allow(non_camel_case_types)]
#[derive(Debug, Clone, Copy, PartialEq, Eq, Structural)]
pub enum Rule {
    program,
    comment,
    line_comment,
    block_comment,
    string,
    double_quoted_string,
    single_quoted_string,
    template_literal,
}

/// The prose spans of the construct `rule` where it stands at the start
/// of `s`, or nothing where `s` does not start with one.
pub open spec fn matched(rule: Rule, s: Seq<char>) -> Option<Seq<Span>> {
    let line = line_comment_end(s, 0);
    let block = block_comment_close(s, 0);
    let quoted = string_close(s, 0, false);
    let literal = template(s, 0);
    match rule {
        Rule::program => Some(prose_spans(s)),
        Rule::line_comment => if line is Some {
            Some(seq![prose(2, line->0)])
        } else {
            None
        },
        Rule::block_comment => if block is Some {
            Some(seq![prose(2, block->0)])
        } else {
            None
        },
        Rule::comment => if line is Some {
            Some(seq![prose(2, line->0)])
        } else if block is Some {
            Some(seq![prose(2, block->0)])
        } else {
            None
        },
        Rule::double_quoted_string => if quoted is Some && s[0] == '"' {
            Some(seq![prose(1, quoted->0)])
        } else {
            None
        },
        Rule::single_quoted_string => if quoted is Some && s[0] == '\'' {
            Some(seq![prose(1, quoted->0)])
        } else {
            None
        },
        Rule::template_literal => if literal is Some {
            Some((literal->0).0)
        } else {
            None
        },
        Rule::string => if quoted is Some {
            Some(seq![prose(1, quoted->0)])
        } else if literal is Some {
            Some((literal->0).0)
        } else {
            None
        },
    }
}

fn find_expression_close(s: &Vec<char>, k: usize) -> (r: Option<usize>)
    ensures
        match r {
            Some(e) => expression_close(s@, k as int, 0) == Some(e as int) && k <= e < s.len(),
            None => expression_close(s@, k as int, 0) is None,
        },
{
    let mut j: usize = k;
    let mut depth: usize = 0;
    while j < s.len()
        invariant
            k <= j,
            depth <= j - k,
            expression_close(s@, k as int, 0) == expression_close(s@, j as int, depth as nat),
        decreases s.len() - j,
    {
        let c = s[j];
        if c == '{' {
            depth += 1;
        } else if c == '}' {
            if depth == 0 {
                return Some(j);
            }
            depth -= 1;
        }
        j += 1;
    }
    None
}

/// Reads the template literal that a backtick opens at index `i`.
pub fn scan_template(s: &Vec<char>, i: usize) -> (r: Option<(Vec<Span>, usize)>)
    ensures
        match r {
            Some((chunks, next)) => template(s@, i as int) == Some((chunks@, next as int)) && i
                < next <= s.len() && ordered(chunks@, i + 1, next as int),
            None => template(s@, i as int) is None,
        },
{
    if !(i < s.len() && s[i] == '`') {
        return None;
    }
    let mut chunks: Vec<Span> = Vec::new();
    let mut from: usize = i + 1;
    let mut j: usize = i + 1;
    while j < s.len()
        invariant
            i < from <= j,
            i < s.len(),
            from <= s.len(),
            s@[i as int] == '`',
            template_from(s@, i + 1, i + 1, Seq::empty()) == template_from(
                s@,
                j as int,
                from as int,
                chunks@,
            ),
            ordered(chunks@, i + 1, from as int),
        decreases s.len() - j,
    {
        let c = s[j];
        if c == '`' {
            chunks.push(Span { kind: Kind::Prose, start: from, end: j });
            return Some((chunks, j + 1));
        } else if c == '\\' {
            if j + 1 >= s.len() {
                assert(template_from(s@, j + 2, from as int, chunks@) is None);
                return None;
            }
            j += 2;
        } else if c == '$' && j + 1 < s.len() && s[j + 1] == '{' {
            match find_expression_close(s, j + 2) {
                Some(e) => {
                    chunks.push(Span { kind: Kind::Prose, start: from, end: j });
                    from = e + 1;
                    j = e + 1;
                },
                None => {
                    return None;
                },
            }
        } else {
            j += 1;
        }
    }
    None
}

/// Finds the prose spans of a program.
pub fn scan(s: &Vec<char>) -> (spans: Vec<Span>)
    ensures
        spans@ == prose_spans(s@),
        ordered(spans@, 0, s@.len() as int),
{
    let mut spans: Vec<Span> = Vec::new();
    let mut i: usize = 0;
    while i < s.len()
        invariant
            i <= s.len(),
            prose_spans(s@) == spans_from(s@, i as int, spans@),
            ordered(spans@, 0, i as int),
        decreases s.len() - i,
    {
        if let Some(e) = find_line_comment_end(s, i) {
            spans.push(Span { kind: Kind::Prose, start: i + 2, end: e });
            i = e;
        } else if let Some(e) = find_block_comment_close(s, i) {
            spans.push(Span { kind: Kind::Prose, start: i + 2, end: e });
            i = e + 2;
        } else if let Some(e) = find_string_close(s, i, false) {
            spans.push(Span { kind: Kind::Prose, start: i + 1, end: e });
            i = e + 1;
        } else if let Some((mut chunks, next)) = scan_template(s, i) {
            let ghost before = spans@;
            let ghost added = chunks@;
            spans.append(&mut chunks);
            proof {
                lemma_ordered_append(before, added, 0, i as int, next as int);
            }
            i = next;
        } else {
            i += 1;
        }
    }
    spans
}

/// The JavaScript grammar.
pub struct JsParser;

impl JsParser {
    /// Reads the construct `rule` at the start of `input` and gives its
    /// prose spans. A text that does not start with that construct is
    /// refused at offset 0; every text is a program.
    pub fn parse(rule: Rule, input: &str) -> (r: Result<Vec<Span>, ParseError>)
        ensures
            match r {
                Ok(spans) => matched(rule, input@) == Some(spans@) && ordered(
                    spans@,
                    0,
                    input@.len() as int,
                ),
                Err(e) => matched(rule, input@) is None && e == (ParseError::Syntax {
                    format: Format::Js,
                    offset: 0,
                }),
            },
    {
        let s = to_chars(input);
        let refused = Err(ParseError::Syntax { format: Format::Js, offset: 0 });
        let line = find_line_comment_end(&s, 0);
        let block = find_block_comment_close(&s, 0);
        let quoted = find_string_close(&s, 0, false);
        match rule {
            Rule::program => Ok(scan(&s)),
            Rule::line_comment => match line {
                Some(e) => Ok(vec![Span { kind: Kind::Prose, start: 2, end: e }]),
                None => refused,
            },
            Rule::block_comment => match block {
                Some(e) => Ok(vec![Span { kind: Kind::Prose, start: 2, end: e }]),
                None => refused,
            },
            Rule::comment => match line {
                Some(e) => Ok(vec![Span { kind: Kind::Prose, start: 2, end: e }]),
                None => match block {
                    Some(e) => Ok(vec![Span { kind: Kind::Prose, start: 2, end: e }]),
                    None => refused,
                },
            },
            Rule::double_quoted_string => match quoted {
                Some(e) => if s[0] == '"' {
                    Ok(vec![Span { kind: Kind::Prose, start: 1, end: e }])
                } else {
                    refused
                },
                None => refused,
            },
            Rule::single_quoted_string => match quoted {
                Some(e) => if s[0] == '\'' {
                    Ok(vec![Span { kind: Kind::Prose, start: 1, end: e }])
                } else {
                    refused
                },
                None => refused,
            },
            Rule::template_literal => match scan_template(&s, 0) {
                Some((chunks, _)) => Ok(chunks),
                None => refused,
            },
            Rule::string => match quoted {
                Some(e) => Ok(vec![Span { kind: Kind::Prose, start: 1, end: e }]),
                None => match scan_template(&s, 0) {
                    Some((chunks, _)) => Ok(chunks),
                    None => refused,
                },
            },
        }
    }
}

/// The program `s` with its prose spaced, as characters.
pub fn rewrite(s: &Vec<char>) -> (out: Vec<char>)
    ensures
        out@ == output(s@),
{
    let spans = scan(s);
    respace(s, &spans)
}

/// Spaces the comments and strings of a program. Every text is a program
/// to this walker, so it never fails.
pub fn process(input: &str) -> (r: Result<String, ParseError>)
    ensures
        r matches Ok(out) && out@ == output(input@),
{
    let s = to_chars(input);
    let out = rewrite(&s);
    Ok(to_text(&out))
}

} // verus!
