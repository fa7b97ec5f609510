//! The JSON5 walker: the bodies of string values and of comments are
//! prose; keys, numbers, literals and punctuation are structure. A text
//! that is not one JSON5 value is refused.

use crate::error::{Format, ParseError};
use crate::json::{word_false, word_null, word_true};
use crate::lex::{
    after_digits, after_run, at, blank, block_comment_close, digit, find_block_comment_close,
    find_line_comment_end, find_string_close, is_blank, is_digit, lemma_run_bounds,
    line_comment_end, matches_at,
    prose, skip_class, skip_digit_run, starts_with_at, string_close, Class, Parsed,
};
use crate::text::{to_chars, to_text};
use crate::walker::{lemma_ordered_push, ordered, respace, respaced, Kind, Span};
use vstd::prelude::*;

verus! {

/// Skips blanks and comments from index `i` on: the spans in `acc`
/// followed by the comment bodies that were passed, and the index of the
/// first character that is neither blank nor part of a comment.
pub open spec fn trivia(s: Seq<char>, i: int, acc: Seq<Span>) -> (Seq<Span>, int)
    decreases s.len() - i,
{
    if i < 0 || i >= s.len() {
        (acc, i)
    } else {
        let line = line_comment_end(s, i);
        let block = block_comment_close(s, i);
        if is_blank(s[i]) {
            trivia(s, i + 1, acc)
        } else if line is Some {
            trivia(s, line->0, acc.push(prose(i + 2, line->0)))
        } else if block is Some {
            trivia(s, block->0 + 2, acc.push(prose(i + 2, block->0)))
        } else {
            (acc, i)
        }
    }
}

/// `trivia`, for an index `i` inside `s` or at its end.
pub open spec fn after_trivia(s: Seq<char>, i: int, acc: Seq<Span>) -> (Seq<Span>, int) {
    let found = trivia(s, i, acc);
    if i <= found.1 <= s.len() {
        found
    } else {
        (acc, i)
    }
}

/// The index after the key that starts at index `i`: a quoted string, or
/// a run of letters, digits, `_`, `$` and characters outside ASCII that
/// does not start with a digit.
pub open spec fn key_end(s: Seq<char>, i: int) -> Option<int> {
    let close = string_close(s, i, false);
    let e = after_run(s, i, Class::Key);
    if close is Some {
        Some(close->0 + 1)
    } else if i < e && !is_digit(s[i]) {
        Some(e)
    } else {
        None
    }
}

/// The word `Infinity`.
pub open spec fn word_infinity() -> Seq<char> {
    seq!['I', 'n', 'f', 'i', 'n', 'i', 't', 'y']
}

/// The word `NaN`.
pub open spec fn word_nan() -> Seq<char> {
    seq!['N', 'a', 'N']
}

/// The index after a number that starts at index `i`: an optional sign,
/// then `Infinity`, `NaN`, `0x` with hexadecimal digits, or decimal digits
/// with an optional point among, before or after them and an optional
/// exponent.
pub open spec fn number_end(s: Seq<char>, i: int) -> Option<int> {
    let start = if at(s, i, '+') || at(s, i, '-') {
        i + 1
    } else {
        i
    };
    let hex = after_run(s, start + 2, Class::Hex);
    let whole = after_digits(s, start);
    let fraction = if at(s, whole, '.') {
        after_digits(s, whole + 1)
    } else {
        whole
    };
    let sign = if at(s, fraction + 1, '+') || at(s, fraction + 1, '-') {
        fraction + 2
    } else {
        fraction + 1
    };
    if starts_with_at(s, start, word_infinity()) {
        Some(start + 8)
    } else if starts_with_at(s, start, word_nan()) {
        Some(start + 3)
    } else if at(s, start, '0') && (at(s, start + 1, 'x') || at(s, start + 1, 'X')) && start + 2
        < hex {
        Some(hex)
    } else if fraction == start || (fraction == start + 1 && at(s, start, '.')) {
        None
    } else if (at(s, fraction, 'e') || at(s, fraction, 'E')) && 0 <= sign < s.len() && is_digit(
        s[sign],
    ) {
        Some(after_digits(s, sign))
    } else {
        Some(fraction)
    }
}

/// Reads the value that starts at index `i`: an object, an array, a
/// string, a number or one of `true`, `false`, `null`. The body of a
/// string value is prose.
pub open spec fn value(s: Seq<char>, i: int, acc: Seq<Span>) -> Parsed
    decreases s.len() - i, 0int,
{
    if i < 0 || i >= s.len() {
        Parsed::Bad { at: i }
    } else if s[i] == '{' {
        let inside = after_trivia(s, i + 1, acc);
        members(s, inside.1, inside.0)
    } else if s[i] == '[' {
        let inside = after_trivia(s, i + 1, acc);
        elements(s, inside.1, inside.0)
    } else if s[i] == '"' || s[i] == '\'' {
        match string_close(s, i, false) {
            Some(e) => Parsed::Good { spans: acc.push(prose(i + 1, e)), next: e + 1 },
            None => Parsed::Bad { at: i },
        }
    } else if starts_with_at(s, i, word_true()) {
        Parsed::Good { spans: acc, next: i + 4 }
    } else if starts_with_at(s, i, word_false()) {
        Parsed::Good { spans: acc, next: i + 5 }
    } else if starts_with_at(s, i, word_null()) {
        Parsed::Good { spans: acc, next: i + 4 }
    } else {
        match number_end(s, i) {
            Some(e) => Parsed::Good { spans: acc, next: e },
            None => Parsed::Bad { at: i },
        }
    }
}

/// Reads the members of an object from index `i` on, up to and including
/// the closing brace: the brace, or a key, a colon and a value, followed
/// by the brace or by a comma and more members. A key is structure.
/// Blanks and comments may stand between any two of these.
pub open spec fn members(s: Seq<char>, i: int, acc: Seq<Span>) -> Parsed
    decreases s.len() - i, 1int,
{
    if at(s, i, '}') {
        Parsed::Good { spans: acc, next: i + 1 }
    } else {
        match key_end(s, i) {
            None => Parsed::Bad { at: i },
            Some(key_end) => {
                let colon = after_trivia(s, key_end, acc);
                if !at(s, colon.1, ':') {
                    Parsed::Bad { at: colon.1 }
                } else {
                    let start = after_trivia(s, colon.1 + 1, colon.0);
                    match value(s, start.1, start.0).after(start.1, s.len() as int) {
                        Parsed::Bad { at } => Parsed::Bad { at },
                        Parsed::Good { spans, next } => {
                            let then = after_trivia(s, next, spans);
                            if at(s, then.1, '}') {
                                Parsed::Good { spans: then.0, next: then.1 + 1 }
                            } else if at(s, then.1, ',') {
                                let more = after_trivia(s, then.1 + 1, then.0);
                                members(s, more.1, more.0)
                            } else {
                                Parsed::Bad { at: then.1 }
                            }
                        },
                    }
                }
            },
        }
    }
}

/// Reads the elements of an array from index `i` on, up to and including
/// the closing bracket: the bracket, or a value followed by the bracket
/// or by a comma and more elements. Blanks and comments may stand between
/// any two of these.
pub open spec fn elements(s: Seq<char>, i: int, acc: Seq<Span>) -> Parsed
    decreases s.len() - i, 1int,
{
    if at(s, i, ']') {
        Parsed::Good { spans: acc, next: i + 1 }
    } else if i < 0 || i >= s.len() {
        Parsed::Bad { at: i }
    } else {
        match value(s, i, acc).after(i, s.len() as int) {
            Parsed::Bad { at } => Parsed::Bad { at },
            Parsed::Good { spans, next } => {
                let then = after_trivia(s, next, spans);
                if at(s, then.1, ']') {
                    Parsed::Good { spans: then.0, next: then.1 + 1 }
                } else if at(s, then.1, ',') {
                    let more = after_trivia(s, then.1 + 1, then.0);
                    elements(s, more.1, more.0)
                } else {
                    Parsed::Bad { at: then.1 }
                }
            },
        }
    }
}

/// Reads the document `s`: one value, with blanks and comments before and
/// after it, and nothing more.
pub open spec fn document(s: Seq<char>) -> Parsed {
    let start = after_trivia(s, 0, Seq::empty());
    match value(s, start.1, start.0) {
        Parsed::Bad { at } => Parsed::Bad { at },
        Parsed::Good { spans, next } => {
            let end = after_trivia(s, next, spans);
            if end.1 == s.len() {
                Parsed::Good { spans: end.0, next: end.1 }
            } else {
                Parsed::Bad { at: end.1 }
            }
        },
    }
}

/// Blanks and comments that are skipped end inside the text, and the
/// spans stay in order.
pub proof fn lemma_trivia_sound(s: Seq<char>, i: int, acc: Seq<Span>)
    requires
        0 <= i <= s.len() <= usize::MAX,
        ordered(acc, 0, i),
    ensures
        after_trivia(s, i, acc) == trivia(s, i, acc),
        i <= after_trivia(s, i, acc).1 <= s.len(),
        ordered(after_trivia(s, i, acc).0, 0, after_trivia(s, i, acc).1),
    decreases s.len() - i,
{
    if i < s.len() {
        let line = line_comment_end(s, i);
        let block = block_comment_close(s, i);
        if is_blank(s[i]) {
            lemma_trivia_sound(s, i + 1, acc);
        } else if line is Some {
            lemma_ordered_push(acc, prose(i + 2, line->0), 0, i, line->0);
            lemma_trivia_sound(s, line->0, acc.push(prose(i + 2, line->0)));
        } else if block is Some {
            lemma_ordered_push(acc, prose(i + 2, block->0), 0, i, block->0 + 2);
            lemma_trivia_sound(s, block->0 + 2, acc.push(prose(i + 2, block->0)));
        }
    }
}

/// A number ends after its first character and inside the text.
pub proof fn lemma_number_bounds(s: Seq<char>, i: int)
    requires
        0 <= i <= s.len(),
    ensures
        number_end(s, i) matches Some(e) ==> i < e <= s.len(),
{
    let start = if at(s, i, '+') || at(s, i, '-') {
        i + 1
    } else {
        i
    };
    if start + 2 <= s.len() {
        lemma_run_bounds(s, start + 2, Class::Hex);
    }
    lemma_run_bounds(s, start, Class::Digit);
    let whole = after_digits(s, start);
    if whole + 1 <= s.len() {
        lemma_run_bounds(s, whole + 1, Class::Digit);
    }
    let fraction = if at(s, whole, '.') {
        after_digits(s, whole + 1)
    } else {
        whole
    };
    let sign = if at(s, fraction + 1, '+') || at(s, fraction + 1, '-') {
        fraction + 2
    } else {
        fraction + 1
    };
    if 0 <= sign <= s.len() {
        lemma_run_bounds(s, sign, Class::Digit);
    }
}

/// A value that is read ends after its first character and inside the
/// text, and its spans are in order.
pub proof fn lemma_value_sound(s: Seq<char>, i: int, acc: Seq<Span>)
    requires
        0 <= i <= s.len() <= usize::MAX,
        ordered(acc, 0, i),
    ensures
        value(s, i, acc).sound(i, s.len() as int),
    decreases s.len() - i, 0int,
{
    if i < s.len() {
        if s[i] == '{' {
            lemma_trivia_sound(s, i + 1, acc);
            let inside = after_trivia(s, i + 1, acc);
            lemma_members_sound(s, inside.1, inside.0);
        } else if s[i] == '[' {
            lemma_trivia_sound(s, i + 1, acc);
            let inside = after_trivia(s, i + 1, acc);
            lemma_elements_sound(s, inside.1, inside.0);
        } else if s[i] == '"' || s[i] == '\'' {
            if let Some(e) = string_close(s, i, false) {
                lemma_ordered_push(acc, prose(i + 1, e), 0, i, e + 1);
            }
        } else {
            lemma_number_bounds(s, i);
        }
    }
}

/// The members of an object that are read end after their first character
/// and inside the text, and their spans are in order.
pub proof fn lemma_members_sound(s: Seq<char>, i: int, acc: Seq<Span>)
    requires
        0 <= i <= s.len() <= usize::MAX,
        ordered(acc, 0, i),
    ensures
        members(s, i, acc).sound(i, s.len() as int),
    decreases s.len() - i, 1int,
{
    if !at(s, i, '}') {
        if let Some(key_end) = key_end(s, i) {
            lemma_run_bounds(s, i, Class::Key);
            lemma_trivia_sound(s, key_end, acc);
            let colon = after_trivia(s, key_end, acc);
            if at(s, colon.1, ':') {
                lemma_trivia_sound(s, colon.1 + 1, colon.0);
                let start = after_trivia(s, colon.1 + 1, colon.0);
                lemma_value_sound(s, start.1, start.0);
                if let Parsed::Good { spans, next } = value(s, start.1, start.0).after(
                    start.1,
                    s.len() as int,
                ) {
                    lemma_trivia_sound(s, next, spans);
                    let then = after_trivia(s, next, spans);
                    if at(s, then.1, ',') {
                        lemma_trivia_sound(s, then.1 + 1, then.0);
                        let more = after_trivia(s, then.1 + 1, then.0);
                        lemma_members_sound(s, more.1, more.0);
                    }
                }
            }
        }
    }
}

/// The elements of an array that are read end after their first character
/// and inside the text, and their spans are in order.
pub proof fn lemma_elements_sound(s: Seq<char>, i: int, acc: Seq<Span>)
    requires
        0 <= i <= s.len() <= usize::MAX,
        ordered(acc, 0, i),
    ensures
        elements(s, i, acc).sound(i, s.len() as int),
    decreases s.len() - i, 1int,
{
    if !at(s, i, ']') && i < s.len() {
        lemma_value_sound(s, i, acc);
        if let Parsed::Good { spans, next } = value(s, i, acc).after(i, s.len() as int) {
            lemma_trivia_sound(s, next, spans);
            let then = after_trivia(s, next, spans);
            if at(s, then.1, ',') {
                lemma_trivia_sound(s, then.1 + 1, then.0);
                let more = after_trivia(s, then.1 + 1, then.0);
                lemma_elements_sound(s, more.1, more.0);
            }
        }
    }
}

/// The spans of a document that is read are in order.
pub proof fn lemma_document_ordered(s: Seq<char>)
    requires
        s.len() <= usize::MAX,
    ensures
        document(s) matches Parsed::Good { spans, next } ==> ordered(spans, 0, s.len() as int),
{
    lemma_trivia_sound(s, 0, Seq::empty());
    let start = after_trivia(s, 0, Seq::empty());
    lemma_value_sound(s, start.1, start.0);
    if let Parsed::Good { spans, next } = value(s, start.1, start.0) {
        lemma_trivia_sound(s, next, spans);
    }
}

/// The document `s` with its prose spaced, where it is a JSON5 document.
pub open spec fn output(s: Seq<char>) -> Option<Seq<char>> {
    match document(s) {
        Parsed::Good { spans, next } => Some(respaced(s, spans)),
        Parsed::Bad { at } => None,
    }
}

/// Skips blanks and comments from index `i` on and appends the bodies of
/// the comments to `spans`.
pub(crate) fn skip_trivia(s: &Vec<char>, i: usize, spans: &mut Vec<Span>) -> (e: usize)
    requires
        i <= s.len(),
        ordered(old(spans)@, 0, i as int),
    ensures
        after_trivia(s@, i as int, old(spans)@) == (final(spans)@, e as int),
        i <= e <= s.len(),
        ordered(final(spans)@, 0, e as int),
{
    let mut j: usize = i;
    loop
        invariant
            i <= j <= s.len(),
            ordered(spans@, 0, j as int),
            trivia(s@, i as int, old(spans)@) == trivia(s@, j as int, spans@),
        decreases s.len() - j,
    {
        if j >= s.len() {
            return j;
        }
        if blank(s[j]) {
            j += 1;
        } else if let Some(e) = find_line_comment_end(s, j) {
            spans.push(Span { kind: Kind::Prose, start: j + 2, end: e });
            j = e;
        } else if let Some(e) = find_block_comment_close(s, j) {
            spans.push(Span { kind: Kind::Prose, start: j + 2, end: e });
            j = e + 2;
        } else {
            return j;
        }
    }
}

/// Finds the end of the key that starts at index `i`.
pub fn scan_key(s: &Vec<char>, i: usize) -> (r: Option<usize>)
    ensures
        match r {
            Some(e) => key_end(s@, i as int) == Some(e as int) && i < e <= s.len(),
            None => key_end(s@, i as int) is None,
        },
{
    if let Some(close) = find_string_close(s, i, false) {
        return Some(close + 1);
    }
    if i >= s.len() {
        return None;
    }
    let e = skip_class(s, i, Class::Key);
    if i < e && !digit(s[i]) {
        Some(e)
    } else {
        None
    }
}

/// Finds the end of the number that starts at index `i`.
pub(crate) fn scan_number(s: &Vec<char>, i: usize) -> (r: Option<usize>)
    requires
        i <= s.len(),
    ensures
        match r {
            Some(e) => number_end(s@, i as int) == Some(e as int) && i < e <= s.len(),
            None => number_end(s@, i as int) is None,
        },
{
    let start = if i < s.len() && (s[i] == '+' || s[i] == '-') {
        i + 1
    } else {
        i
    };
    let word_i = ['I', 'n', 'f', 'i', 'n', 'i', 't', 'y'];
    let word_n = ['N', 'a', 'N'];
    assert(word_i@ =~= word_infinity());
    assert(word_n@ =~= word_nan());
    if matches_at(s, start, word_i.as_slice()) {
        return Some(start + 8);
    }
    if matches_at(s, start, word_n.as_slice()) {
        return Some(start + 3);
    }
    if start < s.len() && s[start] == '0' && start + 1 < s.len() && (s[start + 1] == 'x' || s[start
        + 1] == 'X') {
        let hex = skip_class(s, start + 2, Class::Hex);
        if hex > start + 2 {
            return Some(hex);
        }
    }
    let whole = skip_digit_run(s, start);
    let fraction = if whole < s.len() && s[whole] == '.' {
        skip_digit_run(s, whole + 1)
    } else {
        whole
    };
    if fraction == start || (fraction == start + 1 && start < s.len() && s[start] == '.') {
        return None;
    }
    if fraction < s.len() && (s[fraction] == 'e' || s[fraction] == 'E') {
        let sign = if fraction + 1 < s.len() && (s[fraction + 1] == '+' || s[fraction + 1]
            == '-') {
            fraction + 2
        } else {
            fraction + 1
        };
        if sign < s.len() && digit(s[sign]) {
            return Some(skip_digit_run(s, sign));
        }
    }
    Some(fraction)
}

/// Reads the value that starts at index `i` and appends its prose spans
/// to `spans`.
pub(crate) fn parse_value(s: &Vec<char>, i: usize, spans: &mut Vec<Span>) -> (r: Result<
    usize,
    usize,
>)
    requires
        i <= s.len(),
        ordered(old(spans)@, 0, i as int),
    ensures
        match r {
            Ok(next) => value(s@, i as int, old(spans)@) == (Parsed::Good {
                spans: final(spans)@,
                next: next as int,
            }) && i < next <= s.len() && ordered(final(spans)@, 0, next as int),
            Err(at) => value(s@, i as int, old(spans)@) == (Parsed::Bad { at: at as int }),
        },
    decreases s.len() - i, 0int,
{
    if i >= s.len() {
        return Err(i);
    }
    let c = s[i];
    if c == '{' {
        let j = skip_trivia(s, i + 1, spans);
        parse_members(s, j, spans)
    } else if c == '[' {
        let j = skip_trivia(s, i + 1, spans);
        parse_elements(s, j, spans)
    } else if c == '"' || c == '\'' {
        match find_string_close(s, i, false) {
            Some(e) => {
                spans.push(Span { kind: Kind::Prose, start: i + 1, end: e });
                Ok(e + 1)
            },
            None => Err(i),
        }
    } else {
        let word_t = ['t', 'r', 'u', 'e'];
        let word_f = ['f', 'a', 'l', 's', 'e'];
        let word_n = ['n', 'u', 'l', 'l'];
        assert(word_t@ =~= word_true());
        assert(word_f@ =~= word_false());
        assert(word_n@ =~= word_null());
        if matches_at(s, i, word_t.as_slice()) {
            Ok(i + 4)
        } else if matches_at(s, i, word_f.as_slice()) {
            Ok(i + 5)
        } else if matches_at(s, i, word_n.as_slice()) {
            Ok(i + 4)
        } else {
            match scan_number(s, i) {
                Some(e) => Ok(e),
                None => Err(i),
            }
        }
    }
}

/// Reads the members of an object from index `i` on, through the closing
/// brace, and appends their prose spans to `spans`.
pub(crate) fn parse_members(s: &Vec<char>, i: usize, spans: &mut Vec<Span>) -> (r: Result<
    usize,
    usize,
>)
    requires
        i <= s.len(),
        ordered(old(spans)@, 0, i as int),
    ensures
        match r {
            Ok(next) => members(s@, i as int, old(spans)@) == (Parsed::Good {
                spans: final(spans)@,
                next: next as int,
            }) && i < next <= s.len() && ordered(final(spans)@, 0, next as int),
            Err(at) => members(s@, i as int, old(spans)@) == (Parsed::Bad { at: at as int }),
        },
    decreases s.len() - i, 1int,
{
    let mut k: usize = i;
    loop
        invariant
            i <= k <= s.len(),
            ordered(spans@, 0, k as int),
            members(s@, i as int, old(spans)@) == members(s@, k as int, spans@),
        decreases s.len() - k,
    {
        if k < s.len() && s[k] == '}' {
            return Ok(k + 1);
        }
        let key_end = match scan_key(s, k) {
            Some(e) => e,
            None => {
                return Err(k);
            },
        };
        let colon = skip_trivia(s, key_end, spans);
        if !(colon < s.len() && s[colon] == ':') {
            return Err(colon);
        }
        let start = skip_trivia(s, colon + 1, spans);
        let next = match parse_value(s, start, spans) {
            Ok(next) => next,
            Err(at) => {
                return Err(at);
            },
        };
        let j = skip_trivia(s, next, spans);
        if j < s.len() && s[j] == '}' {
            return Ok(j + 1);
        } else if j < s.len() && s[j] == ',' {
            k = skip_trivia(s, j + 1, spans);
        } else {
            return Err(j);
        }
    }
}

/// Reads the elements of an array from index `i` on, through the closing
/// bracket, and appends their prose spans to `spans`.
pub(crate) fn parse_elements(s: &Vec<char>, i: usize, spans: &mut Vec<Span>) -> (r: Result<
    usize,
    usize,
>)
    requires
        i <= s.len(),
        ordered(old(spans)@, 0, i as int),
    ensures
        match r {
            Ok(next) => elements(s@, i as int, old(spans)@) == (Parsed::Good {
                spans: final(spans)@,
                next: next as int,
            }) && i < next <= s.len() && ordered(final(spans)@, 0, next as int),
            Err(at) => elements(s@, i as int, old(spans)@) == (Parsed::Bad { at: at as int }),
        },
    decreases s.len() - i, 1int,
{
    let mut k: usize = i;
    loop
        invariant
            i <= k <= s.len(),
            ordered(spans@, 0, k as int),
            elements(s@, i as int, old(spans)@) == elements(s@, k as int, spans@),
        decreases s.len() - k,
    {
        if k >= s.len() {
            return Err(k);
        }
        if s[k] == ']' {
            return Ok(k + 1);
        }
        let next = match parse_value(s, k, spans) {
            Ok(next) => next,
            Err(at) => {
                return Err(at);
            },
        };
        let j = skip_trivia(s, next, spans);
        if j < s.len() && s[j] == ']' {
            return Ok(j + 1);
        } else if j < s.len() && s[j] == ',' {
            k = skip_trivia(s, j + 1, spans);
        } else {
            return Err(j);
        }
    }
}

/// Reads a whole document and gives its prose spans, or the index at which
/// it stops being JSON5.
pub fn parse(s: &Vec<char>) -> (r: Result<Vec<Span>, usize>)
    ensures
        match r {
            Ok(spans) => document(s@) == (Parsed::Good { spans: spans@, next: s@.len() as int })
                && ordered(spans@, 0, s@.len() as int),
            Err(at) => document(s@) == (Parsed::Bad { at: at as int }),
        },
{
    let mut spans: Vec<Span> = Vec::new();
    let start = skip_trivia(s, 0, &mut spans);
    match parse_value(s, start, &mut spans) {
        Err(at) => Err(at),
        Ok(next) => {
            let end = skip_trivia(s, next, &mut spans);
            if end == s.len() {
                Ok(spans)
            } else {
                Err(end)
            }
        },
    }
}

/// Spaces the string values and the comments of a JSON5 document. A text
/// that is not a JSON5 document is refused, with the index at which it
/// stopped being one.
pub fn process(input: &str) -> (r: Result<String, ParseError>)
    ensures
        match r {
            Ok(out) => output(input@) == Some(out@),
            Err(ParseError::Syntax { format, offset }) => format == Format::Json5 && document(
                input@,
            ) == (Parsed::Bad { at: offset as int }),
        },
{
    let s = to_chars(input);
    match parse(&s) {
        Ok(spans) => {
            let out = respace(&s, &spans);
            Ok(to_text(&out))
        },
        Err(at) => Err(ParseError::Syntax { format: Format::Json5, offset: at }),
    }
}

} // verus!
