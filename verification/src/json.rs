//! The JSON walker: string values are prose; keys, numbers, literals and
//! punctuation are structure. A text that is not one JSON value is
//! refused.

use crate::error::{Format, ParseError};
use crate::lex::{
    after_blanks, after_digits, at, digit, hex_digit, is_digit, is_hex_digit, lemma_run_bounds,
    matches_at, prose, skip_blanks, skip_digit_run, starts_with_at, Class, Parsed,
};
use crate::text::{to_chars, to_text};
use crate::walker::{lemma_ordered_push, ordered, respace, respaced, Kind, Span};
use vstd::prelude::*;

verus! {

/// Whether `c` may follow a backslash in a string, `u` aside.
pub open spec fn is_escape(c: char) -> bool {
    c == '"' || c == '\\' || c == '/' || c == 'b' || c == 'f' || c == 'n' || c == 'r' || c == 't'
}

/// The index after the quote that closes a string whose body is read
/// from `j` on. A backslash is followed by one of `" \ / b f n r t`, or by
/// `u` and four hexadecimal digits.
pub open spec fn string_body_end(s: Seq<char>, j: int) -> Option<int>
    decreases s.len() - j,
{
    if j < 0 || j >= s.len() {
        None
    } else if s[j] == '"' {
        Some(j + 1)
    } else if s[j] == '\\' {
        if at(s, j + 1, 'u') {
            if j + 5 < s.len() && is_hex_digit(s[j + 2]) && is_hex_digit(s[j + 3])
                && is_hex_digit(s[j + 4]) && is_hex_digit(s[j + 5]) {
                string_body_end(s, j + 6)
            } else {
                None
            }
        } else if j + 1 < s.len() && is_escape(s[j + 1]) {
            string_body_end(s, j + 2)
        } else {
            None
        }
    } else {
        string_body_end(s, j + 1)
    }
}

/// The index after a string that a double quote opens at index `i`.
pub open spec fn string_end(s: Seq<char>, i: int) -> Option<int> {
    let e = string_body_end(s, i + 1);
    if at(s, i, '"') && e is Some && i + 1 < e->0 <= s.len() {
        e
    } else {
        None
    }
}

/// The index after a number that starts at index `i`: an optional minus
/// sign, then `0` or a run of digits that does not start with `0`, then
/// optionally a point with digits after it, then optionally an exponent.
pub open spec fn number_end(s: Seq<char>, i: int) -> Option<int> {
    let start = if at(s, i, '-') {
        i + 1
    } else {
        i
    };
    if 0 <= start < s.len() && is_digit(s[start]) {
        let whole = if s[start] == '0' {
            start + 1
        } else {
            after_digits(s, start)
        };
        let fraction = if at(s, whole, '.') && whole + 1 < s.len() && is_digit(s[whole + 1]) {
            after_digits(s, whole + 1)
        } else {
            whole
        };
        let sign = if at(s, fraction + 1, '+') || at(s, fraction + 1, '-') {
            fraction + 2
        } else {
            fraction + 1
        };
        if (at(s, fraction, 'e') || at(s, fraction, 'E')) && 0 <= sign < s.len() && is_digit(
            s[sign],
        ) {
            Some(after_digits(s, sign))
        } else {
            Some(fraction)
        }
    } else {
        None
    }
}

/// The word `true`.
pub open spec fn word_true() -> Seq<char> {
    seq!['t', 'r', 'u', 'e']
}

/// The word `false`.
pub open spec fn word_false() -> Seq<char> {
    seq!['f', 'a', 'l', 's', 'e']
}

/// The word `null`.
pub open spec fn word_null() -> Seq<char> {
    seq!['n', 'u', 'l', 'l']
}

/// Reads the value that starts at index `i`: an object, an array, a
/// string, a number or one of `true`, `false`, `null`. A string value is
/// prose, quotes included.
pub open spec fn value(s: Seq<char>, i: int, acc: Seq<Span>) -> Parsed
    decreases s.len() - i, 0int,
{
    if i < 0 || i >= s.len() {
        Parsed::Bad { at: i }
    } else if s[i] == '{' {
        let j = after_blanks(s, i + 1);
        if at(s, j, '}') {
            Parsed::Good { spans: acc, next: j + 1 }
        } else {
            members(s, j, acc)
        }
    } else if s[i] == '[' {
        let j = after_blanks(s, i + 1);
        if at(s, j, ']') {
            Parsed::Good { spans: acc, next: j + 1 }
        } else {
            elements(s, j, acc)
        }
    } else if s[i] == '"' {
        match string_end(s, i) {
            Some(e) => Parsed::Good { spans: acc.push(prose(i, e)), next: e },
            None => Parsed::Bad { at: i },
        }
    } else if starts_with_at(s, i, word_true()) {
        Parsed::Good { spans: acc, next: i + 4 }
    } else if starts_with_at(s, i, word_false()) {
        Parsed::Good { spans: acc, next: i + 5 }
    } else if starts_with_at(s, i, word_null()) {
        Parsed::Good { spans: acc, next: i + 4 }
    } else {
        match number_end(s, i) {
            Some(e) => Parsed::Good { spans: acc, next: e },
            None => Parsed::Bad { at: i },
        }
    }
}

/// Reads the members of an object from index `i` on, up to and including
/// the closing brace: a key, a colon and a value, then a comma and more
/// members, or the brace. A key is a string and is structure.
pub open spec fn members(s: Seq<char>, i: int, acc: Seq<Span>) -> Parsed
    decreases s.len() - i, 1int,
{
    match string_end(s, i) {
        None => Parsed::Bad { at: i },
        Some(key_end) => {
            let colon = after_blanks(s, key_end);
            if !at(s, colon, ':') {
                Parsed::Bad { at: colon }
            } else {
                let start = after_blanks(s, colon + 1);
                match value(s, start, acc).after(start, s.len() as int) {
                    Parsed::Bad { at } => Parsed::Bad { at },
                    Parsed::Good { spans, next } => {
                        let j = after_blanks(s, next);
                        if at(s, j, '}') {
                            Parsed::Good { spans, next: j + 1 }
                        } else if at(s, j, ',') {
                            members(s, after_blanks(s, j + 1), spans)
                        } else {
                            Parsed::Bad { at: j }
                        }
                    },
                }
            }
        },
    }
}

/// Reads the elements of an array from index `i` on, up to and including
/// the closing bracket: a value, then a comma and more elements, or the
/// bracket.
pub open spec fn elements(s: Seq<char>, i: int, acc: Seq<Span>) -> Parsed
    decreases s.len() - i, 1int,
{
    if i < 0 || i >= s.len() {
        Parsed::Bad { at: i }
    } else {
        match value(s, i, acc).after(i, s.len() as int) {
            Parsed::Bad { at } => Parsed::Bad { at },
            Parsed::Good { spans, next } => {
                let j = after_blanks(s, next);
                if at(s, j, ']') {
                    Parsed::Good { spans, next: j + 1 }
                } else if at(s, j, ',') {
                    elements(s, after_blanks(s, j + 1), spans)
                } else {
                    Parsed::Bad { at: j }
                }
            },
        }
    }
}

/// Reads the document `s`: blanks, one value, blanks, and nothing more.
pub open spec fn document(s: Seq<char>) -> Parsed {
    let start = after_blanks(s, 0);
    match value(s, start, Seq::empty()) {
        Parsed::Bad { at } => Parsed::Bad { at },
        Parsed::Good { spans, next } => {
            let end = after_blanks(s, next);
            if end == s.len() {
                Parsed::Good { spans, next: end }
            } else {
                Parsed::Bad { at: end }
            }
        },
    }
}

/// A number ends after its first character and inside the text.
pub proof fn lemma_number_bounds(s: Seq<char>, i: int)
    requires
        0 <= i <= s.len(),
    ensures
        number_end(s, i) matches Some(e) ==> i < e <= s.len(),
{
    let start = if at(s, i, '-') {
        i + 1
    } else {
        i
    };
    if 0 <= start < s.len() && is_digit(s[start]) {
        lemma_run_bounds(s, start, Class::Digit);
        let whole = if s[start] == '0' {
            start + 1
        } else {
            after_digits(s, start)
        };
        if whole + 1 <= s.len() {
            lemma_run_bounds(s, whole + 1, Class::Digit);
        }
        let fraction = if at(s, whole, '.') && whole + 1 < s.len() && is_digit(s[whole + 1]) {
            after_digits(s, whole + 1)
        } else {
            whole
        };
        let sign = if at(s, fraction + 1, '+') || at(s, fraction + 1, '-') {
            fraction + 2
        } else {
            fraction + 1
        };
        if 0 <= sign <= s.len() {
            lemma_run_bounds(s, sign, Class::Digit);
        }
    }
}

/// A value that is read ends after its first character and inside the
/// text, and its spans are in order.
pub proof fn lemma_value_sound(s: Seq<char>, i: int, acc: Seq<Span>)
    requires
        0 <= i <= s.len() <= usize::MAX,
        ordered(acc, 0, i),
    ensures
        value(s, i, acc).sound(i, s.len() as int),
    decreases s.len() - i, 0int,
{
    if i < s.len() {
        if s[i] == '{' {
            let j = after_blanks(s, i + 1);
            lemma_run_bounds(s, i + 1, Class::Blank);
            if !at(s, j, '}') {
                lemma_members_sound(s, j, acc);
            }
        } else if s[i] == '[' {
            let j = after_blanks(s, i + 1);
            lemma_run_bounds(s, i + 1, Class::Blank);
            if !at(s, j, ']') {
                lemma_elements_sound(s, j, acc);
            }
        } else if s[i] == '"' {
            if let Some(e) = string_end(s, i) {
                lemma_ordered_push(acc, prose(i, e), 0, i, e);
            }
        } else {
            lemma_number_bounds(s, i);
        }
    }
}

/// The members of an object that are read end after their first character
/// and inside the text, and their spans are in order.
pub proof fn lemma_members_sound(s: Seq<char>, i: int, acc: Seq<Span>)
    requires
        0 <= i <= s.len() <= usize::MAX,
        ordered(acc, 0, i),
    ensures
        members(s, i, acc).sound(i, s.len() as int),
    decreases s.len() - i, 1int,
{
    if let Some(key_end) = string_end(s, i) {
        let colon = after_blanks(s, key_end);
        lemma_run_bounds(s, key_end, Class::Blank);
        if at(s, colon, ':') {
            let start = after_blanks(s, colon + 1);
            lemma_run_bounds(s, colon + 1, Class::Blank);
            lemma_value_sound(s, start, acc);
            let read = value(s, start, acc).after(start, s.len() as int);
            if let Parsed::Good { spans, next } = read {
                let j = after_blanks(s, next);
                lemma_run_bounds(s, next, Class::Blank);
                if at(s, j, ',') {
                    lemma_run_bounds(s, j + 1, Class::Blank);
                    lemma_members_sound(s, after_blanks(s, j + 1), spans);
                }
            }
        }
    }
}

/// The elements of an array that are read end after their first character
/// and inside the text, and their spans are in order.
pub proof fn lemma_elements_sound(s: Seq<char>, i: int, acc: Seq<Span>)
    requires
        0 <= i <= s.len() <= usize::MAX,
        ordered(acc, 0, i),
    ensures
        elements(s, i, acc).sound(i, s.len() as int),
    decreases s.len() - i, 1int,
{
    if i < s.len() {
        lemma_value_sound(s, i, acc);
        if let Parsed::Good { spans, next } = value(s, i, acc).after(i, s.len() as int) {
            let j = after_blanks(s, next);
            lemma_run_bounds(s, next, Class::Blank);
            if at(s, j, ',') {
                lemma_run_bounds(s, j + 1, Class::Blank);
                lemma_elements_sound(s, after_blanks(s, j + 1), spans);
            }
        }
    }
}

/// The spans of a document that is read are in order.
pub proof fn lemma_document_ordered(s: Seq<char>)
    requires
        s.len() <= usize::MAX,
    ensures
        document(s) matches Parsed::Good { spans, next } ==> ordered(spans, 0, s.len() as int),
{
    lemma_run_bounds(s, 0, Class::Blank);
    lemma_value_sound(s, after_blanks(s, 0), Seq::empty());
}

/// The document `s` with its prose spaced, where it is a JSON document.
pub open spec fn output(s: Seq<char>) -> Option<Seq<char>> {
    match document(s) {
        Parsed::Good { spans, next } => Some(respaced(s, spans)),
        Parsed::Bad { at } => None,
    }
}

fn escape(c: char) -> (b: bool)
    ensures
        b == is_escape(c),
{
    c == '"' || c == '\\' || c == '/' || c == 'b' || c == 'f' || c == 'n' || c == 'r' || c == 't'
}

/// Finds the end of the string that opens at index `i`.
pub fn scan_string(s: &Vec<char>, i: usize) -> (r: Option<usize>)
    ensures
        match r {
            Some(e) => string_end(s@, i as int) == Some(e as int) && i + 1 < e <= s.len(),
            None => string_end(s@, i as int) is None,
        },
{
    if !(i < s.len() && s[i] == '"') {
        return None;
    }
    let mut j: usize = i + 1;
    while j < s.len()
        invariant
            i < j,
            i < s.len(),
            s@[i as int] == '"',
            string_body_end(s@, i + 1) == string_body_end(s@, j as int),
        decreases s.len() - j,
    {
        let c = s[j];
        if c == '"' {
            return Some(j + 1);
        } else if c == '\\' {
            if j + 1 < s.len() && s[j + 1] == 'u' {
                if s.len() - j > 5 && hex_digit(s[j + 2]) && hex_digit(s[j + 3]) && hex_digit(
                    s[j + 4],
                ) && hex_digit(s[j + 5]) {
                    j += 6;
                } else {
                    return None;
                }
            } else if j + 1 < s.len() && escape(s[j + 1]) {
                j += 2;
            } else {
                return None;
            }
        } else {
            j += 1;
        }
    }
    None
}

/// Finds the end of the number that starts at index `i`.
pub fn scan_number(s: &Vec<char>, i: usize) -> (r: Option<usize>)
    ensures
        match r {
            Some(e) => number_end(s@, i as int) == Some(e as int) && i < e <= s.len(),
            None => number_end(s@, i as int) is None,
        },
{
    let start = if i < s.len() && s[i] == '-' {
        i + 1
    } else {
        i
    };
    if !(start < s.len() && digit(s[start])) {
        return None;
    }
    let whole = if s[start] == '0' {
        start + 1
    } else {
        skip_digit_run(s, start)
    };
    let fraction = if whole < s.len() && s[whole] == '.' && whole + 1 < s.len() && digit(
        s[whole + 1],
    ) {
        skip_digit_run(s, whole + 1)
    } else {
        whole
    };
    if fraction < s.len() && (s[fraction] == 'e' || s[fraction] == 'E') {
        let sign = if fraction + 1 < s.len() && (s[fraction + 1] == '+' || s[fraction + 1]
            == '-') {
            fraction + 2
        } else {
            fraction + 1
        };
        if sign < s.len() && digit(s[sign]) {
            return Some(skip_digit_run(s, sign));
        }
    }
    Some(fraction)
}

/// Reads the value that starts at index `i` and appends its prose spans
/// to `spans`.
pub(crate) fn parse_value(s: &Vec<char>, i: usize, spans: &mut Vec<Span>) -> (r: Result<
    usize,
    usize,
>)
    requires
        i <= s.len(),
        ordered(old(spans)@, 0, i as int),
    ensures
        match r {
            Ok(next) => value(s@, i as int, old(spans)@) == (Parsed::Good {
                spans: final(spans)@,
                next: next as int,
            }) && i < next <= s.len() && ordered(final(spans)@, 0, next as int),
            Err(at) => value(s@, i as int, old(spans)@) == (Parsed::Bad { at: at as int }),
        },
    decreases s.len() - i, 0int,
{
    if i >= s.len() {
        return Err(i);
    }
    let c = s[i];
    if c == '{' {
        let j = skip_blanks(s, i + 1);
        if j < s.len() && s[j] == '}' {
            Ok(j + 1)
        } else {
            parse_members(s, j, spans)
        }
    } else if c == '[' {
        let j = skip_blanks(s, i + 1);
        if j < s.len() && s[j] == ']' {
            Ok(j + 1)
        } else {
            parse_elements(s, j, spans)
        }
    } else if c == '"' {
        match scan_string(s, i) {
            Some(e) => {
                spans.push(Span { kind: Kind::Prose, start: i, end: e });
                Ok(e)
            },
            None => Err(i),
        }
    } else {
        let word_t = ['t', 'r', 'u', 'e'];
        let word_f = ['f', 'a', 'l', 's', 'e'];
        let word_n = ['n', 'u', 'l', 'l'];
        assert(word_t@ =~= word_true());
        assert(word_f@ =~= word_false());
        assert(word_n@ =~= word_null());
        if matches_at(s, i, word_t.as_slice()) {
            Ok(i + 4)
        } else if matches_at(s, i, word_f.as_slice()) {
            Ok(i + 5)
        } else if matches_at(s, i, word_n.as_slice()) {
            Ok(i + 4)
        } else {
            match scan_number(s, i) {
                Some(e) => Ok(e),
                None => Err(i),
            }
        }
    }
}

/// Reads the members of an object from index `i` on, through the closing
/// brace, and appends their prose spans to `spans`.
pub(crate) fn parse_members(s: &Vec<char>, i: usize, spans: &mut Vec<Span>) -> (r: Result<
    usize,
    usize,
>)
    requires
        i <= s.len(),
        ordered(old(spans)@, 0, i as int),
    ensures
        match r {
            Ok(next) => members(s@, i as int, old(spans)@) == (Parsed::Good {
                spans: final(spans)@,
                next: next as int,
            }) && i < next <= s.len() && ordered(final(spans)@, 0, next as int),
            Err(at) => members(s@, i as int, old(spans)@) == (Parsed::Bad { at: at as int }),
        },
    decreases s.len() - i, 1int,
{
    let mut k: usize = i;
    loop
        invariant
            i <= k <= s.len(),
            ordered(spans@, 0, k as int),
            members(s@, i as int, old(spans)@) == members(s@, k as int, spans@),
        decreases s.len() - k,
    {
        let key_end = match scan_string(s, k) {
            Some(e) => e,
            None => {
                return Err(k);
            },
        };
        let colon = skip_blanks(s, key_end);
        if !(colon < s.len() && s[colon] == ':') {
            return Err(colon);
        }
        let start = skip_blanks(s, colon + 1);
        let next = match parse_value(s, start, spans) {
            Ok(next) => next,
            Err(at) => {
                return Err(at);
            },
        };
        let j = skip_blanks(s, next);
        if j < s.len() && s[j] == '}' {
            return Ok(j + 1);
        } else if j < s.len() && s[j] == ',' {
            k = skip_blanks(s, j + 1);
        } else {
            return Err(j);
        }
    }
}

/// Reads the elements of an array from index `i` on, through the closing
/// bracket, and appends their prose spans to `spans`.
pub(crate) fn parse_elements(s: &Vec<char>, i: usize, spans: &mut Vec<Span>) -> (r: Result<
    usize,
    usize,
>)
    requires
        i <= s.len(),
        ordered(old(spans)@, 0, i as int),
    ensures
        match r {
            Ok(next) => elements(s@, i as int, old(spans)@) == (Parsed::Good {
                spans: final(spans)@,
                next: next as int,
            }) && i < next <= s.len() && ordered(final(spans)@, 0, next as int),
            Err(at) => elements(s@, i as int, old(spans)@) == (Parsed::Bad { at: at as int }),
        },
    decreases s.len() - i, 1int,
{
    let mut k: usize = i;
    loop
        invariant
            i <= k <= s.len(),
            ordered(spans@, 0, k as int),
            elements(s@, i as int, old(spans)@) == elements(s@, k as int, spans@),
        decreases s.len() - k,
    {
        if k >= s.len() {
            return Err(k);
        }
        let next = match parse_value(s, k, spans) {
            Ok(next) => next,
            Err(at) => {
                return Err(at);
            },
        };
        let j = skip_blanks(s, next);
        if j < s.len() && s[j] == ']' {
            return Ok(j + 1);
        } else if j < s.len() && s[j] == ',' {
            k = skip_blanks(s, j + 1);
        } else {
            return Err(j);
        }
    }
}

/// Reads a whole document and gives its prose spans, or the index at which
/// it stops being JSON.
pub fn parse(s: &Vec<char>) -> (r: Result<Vec<Span>, usize>)
    ensures
        match r {
            Ok(spans) => document(s@) == (Parsed::Good { spans: spans@, next: s@.len() as int })
                && ordered(spans@, 0, s@.len() as int),
            Err(at) => document(s@) == (Parsed::Bad { at: at as int }),
        },
{
    let mut spans: Vec<Span> = Vec::new();
    let start = skip_blanks(s, 0);
    match parse_value(s, start, &mut spans) {
        Err(at) => Err(at),
        Ok(next) => {
            let end = skip_blanks(s, next);
            if end == s.len() {
                Ok(spans)
            } else {
                Err(end)
            }
        },
    }
}

/// Spaces the string values of a JSON document. A text that is not a JSON
/// document is refused, with the index at which it stopped being one.
pub fn process(input: &str) -> (r: Result<String, ParseError>)
    ensures
        match r {
            Ok(out) => output(input@) == Some(out@),
            Err(ParseError::Syntax { format, offset }) => format == Format::Json && document(
                input@,
            ) == (Parsed::Bad { at: offset as int }),
        },
{
    let s = to_chars(input);
    match parse(&s) {
        Ok(spans) => {
            let out = respace(&s, &spans);
            Ok(to_text(&out))
        },
        Err(at) => Err(ParseError::Syntax { format: Format::Json, offset: at }),
    }
}

} // verus!
