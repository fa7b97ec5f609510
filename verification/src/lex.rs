//! Scanning primitives that the grammars share: a character or a literal
//! at a position, the next occurrence of a literal, the end of a line, the
//! end of a quoted string.

use crate::walker::{ordered, Kind, Span};
use vstd::prelude::*;

verus! {

/// Whether the character at index `i` of `s` is `c`.
pub open spec fn at(s: Seq<char>, i: int, c: char) -> bool {
    0 <= i < s.len() && s[i] == c
}

/// Whether `pat` stands in `s` at index `i`.
pub open spec fn starts_with_at(s: Seq<char>, i: int, pat: Seq<char>) -> bool {
    0 <= i && i + pat.len() <= s.len() && s.subrange(i, i + pat.len()) == pat
}

/// The first index from `i` on at which `pat` stands in `s`.
pub open spec fn find(s: Seq<char>, i: int, pat: Seq<char>) -> Option<int>
    decreases s.len() - i + 1,
{
    if i < 0 || i + pat.len() > s.len() {
        None
    } else if starts_with_at(s, i, pat) {
        Some(i)
    } else {
        find(s, i + 1, pat)
    }
}

/// The index of the first line feed from `i` on, or the length of `s`
/// where there is none.
pub open spec fn line_end(s: Seq<char>, i: int) -> int
    decreases s.len() - i,
{
    if i < 0 || i >= s.len() {
        s.len() as int
    } else if s[i] == '\n' {
        i
    } else {
        line_end(s, i + 1)
    }
}

/// The index of the quote `q` that closes a string whose first character
/// after the opening quote is at `i`. A backslash takes the character
/// after it along. Unless `multiline`, a line feed that no backslash
/// precedes ends the search without a result.
pub open spec fn closing_quote(s: Seq<char>, i: int, q: char, multiline: bool) -> Option<int>
    decreases s.len() - i + 1,
{
    if i < 0 || i >= s.len() {
        None
    } else if s[i] == q {
        Some(i)
    } else if s[i] == '\\' {
        closing_quote(s, i + 2, q, multiline)
    } else if s[i] == '\n' && !multiline {
        None
    } else {
        closing_quote(s, i + 1, q, multiline)
    }
}

/// The literal that closes a block comment.
pub open spec fn comment_close() -> Seq<char> {
    seq!['*', '/']
}

/// The index of the `*/` that closes a block comment opened by a `/*` at
/// index `i`.
pub open spec fn block_comment_close(s: Seq<char>, i: int) -> Option<int> {
    let close = find(s, i + 2, comment_close());
    if at(s, i, '/') && at(s, i + 1, '*') && close is Some && i + 2 <= close->0 && close->0 + 2
        <= s.len() {
        close
    } else {
        None
    }
}

/// The end of a line comment opened by a `//` at index `i`: the index of
/// the line feed that ends the line, or the length of `s`.
pub open spec fn line_comment_end(s: Seq<char>, i: int) -> Option<int> {
    let e = line_end(s, i + 2);
    if at(s, i, '/') && at(s, i + 1, '/') && i + 2 <= e <= s.len() {
        Some(e)
    } else {
        None
    }
}

/// A prose span from `start` to `end`.
pub open spec fn prose(start: int, end: int) -> Span {
    Span { kind: Kind::Prose, start: start as usize, end: end as usize }
}

/// The index of the quote that closes a string opened by a quote, single
/// or double, at index `i`.
pub open spec fn string_close(s: Seq<char>, i: int, multiline: bool) -> Option<int> {
    if at(s, i, '"') || at(s, i, '\'') {
        let close = closing_quote(s, i + 1, s[i], multiline);
        if close is Some && i < close->0 < s.len() {
            close
        } else {
            None
        }
    } else {
        None
    }
}

/// Whether `c` is a blank, a tab, a carriage return or a line feed.
pub open spec fn is_blank(c: char) -> bool {
    c == ' ' || c == '\t' || c == '\r' || c == '\n'
}

/// Whether `c` is an ASCII letter.
pub open spec fn is_letter(c: char) -> bool {
    ('a' <= c && c <= 'z') || ('A' <= c && c <= 'Z')
}

/// Whether `c` is an ASCII digit.
pub open spec fn is_digit(c: char) -> bool {
    '0' <= c && c <= '9'
}

/// Whether `c` is an ASCII hexadecimal digit.
pub open spec fn is_hex_digit(c: char) -> bool {
    is_digit(c) || ('a' <= c && c <= 'f') || ('A' <= c && c <= 'F')
}

/// Whether `c` can stand inside an identifier: an ASCII letter, an ASCII
/// digit or an underscore.
pub open spec fn is_word(c: char) -> bool {
    is_letter(c) || is_digit(c) || c == '_'
}

/// The classes of characters of which the grammars read runs.
#[derive(Debug, Clone, Copy, PartialEq, Eq, Structural)]
pub enum Class {
    /// A blank, a tab, a carriage return or a line feed.
    Blank,
    /// A blank or a tab.
    Indent,
    /// An ASCII digit.
    Digit,
    /// An ASCII hexadecimal digit.
    Hex,
    /// A letter, a digit or an underscore.
    Word,
    /// What can stand in an unquoted key: a letter, a digit, `_`, `$` or
    /// any character outside ASCII.
    Key,
    /// A backtick.
    Tick,
    /// `#`.
    Hash,
    /// A blank, a tab or `>`: the marks of a block quote.
    QuoteMark,
    /// What can stand in the name of a tag after its first letter.
    Name,
    /// What can stand in the name of an attribute.
    Attribute,
    /// What can stand in an attribute value without quotes.
    Bare,
    /// What can stand between the `&` and the `;` of an entity.
    Entity,
}

impl Class {
    /// Whether `c` belongs to the class.
    pub open spec fn has(self, c: char) -> bool {
        match self {
            Class::Blank => is_blank(c),
            Class::Indent => c == ' ' || c == '\t',
            Class::Digit => is_digit(c),
            Class::Hex => is_hex_digit(c),
            Class::Word => is_word(c),
            Class::Key => is_word(c) || c == '$' || (c as u32) >= 0x80,
            Class::Tick => c == '`',
            Class::Hash => c == '#',
            Class::QuoteMark => c == ' ' || c == '\t' || c == '>',
            Class::Name => is_letter(c) || is_digit(c) || c == '-' || c == '_' || c == ':' || c
                == '.',
            Class::Attribute => !(is_blank(c) || c == '=' || c == '>' || c == '/' || c == '"' || c
                == '\'' || c == '<'),
            Class::Bare => !(is_blank(c) || c == '=' || c == '>' || c == '"' || c == '\'' || c
                == '<' || c == '`'),
            Class::Entity => is_letter(c) || is_digit(c) || c == '#',
        }
    }

    /// Tells whether `c` belongs to the class.
    pub fn holds(self, c: char) -> (b: bool)
        ensures
            b == self.has(c),
    {
        match self {
            Class::Blank => blank(c),
            Class::Indent => c == ' ' || c == '\t',
            Class::Digit => digit(c),
            Class::Hex => hex_digit(c),
            Class::Word => word(c),
            Class::Key => word(c) || c == '$' || (c as u32) >= 0x80,
            Class::Tick => c == '`',
            Class::Hash => c == '#',
            Class::QuoteMark => c == ' ' || c == '\t' || c == '>',
            Class::Name => letter(c) || digit(c) || c == '-' || c == '_' || c == ':' || c == '.',
            Class::Attribute => !(blank(c) || c == '=' || c == '>' || c == '/' || c == '"' || c
                == '\'' || c == '<'),
            Class::Bare => !(blank(c) || c == '=' || c == '>' || c == '"' || c == '\'' || c == '<'
                || c == '`'),
            Class::Entity => letter(c) || digit(c) || c == '#',
        }
    }
}

/// The first index from `i` on whose character is not of the class, or
/// the length of `s`.
pub open spec fn skip_run(s: Seq<char>, i: int, class: Class) -> int
    decreases s.len() - i,
{
    if i < 0 || i >= s.len() {
        s.len() as int
    } else if class.has(s[i]) {
        skip_run(s, i + 1, class)
    } else {
        i
    }
}

/// The end of the run of characters of the class that starts at index
/// `i`: `skip_run`, for an index `i` inside `s` or at its end.
pub open spec fn after_run(s: Seq<char>, i: int, class: Class) -> int {
    let e = skip_run(s, i, class);
    if i <= e <= s.len() {
        e
    } else {
        i
    }
}

/// A run that starts inside `s` or at its end ends there too, and is not
/// empty where its first character is of the class.
pub proof fn lemma_run_bounds(s: Seq<char>, i: int, class: Class)
    requires
        0 <= i <= s.len(),
    ensures
        after_run(s, i, class) == skip_run(s, i, class),
        i <= after_run(s, i, class) <= s.len(),
        i < s.len() && class.has(s[i]) ==> i < after_run(s, i, class),
    decreases s.len() - i,
{
    if i < s.len() && class.has(s[i]) {
        lemma_run_bounds(s, i + 1, class);
    }
}

/// The first index from `i` on whose character is not blank.
pub open spec fn after_blanks(s: Seq<char>, i: int) -> int {
    after_run(s, i, Class::Blank)
}

/// The first index from `i` on whose character is not an ASCII digit.
pub open spec fn after_digits(s: Seq<char>, i: int) -> int {
    after_run(s, i, Class::Digit)
}

/// The first index from `i` on whose character cannot stand inside an
/// identifier.
pub open spec fn after_word(s: Seq<char>, i: int) -> int {
    after_run(s, i, Class::Word)
}

/// The first index from `i` on whose character is neither a blank nor a
/// tab.
pub open spec fn after_indent(s: Seq<char>, i: int) -> int {
    after_run(s, i, Class::Indent)
}

/// The outcome of reading a construct of a grammar: the spans found so
/// far with the index after the construct, or the index at which the
/// text stopped following the grammar.
pub enum Parsed {
    Good { spans: Seq<Span>, next: int },
    Bad { at: int },
}

impl Parsed {
    /// Whether this outcome, where it is good, ends after `i` and inside
    /// a text of `len` characters, with spans in order up to its end.
    pub open spec fn sound(self, i: int, len: int) -> bool {
        match self {
            Parsed::Good { spans, next } => i < next <= len && ordered(spans, 0, next),
            Parsed::Bad { at } => true,
        }
    }

    /// This outcome, where it is good, held to end after `i` and inside a
    /// text of `len` characters.
    pub open spec fn after(self, i: int, len: int) -> Parsed {
        match self {
            Parsed::Good { spans, next } => if i < next <= len {
                self
            } else {
                Parsed::Bad { at: i }
            },
            Parsed::Bad { at } => self,
        }
    }
}

pub fn blank(c: char) -> (b: bool)
    ensures
        b == is_blank(c),
{
    c == ' ' || c == '\t' || c == '\r' || c == '\n'
}

pub fn letter(c: char) -> (b: bool)
    ensures
        b == is_letter(c),
{
    ('a' <= c && c <= 'z') || ('A' <= c && c <= 'Z')
}

pub fn digit(c: char) -> (b: bool)
    ensures
        b == is_digit(c),
{
    '0' <= c && c <= '9'
}

pub fn hex_digit(c: char) -> (b: bool)
    ensures
        b == is_hex_digit(c),
{
    digit(c) || ('a' <= c && c <= 'f') || ('A' <= c && c <= 'F')
}

pub fn word(c: char) -> (b: bool)
    ensures
        b == is_word(c),
{
    letter(c) || digit(c) || c == '_'
}

/// Tells whether `pat` stands in `s` at index `i`.
pub fn matches_at(s: &Vec<char>, i: usize, pat: &[char]) -> (b: bool)
    ensures
        b == starts_with_at(s@, i as int, pat@),
{
    if pat.len() > s.len() || i > s.len() - pat.len() {
        return false;
    }
    let mut k: usize = 0;
    while k < pat.len()
        invariant
            k <= pat.len(),
            i + pat.len() <= s.len(),
            forall|j: int| 0 <= j < k ==> s@[i + j] == pat@[j],
        decreases pat.len() - k,
    {
        if s[i + k] != pat[k] {
            assert(s@.subrange(i as int, i + pat.len())[k as int] != pat@[k as int]);
            return false;
        }
        k += 1;
    }
    assert(s@.subrange(i as int, i + pat.len()) =~= pat@);
    true
}

/// Searches `s` from `i` on for the first place at which `pat` stands.
pub fn find_at(s: &Vec<char>, i: usize, pat: &[char]) -> (r: Option<usize>)
    ensures
        match r {
            Some(j) => find(s@, i as int, pat@) == Some(j as int) && i <= j && j + pat.len()
                <= s.len(),
            None => find(s@, i as int, pat@) is None,
        },
{
    let mut j: usize = i;
    while j < s.len() && pat.len() <= s.len() - j
        invariant
            i <= j,
            find(s@, i as int, pat@) == find(s@, j as int, pat@),
        decreases s.len() - j,
    {
        if matches_at(s, j, pat) {
            return Some(j);
        }
        j += 1;
    }
    if j <= s.len() && pat.len() <= s.len() - j {
        if matches_at(s, j, pat) {
            return Some(j);
        }
        assert(find(s@, j + 1, pat@) is None);
    }
    None
}

/// Finds the end of the line that holds index `i`.
pub fn end_of_line(s: &Vec<char>, i: usize) -> (e: usize)
    ensures
        e == line_end(s@, i as int),
        i <= e <= s.len() || (i > s.len() && e == s.len()),
{
    let mut j: usize = i;
    while j < s.len() && s[j] != '\n'
        invariant
            i <= j,
            line_end(s@, i as int) == line_end(s@, j as int),
        decreases s.len() - j,
    {
        j += 1;
    }
    if j >= s.len() {
        s.len()
    } else {
        j
    }
}

/// Finds the quote that closes a string.
pub fn find_closing_quote(s: &Vec<char>, i: usize, q: char, multiline: bool) -> (r: Option<usize>)
    ensures
        match r {
            Some(j) => closing_quote(s@, i as int, q, multiline) == Some(j as int) && i <= j
                < s.len() && s@[j as int] == q,
            None => closing_quote(s@, i as int, q, multiline) is None,
        },
{
    let mut j: usize = i;
    while j < s.len()
        invariant
            i <= j,
            closing_quote(s@, i as int, q, multiline) == closing_quote(
                s@,
                j as int,
                q,
                multiline,
            ),
        decreases s.len() - j,
    {
        let c = s[j];
        if c == q {
            return Some(j);
        } else if c == '\\' {
            if j + 1 >= s.len() {
                assert(closing_quote(s@, j + 2, q, multiline) is None);
                return None;
            }
            j += 2;
        } else if c == '\n' && !multiline {
            return None;
        } else {
            j += 1;
        }
    }
    None
}

/// Looks for a block comment that opens at index `i` and gives the index
/// of the `*/` that closes it.
pub fn find_block_comment_close(s: &Vec<char>, i: usize) -> (r: Option<usize>)
    ensures
        match r {
            Some(e) => block_comment_close(s@, i as int) == Some(e as int) && i + 2 <= e && e + 2
                <= s.len(),
            None => block_comment_close(s@, i as int) is None,
        },
{
    if i < s.len() && s[i] == '/' && i + 1 < s.len() && s[i + 1] == '*' {
        let close = ['*', '/'];
        assert(close@ =~= comment_close());
        find_at(s, i + 2, close.as_slice())
    } else {
        None
    }
}

/// Looks for a line comment that opens at index `i` and gives its end.
pub fn find_line_comment_end(s: &Vec<char>, i: usize) -> (r: Option<usize>)
    ensures
        match r {
            Some(e) => line_comment_end(s@, i as int) == Some(e as int) && i + 2 <= e <= s.len(),
            None => line_comment_end(s@, i as int) is None,
        },
{
    if i < s.len() && s[i] == '/' && i + 1 < s.len() && s[i + 1] == '/' {
        Some(end_of_line(s, i + 2))
    } else {
        None
    }
}

/// Looks for a string that opens at index `i` and gives the index of the
/// quote that closes it.
pub fn find_string_close(s: &Vec<char>, i: usize, multiline: bool) -> (r: Option<usize>)
    ensures
        match r {
            Some(e) => string_close(s@, i as int, multiline) == Some(e as int) && i < e < s.len(),
            None => string_close(s@, i as int, multiline) is None,
        },
{
    if i < s.len() && (s[i] == '"' || s[i] == '\'') {
        find_closing_quote(s, i + 1, s[i], multiline)
    } else {
        None
    }
}

/// The first index from `i` on whose character is `c`.
pub open spec fn char_from(s: Seq<char>, i: int, c: char) -> Option<int>
    decreases s.len() - i,
{
    if i < 0 || i >= s.len() {
        None
    } else if s[i] == c {
        Some(i)
    } else {
        char_from(s, i + 1, c)
    }
}

/// `char_from`, held to lie from `i` on and inside `s`.
pub open spec fn next_char(s: Seq<char>, i: int, c: char) -> Option<int> {
    let found = char_from(s, i, c);
    if found is Some && i <= found->0 < s.len() {
        found
    } else {
        None
    }
}

/// `find`, held to lie from `i` on and to leave room for `pat`.
pub open spec fn next_literal(s: Seq<char>, i: int, pat: Seq<char>) -> Option<int> {
    let found = find(s, i, pat);
    if found is Some && i <= found->0 && found->0 + pat.len() <= s.len() {
        found
    } else {
        None
    }
}

/// Searches `s` from `i` on for the character `c`.
pub fn find_char(s: &Vec<char>, i: usize, c: char) -> (r: Option<usize>)
    ensures
        match r {
            Some(e) => next_char(s@, i as int, c) == Some(e as int) && i <= e < s.len(),
            None => next_char(s@, i as int, c) is None,
        },
{
    let mut j: usize = i;
    while j < s.len()
        invariant
            i <= j,
            char_from(s@, i as int, c) == char_from(s@, j as int, c),
        decreases s.len() - j,
    {
        if s[j] == c {
            return Some(j);
        }
        j += 1;
    }
    None
}

/// Searches `s` from `i` on for the literal `pat`.
pub fn find_literal(s: &Vec<char>, i: usize, pat: &[char]) -> (r: Option<usize>)
    ensures
        match r {
            Some(e) => next_literal(s@, i as int, pat@) == Some(e as int) && i <= e && e
                + pat.len() <= s.len(),
            None => next_literal(s@, i as int, pat@) is None,
        },
{
    find_at(s, i, pat)
}

/// Finds the end of the run of characters of the class that starts at
/// index `i`.
pub(crate) fn skip_class(s: &Vec<char>, i: usize, class: Class) -> (e: usize)
    requires
        i <= s.len(),
    ensures
        e == after_run(s@, i as int, class),
        i <= e <= s.len(),
        e > i <==> (i < s.len() && class.has(s@[i as int])),
{
    let mut j: usize = i;
    while j < s.len() && class.holds(s[j])
        invariant
            i <= j <= s.len(),
            skip_run(s@, i as int, class) == skip_run(s@, j as int, class),
            j > i ==> (i < s.len() && class.has(s@[i as int])),
        decreases s.len() - j,
    {
        j += 1;
    }
    j
}

/// Skips blanks from `i` on.
pub(crate) fn skip_blanks(s: &Vec<char>, i: usize) -> (e: usize)
    requires
        i <= s.len(),
    ensures
        e == after_blanks(s@, i as int),
        i <= e <= s.len(),
{
    skip_class(s, i, Class::Blank)
}

/// Skips ASCII digits from `i` on.
pub(crate) fn skip_digit_run(s: &Vec<char>, i: usize) -> (e: usize)
    requires
        i <= s.len(),
    ensures
        e == after_digits(s@, i as int),
        i <= e <= s.len(),
        e > i <==> (i < s.len() && is_digit(s@[i as int])),
{
    skip_class(s, i, Class::Digit)
}

/// Skips identifier characters from `i` on.
pub(crate) fn skip_word_run(s: &Vec<char>, i: usize) -> (e: usize)
    requires
        i <= s.len(),
    ensures
        e == after_word(s@, i as int),
        i <= e <= s.len(),
{
    skip_class(s, i, Class::Word)
}

/// Skips blanks and tabs from `i` on.
pub(crate) fn skip_indent_run(s: &Vec<char>, i: usize) -> (e: usize)
    requires
        i <= s.len(),
    ensures
        e == after_indent(s@, i as int),
        i <= e <= s.len(),
{
    skip_class(s, i, Class::Indent)
}

} // verus!
