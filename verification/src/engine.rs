//! The spacing decision: a single left-to-right scan that looks at each pair
//! of neighbouring characters and decides whether a space goes between them.

use crate::text::{to_chars, to_text};
use crate::width::{is_wide, CharWidth};
use vstd::prelude::*;

verus! {

/// Whether `c` has one of Unicode's general categories for numbers.
pub uninterp spec fn numeric_char(c: char) -> bool;

/// `char::is_numeric` tells whether the character belongs to one of the
/// Unicode general categories for numbers; the answer is named
/// `numeric_char`.
pub assume_specification[ char::is_numeric ](c: char) -> (b: bool)
    ensures
        b == numeric_char(c),
;

/// Full-width style punctuation after which no space is put before a
/// half-width character.
pub open spec fn closes_wide(c: char) -> bool {
    opens_wide(c) || c == '～' || c == '·' || c == '、'
}

/// Full-width style punctuation before which no space is put after a
/// half-width character.
pub open spec fn opens_wide(c: char) -> bool {
    c == '，' || c == '。' || c == '！' || c == '？' || c == '：' || c == '；' || c == '“'
        || c == '”' || c == '‘' || c == '’' || c == '《' || c == '》' || c == '【' || c == '】'
        || c == '（' || c == '）' || c == '—' || c == '…'
}

/// Half-width punctuation and control characters before which no space is
/// put after a full-width character.
pub open spec fn closes_narrow(c: char) -> bool {
    c == ',' || c == '.' || c == '!' || c == '?' || c == ':' || c == ';' || c == '"' || c == '\''
        || c == '\n' || c == '\r' || c == '\t' || c == '\\'
}

/// Half-width opening and wrapping symbols after which no space is put
/// before a full-width character.
pub open spec fn opens_narrow(c: char) -> bool {
    c == '"' || c == '\'' || c == '[' || c == '{' || c == '<' || c == '@' || c == '#' || c == '%'
        || c == '^' || c == '&' || c == '_' || c == '|' || c == '\\'
}

/// Whether a space is inserted between `prev` and `cur` when `cur` directly
/// follows `prev`.
///
/// Nothing is inserted after a space, nor between two characters of the
/// same width class. After a full-width character, a half-width one gets
/// a space before it unless it is a space or one of `closes_narrow`, the
/// full-width character is one of `closes_wide`, or a yen or euro sign
/// stands before a numeric character. After a half-width character, a
/// full-width one gets a space before it unless it is one of
/// `opens_wide`, or the half-width character is one of `opens_narrow`, a
/// dollar, yen or euro sign, or a line feed.
pub open spec fn needs_space(prev: char, cur: char) -> bool {
    if prev == ' ' {
        false
    } else if is_wide(prev) && !is_wide(cur) {
        cur != ' ' && !closes_wide(prev) && !closes_narrow(cur) && !((prev == '¥' || prev == '€')
            && numeric_char(cur))
    } else if !is_wide(prev) && is_wide(cur) {
        !opens_narrow(prev) && !opens_wide(cur) && !((prev == '$' || prev == '¥' || prev == '€')
            && !opens_wide(cur)) && prev != '\n'
    } else {
        false
    }
}

/// The text `s` with a space inserted between every pair of neighbours that
/// `needs_space` names.
pub open spec fn spaced(s: Seq<char>) -> Seq<char>
    decreases s.len(),
{
    if s.len() == 0 {
        s
    } else if s.len() == 1 {
        s
    } else {
        let head = spaced(s.drop_last());
        if needs_space(s[s.len() - 2], s.last()) {
            head.push(' ').push(s.last())
        } else {
            head.push(s.last())
        }
    }
}

fn is_opens_wide(c: char) -> (b: bool)
    ensures
        b == opens_wide(c),
{
    c == '，' || c == '。' || c == '！' || c == '？' || c == '：' || c == '；' || c == '“'
        || c == '”' || c == '‘' || c == '’' || c == '《' || c == '》' || c == '【' || c == '】'
        || c == '（' || c == '）' || c == '—' || c == '…'
}

fn is_closes_wide(c: char) -> (b: bool)
    ensures
        b == closes_wide(c),
{
    is_opens_wide(c) || c == '～' || c == '·' || c == '、'
}

fn is_closes_narrow(c: char) -> (b: bool)
    ensures
        b == closes_narrow(c),
{
    c == ',' || c == '.' || c == '!' || c == '?' || c == ':' || c == ';' || c == '"' || c == '\''
        || c == '\n' || c == '\r' || c == '\t' || c == '\\'
}

fn is_opens_narrow(c: char) -> (b: bool)
    ensures
        b == opens_narrow(c),
{
    c == '"' || c == '\'' || c == '[' || c == '{' || c == '<' || c == '@' || c == '#' || c == '%'
        || c == '^' || c == '&' || c == '_' || c == '|' || c == '\\'
}

/// Decides whether a space goes between `prev` and `cur`.
pub fn space_between(prev: char, cur: char) -> (b: bool)
    ensures
        b == needs_space(prev, cur),
{
    if prev == ' ' {
        return false;
    }
    let prev_width = CharWidth::from_char(prev);
    let cur_width = CharWidth::from_char(cur);
    if prev_width.is_full() && cur_width.is_half() {
        let currency_before_number = (prev == '¥' || prev == '€') && cur.is_numeric();
        cur != ' ' && !is_closes_wide(prev) && !is_closes_narrow(cur) && !currency_before_number
    } else if prev_width.is_half() && cur_width.is_full() {
        let currency_before_wide = (prev == '$' || prev == '¥' || prev == '€') && !is_opens_wide(
            cur,
        );
        !is_opens_narrow(prev) && !is_opens_wide(cur) && !currency_before_wide && prev != '\n'
    } else {
        false
    }
}

/// Appends to `out` the spaced form of the characters of `s` from `from` up
/// to, not including, `to`.
pub(crate) fn push_spaced(out: &mut Vec<char>, s: &Vec<char>, from: usize, to: usize)
    requires
        from <= to <= s.len(),
    ensures
        final(out)@ == old(out)@ + spaced(s@.subrange(from as int, to as int)),
{
    let ghost before = out@;
    let mut i: usize = from;
    assert(s@.subrange(from as int, from as int) =~= Seq::<char>::empty());
    while i < to
        invariant
            from <= i <= to <= s.len(),
            out@ == before + spaced(s@.subrange(from as int, i as int)),
        decreases to - i,
    {
        let cur = s[i];
        let ghost done = s@.subrange(from as int, i as int);
        let ghost next = s@.subrange(from as int, i + 1);
        assert(next.drop_last() =~= done);
        assert(next.last() == cur);
        if i > from {
            let prev = s[i - 1];
            assert(next[next.len() - 2] == prev);
            if space_between(prev, cur) {
                out.push(' ');
            }
        }
        out.push(cur);
        assert(out@ =~= before + spaced(next));
        i += 1;
    }
}

/// Inserts a space between neighbouring full-width and half-width
/// characters of `text`, except where punctuation, a currency symbol, a line
/// break or an existing space makes it unwanted.
pub fn spacing(text: &str) -> (out: String)
    ensures
        out@ == spaced(text@),
{
    let chars = to_chars(text);
    let mut spaced_chars: Vec<char> = Vec::new();
    push_spaced(&mut spaced_chars, &chars, 0, chars.len());
    assert(chars@.subrange(0, chars.len() as int) =~= chars@);
    to_text(&spaced_chars)
}

} // verus!
