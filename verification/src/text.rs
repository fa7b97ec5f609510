//! Conversions between strings and character vectors, and small helpers on
//! character sequences that every scanner shares.

use crate::lex::{end_of_line, line_end};
use crate::walker::{slice, views};
use vstd::prelude::*;

verus! {

/// `String::push` appends exactly one character to the string.
pub assume_specification[ String::push ](s: &mut String, c: char)
    ensures
        final(s)@ == old(s)@.push(c),
;

/// The characters of `text`, in order.
pub fn to_chars(text: &str) -> (out: Vec<char>)
    ensures
        out@ == text@,
{
    broadcast use vstd::string::group_string_axioms;
    let mut out: Vec<char> = Vec::new();
    for c in it: text.chars()
        invariant
            out@ == it.seq().take(it.index() as int),
            it.seq() == text@,
    {
        out.push(c);
        assert(it.seq().take(it.index() + 1) == it.seq().take(it.index() as int).push(c));
    }
    assert(text@.take(text@.len() as int) == text@);
    out
}

/// The string made of the characters of `chars`, in order.
pub fn to_text(chars: &Vec<char>) -> (out: String)
    ensures
        out@ == chars@,
{
    let mut out = String::new();
    let mut i: usize = 0;
    while i < chars.len()
        invariant
            i <= chars.len(),
            out@ == chars@.subrange(0, i as int),
        decreases chars.len() - i,
    {
        out.push(chars[i]);
        i += 1;
        assert(chars@.subrange(0, i as int) == chars@.subrange(0, i - 1).push(chars@[i - 1]));
    }
    assert(chars@.subrange(0, chars.len() as int) == chars@);
    out
}

/// Tells whether two character vectors hold the same characters.
pub fn same_chars(a: &Vec<char>, b: &Vec<char>) -> (same: bool)
    ensures
        same == (a@ == b@),
{
    if a.len() != b.len() {
        assert(a@.len() != b@.len());
        return false;
    }
    let mut k: usize = 0;
    while k < a.len()
        invariant
            k <= a.len(),
            a.len() == b.len(),
            forall|j: int| 0 <= j < k ==> a@[j] == b@[j],
        decreases a.len() - k,
    {
        if a[k] != b[k] {
            return false;
        }
        k += 1;
    }
    assert(a@ =~= b@);
    true
}

/// The lines of `t` from index `i` on, after those in `acc`. A line ends
/// at a line feed, which is not part of it, nor is a carriage return
/// directly before the line feed. Nothing follows a final line feed.
pub open spec fn lines_from(t: Seq<char>, i: int, acc: Seq<Seq<char>>) -> Seq<Seq<char>>
    decreases t.len() - i,
{
    if i < 0 || i >= t.len() {
        acc
    } else {
        let e = line_end(t, i);
        if i <= e < t.len() {
            let stop = if i < e && t[e - 1] == '\r' {
                e - 1
            } else {
                e
            };
            lines_from(t, e + 1, acc.push(t.subrange(i, stop)))
        } else {
            acc.push(t.subrange(i, t.len() as int))
        }
    }
}

/// The lines of `t`.
pub open spec fn lines(t: Seq<char>) -> Seq<Seq<char>> {
    lines_from(t, 0, Seq::empty())
}

/// Cuts `t` into its lines.
pub fn split_lines(t: &Vec<char>) -> (out: Vec<Vec<char>>)
    ensures
        views(out@) == lines(t@),
{
    let mut out: Vec<Vec<char>> = Vec::new();
    let mut i: usize = 0;
    assert(views(out@) =~= Seq::<Seq<char>>::empty());
    while i < t.len()
        invariant
            i <= t.len(),
            lines(t@) == lines_from(t@, i as int, views(out@)),
        decreases t.len() - i,
    {
        let ghost before = views(out@);
        let e = end_of_line(t, i);
        if e < t.len() {
            let stop = if i < e && t[e - 1] == '\r' {
                e - 1
            } else {
                e
            };
            out.push(slice(t, i, stop));
            assert(views(out@) =~= before.push(t@.subrange(i as int, stop as int)));
            i = e + 1;
        } else {
            out.push(slice(t, i, t.len()));
            assert(views(out@) =~= before.push(
                t@.subrange(i as int, t@.len() as int),
            ));
            i = t.len();
        }
    }
    out
}

} // verus!
