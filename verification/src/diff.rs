//! The line-by-line comparison of a text with its processed form, for a
//! reader who looks over the changes.

use crate::text::{lines, same_chars, split_lines, to_chars};
use crate::walker::views;
use vstd::prelude::*;

verus! {

/// A row of the comparison.
#[derive(Debug, Clone, Copy, PartialEq, Eq, Structural)]
pub enum DiffRow {
    /// One or more lines in a row are the same in both texts.
    Unchanged,
    /// The line of the first text with this index, counted from 0, is
    /// changed or dropped.
    Removed(usize),
    /// The line of the second text with this index, counted from 0, is
    /// new or changed.
    Added(usize),
}

/// The rows for the lines from index `n` on, after those in `acc`. Lines
/// are compared index by index. A run of equal lines gives one
/// `Unchanged` row, and `in_run` tells that the line before `n` belongs
/// to such a run. A pair of unequal lines gives a `Removed` and an
/// `Added` row; a line without a partner gives its own row only.
pub open spec fn rows_from(
    a: Seq<Seq<char>>,
    b: Seq<Seq<char>>,
    n: int,
    in_run: bool,
    acc: Seq<DiffRow>,
) -> Seq<DiffRow>
    decreases a.len() + b.len() - n,
{
    if n < 0 || (n >= a.len() && n >= b.len()) {
        acc
    } else if n < a.len() && n < b.len() && a[n] == b[n] {
        rows_from(
            a,
            b,
            n + 1,
            true,
            if in_run {
                acc
            } else {
                acc.push(DiffRow::Unchanged)
            },
        )
    } else {
        let removed = if n < a.len() {
            acc.push(DiffRow::Removed(n as usize))
        } else {
            acc
        };
        let added = if n < b.len() {
            removed.push(DiffRow::Added(n as usize))
        } else {
            removed
        };
        rows_from(a, b, n + 1, false, added)
    }
}

/// The rows of the comparison of the text `before` with the text
/// `after`.
pub open spec fn rows(before: Seq<char>, after: Seq<char>) -> Seq<DiffRow> {
    rows_from(lines(before), lines(after), 0, false, Seq::empty())
}

/// The number of decimal digits of `n`.
pub open spec fn digits(n: nat) -> nat
    decreases n,
{
    if n < 10 {
        1
    } else {
        1 + digits(n / 10)
    }
}

/// Compares a text with its processed form, line by line.
pub fn diff(before: &str, after: &str) -> (out: Vec<DiffRow>)
    ensures
        out@ == rows(before@, after@),
{
    let a = split_lines(&to_chars(before));
    let b = split_lines(&to_chars(after));
    let mut out: Vec<DiffRow> = Vec::new();
    let mut in_run = false;
    let mut n: usize = 0;
    while n < a.len() || n < b.len()
        invariant
            views(a@) == lines(before@),
            views(b@) == lines(after@),
            rows(before@, after@) == rows_from(
                views(a@),
                views(b@),
                n as int,
                in_run,
                out@,
            ),
        decreases a.len() + b.len() - n,
    {
        if n < a.len() && n < b.len() && same_chars(&a[n], &b[n]) {
            if !in_run {
                out.push(DiffRow::Unchanged);
            }
            in_run = true;
        } else {
            if n < a.len() {
                out.push(DiffRow::Removed(n));
            }
            if n < b.len() {
                out.push(DiffRow::Added(n));
            }
            in_run = false;
        }
        n += 1;
    }
    out
}

/// The width of the column of line numbers for texts of at most `total`
/// lines: the number of decimal digits of `total`.
pub fn number_width(total: usize) -> (width: usize)
    ensures
        width == digits(total as nat),
{
    let mut width: usize = 1;
    let mut rest: usize = total;
    while rest >= 10
        invariant
            1 <= width,
            width + rest <= total + 1,
            digits(total as nat) == (width - 1) + digits(rest as nat),
        decreases rest,
    {
        rest = rest / 10;
        width += 1;
    }
    width
}

} // verus!
