//! Character classes by display width.

use unicode_width::UnicodeWidthChar;
use vstd::prelude::*;

verus! {

/// The display width that the Unicode width tables give to `c`: the number
/// of terminal columns, or `None` where the character has no measurable
/// width.
pub uninterp spec fn display_width(c: char) -> Option<usize>;

/// Whether `c` occupies anything but one column and is measurable.
///
/// Below U+00A0 nothing is wide: those characters are either printable
/// ASCII, one column each, or control characters without a width.
pub open spec fn is_wide(c: char) -> bool {
    (c as u32) >= 0xA0 && match display_width(c) {
        Some(w) => w != 1,
        None => false,
    }
}

/// Calls `unicode_width::UnicodeWidthChar::width` on `c`.
///
/// The result is the crate's table value, named `display_width`. Below
/// U+00A0 the crate consults no table: U+0020 to U+007E are one column
/// wide, and every other such character is a control character with no
/// width.
#[verifier::external_body]
fn measured_width(c: char) -> (w: Option<usize>)
    ensures
        w == display_width(c),
        (c as u32) < 0xA0 ==> w == (if 0x20 <= (c as u32) && (c as u32) < 0x7F {
            Some(1usize)
        } else {
            None
        }),
{
    c.width()
}

/// The class of a character: half-width or full-width.
#[derive(Debug, Clone, Copy, PartialEq, Eq, Structural)]
pub enum CharWidth {
    /// One column wide, or without a measurable width.
    Half,
    /// Any other measured width.
    Full,
}

impl CharWidth {
    /// The class that `from_char` gives to `c`.
    pub open spec fn of(c: char) -> CharWidth {
        if is_wide(c) {
            CharWidth::Full
        } else {
            CharWidth::Half
        }
    }

    /// Classifies `c` by its measured display width.
    pub fn from_char(c: char) -> (class: CharWidth)
        ensures
            class == CharWidth::of(c),
    {
        match measured_width(c) {
            None => CharWidth::Half,
            Some(w) => if w == 1 {
                CharWidth::Half
            } else {
                CharWidth::Full
            },
        }
    }

    /// Whether this is the half-width class.
    pub fn is_half(&self) -> (b: bool)
        ensures
            b == (*self == CharWidth::Half),
    {
        match self {
            CharWidth::Half => true,
            CharWidth::Full => false,
        }
    }

    /// Whether this is the full-width class.
    pub fn is_full(&self) -> (b: bool)
        ensures
            b == (*self == CharWidth::Full),
    {
        match self {
            CharWidth::Half => false,
            CharWidth::Full => true,
        }
    }
}

} // verus!
