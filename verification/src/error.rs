//! The formats that have a walker, and the error a walker can return.

use vstd::prelude::*;

verus! {

/// A document format with a walker of its own.
#[derive(Debug, Clone, Copy, PartialEq, Eq, Structural)]
pub enum Format {
    Html,
    Css,
    Js,
    Json,
    Json5,
    Markdown,
    Rust,
    Php,
}

/// Why a walker gave up on a document.
#[derive(Debug, Clone, Copy, PartialEq, Eq, Structural)]
pub enum ParseError {
    /// The document does not follow the grammar of `format`; `offset` is
    /// the index of the character at which the parser could not go on.
    Syntax { format: Format, offset: usize },
}

} // verus!
