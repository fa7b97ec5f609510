//! The choice of a walker by file extension.

use crate::css;
use crate::engine::{spaced, spacing};
use crate::error::{Format, ParseError};
use crate::html;
use crate::js;
use crate::json;
use crate::json5;
use crate::lex::Parsed;
use crate::markdown;
use crate::php;
use crate::rust;
use crate::text::{same_chars, to_chars};
use crate::walker::Span;
use vstd::prelude::*;

verus! {

/// The format that a file extension, written without its dot, stands
/// for.
pub open spec fn format_of(extension: Seq<char>) -> Option<Format> {
    if extension == "html"@ || extension == "htm"@ {
        Some(Format::Html)
    } else if extension == "md"@ || extension == "markdown"@ {
        Some(Format::Markdown)
    } else if extension == "js"@ {
        Some(Format::Js)
    } else if extension == "json"@ {
        Some(Format::Json)
    } else if extension == "json5"@ {
        Some(Format::Json5)
    } else if extension == "php"@ {
        Some(Format::Php)
    } else if extension == "rust"@ {
        Some(Format::Rust)
    } else if extension == "css"@ {
        Some(Format::Css)
    } else {
        None
    }
}

/// What the walker of `format` makes of the document `s`, or nothing
/// where it refuses the document.
pub open spec fn walked(format: Format, s: Seq<char>) -> Option<Seq<char>> {
    match format {
        Format::Html => html::output(s),
        Format::Css => Some(css::output(s)),
        Format::Js => Some(js::output(s)),
        Format::Json => json::output(s),
        Format::Json5 => json5::output(s),
        Format::Markdown => Some(markdown::output(s)),
        Format::Rust => Some(rust::output(s)),
        Format::Php => Some(php::output(s)),
    }
}

/// The spans that the grammar of `format` finds in the document `s`, or
/// nothing where it refuses the document.
pub open spec fn found_spans(format: Format, s: Seq<char>) -> Option<Seq<Span>> {
    let read = match format {
        Format::Html => html::document(s),
        Format::Json => json::document(s),
        Format::Json5 => json5::document(s),
        Format::Css => Parsed::Good { spans: css::prose_spans(s), next: 0 },
        Format::Js => Parsed::Good { spans: js::prose_spans(s), next: 0 },
        Format::Markdown => Parsed::Good { spans: markdown::prose_spans(s), next: 0 },
        Format::Rust => Parsed::Good { spans: rust::spans(s), next: 0 },
        Format::Php => Parsed::Good { spans: php::spans(s), next: 0 },
    };
    match read {
        Parsed::Good { spans, next } => Some(spans),
        Parsed::Bad { at } => None,
    }
}

/// The index at which the walker of `format` stops reading the document
/// `s`, where it refuses the document.
pub open spec fn refused_at(format: Format, s: Seq<char>) -> Option<int> {
    let read = match format {
        Format::Html => html::document(s),
        Format::Json => json::document(s),
        Format::Json5 => json5::document(s),
        _ => Parsed::Good { spans: Seq::empty(), next: 0 },
    };
    match read {
        Parsed::Bad { at } => Some(at),
        Parsed::Good { spans, next } => None,
    }
}

/// What becomes of the content of a file with the given extension: the
/// work of the walker that the extension stands for, or the spaced
/// content where there is no extension or none that stands for a format.
pub open spec fn content_output(s: Seq<char>, extension: Option<Seq<char>>) -> Option<Seq<char>> {
    match extension {
        Some(e) => match format_of(e) {
            Some(format) => walked(format, s),
            None => Some(spaced(s)),
        },
        None => Some(spaced(s)),
    }
}

fn is_text(a: &Vec<char>, b: &str) -> (same: bool)
    ensures
        same == (a@ == b@),
{
    same_chars(a, &to_chars(b))
}

impl Format {
    /// The format that a file extension, written without its dot, stands
    /// for.
    pub fn from_extension(extension: &str) -> (format: Option<Format>)
        ensures
            format == format_of(extension@),
    {
        let e = to_chars(extension);
        if is_text(&e, "html") || is_text(&e, "htm") {
            Some(Format::Html)
        } else if is_text(&e, "md") || is_text(&e, "markdown") {
            Some(Format::Markdown)
        } else if is_text(&e, "js") {
            Some(Format::Js)
        } else if is_text(&e, "json") {
            Some(Format::Json)
        } else if is_text(&e, "json5") {
            Some(Format::Json5)
        } else if is_text(&e, "php") {
            Some(Format::Php)
        } else if is_text(&e, "rust") {
            Some(Format::Rust)
        } else if is_text(&e, "css") {
            Some(Format::Css)
        } else {
            None
        }
    }

    /// Runs the walker of the format over a document.
    pub fn process(self, input: &str) -> (r: Result<String, ParseError>)
        ensures
            match r {
                Ok(out) => walked(self, input@) == Some(out@),
                Err(ParseError::Syntax { format, offset }) => format == self && walked(
                    self,
                    input@,
                ) is None && refused_at(self, input@) == Some(offset as int),
            },
    {
        match self {
            Format::Html => html::process(input),
            Format::Css => css::process(input),
            Format::Js => js::process(input),
            Format::Json => json::process(input),
            Format::Json5 => json5::process(input),
            Format::Markdown => markdown::process(input),
            Format::Rust => rust::process(input),
            Format::Php => php::process(input),
        }
    }
}

/// Processes the content of a file by the walker that its extension
/// stands for; without an extension, or with one that stands for no
/// format, the content goes through the spacing scan as plain text.
pub fn process_content(content: &str, extension: Option<&str>) -> (r: Result<String, ParseError>)
    ensures
        match r {
            Ok(out) => content_output(
                content@,
                match extension {
                    Some(e) => Some(e@),
                    None => None,
                },
            ) == Some(out@),
            Err(ParseError::Syntax { format, offset }) => extension matches Some(e) && format_of(
                e@,
            ) == Some(format) && walked(format, content@) is None && refused_at(
                format,
                content@,
            ) == Some(offset as int),
        },
{
    let format = match extension {
        Some(e) => Format::from_extension(e),
        None => None,
    };
    match format {
        Some(format) => format.process(content),
        None => Ok(spacing(content)),
    }
}

} // verus!
