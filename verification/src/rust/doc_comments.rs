//! Doc comments: a block of comment lines is split into the prefix and
//! the content of each line, the contents are walked together as
//! Markdown, and the prefixes are put back line by line.

use crate::markdown;
use crate::text::{lines, split_lines, to_chars, to_text};
use crate::walker::{push_range, views};
use regex::Regex;
use vstd::prelude::*;

verus! {

/// The four forms of doc comment.
#[derive(Debug, Clone, Copy, PartialEq, Eq, Structural)]
pub enum CommentStyle {
    /// `///`
    LineOuter,
    /// `//!`
    LineInner,
    /// `/** */`
    BlockOuter,
    /// `/*! */`
    BlockInner,
}

/// The pattern that the prefix of a line of the style matches: leading
/// white space, the marker of the style, and one optional blank.
pub open spec fn pattern(style: CommentStyle) -> Seq<char> {
    match style {
        CommentStyle::LineOuter => r"^\s*/// ?"@,
        CommentStyle::LineInner => r"^\s*//! ?"@,
        CommentStyle::BlockOuter => r"^\s*\* ?"@,
        CommentStyle::BlockInner => r"^\s*\* ?"@,
    }
}

/// What the first match of the regular expression `pattern` in `line`
/// cuts `line` into: the matched text and the text after it; or nothing
/// where `pattern` has no match in `line` or is no regular expression.
pub uninterp spec fn prefix_split(pattern: Seq<char>, line: Seq<char>) -> Option<
    (Seq<char>, Seq<char>),
>;

/// Compiles `pattern` with `regex::Regex::new` and searches `line` with
/// `Regex::find`. Where there is a match, gives the text it matched and
/// the text of `line` after its end; that pair is named `prefix_split`.
#[verifier::external_body]
fn split_at_match(pattern: &str, line: &str) -> (r: Option<(String, String)>)
    ensures
        match r {
            Some((matched, rest)) => prefix_split(pattern@, line@) == Some((matched@, rest@)),
            None => prefix_split(pattern@, line@) is None,
        },
{
    match Regex::new(pattern) {
        Ok(re) => match re.find(line) {
            Some(found) => Some((found.as_str().to_string(), line[found.end()..].to_string())),
            None => None,
        },
        Err(_) => None,
    }
}

/// The prefix and the content of a line: the text that the pattern of
/// the style matches and the text after it, or no prefix and the whole
/// line where the pattern does not match.
pub open spec fn split_line(style: CommentStyle, line: Seq<char>) -> (Seq<char>, Seq<char>) {
    match prefix_split(pattern(style), line) {
        Some(parts) => parts,
        None => (Seq::empty(), line),
    }
}

/// The prefixes of the lines.
pub open spec fn prefixes(style: CommentStyle, lines: Seq<Seq<char>>) -> Seq<Seq<char>> {
    Seq::new(lines.len(), |k: int| split_line(style, lines[k]).0)
}

/// The contents of the lines.
pub open spec fn contents(style: CommentStyle, lines: Seq<Seq<char>>) -> Seq<Seq<char>> {
    Seq::new(lines.len(), |k: int| split_line(style, lines[k]).1)
}

/// The texts from the `k`-th on, one after the other, after `acc`.
pub open spec fn joined_from(parts: Seq<Seq<char>>, k: int, acc: Seq<char>) -> Seq<char>
    decreases parts.len() - k,
{
    if k < 0 || k >= parts.len() {
        acc
    } else {
        joined_from(parts, k + 1, acc + parts[k])
    }
}

/// The texts one after the other.
pub open spec fn joined(parts: Seq<Seq<char>>) -> Seq<char> {
    joined_from(parts, 0, Seq::empty())
}

/// The `k`-th and later prefixes, each followed by the line of the same
/// index, or by nothing where there is no such line, with a line feed
/// between every two; after `acc`.
pub open spec fn zipped_from(
    prefixes: Seq<Seq<char>>,
    lines: Seq<Seq<char>>,
    k: int,
    acc: Seq<char>,
) -> Seq<char>
    decreases prefixes.len() - k,
{
    if k < 0 || k >= prefixes.len() {
        acc
    } else {
        let line = if k < lines.len() {
            lines[k]
        } else {
            Seq::empty()
        };
        let sep = if k > 0 {
            seq!['\n']
        } else {
            Seq::empty()
        };
        zipped_from(prefixes, lines, k + 1, acc + sep + prefixes[k] + line)
    }
}

/// The comment put together again: the contents, joined and walked as
/// Markdown, are cut into lines, and each prefix gets the line of its
/// index. Where `closing_newline` holds, the result ends in a line feed.
pub open spec fn assembled(
    prefixes: Seq<Seq<char>>,
    contents: Seq<Seq<char>>,
    closing_newline: bool,
) -> Seq<char> {
    let body = zipped_from(prefixes, lines(markdown::output(joined(contents))), 0, Seq::empty());
    if closing_newline && !(body.len() > 0 && body.last() == '\n') {
        body.push('\n')
    } else {
        body
    }
}

/// The block of lines `raw`, written in the style `style`, with the
/// prose of its contents spaced. The result ends in a line feed where
/// the last line of the block does.
pub open spec fn spaced_block(style: CommentStyle, raw: Seq<Seq<char>>) -> Seq<char> {
    if raw.len() == 0 {
        Seq::empty()
    } else {
        assembled(
            prefixes(style, raw),
            contents(style, raw),
            raw.last().len() > 0 && raw.last().last() == '\n',
        )
    }
}

/// The views of a list of strings.
pub open spec fn string_views(v: Seq<String>) -> Seq<Seq<char>> {
    Seq::new(v.len(), |k: int| v[k]@)
}

/// The pattern of the style, as text.
pub fn pattern_text(style: CommentStyle) -> (p: &'static str)
    ensures
        p@ == pattern(style),
{
    match style {
        CommentStyle::LineOuter => r"^\s*/// ?",
        CommentStyle::LineInner => r"^\s*//! ?",
        CommentStyle::BlockOuter => r"^\s*\* ?",
        CommentStyle::BlockInner => r"^\s*\* ?",
    }
}

/// Puts a comment together again from the prefixes and the contents of
/// its lines.
pub fn assemble(prefixes: &Vec<String>, contents: &Vec<String>, closing_newline: bool) -> (out:
    String)
    ensures
        out@ == assembled(string_views(prefixes@), string_views(contents@), closing_newline),
{
    let mut block: Vec<char> = Vec::new();
    let mut k: usize = 0;
    while k < contents.len()
        invariant
            k <= contents.len(),
            joined(string_views(contents@)) == joined_from(
                string_views(contents@),
                k as int,
                block@,
            ),
        decreases contents.len() - k,
    {
        let part = to_chars(contents[k].as_str());
        push_range(&mut block, &part, 0, part.len());
        assert(part@.subrange(0, part@.len() as int) =~= part@);
        k += 1;
    }
    let walked = markdown::rewrite(&block);
    let walked_lines = split_lines(&walked);
    let ghost lines = lines(markdown::output(joined(string_views(contents@))));
    let mut body: Vec<char> = Vec::new();
    let mut k: usize = 0;
    while k < prefixes.len()
        invariant
            k <= prefixes.len(),
            views(walked_lines@) == lines,
            zipped_from(string_views(prefixes@), lines, 0, Seq::empty()) == zipped_from(
                string_views(prefixes@),
                lines,
                k as int,
                body@,
            ),
        decreases prefixes.len() - k,
    {
        let ghost before = body@;
        if k > 0 {
            body.push('\n');
        }
        let prefix = to_chars(prefixes[k].as_str());
        push_range(&mut body, &prefix, 0, prefix.len());
        assert(prefix@.subrange(0, prefix@.len() as int) =~= prefix@);
        if k < walked_lines.len() {
            let line = &walked_lines[k];
            push_range(&mut body, line, 0, line.len());
            assert(line@.subrange(0, line@.len() as int) =~= line@);
            assert(line@ == lines[k as int]);
        }
        assert(body@ =~= before + (if k > 0 {
            seq!['\n']
        } else {
            Seq::empty()
        }) + string_views(prefixes@)[k as int] + (if k < lines.len() {
            lines[k as int]
        } else {
            Seq::empty()
        }));
        k += 1;
    }
    if closing_newline && !(body.len() > 0 && body[body.len() - 1] == '\n') {
        body.push('\n');
    }
    to_text(&body)
}

/// A doc comment: its style and its lines as they stand in the source,
/// each with its line feed.
#[derive(Debug)]
pub struct DocCommentBlock {
    style: CommentStyle,
    raw_lines: Vec<String>,
}

impl DocCommentBlock {
    /// The style of the comment.
    pub closed spec fn style(&self) -> CommentStyle {
        self.style
    }

    /// The lines of the comment.
    pub closed spec fn lines(&self) -> Seq<Seq<char>> {
        string_views(self.raw_lines@)
    }

    /// A doc comment of the given style and lines.
    pub fn new(style: CommentStyle, raw_lines: Vec<String>) -> (block: Self)
        ensures
            block.style() == style,
            block.lines() == string_views(raw_lines@),
    {
        Self { style, raw_lines }
    }

    /// Splits each line into its prefix and its content.
    pub fn split_prefix_and_content(&self) -> (r: (Vec<String>, Vec<String>))
        ensures
            string_views(r.0@) == prefixes(self.style(), self.lines()),
            string_views(r.1@) == contents(self.style(), self.lines()),
    {
        let pattern = pattern_text(self.style);
        let mut prefixes: Vec<String> = Vec::new();
        let mut contents: Vec<String> = Vec::new();
        let mut k: usize = 0;
        while k < self.raw_lines.len()
            invariant
                k <= self.raw_lines.len(),
                pattern@ == crate::rust::doc_comments::pattern(self.style),
                prefixes.len() == k,
                contents.len() == k,
                forall|j: int|
                    0 <= j < k ==> (#[trigger] prefixes@[j])@ == split_line(
                        self.style,
                        self.raw_lines@[j]@,
                    ).0,
                forall|j: int|
                    0 <= j < k ==> (#[trigger] contents@[j])@ == split_line(
                        self.style,
                        self.raw_lines@[j]@,
                    ).1,
            decreases self.raw_lines.len() - k,
        {
            let line = &self.raw_lines[k];
            match split_at_match(pattern, line.as_str()) {
                Some((matched, rest)) => {
                    prefixes.push(matched);
                    contents.push(rest);
                },
                None => {
                    prefixes.push(String::new());
                    contents.push(line.clone());
                },
            }
            k += 1;
        }
        assert(string_views(prefixes@) =~= crate::rust::doc_comments::prefixes(
            self.style(),
            self.lines(),
        ));
        assert(string_views(contents@) =~= crate::rust::doc_comments::contents(
            self.style(),
            self.lines(),
        ));
        (prefixes, contents)
    }

    /// Spaces the prose of the comment and leaves the prefix of every
    /// line as it stands.
    pub fn spacing(&self) -> (out: String)
        ensures
            out@ == spaced_block(self.style(), self.lines()),
    {
        if self.raw_lines.len() == 0 {
            return String::new();
        }
        let (prefixes, contents) = self.split_prefix_and_content();
        let last = to_chars(self.raw_lines[self.raw_lines.len() - 1].as_str());
        let closing_newline = last.len() > 0 && last[last.len() - 1] == '\n';
        assemble(&prefixes, &contents, closing_newline)
    }
}

} // verus!
