//! The HTML walker: text, the values of a few attributes, comment bodies
//! and the bodies of `script` and `style` elements are rewritten; tags,
//! other attributes, declarations and entities are structure. Elements
//! must be closed.

use crate::css;
use crate::engine::{push_spaced, spaced};
use crate::error::{Format, ParseError};
use crate::js;
use crate::lex::{
    after_blanks, after_run, at, find_char, find_literal, is_letter, lemma_run_bounds, letter,
    matches_at, next_char, next_literal, prose, skip_blanks, skip_class, starts_with_at, Class,
    Parsed,
};
use crate::text::{to_chars, to_text};
use crate::walker::{lemma_ordered_push, ordered, patch, patched, slice, views, Kind, Span};
use vstd::prelude::*;

verus! {

/// The literal that opens a comment.
pub open spec fn comment_open() -> Seq<char> {
    seq!['<', '!', '-', '-']
}

/// The literal that closes a comment.
pub open spec fn comment_close() -> Seq<char> {
    seq!['-', '-', '>']
}

/// The closing tag of a `script` element.
pub open spec fn script_close() -> Seq<char> {
    seq!['<', '/', 's', 'c', 'r', 'i', 'p', 't', '>']
}

/// The closing tag of a `style` element.
pub open spec fn style_close() -> Seq<char> {
    seq!['<', '/', 's', 't', 'y', 'l', 'e', '>']
}

/// The names of the elements that have no content and no closing tag.
pub open spec fn void_names() -> Seq<Seq<char>> {
    seq![
        "area"@,
        "base"@,
        "br"@,
        "col"@,
        "embed"@,
        "hr"@,
        "img"@,
        "input"@,
        "link"@,
        "meta"@,
        "param"@,
        "source"@,
        "track"@,
        "wbr"@,
    ]
}

/// The names of the elements whose opening and closing tags may each
/// stand without the other.
pub open spec fn loose_names() -> Seq<Seq<char>> {
    seq!["html"@, "head"@, "body"@]
}

/// The names of the attributes whose quoted values are prose.
pub open spec fn prose_attributes() -> Seq<Seq<char>> {
    seq!["title"@, "alt"@, "placeholder"@, "value"@, "label"@, "aria-label"@]
}

/// The index after the entity that a `&` opens at index `i`: the `&`, a
/// run of letters, digits and `#`, and a `;`.
pub open spec fn entity_end(s: Seq<char>, i: int) -> Option<int> {
    let e = after_run(s, i + 1, Class::Entity);
    if at(s, i, '&') && e > i + 1 && at(s, e, ';') {
        Some(e + 1)
    } else {
        None
    }
}

/// The literal that closes a processing instruction.
pub open spec fn instruction_close() -> Seq<char> {
    seq!['?', '>']
}

/// Whether markup starts at index `i`: a `<` followed by a letter, `/`,
/// `!` or `?`. Any other `<` is text.
pub open spec fn markup_at(s: Seq<char>, i: int) -> bool {
    at(s, i, '<') && 0 <= i + 1 < s.len() && (is_letter(s[i + 1]) || s[i + 1] == '/' || s[i + 1]
        == '!' || s[i + 1] == '?')
}

/// The end of the text that begins before index `j`: the first index
/// from `j` on at which markup or an entity starts, or the length of `s`.
pub open spec fn skip_text(s: Seq<char>, j: int) -> int
    decreases s.len() - j,
{
    if j < 0 || j >= s.len() {
        s.len() as int
    } else if markup_at(s, j) || entity_end(s, j) is Some {
        j
    } else {
        skip_text(s, j + 1)
    }
}

/// `skip_text`, for an index `j` inside `s` or at its end.
pub open spec fn text_end(s: Seq<char>, j: int) -> int {
    let e = skip_text(s, j);
    if j <= e <= s.len() {
        e
    } else {
        j
    }
}

/// An opening tag: where its name stands, the spans up to and with those
/// of its attributes, the index after its `>`, and whether it ends in
/// `/>`.
pub struct Tag {
    pub name_from: int,
    pub name_to: int,
    pub spans: Seq<Span>,
    pub next: int,
    pub closed: bool,
}

/// Reads the attributes of a tag from index `j` on, through the `>` or
/// `/>` that ends the tag: the spans in `acc` followed by the quoted
/// values of the prose attributes, the index after the tag, and whether
/// the tag ends in `/>`.
///
/// An attribute is a name, alone or followed by `=` and a value; a value
/// stands in double quotes, in single quotes, or bare.
pub open spec fn attributes(s: Seq<char>, j: int, acc: Seq<Span>) -> Option<
    (Seq<Span>, int, bool),
>
    decreases s.len() - j,
{
    let p = after_blanks(s, j);
    let n = after_run(s, p, Class::Attribute);
    let q = after_blanks(s, n);
    let v = after_blanks(s, q + 1);
    let b = after_run(s, v, Class::Bare);
    if j < 0 || j >= s.len() {
        None
    } else if at(s, p, '>') {
        Some((acc, p + 1, false))
    } else if at(s, p, '/') && at(s, p + 1, '>') {
        Some((acc, p + 2, true))
    } else if n <= p {
        None
    } else if !at(s, q, '=') {
        attributes(s, n, acc)
    } else if at(s, v, '"') || at(s, v, '\'') {
        match next_char(s, v + 1, s[v]) {
            Some(c) => if prose_attributes().contains(s.subrange(p, n)) {
                attributes(s, c + 1, acc.push(prose(v + 1, c)))
            } else {
                attributes(s, c + 1, acc)
            },
            None => None,
        }
    } else if b <= v {
        None
    } else {
        attributes(s, b, acc)
    }
}

/// Reads the opening tag that a `<` opens at index `i`: the `<`, a name
/// that begins with a letter, attributes, and `>` or `/>`.
pub open spec fn open_tag(s: Seq<char>, i: int, acc: Seq<Span>) -> Option<Tag> {
    let name_to = after_run(s, i + 1, Class::Name);
    let rest = attributes(s, name_to, acc);
    if at(s, i, '<') && 0 <= i + 1 < s.len() && is_letter(s[i + 1]) && rest is Some && i
        < (rest->0).1 <= s.len() {
        Some(
            Tag {
                name_from: i + 1,
                name_to,
                spans: (rest->0).0,
                next: (rest->0).1,
                closed: (rest->0).2,
            },
        )
    } else {
        None
    }
}

/// Reads the closing tag that `</` opens at index `i`: where its name
/// begins, where the name ends, and the index after its `>`.
pub open spec fn close_tag(s: Seq<char>, i: int) -> Option<(int, int, int)> {
    let name_to = after_run(s, i + 2, Class::Name);
    let p = after_blanks(s, name_to);
    if at(s, i, '<') && at(s, i + 1, '/') && 0 <= i + 2 < s.len() && is_letter(s[i + 2]) && at(
        s,
        p,
        '>',
    ) {
        Some((i + 2, name_to, p + 1))
    } else {
        None
    }
}

/// The elements whose body is not markup, by name: the literal that ends
/// the body, and what the body is.
pub open spec fn raw_body(name: Seq<char>) -> Option<(Seq<char>, Kind)> {
    if name == "script"@ {
        Some((script_close(), Kind::Script))
    } else if name == "style"@ {
        Some((style_close(), Kind::Style))
    } else {
        None
    }
}

/// Reads content from index `i` on, up to the end of the document or to
/// the closing tag of the element that holds it.
///
/// Content is a sequence of comments, declarations, processing
/// instructions, elements, entities and text. A comment body is embedded
/// markup; the body of a `script` element is embedded script and that of
/// a `style` element embedded style, each up to the next closing tag of
/// that name; text is prose. An element is an opening tag, content, and
/// the closing tag of the same name; a void element, a tag that ends in
/// `/>` and the tags of `html`, `head` and `body` stand alone. A `<` that
/// no letter, `/`, `!` or `?` follows is text.
pub open spec fn content(s: Seq<char>, i: int, acc: Seq<Span>) -> Parsed
    decreases s.len() - i,
{
    if i < 0 || i >= s.len() {
        Parsed::Good { spans: acc, next: i }
    } else if starts_with_at(s, i, comment_open()) {
        match next_literal(s, i + 4, comment_close()) {
            Some(e) => content(
                s,
                e + 3,
                acc.push(Span { kind: Kind::Markup, start: (i + 4) as usize, end: e as usize }),
            ),
            None => Parsed::Bad { at: i },
        }
    } else if at(s, i, '<') && at(s, i + 1, '!') {
        match next_char(s, i + 2, '>') {
            Some(e) => content(s, e + 1, acc),
            None => Parsed::Bad { at: i },
        }
    } else if at(s, i, '<') && at(s, i + 1, '?') {
        match next_literal(s, i + 2, instruction_close()) {
            Some(e) => content(s, e + 2, acc),
            None => Parsed::Bad { at: i },
        }
    } else if at(s, i, '<') && at(s, i + 1, '/') {
        match close_tag(s, i) {
            Some((from, to, next)) => if loose_names().contains(s.subrange(from, to)) {
                content(s, next, acc)
            } else {
                Parsed::Good { spans: acc, next: i }
            },
            None => Parsed::Bad { at: i },
        }
    } else if markup_at(s, i) {
        match open_tag(s, i, acc) {
            None => Parsed::Bad { at: i },
            Some(tag) => {
                let name = s.subrange(tag.name_from, tag.name_to);
                let raw = raw_body(name);
                if tag.closed {
                    content(s, tag.next, tag.spans)
                } else if raw is Some {
                    match next_literal(s, tag.next, (raw->0).0) {
                        Some(e) => content(
                            s,
                            e + (raw->0).0.len(),
                            tag.spans.push(
                                Span {
                                    kind: (raw->0).1,
                                    start: tag.next as usize,
                                    end: e as usize,
                                },
                            ),
                        ),
                        None => Parsed::Bad { at: tag.next },
                    }
                } else if void_names().contains(name) || loose_names().contains(name) {
                    content(s, tag.next, tag.spans)
                } else {
                    match content(s, tag.next, tag.spans).after(i, s.len() as int) {
                        Parsed::Bad { at } => Parsed::Bad { at },
                        Parsed::Good { spans, next } => match close_tag(s, next) {
                            Some((from, to, after)) => if s.subrange(from, to) == name {
                                content(s, after, spans)
                            } else {
                                Parsed::Bad { at: next }
                            },
                            None => Parsed::Bad { at: next },
                        },
                    }
                }
            },
        }
    } else {
        match entity_end(s, i) {
            Some(e) => content(s, e, acc),
            None => {
                let e = text_end(s, i + 1);
                content(s, e, acc.push(prose(i, e)))
            },
        }
    }
}

/// Reads the document `s`: content up to its end.
pub open spec fn document(s: Seq<char>) -> Parsed {
    match content(s, 0, Seq::empty()) {
        Parsed::Bad { at } => Parsed::Bad { at },
        Parsed::Good { spans, next } => if next == s.len() {
            Parsed::Good { spans, next }
        } else {
            Parsed::Bad { at: next }
        },
    }
}

/// The attributes that are read end after their first character and
/// inside the text, and the spans stay in order.
pub proof fn lemma_attributes_sound(s: Seq<char>, j: int, acc: Seq<Span>)
    requires
        0 <= j <= s.len() <= usize::MAX,
        ordered(acc, 0, j),
    ensures
        attributes(s, j, acc) matches Some((spans, next, closed)) ==> j < next <= s.len()
            && ordered(spans, 0, next),
    decreases s.len() - j,
{
    let p = after_blanks(s, j);
    let n = after_run(s, p, Class::Attribute);
    let q = after_blanks(s, n);
    let v = after_blanks(s, q + 1);
    let b = after_run(s, v, Class::Bare);
    if j < s.len() {
        lemma_run_bounds(s, j, Class::Blank);
        lemma_run_bounds(s, p, Class::Attribute);
        lemma_run_bounds(s, n, Class::Blank);
        if at(s, p, '>') || (at(s, p, '/') && at(s, p + 1, '>')) || n <= p {
        } else if !at(s, q, '=') {
            lemma_attributes_sound(s, n, acc);
        } else {
            lemma_run_bounds(s, q + 1, Class::Blank);
            lemma_run_bounds(s, v, Class::Bare);
            if at(s, v, '"') || at(s, v, '\'') {
                if let Some(c) = next_char(s, v + 1, s[v]) {
                    if prose_attributes().contains(s.subrange(p, n)) {
                        lemma_ordered_push(acc, prose(v + 1, c), 0, j, c + 1);
                        lemma_attributes_sound(s, c + 1, acc.push(prose(v + 1, c)));
                    } else {
                        lemma_attributes_sound(s, c + 1, acc);
                    }
                }
            } else if b > v {
                lemma_attributes_sound(s, b, acc);
            }
        }
    }
}

/// Content that starts with an opening tag and is read ends inside the
/// text, and the spans stay in order.
pub proof fn lemma_element_sound(s: Seq<char>, i: int, acc: Seq<Span>)
    requires
        0 <= i < s.len() <= usize::MAX,
        ordered(acc, 0, i),
        markup_at(s, i),
        !starts_with_at(s, i, comment_open()),
        !at(s, i + 1, '!'),
        !at(s, i + 1, '?'),
        !at(s, i + 1, '/'),
    ensures
        content(s, i, acc) matches Parsed::Good { spans, next } ==> i <= next <= s.len()
            && ordered(spans, 0, next),
    decreases s.len() - i, 0int,
{
    if i + 1 <= s.len() {
        lemma_run_bounds(s, i + 1, Class::Name);
        lemma_attributes_sound(s, after_run(s, i + 1, Class::Name), acc);
    }
    if let Some(tag) = open_tag(s, i, acc) {
        let name = s.subrange(tag.name_from, tag.name_to);
        let raw = raw_body(name);
        if tag.closed {
            lemma_content_sound(s, tag.next, tag.spans);
        } else if raw is Some {
            if let Some(e) = next_literal(s, tag.next, (raw->0).0) {
                let span = Span {
                    kind: (raw->0).1,
                    start: tag.next as usize,
                    end: e as usize,
                };
                lemma_ordered_push(tag.spans, span, 0, tag.next, e + (raw->0).0.len());
                lemma_content_sound(s, e + (raw->0).0.len(), tag.spans.push(span));
            }
        } else if void_names().contains(name) || loose_names().contains(name) {
            lemma_content_sound(s, tag.next, tag.spans);
        } else {
            lemma_content_sound(s, tag.next, tag.spans);
            if let Parsed::Good { spans, next } = content(s, tag.next, tag.spans).after(
                i,
                s.len() as int,
            ) {
                if let Some((from, to, after)) = close_tag(s, next) {
                    lemma_run_bounds(s, next + 2, Class::Name);
                    lemma_run_bounds(s, to, Class::Blank);
                    if s.subrange(from, to) == name {
                        lemma_content_sound(s, after, spans);
                    }
                }
            }
        }
    }
}

/// Content that is read ends inside the text, and the spans stay in
/// order.
pub proof fn lemma_content_sound(s: Seq<char>, i: int, acc: Seq<Span>)
    requires
        0 <= i <= s.len() <= usize::MAX,
        ordered(acc, 0, i),
    ensures
        content(s, i, acc) matches Parsed::Good { spans, next } ==> i <= next <= s.len()
            && ordered(spans, 0, next),
    decreases s.len() - i, 1int,
{
    if i < s.len() {
        if starts_with_at(s, i, comment_open()) {
            if let Some(e) = next_literal(s, i + 4, comment_close()) {
                let span = Span { kind: Kind::Markup, start: (i + 4) as usize, end: e as usize };
                lemma_ordered_push(acc, span, 0, i, e + 3);
                lemma_content_sound(s, e + 3, acc.push(span));
            }
        } else if at(s, i, '<') && at(s, i + 1, '!') {
            if let Some(e) = next_char(s, i + 2, '>') {
                lemma_content_sound(s, e + 1, acc);
            }
        } else if at(s, i, '<') && at(s, i + 1, '?') {
            if let Some(e) = next_literal(s, i + 2, instruction_close()) {
                lemma_content_sound(s, e + 2, acc);
            }
        } else if at(s, i, '<') && at(s, i + 1, '/') {
            if let Some((from, to, next)) = close_tag(s, i) {
                lemma_run_bounds(s, i + 2, Class::Name);
                lemma_run_bounds(s, to, Class::Blank);
                if loose_names().contains(s.subrange(from, to)) {
                    lemma_content_sound(s, next, acc);
                }
            }
        } else if markup_at(s, i) {
            lemma_element_sound(s, i, acc);
        } else {
            lemma_run_bounds(s, i + 1, Class::Entity);
            match entity_end(s, i) {
                Some(e) => {
                    lemma_content_sound(s, e, acc);
                },
                None => {
                    let e = text_end(s, i + 1);
                    lemma_ordered_push(acc, prose(i, e), 0, i, e);
                    lemma_content_sound(s, e, acc.push(prose(i, e)));
                },
            }
        }
    }
}

/// The spans of a document that is read are in order.
pub proof fn lemma_document_ordered(s: Seq<char>)
    requires
        s.len() <= usize::MAX,
    ensures
        document(s) matches Parsed::Good { spans, next } ==> ordered(spans, 0, s.len() as int),
{
    lemma_content_sound(s, 0, Seq::empty());
}

/// What replaces the span `span` of the document `s`: the spaced text
/// for prose, the walked script or style for an embedded one, and for
/// embedded markup the walked markup or, where that is no HTML, the
/// markup as it stands.
pub open spec fn rewritten(s: Seq<char>, span: Span) -> Seq<char>
    decreases s.len(), 0int, 0int,
{
    let body = s.subrange(span.start as int, span.end as int);
    match span.kind {
        Kind::Script => js::output(body),
        Kind::Style => css::output(body),
        Kind::Markup => if body.len() < s.len() {
            match output(body) {
                Some(walked) => walked,
                None => body,
            }
        } else {
            body
        },
        _ => spaced(body),
    }
}

/// The texts in `acc`, followed by what replaces each span from the
/// `k`-th on.
pub open spec fn texts_from(s: Seq<char>, spans: Seq<Span>, k: int, acc: Seq<Seq<char>>) -> Seq<
    Seq<char>,
>
    decreases s.len(), 1int, spans.len() - k,
{
    if k < 0 || k >= spans.len() {
        acc
    } else {
        texts_from(s, spans, k + 1, acc.push(rewritten(s, spans[k])))
    }
}

/// The document `s` with its spans rewritten, where it is an HTML
/// document.
pub open spec fn output(s: Seq<char>) -> Option<Seq<char>>
    decreases s.len(), 2int, 0int,
{
    match document(s) {
        Parsed::Good { spans, next } => Some(
            patched(s, spans, texts_from(s, spans, 0, Seq::empty()), 0, 0),
        ),
        Parsed::Bad { at } => None,
    }
}

/// The document `s` walked as HTML or, where it is no HTML, as it
/// stands.
pub open spec fn output_or_same(s: Seq<char>) -> Seq<char> {
    match output(s) {
        Some(walked) => walked,
        None => s,
    }
}

/// The names of the grammar, as characters.
pub struct Words {
    pub script: Vec<char>,
    pub style: Vec<char>,
    pub voids: Vec<Vec<char>>,
    pub loose: Vec<Vec<char>>,
    pub prose: Vec<Vec<char>>,
}

impl Words {
    /// Whether each field holds the names it is meant for.
    pub open spec fn wf(&self) -> bool {
        &&& self.script@ == "script"@
        &&& self.style@ == "style"@
        &&& views(self.voids@) == void_names()
        &&& views(self.loose@) == loose_names()
        &&& views(self.prose@) == prose_attributes()
    }

    /// The names of the grammar.
    pub fn new() -> (words: Words)
        ensures
            words.wf(),
    {
        let mut voids: Vec<Vec<char>> = Vec::new();
        voids.push(to_chars("area"));
        voids.push(to_chars("base"));
        voids.push(to_chars("br"));
        voids.push(to_chars("col"));
        voids.push(to_chars("embed"));
        voids.push(to_chars("hr"));
        voids.push(to_chars("img"));
        voids.push(to_chars("input"));
        voids.push(to_chars("link"));
        voids.push(to_chars("meta"));
        voids.push(to_chars("param"));
        voids.push(to_chars("source"));
        voids.push(to_chars("track"));
        voids.push(to_chars("wbr"));
        assert(views(voids@) =~= void_names());
        let mut loose: Vec<Vec<char>> = Vec::new();
        loose.push(to_chars("html"));
        loose.push(to_chars("head"));
        loose.push(to_chars("body"));
        assert(views(loose@) =~= loose_names());
        let mut prose: Vec<Vec<char>> = Vec::new();
        prose.push(to_chars("title"));
        prose.push(to_chars("alt"));
        prose.push(to_chars("placeholder"));
        prose.push(to_chars("value"));
        prose.push(to_chars("label"));
        prose.push(to_chars("aria-label"));
        assert(views(prose@) =~= prose_attributes());
        Words {
            script: to_chars("script"),
            style: to_chars("style"),
            voids,
            loose,
            prose,
        }
    }
}

fn scan_entity(s: &Vec<char>, i: usize) -> (r: Option<usize>)
    ensures
        match r {
            Some(e) => entity_end(s@, i as int) == Some(e as int) && i + 2 < e <= s.len(),
            None => entity_end(s@, i as int) is None,
        },
{
    if !(i < s.len() && s[i] == '&') {
        return None;
    }
    let e = skip_class(s, i + 1, Class::Entity);
    if e > i + 1 && e < s.len() && s[e] == ';' {
        Some(e + 1)
    } else {
        None
    }
}

fn is_markup(s: &Vec<char>, i: usize) -> (b: bool)
    ensures
        b == markup_at(s@, i as int),
{
    if !(i < s.len() && s[i] == '<' && s.len() - i > 1) {
        return false;
    }
    let c = s[i + 1];
    letter(c) || c == '/' || c == '!' || c == '?'
}

fn scan_text_end(s: &Vec<char>, j: usize) -> (e: usize)
    requires
        j <= s.len(),
    ensures
        e == text_end(s@, j as int),
        j <= e <= s.len(),
{
    let mut k: usize = j;
    while k < s.len()
        invariant
            j <= k <= s.len(),
            skip_text(s@, j as int) == skip_text(s@, k as int),
        decreases s.len() - k,
    {
        if is_markup(s, k) {
            return k;
        }
        if s[k] == '&' {
            if scan_entity(s, k).is_some() {
                return k;
            }
        }
        k += 1;
    }
    k
}

fn is_word(s: &Vec<char>, from: usize, to: usize, word: &Vec<char>) -> (b: bool)
    requires
        from <= to <= s.len(),
    ensures
        b == (s@.subrange(from as int, to as int) == word@),
{
    if to - from != word.len() {
        return false;
    }
    matches_at(s, from, word.as_slice())
}

fn in_list(s: &Vec<char>, from: usize, to: usize, list: &Vec<Vec<char>>) -> (b: bool)
    requires
        from <= to <= s.len(),
    ensures
        b == views(list@).contains(s@.subrange(from as int, to as int)),
{
    let ghost name = s@.subrange(from as int, to as int);
    let mut k: usize = 0;
    while k < list.len()
        invariant
            k <= list.len(),
            from <= to <= s.len(),
            name == s@.subrange(from as int, to as int),
            forall|j: int| 0 <= j < k ==> views(list@)[j] != name,
        decreases list.len() - k,
    {
        if is_word(s, from, to, &list[k]) {
            assert(views(list@)[k as int] == name);
            return true;
        }
        k += 1;
    }
    false
}

fn same_name(s: &Vec<char>, from: usize, to: usize, other: usize, other_to: usize) -> (b: bool)
    requires
        from <= to <= s.len(),
        other <= other_to <= s.len(),
    ensures
        b == (s@.subrange(other as int, other_to as int) == s@.subrange(from as int, to as int)),
{
    let ghost a = s@.subrange(from as int, to as int);
    let ghost b = s@.subrange(other as int, other_to as int);
    if to - from != other_to - other {
        assert(a.len() != b.len());
        return false;
    }
    let mut k: usize = 0;
    while k < to - from
        invariant
            k <= to - from,
            to - from == other_to - other,
            from <= to <= s.len(),
            other <= other_to <= s.len(),
            a == s@.subrange(from as int, to as int),
            b == s@.subrange(other as int, other_to as int),
            forall|j: int| 0 <= j < k ==> a[j] == b[j],
        decreases to - from - k,
    {
        if s[from + k] != s[other + k] {
            assert(a[k as int] != b[k as int]);
            return false;
        }
        k += 1;
    }
    assert(a =~= b);
    true
}

/// Reads the attributes of a tag from index `j` on, through the end of
/// the tag, and appends the values that are prose to `spans`. Gives the
/// index after the tag and whether the tag ends in `/>`.
pub(crate) fn scan_attributes(s: &Vec<char>, j: usize, spans: &mut Vec<Span>, words: &Words) -> (r:
    Option<(usize, bool)>)
    requires
        words.wf(),
        j <= s.len(),
        ordered(old(spans)@, 0, j as int),
    ensures
        match r {
            Some((next, closed)) => attributes(s@, j as int, old(spans)@) == Some(
                (final(spans)@, next as int, closed),
            ) && j < next <= s.len() && ordered(final(spans)@, 0, next as int),
            None => attributes(s@, j as int, old(spans)@) is None,
        },
{
    let mut k: usize = j;
    loop
        invariant
            words.wf(),
            j <= k <= s.len(),
            ordered(spans@, 0, k as int),
            attributes(s@, j as int, old(spans)@) == attributes(s@, k as int, spans@),
        decreases s.len() - k,
    {
        if k >= s.len() {
            return None;
        }
        let p = skip_blanks(s, k);
        if p < s.len() && s[p] == '>' {
            return Some((p + 1, false));
        }
        if p < s.len() && s[p] == '/' && p + 1 < s.len() && s[p + 1] == '>' {
            return Some((p + 2, true));
        }
        let n = skip_class(s, p, Class::Attribute);
        if n <= p {
            return None;
        }
        let q = skip_blanks(s, n);
        if !(q < s.len() && s[q] == '=') {
            k = n;
            continue;
        }
        let v = skip_blanks(s, q + 1);
        if v < s.len() && (s[v] == '"' || s[v] == '\'') {
            match find_char(s, v + 1, s[v]) {
                Some(c) => {
                    if in_list(s, p, n, &words.prose) {
                        spans.push(Span { kind: Kind::Prose, start: v + 1, end: c });
                    }
                    k = c + 1;
                },
                None => {
                    return None;
                },
            }
        } else {
            let b = skip_class(s, v, Class::Bare);
            if b <= v {
                return None;
            }
            k = b;
        }
    }
}

/// Reads the opening tag at index `i` and appends the attribute values
/// that are prose to `spans`. Gives the index after the name, the index
/// after the tag and whether the tag ends in `/>`.
pub(crate) fn scan_open_tag(
    s: &Vec<char>,
    i: usize,
    spans: &mut Vec<Span>,
    words: &Words,
) -> (r: Option<(usize, usize, bool)>)
    requires
        words.wf(),
        i <= s.len(),
        ordered(old(spans)@, 0, i as int),
    ensures
        match r {
            Some((name_to, next, closed)) => open_tag(s@, i as int, old(spans)@) == Some(
                Tag {
                    name_from: i + 1,
                    name_to: name_to as int,
                    spans: final(spans)@,
                    next: next as int,
                    closed,
                },
            ) && i + 1 <= name_to <= next <= s.len() && i < next && ordered(
                final(spans)@,
                0,
                next as int,
            ),
            None => open_tag(s@, i as int, old(spans)@) is None,
        },
{
    if !(i < s.len() && s[i] == '<' && i + 1 < s.len() && letter(s[i + 1])) {
        return None;
    }
    let name_to = skip_class(s, i + 1, Class::Name);
    match scan_attributes(s, name_to, spans, words) {
        Some((next, closed)) => Some((name_to, next, closed)),
        None => None,
    }
}

/// Reads the closing tag at index `i`. Gives the index after the name
/// and the index after the tag.
pub fn scan_close_tag(s: &Vec<char>, i: usize) -> (r: Option<(usize, usize)>)
    ensures
        match r {
            Some((name_to, next)) => close_tag(s@, i as int) == Some(
                (i + 2, name_to as int, next as int),
            ) && i + 2 <= name_to < next <= s.len(),
            None => close_tag(s@, i as int) is None,
        },
{
    if !(i < s.len() && s[i] == '<' && i + 1 < s.len() && s[i + 1] == '/' && i + 2 < s.len()
        && letter(s[i + 2])) {
        return None;
    }
    let name_to = skip_class(s, i + 2, Class::Name);
    let p = skip_blanks(s, name_to);
    if p < s.len() && s[p] == '>' {
        Some((name_to, p + 1))
    } else {
        None
    }
}

/// Reads content from index `i` on and appends its spans to `spans`.
/// Gives the index at which the content ends, or the index at which the
/// text stops following the grammar.
pub(crate) fn parse_content(
    s: &Vec<char>,
    i: usize,
    spans: &mut Vec<Span>,
    words: &Words,
) -> (r: Result<usize, usize>)
    requires
        words.wf(),
        i <= s.len(),
        ordered(old(spans)@, 0, i as int),
    ensures
        match r {
            Ok(next) => content(s@, i as int, old(spans)@) == (Parsed::Good {
                spans: final(spans)@,
                next: next as int,
            }) && i <= next <= s.len() && ordered(final(spans)@, 0, next as int),
            Err(at) => content(s@, i as int, old(spans)@) == (Parsed::Bad { at: at as int }),
        },
    decreases s.len() - i,
{
    let comment_open = ['<', '!', '-', '-'];
    let comment_close = ['-', '-', '>'];
    let script_close = ['<', '/', 's', 'c', 'r', 'i', 'p', 't', '>'];
    let style_close = ['<', '/', 's', 't', 'y', 'l', 'e', '>'];
    let instruction_close = ['?', '>'];
    assert(instruction_close@ =~= self::instruction_close());
    assert(comment_open@ =~= self::comment_open());
    assert(comment_close@ =~= self::comment_close());
    assert(script_close@ =~= self::script_close());
    assert(style_close@ =~= self::style_close());
    let mut k: usize = i;
    loop
        invariant
            words.wf(),
            i <= k <= s.len(),
            comment_open@ == self::comment_open(),
            comment_close@ == self::comment_close(),
            script_close@ == self::script_close(),
            style_close@ == self::style_close(),
            instruction_close@ == self::instruction_close(),
            ordered(spans@, 0, k as int),
            content(s@, i as int, old(spans)@) == content(s@, k as int, spans@),
        decreases s.len() - k,
    {
        if k >= s.len() {
            return Ok(k);
        }
        let c = s[k];
        if matches_at(s, k, comment_open.as_slice()) {
            match find_literal(s, k + 4, comment_close.as_slice()) {
                Some(e) => {
                    spans.push(Span { kind: Kind::Markup, start: k + 4, end: e });
                    k = e + 3;
                },
                None => {
                    return Err(k);
                },
            }
        } else if c == '<' && k + 1 < s.len() && s[k + 1] == '!' {
            match find_char(s, k + 2, '>') {
                Some(e) => {
                    k = e + 1;
                },
                None => {
                    return Err(k);
                },
            }
        } else if c == '<' && k + 1 < s.len() && s[k + 1] == '?' {
            match find_literal(s, k + 2, instruction_close.as_slice()) {
                Some(e) => {
                    k = e + 2;
                },
                None => {
                    return Err(k);
                },
            }
        } else if c == '<' && k + 1 < s.len() && s[k + 1] == '/' {
            match scan_close_tag(s, k) {
                Some((name_to, next)) => {
                    if in_list(s, k + 2, name_to, &words.loose) {
                        k = next;
                    } else {
                        return Ok(k);
                    }
                },
                None => {
                    return Err(k);
                },
            }
        } else if is_markup(s, k) {
            let (name_to, next, closed) = match scan_open_tag(s, k, spans, words) {
                Some(tag) => tag,
                None => {
                    return Err(k);
                },
            };
            if closed {
                k = next;
            } else if is_word(s, k + 1, name_to, &words.script) {
                match find_literal(s, next, script_close.as_slice()) {
                    Some(e) => {
                        spans.push(Span { kind: Kind::Script, start: next, end: e });
                        k = e + 9;
                    },
                    None => {
                        return Err(next);
                    },
                }
            } else if is_word(s, k + 1, name_to, &words.style) {
                match find_literal(s, next, style_close.as_slice()) {
                    Some(e) => {
                        spans.push(Span { kind: Kind::Style, start: next, end: e });
                        k = e + 8;
                    },
                    None => {
                        return Err(next);
                    },
                }
            } else if in_list(s, k + 1, name_to, &words.voids) || in_list(
                s,
                k + 1,
                name_to,
                &words.loose,
            ) {
                k = next;
            } else {
                let inner = match parse_content(s, next, spans, words) {
                    Ok(inner) => inner,
                    Err(at) => {
                        return Err(at);
                    },
                };
                match scan_close_tag(s, inner) {
                    Some((close_to, after)) => {
                        if same_name(s, k + 1, name_to, inner + 2, close_to) {
                            k = after;
                        } else {
                            return Err(inner);
                        }
                    },
                    None => {
                        return Err(inner);
                    },
                }
            }
        } else {
            match scan_entity(s, k) {
                Some(e) => {
                    k = e;
                },
                None => {
                    let e = scan_text_end(s, k + 1);
                    spans.push(Span { kind: Kind::Prose, start: k, end: e });
                    k = e;
                },
            }
        }
    }
}

/// Reads a whole document and gives its spans, or the index at which it
/// stops being HTML.
pub(crate) fn parse(s: &Vec<char>, words: &Words) -> (r: Result<Vec<Span>, usize>)
    requires
        words.wf(),
    ensures
        match r {
            Ok(spans) => document(s@) == (Parsed::Good { spans: spans@, next: s@.len() as int })
                && ordered(spans@, 0, s@.len() as int),
            Err(at) => document(s@) == (Parsed::Bad { at: at as int }),
        },
{
    let mut spans: Vec<Span> = Vec::new();
    match parse_content(s, 0, &mut spans, words) {
        Err(at) => Err(at),
        Ok(next) => if next == s.len() {
            Ok(spans)
        } else {
            Err(next)
        },
    }
}

/// Walks the document `s`: gives it with its spans rewritten, or the
/// index at which it stops being HTML.
pub(crate) fn rewrite(s: &Vec<char>, words: &Words) -> (r: Result<Vec<char>, usize>)
    requires
        words.wf(),
    ensures
        match r {
            Ok(out) => output(s@) == Some(out@),
            Err(at) => document(s@) == (Parsed::Bad { at: at as int }),
        },
    decreases s.len(),
{
    let spans = match parse(s, words) {
        Ok(spans) => spans,
        Err(at) => {
            return Err(at);
        },
    };
    let mut texts: Vec<Vec<char>> = Vec::new();
    let mut k: usize = 0;
    assert(views(texts@) =~= Seq::<Seq<char>>::empty());
    while k < spans.len()
        invariant
            words.wf(),
            k <= spans.len(),
            texts.len() == k,
            ordered(spans@, 0, s@.len() as int),
            texts_from(s@, spans@, 0, Seq::empty()) == texts_from(
                s@,
                spans@,
                k as int,
                views(texts@),
            ),
        decreases spans.len() - k,
    {
        let span = spans[k];
        let ghost before = views(texts@);
        let body = slice(s, span.start, span.end);
        let text = match span.kind {
            Kind::Script => js::rewrite(&body),
            Kind::Style => css::rewrite(&body),
            Kind::Markup => if body.len() < s.len() {
                match rewrite(&body, words) {
                    Ok(walked) => walked,
                    Err(_) => body,
                }
            } else {
                body
            },
            _ => {
                let mut text: Vec<char> = Vec::new();
                push_spaced(&mut text, s, span.start, span.end);
                assert(text@ =~= spaced(s@.subrange(span.start as int, span.end as int)));
                text
            },
        };
        assert(text@ == rewritten(s@, span));
        texts.push(text);
        assert(views(texts@) =~= before.push(rewritten(s@, span)));
        k += 1;
    }
    Ok(patch(s, &spans, &texts))
}

/// Spaces the text of an HTML document, the values of its `title`,
/// `alt`, `placeholder`, `value`, `label` and `aria-label` attributes,
/// its comments, and its scripts and style sheets. A text that is not an
/// HTML document is refused, with the index at which it stopped being
/// one.
pub fn process(input: &str) -> (r: Result<String, ParseError>)
    ensures
        match r {
            Ok(out) => output(input@) == Some(out@),
            Err(ParseError::Syntax { format, offset }) => format == Format::Html && document(
                input@,
            ) == (Parsed::Bad { at: offset as int }),
        },
{
    let s = to_chars(input);
    let words = Words::new();
    match rewrite(&s, &words) {
        Ok(out) => Ok(to_text(&out)),
        Err(at) => Err(ParseError::Syntax { format: Format::Html, offset: at }),
    }
}

/// The HTML grammar.
pub struct HtmlParser;

impl HtmlParser {
    /// Reads a document and gives its spans, each with what is to be done
    /// with it, or refuses the document.
    pub fn parse(input: &str) -> (r: Result<Vec<Span>, ParseError>)
        ensures
            match r {
                Ok(spans) => document(input@) == (Parsed::Good {
                    spans: spans@,
                    next: input@.len() as int,
                }) && ordered(spans@, 0, input@.len() as int),
                Err(ParseError::Syntax { format, offset }) => format == Format::Html && document(
                    input@,
                ) == (Parsed::Bad { at: offset as int }),
            },
    {
        let s = to_chars(input);
        let words = Words::new();
        match parse(&s, &words) {
            Ok(spans) => Ok(spans),
            Err(at) => Err(ParseError::Syntax { format: Format::Html, offset: at }),
        }
    }
}

} // verus!
