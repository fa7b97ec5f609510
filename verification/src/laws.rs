//! What holds of the spacing scan and of the walkers for every text.

use crate::css;
use crate::dispatch::{found_spans, walked};
use crate::engine::{needs_space, spaced};
use crate::error::Format;
use crate::html;
use crate::js;
use crate::json;
use crate::json5;
use crate::lex::Parsed;
use crate::markdown;
use crate::php;
use crate::rust;
use crate::walker::{
    lemma_identity_unchanged, lemma_no_spans_unchanged, ordered, patched, prose_texts, respaced,
    Kind, Span,
};
use crate::width::is_wide;
use vstd::prelude::*;

verus! {

/// Whether `s` holds two half-width spaces next to each other.
pub open spec fn has_double_space(s: Seq<char>) -> bool {
    exists|i: int| 0 <= i && i + 1 < s.len() && s[i] == ' ' && #[trigger] s[i + 1] == ' '
}

/// Whether every two neighbours in `s` belong to the same width class.
pub open spec fn one_class_neighbours(s: Seq<char>) -> bool {
    forall|i: int| 0 <= i && i + 1 < s.len() ==> is_wide(s[i]) == is_wide(#[trigger] s[i + 1])
}

/// A space is only ever inserted between two characters neither of which
/// is a space.
pub proof fn lemma_space_only_between_non_spaces(prev: char, cur: char)
    requires
        needs_space(prev, cur),
    ensures
        prev != ' ',
        cur != ' ',
{
}

/// No space is inserted between two characters of the same width class.
pub proof fn lemma_same_class_no_space(prev: char, cur: char)
    requires
        is_wide(prev) == is_wide(cur),
    ensures
        !needs_space(prev, cur),
{
}

/// A backslash followed by a line feed, which continues a string on the
/// next line, stays as it is: no space is put before the backslash,
/// between the backslash and the line feed, or after the line feed.
pub proof fn lemma_line_continuation_kept(prev: char, next: char)
    ensures
        !needs_space(prev, '\\'),
        !needs_space('\\', '\n'),
        !needs_space('\n', next),
{
}

/// The spaced text is at least as long as the text and ends as the text
/// ends.
pub proof fn lemma_spaced_ends(s: Seq<char>)
    ensures
        spaced(s).len() >= s.len(),
        s.len() > 0 ==> spaced(s).last() == s.last(),
    decreases s.len(),
{
    if s.len() > 1 {
        lemma_spaced_ends(s.drop_last());
    }
}

/// Spacing a text that ends in `prev`, with `cur` appended.
proof fn lemma_spaced_push(s: Seq<char>, cur: char)
    requires
        s.len() > 0,
    ensures
        spaced(s.push(cur)) == if needs_space(s.last(), cur) {
            spaced(s).push(' ').push(cur)
        } else {
            spaced(s).push(cur)
        },
{
    assert(s.push(cur).drop_last() =~= s);
}

/// Spacing is idempotent: spacing a spaced text changes nothing.
pub proof fn lemma_spacing_idempotent(t: Seq<char>)
    ensures
        spaced(spaced(t)) == spaced(t),
    decreases t.len(),
{
    if t.len() > 1 {
        let head = t.drop_last();
        let prev = t[t.len() - 2];
        let cur = t.last();
        let o = spaced(head);
        lemma_spacing_idempotent(head);
        lemma_spaced_ends(head);
        assert(o.last() == prev);
        if needs_space(prev, cur) {
            lemma_spaced_push(o, ' ');
            lemma_spaced_push(o.push(' '), cur);
        } else {
            lemma_spaced_push(o, cur);
        }
    }
}

/// Spacing never creates two consecutive spaces: the spaced text holds a
/// double space only if the text itself does.
pub proof fn lemma_no_new_double_space(t: Seq<char>)
    requires
        has_double_space(spaced(t)),
    ensures
        has_double_space(t),
    decreases t.len(),
{
    if t.len() > 1 {
        let head = t.drop_last();
        let prev = t[t.len() - 2];
        let cur = t.last();
        let o = spaced(head);
        let out = spaced(t);
        lemma_spaced_ends(head);
        assert(o.last() == prev);
        let k = choose|i: int|
            0 <= i && i + 1 < out.len() && out[i] == ' ' && #[trigger] out[i + 1] == ' ';
        if k + 1 < o.len() {
            assert(o[k] == ' ' && o[k + 1] == ' ');
            assert(has_double_space(o));
            lemma_no_new_double_space(head);
            let j = choose|i: int|
                0 <= i && i + 1 < head.len() && head[i] == ' ' && #[trigger] head[i + 1] == ' ';
            assert(t[j] == ' ' && t[j + 1] == ' ');
        } else if needs_space(prev, cur) {
            assert(false);
        } else {
            assert(k == o.len() - 1);
            assert(t[t.len() - 2] == ' ' && t[t.len() - 2 + 1] == ' ');
        }
    }
}

/// A text whose neighbours all share a width class is left unchanged.
pub proof fn lemma_same_class_unchanged(t: Seq<char>)
    requires
        one_class_neighbours(t),
    ensures
        spaced(t) == t,
    decreases t.len(),
{
    if t.len() > 1 {
        let head = t.drop_last();
        assert(one_class_neighbours(head)) by {
            assert forall|i: int| 0 <= i && i + 1 < head.len() implies is_wide(head[i]) == is_wide(
                #[trigger] head[i + 1],
            ) by {
                assert(is_wide(t[i]) == is_wide(t[i + 1]));
            }
        }
        lemma_same_class_unchanged(head);
        assert(is_wide(t[t.len() - 2]) == is_wide(t[t.len() - 2 + 1]));
        assert(head.push(t.last()) =~= t);
    }
}

/// A walker accepts a document in which its grammar finds no span, and
/// gives it back unchanged.
pub proof fn lemma_structure_only_unchanged(format: Format, s: Seq<char>)
    requires
        found_spans(format, s) == Some(Seq::<Span>::empty()),
    ensures
        walked(format, s) == Some(s),
{
    lemma_no_spans_unchanged(s, Seq::empty());
    let none = Seq::<Span>::empty();
    assert(crate::walker::prose_texts(s, none) =~= Seq::<Seq<char>>::empty());
    assert(crate::php::texts(s, none) =~= Seq::<Seq<char>>::empty());
    assert(crate::rust::texts(s, none) =~= Seq::<Seq<char>>::empty());
    assert(crate::html::texts_from(s, none, 0, Seq::empty()) =~= Seq::<Seq<char>>::empty());
}

/// Whether `s` holds no full-width character.
pub open spec fn narrow(s: Seq<char>) -> bool {
    forall|i: int| 0 <= i < s.len() ==> !is_wide(#[trigger] s[i])
}

/// A part of a text without full-width characters has none either.
pub proof fn lemma_narrow_part(s: Seq<char>, from: int, to: int)
    requires
        narrow(s),
        0 <= from <= to <= s.len(),
    ensures
        narrow(s.subrange(from, to)),
{
    let part = s.subrange(from, to);
    assert forall|i: int| 0 <= i < part.len() implies !is_wide(#[trigger] part[i]) by {
        assert(part[i] == s[from + i]);
    }
}

/// The spacing scan leaves a text without full-width characters
/// unchanged.
pub proof fn lemma_narrow_spaced(s: Seq<char>)
    requires
        narrow(s),
    ensures
        spaced(s) == s,
{
    assert(one_class_neighbours(s)) by {
        assert forall|i: int| 0 <= i && i + 1 < s.len() implies is_wide(s[i]) == is_wide(
            #[trigger] s[i + 1],
        ) by {
            assert(!is_wide(s[i]));
            assert(!is_wide(s[i + 1]));
        }
    }
    lemma_same_class_unchanged(s);
}

/// Spacing the spans of a document without full-width characters leaves
/// it unchanged.
pub proof fn lemma_narrow_respaced(s: Seq<char>, spans: Seq<Span>)
    requires
        narrow(s),
        ordered(spans, 0, s.len() as int),
    ensures
        respaced(s, spans) == s,
{
    let texts = prose_texts(s, spans);
    assert forall|k: int| 0 <= k < spans.len() implies #[trigger] texts[k] == s.subrange(
        spans[k].start as int,
        spans[k].end as int,
    ) by {
        lemma_narrow_part(s, spans[k].start as int, spans[k].end as int);
        lemma_narrow_spaced(s.subrange(spans[k].start as int, spans[k].end as int));
    }
    lemma_identity_unchanged(s, spans, texts);
}

/// What replaces the first `k` spans of an HTML document without
/// full-width characters is their own text.
proof fn lemma_html_texts_same(s: Seq<char>, spans: Seq<Span>, k: int, acc: Seq<Seq<char>>)
    requires
        narrow(s),
        s.len() <= usize::MAX,
        ordered(spans, 0, s.len() as int),
        0 <= k <= spans.len(),
        acc.len() == k,
        forall|j: int|
            0 <= j < k ==> #[trigger] acc[j] == s.subrange(
                spans[j].start as int,
                spans[j].end as int,
            ),
    ensures
        html::texts_from(s, spans, k, acc).len() == spans.len(),
        forall|j: int|
            0 <= j < spans.len() ==> #[trigger] html::texts_from(s, spans, k, acc)[j]
                == s.subrange(spans[j].start as int, spans[j].end as int),
    decreases s.len(), 0int, spans.len() - k,
{
    if k < spans.len() {
        let span = spans[k];
        let body = s.subrange(span.start as int, span.end as int);
        lemma_narrow_part(s, span.start as int, span.end as int);
        match span.kind {
            Kind::Script => {
                lemma_js_narrow(body);
            },
            Kind::Style => {
                lemma_css_narrow(body);
            },
            Kind::Markup => {
                if body.len() < s.len() {
                    lemma_html_narrow(body);
                }
            },
            _ => {
                lemma_narrow_spaced(body);
            },
        }
        assert(html::rewritten(s, span) == body);
        let more = acc.push(body);
        assert forall|j: int| 0 <= j < k + 1 implies #[trigger] more[j] == s.subrange(
            spans[j].start as int,
            spans[j].end as int,
        ) by {
            if j < k {
                assert(more[j] == acc[j]);
            }
        }
        lemma_html_texts_same(s, spans, k + 1, more);
    }
}

/// The CSS walker leaves a style sheet without full-width characters
/// unchanged.
pub proof fn lemma_css_narrow(s: Seq<char>)
    requires
        narrow(s),
        s.len() <= usize::MAX,
    ensures
        css::output(s) == s,
{
    css::lemma_spans_ordered(s, 0, Seq::empty());
    lemma_narrow_respaced(s, css::prose_spans(s));
}

/// The JavaScript walker leaves a program without full-width characters
/// unchanged.
pub proof fn lemma_js_narrow(s: Seq<char>)
    requires
        narrow(s),
        s.len() <= usize::MAX,
    ensures
        js::output(s) == s,
{
    js::lemma_spans_ordered(s, 0, Seq::empty());
    lemma_narrow_respaced(s, js::prose_spans(s));
}

/// The HTML walker, where it accepts a document without full-width
/// characters, leaves it unchanged.
pub proof fn lemma_html_narrow(s: Seq<char>)
    requires
        narrow(s),
        s.len() <= usize::MAX,
    ensures
        html::output_or_same(s) == s,
    decreases s.len(), 1int, 0int,
{
    if let Parsed::Good { spans, next } = html::document(s) {
        html::lemma_document_ordered(s);
        lemma_html_texts_same(s, spans, 0, Seq::empty());
        lemma_identity_unchanged(s, spans, html::texts_from(s, spans, 0, Seq::empty()));
    }
}

/// A walker that accepts a document without full-width characters leaves
/// it unchanged. For Rust-like source this holds where the source has no
/// doc comment.
pub proof fn lemma_narrow_unchanged(format: Format, s: Seq<char>)
    requires
        narrow(s),
        s.len() <= usize::MAX,
        format == Format::Rust ==> forall|k: int|
            0 <= k < rust::spans(s).len() ==> (#[trigger] rust::spans(s)[k]).kind == Kind::Prose,
    ensures
        walked(format, s) matches Some(out) ==> out == s,
{
    match format {
        Format::Css => {
            lemma_css_narrow(s);
        },
        Format::Js => {
            lemma_js_narrow(s);
        },
        Format::Markdown => {
            let start = markdown::line_start(s, 0);
            crate::lex::lemma_run_bounds(s, 0, crate::lex::Class::QuoteMark);
            markdown::lemma_spans_ordered(s, start, start, Seq::empty());
            lemma_narrow_respaced(s, markdown::prose_spans(s));
        },
        Format::Json => {
            json::lemma_document_ordered(s);
            if let Parsed::Good { spans, next } = json::document(s) {
                lemma_narrow_respaced(s, spans);
            }
        },
        Format::Json5 => {
            json5::lemma_document_ordered(s);
            if let Parsed::Good { spans, next } = json5::document(s) {
                lemma_narrow_respaced(s, spans);
            }
        },
        Format::Html => {
            lemma_html_narrow(s);
        },
        Format::Php => {
            let spans = php::spans(s);
            let texts = php::texts(s, spans);
            php::lemma_markup_ordered(s, 0, Seq::empty());
            assert forall|k: int| 0 <= k < spans.len() implies #[trigger] texts[k] == s.subrange(
                spans[k].start as int,
                spans[k].end as int,
            ) by {
                lemma_narrow_part(s, spans[k].start as int, spans[k].end as int);
                lemma_html_narrow(s.subrange(spans[k].start as int, spans[k].end as int));
            }
            lemma_identity_unchanged(s, spans, texts);
        },
        Format::Rust => {
            let spans = rust::spans(s);
            let texts = rust::texts(s, spans);
            rust::lemma_spans_ordered(s, 0, Seq::empty());
            assert forall|k: int| 0 <= k < spans.len() implies #[trigger] texts[k] == s.subrange(
                spans[k].start as int,
                spans[k].end as int,
            ) by {
                lemma_narrow_part(s, spans[k].start as int, spans[k].end as int);
                lemma_narrow_spaced(s.subrange(spans[k].start as int, spans[k].end as int));
            }
            lemma_identity_unchanged(s, spans, texts);
        },
    }
}

/// The text `s` without its half-width spaces.
pub open spec fn unspaced(s: Seq<char>) -> Seq<char>
    decreases s.len(),
{
    if s.len() == 0 {
        s
    } else if s.last() == ' ' {
        unspaced(s.drop_last())
    } else {
        unspaced(s.drop_last()).push(s.last())
    }
}

/// Taking the spaces out of a text with one more character.
proof fn lemma_unspaced_push(s: Seq<char>, c: char)
    ensures
        unspaced(s.push(c)) == if c == ' ' {
            unspaced(s)
        } else {
            unspaced(s).push(c)
        },
{
    assert(s.push(c).drop_last() =~= s);
}

/// Taking the spaces out of two texts in a row is taking them out of
/// each.
pub proof fn lemma_unspaced_add(a: Seq<char>, b: Seq<char>)
    ensures
        unspaced(a + b) == unspaced(a) + unspaced(b),
    decreases b.len(),
{
    if b.len() == 0 {
        assert(a + b =~= a);
        assert(unspaced(a) + unspaced(b) =~= unspaced(a));
    } else {
        let head = b.drop_last();
        lemma_unspaced_add(a, head);
        assert((a + b).drop_last() =~= a + head);
        if b.last() != ' ' {
            assert((unspaced(a) + unspaced(head)).push(b.last()) =~= unspaced(a) + unspaced(
                head,
            ).push(b.last()));
        }
    }
}

/// The spacing scan only adds spaces: without its spaces, the spaced text
/// is the text without its spaces.
pub proof fn lemma_spacing_adds_spaces_only(t: Seq<char>)
    ensures
        unspaced(spaced(t)) == unspaced(t),
    decreases t.len(),
{
    if t.len() > 1 {
        let head = t.drop_last();
        lemma_spacing_adds_spaces_only(head);
        let o = spaced(head);
        lemma_unspaced_push(o, ' ');
        lemma_unspaced_push(o.push(' '), t.last());
        lemma_unspaced_push(o, t.last());
    }
}

/// Where each replacement differs from its span by spaces only, the
/// assembled document from `pos` on differs from the document by spaces
/// only.
proof fn lemma_patched_adds_spaces_only(
    s: Seq<char>,
    spans: Seq<Span>,
    texts: Seq<Seq<char>>,
    k: int,
    pos: int,
)
    requires
        ordered(spans, 0, s.len() as int),
        texts.len() == spans.len(),
        forall|j: int|
            0 <= j < spans.len() ==> unspaced(#[trigger] texts[j]) == unspaced(
                s.subrange(spans[j].start as int, spans[j].end as int),
            ),
        0 <= k <= spans.len(),
        0 <= pos <= s.len(),
        k < spans.len() ==> pos <= spans[k].start,
    ensures
        unspaced(patched(s, spans, texts, k, pos)) == unspaced(s.subrange(pos, s.len() as int)),
    decreases spans.len() - k,
{
    if k < spans.len() {
        let start = spans[k].start as int;
        let end = spans[k].end as int;
        let rest = patched(s, spans, texts, k + 1, end);
        assert(k + 1 < spans.len() ==> spans[k].end <= spans[k + 1].start);
        lemma_patched_adds_spaces_only(s, spans, texts, k + 1, end);
        lemma_unspaced_add(s.subrange(pos, start) + texts[k], rest);
        lemma_unspaced_add(s.subrange(pos, start), texts[k]);
        lemma_unspaced_add(
            s.subrange(pos, start) + s.subrange(start, end),
            s.subrange(end, s.len() as int),
        );
        lemma_unspaced_add(s.subrange(pos, start), s.subrange(start, end));
        assert(s.subrange(pos, start) + s.subrange(start, end) + s.subrange(end, s.len() as int)
            =~= s.subrange(pos, s.len() as int));
    }
}

/// Spacing the spans of a document changes the document by adding spaces
/// only.
pub proof fn lemma_respaced_adds_spaces_only(s: Seq<char>, spans: Seq<Span>)
    requires
        ordered(spans, 0, s.len() as int),
    ensures
        unspaced(respaced(s, spans)) == unspaced(s),
{
    let texts = prose_texts(s, spans);
    assert forall|k: int| 0 <= k < spans.len() implies unspaced(#[trigger] texts[k]) == unspaced(
        s.subrange(spans[k].start as int, spans[k].end as int),
    ) by {
        lemma_spacing_adds_spaces_only(s.subrange(spans[k].start as int, spans[k].end as int));
    }
    lemma_patched_adds_spaces_only(s, spans, texts, 0, 0);
    assert(s.subrange(0, s.len() as int) =~= s);
}

/// What replaces the spans of an HTML document differs from them by
/// spaces only.
proof fn lemma_html_texts_add_spaces_only(
    s: Seq<char>,
    spans: Seq<Span>,
    k: int,
    acc: Seq<Seq<char>>,
)
    requires
        s.len() <= usize::MAX,
        ordered(spans, 0, s.len() as int),
        0 <= k <= spans.len(),
        acc.len() == k,
        forall|j: int|
            0 <= j < k ==> unspaced(#[trigger] acc[j]) == unspaced(
                s.subrange(spans[j].start as int, spans[j].end as int),
            ),
    ensures
        html::texts_from(s, spans, k, acc).len() == spans.len(),
        forall|j: int|
            0 <= j < spans.len() ==> unspaced(#[trigger] html::texts_from(s, spans, k, acc)[j])
                == unspaced(s.subrange(spans[j].start as int, spans[j].end as int)),
    decreases s.len(), 0int, spans.len() - k,
{
    if k < spans.len() {
        let span = spans[k];
        let body = s.subrange(span.start as int, span.end as int);
        match span.kind {
            Kind::Script => {
                js::lemma_spans_ordered(body, 0, Seq::empty());
                lemma_respaced_adds_spaces_only(body, js::prose_spans(body));
            },
            Kind::Style => {
                css::lemma_spans_ordered(body, 0, Seq::empty());
                lemma_respaced_adds_spaces_only(body, css::prose_spans(body));
            },
            Kind::Markup => {
                if body.len() < s.len() {
                    lemma_html_adds_spaces_only(body);
                }
            },
            _ => {
                lemma_spacing_adds_spaces_only(body);
            },
        }
        let text = html::rewritten(s, span);
        assert(unspaced(text) == unspaced(body));
        let more = acc.push(text);
        assert forall|j: int| 0 <= j < k + 1 implies unspaced(#[trigger] more[j]) == unspaced(
            s.subrange(spans[j].start as int, spans[j].end as int),
        ) by {
            if j < k {
                assert(more[j] == acc[j]);
            }
        }
        lemma_html_texts_add_spaces_only(s, spans, k + 1, more);
    }
}

/// The HTML walker changes a document by adding spaces only.
pub proof fn lemma_html_adds_spaces_only(s: Seq<char>)
    requires
        s.len() <= usize::MAX,
    ensures
        unspaced(html::output_or_same(s)) == unspaced(s),
    decreases s.len(), 1int, 0int,
{
    if let Parsed::Good { spans, next } = html::document(s) {
        html::lemma_document_ordered(s);
        lemma_html_texts_add_spaces_only(s, spans, 0, Seq::empty());
        lemma_patched_adds_spaces_only(
            s,
            spans,
            html::texts_from(s, spans, 0, Seq::empty()),
            0,
            0,
        );
        assert(s.subrange(0, s.len() as int) =~= s);
    }
}

/// A walker changes the document it accepts by adding half-width spaces
/// and in no other way: structure and prose both keep every character
/// that is not a space, in order. For Rust-like source this holds where
/// the source has no doc comment.
pub proof fn lemma_adds_spaces_only(format: Format, s: Seq<char>)
    requires
        s.len() <= usize::MAX,
        format == Format::Rust ==> forall|k: int|
            0 <= k < rust::spans(s).len() ==> (#[trigger] rust::spans(s)[k]).kind == Kind::Prose,
    ensures
        walked(format, s) matches Some(out) ==> unspaced(out) == unspaced(s),
{
    match format {
        Format::Css => {
            css::lemma_spans_ordered(s, 0, Seq::empty());
            lemma_respaced_adds_spaces_only(s, css::prose_spans(s));
        },
        Format::Js => {
            js::lemma_spans_ordered(s, 0, Seq::empty());
            lemma_respaced_adds_spaces_only(s, js::prose_spans(s));
        },
        Format::Markdown => {
            let start = markdown::line_start(s, 0);
            crate::lex::lemma_run_bounds(s, 0, crate::lex::Class::QuoteMark);
            markdown::lemma_spans_ordered(s, start, start, Seq::empty());
            lemma_respaced_adds_spaces_only(s, markdown::prose_spans(s));
        },
        Format::Json => {
            json::lemma_document_ordered(s);
            if let Parsed::Good { spans, next } = json::document(s) {
                lemma_respaced_adds_spaces_only(s, spans);
            }
        },
        Format::Json5 => {
            json5::lemma_document_ordered(s);
            if let Parsed::Good { spans, next } = json5::document(s) {
                lemma_respaced_adds_spaces_only(s, spans);
            }
        },
        Format::Html => {
            lemma_html_adds_spaces_only(s);
        },
        Format::Php => {
            let spans = php::spans(s);
            let texts = php::texts(s, spans);
            php::lemma_markup_ordered(s, 0, Seq::empty());
            assert forall|k: int| 0 <= k < spans.len() implies unspaced(#[trigger] texts[k])
                == unspaced(s.subrange(spans[k].start as int, spans[k].end as int)) by {
                lemma_html_adds_spaces_only(s.subrange(spans[k].start as int, spans[k].end as int));
            }
            lemma_patched_adds_spaces_only(s, spans, texts, 0, 0);
            assert(s.subrange(0, s.len() as int) =~= s);
        },
        Format::Rust => {
            let spans = rust::spans(s);
            let texts = rust::texts(s, spans);
            rust::lemma_spans_ordered(s, 0, Seq::empty());
            assert forall|k: int| 0 <= k < spans.len() implies unspaced(#[trigger] texts[k])
                == unspaced(s.subrange(spans[k].start as int, spans[k].end as int)) by {
                lemma_spacing_adds_spaces_only(
                    s.subrange(spans[k].start as int, spans[k].end as int),
                );
            }
            lemma_patched_adds_spaces_only(s, spans, texts, 0, 0);
            assert(s.subrange(0, s.len() as int) =~= s);
        },
    }
}

} // verus!
