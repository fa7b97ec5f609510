//! What every walker shares: the spans of a document that are to be
//! rewritten, and the assembly of the output from the document and the
//! rewritten spans.

use crate::engine::{push_spaced, spaced};
use vstd::prelude::*;

verus! {

/// What is to be done with a span of the document.
#[derive(Debug, Clone, Copy, PartialEq, Eq, Structural)]
pub enum Kind {
    /// Natural-language text: it goes through the spacing scan.
    Prose,
    /// Embedded JavaScript.
    Script,
    /// Embedded CSS.
    Style,
    /// Embedded HTML.
    Markup,
    /// A run of `///` lines.
    LineOuterDoc,
    /// A run of `//!` lines.
    LineInnerDoc,
    /// The inside of a `/** */` comment.
    BlockOuterDoc,
    /// The inside of a `/*! */` comment.
    BlockInnerDoc,
}

/// A span of a document, from the character at `start` up to, not
/// including, the one at `end`, with what is to be done with it.
/// Everything outside the spans of a document is structure and is copied
/// as it stands.
#[derive(Debug, Clone, Copy, PartialEq, Eq, Structural)]
pub struct Span {
    pub kind: Kind,
    pub start: usize,
    pub end: usize,
}

/// Whether the spans lie inside a document of `len` characters, none
/// starting before `from`, in document order and without overlap.
pub open spec fn ordered(spans: Seq<Span>, from: int, len: int) -> bool {
    &&& forall|k: int|
        0 <= k < spans.len() ==> from <= (#[trigger] spans[k]).start <= spans[k].end <= len
    &&& forall|k: int|
        0 <= k && k + 1 < spans.len() ==> spans[k].end <= (#[trigger] spans[k + 1]).start
}

/// The document `s` from `pos` on, with each span from the `k`-th on
/// replaced by the text that `texts` holds for it.
pub open spec fn patched(
    s: Seq<char>,
    spans: Seq<Span>,
    texts: Seq<Seq<char>>,
    k: int,
    pos: int,
) -> Seq<char>
    decreases spans.len() - k,
{
    if k < 0 || k >= spans.len() {
        s.subrange(pos, s.len() as int)
    } else {
        s.subrange(pos, spans[k].start as int) + texts[k] + patched(
            s,
            spans,
            texts,
            k + 1,
            spans[k].end as int,
        )
    }
}

/// The views of a list of character vectors.
pub open spec fn views(texts: Seq<Vec<char>>) -> Seq<Seq<char>> {
    Seq::new(texts.len(), |k: int| texts[k]@)
}

/// The spaced text of each span.
pub open spec fn prose_texts(s: Seq<char>, spans: Seq<Span>) -> Seq<Seq<char>> {
    Seq::new(spans.len(), |k: int| spaced(s.subrange(spans[k].start as int, spans[k].end as int)))
}

/// The document with the spacing scan run over each span.
pub open spec fn respaced(s: Seq<char>, spans: Seq<Span>) -> Seq<char> {
    patched(s, spans, prose_texts(s, spans), 0, 0)
}

/// Appends to `out` the characters of `s` from `from` up to `to`.
pub(crate) fn push_range(out: &mut Vec<char>, s: &Vec<char>, from: usize, to: usize)
    requires
        from <= to <= s.len(),
    ensures
        final(out)@ == old(out)@ + s@.subrange(from as int, to as int),
{
    let ghost before = out@;
    let mut i: usize = from;
    while i < to
        invariant
            from <= i <= to <= s.len(),
            out@ == before + s@.subrange(from as int, i as int),
        decreases to - i,
    {
        out.push(s[i]);
        i += 1;
        assert(out@ =~= before + s@.subrange(from as int, i as int));
    }
    assert(out@ =~= before + s@.subrange(from as int, to as int));
}

/// The characters of `s` from `from` up to `to`, as a vector of their own.
pub(crate) fn slice(s: &Vec<char>, from: usize, to: usize) -> (out: Vec<char>)
    requires
        from <= to <= s.len(),
    ensures
        out@ == s@.subrange(from as int, to as int),
{
    let mut out: Vec<char> = Vec::new();
    push_range(&mut out, s, from, to);
    assert(out@ =~= s@.subrange(from as int, to as int));
    out
}

/// Assembles the output: the document with each span replaced by its text.
pub(crate) fn patch(s: &Vec<char>, spans: &Vec<Span>, texts: &Vec<Vec<char>>) -> (out: Vec<char>)
    requires
        ordered(spans@, 0, s@.len() as int),
        texts.len() == spans.len(),
    ensures
        out@ == patched(s@, spans@, views(texts@), 0, 0),
{
    let mut out: Vec<char> = Vec::new();
    let mut pos: usize = 0;
    let mut k: usize = 0;
    while k < spans.len()
        invariant
            k <= spans.len(),
            texts.len() == spans.len(),
            ordered(spans@, 0, s@.len() as int),
            pos <= s.len(),
            k < spans.len() ==> pos <= spans@[k as int].start,
            out@ + patched(s@, spans@, views(texts@), k as int, pos as int) == patched(
                s@,
                spans@,
                views(texts@),
                0,
                0,
            ),
        decreases spans.len() - k,
    {
        let span = spans[k];
        let ghost rest = patched(s@, spans@, views(texts@), k + 1, span.end as int);
        let ghost before = out@;
        push_range(&mut out, s, pos, span.start);
        let text = &texts[k];
        push_range(&mut out, text, 0, text.len());
        assert(text@.subrange(0, text@.len() as int) =~= text@);
        assert(out@ + rest =~= before + (s@.subrange(pos as int, span.start as int) + views(
            texts@,
        )[k as int] + rest));
        assert(k + 1 < spans.len() ==> spans@[k as int].end <= spans@[k + 1].start);
        pos = span.end;
        k += 1;
    }
    push_range(&mut out, s, pos, s.len());
    out
}

/// Runs the spacing scan over each span and assembles the output.
pub(crate) fn respace(s: &Vec<char>, spans: &Vec<Span>) -> (out: Vec<char>)
    requires
        ordered(spans@, 0, s@.len() as int),
    ensures
        out@ == respaced(s@, spans@),
{
    let mut texts: Vec<Vec<char>> = Vec::new();
    let mut k: usize = 0;
    while k < spans.len()
        invariant
            k <= spans.len(),
            ordered(spans@, 0, s@.len() as int),
            texts.len() == k,
            forall|j: int| 0 <= j < k ==> (#[trigger] texts@[j])@ == prose_texts(s@, spans@)[j],
        decreases spans.len() - k,
    {
        let span = spans[k];
        let mut text: Vec<char> = Vec::new();
        push_spaced(&mut text, s, span.start, span.end);
        assert(text@ =~= spaced(s@.subrange(span.start as int, span.end as int)));
        texts.push(text);
        k += 1;
    }
    assert(views(texts@) =~= prose_texts(s@, spans@));
    patch(s, spans, &texts)
}

/// Spans that end by `mid` stay in order when a span that starts at
/// `mid` or later is added.
pub proof fn lemma_ordered_push(acc: Seq<Span>, span: Span, from: int, mid: int, len: int)
    requires
        ordered(acc, from, mid),
        from <= mid <= span.start <= span.end <= len,
    ensures
        ordered(acc.push(span), from, len),
{
    let more = acc.push(span);
    assert forall|k: int| 0 <= k < more.len() implies from <= (#[trigger] more[k]).start
        <= more[k].end <= len by {
        if k < acc.len() {
            assert(more[k] == acc[k]);
        }
    }
    assert forall|k: int| 0 <= k && k + 1 < more.len() implies more[k].end <= (#[trigger] more[k
        + 1]).start by {
        assert(more[k] == acc[k]);
        if k + 1 < acc.len() {
            assert(more[k + 1] == acc[k + 1]);
        }
    }
}

/// Spans that end by `mid`, followed by spans that start at `mid` or
/// later, are in order.
pub proof fn lemma_ordered_append(a: Seq<Span>, b: Seq<Span>, from: int, mid: int, len: int)
    requires
        ordered(a, from, mid),
        ordered(b, mid, len),
        from <= mid <= len,
    ensures
        ordered(a + b, from, len),
{
    let c = a + b;
    assert forall|k: int| 0 <= k < c.len() implies from <= (#[trigger] c[k]).start <= c[k].end
        <= len by {
        if k < a.len() {
            assert(c[k] == a[k]);
        } else {
            assert(c[k] == b[k - a.len()]);
        }
    }
    assert forall|k: int| 0 <= k && k + 1 < c.len() implies c[k].end <= (#[trigger] c[k
        + 1]).start by {
        if k + 1 < a.len() {
            assert(c[k] == a[k] && c[k + 1] == a[k + 1]);
        } else if k < a.len() {
            assert(c[k] == a[k] && c[k + 1] == b[0]);
        } else {
            assert(c[k] == b[k - a.len()] && c[k + 1] == b[k - a.len() + 1]);
        }
    }
}

/// Where every span is replaced by its own text, the document from `pos`
/// on comes out as it went in.
pub proof fn lemma_patched_same(
    s: Seq<char>,
    spans: Seq<Span>,
    texts: Seq<Seq<char>>,
    k: int,
    pos: int,
)
    requires
        ordered(spans, 0, s.len() as int),
        texts.len() == spans.len(),
        forall|j: int|
            0 <= j < spans.len() ==> #[trigger] texts[j] == s.subrange(
                spans[j].start as int,
                spans[j].end as int,
            ),
        0 <= k <= spans.len(),
        0 <= pos <= s.len(),
        k < spans.len() ==> pos <= spans[k].start,
    ensures
        patched(s, spans, texts, k, pos) == s.subrange(pos, s.len() as int),
    decreases spans.len() - k,
{
    if k < spans.len() {
        let start = spans[k].start as int;
        let end = spans[k].end as int;
        assert(k + 1 < spans.len() ==> spans[k].end <= spans[k + 1].start);
        lemma_patched_same(s, spans, texts, k + 1, end);
        assert(s.subrange(pos, start) + texts[k] + s.subrange(end, s.len() as int) =~= s.subrange(
            pos,
            s.len() as int,
        ));
    }
}

/// A document whose spans are in order and are each replaced by their
/// own text comes out as it went in.
pub proof fn lemma_identity_unchanged(s: Seq<char>, spans: Seq<Span>, texts: Seq<Seq<char>>)
    requires
        ordered(spans, 0, s.len() as int),
        texts.len() == spans.len(),
        forall|j: int|
            0 <= j < spans.len() ==> #[trigger] texts[j] == s.subrange(
                spans[j].start as int,
                spans[j].end as int,
            ),
    ensures
        patched(s, spans, texts, 0, 0) == s,
{
    lemma_patched_same(s, spans, texts, 0, 0);
    assert(s.subrange(0, s.len() as int) =~= s);
}

/// A document without spans comes out as it went in.
pub proof fn lemma_no_spans_unchanged(s: Seq<char>, texts: Seq<Seq<char>>)
    ensures
        patched(s, Seq::<Span>::empty(), texts, 0, 0) == s,
        respaced(s, Seq::<Span>::empty()) == s,
{
    assert(s.subrange(0, s.len() as int) =~= s);
}

} // verus!
