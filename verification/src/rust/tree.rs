//! The parse tree of a Rust-like source text: the comments, strings,
//! blanks and other characters of the program, and under each doc
//! comment its lines.

use crate::lex::{blank, is_blank};
use crate::rust::{cut, cut_lines, scan, spans, token_end, token_start, tokens_ordered};
use crate::rust::doc_comments::string_views;
use crate::text::{to_chars, to_text};
use crate::walker::{slice, Kind, Span};
use vstd::prelude::*;

verus! {

/// The kinds of node of the tree.
#[allow(non_camel_case_types)]
#[derive(Debug, Clone, Copy, PartialEq, Eq, Structural)]
pub enum Rule {
    program,
    comment,
    line_outer_doc_comment_block,
    line_inner_doc_comment_block,
    line_outer_doc_comment,
    line_inner_doc_comment,
    block_outer_doc_comment,
    block_inner_doc_comment,
    block_doc_comment_inner_line,
    block_doc_comment_last_line,
    line_comment,
    block_comment,
    string,
    code,
    WHITESPACE,
    EOI,
}

/// A node of the tree as contracts speak of it: its kind, the text it
/// spans, and its children in document order.
pub struct Node {
    pub rule: Rule,
    pub text: Seq<char>,
    pub inner: Seq<Node>,
}

/// A node of the tree: its kind, the text it spans, and its children in
/// document order.
#[derive(Debug)]
pub struct Pair {
    rule: Rule,
    text: String,
    inner: Vec<Pair>,
}

/// A node without children.
pub open spec fn leaf(rule: Rule, text: Seq<char>) -> Node {
    Node { rule, text, inner: Seq::empty() }
}

/// The nodes of the lines of a doc comment: the last one of the kind
/// `last`, the others of the kind `rule`.
pub open spec fn line_nodes(pieces: Seq<Seq<char>>, rule: Rule, last: Rule) -> Seq<Node> {
    Seq::new(
        pieces.len(),
        |k: int|
            leaf(
                if k + 1 == pieces.len() {
                    last
                } else {
                    rule
                },
                pieces[k],
            ),
    )
}

/// A comment node with one child.
pub open spec fn comment_of(text: Seq<char>, rule: Rule, lines: Seq<Node>) -> Node {
    Node { rule: Rule::comment, text, inner: seq![Node { rule, text, inner: lines }] }
}

/// The node of a span: a comment with its form under it, and under a
/// doc comment its lines; or a string.
pub open spec fn span_node(s: Seq<char>, span: Span) -> Node {
    let body = s.subrange(span.start as int, span.end as int);
    let token = s.subrange(token_start(span), token_end(span));
    match span.kind {
        Kind::LineOuterDoc => comment_of(
            token,
            Rule::line_outer_doc_comment_block,
            line_nodes(
                cut(body, 0, false, Seq::empty()),
                Rule::line_outer_doc_comment,
                Rule::line_outer_doc_comment,
            ),
        ),
        Kind::LineInnerDoc => comment_of(
            token,
            Rule::line_inner_doc_comment_block,
            line_nodes(
                cut(body, 0, false, Seq::empty()),
                Rule::line_inner_doc_comment,
                Rule::line_inner_doc_comment,
            ),
        ),
        Kind::BlockOuterDoc => comment_of(
            token,
            Rule::block_outer_doc_comment,
            line_nodes(
                cut(body, 0, true, Seq::empty()),
                Rule::block_doc_comment_inner_line,
                Rule::block_doc_comment_last_line,
            ),
        ),
        Kind::BlockInnerDoc => comment_of(
            token,
            Rule::block_inner_doc_comment,
            line_nodes(
                cut(body, 0, true, Seq::empty()),
                Rule::block_doc_comment_inner_line,
                Rule::block_doc_comment_last_line,
            ),
        ),
        _ => if body.len() >= 2 && body[0] == '/' && body[1] == '/' {
            comment_of(token, Rule::line_comment, Seq::empty())
        } else if body.len() >= 2 && body[0] == '/' && body[1] == '*' {
            comment_of(token, Rule::block_comment, Seq::empty())
        } else {
            leaf(Rule::string, token)
        },
    }
}

/// The nodes in `acc`, followed by one node for each character of `s`
/// from `from` up to `to`: `WHITESPACE` for a blank, `code` for another.
pub open spec fn gap_nodes(s: Seq<char>, from: int, to: int, acc: Seq<Node>) -> Seq<Node>
    decreases to - from,
{
    if from < 0 || from >= to || to > s.len() {
        acc
    } else {
        gap_nodes(
            s,
            from + 1,
            to,
            acc.push(
                leaf(
                    if is_blank(s[from]) {
                        Rule::WHITESPACE
                    } else {
                        Rule::code
                    },
                    seq![s[from]],
                ),
            ),
        )
    }
}

/// The children of the program from index `pos` on, after those in
/// `acc`: the characters between the tokens, one node each, the tokens
/// of the spans from the `k`-th on, and the end of input.
pub open spec fn children_from(s: Seq<char>, spans: Seq<Span>, k: int, pos: int, acc: Seq<Node>)
    -> Seq<Node>
    decreases spans.len() - k,
{
    if k < 0 || k >= spans.len() {
        gap_nodes(s, pos, s.len() as int, acc).push(leaf(Rule::EOI, Seq::empty()))
    } else {
        children_from(
            s,
            spans,
            k + 1,
            token_end(spans[k]),
            gap_nodes(s, pos, token_start(spans[k]), acc).push(span_node(s, spans[k])),
        )
    }
}

/// The tree of the source text `s`.
pub open spec fn tree(s: Seq<char>) -> Node {
    Node {
        rule: Rule::program,
        text: s,
        inner: children_from(s, spans(s), 0, 0, Seq::empty()),
    }
}

impl Pair {
    /// Whether this node is the node `node`: the same kind, the same
    /// text, and children that are the children of `node`.
    pub open spec fn shows(&self, node: Node) -> bool
        decreases node,
    {
        &&& self.rule() == node.rule
        &&& self.text() == node.text
        &&& self.inner().len() == node.inner.len()
        &&& forall|k: int|
            0 <= k < node.inner.len() ==> (#[trigger] self.inner()[k]).shows(node.inner[k])
    }

    /// The kind of the node.
    pub closed spec fn rule(&self) -> Rule {
        self.rule
    }

    /// The text of the node.
    pub closed spec fn text(&self) -> Seq<char> {
        self.text@
    }

    /// The children of the node.
    pub closed spec fn inner(&self) -> Seq<Pair> {
        self.inner@
    }

    /// The kind of the node.
    pub fn as_rule(&self) -> (rule: Rule)
        ensures
            rule == self.rule(),
    {
        self.rule
    }

    /// The text of the node.
    pub fn as_str(&self) -> (text: &str)
        ensures
            text@ == self.text(),
    {
        self.text.as_str()
    }

    /// The children of the node.
    pub fn into_inner(self) -> (inner: Vec<Pair>)
        ensures
            inner@ == self.inner(),
    {
        self.inner
    }
}

/// Whether the nodes in `pairs` are, one by one, the nodes in `nodes`.
pub open spec fn show_all(pairs: Seq<Pair>, nodes: Seq<Node>) -> bool {
    &&& pairs.len() == nodes.len()
    &&& forall|k: int| 0 <= k < nodes.len() ==> (#[trigger] pairs[k]).shows(nodes[k])
}

/// Nodes that are shown stay shown when one more is added to both lists.
proof fn lemma_show_push(pairs: Seq<Pair>, nodes: Seq<Node>, pair: Pair, node: Node)
    requires
        show_all(pairs, nodes),
        pair.shows(node),
    ensures
        show_all(pairs.push(pair), nodes.push(node)),
{
    let more = pairs.push(pair);
    let wanted = nodes.push(node);
    assert forall|k: int| 0 <= k < wanted.len() implies (#[trigger] more[k]).shows(wanted[k]) by {
        if k < nodes.len() {
            assert(more[k] == pairs[k]);
        }
    }
}

fn leaf_pair(rule: Rule, text: String) -> (pair: Pair)
    ensures
        pair.shows(leaf(rule, text@)),
{
    Pair { rule, text, inner: Vec::new() }
}

fn line_pairs(pieces: &Vec<String>, rule: Rule, last: Rule) -> (pairs: Vec<Pair>)
    ensures
        show_all(pairs@, line_nodes(string_views(pieces@), rule, last)),
{
    let ghost nodes = line_nodes(string_views(pieces@), rule, last);
    let mut pairs: Vec<Pair> = Vec::new();
    let mut k: usize = 0;
    while k < pieces.len()
        invariant
            k <= pieces.len(),
            nodes == line_nodes(string_views(pieces@), rule, last),
            show_all(pairs@, nodes.take(k as int)),
        decreases pieces.len() - k,
    {
        let kind = if k + 1 == pieces.len() {
            last
        } else {
            rule
        };
        let pair = leaf_pair(kind, pieces[k].clone());
        proof {
            lemma_show_push(pairs@, nodes.take(k as int), pair, nodes[k as int]);
            assert(nodes.take(k as int).push(nodes[k as int]) =~= nodes.take(k + 1));
        }
        pairs.push(pair);
        k += 1;
    }
    assert(nodes.take(pieces.len() as int) =~= nodes);
    pairs
}

fn comment_pair(
    text: &Vec<char>,
    rule: Rule,
    lines: Vec<Pair>,
    Ghost(nodes): Ghost<Seq<Node>>,
) -> (pair: Pair)
    requires
        show_all(lines@, nodes),
    ensures
        pair.shows(comment_of(text@, rule, nodes)),
{
    let form = Pair { rule, text: to_text(text), inner: lines };
    assert(form.shows(Node { rule, text: text@, inner: nodes }));
    let mut inner: Vec<Pair> = Vec::new();
    inner.push(form);
    let pair = Pair { rule: Rule::comment, text: to_text(text), inner };
    assert(pair.inner()[0] == form);
    pair
}

fn span_pair(s: &Vec<char>, span: Span) -> (pair: Pair)
    requires
        0 <= token_start(span) <= span.start <= span.end <= token_end(span) <= s.len(),
    ensures
        pair.shows(span_node(s@, span)),
{
    let body = slice(s, span.start, span.end);
    let block_doc = match span.kind {
        Kind::BlockOuterDoc => true,
        Kind::BlockInnerDoc => true,
        _ => false,
    };
    let token = if block_doc {
        slice(s, span.start - 3, span.end + 2)
    } else {
        slice(s, span.start, span.end)
    };
    match span.kind {
        Kind::LineOuterDoc => {
            let pieces = cut_lines(&body, false);
            let lines = line_pairs(
                &pieces,
                Rule::line_outer_doc_comment,
                Rule::line_outer_doc_comment,
            );
            comment_pair(
                &token,
                Rule::line_outer_doc_comment_block,
                lines,
                Ghost(
                    line_nodes(
                        string_views(pieces@),
                        Rule::line_outer_doc_comment,
                        Rule::line_outer_doc_comment,
                    ),
                ),
            )
        },
        Kind::LineInnerDoc => {
            let pieces = cut_lines(&body, false);
            let lines = line_pairs(
                &pieces,
                Rule::line_inner_doc_comment,
                Rule::line_inner_doc_comment,
            );
            comment_pair(
                &token,
                Rule::line_inner_doc_comment_block,
                lines,
                Ghost(
                    line_nodes(
                        string_views(pieces@),
                        Rule::line_inner_doc_comment,
                        Rule::line_inner_doc_comment,
                    ),
                ),
            )
        },
        Kind::BlockOuterDoc => {
            let pieces = cut_lines(&body, true);
            let lines = line_pairs(
                &pieces,
                Rule::block_doc_comment_inner_line,
                Rule::block_doc_comment_last_line,
            );
            comment_pair(
                &token,
                Rule::block_outer_doc_comment,
                lines,
                Ghost(
                    line_nodes(
                        string_views(pieces@),
                        Rule::block_doc_comment_inner_line,
                        Rule::block_doc_comment_last_line,
                    ),
                ),
            )
        },
        Kind::BlockInnerDoc => {
            let pieces = cut_lines(&body, true);
            let lines = line_pairs(
                &pieces,
                Rule::block_doc_comment_inner_line,
                Rule::block_doc_comment_last_line,
            );
            comment_pair(
                &token,
                Rule::block_inner_doc_comment,
                lines,
                Ghost(
                    line_nodes(
                        string_views(pieces@),
                        Rule::block_doc_comment_inner_line,
                        Rule::block_doc_comment_last_line,
                    ),
                ),
            )
        },
        _ => {
            if body.len() >= 2 && body[0] == '/' && body[1] == '/' {
                comment_pair(&token, Rule::line_comment, Vec::new(), Ghost(Seq::empty()))
            } else if body.len() >= 2 && body[0] == '/' && body[1] == '*' {
                comment_pair(&token, Rule::block_comment, Vec::new(), Ghost(Seq::empty()))
            } else {
                leaf_pair(Rule::string, to_text(&token))
            }
        },
    }
}

fn push_gap(
    children: &mut Vec<Pair>,
    s: &Vec<char>,
    from: usize,
    to: usize,
    Ghost(nodes): Ghost<Seq<Node>>,
)
    requires
        from <= to <= s.len(),
        show_all(old(children)@, nodes),
    ensures
        show_all(final(children)@, gap_nodes(s@, from as int, to as int, nodes)),
{
    let ghost mut shown = nodes;
    let mut j: usize = from;
    while j < to
        invariant
            from <= j <= to <= s.len(),
            show_all(children@, shown),
            gap_nodes(s@, from as int, to as int, nodes) == gap_nodes(
                s@,
                j as int,
                to as int,
                shown,
            ),
        decreases to - j,
    {
        let c = s[j];
        let kind = if blank(c) {
            Rule::WHITESPACE
        } else {
            Rule::code
        };
        let mut text = String::new();
        text.push(c);
        assert(text@ =~= seq![c]);
        let pair = leaf_pair(kind, text);
        proof {
            lemma_show_push(children@, shown, pair, leaf(kind, seq![c]));
            shown = shown.push(leaf(kind, seq![c]));
        }
        children.push(pair);
        j += 1;
    }
}

/// The grammar of Rust-like source.
pub struct RustParser;

impl RustParser {
    /// Reads a source text and gives its tree. Every text is a source
    /// text to this grammar.
    pub fn parse(input: &str) -> (program: Pair)
        ensures
            program.shows(tree(input@)),
    {
        let s = to_chars(input);
        let found = scan(&s);
        let mut children: Vec<Pair> = Vec::new();
        let ghost mut shown: Seq<Node> = Seq::empty();
        let mut pos: usize = 0;
        let mut k: usize = 0;
        while k < found.len()
            invariant
                k <= found.len(),
                pos <= s.len(),
                found@ == spans(s@),
                tokens_ordered(found@, s@.len() as int),
                k < found.len() ==> pos <= token_start(found@[k as int]),
                show_all(children@, shown),
                children_from(s@, found@, 0, 0, Seq::empty()) == children_from(
                    s@,
                    found@,
                    k as int,
                    pos as int,
                    shown,
                ),
            decreases found.len() - k,
        {
            let span = found[k];
            let block_doc = match span.kind {
                Kind::BlockOuterDoc => true,
                Kind::BlockInnerDoc => true,
                _ => false,
            };
            let start = if block_doc {
                span.start - 3
            } else {
                span.start
            };
            let end = if block_doc {
                span.end + 2
            } else {
                span.end
            };
            push_gap(&mut children, &s, pos, start, Ghost(shown));
            let pair = span_pair(&s, span);
            proof {
                let gap = gap_nodes(s@, pos as int, start as int, shown);
                lemma_show_push(children@, gap, pair, span_node(s@, span));
                shown = gap.push(span_node(s@, span));
                assert(k + 1 < found.len() ==> token_end(found@[k as int]) <= token_start(
                    found@[k + 1],
                ));
            }
            children.push(pair);
            pos = end;
            k += 1;
        }
        push_gap(&mut children, &s, pos, s.len(), Ghost(shown));
        let last = leaf_pair(Rule::EOI, String::new());
        proof {
            let gap = gap_nodes(s@, pos as int, s@.len() as int, shown);
            lemma_show_push(children@, gap, last, leaf(Rule::EOI, Seq::empty()));
        }
        children.push(last);
        Pair { rule: Rule::program, text: to_text(&s), inner: children }
    }
}

} // verus!
