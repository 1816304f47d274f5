//! The inline formatter: an element's children as a tree of formatting spans.
use vstd::prelude::*;
use crate::escape::{encode_text, escaped, lemma_escape_round_trip, unescaped};
use crate::markup::{attribute_of, tag_kind, text_content, text_of, Element, MarkupNode, TagKind};

verus! {

broadcast use vstd::std_specs::vec::group_vec_axioms, vstd::seq::group_seq_axioms;

/// One span of inline content. Text, code and link targets are escaped.
#[derive(Debug)]
pub enum InlineSpan {
    Text(String),
    Bold(Vec<InlineSpan>),
    Italic(Vec<InlineSpan>),
    /// Unformatted code text.
    Code(String),
    /// A link target and the content shown for it.
    Link(String, Vec<InlineSpan>),
}

/// The mathematical value of an `InlineSpan`.
pub enum SpanView {
    Text(Seq<char>),
    Bold(Seq<SpanView>),
    Italic(Seq<SpanView>),
    Code(Seq<char>),
    Link(Seq<char>, Seq<SpanView>),
}

pub open spec fn span_view(s: InlineSpan) -> SpanView
    decreases s,
{
    match s {
        InlineSpan::Text(t) => SpanView::Text(t@),
        InlineSpan::Bold(c) => SpanView::Bold(spans_view(c@)),
        InlineSpan::Italic(c) => SpanView::Italic(spans_view(c@)),
        InlineSpan::Code(t) => SpanView::Code(t@),
        InlineSpan::Link(h, c) => SpanView::Link(h@, spans_view(c@)),
    }
}

pub open spec fn spans_view(v: Seq<InlineSpan>) -> Seq<SpanView>
    decreases v,
{
    if v.len() == 0 {
        seq![]
    } else {
        spans_view(v.drop_last()).push(span_view(v.last()))
    }
}

/// The spans that `nodes` format to, in document order.
pub open spec fn inline_of(nodes: Seq<MarkupNode>) -> Seq<SpanView>
    decreases nodes,
{
    if nodes.len() == 0 {
        seq![]
    } else {
        let last = match nodes.last() {
            MarkupNode::Text(t) => seq![SpanView::Text(escaped(t@))],
            MarkupNode::Element(e) => match tag_kind(e.tag@) {
                TagKind::Bold => seq![SpanView::Bold(inline_of(e.children@))],
                TagKind::Italic => seq![SpanView::Italic(inline_of(e.children@))],
                TagKind::Code => seq![SpanView::Code(escaped(text_of(e.children@)))],
                TagKind::Anchor => match attribute_of(e.attributes@, "href"@) {
                    Some(h) => seq![SpanView::Link(escaped(h), inline_of(e.children@))],
                    None => inline_of(e.children@),
                },
                _ => seq![SpanView::Text(escaped(text_of(e.children@)))],
            },
            MarkupNode::Other => seq![],
        };
        inline_of(nodes.drop_last()) + last
    }
}

pub proof fn lemma_spans_view_concat(a: Seq<InlineSpan>, b: Seq<InlineSpan>)
    ensures
        spans_view(a + b) == spans_view(a) + spans_view(b),
    decreases b.len(),
{
    if b.len() == 0 {
        assert(a + b == a);
    } else {
        lemma_spans_view_concat(a, b.drop_last());
        assert((a + b).drop_last() == a + b.drop_last());
    }
}

pub proof fn lemma_spans_view_push(before: Seq<InlineSpan>, after: Seq<InlineSpan>)
    requires
        after == before.push(after.last()),
    ensures
        spans_view(after) == spans_view(before) + seq![span_view(after.last())],
{
    assert(after.drop_last() == before);
    assert(spans_view(before).push(span_view(after.last())) == spans_view(before) + seq![
        span_view(after.last()),
    ]);
}

/// The spans of consecutive node runs are the spans of each run, in order.
pub proof fn lemma_inline_of_concat(a: Seq<MarkupNode>, b: Seq<MarkupNode>)
    ensures
        inline_of(a + b) == inline_of(a) + inline_of(b),
    decreases b.len(),
{
    if b.len() == 0 {
        assert(a + b == a);
    } else {
        lemma_inline_of_concat(a, b.drop_last());
        assert((a + b).drop_last() == a + b.drop_last());
        assert((a + b).last() == b.last());
    }
}

/// The span that an emphasis element of kind `k` makes around `content`.
pub open spec fn emphasis(k: TagKind, content: Seq<SpanView>) -> SpanView {
    if k == TagKind::Bold {
        SpanView::Bold(content)
    } else {
        SpanView::Italic(content)
    }
}

/// Bold inside italic, or italic inside bold, keeps its nesting: the outer
/// element gives one span, whose content is the spans of the inner element's
/// siblings before it, one span for the inner element around its own content,
/// and the spans of the siblings after it, in that order.
pub proof fn lemma_nested_emphasis(
    outer: Element,
    inner: Element,
    before: Seq<MarkupNode>,
    after: Seq<MarkupNode>,
)
    requires
        (tag_kind(outer.tag@) == TagKind::Italic && tag_kind(inner.tag@) == TagKind::Bold) || (
        tag_kind(outer.tag@) == TagKind::Bold && tag_kind(inner.tag@) == TagKind::Italic),
        outer.children@ == before + seq![MarkupNode::Element(inner)] + after,
    ensures
        inline_of(seq![MarkupNode::Element(outer)]) == seq![
            emphasis(
                tag_kind(outer.tag@),
                inline_of(before) + seq![emphasis(tag_kind(inner.tag@), inline_of(inner.children@))]
                    + inline_of(after),
            ),
        ],
{
    let one = seq![MarkupNode::Element(inner)];
    lemma_inline_of_concat(before + one, after);
    lemma_inline_of_concat(before, one);
    assert(one.drop_last() == Seq::<MarkupNode>::empty());
    assert(inline_of(Seq::<MarkupNode>::empty()) == Seq::<SpanView>::empty());
    assert(one.last() == MarkupNode::Element(inner));
    assert(inline_of(one) =~= seq![emphasis(tag_kind(inner.tag@), inline_of(inner.children@))]);
    let whole = seq![MarkupNode::Element(outer)];
    assert(whole.drop_last() == Seq::<MarkupNode>::empty());
    assert(whole.last() == MarkupNode::Element(outer));
    assert(inline_of(whole) =~= seq![
        emphasis(tag_kind(outer.tag@), inline_of(outer.children@)),
    ]);
}

/// A text node gives one text span, and what a markup reader sees in that
/// span is exactly the node's text.
pub proof fn lemma_text_span_reads_back(t: String)
    ensures
        inline_of(seq![MarkupNode::Text(t)]) == seq![SpanView::Text(escaped(t@))],
        unescaped(escaped(t@)) == t@,
{
    let one = seq![MarkupNode::Text(t)];
    assert(one.drop_last() == Seq::<MarkupNode>::empty());
    assert(inline_of(Seq::<MarkupNode>::empty()) == Seq::<SpanView>::empty());
    assert(inline_of(one) =~= seq![SpanView::Text(escaped(t@))]);
    lemma_escape_round_trip(t@);
}

/// Formats a sequence of sibling nodes.
fn format_nodes(nodes: &Vec<MarkupNode>) -> (r: Vec<InlineSpan>)
    ensures
        spans_view(r@) == inline_of(nodes@),
    decreases nodes,
{
    let mut out: Vec<InlineSpan> = Vec::new();
    let mut i: usize = 0;
    while i < nodes.len()
        invariant
            i <= nodes.len(),
            spans_view(out@) == inline_of(nodes@.take(i as int)),
        decreases nodes.len() - i,
    {
        assert(nodes@.take(i + 1).drop_last() == nodes@.take(i as int));
        assert(nodes@.take(i + 1).last() == nodes@[i as int]);
        let ghost before = out@;
        match &nodes[i] {
            MarkupNode::Text(t) => {
                out.push(InlineSpan::Text(encode_text(t.as_str())));
                proof {
                    lemma_spans_view_push(before, out@);
                }
            },
            MarkupNode::Element(e) => {
                let kind = e.kind();
                match kind {
                    TagKind::Bold => {
                        out.push(InlineSpan::Bold(format_nodes(&e.children)));
                        proof {
                            lemma_spans_view_push(before, out@);
                        }
                    },
                    TagKind::Italic => {
                        out.push(InlineSpan::Italic(format_nodes(&e.children)));
                        proof {
                            lemma_spans_view_push(before, out@);
                        }
                    },
                    TagKind::Code => {
                        let raw = text_content(&e.children);
                        out.push(InlineSpan::Code(encode_text(raw.as_str())));
                        proof {
                            lemma_spans_view_push(before, out@);
                        }
                    },
                    TagKind::Anchor => {
                        match e.attribute("href") {
                            Some(h) => {
                                let target = encode_text(h.as_str());
                                out.push(InlineSpan::Link(target, format_nodes(&e.children)));
                                proof {
                                    lemma_spans_view_push(before, out@);
                                }
                            },
                            None => {
                                let mut inner = format_nodes(&e.children);
                                let ghost inner_v = inner@;
                                out.append(&mut inner);
                                proof {
                                    lemma_spans_view_concat(before, inner_v);
                                }
                            },
                        }
                    },
                    _ => {
                        let raw = text_content(&e.children);
                        out.push(InlineSpan::Text(encode_text(raw.as_str())));
                        proof {
                            lemma_spans_view_push(before, out@);
                        }
                    },
                }
            },
            MarkupNode::Other => {},
        }
        i = i + 1;
    }
    assert(nodes@.take(nodes.len() as int) == nodes@);
    out
}

/// Formats the children of `element` into inline content, in document order.
pub fn format_inline(element: &Element) -> (r: Vec<InlineSpan>)
    ensures
        spans_view(r@) == inline_of(element.children@),
{
    format_nodes(&element.children)
}

} // verus!
