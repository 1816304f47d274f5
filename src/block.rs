//! The document model's blocks, and the classifier that maps one element to one.
use vstd::prelude::*;
use crate::image::{ImageState, ImageStateView};
use crate::inline::{format_inline, inline_of, spans_view, InlineSpan, SpanView};
use crate::markup::{attribute_of, tag_kind, text_content, text_of, Element, MarkupNode, TagKind};

verus! {

broadcast use vstd::std_specs::vec::group_vec_axioms, vstd::seq::group_seq_axioms;

/// One structural unit of a document.
#[derive(Debug)]
pub enum Block {
    /// A heading of level 1 to 6.
    Heading { level: u8, inline: Vec<InlineSpan> },
    Paragraph { inline: Vec<InlineSpan> },
    /// Preformatted text, kept raw.
    CodeBlock { text: String },
    Blockquote { children: Vec<Block> },
    /// A list; each item holds inline content only.
    List { ordered: bool, items: Vec<Vec<InlineSpan>> },
    /// An image by its source address, with its load state.
    Image { url: String, state: ImageState },
}

/// The mathematical value of a `Block`.
pub enum BlockView {
    Heading { level: u8, inline: Seq<SpanView> },
    Paragraph { inline: Seq<SpanView> },
    CodeBlock { text: Seq<char> },
    Blockquote { children: Seq<BlockView> },
    List { ordered: bool, items: Seq<Seq<SpanView>> },
    Image { url: Seq<char>, state: ImageStateView },
}

pub open spec fn items_view(items: Seq<Vec<InlineSpan>>) -> Seq<Seq<SpanView>> {
    Seq::new(items.len(), |i: int| spans_view(items[i]@))
}

pub open spec fn block_view(b: Block) -> BlockView
    decreases b,
{
    match b {
        Block::Heading { level, inline } => BlockView::Heading { level, inline: spans_view(inline@) },
        Block::Paragraph { inline } => BlockView::Paragraph { inline: spans_view(inline@) },
        Block::CodeBlock { text } => BlockView::CodeBlock { text: text@ },
        Block::Blockquote { children } => BlockView::Blockquote { children: blocks_view(children@) },
        Block::List { ordered, items } => BlockView::List { ordered, items: items_view(items@) },
        Block::Image { url, state } => BlockView::Image { url: url@, state: state@ },
    }
}

pub open spec fn blocks_view(v: Seq<Block>) -> Seq<BlockView>
    decreases v,
{
    if v.len() == 0 {
        seq![]
    } else {
        blocks_view(v.drop_last()).push(block_view(v.last()))
    }
}

pub proof fn lemma_blocks_view_push(before: Seq<Block>, after: Seq<Block>)
    requires
        after == before.push(after.last()),
    ensures
        blocks_view(after) == blocks_view(before).push(block_view(after.last())),
{
    assert(after.drop_last() == before);
}

/// The inline content of each list item among `nodes`, in order.
pub open spec fn list_items_of(nodes: Seq<MarkupNode>) -> Seq<Seq<SpanView>>
    decreases nodes.len(),
{
    if nodes.len() == 0 {
        seq![]
    } else {
        let last = match nodes.last() {
            MarkupNode::Element(e) => if tag_kind(e.tag@) == TagKind::ListItem {
                seq![inline_of(e.children@)]
            } else {
                seq![]
            },
            _ => seq![],
        };
        list_items_of(nodes.drop_last()) + last
    }
}

/// The block that an element stands for, if its tag is one of a block.
pub open spec fn classify(e: Element) -> Option<BlockView>
    decreases e,
{
    match tag_kind(e.tag@) {
        TagKind::Heading(level) => Some(BlockView::Heading { level, inline: inline_of(e.children@) }),
        TagKind::Paragraph => Some(BlockView::Paragraph { inline: inline_of(e.children@) }),
        TagKind::Preformatted => Some(BlockView::CodeBlock { text: text_of(e.children@) }),
        TagKind::Blockquote => Some(BlockView::Blockquote { children: classify_nodes(e.children@) }),
        TagKind::UnorderedList => Some(
            BlockView::List { ordered: false, items: list_items_of(e.children@) },
        ),
        TagKind::OrderedList => Some(
            BlockView::List { ordered: true, items: list_items_of(e.children@) },
        ),
        TagKind::Image => Some(
            BlockView::Image {
                url: match attribute_of(e.attributes@, "src"@) {
                    Some(u) => u,
                    None => seq![],
                },
                state: ImageStateView::NotRequested,
            },
        ),
        _ => None,
    }
}

/// The blocks of the child elements among `nodes` that classify; others are dropped.
pub open spec fn classify_nodes(nodes: Seq<MarkupNode>) -> Seq<BlockView>
    decreases nodes,
{
    if nodes.len() == 0 {
        seq![]
    } else {
        let last = match nodes.last() {
            MarkupNode::Element(e) => match classify(e) {
                Some(b) => seq![b],
                None => seq![],
            },
            _ => seq![],
        };
        classify_nodes(nodes.drop_last()) + last
    }
}

/// A block as the classifier makes it: a heading's level is 1 to 6, an image
/// has not been requested yet, and a quote holds only such blocks.
pub open spec fn built_block(b: BlockView) -> bool
    decreases b,
{
    match b {
        BlockView::Heading { level, .. } => 1 <= level <= 6,
        BlockView::Blockquote { children } => built_blocks(children),
        BlockView::Image { state, .. } => state is NotRequested,
        _ => true,
    }
}

pub open spec fn built_blocks(s: Seq<BlockView>) -> bool
    decreases s,
{
    if s.len() == 0 {
        true
    } else {
        built_blocks(s.drop_last()) && built_block(s.last())
    }
}

pub proof fn lemma_built_blocks_push(s: Seq<BlockView>, last: Seq<BlockView>)
    requires
        built_blocks(s),
        last.len() <= 1,
        last.len() == 1 ==> built_block(last[0]),
    ensures
        built_blocks(s + last),
{
    if last.len() == 0 {
        assert(s + last == s);
    } else {
        assert((s + last).drop_last() == s);
    }
}

/// Every block the classifier makes is built as it should be.
pub proof fn lemma_classify_built(e: Element)
    ensures
        classify(e) is Some ==> built_block(classify(e)->0),
    decreases e,
{
    if tag_kind(e.tag@) == TagKind::Blockquote {
        lemma_classify_nodes_built(e.children@);
    }
}

/// The blocks of the child elements of a quote are built as they should be.
pub proof fn lemma_classify_nodes_built(nodes: Seq<MarkupNode>)
    ensures
        built_blocks(classify_nodes(nodes)),
    decreases nodes,
{
    if nodes.len() > 0 {
        lemma_classify_nodes_built(nodes.drop_last());
        let last = match nodes.last() {
            MarkupNode::Element(e) => match classify(e) {
                Some(b) => seq![b],
                None => seq![],
            },
            _ => seq![],
        };
        if let MarkupNode::Element(e) = nodes.last() {
            lemma_classify_built(e);
        }
        lemma_built_blocks_push(classify_nodes(nodes.drop_last()), last);
    }
}

/// The inline content of each list-item child among `nodes`.
fn list_items(nodes: &Vec<MarkupNode>) -> (r: Vec<Vec<InlineSpan>>)
    ensures
        items_view(r@) == list_items_of(nodes@),
{
    let mut out: Vec<Vec<InlineSpan>> = Vec::new();
    let mut i: usize = 0;
    while i < nodes.len()
        invariant
            i <= nodes.len(),
            items_view(out@) == list_items_of(nodes@.take(i as int)),
        decreases nodes.len() - i,
    {
        assert(nodes@.take(i + 1).drop_last() == nodes@.take(i as int));
        assert(nodes@.take(i + 1).last() == nodes@[i as int]);
        let ghost before = out@;
        match &nodes[i] {
            MarkupNode::Element(e) => {
                if e.kind() == TagKind::ListItem {
                    out.push(format_inline(e));
                    assert(items_view(out@) == items_view(before) + seq![
                        spans_view(out@.last()@),
                    ]);
                } else {
                    assert(list_items_of(nodes@.take(i + 1)) == list_items_of(nodes@.take(i as int)));
                }
            },
            _ => {
                assert(list_items_of(nodes@.take(i + 1)) == list_items_of(nodes@.take(i as int)));
            },
        }
        i = i + 1;
    }
    assert(nodes@.take(nodes.len() as int) == nodes@);
    out
}

/// Maps one element to its block; an element whose tag is no block's gives `None`.
pub fn classify_element(e: &Element) -> (r: Option<Block>)
    ensures
        match r {
            Some(b) => classify(*e) == Some(block_view(b)),
            None => classify(*e) is None,
        },
    decreases e,
{
    match e.kind() {
        TagKind::Heading(level) => Some(Block::Heading { level, inline: format_inline(e) }),
        TagKind::Paragraph => Some(Block::Paragraph { inline: format_inline(e) }),
        TagKind::Preformatted => Some(Block::CodeBlock { text: text_content(&e.children) }),
        TagKind::Blockquote => Some(Block::Blockquote { children: classify_children(&e.children) }),
        TagKind::UnorderedList => Some(Block::List { ordered: false, items: list_items(&e.children) }),
        TagKind::OrderedList => Some(Block::List { ordered: true, items: list_items(&e.children) }),
        TagKind::Image => {
            let url = match e.attribute("src") {
                Some(u) => u.clone(),
                None => String::new(),
            };
            Some(Block::Image { url, state: ImageState::NotRequested })
        },
        _ => None,
    }
}

/// The blocks of the child elements among `nodes`, in order; elements that are
/// no block are dropped.
pub fn classify_children(nodes: &Vec<MarkupNode>) -> (r: Vec<Block>)
    ensures
        blocks_view(r@) == classify_nodes(nodes@),
    decreases nodes,
{
    let mut out: Vec<Block> = Vec::new();
    let mut i: usize = 0;
    while i < nodes.len()
        invariant
            i <= nodes.len(),
            blocks_view(out@) == classify_nodes(nodes@.take(i as int)),
        decreases nodes.len() - i,
    {
        assert(nodes@.take(i + 1).drop_last() == nodes@.take(i as int));
        assert(nodes@.take(i + 1).last() == nodes@[i as int]);
        let ghost before = out@;
        match &nodes[i] {
            MarkupNode::Element(e) => {
                match classify_element(e) {
                    Some(b) => {
                        out.push(b);
                        proof {
                            lemma_blocks_view_push(before, out@);
                        }
                        assert(blocks_view(out@) == blocks_view(before) + seq![
                            block_view(out@.last()),
                        ]);
                    },
                    None => {
                        assert(classify_nodes(nodes@.take(i + 1)) == classify_nodes(
                            nodes@.take(i as int),
                        ));
                    },
                }
            },
            _ => {
                assert(classify_nodes(nodes@.take(i + 1)) == classify_nodes(nodes@.take(i as int)));
            },
        }
        i = i + 1;
    }
    assert(nodes@.take(nodes.len() as int) == nodes@);
    out
}

} // verus!
