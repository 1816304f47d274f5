//! The document builder: locate the candidates, classify each, keep the blocks.
use vstd::prelude::*;
use crate::block::{
    block_view, blocks_view, built_blocks, classify, classify_element, lemma_blocks_view_push,
    lemma_built_blocks_push, lemma_classify_built, Block, BlockView,
};
use crate::locator::{candidates, elements_of, find_wrapper, locate_candidates, referenced};
use crate::markup::{tag_kind, Element, MarkupNode, TagKind};

verus! {

broadcast use vstd::std_specs::vec::group_vec_axioms, vstd::seq::group_seq_axioms;

/// The rendered form of one article: its blocks, in order.
#[derive(Debug)]
pub struct Document {
    pub blocks: Vec<Block>,
}

impl View for Document {
    type V = Seq<BlockView>;

    open spec fn view(&self) -> Seq<BlockView> {
        blocks_view(self.blocks@)
    }
}

/// The blocks of the elements that classify, in order.
pub open spec fn classify_all(es: Seq<Element>) -> Seq<BlockView>
    decreases es.len(),
{
    if es.len() == 0 {
        seq![]
    } else {
        let last = match classify(es.last()) {
            Some(b) => seq![b],
            None => seq![],
        };
        classify_all(es.drop_last()) + last
    }
}

/// The document built from a markup document whose top-level nodes are `nodes`.
pub open spec fn document_of(nodes: Seq<MarkupNode>) -> Seq<BlockView> {
    classify_all(candidates(nodes))
}

/// Builds the document: the candidates that the locator picks, each classified,
/// those that are no block dropped, the order kept. The result may be empty.
pub fn build_document(nodes: &Vec<MarkupNode>) -> (r: Document)
    ensures
        r@ == document_of(nodes@),
        built_blocks(r@),
{
    proof {
        lemma_document_built(nodes@);
    }
    let found = locate_candidates(nodes);
    let mut blocks: Vec<Block> = Vec::new();
    let mut i: usize = 0;
    while i < found.len()
        invariant
            i <= found.len(),
            referenced(found@) == candidates(nodes@),
            blocks_view(blocks@) == classify_all(referenced(found@).take(i as int)),
        decreases found.len() - i,
    {
        let ghost es = referenced(found@);
        assert(es.take(i + 1).drop_last() == es.take(i as int));
        assert(es.take(i + 1).last() == *found@[i as int]);
        let ghost before = blocks@;
        match classify_element(found[i]) {
            Some(b) => {
                blocks.push(b);
                proof {
                    lemma_blocks_view_push(before, blocks@);
                }
                assert(blocks_view(blocks@) == blocks_view(before) + seq![block_view(blocks@.last())]);
            },
            None => {},
        }
        i = i + 1;
    }
    assert(referenced(found@).take(found.len() as int) == referenced(found@));
    Document { blocks }
}

/// Every block of a built document is built as it should be: heading levels
/// from 1 to 6, images not yet requested, quotes of such blocks.
pub proof fn lemma_document_built(nodes: Seq<MarkupNode>)
    ensures
        built_blocks(document_of(nodes)),
{
    lemma_classify_all_built(candidates(nodes));
}

proof fn lemma_classify_all_built(es: Seq<Element>)
    ensures
        built_blocks(classify_all(es)),
    decreases es.len(),
{
    if es.len() > 0 {
        lemma_classify_all_built(es.drop_last());
        lemma_classify_built(es.last());
        let last = match classify(es.last()) {
            Some(b) => seq![b],
            None => seq![],
        };
        lemma_built_blocks_push(classify_all(es.drop_last()), last);
    }
}

/// Building is deterministic: the same markup always gives the same document.
pub proof fn lemma_build_deterministic(a: Seq<MarkupNode>, b: Seq<MarkupNode>)
    requires
        a == b,
    ensures
        document_of(a) == document_of(b),
{
}

/// `w` is one of `nodes` or lies anywhere beneath one of them.
pub open spec fn occurs_in(nodes: Seq<MarkupNode>, w: Element) -> bool
    decreases nodes,
{
    if nodes.len() == 0 {
        false
    } else {
        let here = match nodes[0] {
            MarkupNode::Element(e) => e == w || occurs_in(e.children@, w),
            _ => false,
        };
        here || occurs_in(nodes.drop_first(), w)
    }
}

/// What the search for a wrapper finds occurs in the document, is of the kind
/// asked for and has a child element.
pub proof fn lemma_wrapper_sound(nodes: Seq<MarkupNode>, k: TagKind)
    requires
        find_wrapper(nodes, k) is Some,
    ensures
        occurs_in(nodes, find_wrapper(nodes, k)->0),
        tag_kind(find_wrapper(nodes, k)->0.tag@) == k,
        elements_of(find_wrapper(nodes, k)->0.children@).len() > 0,
    decreases nodes,
{
    match nodes[0] {
        MarkupNode::Element(e) => {
            if tag_kind(e.tag@) == k && elements_of(e.children@).len() > 0 {
            } else if find_wrapper(e.children@, k) is Some {
                lemma_wrapper_sound(e.children@, k);
            } else {
                lemma_wrapper_sound(nodes.drop_first(), k);
            }
        },
        _ => {
            lemma_wrapper_sound(nodes.drop_first(), k);
        },
    }
}

/// Where an element of kind `k` with a child element occurs, the search for a
/// wrapper of that kind finds one.
pub proof fn lemma_wrapper_found(nodes: Seq<MarkupNode>, k: TagKind, w: Element)
    requires
        occurs_in(nodes, w),
        tag_kind(w.tag@) == k,
        elements_of(w.children@).len() > 0,
    ensures
        find_wrapper(nodes, k) is Some,
    decreases nodes,
{
    if nodes.len() > 0 {
        match nodes[0] {
            MarkupNode::Element(e) => {
                if e == w {
                } else if occurs_in(e.children@, w) {
                    lemma_wrapper_found(e.children@, k, w);
                } else {
                    lemma_wrapper_found(nodes.drop_first(), k, w);
                }
            },
            _ => {
                lemma_wrapper_found(nodes.drop_first(), k, w);
            },
        }
    }
}

/// Where a body element with a child element occurs, the candidates are
/// exactly the child elements of the first such body, in order; the other
/// tiers are not used.
pub proof fn lemma_body_tier_first(nodes: Seq<MarkupNode>, w: Element)
    requires
        occurs_in(nodes, w),
        tag_kind(w.tag@) == TagKind::Body,
        elements_of(w.children@).len() > 0,
    ensures
        find_wrapper(nodes, TagKind::Body) is Some,
        candidates(nodes) == elements_of(find_wrapper(nodes, TagKind::Body)->0.children@),
{
    lemma_wrapper_found(nodes, TagKind::Body, w);
}

/// Where no body element has a child element but a root element does, the
/// candidates are the child elements of the first such root, before any
/// search for block elements at depth.
pub proof fn lemma_root_tier_second(nodes: Seq<MarkupNode>, w: Element)
    requires
        forall|b: Element|
            occurs_in(nodes, b) && tag_kind(b.tag@) == TagKind::Body ==> elements_of(
                b.children@,
            ).len() == 0,
        occurs_in(nodes, w),
        tag_kind(w.tag@) == TagKind::Root,
        elements_of(w.children@).len() > 0,
    ensures
        find_wrapper(nodes, TagKind::Root) is Some,
        candidates(nodes) == elements_of(find_wrapper(nodes, TagKind::Root)->0.children@),
{
    if find_wrapper(nodes, TagKind::Body) is Some {
        lemma_wrapper_sound(nodes, TagKind::Body);
    }
    lemma_wrapper_found(nodes, TagKind::Root, w);
}

} // verus!
