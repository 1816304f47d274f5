//! The content locator: which elements of a document are classified, found by
//! three tiers tried in order.
use vstd::prelude::*;
use crate::markup::{is_block_kind, tag_kind, Element, MarkupNode, TagKind};

verus! {

broadcast use vstd::std_specs::vec::group_vec_axioms, vstd::seq::group_seq_axioms;

/// The elements among `nodes`, in order.
pub open spec fn elements_of(nodes: Seq<MarkupNode>) -> Seq<Element>
    decreases nodes.len(),
{
    if nodes.len() == 0 {
        seq![]
    } else {
        let last = match nodes.last() {
            MarkupNode::Element(e) => seq![e],
            _ => seq![],
        };
        elements_of(nodes.drop_last()) + last
    }
}

/// The first element in document order under `nodes` whose tag is of kind `k`
/// and which has at least one child element.
pub open spec fn find_wrapper(nodes: Seq<MarkupNode>, k: TagKind) -> Option<Element>
    decreases nodes,
{
    if nodes.len() == 0 {
        None
    } else {
        let first = match nodes[0] {
            MarkupNode::Element(e) => if tag_kind(e.tag@) == k && elements_of(e.children@).len() > 0 {
                Some(e)
            } else {
                find_wrapper(e.children@, k)
            },
            _ => None,
        };
        if first is Some {
            first
        } else {
            find_wrapper(nodes.drop_first(), k)
        }
    }
}

/// Every element under `nodes` whose tag starts a block, at any depth, in
/// document order.
pub open spec fn block_elements(nodes: Seq<MarkupNode>) -> Seq<Element>
    decreases nodes,
{
    if nodes.len() == 0 {
        seq![]
    } else {
        let last = match nodes.last() {
            MarkupNode::Element(e) => if is_block_kind(tag_kind(e.tag@)) {
                seq![e] + block_elements(e.children@)
            } else {
                block_elements(e.children@)
            },
            _ => seq![],
        };
        block_elements(nodes.drop_last()) + last
    }
}

/// The candidate elements of a document whose top-level nodes are `nodes`:
/// the child elements of the body wrapper; else those of the root element;
/// else every block element at any depth.
pub open spec fn candidates(nodes: Seq<MarkupNode>) -> Seq<Element> {
    match find_wrapper(nodes, TagKind::Body) {
        Some(body) => elements_of(body.children@),
        None => match find_wrapper(nodes, TagKind::Root) {
            Some(root) => elements_of(root.children@),
            None => block_elements(nodes),
        },
    }
}

/// The elements that a sequence of borrowed elements refers to.
pub open spec fn referenced(s: Seq<&Element>) -> Seq<Element> {
    s.map_values(|e: &Element| *e)
}

/// The elements among `nodes`, in order.
pub fn child_elements(nodes: &Vec<MarkupNode>) -> (r: Vec<&Element>)
    ensures
        referenced(r@) == elements_of(nodes@),
{
    let mut out: Vec<&Element> = Vec::new();
    let mut i: usize = 0;
    while i < nodes.len()
        invariant
            i <= nodes.len(),
            referenced(out@) == elements_of(nodes@.take(i as int)),
        decreases nodes.len() - i,
    {
        assert(nodes@.take(i + 1).drop_last() == nodes@.take(i as int));
        assert(nodes@.take(i + 1).last() == nodes@[i as int]);
        match &nodes[i] {
            MarkupNode::Element(e) => {
                let ghost before = out@;
                out.push(e);
                assert(referenced(out@) == referenced(before) + seq![*e]);
            },
            _ => {},
        }
        i = i + 1;
    }
    assert(nodes@.take(nodes.len() as int) == nodes@);
    out
}

/// Whether any of `nodes` is an element.
pub fn has_child_element(nodes: &Vec<MarkupNode>) -> (r: bool)
    ensures
        r == (elements_of(nodes@).len() > 0),
{
    let mut i: usize = 0;
    while i < nodes.len()
        invariant
            i <= nodes.len(),
            elements_of(nodes@.take(i as int)).len() == 0,
        decreases nodes.len() - i,
    {
        assert(nodes@.take(i + 1).drop_last() == nodes@.take(i as int));
        assert(nodes@.take(i + 1).last() == nodes@[i as int]);
        if let MarkupNode::Element(_) = &nodes[i] {
            proof {
                lemma_elements_of_prefix(nodes@, i + 1);
            }
            return true;
        }
        i = i + 1;
    }
    assert(nodes@.take(nodes.len() as int) == nodes@);
    false
}

/// The elements of a prefix are a prefix of the elements.
proof fn lemma_elements_of_prefix(nodes: Seq<MarkupNode>, n: int)
    requires
        0 <= n <= nodes.len(),
    ensures
        elements_of(nodes.take(n)).len() <= elements_of(nodes).len(),
    decreases nodes.len() - n,
{
    if n < nodes.len() {
        lemma_elements_of_prefix(nodes, n + 1);
        assert(nodes.take(n + 1).drop_last() == nodes.take(n));
    } else {
        assert(nodes.take(n) == nodes);
    }
}

/// The first element under `nodes`, in document order, whose tag is of kind
/// `k` and which has a child element.
pub fn find_wrapper_element<'a>(nodes: &'a Vec<MarkupNode>, k: TagKind) -> (r: Option<&'a Element>)
    ensures
        match r {
            Some(e) => find_wrapper(nodes@, k) == Some(*e),
            None => find_wrapper(nodes@, k) is None,
        },
    decreases nodes,
{
    let mut i: usize = 0;
    assert(nodes@.skip(0) == nodes@);
    while i < nodes.len()
        invariant
            i <= nodes.len(),
            find_wrapper(nodes@, k) == find_wrapper(nodes@.skip(i as int), k),
        decreases nodes.len() - i,
    {
        assert(nodes@.skip(i as int)[0] == nodes@[i as int]);
        assert(nodes@.skip(i as int).drop_first() == nodes@.skip(i + 1));
        if let MarkupNode::Element(e) = &nodes[i] {
            if e.kind() == k && has_child_element(&e.children) {
                return Some(e);
            }
            match find_wrapper_element(&e.children, k) {
                Some(w) => {
                    return Some(w);
                },
                None => {},
            }
        }
        i = i + 1;
    }
    None
}

pub proof fn lemma_referenced_concat(a: Seq<&Element>, b: Seq<&Element>)
    ensures
        referenced(a + b) == referenced(a) + referenced(b),
{
    assert(referenced(a + b) =~= referenced(a) + referenced(b));
}

/// Appends to `out` every block element under `nodes`, in document order.
fn collect_block_elements<'a>(nodes: &'a Vec<MarkupNode>, out: &mut Vec<&'a Element>)
    ensures
        referenced(final(out)@) == referenced(old(out)@) + block_elements(nodes@),
    decreases nodes,
{
    let ghost start = out@;
    let mut i: usize = 0;
    while i < nodes.len()
        invariant
            i <= nodes.len(),
            referenced(out@) == referenced(start) + block_elements(nodes@.take(i as int)),
        decreases nodes.len() - i,
    {
        assert(nodes@.take(i + 1).drop_last() == nodes@.take(i as int));
        assert(nodes@.take(i + 1).last() == nodes@[i as int]);
        let ghost before = out@;
        match &nodes[i] {
            MarkupNode::Element(e) => {
                let ghost own: Seq<Element> = if is_block_kind(tag_kind(e.tag@)) {
                    seq![*e]
                } else {
                    seq![]
                };
                if is_block_element(e) {
                    out.push(e);
                    proof {
                        lemma_referenced_concat(before, seq![e]);
                        assert(referenced(seq![e]) == seq![*e]);
                    }
                }
                assert(referenced(out@) == referenced(before) + own);
                collect_block_elements(&e.children, out);
                assert(block_elements(nodes@.take(i + 1)) == block_elements(nodes@.take(i as int))
                    + (own + block_elements(e.children@)));
                assert(referenced(out@) =~= referenced(start) + block_elements(
                    nodes@.take(i + 1),
                ));
            },
            _ => {},
        }
        i = i + 1;
    }
    assert(nodes@.take(nodes.len() as int) == nodes@);
}

/// Whether an element's tag starts a block.
pub fn is_block_element(e: &Element) -> (r: bool)
    ensures
        r == is_block_kind(tag_kind(e.tag@)),
{
    match e.kind() {
        TagKind::Heading(_) | TagKind::Paragraph | TagKind::Preformatted | TagKind::Blockquote
        | TagKind::UnorderedList | TagKind::OrderedList | TagKind::Image => true,
        _ => false,
    }
}

/// The candidate elements of the document whose top-level nodes are `nodes`,
/// by the first tier that yields any.
pub fn locate_candidates(nodes: &Vec<MarkupNode>) -> (r: Vec<&Element>)
    ensures
        referenced(r@) == candidates(nodes@),
{
    match find_wrapper_element(nodes, TagKind::Body) {
        Some(body) => child_elements(&body.children),
        None => match find_wrapper_element(nodes, TagKind::Root) {
            Some(root) => child_elements(&root.children),
            None => {
                let mut out: Vec<&Element> = Vec::new();
                collect_block_elements(nodes, &mut out);
                assert(referenced(Seq::<&Element>::empty()) == Seq::<Element>::empty());
                out
            },
        },
    }
}

} // verus!
