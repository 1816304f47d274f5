//! The read-only markup tree that the document builder walks.
use vstd::prelude::*;
use crate::text::same_text;

verus! {

broadcast use vstd::std_specs::vec::group_vec_axioms, vstd::seq::group_seq_axioms;

/// One `name="value"` pair of an element.
#[derive(Debug)]
pub struct Attribute {
    pub name: String,
    pub value: String,
}

/// An element: its tag name, its attributes in source order and its children.
#[derive(Debug)]
pub struct Element {
    pub tag: String,
    pub attributes: Vec<Attribute>,
    pub children: Vec<MarkupNode>,
}

/// A node of an already-parsed document.
#[derive(Debug)]
pub enum MarkupNode {
    Element(Element),
    Text(String),
    /// A comment, doctype or processing instruction: never rendered.
    Other,
}

/// The concatenation, in document order, of every text node under `nodes`.
pub open spec fn text_of(nodes: Seq<MarkupNode>) -> Seq<char>
    decreases nodes,
{
    if nodes.len() == 0 {
        seq![]
    } else {
        let last = match nodes.last() {
            MarkupNode::Text(t) => t@,
            MarkupNode::Element(e) => text_of(e.children@),
            MarkupNode::Other => seq![],
        };
        text_of(nodes.drop_last()) + last
    }
}

/// Flattened text of `nodes`: every descendant text node, in document order.
pub fn text_content(nodes: &Vec<MarkupNode>) -> (r: String)
    ensures
        r@ == text_of(nodes@),
    decreases nodes,
{
    let mut acc = String::new();
    let mut i: usize = 0;
    while i < nodes.len()
        invariant
            i <= nodes.len(),
            acc@ == text_of(nodes@.take(i as int)),
        decreases nodes.len() - i,
    {
        assert(nodes@.take(i + 1).drop_last() == nodes@.take(i as int));
        match &nodes[i] {
            MarkupNode::Text(t) => {
                acc.append(t.as_str());
            },
            MarkupNode::Element(e) => {
                let inner = text_content(&e.children);
                acc.append(inner.as_str());
            },
            MarkupNode::Other => {},
        }
        i = i + 1;
    }
    assert(nodes@.take(nodes.len() as int) == nodes@);
    acc
}

/// The tags the renderer tells apart; every other name is `Unrecognized`.
#[derive(Clone, Copy, Debug, PartialEq, Eq, Structural)]
pub enum TagKind {
    /// `h1` to `h6`, with the level.
    Heading(u8),
    Paragraph,
    Preformatted,
    Blockquote,
    UnorderedList,
    OrderedList,
    ListItem,
    Image,
    Bold,
    Italic,
    Code,
    Anchor,
    /// The wrapper around a document's visible content.
    Body,
    /// The document's root element.
    Root,
    Unrecognized,
}

/// The kind of a tag name.
pub open spec fn tag_kind(name: Seq<char>) -> TagKind {
    if name == "h1"@ {
        TagKind::Heading(1)
    } else if name == "h2"@ {
        TagKind::Heading(2)
    } else if name == "h3"@ {
        TagKind::Heading(3)
    } else if name == "h4"@ {
        TagKind::Heading(4)
    } else if name == "h5"@ {
        TagKind::Heading(5)
    } else if name == "h6"@ {
        TagKind::Heading(6)
    } else if name == "p"@ {
        TagKind::Paragraph
    } else if name == "pre"@ {
        TagKind::Preformatted
    } else if name == "blockquote"@ {
        TagKind::Blockquote
    } else if name == "ul"@ {
        TagKind::UnorderedList
    } else if name == "ol"@ {
        TagKind::OrderedList
    } else if name == "li"@ {
        TagKind::ListItem
    } else if name == "img"@ {
        TagKind::Image
    } else if name == "strong"@ || name == "b"@ {
        TagKind::Bold
    } else if name == "em"@ || name == "i"@ {
        TagKind::Italic
    } else if name == "code"@ {
        TagKind::Code
    } else if name == "a"@ {
        TagKind::Anchor
    } else if name == "body"@ {
        TagKind::Body
    } else if name == "html"@ {
        TagKind::Root
    } else {
        TagKind::Unrecognized
    }
}

/// Whether a kind starts a block: a heading, paragraph, preformatted text,
/// blockquote, list or image.
pub open spec fn is_block_kind(k: TagKind) -> bool {
    match k {
        TagKind::Heading(_) | TagKind::Paragraph | TagKind::Preformatted | TagKind::Blockquote
        | TagKind::UnorderedList | TagKind::OrderedList | TagKind::Image => true,
        _ => false,
    }
}

/// Classifies a tag name.
pub fn kind_of_tag(name: &str) -> (r: TagKind)
    ensures
        r == tag_kind(name@),
{
    if same_text(name, "h1") {
        TagKind::Heading(1)
    } else if same_text(name, "h2") {
        TagKind::Heading(2)
    } else if same_text(name, "h3") {
        TagKind::Heading(3)
    } else if same_text(name, "h4") {
        TagKind::Heading(4)
    } else if same_text(name, "h5") {
        TagKind::Heading(5)
    } else if same_text(name, "h6") {
        TagKind::Heading(6)
    } else if same_text(name, "p") {
        TagKind::Paragraph
    } else if same_text(name, "pre") {
        TagKind::Preformatted
    } else if same_text(name, "blockquote") {
        TagKind::Blockquote
    } else if same_text(name, "ul") {
        TagKind::UnorderedList
    } else if same_text(name, "ol") {
        TagKind::OrderedList
    } else if same_text(name, "li") {
        TagKind::ListItem
    } else if same_text(name, "img") {
        TagKind::Image
    } else if same_text(name, "strong") || same_text(name, "b") {
        TagKind::Bold
    } else if same_text(name, "em") || same_text(name, "i") {
        TagKind::Italic
    } else if same_text(name, "code") {
        TagKind::Code
    } else if same_text(name, "a") {
        TagKind::Anchor
    } else if same_text(name, "body") {
        TagKind::Body
    } else if same_text(name, "html") {
        TagKind::Root
    } else {
        TagKind::Unrecognized
    }
}

/// The value of the first attribute named `name`, if any.
pub open spec fn attribute_of(attrs: Seq<Attribute>, name: Seq<char>) -> Option<Seq<char>>
    decreases attrs.len(),
{
    if attrs.len() == 0 {
        None
    } else if attrs[0].name@ == name {
        Some(attrs[0].value@)
    } else {
        attribute_of(attrs.drop_first(), name)
    }
}

impl Element {
    /// The kind of this element's tag.
    pub open spec fn kind_spec(&self) -> TagKind {
        tag_kind(self.tag@)
    }

    pub fn kind(&self) -> (r: TagKind)
        ensures
            r == self.kind_spec(),
    {
        kind_of_tag(self.tag.as_str())
    }

    /// The value of the attribute `name`; the first one where it repeats.
    pub fn attribute(&self, name: &str) -> (r: Option<&String>)
        ensures
            match r {
                Some(v) => attribute_of(self.attributes@, name@) == Some(v@),
                None => attribute_of(self.attributes@, name@) is None,
            },
    {
        let mut i: usize = 0;
        assert(self.attributes@.skip(0) == self.attributes@);
        while i < self.attributes.len()
            invariant
                i <= self.attributes.len(),
                attribute_of(self.attributes@, name@) == attribute_of(
                    self.attributes@.skip(i as int),
                    name@,
                ),
            decreases self.attributes.len() - i,
        {
            let a = &self.attributes[i];
            assert(self.attributes@.skip(i as int)[0] == *a);
            assert(self.attributes@.skip(i as int).drop_first() == self.attributes@.skip(i + 1));
            if same_text(a.name.as_str(), name) {
                return Some(&a.value);
            }
            i = i + 1;
        }
        None
    }

    /// Flattened text of this element: every descendant text node, in order.
    pub fn text(&self) -> (r: String)
        ensures
            r@ == text_of(self.children@),
    {
        text_content(&self.children)
    }
}

} // verus!
