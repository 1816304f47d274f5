use cauldron::block::{classify_element, Block};
use cauldron::document::build_document;
use cauldron::image::{display_size, ImageCommand, ImageEvent, ImageState};
use cauldron::inline::{format_inline, InlineSpan};
use cauldron::locator::locate_candidates;
use cauldron::marker::{list_marker, list_markers};
use cauldron::text::same_text;
use cauldron::markup::{kind_of_tag, Attribute, Element, MarkupNode, TagKind};

fn el(tag: &str, children: Vec<MarkupNode>) -> MarkupNode {
    MarkupNode::Element(element(tag, vec![], children))
}

fn el_with(tag: &str, attrs: Vec<(&str, &str)>, children: Vec<MarkupNode>) -> MarkupNode {
    MarkupNode::Element(element(tag, attrs, children))
}

fn element(tag: &str, attrs: Vec<(&str, &str)>, children: Vec<MarkupNode>) -> Element {
    Element {
        tag: tag.to_string(),
        attributes: attrs
            .into_iter()
            .map(|(n, v)| Attribute { name: n.to_string(), value: v.to_string() })
            .collect(),
        children,
    }
}

fn text(s: &str) -> MarkupNode {
    MarkupNode::Text(s.to_string())
}

fn t(s: &str) -> InlineSpan {
    InlineSpan::Text(s.to_string())
}

fn describe_spans(spans: &[InlineSpan]) -> String {
    spans.iter().map(describe_span).collect::<Vec<_>>().join(",")
}

fn describe_span(s: &InlineSpan) -> String {
    match s {
        InlineSpan::Text(x) => format!("Text({})", x),
        InlineSpan::Bold(c) => format!("Bold([{}])", describe_spans(c)),
        InlineSpan::Italic(c) => format!("Italic([{}])", describe_spans(c)),
        InlineSpan::Code(x) => format!("Code({})", x),
        InlineSpan::Link(h, c) => format!("Link({},[{}])", h, describe_spans(c)),
    }
}

fn describe_block(b: &Block) -> String {
    match b {
        Block::Heading { level, inline } => format!("Heading{{{},[{}]}}", level, describe_spans(inline)),
        Block::Paragraph { inline } => format!("Paragraph{{[{}]}}", describe_spans(inline)),
        Block::CodeBlock { text } => format!("CodeBlock{{{}}}", text),
        Block::Blockquote { children } => format!(
            "Blockquote{{[{}]}}",
            children.iter().map(describe_block).collect::<Vec<_>>().join(",")
        ),
        Block::List { ordered, items } => format!(
            "List{{{},[{}]}}",
            ordered,
            items.iter().map(|i| format!("[{}]", describe_spans(i))).collect::<Vec<_>>().join(",")
        ),
        Block::Image { url, state } => format!(
            "Image{{{},{}}}",
            url,
            match state {
                ImageState::NotRequested => "NotRequested",
                ImageState::Requested => "Requested",
                ImageState::Decoding => "Decoding",
                ImageState::Succeeded { .. } => "Succeeded",
                ImageState::Failed { .. } => "Failed",
            }
        ),
    }
}

fn describe_doc(nodes: &Vec<MarkupNode>) -> String {
    let doc = build_document(nodes);
    doc.blocks.iter().map(describe_block).collect::<Vec<_>>().join(",")
}

#[test]
fn body_heading_and_paragraph() {
    let nodes = vec![el(
        "body",
        vec![
            el("h1", vec![text("Title")]),
            el("p", vec![text("Hello "), el("b", vec![text("world")])]),
        ],
    )];
    assert_eq!(
        describe_doc(&nodes),
        "Heading{1,[Text(Title)]},Paragraph{[Text(Hello ),Bold([Text(world)])]}"
    );
}

#[test]
fn bare_list_found_by_deep_search() {
    let nodes = vec![el("ul", vec![el("li", vec![text("One")]), el("li", vec![text("Two")])])];
    assert_eq!(describe_doc(&nodes), "List{false,[[Text(One)],[Text(Two)]]}");
}

#[test]
fn anchor_without_href_keeps_content() {
    let p = element("p", vec![], vec![el("a", vec![el("i", vec![text("note")])])]);
    let spans = format_inline(&p);
    assert_eq!(describe_spans(&spans), "Italic([Text(note)])");
}

#[test]
fn anchor_with_href_is_link() {
    let p = element(
        "p",
        vec![],
        vec![el_with("a", vec![("href", "https://e.x/?a=1&b=2")], vec![text("go")])],
    );
    let spans = format_inline(&p);
    assert_eq!(describe_spans(&spans), "Link(https://e.x/?a=1&amp;b=2,[Text(go)])");
}

#[test]
fn text_is_escaped() {
    let p = element("p", vec![], vec![text("a < b && c > d")]);
    let spans = format_inline(&p);
    assert_eq!(describe_spans(&spans), "Text(a &lt; b &amp;&amp; c &gt; d)");
}

#[test]
fn code_and_unrecognized_are_flattened() {
    let p = element(
        "p",
        vec![],
        vec![
            el("code", vec![text("x<y"), el("b", vec![text("!")])]),
            el("span", vec![text("plain "), el("i", vec![text("lost")])]),
        ],
    );
    let spans = format_inline(&p);
    assert_eq!(describe_spans(&spans), "Code(x&lt;y!),Text(plain lost)");
}

#[test]
fn bold_within_italic_keeps_nesting() {
    let p = element(
        "p",
        vec![],
        vec![el("em", vec![text("a"), el("strong", vec![text("b")]), text("c")])],
    );
    assert_eq!(
        describe_spans(&format_inline(&p)),
        "Italic([Text(a),Bold([Text(b)]),Text(c)])"
    );
    let q = element("p", vec![], vec![el("b", vec![el("i", vec![text("x")])])]);
    assert_eq!(describe_spans(&format_inline(&q)), "Bold([Italic([Text(x)])])");
}

#[test]
fn body_tier_wins_over_root() {
    let nodes = vec![el(
        "html",
        vec![el("p", vec![text("outside")]), el("body", vec![el("p", vec![text("inside")])])],
    )];
    assert_eq!(describe_doc(&nodes), "Paragraph{[Text(inside)]}");
    let found = locate_candidates(&nodes);
    assert_eq!(found.len(), 1);
}

#[test]
fn root_tier_before_deep_search() {
    let nodes = vec![el(
        "html",
        vec![el("body", vec![]), el("div", vec![el("p", vec![text("deep")])]), el("h2", vec![text("top")])],
    )];
    let found = locate_candidates(&nodes);
    assert_eq!(found.len(), 3);
    assert_eq!(describe_doc(&nodes), "Heading{2,[Text(top)]}");
}

#[test]
fn deep_search_finds_nested_blocks_in_order() {
    let nodes = vec![
        MarkupNode::Other,
        el("div", vec![el("p", vec![text("a")]), el("section", vec![el("h3", vec![text("b")])])]),
        el("pre", vec![text("x < 1")]),
    ];
    assert_eq!(
        describe_doc(&nodes),
        "Paragraph{[Text(a)]},Heading{3,[Text(b)]},CodeBlock{x < 1}"
    );
}

#[test]
fn empty_document() {
    let nodes: Vec<MarkupNode> = vec![];
    assert_eq!(build_document(&nodes).blocks.len(), 0);
    let nodes = vec![el("div", vec![text("no blocks")])];
    assert_eq!(build_document(&nodes).blocks.len(), 0);
}

#[test]
fn blockquote_and_image() {
    let nodes = vec![el(
        "body",
        vec![
            el("blockquote", vec![text("loose"), el("p", vec![text("q")]), el("span", vec![])]),
            el_with("img", vec![("alt", "x"), ("src", "https://i/1.png")], vec![]),
            el("img", vec![]),
            el("ol", vec![el("li", vec![text("first")]), el("li", vec![el("b", vec![text("second")])])]),
        ],
    )];
    assert_eq!(
        describe_doc(&nodes),
        "Blockquote{[Paragraph{[Text(q)]}]},Image{https://i/1.png,NotRequested},Image{,NotRequested},List{true,[[Text(first)],[Bold([Text(second)])]]}"
    );
}

#[test]
fn unrecognized_top_level_is_dropped() {
    let e = element("table", vec![], vec![text("x")]);
    assert!(classify_element(&e).is_none());
    let h = element("h6", vec![], vec![text("x")]);
    assert_eq!(describe_block(&classify_element(&h).unwrap()), "Heading{6,[Text(x)]}");
}

#[test]
fn building_twice_gives_the_same_document() {
    let nodes = vec![el("body", vec![el("p", vec![text("a & b"), el("code", vec![text("c")])])])];
    assert_eq!(describe_doc(&nodes), describe_doc(&nodes));
}

#[test]
fn tag_kinds() {
    assert_eq!(kind_of_tag("h4"), TagKind::Heading(4));
    assert_eq!(kind_of_tag("strong"), TagKind::Bold);
    assert_eq!(kind_of_tag("i"), TagKind::Italic);
    assert_eq!(kind_of_tag("div"), TagKind::Unrecognized);
    assert!(same_text("body", "body"));
    assert!(!same_text("body", "bod"));
}

#[test]
fn ordered_and_unordered_markers() {
    let m = list_markers(true, 12);
    assert_eq!(m[0], "1.");
    assert_eq!(m[9], "10.");
    assert_eq!(m[11], "12.");
    let b = list_markers(false, 3);
    assert!(b.iter().all(|x| x == "\u{2022}"));
    assert_eq!(list_marker(true, 99), "100.");
}

#[test]
fn failed_fetch_never_decodes() {
    let mut s = ImageState::NotRequested;
    assert!(matches!(s.apply(ImageEvent::LoadRequested), ImageCommand::Fetch));
    assert!(matches!(s, ImageState::Requested));
    assert!(matches!(s.apply(ImageEvent::FetchFailed("timeout".to_string())), ImageCommand::Nothing));
    assert!(matches!(&s, ImageState::Failed { reason } if reason == "timeout"));
    assert!(matches!(s.apply(ImageEvent::LoadRequested), ImageCommand::Nothing));
    assert!(matches!(s, ImageState::Failed { .. }));
}

#[test]
fn successful_load() {
    let mut s = ImageState::NotRequested;
    s.apply(ImageEvent::LoadRequested);
    match s.apply(ImageEvent::Fetched(vec![1, 2, 3])) {
        ImageCommand::Decode(b) => assert_eq!(b, vec![1, 2, 3]),
        _ => panic!("expected a decode"),
    }
    assert!(matches!(s, ImageState::Decoding));
    s.apply(ImageEvent::Decoded { width: 4, height: 2, pixels: vec![0; 32] });
    assert!(matches!(s, ImageState::Succeeded { width: 4, height: 2, .. }));
    s.apply(ImageEvent::DecodeFailed("late".to_string()));
    assert!(matches!(s, ImageState::Succeeded { .. }));
}

#[test]
fn decode_failure() {
    let mut s = ImageState::Decoding;
    s.apply(ImageEvent::DecodeFailed("bad".to_string()));
    assert!(matches!(&s, ImageState::Failed { reason } if reason == "bad"));
}

#[test]
fn image_sizing() {
    assert_eq!(display_size(4000, 2000, 3000), (2048, 1024));
    assert_eq!(display_size(800, 600, 400), (400, 300));
    assert_eq!(display_size(300, 100, 1000), (300, 100));
    assert_eq!(display_size(0, 100, 1000), (0, 0));
    assert_eq!(display_size(3, 2, 2), (2, 1));
    assert_eq!(display_size(u32::MAX, u32::MAX, u32::MAX), (2048, 2048));
    assert_eq!(display_size(100, 50, 0), (0, 0));
}

fn read_back(t: &str) -> String {
    t.replace("&lt;", "<").replace("&gt;", ">").replace("&quot;", "\"").replace("&apos;", "'").replace("&amp;", "&")
}

#[test]
fn escaped_text_reads_back() {
    for raw in ["a < b", "&amp; already", "<b>x</b> & \"q\" 'a'", "plain", ""] {
        let p = element("p", vec![], vec![text(raw)]);
        let spans = format_inline(&p);
        match &spans[0] {
            InlineSpan::Text(t) => {
                assert!(!t.contains('<') && !t.contains('>'));
                assert_eq!(read_back(t), raw);
            }
            other => panic!("expected a text span, got {}", describe_span(other)),
        }
    }
}
