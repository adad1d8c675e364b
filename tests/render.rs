use writer2::cmark::{Block, DelimType, HeadingLevel, Inline, ListType, Node, Tree};
use writer2::converters::simple::SimpleConverter;
use writer2::converters::Converter;
use writer2::render::{render_body, Diagnostic, Profile, RenderState};

fn text(s: &str) -> Tree {
    Tree::leaf(Node::Inline(Inline::Text(s.to_string())))
}

fn block(b: Block, children: Vec<Tree>) -> Tree {
    Tree::new(Node::Block(b), children)
}

fn inline(i: Inline, children: Vec<Tree>) -> Tree {
    Tree::new(Node::Inline(i), children)
}

fn doc(children: Vec<Tree>) -> Tree {
    block(Block::Document, children)
}

fn para(children: Vec<Tree>) -> Tree {
    block(Block::Paragraph, children)
}

fn minimal(t: &Tree) -> String {
    let mut c = SimpleConverter::new();
    c.convert(t, ()).html
}

fn list(ty: ListType, start: isize, tight: bool, items: Vec<Vec<Tree>>) -> Tree {
    let items = items.into_iter().map(|c| block(Block::Item, c)).collect();
    block(Block::List(ty, DelimType::No, start, tight), items)
}

#[test]
fn single_paragraph_renders_compactly() {
    let t = doc(vec![para(vec![text("hello")])]);
    assert_eq!(minimal(&t), "<p>hello</p>\n");
}

#[test]
fn rendering_twice_gives_the_same_bytes() {
    let t = doc(vec![
        para(vec![text("hello")]),
        list(ListType::Bullet, 1, false, vec![vec![text("a")], vec![text("b")]]),
        block(Block::Blockquote, vec![para(vec![text("q")])]),
    ]);
    let mut c = SimpleConverter::new();
    let first = c.convert(&t, ()).html;
    let second = c.convert(&t, ()).html;
    assert_eq!(first, second);
    assert_eq!(first, minimal(&t));
}

#[test]
fn tight_list_items_have_no_paragraph_tags() {
    let t = doc(vec![list(ListType::Bullet, 1, true, vec![vec![text("one")], vec![text("two")]])]);
    let html = minimal(&t);
    assert_eq!(html, "<ul>\n    <li>\none    </li>\n    <li>\ntwo    </li>\n</ul>\n");
    assert!(!html.contains("<p>"));
}

#[test]
fn loose_list_items_wrap_content_in_paragraph_tags() {
    let t = doc(vec![list(ListType::Bullet, 1, false, vec![vec![text("one")], vec![text("two")]])]);
    let html = minimal(&t);
    assert_eq!(
        html,
        "<ul>\n    <li><p>\none    </p></li>\n    <li><p>\ntwo    </p></li>\n</ul>\n"
    );
}

#[test]
fn ordered_list_renders_ol_without_start_attribute() {
    let t = doc(vec![list(ListType::Ordered, 3, true, vec![vec![text("x")]])]);
    let html = minimal(&t);
    assert!(html.starts_with("<ol>\n"));
    assert!(html.ends_with("</ol>\n"));
    assert!(!html.contains("start="));
}

#[test]
fn inner_list_tightness_does_not_leak_to_outer_items() {
    let inner = list(ListType::Bullet, 1, true, vec![vec![text("in")]]);
    let t = doc(vec![list(
        ListType::Bullet,
        1,
        false,
        vec![vec![text("a"), inner], vec![text("b")]],
    )]);
    let html = minimal(&t);
    assert_eq!(
        html,
        "<ul>\n    <li><p>\na        <ul>\n            <li>\nin            </li>\n        </ul>\n    </p></li>\n    <li><p>\nb    </p></li>\n</ul>\n"
    );
}

#[test]
fn custom_block_is_skipped_with_a_diagnostic() {
    let t = doc(vec![
        para(vec![text("before")]),
        block(Block::CustomBlock, vec![]),
        para(vec![text("after")]),
    ]);
    let mut c = SimpleConverter::new();
    let r = c.convert(&t, ());
    assert_eq!(r.html, "<p>before</p>\n<p>after</p>\n");
    assert_eq!(r.diagnostics, vec![Diagnostic::UnsupportedBlock]);
    assert_eq!(r.diagnostics[0].message(), "custom blocks not implemented yet");
}

#[test]
fn custom_inline_is_skipped_with_a_diagnostic() {
    let t = doc(vec![para(vec![text("a"), inline(Inline::CustomInline, vec![]), text("b")])]);
    let mut c = SimpleConverter::new();
    let r = c.convert(&t, ());
    assert_eq!(r.html, "<p>ab</p>\n");
    assert_eq!(r.diagnostics, vec![Diagnostic::UnsupportedInline]);
    assert_eq!(r.diagnostics[0].message(), "custom inlines not implemented yet");
}

#[test]
fn link_without_title() {
    let link = inline(Inline::Link("http://x".to_string(), String::new()), vec![text("x")]);
    let t = doc(vec![para(vec![link])]);
    assert_eq!(minimal(&t), "<p><a href=\"http://x\">x</a></p>\n");
}

#[test]
fn link_with_title() {
    let link = inline(Inline::Link("http://x".to_string(), "T".to_string()), vec![text("x")]);
    let t = doc(vec![para(vec![link])]);
    assert_eq!(minimal(&t), "<p><a href=\"http://x\" title=\"T\">x</a></p>\n");
}

#[test]
fn image_with_and_without_title() {
    let plain = inline(Inline::Image("a.png".to_string(), String::new()), vec![text("alt")]);
    let titled = inline(Inline::Image("b.png".to_string(), "B".to_string()), vec![text("b")]);
    let t = doc(vec![para(vec![plain, titled])]);
    assert_eq!(
        minimal(&t),
        "<p><img src=\"a.png\" alt=\"alt\" /><img src=\"b.png\" title=\"B\" alt=\"b\" /></p>\n"
    );
}

#[test]
fn inline_markup() {
    let t = doc(vec![para(vec![
        inline(Inline::Emph, vec![text("e")]),
        inline(Inline::Strong, vec![text("s")]),
        Tree::leaf(Node::Inline(Inline::Code("c".to_string()))),
        Tree::leaf(Node::Inline(Inline::SoftBreak)),
        Tree::leaf(Node::Inline(Inline::LineBreak)),
        Tree::leaf(Node::Inline(Inline::HtmlInline("<span>".to_string()))),
    ])]);
    assert_eq!(minimal(&t), "<p><em>e</em><strong>s</strong><code>c</code>\n<br />\n<span></p>\n");
}

#[test]
fn headings_of_every_level() {
    let levels = vec![
        (HeadingLevel::One, 1),
        (HeadingLevel::Two, 2),
        (HeadingLevel::Three, 3),
        (HeadingLevel::Four, 4),
        (HeadingLevel::Five, 5),
        (HeadingLevel::Six, 6),
    ];
    for (level, n) in levels {
        let t = doc(vec![block(Block::Heading(level), vec![text("t")])]);
        assert_eq!(minimal(&t), format!("<h{0}>t</h{0}>\n", n));
    }
}

#[test]
fn blockquote_indents_its_content() {
    let t = doc(vec![block(
        Block::Blockquote,
        vec![para(vec![text("q")]), Tree::leaf(Node::Block(Block::ThematicBreak))],
    )]);
    assert_eq!(minimal(&t), "<blockquote>\n    <p>q</p>\n    <hr />\n</blockquote>\n");
}

#[test]
fn compact_code_blocks() {
    let plain = Tree::leaf(Node::Block(Block::CodeBlock(String::new(), "x = 1".to_string())));
    let labelled = Tree::leaf(Node::Block(Block::CodeBlock("rust".to_string(), "fn f()".to_string())));
    let t = doc(vec![plain, labelled]);
    assert_eq!(
        minimal(&t),
        "<pre><code>x = 1</code></pre>\n<pre><code class=\"language-rust\">fn f()</code></pre>\n"
    );
}

#[test]
fn html_block_passes_through() {
    let t = doc(vec![Tree::leaf(Node::Block(Block::HtmlBlock("<div>raw</div>".to_string())))]);
    assert_eq!(minimal(&t), "<div>raw</div>\n");
}

#[test]
fn indent_returns_to_zero_after_the_document() {
    let t = doc(vec![
        block(Block::Blockquote, vec![list(ListType::Bullet, 1, true, vec![vec![para(vec![text("deep")])]])]),
        para(vec![text("top")]),
    ]);
    let mut state = RenderState::new(Profile::Minimal);
    let r = render_body(&mut state, &t);
    assert_eq!(state.indent(), 0);
    assert!(r.html.contains("            <p>deep</p>\n"));
}
