use writer2::asset::{Asset, AssetType};
use writer2::cmark::{Block, Inline, Node, Tree};
use writer2::converter::Converter as PageConverter;
use writer2::converters::basic::{BasicConverter, BasicData};
use writer2::converters::Converter;

fn sample_doc() -> Tree {
    Tree::new(
        Node::Block(Block::Document),
        vec![Tree::new(
            Node::Block(Block::Paragraph),
            vec![Tree::leaf(Node::Inline(Inline::Text("hi".to_string())))],
        )],
    )
}

fn sample_assets() -> Vec<Asset> {
    vec![
        Asset::new("style.css".to_string(), AssetType::Css),
        Asset::new("app.js".to_string(), AssetType::Js),
        Asset::new("logo.png".to_string(), AssetType::Other),
    ]
}

const EXPECTED_PAGE: &str = "<!DOCTYPE html>\n<html>\n    <head>\n        <meta charset=\"UTF-8\">\n        <title>Title</title>\n<link rel=\"stylesheet\" href=\"../../style.css\" type=\"text/css\">\n<script src=\"../../app.js\" type=\"text/javascript\"></script>\n    </head>\n\n    <body>\n        <div class=\"container u-full-width\">\n        <p>hi</p>\n        </div>\n    </body>\n    <script>hljs.initHighlightingOnLoad();</script>\n</html>";

#[test]
fn page_head_links_css_then_js_and_skips_other_assets() {
    let assets = sample_assets();
    let mut c = BasicConverter::new();
    let html = c.convert(&sample_doc(), BasicData::new(&assets, 2)).html;
    let link = "<link rel=\"stylesheet\" href=\"../../style.css\" type=\"text/css\">";
    let script = "<script src=\"../../app.js\" type=\"text/javascript\"></script>";
    let l = html.find(link).unwrap();
    let s = html.find(script).unwrap();
    assert!(l < s);
    assert!(!html.contains("logo.png"));
}

#[test]
fn whole_page_is_exact() {
    let assets = sample_assets();
    let mut c = BasicConverter::new();
    let html = c.convert(&sample_doc(), BasicData::new(&assets, 2)).html;
    assert_eq!(html, EXPECTED_PAGE);
}

#[test]
fn standalone_page_converter_matches_basic_converter() {
    let assets = sample_assets();
    let mut c = PageConverter::new();
    let r = c.convert(&sample_doc(), &assets, 2);
    assert_eq!(r.html, EXPECTED_PAGE);
    assert!(r.diagnostics.is_empty());
}

#[test]
fn page_at_root_has_no_parent_steps() {
    let assets = vec![Asset::new("css/site.css".to_string(), AssetType::Css)];
    let mut c = BasicConverter::new();
    let html = c.convert(&sample_doc(), BasicData::new(&assets, 0)).html;
    assert!(html.contains("<link rel=\"stylesheet\" href=\"css/site.css\" type=\"text/css\">\n"));
    assert!(!html.contains("../"));
}

#[test]
fn page_code_blocks_use_the_info_string_as_class() {
    let doc = Tree::new(
        Node::Block(Block::Document),
        vec![
            Tree::leaf(Node::Block(Block::CodeBlock(String::new(), "a".to_string()))),
            Tree::leaf(Node::Block(Block::CodeBlock("py".to_string(), "b".to_string()))),
        ],
    );
    let assets = Vec::new();
    let mut c = BasicConverter::new();
    let html = c.convert(&doc, BasicData::new(&assets, 0)).html;
    assert!(html.contains(
        "        <pre><code>a</code></pre>\n        <pre><code class=\"py\">b</code></pre>\n"
    ));
}

#[test]
fn page_rendered_twice_is_identical() {
    let assets = sample_assets();
    let mut c = BasicConverter::new();
    let first = c.convert(&sample_doc(), BasicData::new(&assets, 1)).html;
    let second = c.convert(&sample_doc(), BasicData::new(&assets, 1)).html;
    assert_eq!(first, second);
}

#[test]
fn asset_accessors() {
    let a = Asset::new("x/y.js".to_string(), AssetType::Js);
    assert_eq!(a.path().as_str(), "x/y.js");
    assert_eq!(*a.asset_type(), AssetType::Js);
}

#[test]
fn asset_type_from_extension() {
    assert_eq!(AssetType::guess("style.css"), AssetType::Css);
    assert_eq!(AssetType::guess("dir.v2/app.js"), AssetType::Js);
    assert_eq!(AssetType::guess("a/b.min.css"), AssetType::Css);
    assert_eq!(AssetType::guess("logo.png"), AssetType::Other);
    assert_eq!(AssetType::guess("css"), AssetType::Other);
    assert_eq!(AssetType::guess("dir.css/README"), AssetType::Other);
    assert_eq!(AssetType::guess(".css"), AssetType::Other);
    assert_eq!(AssetType::guess("a.CSS"), AssetType::Other);
}
