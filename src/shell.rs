//! The full HTML page around a rendered body: a fixed head that links the
//! site's stylesheets and scripts, and a fixed footer.

use vstd::prelude::*;

use crate::asset::{Asset, AssetType};
use crate::cmark::{
    document_only_at_root, events_of, lemma_stream_is_walk, stream_of, Iter, Tree,
};
use crate::render::{
    lemma_indent_counts_open_blocks, run, run_notes, Diagnostic, RenderState, RenderView, Rendering,
};

verus! {

/// The head of the page, up to where the assets are linked.
pub open spec fn header_pre() -> Seq<char> {
    "<!DOCTYPE html>\n<html>\n    <head>\n        <meta charset=\"UTF-8\">\n        <title>Title</title>\n"@
}

/// The end of the head and the start of the body's layout.
pub open spec fn header_post() -> Seq<char> {
    "    </head>\n\n    <body>\n        <div class=\"container u-full-width\">\n"@
}

pub open spec fn footer() -> Seq<char> {
    "        </div>\n    </body>\n    <script>hljs.initHighlightingOnLoad();</script>\n</html>"@
}

/// The body starts this deep inside the page's layout.
pub const BODY_INDENT: usize = 2;

/// `../`, `n` times: the way up from a page `n` directories below the root.
pub open spec fn up_text(n: nat) -> Seq<char>
    decreases n,
{
    if n == 0 {
        Seq::empty()
    } else {
        up_text((n - 1) as nat) + "../"@
    }
}

/// The head line that links an asset; none for an asset that is neither a
/// stylesheet nor a script.
pub open spec fn asset_line(a: Asset, dist: nat) -> Seq<char> {
    match a.spec_asset_type() {
        AssetType::Css => "<link rel=\"stylesheet\" href=\""@ + up_text(dist) + a.spec_path()
            + "\" type=\"text/css\">\n"@,
        AssetType::Js => "<script src=\""@ + up_text(dist) + a.spec_path()
            + "\" type=\"text/javascript\"></script>\n"@,
        AssetType::Other => Seq::empty(),
    }
}

/// The head lines of all assets, in the order given.
pub open spec fn assets_text(assets: Seq<Asset>, dist: nat) -> Seq<char>
    decreases assets.len(),
{
    if assets.len() == 0 {
        Seq::empty()
    } else {
        assets_text(assets.drop_last(), dist) + asset_line(assets.last(), dist)
    }
}

/// A whole page around `body`.
pub open spec fn page(assets: Seq<Asset>, dist: nat, body: Seq<char>) -> Seq<char> {
    header_pre() + assets_text(assets, dist) + header_post() + body + footer()
}

/// `../`, `n` times.
pub fn repeat_up(n: usize) -> (r: String)
    ensures
        r@ == up_text(n as nat),
{
    let mut r = String::new();
    let mut i: usize = 0;
    while i < n
        invariant
            i <= n,
            r@ == up_text(i as nat),
        decreases n - i,
    {
        r.append("../");
        i = i + 1;
    }
    r
}

pub fn write_assets(out: &mut String, assets: &Vec<Asset>, dist: usize)
    ensures
        final(out)@ == old(out)@ + assets_text(assets@, dist as nat),
{
    let up = repeat_up(dist);
    let mut i: usize = 0;
    assert(assets@.take(0) =~= Seq::<Asset>::empty());
    while i < assets.len()
        invariant
            i <= assets@.len(),
            up@ == up_text(dist as nat),
            out@ == old(out)@ + assets_text(assets@.take(i as int), dist as nat),
        decreases assets@.len() - i,
    {
        let asset = &assets[i];
        assert(assets@.take(i + 1).drop_last() =~= assets@.take(i as int));
        match asset.asset_type() {
            AssetType::Css => {
                out.append("<link rel=\"stylesheet\" href=\"");
                out.append(up.as_str());
                out.append(asset.path().as_str());
                out.append("\" type=\"text/css\">\n");
            },
            AssetType::Js => {
                out.append("<script src=\"");
                out.append(up.as_str());
                out.append(asset.path().as_str());
                out.append("\" type=\"text/javascript\"></script>\n");
            },
            AssetType::Other => {},
        }
        i = i + 1;
        assert(out@ =~= old(out)@ + assets_text(assets@.take(i as int), dist as nat));
    }
    assert(assets@.take(i as int) =~= assets@);
}

pub fn write_header(out: &mut String, assets: &Vec<Asset>, dist: usize)
    ensures
        final(out)@ == old(out)@ + header_pre() + assets_text(assets@, dist as nat) + header_post(),
{
    out.append(
        "<!DOCTYPE html>\n<html>\n    <head>\n        <meta charset=\"UTF-8\">\n        <title>Title</title>\n",
    );
    write_assets(out, assets, dist);
    out.append("    </head>\n\n    <body>\n        <div class=\"container u-full-width\">\n");
}

pub fn write_footer(out: &mut String)
    ensures
        final(out)@ == old(out)@ + footer(),
{
    out.append(
        "        </div>\n    </body>\n    <script>hljs.initHighlightingOnLoad();</script>\n</html>",
    );
}

/// The state in which a page's body starts: at the layout's depth, with the
/// lists that `s` has open.
pub open spec fn body_start(s: RenderView) -> RenderView {
    RenderView { indent: BODY_INDENT as int, ..s }
}

/// A page's body ends at the depth where it started: the layout's depth is
/// back once the Document's exit has been processed. The bound is that of
/// the machine: the events must not raise the depth past the largest
/// `usize`.
pub proof fn lemma_page_body_depth(s: RenderView, doc: Tree)
    requires
        document_only_at_root(doc),
        events_of(doc).len() + BODY_INDENT <= usize::MAX,
    ensures
        run(body_start(s), stream_of(doc)).0.indent == BODY_INDENT,
{
    lemma_stream_is_walk(doc);
    let evs = events_of(doc);
    lemma_indent_counts_open_blocks(body_start(s), doc, evs.len() as int);
    assert(evs.take(evs.len() as int) =~= evs);
}

/// Renders `doc` as a whole page that links `assets` from `dist`
/// directories below the site root.
pub fn render_page(state: &mut RenderState, doc: &Tree, assets: &Vec<Asset>, dist: usize) -> (r:
    Rendering)
    ensures
        r.html@ == page(assets@, dist as nat, run(body_start(old(state)@), stream_of(*doc)).1),
        r.diagnostics@ == run_notes(stream_of(*doc)),
        final(state)@ == run(body_start(old(state)@), stream_of(*doc)).0,
{
    let mut out = String::new();
    write_header(&mut out, assets, dist);
    state.set_indent(BODY_INDENT);
    let mut iter = Iter::from_tree(doc);
    let mut notes: Vec<Diagnostic> = Vec::new();
    state.convert_all(&mut iter, &mut out, &mut notes);
    write_footer(&mut out);
    assert(notes@ =~= run_notes(stream_of(*doc)));
    Rendering { html: out, diagnostics: notes }
}

} // verus!
