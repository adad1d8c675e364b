//! The state machine that turns a stream of node events into HTML.
//!
//! Its state is the current indent depth and a stack of the tightness flags
//! of the enclosing lists, one pushed when a list is entered and popped when
//! it is left, so that an inner list's flag never leaks into its parent.

use vstd::prelude::*;

use crate::nesting::{lemma_events_balanced, lemma_prefix_nests, nest, nest_step};
use crate::cmark::{
    children_depth, children_events, depth, events_of, stream_of, Block, DelimType, Event, HeadingLevel, Inline, Iter, ListType, Node, NodeView, Tree,
};

verus! {

/// The two renderers: a compact body for embedding, and the body of a full
/// page. They differ in how a code block is marked up.
#[derive(Debug, Clone, Copy, PartialEq, Eq, Hash, Structural)]
pub enum Profile {
    Minimal,
    Shelled,
}

/// Something the renderer met and could not render.
#[derive(Debug, Clone, Copy, PartialEq, Eq, Hash, Structural)]
pub enum Diagnostic {
    UnsupportedBlock,
    UnsupportedInline,
}

impl Diagnostic {
    pub fn message(&self) -> (r: &'static str)
        ensures
            *self == Diagnostic::UnsupportedBlock ==> r@ == "custom blocks not implemented yet"@,
            *self == Diagnostic::UnsupportedInline ==> r@ == "custom inlines not implemented yet"@,
    {
        match self {
            Diagnostic::UnsupportedBlock => "custom blocks not implemented yet",
            Diagnostic::UnsupportedInline => "custom inlines not implemented yet",
        }
    }
}

/// The result of rendering a document: the HTML text, and the diagnostics
/// for what could not be rendered.
pub struct Rendering {
    pub html: String,
    pub diagnostics: Vec<Diagnostic>,
}

/// The renderer's state as a value: its profile, the indent depth and the
/// tightness flags of the lists that are open, innermost last.
pub struct RenderView {
    pub profile: Profile,
    pub indent: int,
    pub tight: Seq<bool>,
}

/// The state before anything is rendered.
pub open spec fn fresh(p: Profile) -> RenderView {
    RenderView { profile: p, indent: 0, tight: Seq::empty() }
}

/// One indent unit, four spaces, repeated `n` times.
pub open spec fn indent_text(n: nat) -> Seq<char>
    decreases n,
{
    if n == 0 {
        Seq::empty()
    } else {
        indent_text((n - 1) as nat) + "    "@
    }
}

/// The depth after entering a block container; it stops at the largest
/// `usize`, which no document reaches.
pub open spec fn deeper(i: int) -> int {
    if i < usize::MAX {
        i + 1
    } else {
        i
    }
}

/// The depth after leaving a block container; it stops at zero.
pub open spec fn shallower(i: int) -> int {
    if i > 0 {
        i - 1
    } else {
        i
    }
}

/// Whether the innermost open list is tight; false outside any list.
pub open spec fn innermost_tight(t: Seq<bool>) -> bool {
    t.len() > 0 && t.last()
}

/// The block containers, whose content is indented one level deeper.
pub open spec fn indents(n: NodeView) -> bool {
    match n {
        NodeView::Blockquote | NodeView::List { .. } | NodeView::Item | NodeView::Paragraph
        | NodeView::Heading { .. } => true,
        _ => false,
    }
}

/// The state after one event.
pub open spec fn step_state(s: RenderView, n: NodeView, e: Event) -> RenderView {
    if indents(n) {
        let tight = match n {
            NodeView::List { tight, .. } => match e {
                Event::Enter => s.tight.push(tight),
                Event::Exit => if s.tight.len() > 0 {
                    s.tight.drop_last()
                } else {
                    s.tight
                },
            },
            _ => s.tight,
        };
        match e {
            Event::Enter => RenderView { indent: deeper(s.indent), tight, ..s },
            Event::Exit => RenderView { indent: shallower(s.indent), tight, ..s },
        }
    } else {
        s
    }
}

pub open spec fn heading_open(level: HeadingLevel) -> Seq<char> {
    match level {
        HeadingLevel::One => "<h1>"@,
        HeadingLevel::Two => "<h2>"@,
        HeadingLevel::Three => "<h3>"@,
        HeadingLevel::Four => "<h4>"@,
        HeadingLevel::Five => "<h5>"@,
        HeadingLevel::Six => "<h6>"@,
    }
}

pub open spec fn heading_close(level: HeadingLevel) -> Seq<char> {
    match level {
        HeadingLevel::One => "</h1>\n"@,
        HeadingLevel::Two => "</h2>\n"@,
        HeadingLevel::Three => "</h3>\n"@,
        HeadingLevel::Four => "</h4>\n"@,
        HeadingLevel::Five => "</h5>\n"@,
        HeadingLevel::Six => "</h6>\n"@,
    }
}

/// A code block after its indent: the literal verbatim between the tags.
/// A non-empty info string names the language in a class: as a
/// `language-` class in the compact profile, as the class itself in the page
/// profile.
pub open spec fn code_block_text(p: Profile, info: Seq<char>, literal: Seq<char>) -> Seq<char> {
    if info.len() == 0 {
        "<pre><code>"@ + literal + "</code></pre>\n"@
    } else {
        match p {
            Profile::Minimal => "<pre><code class=\"language-"@ + info + "\">"@ + literal
                + "</code></pre>\n"@,
            Profile::Shelled => "<pre><code class=\""@ + info + "\">"@ + literal + "</code></pre>\n"@,
        }
    }
}

/// The opening tag of a link.
pub open spec fn link_open(url: Seq<char>, title: Seq<char>) -> Seq<char> {
    if title.len() == 0 {
        "<a href=\""@ + url + "\">"@
    } else {
        "<a href=\""@ + url + "\" title=\""@ + title + "\">"@
    }
}

/// The start of an image tag, up to the open `alt` attribute that the
/// image's inline content fills.
pub open spec fn image_open(url: Seq<char>, title: Seq<char>) -> Seq<char> {
    if title.len() == 0 {
        "<img src=\""@ + url + "\" alt=\""@
    } else {
        "<img src=\""@ + url + "\" title=\""@ + title + "\" alt=\""@
    }
}

/// The text that one event adds to the output. Block tags start at the
/// current indent; a closing block tag at the indent after leaving.
pub open spec fn step_text(s: RenderView, n: NodeView, e: Event) -> Seq<char> {
    let here = indent_text(s.indent as nat);
    let back = indent_text(shallower(s.indent) as nat);
    match n {
        NodeView::Document | NodeView::CustomBlock | NodeView::CustomInline => Seq::empty(),
        NodeView::Blockquote => match e {
            Event::Enter => here + "<blockquote>\n"@,
            Event::Exit => back + "</blockquote>\n"@,
        },
        NodeView::List { kind, .. } => match (kind, e) {
            (ListType::Bullet, Event::Enter) => here + "<ul>\n"@,
            (ListType::Bullet, Event::Exit) => back + "</ul>\n"@,
            (ListType::Ordered, Event::Enter) => here + "<ol>\n"@,
            (ListType::Ordered, Event::Exit) => back + "</ol>\n"@,
        },
        NodeView::Item => match (innermost_tight(s.tight), e) {
            (true, Event::Enter) => here + "<li>\n"@,
            (true, Event::Exit) => back + "</li>\n"@,
            (false, Event::Enter) => here + "<li><p>\n"@,
            (false, Event::Exit) => back + "</p></li>\n"@,
        },
        NodeView::CodeBlock { info, literal } => here + code_block_text(s.profile, info, literal),
        NodeView::HtmlBlock { literal } => here + literal + "\n"@,
        NodeView::Paragraph => match e {
            Event::Enter => here + "<p>"@,
            Event::Exit => "</p>\n"@,
        },
        NodeView::Heading { level } => match e {
            Event::Enter => here + heading_open(level),
            Event::Exit => heading_close(level),
        },
        NodeView::ThematicBreak => here + "<hr />\n"@,
        NodeView::Text { literal } => literal,
        NodeView::SoftBreak => "\n"@,
        NodeView::LineBreak => "<br />\n"@,
        NodeView::Code { literal } => "<code>"@ + literal + "</code>"@,
        NodeView::HtmlInline { literal } => literal,
        NodeView::Emph => match e {
            Event::Enter => "<em>"@,
            Event::Exit => "</em>"@,
        },
        NodeView::Strong => match e {
            Event::Enter => "<strong>"@,
            Event::Exit => "</strong>"@,
        },
        NodeView::Link { url, title } => match e {
            Event::Enter => link_open(url, title),
            Event::Exit => "</a>"@,
        },
        NodeView::Image { url, title } => match e {
            Event::Enter => image_open(url, title),
            Event::Exit => "\" />"@,
        },
    }
}

/// The diagnostics of one event: one for entering an unsupported node.
pub open spec fn step_notes(n: NodeView, e: Event) -> Seq<Diagnostic> {
    match (n, e) {
        (NodeView::CustomBlock, Event::Enter) => seq![Diagnostic::UnsupportedBlock],
        (NodeView::CustomInline, Event::Enter) => seq![Diagnostic::UnsupportedInline],
        _ => Seq::empty(),
    }
}

/// The state after a sequence of events, and the text they add.
pub open spec fn run(s: RenderView, evs: Seq<(NodeView, Event)>) -> (RenderView, Seq<char>)
    decreases evs.len(),
{
    if evs.len() == 0 {
        (s, Seq::empty())
    } else {
        let before = run(s, evs.drop_last());
        let e = evs.last();
        (step_state(before.0, e.0, e.1), before.1 + step_text(before.0, e.0, e.1))
    }
}

/// The diagnostics of a sequence of events, in order.
pub open spec fn run_notes(evs: Seq<(NodeView, Event)>) -> Seq<Diagnostic>
    decreases evs.len(),
{
    if evs.len() == 0 {
        Seq::empty()
    } else {
        run_notes(evs.drop_last()) + step_notes(evs.last().0, evs.last().1)
    }
}

proof fn lemma_run_concat(s: RenderView, a: Seq<(NodeView, Event)>, b: Seq<(NodeView, Event)>)
    ensures
        run(s, a + b) == (run(run(s, a).0, b).0, run(s, a).1 + run(run(s, a).0, b).1),
    decreases b.len(),
{
    if b.len() == 0 {
        assert(a + b =~= a);
        assert(run(s, a).1 + Seq::<char>::empty() =~= run(s, a).1);
    } else {
        assert((a + b).drop_last() =~= a + b.drop_last());
        lemma_run_concat(s, a, b.drop_last());
        let mid = run(s, a).0;
        let before = run(mid, b.drop_last());
        assert(run(s, a).1 + before.1 + step_text(before.0, b.last().0, b.last().1) =~= run(s, a).1
            + (before.1 + step_text(before.0, b.last().0, b.last().1)));
    }
}

proof fn lemma_run_single(s: RenderView, x: (NodeView, Event))
    ensures
        run(s, seq![x]).0 == step_state(s, x.0, x.1),
{
    assert(seq![x].drop_last() =~= Seq::<(NodeView, Event)>::empty());
    assert(run(s, seq![x].drop_last()).0 == s);
    assert(seq![x].last() == x);
}

proof fn lemma_tree_restores(s: RenderView, t: Tree)
    requires
        0 <= s.indent,
        s.indent + depth(t) <= usize::MAX,
    ensures
        run(s, events_of(t)).0 == s,
    decreases t,
{
    let n = t.node@;
    let enter = (n, Event::Enter);
    let exit = (n, Event::Exit);
    lemma_run_single(s, enter);
    if !n.is_leaf() {
        let ce = children_events(t.children@);
        let s1 = step_state(s, n, Event::Enter);
        lemma_run_single(s1, exit);
        lemma_children_restore(s1, t.children@);
        lemma_run_concat(s, seq![enter], ce);
        lemma_run_concat(s, seq![enter] + ce, seq![exit]);
        assert(s.tight.push(true).drop_last() =~= s.tight);
        assert(s.tight.push(false).drop_last() =~= s.tight);
    }
}

proof fn lemma_children_restore(s: RenderView, cs: Seq<Tree>)
    requires
        0 <= s.indent,
        s.indent + children_depth(cs) <= usize::MAX,
    ensures
        run(s, children_events(cs)).0 == s,
    decreases cs,
{
    if cs.len() == 0 {
    } else {
        lemma_children_restore(s, cs.drop_last());
        lemma_tree_restores(s, cs.last());
        lemma_run_concat(s, children_events(cs.drop_last()), events_of(cs.last()));
    }
}

/// Rendering a whole tree gives the state back as it found it: each block
/// container that is entered is left again, so once the root's exit is
/// processed the indent depth is back at its value before the walk (zero
/// for a new renderer) and the list stack is what it was. The one bound is
/// that of the machine: the depth must not pass the largest `usize`.
pub proof fn lemma_state_restored(s: RenderView, t: Tree)
    requires
        0 <= s.indent,
        s.indent + depth(t) <= usize::MAX,
    ensures
        run(s, events_of(t)).0 == s,
{
    lemma_tree_restores(s, t);
}

/// A link's markup: on entering, the opening tag, with a `title` attribute
/// only where the title is not empty; on leaving, the closing tag. Neither
/// changes the renderer's state.
pub proof fn lemma_link_markup(s: RenderView, url: Seq<char>, title: Seq<char>, e: Event)
    ensures
        step_state(s, NodeView::Link { url, title }, e) == s,
        e == Event::Enter && title.len() == 0 ==> step_text(s, NodeView::Link { url, title }, e)
            == "<a href=\""@ + url + "\">"@,
        e == Event::Enter && title.len() > 0 ==> step_text(s, NodeView::Link { url, title }, e)
            == "<a href=\""@ + url + "\" title=\""@ + title + "\">"@,
        e == Event::Exit ==> step_text(s, NodeView::Link { url, title }, e) == "</a>"@,
{
}

/// How many of the open nodes are block containers.
pub open spec fn open_blocks(stack: Seq<NodeView>) -> nat
    decreases stack.len(),
{
    if stack.len() == 0 {
        0
    } else {
        open_blocks(stack.drop_last()) + if indents(stack.last()) {
            1nat
        } else {
            0nat
        }
    }
}

proof fn lemma_open_blocks_bound(stack: Seq<NodeView>)
    ensures
        open_blocks(stack) <= stack.len(),
    decreases stack.len(),
{
    if stack.len() > 0 {
        lemma_open_blocks_bound(stack.drop_last());
    }
}

proof fn lemma_nest_len(evs: Seq<(NodeView, Event)>)
    requires
        nest(Seq::empty(), evs) is Some,
    ensures
        nest(Seq::empty(), evs)->0.len() <= evs.len(),
    decreases evs.len(),
{
    if evs.len() > 0 {
        lemma_nest_len(evs.drop_last());
    }
}

proof fn lemma_indent_tracks(s: RenderView, evs: Seq<(NodeView, Event)>)
    requires
        0 <= s.indent,
        s.indent + evs.len() <= usize::MAX,
        nest(Seq::empty(), evs) is Some,
    ensures
        run(s, evs).0.indent == s.indent + open_blocks(nest(Seq::empty(), evs)->0),
    decreases evs.len(),
{
    if evs.len() > 0 {
        let pre = evs.drop_last();
        let x = evs.last();
        lemma_indent_tracks(s, pre);
        lemma_nest_len(pre);
        let st = nest(Seq::empty(), pre)->0;
        lemma_open_blocks_bound(st);
        let after = nest_step(st, x)->0;
        if !x.0.is_leaf() && x.1 == Event::Enter {
            assert(after.drop_last() =~= st);
        }
    }
}

/// The indent depth counts the open block containers: after any prefix of
/// a tree's events it is the starting depth plus the number of blockquotes,
/// lists, items, paragraphs and headings that have been entered and not yet
/// left. So the depth is back at its starting value exactly when no block
/// container is open, and in particular once the root's exit has been
/// processed. The bound is that of the machine: the events must not raise
/// the depth past the largest `usize`.
pub proof fn lemma_indent_counts_open_blocks(s: RenderView, t: Tree, k: int)
    requires
        0 <= s.indent,
        s.indent + events_of(t).len() <= usize::MAX,
        0 <= k <= events_of(t).len(),
    ensures
        nest(Seq::empty(), events_of(t).take(k)) is Some,
        run(s, events_of(t).take(k)).0.indent == s.indent + open_blocks(
            nest(Seq::empty(), events_of(t).take(k))->0,
        ),
        k == events_of(t).len() ==> run(s, events_of(t).take(k)).0.indent == s.indent,
{
    let evs = events_of(t);
    lemma_events_balanced(t);
    lemma_prefix_nests(Seq::empty(), evs, k);
    lemma_indent_tracks(s, evs.take(k));
    if k == evs.len() {
        assert(evs.take(k) =~= evs);
    }
}

/// The renderer's mutable state.
pub struct RenderState {
    profile: Profile,
    indent: usize,
    tight: Vec<bool>,
}

impl View for RenderState {
    type V = RenderView;

    closed spec fn view(&self) -> RenderView {
        RenderView { profile: self.profile, indent: self.indent as int, tight: self.tight@ }
    }
}

/// Four spaces, `n` times.
pub fn repeat_indent(n: usize) -> (r: String)
    ensures
        r@ == indent_text(n as nat),
{
    let mut r = String::new();
    let mut i: usize = 0;
    while i < n
        invariant
            i <= n,
            r@ == indent_text(i as nat),
        decreases n - i,
    {
        r.append("    ");
        i = i + 1;
    }
    r
}

impl RenderState {
    pub fn new(profile: Profile) -> (r: RenderState)
        ensures
            r@ == fresh(profile),
    {
        let r = RenderState { profile, indent: 0, tight: Vec::new() };
        assert(r@.tight =~= Seq::<bool>::empty());
        r
    }

    /// The depth at which the next block starts.
    pub fn indent(&self) -> (r: usize)
        ensures
            r as int == self@.indent,
    {
        self.indent
    }

    /// Sets the depth, as a page does for the body inside its layout.
    pub fn set_indent(&mut self, n: usize)
        ensures
            final(self)@ == (RenderView { indent: n as int, ..old(self)@ }),
    {
        self.indent = n;
    }

    fn make_indent(&self) -> (r: String)
        ensures
            r@ == indent_text(self@.indent as nat),
    {
        repeat_indent(self.indent)
    }

    fn go_deeper(&mut self)
        ensures
            final(self)@ == (RenderView { indent: deeper(old(self)@.indent), ..old(self)@ }),
    {
        if self.indent < usize::MAX {
            self.indent = self.indent + 1;
        }
    }

    fn go_shallower(&mut self)
        ensures
            final(self)@ == (RenderView { indent: shallower(old(self)@.indent), ..old(self)@ }),
    {
        if self.indent > 0 {
            self.indent = self.indent - 1;
        }
    }
    fn convert_blockquote(&mut self, event: Event, out: &mut String)
        ensures
            final(self)@ == step_state(old(self)@, NodeView::Blockquote, event),
            final(out)@ == old(out)@ + step_text(old(self)@, NodeView::Blockquote, event),
    {
        match event {
            Event::Enter => {
                out.append(self.make_indent().as_str());
                out.append("<blockquote>\n");
                self.go_deeper();
            },
            Event::Exit => {
                self.go_shallower();
                out.append(self.make_indent().as_str());
                out.append("</blockquote>\n");
            },
        }
    }

    fn convert_list(
        &mut self,
        ty: ListType,
        delim: DelimType,
        start: isize,
        tightness: bool,
        event: Event,
        out: &mut String,
    )
        ensures
            ({
                let n = NodeView::List { kind: ty, delim, start: start as int, tight: tightness };
                &&& final(self)@ == step_state(old(self)@, n, event)
                &&& final(out)@ == old(out)@ + step_text(old(self)@, n, event)
            }),
    {
        match event {
            Event::Enter => {
                self.tight.push(tightness);
                out.append(self.make_indent().as_str());
                match ty {
                    ListType::Bullet => out.append("<ul>\n"),
                    ListType::Ordered => out.append("<ol>\n"),
                }
                self.go_deeper();
            },
            Event::Exit => {
                self.tight.pop();
                assert(old(self)@.tight.len() > 0 ==> self.tight@ =~= old(self)@.tight.drop_last());
                self.go_shallower();
                out.append(self.make_indent().as_str());
                match ty {
                    ListType::Bullet => out.append("</ul>\n"),
                    ListType::Ordered => out.append("</ol>\n"),
                }
            },
        }
    }

    fn is_tight(&self) -> (r: bool)
        ensures
            r == innermost_tight(self@.tight),
    {
        let n = self.tight.len();
        n > 0 && self.tight[n - 1]
    }

    fn convert_item(&mut self, event: Event, out: &mut String)
        ensures
            final(self)@ == step_state(old(self)@, NodeView::Item, event),
            final(out)@ == old(out)@ + step_text(old(self)@, NodeView::Item, event),
    {
        let tight = self.is_tight();
        match event {
            Event::Enter => {
                out.append(self.make_indent().as_str());
                if tight {
                    out.append("<li>\n");
                } else {
                    out.append("<li><p>\n");
                }
                self.go_deeper();
            },
            Event::Exit => {
                self.go_shallower();
                out.append(self.make_indent().as_str());
                if tight {
                    out.append("</li>\n");
                } else {
                    out.append("</p></li>\n");
                }
            },
        }
    }

    fn convert_code_block(&self, info: &String, lit: &String, out: &mut String)
        ensures
            final(out)@ == old(out)@ + step_text(
                self@,
                NodeView::CodeBlock { info: info@, literal: lit@ },
                Event::Enter,
            ),
    {
        out.append(self.make_indent().as_str());
        if info.as_str().is_empty() {
            out.append("<pre><code>");
        } else {
            match self.profile {
                Profile::Minimal => out.append("<pre><code class=\"language-"),
                Profile::Shelled => out.append("<pre><code class=\""),
            }
            out.append(info.as_str());
            out.append("\">");
        }
        out.append(lit.as_str());
        out.append("</code></pre>\n");
    }

    fn convert_html_block(&self, lit: &String, out: &mut String)
        ensures
            final(out)@ == old(out)@ + step_text(
                self@,
                NodeView::HtmlBlock { literal: lit@ },
                Event::Enter,
            ),
    {
        out.append(self.make_indent().as_str());
        out.append(lit.as_str());
        out.append("\n");
    }

    fn convert_paragraph(&mut self, event: Event, out: &mut String)
        ensures
            final(self)@ == step_state(old(self)@, NodeView::Paragraph, event),
            final(out)@ == old(out)@ + step_text(old(self)@, NodeView::Paragraph, event),
    {
        match event {
            Event::Enter => {
                out.append(self.make_indent().as_str());
                out.append("<p>");
                self.go_deeper();
            },
            Event::Exit => {
                self.go_shallower();
                out.append("</p>\n");
            },
        }
    }

    fn convert_heading(&mut self, lvl: HeadingLevel, event: Event, out: &mut String)
        ensures
            final(self)@ == step_state(old(self)@, NodeView::Heading { level: lvl }, event),
            final(out)@ == old(out)@ + step_text(old(self)@, NodeView::Heading { level: lvl }, event),
    {
        match event {
            Event::Enter => {
                out.append(self.make_indent().as_str());
                match lvl {
                    HeadingLevel::One => out.append("<h1>"),
                    HeadingLevel::Two => out.append("<h2>"),
                    HeadingLevel::Three => out.append("<h3>"),
                    HeadingLevel::Four => out.append("<h4>"),
                    HeadingLevel::Five => out.append("<h5>"),
                    HeadingLevel::Six => out.append("<h6>"),
                }
                self.go_deeper();
            },
            Event::Exit => {
                self.go_shallower();
                match lvl {
                    HeadingLevel::One => out.append("</h1>\n"),
                    HeadingLevel::Two => out.append("</h2>\n"),
                    HeadingLevel::Three => out.append("</h3>\n"),
                    HeadingLevel::Four => out.append("</h4>\n"),
                    HeadingLevel::Five => out.append("</h5>\n"),
                    HeadingLevel::Six => out.append("</h6>\n"),
                }
            },
        }
    }

    fn convert_thematic_break(&self, out: &mut String)
        ensures
            final(out)@ == old(out)@ + step_text(self@, NodeView::ThematicBreak, Event::Enter),
    {
        out.append(self.make_indent().as_str());
        out.append("<hr />\n");
    }

    fn convert_text(&self, lit: &String, out: &mut String)
        ensures
            final(out)@ == old(out)@ + lit@,
    {
        out.append(lit.as_str());
    }

    fn convert_soft_break(&self, out: &mut String)
        ensures
            final(out)@ == old(out)@ + "\n"@,
    {
        out.append("\n");
    }

    fn convert_line_break(&self, out: &mut String)
        ensures
            final(out)@ == old(out)@ + "<br />\n"@,
    {
        out.append("<br />\n");
    }

    fn convert_code(&self, lit: &String, out: &mut String)
        ensures
            final(out)@ == old(out)@ + "<code>"@ + lit@ + "</code>"@,
    {
        out.append("<code>");
        out.append(lit.as_str());
        out.append("</code>");
    }

    fn convert_html_inline(&self, lit: &String, out: &mut String)
        ensures
            final(out)@ == old(out)@ + lit@,
    {
        out.append(lit.as_str());
    }

    fn convert_emph(&self, event: Event, out: &mut String)
        ensures
            final(out)@ == old(out)@ + step_text(self@, NodeView::Emph, event),
    {
        match event {
            Event::Enter => out.append("<em>"),
            Event::Exit => out.append("</em>"),
        }
    }

    fn convert_strong(&self, event: Event, out: &mut String)
        ensures
            final(out)@ == old(out)@ + step_text(self@, NodeView::Strong, event),
    {
        match event {
            Event::Enter => out.append("<strong>"),
            Event::Exit => out.append("</strong>"),
        }
    }

    fn convert_link(&self, url: &String, title: &String, event: Event, out: &mut String)
        ensures
            final(out)@ == old(out)@ + step_text(
                self@,
                NodeView::Link { url: url@, title: title@ },
                event,
            ),
    {
        match event {
            Event::Enter => {
                out.append("<a href=\"");
                out.append(url.as_str());
                if title.as_str().is_empty() {
                    out.append("\">");
                } else {
                    out.append("\" title=\"");
                    out.append(title.as_str());
                    out.append("\">");
                }
            },
            Event::Exit => out.append("</a>"),
        }
    }

    fn convert_image(&self, url: &String, title: &String, event: Event, out: &mut String)
        ensures
            final(out)@ == old(out)@ + step_text(
                self@,
                NodeView::Image { url: url@, title: title@ },
                event,
            ),
    {
        match event {
            Event::Enter => {
                out.append("<img src=\"");
                out.append(url.as_str());
                if title.as_str().is_empty() {
                    out.append("\" alt=\"");
                } else {
                    out.append("\" title=\"");
                    out.append(title.as_str());
                    out.append("\" alt=\"");
                }
            },
            Event::Exit => out.append("\" />"),
        }
    }
    /// Renders one event: appends its text to `out` and its diagnostics to
    /// `notes`.
    pub fn convert_event(
        &mut self,
        node: &Node,
        event: Event,
        out: &mut String,
        notes: &mut Vec<Diagnostic>,
    )
        ensures
            final(self)@ == step_state(old(self)@, node@, event),
            final(out)@ == old(out)@ + step_text(old(self)@, node@, event),
            final(notes)@ == old(notes)@ + step_notes(node@, event),
    {
        match node {
            Node::Block(b) => match b {
                Block::Document => {},
                Block::Blockquote => self.convert_blockquote(event, out),
                Block::List(ty, delim, start, tightness) => self.convert_list(
                    *ty,
                    *delim,
                    *start,
                    *tightness,
                    event,
                    out,
                ),
                Block::Item => self.convert_item(event, out),
                Block::CodeBlock(info, lit) => self.convert_code_block(info, lit, out),
                Block::HtmlBlock(lit) => self.convert_html_block(lit, out),
                Block::CustomBlock => {
                    if event == Event::Enter {
                        notes.push(Diagnostic::UnsupportedBlock);
                    }
                },
                Block::Paragraph => self.convert_paragraph(event, out),
                Block::Heading(lvl) => self.convert_heading(*lvl, event, out),
                Block::ThematicBreak => self.convert_thematic_break(out),
            },
            Node::Inline(i) => match i {
                Inline::Text(lit) => self.convert_text(lit, out),
                Inline::SoftBreak => self.convert_soft_break(out),
                Inline::LineBreak => self.convert_line_break(out),
                Inline::Code(lit) => self.convert_code(lit, out),
                Inline::HtmlInline(lit) => self.convert_html_inline(lit, out),
                Inline::CustomInline => {
                    if event == Event::Enter {
                        notes.push(Diagnostic::UnsupportedInline);
                    }
                },
                Inline::Emph => self.convert_emph(event, out),
                Inline::Strong => self.convert_strong(event, out),
                Inline::Link(url, title) => self.convert_link(url, title, event, out),
                Inline::Image(url, title) => self.convert_image(url, title, event, out),
            },
        }
        assert(final(out)@ =~= old(out)@ + step_text(old(self)@, node@, event));
        assert(final(notes)@ =~= old(notes)@ + step_notes(node@, event));
    }

    /// Renders every event that `iter` still holds, in order.
    pub fn convert_all(&mut self, iter: &mut Iter, out: &mut String, notes: &mut Vec<Diagnostic>)
        requires
            old(iter).wf(),
        ensures
            final(iter).wf(),
            final(iter).remaining().len() == 0,
            final(self)@ == run(old(self)@, old(iter).remaining()).0,
            final(out)@ == old(out)@ + run(old(self)@, old(iter).remaining()).1,
            final(notes)@ == old(notes)@ + run_notes(old(iter).remaining()),
    {
        let ghost evs = iter.remaining();
        let ghost s0 = self@;
        let ghost out0 = out@;
        let ghost notes0 = notes@;
        let ghost mut k: int = 0;
        assert(evs.take(0) =~= Seq::<(NodeView, Event)>::empty());
        assert(evs.skip(0) =~= evs);
        loop
            invariant
                iter.wf(),
                0 <= k <= evs.len(),
                iter.remaining() == evs.skip(k),
                self@ == run(s0, evs.take(k)).0,
                out@ == out0 + run(s0, evs.take(k)).1,
                notes@ == notes0 + run_notes(evs.take(k)),
            ensures
                iter.wf(),
                iter.remaining().len() == 0,
                k == evs.len(),
                self@ == run(s0, evs.take(k)).0,
                out@ == out0 + run(s0, evs.take(k)).1,
                notes@ == notes0 + run_notes(evs.take(k)),
            decreases iter.remaining().len(),
        {
            match iter.next() {
                None => {
                    break;
                },
                Some(e) => {
                    let (node, event) = e;
                    proof {
                        assert(evs.take(k + 1).drop_last() =~= evs.take(k));
                        assert(evs.skip(k)[0] == evs[k]);
                        assert(evs.skip(k).drop_first() =~= evs.skip(k + 1));
                    }
                    self.convert_event(&node, event, out, notes);
                    proof {
                        k = k + 1;
                    }
                    assert(out@ =~= out0 + run(s0, evs.take(k)).1);
                    assert(notes@ =~= notes0 + run_notes(evs.take(k)));
                },
            }
        }
        assert(evs.take(k) =~= evs);
    }
} // impl RenderState

/// Renders `doc` as a bare body, starting from `state`.
pub fn render_body(state: &mut RenderState, doc: &Tree) -> (r: Rendering)
    ensures
        r.html@ == run(old(state)@, stream_of(*doc)).1,
        r.diagnostics@ == run_notes(stream_of(*doc)),
        final(state)@ == run(old(state)@, stream_of(*doc)).0,
{
    let mut out = String::new();
    let mut iter = Iter::from_tree(doc);
    let mut notes: Vec<Diagnostic> = Vec::new();
    state.convert_all(&mut iter, &mut out, &mut notes);
    assert(out@ =~= run(old(state)@, stream_of(*doc)).1);
    assert(notes@ =~= run_notes(stream_of(*doc)));
    Rendering { html: out, diagnostics: notes }
}

} // verus!
