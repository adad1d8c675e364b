//! The document model: node kinds, the tree that a parser hands over, and the
//! stream of enter/exit events that walks it.

use vstd::prelude::*;
use vstd::string::StringSliceAdditionalSpecFns;

verus! {

#[derive(Debug, Clone, Copy, PartialEq, Eq, Hash, Structural)]
pub enum HeadingLevel {
    One,
    Two,
    Three,
    Four,
    Five,
    Six,
}

#[derive(Debug, Clone, Copy, PartialEq, Eq, Hash, Structural)]
pub enum ListType {
    Bullet,
    Ordered,
}

/// Delimiter after the number of an ordered list item; `No` for bullets.
#[derive(Debug, Clone, Copy, PartialEq, Eq, Hash, Structural)]
pub enum DelimType {
    No,
    Period,
    Paren,
}

/// Whether a structural node's subtree is about to start or has ended.
#[derive(Debug, Clone, Copy, PartialEq, Eq, Hash, Structural)]
pub enum Event {
    Enter,
    Exit,
}

/// Block nodes. `List` carries its type, delimiter, start number and
/// whether it is tight; `CodeBlock` its info string and literal.
#[derive(Debug, Clone, PartialEq, Eq, Hash)]
pub enum Block {
    Document,
    Blockquote,
    List(ListType, DelimType, isize, bool),
    Item,
    CodeBlock(String, String),
    HtmlBlock(String),
    CustomBlock,
    Paragraph,
    Heading(HeadingLevel),
    ThematicBreak,
}

/// Inline nodes. `Link` and `Image` carry a url and a title.
#[derive(Debug, Clone, PartialEq, Eq, Hash)]
pub enum Inline {
    Text(String),
    SoftBreak,
    LineBreak,
    Code(String),
    HtmlInline(String),
    CustomInline,
    Emph,
    Strong,
    Link(String, String),
    Image(String, String),
}

#[derive(Debug, Clone, PartialEq, Eq, Hash)]
pub enum Node {
    Block(Block),
    Inline(Inline),
}

/// A node as a mathematical value: its kind and its text payloads.
pub enum NodeView {
    Document,
    Blockquote,
    List { kind: ListType, delim: DelimType, start: int, tight: bool },
    Item,
    CodeBlock { info: Seq<char>, literal: Seq<char> },
    HtmlBlock { literal: Seq<char> },
    CustomBlock,
    Paragraph,
    Heading { level: HeadingLevel },
    ThematicBreak,
    Text { literal: Seq<char> },
    SoftBreak,
    LineBreak,
    Code { literal: Seq<char> },
    HtmlInline { literal: Seq<char> },
    CustomInline,
    Emph,
    Strong,
    Link { url: Seq<char>, title: Seq<char> },
    Image { url: Seq<char>, title: Seq<char> },
}

impl NodeView {
    /// Leaves have no children and occur once in the event stream.
    pub open spec fn is_leaf(self) -> bool {
        match self {
            NodeView::CodeBlock { .. } | NodeView::HtmlBlock { .. } | NodeView::ThematicBreak
            | NodeView::Text { .. } | NodeView::SoftBreak | NodeView::LineBreak
            | NodeView::Code { .. } | NodeView::HtmlInline { .. } => true,
            _ => false,
        }
    }
}

impl View for Node {
    type V = NodeView;

    open spec fn view(&self) -> NodeView {
        match self {
            Node::Block(b) => match b {
                Block::Document => NodeView::Document,
                Block::Blockquote => NodeView::Blockquote,
                Block::List(kind, delim, start, tight) => NodeView::List {
                    kind: *kind,
                    delim: *delim,
                    start: *start as int,
                    tight: *tight,
                },
                Block::Item => NodeView::Item,
                Block::CodeBlock(info, literal) => NodeView::CodeBlock {
                    info: info@,
                    literal: literal@,
                },
                Block::HtmlBlock(literal) => NodeView::HtmlBlock { literal: literal@ },
                Block::CustomBlock => NodeView::CustomBlock,
                Block::Paragraph => NodeView::Paragraph,
                Block::Heading(level) => NodeView::Heading { level: *level },
                Block::ThematicBreak => NodeView::ThematicBreak,
            },
            Node::Inline(i) => match i {
                Inline::Text(literal) => NodeView::Text { literal: literal@ },
                Inline::SoftBreak => NodeView::SoftBreak,
                Inline::LineBreak => NodeView::LineBreak,
                Inline::Code(literal) => NodeView::Code { literal: literal@ },
                Inline::HtmlInline(literal) => NodeView::HtmlInline { literal: literal@ },
                Inline::CustomInline => NodeView::CustomInline,
                Inline::Emph => NodeView::Emph,
                Inline::Strong => NodeView::Strong,
                Inline::Link(url, title) => NodeView::Link { url: url@, title: title@ },
                Inline::Image(url, title) => NodeView::Image { url: url@, title: title@ },
            },
        }
    }
}

impl Node {
    pub fn is_leaf(&self) -> (r: bool)
        ensures
            r == self@.is_leaf(),
    {
        match self {
            Node::Block(b) => match b {
                Block::CodeBlock(..) | Block::HtmlBlock(_) | Block::ThematicBreak => true,
                _ => false,
            },
            Node::Inline(i) => match i {
                Inline::Text(_) | Inline::SoftBreak | Inline::LineBreak | Inline::Code(_)
                | Inline::HtmlInline(_) => true,
                _ => false,
            },
        }
    }

    /// A copy of the node, payloads included.
    pub fn duplicate(&self) -> (r: Node)
        ensures
            r@ == self@,
    {
        match self {
            Node::Block(b) => Node::Block(
                match b {
                    Block::Document => Block::Document,
                    Block::Blockquote => Block::Blockquote,
                    Block::List(kind, delim, start, tight) => Block::List(
                        *kind,
                        *delim,
                        *start,
                        *tight,
                    ),
                    Block::Item => Block::Item,
                    Block::CodeBlock(info, literal) => Block::CodeBlock(
                        info.clone(),
                        literal.clone(),
                    ),
                    Block::HtmlBlock(literal) => Block::HtmlBlock(literal.clone()),
                    Block::CustomBlock => Block::CustomBlock,
                    Block::Paragraph => Block::Paragraph,
                    Block::Heading(level) => Block::Heading(*level),
                    Block::ThematicBreak => Block::ThematicBreak,
                },
            ),
            Node::Inline(i) => Node::Inline(
                match i {
                    Inline::Text(literal) => Inline::Text(literal.clone()),
                    Inline::SoftBreak => Inline::SoftBreak,
                    Inline::LineBreak => Inline::LineBreak,
                    Inline::Code(literal) => Inline::Code(literal.clone()),
                    Inline::HtmlInline(literal) => Inline::HtmlInline(literal.clone()),
                    Inline::CustomInline => Inline::CustomInline,
                    Inline::Emph => Inline::Emph,
                    Inline::Strong => Inline::Strong,
                    Inline::Link(url, title) => Inline::Link(url.clone(), title.clone()),
                    Inline::Image(url, title) => Inline::Image(url.clone(), title.clone()),
                },
            ),
        }
    }
}

/// A parsed document: a node and its children, in document order.
/// Children of a leaf node are not part of the document and are never
/// walked. The items of a tight list hold their inline content directly,
/// with no `Paragraph` around it: the list's tightness decides the item's
/// own markup, and a paragraph node is always rendered as a paragraph.
pub struct Tree {
    pub node: Node,
    pub children: Vec<Tree>,
}

impl Tree {
    pub fn new(node: Node, children: Vec<Tree>) -> (r: Tree)
        ensures
            r.node@ == node@,
            r.children@ == children@,
    {
        Tree { node, children }
    }

    pub fn leaf(node: Node) -> (r: Tree)
        ensures
            r.node@ == node@,
            r.children@.len() == 0,
    {
        Tree { node, children: Vec::new() }
    }
}

/// The event stream of a tree, by a depth-first walk: a leaf once, as an
/// `Enter`; any other node as an `Enter`, the events of its children in
/// order, then an `Exit`.
pub open spec fn events_of(t: Tree) -> Seq<(NodeView, Event)>
    decreases t,
{
    if t.node@.is_leaf() {
        seq![(t.node@, Event::Enter)]
    } else {
        seq![(t.node@, Event::Enter)] + children_events(t.children@) + seq![
            (t.node@, Event::Exit),
        ]
    }
}

/// The events of a sequence of sibling trees, one after the other.
pub open spec fn children_events(cs: Seq<Tree>) -> Seq<(NodeView, Event)>
    decreases cs,
{
    if cs.len() == 0 {
        Seq::empty()
    } else {
        children_events(cs.drop_last()) + events_of(cs.last())
    }
}

/// Whether an event exits a Document node, which ends the stream.
pub open spec fn is_root_exit(e: (NodeView, Event)) -> bool {
    e == (NodeView::Document, Event::Exit)
}

/// The events up to and including the first exit of a Document node.
pub open spec fn upto_root_exit(evs: Seq<(NodeView, Event)>) -> Seq<(NodeView, Event)>
    decreases evs.len(),
{
    if evs.len() == 0 {
        Seq::empty()
    } else if is_root_exit(evs[0]) {
        seq![evs[0]]
    } else {
        seq![evs[0]] + upto_root_exit(evs.drop_first())
    }
}

/// The event stream of a tree: its walk, ended by the first exit of a
/// Document node. For a well-formed document, whose one Document node is
/// the root, that is the whole walk (`lemma_stream_is_walk`).
pub open spec fn stream_of(t: Tree) -> Seq<(NodeView, Event)> {
    upto_root_exit(events_of(t))
}

/// Whether a Document node occurs in the tree.
pub open spec fn has_document(t: Tree) -> bool
    decreases t,
{
    t.node@ == NodeView::Document || children_have_document(t.children@)
}

pub open spec fn children_have_document(cs: Seq<Tree>) -> bool
    decreases cs,
{
    cs.len() > 0 && (children_have_document(cs.drop_last()) || has_document(cs.last()))
}

/// A Document node may stand only at the root.
pub open spec fn document_only_at_root(t: Tree) -> bool {
    !children_have_document(t.children@)
}

proof fn lemma_no_document_events(t: Tree)
    requires
        !has_document(t),
    ensures
        forall|i: int| 0 <= i < events_of(t).len() ==> events_of(t)[i].0 != NodeView::Document,
    decreases t,
{
    if !t.node@.is_leaf() {
        lemma_no_document_children(t.children@);
    }
}

proof fn lemma_no_document_children(cs: Seq<Tree>)
    requires
        !children_have_document(cs),
    ensures
        forall|i: int|
            0 <= i < children_events(cs).len() ==> children_events(cs)[i].0 != NodeView::Document,
    decreases cs,
{
    if cs.len() > 0 {
        lemma_no_document_children(cs.drop_last());
        lemma_no_document_events(cs.last());
    }
}

proof fn lemma_upto_concat(a: Seq<(NodeView, Event)>, b: Seq<(NodeView, Event)>)
    requires
        forall|i: int| 0 <= i < a.len() ==> !is_root_exit(a[i]),
    ensures
        upto_root_exit(a + b) == a + upto_root_exit(b),
    decreases a.len(),
{
    if a.len() == 0 {
        assert(a + b =~= b);
        assert(a + upto_root_exit(b) =~= upto_root_exit(b));
    } else {
        assert((a + b)[0] == a[0]);
        assert((a + b).drop_first() =~= a.drop_first() + b);
        lemma_upto_concat(a.drop_first(), b);
        assert(seq![a[0]] + (a.drop_first() + upto_root_exit(b)) =~= a + upto_root_exit(b));
    }
}

/// The stream of a document whose only Document node is its root is its
/// whole walk: the stream ends with the root's exit, not before.
pub proof fn lemma_stream_is_walk(t: Tree)
    requires
        document_only_at_root(t),
    ensures
        stream_of(t) == events_of(t),
{
    let enter = (t.node@, Event::Enter);
    let exit = (t.node@, Event::Exit);
    let one = seq![exit];
    assert(one.drop_first() =~= Seq::<(NodeView, Event)>::empty());
    assert(one[0] == exit);
    assert(upto_root_exit(one.drop_first()) == Seq::<(NodeView, Event)>::empty());
    assert(upto_root_exit(one) =~= one);
    if t.node@.is_leaf() {
        lemma_upto_concat(seq![enter], Seq::empty());
        assert(seq![enter] + Seq::<(NodeView, Event)>::empty() =~= seq![enter]);
    } else {
        let ce = children_events(t.children@);
        lemma_no_document_children(t.children@);
        let a = seq![enter] + ce;
        assert forall|i: int| 0 <= i < a.len() implies !is_root_exit(a[i]) by {
            if i > 0 {
                assert(a[i] == ce[i - 1]);
            }
        }
        lemma_upto_concat(a, one);
    }
}

/// How deeply the tree nests: one for a leaf (whose children are never
/// walked), one more than its deepest child for any other node.
pub open spec fn depth(t: Tree) -> nat
    decreases t,
{
    if t.node@.is_leaf() {
        1
    } else {
        1 + children_depth(t.children@)
    }
}

/// The largest depth among sibling trees; zero if there are none.
pub open spec fn children_depth(cs: Seq<Tree>) -> nat
    decreases cs,
{
    if cs.len() == 0 {
        0
    } else {
        let a = children_depth(cs.drop_last());
        let b = depth(cs.last());
        if a >= b {
            a
        } else {
            b
        }
    }
}

/// The events of a sequence of owned pairs, as values.
pub open spec fn view_events(s: Seq<(Node, Event)>) -> Seq<(NodeView, Event)> {
    s.map_values(|e: (Node, Event)| (e.0@, e.1))
}

proof fn lemma_view_events_push(s: Seq<(Node, Event)>, e: (Node, Event))
    ensures
        view_events(s.push(e)) == view_events(s).push((e.0@, e.1)),
{
    assert(view_events(s.push(e)) =~= view_events(s).push((e.0@, e.1)));
}

proof fn lemma_children_events_step(cs: Seq<Tree>, i: int)
    requires
        0 <= i < cs.len(),
    ensures
        children_events(cs.take(i + 1)) == children_events(cs.take(i)) + events_of(cs[i]),
{
    assert(cs.take(i + 1).drop_last() =~= cs.take(i));
}

/// Appends the events of `t` to `out`.
fn push_events(t: &Tree, out: &mut Vec<(Node, Event)>)
    ensures
        view_events(final(out)@) == view_events(old(out)@) + events_of(*t),
    decreases t,
{
    let ghost start = view_events(out@);
    let enter = (t.node.duplicate(), Event::Enter);
    proof {
        lemma_view_events_push(out@, enter);
    }
    out.push(enter);
    if t.node.is_leaf() {
        assert(view_events(out@) =~= start + events_of(*t));
        return;
    }
    let mut i: usize = 0;
    assert(t.children@.take(0) =~= Seq::<Tree>::empty());
    while i < t.children.len()
        invariant
            i <= t.children@.len(),
            !t.node@.is_leaf(),
            view_events(out@) == start + seq![(t.node@, Event::Enter)] + children_events(
                t.children@.take(i as int),
            ),
        decreases t.children@.len() - i,
    {
        proof {
            lemma_children_events_step(t.children@, i as int);
        }
        push_events(&t.children[i], out);
        i = i + 1;
        assert(view_events(out@) =~= start + seq![(t.node@, Event::Enter)] + children_events(
            t.children@.take(i as int),
        ));
    }
    assert(t.children@.take(i as int) =~= t.children@);
    let exit = (t.node.duplicate(), Event::Exit);
    proof {
        lemma_view_events_push(out@, exit);
    }
    out.push(exit);
    assert(view_events(out@) =~= start + events_of(*t));
}

/// The event stream of a document. It yields the events of `stream_of` in
/// order: the walk, up to the exit of the Document node. Once they are all
/// out, every further call returns `None`.
pub struct Iter {
    events: Vec<(Node, Event)>,
    pos: usize,
}

impl Iter {
    /// The events not yet handed out.
    pub closed spec fn remaining(&self) -> Seq<(NodeView, Event)> {
        upto_root_exit(view_events(self.events@).skip(self.pos as int))
    }

    pub closed spec fn wf(&self) -> bool {
        self.pos <= self.events@.len()
    }

    /// Walks `tree`; the walk is then handed out one event at a time.
    pub fn from_tree(tree: &Tree) -> (r: Iter)
        ensures
            r.wf(),
            r.remaining() == stream_of(*tree),
    {
        let mut events: Vec<(Node, Event)> = Vec::new();
        assert(view_events(events@) =~= Seq::empty());
        push_events(tree, &mut events);
        let r = Iter { events, pos: 0 };
        assert(view_events(r.events@).skip(0) =~= events_of(*tree));
        r
    }

    pub fn next(&mut self) -> (r: Option<(Node, Event)>)
        requires
            old(self).wf(),
        ensures
            final(self).wf(),
            old(self).remaining().len() == 0 ==> r is None && final(self).remaining().len() == 0,
            old(self).remaining().len() > 0 ==> {
                &&& r matches Some(e)
                &&& (e.0@, e.1) == old(self).remaining()[0]
                &&& final(self).remaining() == old(self).remaining().drop_first()
            },
    {
        let ghost rest = view_events(self.events@).skip(self.pos as int);
        if self.pos >= self.events.len() {
            assert(rest.len() == 0);
            return None;
        }
        let e = &self.events[self.pos];
        let r = (e.0.duplicate(), e.1);
        assert(rest[0] == (e.0@, e.1));
        let root_exit = match &e.0 {
            Node::Block(Block::Document) => e.1 == Event::Exit,
            _ => false,
        };
        if root_exit {
            self.pos = self.events.len();
            assert(view_events(self.events@).skip(self.pos as int) =~= Seq::empty());
            assert(seq![rest[0]].drop_first() =~= Seq::<(NodeView, Event)>::empty());
        } else {
            self.pos = self.pos + 1;
            assert(rest.drop_first() =~= view_events(self.events@).skip(self.pos as int));
        }
        assert(self.remaining() =~= old(self).remaining().drop_first());
        Some(r)
    }
}

/// Settings handed to the parser.
#[derive(Debug, Clone, Copy, PartialEq, Eq, Hash, Structural)]
pub struct Options {
    /// Annotate elements with their source position.
    pub source_pos: bool,
    /// Render soft breaks as hard breaks.
    pub hard_breaks: bool,
    /// Drop raw HTML and dangerous links.
    pub safe: bool,
    /// Render soft breaks as spaces.
    pub no_breaks: bool,
    pub normalize: bool,
    pub validate_utf8: bool,
    /// Smart punctuation: curly quotes, dashes and ellipses.
    pub smart: bool,
}

impl Options {
    /// No option set.
    pub fn new() -> (r: Options)
        ensures
            r == (Options {
                source_pos: false,
                hard_breaks: false,
                safe: false,
                no_breaks: false,
                normalize: false,
                validate_utf8: false,
                smart: false,
            }),
    {
        Options {
            source_pos: false,
            hard_breaks: false,
            safe: false,
            no_breaks: false,
            normalize: false,
            validate_utf8: false,
            smart: false,
        }
    }
}

/// Why the parser refused input.
#[derive(Debug, Clone, Copy, PartialEq, Eq, Hash, Structural)]
pub enum ParserErr {
    /// The text holds a NUL byte, at this byte offset.
    Nul(usize),
}

/// Index of the first zero byte of `b`, or -1 where there is none.
pub open spec fn first_nul(b: Seq<u8>) -> int
    decreases b.len(),
{
    if b.len() == 0 {
        -1
    } else if b[0] == 0 {
        0
    } else if first_nul(b.drop_first()) < 0 {
        -1
    } else {
        first_nul(b.drop_first()) + 1
    }
}

proof fn lemma_first_nul(b: Seq<u8>)
    ensures
        -1 <= first_nul(b) < b.len(),
        first_nul(b) >= 0 ==> b[first_nul(b)] == 0,
        forall|i: int| 0 <= i < b.len() && (first_nul(b) < 0 || i < first_nul(b)) ==> b[i] != 0,
    decreases b.len(),
{
    if b.len() > 0 && b[0] != 0 {
        lemma_first_nul(b.drop_first());
        assert forall|i: int| 0 <= i < b.len() && (first_nul(b) < 0 || i < first_nul(b)) implies b[i]
            != 0 by {
            if i > 0 {
                assert(b[i] == b.drop_first()[i - 1]);
            }
        }
    }
}

/// Gathers the text of a document for the parser, refusing text that a C
/// string cannot hold.
pub struct Parser {
    options: Options,
    input: Vec<u8>,
}

impl Parser {
    pub closed spec fn spec_options(&self) -> Options {
        self.options
    }

    /// The bytes fed so far.
    pub closed spec fn spec_input(&self) -> Seq<u8> {
        self.input@
    }

    pub fn new(options: Options) -> (r: Parser)
        ensures
            r.spec_options() == options,
            r.spec_input() == Seq::<u8>::empty(),
    {
        Parser { options, input: Vec::new() }
    }

    /// Feeds the first `len` bytes of `buffer`. A buffer that holds a NUL
    /// byte anywhere is refused whole, with the offset of its first NUL.
    pub fn feed(&mut self, buffer: &str, len: usize) -> (r: Result<(), ParserErr>)
        requires
            len <= buffer.spec_bytes().len(),
        ensures
            final(self).spec_options() == old(self).spec_options(),
            first_nul(buffer.spec_bytes()) >= 0 ==> {
                &&& r == Err::<(), ParserErr>(ParserErr::Nul(first_nul(buffer.spec_bytes()) as usize))
                &&& final(self).spec_input() == old(self).spec_input()
            },
            first_nul(buffer.spec_bytes()) < 0 ==> {
                &&& r is Ok
                &&& final(self).spec_input() == old(self).spec_input() + buffer.spec_bytes().take(
                    len as int,
                )
            },
    {
        let bytes = buffer.as_bytes();
        proof {
            lemma_first_nul(bytes@);
        }
        let n = bytes.len();
        let mut i: usize = 0;
        while i < n
            invariant
                i <= n == bytes@.len(),
                bytes@ == buffer.spec_bytes(),
                forall|j: int| 0 <= j < i ==> bytes@[j] != 0,
            decreases n - i,
        {
            if bytes[i] == 0 {
                proof {
                    lemma_first_nul(bytes@);
                }
                assert(first_nul(bytes@) == i as int);
                return Err(ParserErr::Nul(i));
            }
            i = i + 1;
        }
        let ghost before = self.input@;
        let mut k: usize = 0;
        while k < len
            invariant
                k <= len <= bytes@.len(),
                bytes@ == buffer.spec_bytes(),
                self.options == old(self).options,
                self.input@ == before + bytes@.take(k as int),
            decreases len - k,
        {
            self.input.push(bytes[k]);
            k = k + 1;
            assert(self.input@ =~= before + bytes@.take(k as int));
        }
        Ok(())
    }

    pub fn options(&self) -> (r: Options)
        ensures
            r == self.spec_options(),
    {
        self.options
    }

    /// Ends the input and hands over the bytes fed, for parsing.
    pub fn finish(self) -> (r: Vec<u8>)
        ensures
            r@ == self.spec_input(),
    {
        self.input
    }
}

} // verus!
