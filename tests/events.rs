use writer2::cmark::{Block, Event, Inline, Iter, Node, Options, Parser, ParserErr, Tree};

fn sample() -> Tree {
    Tree::new(
        Node::Block(Block::Document),
        vec![
            Tree::new(
                Node::Block(Block::Paragraph),
                vec![
                    Tree::leaf(Node::Inline(Inline::Text("a".to_string()))),
                    Tree::new(
                        Node::Inline(Inline::Emph),
                        vec![Tree::leaf(Node::Inline(Inline::Text("b".to_string())))],
                    ),
                ],
            ),
            Tree::leaf(Node::Block(Block::ThematicBreak)),
        ],
    )
}

fn drain(it: &mut Iter) -> Vec<(Node, Event)> {
    let mut v = Vec::new();
    while let Some(e) = it.next() {
        v.push(e);
    }
    v
}

#[test]
fn walk_order_and_leaves_once() {
    let mut it = Iter::from_tree(&sample());
    let evs = drain(&mut it);
    let expected = vec![
        (Node::Block(Block::Document), Event::Enter),
        (Node::Block(Block::Paragraph), Event::Enter),
        (Node::Inline(Inline::Text("a".to_string())), Event::Enter),
        (Node::Inline(Inline::Emph), Event::Enter),
        (Node::Inline(Inline::Text("b".to_string())), Event::Enter),
        (Node::Inline(Inline::Emph), Event::Exit),
        (Node::Block(Block::Paragraph), Event::Exit),
        (Node::Block(Block::ThematicBreak), Event::Enter),
        (Node::Block(Block::Document), Event::Exit),
    ];
    assert_eq!(evs, expected);
}

#[test]
fn exhausted_stream_keeps_returning_none() {
    let mut it = Iter::from_tree(&sample());
    drain(&mut it);
    assert!(it.next().is_none());
    assert!(it.next().is_none());
}

#[test]
fn events_nest_like_a_stack() {
    let mut it = Iter::from_tree(&sample());
    let evs = drain(&mut it);
    let mut stack: Vec<Node> = Vec::new();
    for (node, event) in &evs {
        if node.is_leaf() {
            assert_eq!(*event, Event::Enter);
            continue;
        }
        match event {
            Event::Enter => stack.push(node.clone()),
            Event::Exit => assert_eq!(stack.pop().as_ref(), Some(node)),
        }
    }
    assert!(stack.is_empty());
    assert_eq!(evs.last().unwrap().0, Node::Block(Block::Document));
}

#[test]
fn empty_container_is_entered_and_exited() {
    let mut it = Iter::from_tree(&Tree::leaf(Node::Block(Block::Blockquote)));
    let evs = drain(&mut it);
    assert_eq!(
        evs,
        vec![(Node::Block(Block::Blockquote), Event::Enter), (Node::Block(Block::Blockquote), Event::Exit)]
    );
}

#[test]
fn parser_gathers_fed_text() {
    let mut p = Parser::new(Options::new());
    assert_eq!(p.feed("# Title\n", 8), Ok(()));
    assert_eq!(p.feed("body", 2), Ok(()));
    assert_eq!(p.options(), Options::new());
    assert_eq!(p.finish(), b"# Title\nbo".to_vec());
}

#[test]
fn parser_refuses_nul_bytes() {
    let mut p = Parser::new(Options::new());
    assert_eq!(p.feed("ok", 2), Ok(()));
    assert_eq!(p.feed("ab\0cd\0", 6), Err(ParserErr::Nul(2)));
    assert_eq!(p.finish(), b"ok".to_vec());
}

#[test]
fn parser_keeps_its_options() {
    let mut o = Options::new();
    o.smart = true;
    let p = Parser::new(o);
    assert!(p.options().smart);
    assert!(!p.options().safe);
}

#[test]
fn stream_ends_at_the_first_document_exit() {
    let inner = Tree::new(
        Node::Block(Block::Document),
        vec![Tree::leaf(Node::Inline(Inline::Text("x".to_string())))],
    );
    let t = Tree::new(
        Node::Block(Block::Document),
        vec![inner, Tree::leaf(Node::Block(Block::ThematicBreak))],
    );
    let mut it = Iter::from_tree(&t);
    let evs = drain(&mut it);
    assert_eq!(
        evs,
        vec![
            (Node::Block(Block::Document), Event::Enter),
            (Node::Block(Block::Document), Event::Enter),
            (Node::Inline(Inline::Text("x".to_string())), Event::Enter),
            (Node::Block(Block::Document), Event::Exit),
        ]
    );
    assert!(it.next().is_none());
}
