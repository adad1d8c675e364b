//! Event streams nest: every structural node that is entered is exited
//! again, innermost first.

use vstd::prelude::*;

use crate::cmark::{
    children_events, document_only_at_root, events_of, lemma_stream_is_walk, stream_of, Event,
    NodeView, Tree,
};

verus! {

/// One event checked against the stack of open nodes: a leaf may only be
/// entered and leaves the stack alone; entering another node opens it; an
/// exit must close the innermost open node. `None` marks a violation.
pub open spec fn nest_step(stack: Seq<NodeView>, ev: (NodeView, Event)) -> Option<Seq<NodeView>> {
    if ev.0.is_leaf() {
        if ev.1 == Event::Enter {
            Some(stack)
        } else {
            None
        }
    } else {
        match ev.1 {
            Event::Enter => Some(stack.push(ev.0)),
            Event::Exit => if stack.len() > 0 && stack.last() == ev.0 {
                Some(stack.drop_last())
            } else {
                None
            },
        }
    }
}

/// The stack of open nodes after a sequence of events, or `None` if the
/// sequence does not nest.
pub open spec fn nest(stack: Seq<NodeView>, evs: Seq<(NodeView, Event)>) -> Option<Seq<NodeView>>
    decreases evs.len(),
{
    if evs.len() == 0 {
        Some(stack)
    } else {
        match nest(stack, evs.drop_last()) {
            Some(st) => nest_step(st, evs.last()),
            None => None,
        }
    }
}

/// How many times the event `(n, e)` occurs.
pub open spec fn count_events(evs: Seq<(NodeView, Event)>, n: NodeView, e: Event) -> nat
    decreases evs.len(),
{
    if evs.len() == 0 {
        0
    } else {
        count_events(evs.drop_last(), n, e) + if evs.last() == (n, e) {
            1nat
        } else {
            0nat
        }
    }
}

proof fn lemma_nest_concat(stack: Seq<NodeView>, a: Seq<(NodeView, Event)>, b: Seq<(NodeView, Event)>)
    ensures
        nest(stack, a + b) == match nest(stack, a) {
            Some(st) => nest(st, b),
            None => None,
        },
    decreases b.len(),
{
    if b.len() == 0 {
        assert(a + b =~= a);
    } else {
        assert((a + b).drop_last() =~= a + b.drop_last());
        lemma_nest_concat(stack, a, b.drop_last());
    }
}

proof fn lemma_count_concat(a: Seq<(NodeView, Event)>, b: Seq<(NodeView, Event)>, n: NodeView, e: Event)
    ensures
        count_events(a + b, n, e) == count_events(a, n, e) + count_events(b, n, e),
    decreases b.len(),
{
    if b.len() == 0 {
        assert(a + b =~= a);
    } else {
        assert((a + b).drop_last() =~= a + b.drop_last());
        lemma_count_concat(a, b.drop_last(), n, e);
    }
}

proof fn lemma_single(x: (NodeView, Event))
    ensures
        forall|stack: Seq<NodeView>| #[trigger] nest(stack, seq![x]) == nest_step(stack, x),
        forall|n: NodeView, e: Event|
            #[trigger] count_events(seq![x], n, e) == if x == (n, e) {
                1nat
            } else {
                0nat
            },
{
    let s = seq![x];
    assert(s.drop_last() =~= Seq::<(NodeView, Event)>::empty());
    assert(s.last() == x);
    assert forall|stack: Seq<NodeView>| #[trigger] nest(stack, s) == nest_step(stack, x) by {
        assert(nest(stack, s.drop_last()) == Some(stack));
    }
    assert forall|n: NodeView, e: Event| #[trigger] count_events(s, n, e) == if x == (n, e) {
        1nat
    } else {
        0nat
    } by {
        assert(count_events(s.drop_last(), n, e) == 0);
    }
}

proof fn lemma_tree_nests(t: Tree, stack: Seq<NodeView>)
    ensures
        nest(stack, events_of(t)) == Some(stack),
    decreases t,
{
    let enter = (t.node@, Event::Enter);
    let exit = (t.node@, Event::Exit);
    lemma_single(enter);
    lemma_single(exit);
    if t.node@.is_leaf() {
    } else {
        let ce = children_events(t.children@);
        lemma_children_nest(t.children@, stack.push(t.node@));
        lemma_nest_concat(stack, seq![enter], ce);
        lemma_nest_concat(stack, seq![enter] + ce, seq![exit]);
        assert(stack.push(t.node@).drop_last() =~= stack);
    }
}

proof fn lemma_children_nest(cs: Seq<Tree>, stack: Seq<NodeView>)
    ensures
        nest(stack, children_events(cs)) == Some(stack),
    decreases cs,
{
    if cs.len() > 0 {
        lemma_children_nest(cs.drop_last(), stack);
        lemma_tree_nests(cs.last(), stack);
        lemma_nest_concat(stack, children_events(cs.drop_last()), events_of(cs.last()));
    }
}

proof fn lemma_tree_counts(t: Tree, n: NodeView)
    requires
        !n.is_leaf(),
    ensures
        count_events(events_of(t), n, Event::Enter) == count_events(events_of(t), n, Event::Exit),
    decreases t,
{
    let enter = (t.node@, Event::Enter);
    let exit = (t.node@, Event::Exit);
    lemma_single(enter);
    lemma_single(exit);
    if !t.node@.is_leaf() {
        let ce = children_events(t.children@);
        lemma_children_counts(t.children@, n);
        lemma_count_concat(seq![enter], ce, n, Event::Enter);
        lemma_count_concat(seq![enter] + ce, seq![exit], n, Event::Enter);
        lemma_count_concat(seq![enter], ce, n, Event::Exit);
        lemma_count_concat(seq![enter] + ce, seq![exit], n, Event::Exit);
    }
}

proof fn lemma_children_counts(cs: Seq<Tree>, n: NodeView)
    requires
        !n.is_leaf(),
    ensures
        count_events(children_events(cs), n, Event::Enter) == count_events(
            children_events(cs),
            n,
            Event::Exit,
        ),
    decreases cs,
{
    if cs.len() > 0 {
        lemma_children_counts(cs.drop_last(), n);
        lemma_tree_counts(cs.last(), n);
        lemma_count_concat(children_events(cs.drop_last()), events_of(cs.last()), n, Event::Enter);
        lemma_count_concat(children_events(cs.drop_last()), events_of(cs.last()), n, Event::Exit);
    }
}

/// A sequence of events that nests has prefixes that nest, with stacks no
/// longer than the prefix.
pub proof fn lemma_prefix_nests(stack: Seq<NodeView>, evs: Seq<(NodeView, Event)>, k: int)
    requires
        0 <= k <= evs.len(),
        nest(stack, evs) is Some,
    ensures
        nest(stack, evs.take(k)) is Some,
{
    lemma_nest_concat(stack, evs.take(k), evs.skip(k));
    assert(evs.take(k) + evs.skip(k) =~= evs);
}

/// The events of any tree are balanced: checked against a stack (push on
/// entering a node that is not a leaf, pop on exit, and the popped node must
/// be the one exited) they never fail and leave the stack empty; every such
/// node is entered exactly as often as it is exited; and the last event is
/// the root's exit. Where the root is the tree's one Document node, the
/// stream that a renderer reads is that whole walk.
pub proof fn lemma_events_balanced(t: Tree)
    ensures
        nest(Seq::empty(), events_of(t)) == Some(Seq::<NodeView>::empty()),
        forall|n: NodeView|
            !n.is_leaf() ==> count_events(events_of(t), n, Event::Enter) == count_events(
                events_of(t),
                n,
                Event::Exit,
            ),
        !t.node@.is_leaf() ==> events_of(t).last() == (t.node@, Event::Exit),
        document_only_at_root(t) ==> stream_of(t) == events_of(t),
{
    if document_only_at_root(t) {
        lemma_stream_is_walk(t);
    }
    lemma_tree_nests(t, Seq::empty());
    assert forall|n: NodeView| !n.is_leaf() implies count_events(events_of(t), n, Event::Enter)
        == count_events(events_of(t), n, Event::Exit) by {
        lemma_tree_counts(t, n);
    }
}

} // verus!
