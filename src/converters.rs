//! The two renderers behind one interface.

pub mod basic;
pub mod simple;

use vstd::prelude::*;

use crate::cmark::{depth, document_only_at_root, lemma_stream_is_walk, stream_of, Tree};
use crate::render::{fresh, lemma_state_restored, run, Profile, Rendering};
use crate::shell::{body_start, BODY_INDENT};

verus! {

/// A renderer of whole documents. `MoreData` is what a renderer needs
/// besides the document itself.
pub trait Converter: Sized {
    type MoreData;

    fn new() -> Self;

    fn convert(&mut self, doc: &Tree, data: Self::MoreData) -> Rendering;
}

/// Rendering one document twice with the same renderer gives the same
/// text both times: after a document, a compact renderer is back in the
/// state of a new one, and a page renderer starts its next body from the
/// same state as before.
pub proof fn lemma_rerender_identical(doc: Tree)
    requires
        document_only_at_root(doc),
        depth(doc) + BODY_INDENT <= usize::MAX,
    ensures
        ({
            let once = run(fresh(Profile::Minimal), stream_of(doc));
            run(once.0, stream_of(doc)).1 == once.1
        }),
        ({
            let once = run(body_start(fresh(Profile::Shelled)), stream_of(doc));
            run(body_start(once.0), stream_of(doc)).1 == once.1
        }),
{
    lemma_stream_is_walk(doc);
    lemma_state_restored(fresh(Profile::Minimal), doc);
    lemma_state_restored(body_start(fresh(Profile::Shelled)), doc);
}

} // verus!
