//! The compact renderer: the document's body alone, for embedding.

use vstd::prelude::*;

use crate::cmark::{stream_of, Tree};
use crate::converters::Converter;
use crate::render::{fresh, render_body, run, run_notes, Profile, RenderState, RenderView, Rendering};

verus! {

pub struct SimpleConverter {
    state: RenderState,
}

/// The compact rendering of a document by a new renderer.
pub open spec fn minimal_html(doc: Tree) -> Seq<char> {
    run(fresh(Profile::Minimal), stream_of(doc)).1
}

impl SimpleConverter {
    pub closed spec fn spec_state(&self) -> RenderView {
        self.state@
    }
}

impl Converter for SimpleConverter {
    type MoreData = ();

    fn new() -> (r: Self)
        ensures
            r.spec_state() == fresh(Profile::Minimal),
    {
        SimpleConverter { state: RenderState::new(Profile::Minimal) }
    }

    fn convert(&mut self, doc: &Tree, data: ()) -> (r: Rendering)
        ensures
            r.html@ == run(old(self).spec_state(), stream_of(*doc)).1,
            r.diagnostics@ == run_notes(stream_of(*doc)),
            final(self).spec_state() == run(old(self).spec_state(), stream_of(*doc)).0,
    {
        render_body(&mut self.state, doc)
    }
}

} // verus!
