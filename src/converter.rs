//! A page renderer used on its own, without the `Converter` interface: the
//! assets and the depth are passed to each call.

use vstd::prelude::*;

use crate::asset::Asset;
use crate::cmark::{stream_of, Tree};
use crate::render::{fresh, run, run_notes, Profile, RenderState, RenderView, Rendering};
use crate::shell::{body_start, page, render_page};

verus! {

pub struct Converter {
    state: RenderState,
}

impl Converter {
    pub closed spec fn spec_state(&self) -> RenderView {
        self.state@
    }

    pub fn new() -> (r: Self)
        ensures
            r.spec_state() == fresh(Profile::Shelled),
    {
        Self { state: RenderState::new(Profile::Shelled) }
    }

    /// Renders `doc` as a page `dist` directories below the site root,
    /// linking `assets`.
    pub fn convert(&mut self, doc: &Tree, assets: &Vec<Asset>, dist: usize) -> (r: Rendering)
        ensures
            r.html@ == page(
                assets@,
                dist as nat,
                run(body_start(old(self).spec_state()), stream_of(*doc)).1,
            ),
            r.diagnostics@ == run_notes(stream_of(*doc)),
            final(self).spec_state() == run(body_start(old(self).spec_state()), stream_of(*doc)).0,
    {
        render_page(&mut self.state, doc, assets, dist)
    }
}

} // verus!
