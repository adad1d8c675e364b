//! The page renderer: the document inside a full HTML page that links the
//! site's assets.

use vstd::prelude::*;

use std::marker::PhantomData;

use crate::asset::Asset;
use crate::cmark::{stream_of, Tree};
use crate::converters::Converter;
use crate::render::{fresh, run, run_notes, Profile, RenderState, RenderView, Rendering};
use crate::shell::{body_start, page, render_page};

verus! {

pub struct BasicConverter<'a> {
    state: RenderState,
    phantom: PhantomData<&'a ()>,
}

/// The assets to link, and how many directories below the site root the
/// page lies.
pub struct BasicData<'a> {
    assets: &'a Vec<Asset>,
    dist: usize,
}

impl<'a> BasicData<'a> {
    pub fn new(assets: &'a Vec<Asset>, dist: usize) -> (r: Self)
        ensures
            r.spec_assets() == assets@,
            r.spec_dist() == dist,
    {
        Self { assets, dist }
    }

    pub closed spec fn spec_assets(&self) -> Seq<Asset> {
        self.assets@
    }

    pub closed spec fn spec_dist(&self) -> usize {
        self.dist
    }
}

impl<'a> BasicConverter<'a> {
    pub closed spec fn spec_state(&self) -> RenderView {
        self.state@
    }
}

impl<'a> Converter for BasicConverter<'a> {
    type MoreData = BasicData<'a>;

    fn new() -> (r: Self)
        ensures
            r.spec_state() == fresh(Profile::Shelled),
    {
        BasicConverter { state: RenderState::new(Profile::Shelled), phantom: PhantomData }
    }

    fn convert(&mut self, doc: &Tree, data: BasicData<'a>) -> (r: Rendering)
        ensures
            r.html@ == page(
                data.spec_assets(),
                data.spec_dist() as nat,
                run(body_start(old(self).spec_state()), stream_of(*doc)).1,
            ),
            r.diagnostics@ == run_notes(stream_of(*doc)),
            final(self).spec_state() == run(body_start(old(self).spec_state()), stream_of(*doc)).0,
    {
        render_page(&mut self.state, doc, data.assets, data.dist)
    }
}

} // verus!
