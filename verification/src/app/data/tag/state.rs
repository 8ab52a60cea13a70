//! A result with the tags of its files.
use crate::app::data::query::maps::{Maps, OwnedMaps, Viewable};
use crate::app::data::query::state::{copy_ids, within, Filtered, Piped};
use crate::model::{Fid, Tid};
use vstd::prelude::*;

verus! {

/// A filtered or piped result, and the ids of the tags of its files.
pub struct Tagged {
    pub maps: OwnedMaps,
    pub fids: Vec<Fid>,
    pub tids: Vec<Tid>,
}

impl Tagged {
    /// The maps are well formed, and the ids of the files are ids of their
    /// files.
    pub open spec fn wf(&self) -> bool {
        self.maps.wf() && within(self.maps.maps(), self.fids@)
    }

    /// A piped result with the ids of the tags that the store has for its
    /// files.
    pub fn from_piped(piped: Piped, tids: Vec<Tid>) -> (t: Self)
        ensures
            t.maps == piped.maps,
            t.fids == piped.fids,
            t.tids == tids,
            piped.wf() ==> t.wf(),
    {
        Tagged { maps: piped.maps, fids: piped.fids, tids }
    }

    /// A filtered result with the ids of the tags that the store has for its
    /// files.
    pub fn from_filtered(filtered: Filtered, tids: Vec<Tid>) -> (t: Self)
        ensures
            t.maps == filtered.maps,
            t.fids == filtered.fids,
            t.tids == tids,
            filtered.wf() ==> t.wf(),
    {
        Tagged { maps: filtered.maps, fids: filtered.fids, tids }
    }
}

impl Viewable for Tagged {
    open spec fn shown_maps(&self) -> &Maps {
        self.maps.maps()
    }

    open spec fn shown_files(&self) -> Seq<i64> {
        self.fids@
    }

    open spec fn shown_tags(&self) -> Seq<i64> {
        self.tids@
    }

    open spec fn viewable(&self) -> bool {
        self.maps.wf()
    }

    fn maps(&self) -> (m: &Maps) {
        assert(self.viewable());
        proof {
            self.maps.lemma_wf();
        }
        let m = self.maps.inner();
        assert(*m == *self.shown_maps());
        m
    }

    fn tag_view(&self) -> (ids: Vec<Tid>) {
        let ids = copy_ids(&self.tids);
        assert(ids@ == self.shown_tags());
        ids
    }

    fn file_view(&self) -> (ids: Vec<Fid>) {
        let ids = copy_ids(&self.fids);
        assert(ids@ == self.shown_files());
        ids
    }
}

} // verus!
