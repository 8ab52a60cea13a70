//! What an update inserts and what it deletes.
use crate::model::file_tag::FileTag;
use crate::model::{file, tag, Ids};
use vstd::prelude::*;

verus! {

/// The rows to insert.
#[derive(Debug)]
pub struct Ins {
    pub files: Vec<file::Insert>,
    pub tags: Vec<tag::Insert>,
    pub filetags: Vec<FileTag>,
}

impl Ins {
    /// Nothing to insert.
    pub fn new() -> (i: Self)
        ensures
            i.files@.len() == 0,
            i.tags@.len() == 0,
            i.filetags@.len() == 0,
    {
        Ins { files: Vec::new(), tags: Vec::new(), filetags: Vec::new() }
    }
}

/// The keys of the rows to delete: paths, names and pairs of ids.
#[derive(Debug)]
pub struct Del {
    pub files: Vec<String>,
    pub tags: Vec<String>,
    pub filetags: Vec<Ids>,
}

impl Del {
    /// Nothing to delete.
    pub fn new() -> (d: Self)
        ensures
            d.files@.len() == 0,
            d.tags@.len() == 0,
            d.filetags@.len() == 0,
    {
        Del { files: Vec::new(), tags: Vec::new(), filetags: Vec::new() }
    }
}

} // verus!
