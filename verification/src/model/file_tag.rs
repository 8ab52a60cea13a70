//! Associations of files and tags as the index holds them.
use vstd::prelude::*;

verus! {

/// A row of the table of associations.
#[derive(Debug, Clone, Copy, PartialEq, Eq, Hash, Structural)]
pub struct FileTag {
    pub file_id: i64,
    pub tag_id: i64,
}

impl FileTag {
    /// The association as a pair of ids.
    pub fn ids(&self) -> (r: (i64, i64))
        ensures
            r == (self.file_id, self.tag_id),
    {
        (self.file_id, self.tag_id)
    }
}

} // verus!
