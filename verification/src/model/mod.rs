//! The rows of the index: files, tags and their associations.
use vstd::prelude::*;

pub mod file;
pub mod file_tag;
pub mod tag;

pub use file_tag::FileTag;

verus! {

/// An id of the index.
pub type Uid = i64;

/// The numeric code of a file type.
pub type Kind = i64;

/// The id of a file.
pub type Fid = Uid;

/// The id of a tag.
pub type Tid = Uid;

/// An association: the id of a file and the id of a tag.
pub type Ids = (Fid, Tid);

/// A tag with its id.
pub type TCol = (Uid, String);

/// A file with its id and its kind.
pub type FCol = (Uid, String, Kind);

} // verus!
