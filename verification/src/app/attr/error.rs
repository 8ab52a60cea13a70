//! What can go wrong with the tags of a file.
use vstd::prelude::*;

verus! {

/// An error of the attribute layer.
#[derive(Debug, PartialEq, Eq)]
pub enum Error {
    /// A name that no tag may have.
    InvalidTag { tag: String },
    /// A path that is no symbolic link.
    NotUnlinkable { path: String },
}

/// An [`Error`] with its texts as sequences of characters.
pub enum Fault {
    InvalidTag { tag: Seq<char> },
    NotUnlinkable { path: Seq<char> },
}

impl View for Error {
    type V = Fault;

    open spec fn view(&self) -> Fault {
        match self {
            Error::InvalidTag { tag } => Fault::InvalidTag { tag: tag@ },
            Error::NotUnlinkable { path } => Fault::NotUnlinkable { path: path@ },
        }
    }
}

} // verus!
