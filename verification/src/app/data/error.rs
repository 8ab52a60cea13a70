//! What can go wrong in the data plane.
use vstd::prelude::*;

verus! {

/// An error of the data plane.
#[allow(inconsistent_fields)]
#[derive(Debug, PartialEq, Eq)]
pub enum Error {
    /// An operation on a result that is in no state for it.
    WrongState { state: String, operation: String },
    /// A numeric id that the index does not hold.
    UnknownIntId { id: i64 },
    /// A name or a path that the index does not hold.
    UnknownStrId { id: String },
}

/// An [`Error`] with its texts as sequences of characters.
#[allow(inconsistent_fields)]
pub enum Fault {
    WrongState { state: Seq<char>, operation: Seq<char> },
    UnknownIntId { id: int },
    UnknownStrId { id: Seq<char> },
}

impl View for Error {
    type V = Fault;

    open spec fn view(&self) -> Fault {
        match self {
            Error::WrongState { state, operation } => Fault::WrongState {
                state: state@,
                operation: operation@,
            },
            Error::UnknownIntId { id } => Fault::UnknownIntId { id: *id as int },
            Error::UnknownStrId { id } => Fault::UnknownStrId { id: id@ },
        }
    }
}

} // verus!
