//! What can go wrong with the configuration.
use vstd::prelude::*;

verus! {

/// An error of the configuration.
#[derive(Debug, PartialEq, Eq)]
pub enum Error {
    /// A verb that names no action.
    UnknownAction { action: String },
    /// A configuration that cannot be used.
    ConfigurationError { message: String },
    /// A name that no template has.
    UnknownTemplate { template: String },
}

/// An [`Error`] with its texts as sequences of characters.
pub enum Fault {
    UnknownAction { action: Seq<char> },
    ConfigurationError { message: Seq<char> },
    UnknownTemplate { template: Seq<char> },
}

impl View for Error {
    type V = Fault;

    open spec fn view(&self) -> Fault {
        match self {
            Error::UnknownAction { action } => Fault::UnknownAction { action: action@ },
            Error::ConfigurationError { message } => Fault::ConfigurationError {
                message: message@,
            },
            Error::UnknownTemplate { template } => Fault::UnknownTemplate { template: template@ },
        }
    }
}

} // verus!
