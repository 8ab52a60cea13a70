//! What can go wrong while an expression is given its meaning.
use vstd::prelude::*;

verus! {

/// An error of a meaning.
#[derive(Debug, PartialEq, Eq)]
pub enum Error {
    /// A modifier that the meaning has no use for.
    InvalidModifier { c: char },
    /// A reserved word that the meaning has no use for.
    InvalidNamespace { name: String },
    /// A text that is no regular expression.
    InvalidPattern { pattern: String },
    /// A shell command whose outcome was not handed in.
    MissingOutcome { command: String },
}

/// An [`Error`] with its texts as sequences of characters.
pub enum Fault {
    InvalidModifier { c: char },
    InvalidNamespace { name: Seq<char> },
    InvalidPattern { pattern: Seq<char> },
    MissingOutcome { command: Seq<char> },
}

impl View for Error {
    type V = Fault;

    open spec fn view(&self) -> Fault {
        match self {
            Error::InvalidModifier { c } => Fault::InvalidModifier { c: *c },
            Error::InvalidNamespace { name } => Fault::InvalidNamespace { name: name@ },
            Error::InvalidPattern { pattern } => Fault::InvalidPattern { pattern: pattern@ },
            Error::MissingOutcome { command } => Fault::MissingOutcome { command: command@ },
        }
    }
}

} // verus!
