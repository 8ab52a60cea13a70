//! What can go wrong while an expression is read, expanded or compared.
use vstd::prelude::*;

verus! {

/// An error of the expression language.
#[derive(Debug, Clone, PartialEq, Eq)]
pub enum Error {
    /// A character that starts no token.
    InvalidCharacter { c: char },
    /// A character other than the one that had to come.
    UnexpectedCharacter { expected: char, found: char },
    /// A payload that is never closed.
    UnclosedDelimiter { delimiter: char },
    /// The input ended where a token or an operand had to come.
    UnexpectedEof,
    /// A binary operator without a left operand.
    MissingValue,
    /// An expression without any node.
    EmptyExpression,
    /// A macro name without a replacement.
    UnknownExpansion { key: String },
    /// A macro name with a character that names may not have.
    InvalidIdentifier { id: String },
    /// Too many substitutions in one expansion.
    RecursionLimitReached { key: String, limit: usize },
    /// A text that is no comparison.
    FailedCapture { expression: String },
    /// A comparison of a variable that has no value.
    UnknownVariable { variable: String },
    /// An operator that is none of the six comparisons.
    UnknownOperator { operator: String },
}

/// An [`Error`] with its texts as sequences of characters.
pub enum Fault {
    InvalidCharacter { c: char },
    UnexpectedCharacter { expected: char, found: char },
    UnclosedDelimiter { delimiter: char },
    UnexpectedEof,
    MissingValue,
    EmptyExpression,
    UnknownExpansion { key: Seq<char> },
    InvalidIdentifier { id: Seq<char> },
    RecursionLimitReached { key: Seq<char>, limit: nat },
    FailedCapture { expression: Seq<char> },
    UnknownVariable { variable: Seq<char> },
    UnknownOperator { operator: Seq<char> },
}

impl View for Error {
    type V = Fault;

    open spec fn view(&self) -> Fault {
        match self {
            Error::InvalidCharacter { c } => Fault::InvalidCharacter { c: *c },
            Error::UnexpectedCharacter { expected, found } => Fault::UnexpectedCharacter {
                expected: *expected,
                found: *found,
            },
            Error::UnclosedDelimiter { delimiter } => Fault::UnclosedDelimiter {
                delimiter: *delimiter,
            },
            Error::UnexpectedEof => Fault::UnexpectedEof,
            Error::MissingValue => Fault::MissingValue,
            Error::EmptyExpression => Fault::EmptyExpression,
            Error::UnknownExpansion { key } => Fault::UnknownExpansion { key: key@ },
            Error::InvalidIdentifier { id } => Fault::InvalidIdentifier { id: id@ },
            Error::RecursionLimitReached { key, limit } => Fault::RecursionLimitReached {
                key: key@,
                limit: *limit as nat,
            },
            Error::FailedCapture { expression } => Fault::FailedCapture {
                expression: expression@,
            },
            Error::UnknownVariable { variable } => Fault::UnknownVariable { variable: variable@ },
            Error::UnknownOperator { operator } => Fault::UnknownOperator { operator: operator@ },
        }
    }
}

} // verus!
