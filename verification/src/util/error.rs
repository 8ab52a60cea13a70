//! The errors of all the layers, as one type.
use crate::app::attr::error as attr;
use crate::app::data::error as data;
use crate::app::meta::error as meta;
use crate::dsl::error as dsl;
use crate::expression::error as expression;
use crate::util::collections;
use vstd::prelude::*;

verus! {

/// An error of any layer.
#[derive(Debug, PartialEq, Eq)]
pub enum Error {
    /// An error of the expression language.
    Expression(expression::Error),
    /// An error of the attribute layer.
    Attr(attr::Error),
    /// An error of the data plane.
    Data(data::Error),
    /// An error of a lookup.
    Collections(collections::Error),
    /// An error of a meaning of expressions.
    Dsl(dsl::Error),
    /// An error of the configuration.
    Meta(meta::Error),
}

/// An [`Error`] with its texts as sequences of characters.
pub enum Fault {
    Expression(expression::Fault),
    Attr(attr::Fault),
    Data(data::Fault),
    /// The id that was not found.
    Collections(Seq<char>),
    Dsl(dsl::Fault),
    Meta(meta::Fault),
}

impl View for Error {
    type V = Fault;

    open spec fn view(&self) -> Fault {
        match self {
            Error::Expression(e) => Fault::Expression(e@),
            Error::Attr(e) => Fault::Attr(e@),
            Error::Data(e) => Fault::Data(e@),
            Error::Collections(e) => Fault::Collections(e@),
            Error::Dsl(e) => Fault::Dsl(e@),
            Error::Meta(e) => Fault::Meta(e@),
        }
    }
}

/// A result with an error of any layer.
pub type Res<T> = Result<T, Error>;

} // verus!
