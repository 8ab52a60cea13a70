//! The expression language: tokens, syntax trees, macro expansion,
//! comparisons and namespaces.

pub mod comparison;
pub mod emitter;
pub mod error;
pub mod expansion;
pub mod expression;
pub mod logic;
pub mod namespace;
pub mod parser;
pub mod tokenizer;

pub use comparison::{Comparables, Comparison, Parameters};
pub use error::Error;
pub use expansion::Expansions;
pub use expression::Expression;
pub use logic::Logic;
pub use namespace::{Namespace, Namespec};
pub use parser::{Ast, Operator, Parser};
pub use tokenizer::{BinaryToken, CloseToken, Token, Tokenizer, UnaryToken, ValueToken};
