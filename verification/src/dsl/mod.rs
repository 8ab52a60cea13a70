//! The meanings of an expression: a predicate for the store, over its files
//! or over its associations, and a test of one file.

pub mod combinator;
pub mod error;
pub mod filter;
pub mod query;

pub use error::Error;
