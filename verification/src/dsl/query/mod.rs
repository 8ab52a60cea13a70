//! The meaning of an expression as a predicate for the store.

pub mod context;
pub mod dsl;

pub use context::Context;
pub use dsl::{Dsl, Predicate};
