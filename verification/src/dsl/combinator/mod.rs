//! The meaning of an expression as a predicate over the associations of the
//! store.

pub mod dsl;

pub use dsl::Dsl;
