//! The meaning of an expression as a test of one file.

pub mod context;
pub mod dsl;

pub use context::Context;
pub use dsl::Dsl;
