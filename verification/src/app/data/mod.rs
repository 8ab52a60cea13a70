//! The data plane: queries against the index and their results.

pub mod error;
pub mod query;
pub mod tag;
pub mod update;

pub use error::Error;
