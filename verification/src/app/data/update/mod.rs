//! Reconciliation: what is to be inserted into and deleted from the index so
//! that it holds what the attributes of the files hold.

pub mod api;
pub mod diff;
pub mod engine;
pub mod index;
pub mod scan;
pub mod state;

pub use diff::Diff;
pub use engine::Update;
pub use scan::{Scan, Scanned, Walk};
pub use state::{Del, Ins};
