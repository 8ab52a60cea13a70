//! Small helpers shared by the rest of the crate.

pub mod collections;
pub mod error;
pub mod file;
pub mod math;
pub mod order;
pub mod profiler;
pub mod sql;
pub mod string;
pub mod table;
