//! A filesystem tag database and query engine.

pub mod app;
pub mod cli;
pub mod defaults;
pub mod dsl;
pub mod expression;
pub mod model;
pub mod util;
