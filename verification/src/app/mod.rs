//! The application layers: attributes, data and conventions.

pub mod attr;
pub mod data;
pub mod meta;
