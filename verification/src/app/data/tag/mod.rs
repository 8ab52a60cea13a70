//! Tags of the whole index: lists and statistics.

pub mod api;
pub mod state;
pub mod statistics;

pub use api::{collect_to_string, sort_tags_lexically};
pub use state::Tagged;
pub use statistics::{Slot, Statistics};
