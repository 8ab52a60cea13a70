//! Tags as extended attributes of files.

pub mod api;
pub mod error;
pub mod file;
pub mod tag;

pub use api::{API_TAG, TAG_KEY, TAG_SEPERATOR};
pub use error::Error;
pub use file::File;
pub use tag::Tag;
