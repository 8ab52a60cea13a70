//! Conventions: commands, templates and the actions that they apply.

pub mod action;
pub mod api;
pub mod command;
pub mod config;
pub mod error;
pub mod template;

pub use api::Configuration;
pub use action::{Action, ApiAction, FileReport, Report, Summary, TagAction};
pub use command::{Command, Convention, FieldReport};
pub use error::Error;
pub use template::Template;
