//! Queries: what they force, how they are driven, what they give.

pub mod api;
pub mod collect;
pub mod filter;
pub mod forcings;
pub mod maps;
pub mod state;

pub use forcings::{Forcing, Forcings, Output};
pub use maps::{Columnar, Columns, FileView, ManyToManyIds, MapFileIter, MapTagIter, Maps, OwnedMaps, TagView, Viewable};
pub use filter::{DslFilter, Filter, PipeFilter};
pub use state::{DatabaseQuery, Filtered, Mapped, Piped, Pipeline, Progress, Query, Raw, Results, State, Unassociated, Unmapped};
pub use collect::{Collector, FileCount, FileIds, FilePaths, SerialFile, SerializeJson, SerializePlain, SerializeYaml, Stringify, TagCount, TagFiles, TagIds, TagNames};
