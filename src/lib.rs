//! Line selection for a small text-search tool: which lines of a document
//! are shown, in which order, for a query, a line range and a context window.

pub mod config;
pub mod context;
pub mod laws;
pub mod lines;
pub mod matcher;
pub mod present;
pub mod range;
pub mod search;
pub mod select;

pub use config::{len_args, Config};
pub use search::{run_shows, search};
