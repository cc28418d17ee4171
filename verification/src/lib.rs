//! Fetching paper citations from the INSPIRE-HEP catalogue: the records, the
//! citation network and its depth-bounded build, the reading of the catalogue's
//! answers, and the rendering as BibTeX.
//!
//! The library decides and computes; sending requests and writing files is left
//! to the program around it.

pub mod api;
pub mod cli;
pub mod config;
pub mod idmap;
pub mod json;
pub mod models;
pub mod network;
pub mod output;
pub mod text;
pub mod traversal;

// Re-export commonly used types
pub use api::InspireClient;
pub use models::{Paper, Reference};
pub use network::CitationNetwork;
pub use output::{OutputFormat, OutputWriter};
