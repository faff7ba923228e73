//! Media-library watcher core: a report parser for the output of an external
//! metadata-extraction tool, a persistent staleness-aware metadata cache over
//! SQLite, a per-file metadata resolver, and an anomaly-classification pass.

pub mod cache;
pub mod errors;
pub mod parse;
pub mod record;
pub mod resolve;
pub mod scan;
pub mod text;
