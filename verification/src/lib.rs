//! Chunked-download engine: planning of byte ranges, per-chunk fetch
//! bookkeeping, and ordered reassembly of the fetched chunks, together
//! with the release-listing data model and the package-reference parser
//! around it.

pub mod assets;
pub mod coordinator;
pub mod error;
pub mod fetch;
pub mod package;
pub mod planner;
pub mod text;
