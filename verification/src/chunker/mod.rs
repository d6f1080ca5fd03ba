//! Streaming helpers for large inputs: chunk planning for files and streams,
//! and the JSON-to-Meteor token processors.
pub mod file_chunking;
pub mod jsonm;
pub mod plan;
pub mod stream_chunker;
pub mod jsonm_scan;
