//! Enrichment-and-chunking pipeline for log records.
//!
//! Each input line is paired with a causally ordered timestamp that is
//! strictly increasing across one run, records are grouped into
//! size-bounded chunks, and each chunk is mapped to a subdirectory so
//! that no directory holds more than a fixed number of files.

pub mod chunker;
pub mod clock;
pub mod paths;
pub mod policy;
pub mod record;
pub mod shard;
pub mod timestamp;
