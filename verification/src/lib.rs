//! Planning and bookkeeping for materializing file trees: unpacking archives,
//! duplicating directory trees, and classifying archive contents by name.
//!
//! The library decides *what* has to happen and in *which order*; the caller
//! performs the file-system operations and reports their outcomes back.

pub mod archive;
pub mod bench;
pub mod classify;
pub mod copy;
pub mod digest;
pub mod extract;
pub mod failure;
pub mod machine_id;
pub mod paths;
pub mod pipeline;
pub mod text;

pub use bench::DiskBenchmarkResult;
pub use classify::ZipAnalysis;
