//! Everything that touches the filesystem, reduced to what can be decided
//! without touching it: what a listing holds and in which order, what a job
//! did to each of its items, and which answer of a reader is still wanted.

pub mod directory;
pub mod ops;
pub mod job;
pub mod worker;
pub mod reader;
pub mod archive;
pub mod contents;
pub mod paths;
pub mod listing;
pub mod sizes;
pub mod preview;
pub mod find;
