//! Indexing engine of a media library: walks scanned directory trees, infers
//! directory-level tags, batches record writes and plans stale-entry cleanup.
//!
//! The engine neither reads the filesystem nor writes to the store. Its
//! caller hands it what was read, as `scan::DirectoryScan` and
//! `cleanup::PathStatus` values, and carries out the `store::StoreCommand`s
//! it plans. `update` plans a whole run, `clean` and `populate` its two
//! passes.

pub mod aggregate;
pub mod buffers;
pub mod builder;
pub mod cleanup;
pub mod error;
pub mod orchestrator;
pub mod pattern;
pub mod population;
pub mod records;
pub mod scan;
pub mod store;
pub mod walk;

pub use crate::cleanup::clean;
pub use crate::orchestrator::update;
pub use crate::population::populate;
