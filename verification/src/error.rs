//! Why an indexing pass stops.

use vstd::prelude::*;

verus! {

/// A failure that aborts the pass in which it occurs.
#[derive(Debug, Clone, Copy, PartialEq, Eq, Structural)]
pub enum IndexError {
    /// The artwork pattern is not a regular expression that compiles.
    InvalidPattern,
    /// The path of a directory to index is not valid Unicode.
    InvalidDirectoryPath,
    /// The metadata of a directory to index could not be read.
    MetadataUnavailable,
    /// A directory has neither a creation nor a modification time.
    TimestampUnavailable,
    /// The time a directory was added lies before the Unix epoch.
    TimestampBeforeEpoch,
    /// The entries of a directory could not be listed at all.
    ListingUnavailable,
    /// An entry of a directory could not be read while listing it.
    EntryUnreadable,
}

} // verus!
