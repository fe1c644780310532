//! What was read from the filesystem, as plain values: one `DirectoryScan`
//! per directory, holding the scans of its sub-directories.

use crate::error::IndexError;
use crate::records::Tags;
use vstd::prelude::*;

verus! {

/// A creation or modification time as the filesystem reported it.
#[derive(Debug, Clone, Copy, PartialEq, Eq, Structural)]
pub enum FileTime {
    /// The filesystem does not record this time.
    Unavailable,
    /// The time lies before the Unix epoch.
    BeforeEpoch,
    /// Whole seconds since the Unix epoch.
    SinceEpoch(u64),
}

/// The two times of a directory from which its date of addition is taken.
#[derive(Debug, Clone, Copy, PartialEq, Eq, Structural)]
pub struct DirectoryTimes {
    pub created: FileTime,
    pub modified: FileTime,
}

/// One directory as it was read: its path, its times and its entries in the
/// order the filesystem listed them.
#[derive(Debug, PartialEq, Eq)]
pub struct DirectoryScan {
    /// The directory's path, absent when it is not valid Unicode.
    pub path: Option<String>,
    /// The directory's times, absent when its metadata could not be read.
    pub times: Option<DirectoryTimes>,
    /// The directory's entries, absent when it could not be listed at all.
    pub entries: Option<Vec<ScanEntry>>,
}

/// One entry of a directory listing.
#[derive(Debug, PartialEq, Eq)]
pub enum ScanEntry {
    /// The listing failed at this entry.
    Unreadable,
    /// An entry that is not a directory. `name` and `path` are absent when
    /// they are not valid Unicode, `tags` when no tags could be extracted.
    File { name: Option<String>, path: Option<String>, tags: Option<Tags> },
    /// A sub-directory, with what was read of it.
    Directory { name: Option<String>, scan: DirectoryScan },
}

/// A file that yields a song: its path and its tags.
pub struct TaggedFile {
    pub path: Seq<char>,
    pub tags: Tags,
}

impl ScanEntry {
    /// The entry's file name, where it has one that is valid Unicode.
    pub open spec fn name(self) -> Option<String> {
        match self {
            ScanEntry::Unreadable => None,
            ScanEntry::File { name, .. } => name,
            ScanEntry::Directory { name, .. } => name,
        }
    }

    /// The entry's full path, where it has one that is valid Unicode.
    pub open spec fn path(self) -> Option<String> {
        match self {
            ScanEntry::Unreadable => None,
            ScanEntry::File { path, .. } => path,
            ScanEntry::Directory { scan, .. } => scan.path,
        }
    }

    /// The entry as a tagged file: a file whose path is valid Unicode and
    /// whose tags were extracted. Every other entry yields no song.
    pub open spec fn tagged(self) -> Option<TaggedFile> {
        match self {
            ScanEntry::File { path: Some(p), tags: Some(t), .. } => Some(
                TaggedFile { path: p@, tags: t },
            ),
            _ => None,
        }
    }
}

/// The index of the first unreadable entry at or after `from`, or the number
/// of entries when there is none.
pub open spec fn first_unreadable(entries: Seq<ScanEntry>, from: int) -> int
    decreases entries.len() - from,
{
    if from < 0 || from >= entries.len() || entries[from] is Unreadable {
        from
    } else {
        first_unreadable(entries, from + 1)
    }
}

/// The entries that a listing yields before it fails: all of them when no
/// entry is unreadable.
pub open spec fn listed(entries: Seq<ScanEntry>) -> Seq<ScanEntry> {
    entries.take(first_unreadable(entries, 0))
}

/// The tagged files among `entries`, in order.
pub open spec fn tagged_files(entries: Seq<ScanEntry>) -> Seq<TaggedFile>
    decreases entries.len(),
{
    if entries.len() == 0 {
        Seq::empty()
    } else {
        let before = tagged_files(entries.drop_last());
        match entries.last().tagged() {
            Some(file) => before.push(file),
            None => before,
        }
    }
}

/// The date a directory was added: its creation time, or its modification
/// time where no creation time is recorded, in seconds since the epoch cut to
/// 32 bits.
pub open spec fn date_added_of(times: Option<DirectoryTimes>) -> Result<i32, IndexError> {
    match times {
        None => Err(IndexError::MetadataUnavailable),
        Some(t) => {
            let chosen = if t.created is Unavailable {
                t.modified
            } else {
                t.created
            };
            match chosen {
                FileTime::Unavailable => Err(IndexError::TimestampUnavailable),
                FileTime::BeforeEpoch => Err(IndexError::TimestampBeforeEpoch),
                FileTime::SinceEpoch(seconds) => Ok(seconds as i32),
            }
        },
    }
}

/// `first_unreadable` is the one index that bounds a prefix of readable
/// entries and is not itself readable.
pub(crate) proof fn lemma_first_unreadable(entries: Seq<ScanEntry>, from: int, stop: int)
    requires
        0 <= from <= stop <= entries.len(),
        forall|j: int| from <= j < stop ==> !(entries[j] is Unreadable),
        stop == entries.len() || entries[stop] is Unreadable,
    ensures
        first_unreadable(entries, from) == stop,
    decreases stop - from,
{
    if from < stop {
        lemma_first_unreadable(entries, from + 1, stop);
    }
}

/// The readable prefix ends within the listing and holds no unreadable entry.
pub(crate) proof fn lemma_listed_is_readable(entries: Seq<ScanEntry>, from: int)
    requires
        0 <= from <= entries.len(),
    ensures
        from <= first_unreadable(entries, from) <= entries.len(),
        forall|j: int| from <= j < first_unreadable(entries, from) ==> !(entries[j] is Unreadable),
        first_unreadable(entries, from) == entries.len() || entries[first_unreadable(
            entries,
            from,
        )] is Unreadable,
    decreases entries.len() - from,
{
    if from < entries.len() && !(entries[from] is Unreadable) {
        lemma_listed_is_readable(entries, from + 1);
    }
}

impl ScanEntry {
    /// Whether the listing failed at this entry.
    pub fn is_unreadable(&self) -> (unreadable: bool)
        ensures
            unreadable == (*self is Unreadable),
    {
        match self {
            ScanEntry::Unreadable => true,
            _ => false,
        }
    }
}

/// Counts the entries that a listing yields before it fails.
pub fn listed_len(entries: &Vec<ScanEntry>) -> (stop: usize)
    ensures
        stop == first_unreadable(entries@, 0),
        stop <= entries.len(),
{
    let mut stop: usize = 0;
    while stop < entries.len() && !entries[stop].is_unreadable()
        invariant
            stop <= entries.len(),
            forall|j: int| 0 <= j < stop ==> !(entries@[j] is Unreadable),
        decreases entries.len() - stop,
    {
        stop += 1;
    }
    proof {
        lemma_first_unreadable(entries@, 0, stop as int);
    }
    stop
}

/// Reads a directory's date of addition from its times.
pub fn date_added(times: &Option<DirectoryTimes>) -> (date: Result<i32, IndexError>)
    ensures
        date == date_added_of(*times),
{
    match times {
        None => Err(IndexError::MetadataUnavailable),
        Some(t) => {
            let chosen = match t.created {
                FileTime::Unavailable => t.modified,
                _ => t.created,
            };
            match chosen {
                FileTime::Unavailable => Err(IndexError::TimestampUnavailable),
                FileTime::BeforeEpoch => Err(IndexError::TimestampBeforeEpoch),
                FileTime::SinceEpoch(seconds) => Ok(#[verifier::truncate] (seconds as i32)),
            }
        },
    }
}

} // verus!
