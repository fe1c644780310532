//! What a population pass emits for a scanned directory tree: for each
//! directory the songs of its own files, then its own record, then what its
//! sub-directories emit.

use crate::aggregate::{albums, artists, consensus, years};
use crate::error::IndexError;
use crate::pattern::{is_artwork_name, match_alike};
use crate::records::{song_of, text, DirectoryView, RecordView};
use crate::scan::{
    date_added_of, first_unreadable, lemma_first_unreadable, lemma_listed_is_readable, listed,
    tagged_files, DirectoryScan, ScanEntry, TaggedFile,
};
use regex::Regex;
use vstd::prelude::*;

verus! {

/// The records emitted up to the end of a walk, or up to the failure that
/// stopped it.
pub struct Emission {
    pub records: Seq<RecordView>,
    pub error: Option<IndexError>,
}

/// The artwork search over the entries from `from` on: the path of the first
/// entry whose name matches the pattern. It ends without artwork at the end
/// of the entries, and fails at an unreadable entry that comes before any
/// match.
pub open spec fn artwork_from(pattern: Regex, entries: Seq<ScanEntry>, from: int) -> Result<
    Option<Seq<char>>,
    IndexError,
>
    decreases entries.len() - from,
{
    if from < 0 || from >= entries.len() {
        Ok(None)
    } else if entries[from] is Unreadable {
        Err(IndexError::EntryUnreadable)
    } else if is_artwork_name(pattern, entries[from].name()) {
        Ok(text(entries[from].path()))
    } else {
        artwork_from(pattern, entries, from + 1)
    }
}

/// The artwork search over a directory's own entries.
pub open spec fn artwork_search(pattern: Regex, scan: DirectoryScan) -> Result<
    Option<Seq<char>>,
    IndexError,
> {
    match scan.entries {
        None => Err(IndexError::ListingUnavailable),
        Some(entries) => artwork_from(pattern, entries@, 0),
    }
}

/// The artwork of a directory and of the songs in it. A search that fails
/// leaves the directory without artwork.
pub open spec fn artwork_of(pattern: Regex, scan: DirectoryScan) -> Option<Seq<char>> {
    match artwork_search(pattern, scan) {
        Ok(artwork) => artwork,
        Err(_) => None,
    }
}

/// The characters of an optional parent path.
pub open spec fn parent_text(parent: Option<&str>) -> Option<Seq<char>> {
    match parent {
        Some(p) => Some(p@),
        None => None,
    }
}

/// An artwork search with its result taken by its characters.
pub open spec fn search_text(found: Result<Option<String>, IndexError>) -> Result<
    Option<Seq<char>>,
    IndexError,
> {
    match found {
        Ok(artwork) => Ok(text(artwork)),
        Err(e) => Err(e),
    }
}

/// How a walk ends that stopped with the given failure, or with none.
pub open spec fn walk_result(error: Option<IndexError>) -> Result<(), IndexError> {
    match error {
        Some(e) => Err(e),
        None => Ok(()),
    }
}

/// The failure that keeps a directory from being indexed at all, if any.
pub open spec fn entry_error(scan: DirectoryScan) -> Option<IndexError> {
    if scan.path is None {
        Some(IndexError::InvalidDirectoryPath)
    } else if let Err(e) = date_added_of(scan.times) {
        Some(e)
    } else if scan.entries is None {
        Some(IndexError::ListingUnavailable)
    } else {
        None
    }
}

/// The song records of a directory's tagged files, in order. Each carries the
/// directory's path as its parent and the directory's artwork.
pub open spec fn own_songs(
    path: Seq<char>,
    artwork: Option<Seq<char>>,
    files: Seq<TaggedFile>,
) -> Seq<RecordView> {
    files.map_values(|file: TaggedFile| RecordView::Song(song_of(file.path, path, artwork, file.tags)))
}

/// The record of a directory, its tags inferred from its tagged files alone.
pub open spec fn own_directory(
    path: Seq<char>,
    parent: Option<Seq<char>>,
    artwork: Option<Seq<char>>,
    date_added: i32,
    files: Seq<TaggedFile>,
) -> DirectoryView {
    DirectoryView {
        path,
        parent,
        artist: consensus(artists(files)),
        year: consensus(years(files)),
        album: consensus(albums(files)),
        artwork,
        date_added,
    }
}

/// What a directory emits before its sub-directories are visited: its songs,
/// then its own record.
pub open spec fn own_records(pattern: Regex, parent: Option<Seq<char>>, scan: DirectoryScan) -> Seq<
    RecordView,
>
    recommends
        entry_error(scan) is None,
{
    let entries = scan.entries->0@;
    let path = scan.path->0@;
    let files = tagged_files(listed(entries));
    let artwork = artwork_of(pattern, scan);
    own_songs(path, artwork, files).push(
        RecordView::Directory(
            own_directory(path, parent, artwork, date_added_of(scan.times)->Ok_0, files),
        ),
    )
}

/// What the walk of one directory emits. A directory that cannot be indexed
/// emits nothing and fails; any other emits its own records and then what
/// its sub-directories emit, in listing order, up to the first failure.
pub open spec fn emitted(pattern: Regex, parent: Option<Seq<char>>, scan: DirectoryScan) -> Emission
    decreases scan, 0nat,
{
    match entry_error(scan) {
        Some(e) => Emission { records: Seq::empty(), error: Some(e) },
        None => {
            let entries = scan.entries->0@;
            let below = emitted_below(
                pattern,
                scan.path->0@,
                entries,
                0,
                first_unreadable(entries, 0),
            );
            Emission {
                records: own_records(pattern, parent, scan) + below.records,
                error: below.error,
            }
        },
    }
}

/// What the sub-directories among the entries from `from` up to `until`
/// emit, visited in order with `parent` as their parent, up to the first
/// failure.
pub open spec fn emitted_below(
    pattern: Regex,
    parent: Seq<char>,
    entries: Seq<ScanEntry>,
    from: int,
    until: int,
) -> Emission
    decreases entries, until - from,
{
    if from < 0 || from >= until || until > entries.len() {
        Emission { records: Seq::empty(), error: None }
    } else {
        match entries[from] {
            ScanEntry::Directory { scan, .. } => {
                let first = emitted(pattern, Some(parent), scan);
                if first.error is Some {
                    first
                } else {
                    let rest = emitted_below(pattern, parent, entries, from + 1, until);
                    Emission { records: first.records + rest.records, error: rest.error }
                }
            },
            _ => emitted_below(pattern, parent, entries, from + 1, until),
        }
    }
}

/// Every song of a directory carries the artwork located for that directory,
/// or none where none was located, and names the directory as its parent.
/// The directory's own record carries the same artwork and comes last.
pub proof fn songs_inherit_the_directory_artwork(
    pattern: Regex,
    parent: Option<Seq<char>>,
    scan: DirectoryScan,
    i: int,
)
    requires
        entry_error(scan) is None,
        0 <= i < own_records(pattern, parent, scan).len(),
    ensures
        match own_records(pattern, parent, scan)[i] {
            RecordView::Song(song) => {
                &&& song.artwork == artwork_of(pattern, scan)
                &&& song.parent == scan.path->0@
                &&& i < own_records(pattern, parent, scan).len() - 1
            },
            RecordView::Directory(directory) => {
                &&& directory.artwork == artwork_of(pattern, scan)
                &&& directory.path == scan.path->0@
                &&& directory.parent == parent
                &&& i == own_records(pattern, parent, scan).len() - 1
            },
        },
{
}

/// Whether two listings are alike at their own level: entry by entry they
/// are both unreadable or both readable, carry the same name and path and
/// are the same tagged file or both none. What lies below an entry that is
/// a sub-directory is left open.
pub open spec fn alike_at_own_level(first: Seq<ScanEntry>, second: Seq<ScanEntry>) -> bool {
    &&& first.len() == second.len()
    &&& forall|i: int|
        0 <= i < first.len() ==> {
            &&& (first[i] is Unreadable <==> second[i] is Unreadable)
            &&& text(first[i].name()) == text(second[i].name())
            &&& text(first[i].path()) == text(second[i].path())
            &&& first[i].tagged() == second[i].tagged()
        }
}

/// Listings alike at their own level yield the same tagged files.
pub(crate) proof fn lemma_alike_tagged_files(first: Seq<ScanEntry>, second: Seq<ScanEntry>, stop: int)
    requires
        alike_at_own_level(first, second),
        0 <= stop <= first.len(),
    ensures
        tagged_files(first.take(stop)) == tagged_files(second.take(stop)),
    decreases stop,
{
    if stop > 0 {
        lemma_alike_tagged_files(first, second, stop - 1);
        assert(first.take(stop).drop_last() =~= first.take(stop - 1));
        assert(second.take(stop).drop_last() =~= second.take(stop - 1));
    }
}

/// Listings alike at their own level yield the same artwork.
pub(crate) proof fn lemma_alike_artwork(
    pattern: Regex,
    first: Seq<ScanEntry>,
    second: Seq<ScanEntry>,
    from: int,
)
    requires
        alike_at_own_level(first, second),
        0 <= from,
    ensures
        artwork_from(pattern, first, from) == artwork_from(pattern, second, from),
    decreases first.len() - from,
{
    if from < first.len() {
        lemma_alike_artwork(pattern, first, second, from + 1);
    }
}

/// A directory's songs and its own record come from its own entries alone:
/// two directories alike at their own level emit the same songs and the same
/// own record, with the same inferred album, artist and year, whatever their
/// sub-directories hold. These records come first in what the walk of the
/// directory emits, before any record of a descendant.
pub proof fn own_records_ignore_descendants(
    pattern: Regex,
    parent: Option<Seq<char>>,
    first: DirectoryScan,
    second: DirectoryScan,
)
    requires
        entry_error(first) is None,
        text(first.path) == text(second.path),
        first.times == second.times,
        second.entries is Some,
        alike_at_own_level(first.entries->0@, second.entries->0@),
    ensures
        entry_error(second) is None,
        own_records(pattern, parent, first) == own_records(pattern, parent, second),
        emitted(pattern, parent, first).records.take(
            own_records(pattern, parent, first).len() as int,
        ) == own_records(pattern, parent, first),
        emitted(pattern, parent, second).records.take(
            own_records(pattern, parent, first).len() as int,
        ) == own_records(pattern, parent, first),
{
    let a = first.entries->0@;
    let b = second.entries->0@;
    lemma_listed_is_readable(a, 0);
    let stop = first_unreadable(a, 0);
    lemma_first_unreadable(b, 0, stop);
    lemma_alike_tagged_files(a, b, stop);
    lemma_alike_artwork(pattern, a, b, 0);
}

/// Patterns that match alike find the same artwork.
pub(crate) proof fn lemma_artwork_under_alike_patterns(
    first: Regex,
    second: Regex,
    entries: Seq<ScanEntry>,
    from: int,
)
    requires
        match_alike(first, second),
    ensures
        artwork_from(first, entries, from) == artwork_from(second, entries, from),
    decreases entries.len() - from,
{
    if 0 <= from < entries.len() && !(entries[from] is Unreadable) {
        lemma_artwork_under_alike_patterns(first, second, entries, from + 1);
    }
}

/// Patterns that match alike make the walk of a directory emit the same
/// records and end the same way.
pub proof fn alike_patterns_emit_alike(
    first: Regex,
    second: Regex,
    parent: Option<Seq<char>>,
    scan: DirectoryScan,
)
    requires
        match_alike(first, second),
    ensures
        emitted(first, parent, scan) == emitted(second, parent, scan),
    decreases scan, 0nat,
{
    if entry_error(scan) is None {
        let entries = scan.entries->0@;
        lemma_artwork_under_alike_patterns(first, second, entries, 0);
        lemma_emitted_below_under_alike_patterns(
            first,
            second,
            scan.path->0@,
            entries,
            0,
            first_unreadable(entries, 0),
        );
    }
}

/// Patterns that match alike make the walks of sub-directories emit the same
/// records and end the same way.
pub(crate) proof fn lemma_emitted_below_under_alike_patterns(
    first: Regex,
    second: Regex,
    parent: Seq<char>,
    entries: Seq<ScanEntry>,
    from: int,
    until: int,
)
    requires
        match_alike(first, second),
    ensures
        emitted_below(first, parent, entries, from, until) == emitted_below(
            second,
            parent,
            entries,
            from,
            until,
        ),
    decreases entries, until - from,
{
    if 0 <= from < until <= entries.len() {
        if let ScanEntry::Directory { scan, .. } = entries[from] {
            alike_patterns_emit_alike(first, second, Some(parent), scan);
        }
        lemma_emitted_below_under_alike_patterns(first, second, parent, entries, from + 1, until);
    }
}

} // verus!
