//! Records written to the library store and the tags they are built from.

use vstd::prelude::*;

verus! {

/// Tags extracted from one media file. Any field may be absent.
#[derive(Debug, Clone, PartialEq, Eq)]
pub struct Tags {
    pub disc_number: Option<u32>,
    pub track_number: Option<u32>,
    pub title: Option<String>,
    pub duration: Option<u32>,
    pub artist: Option<String>,
    pub album_artist: Option<String>,
    pub album: Option<String>,
    pub year: Option<i32>,
}

/// A file-level record, identified by `path`.
#[derive(Debug, Clone, PartialEq, Eq)]
pub struct NewSong {
    pub path: String,
    pub parent: String,
    pub track_number: Option<i32>,
    pub disc_number: Option<i32>,
    pub title: Option<String>,
    pub artist: Option<String>,
    pub album_artist: Option<String>,
    pub year: Option<i32>,
    pub album: Option<String>,
    pub artwork: Option<String>,
    pub duration: Option<i32>,
}

/// A directory-level record, identified by `path`. `parent` is absent for
/// the root of a mount point.
#[derive(Debug, Clone, PartialEq, Eq)]
pub struct NewDirectory {
    pub path: String,
    pub parent: Option<String>,
    pub artist: Option<String>,
    pub year: Option<i32>,
    pub album: Option<String>,
    pub artwork: Option<String>,
    pub date_added: i32,
}

/// What a song record says, with every string taken as its characters.
pub struct SongView {
    pub path: Seq<char>,
    pub parent: Seq<char>,
    pub track_number: Option<i32>,
    pub disc_number: Option<i32>,
    pub title: Option<Seq<char>>,
    pub artist: Option<Seq<char>>,
    pub album_artist: Option<Seq<char>>,
    pub year: Option<i32>,
    pub album: Option<Seq<char>>,
    pub artwork: Option<Seq<char>>,
    pub duration: Option<i32>,
}

/// What a directory record says, with every string taken as its characters.
pub struct DirectoryView {
    pub path: Seq<char>,
    pub parent: Option<Seq<char>>,
    pub artist: Option<Seq<char>>,
    pub year: Option<i32>,
    pub album: Option<Seq<char>>,
    pub artwork: Option<Seq<char>>,
    pub date_added: i32,
}

/// A record on its way to the store.
pub enum RecordView {
    Song(SongView),
    Directory(DirectoryView),
}

/// The characters of an optional string.
pub open spec fn text(value: Option<String>) -> Option<Seq<char>> {
    match value {
        Some(s) => Some(s@),
        None => None,
    }
}

/// A tag number as the store holds it: the same 32 bits read as signed.
pub open spec fn stored_number(value: Option<u32>) -> Option<i32> {
    match value {
        Some(n) => Some(n as i32),
        None => None,
    }
}

impl View for NewSong {
    type V = SongView;

    open spec fn view(&self) -> SongView {
        SongView {
            path: self.path@,
            parent: self.parent@,
            track_number: self.track_number,
            disc_number: self.disc_number,
            title: text(self.title),
            artist: text(self.artist),
            album_artist: text(self.album_artist),
            year: self.year,
            album: text(self.album),
            artwork: text(self.artwork),
            duration: self.duration,
        }
    }
}

impl View for NewDirectory {
    type V = DirectoryView;

    open spec fn view(&self) -> DirectoryView {
        DirectoryView {
            path: self.path@,
            parent: text(self.parent),
            artist: text(self.artist),
            year: self.year,
            album: text(self.album),
            artwork: text(self.artwork),
            date_added: self.date_added,
        }
    }
}

/// The views of a sequence of song records, in order.
pub open spec fn song_views(songs: Seq<NewSong>) -> Seq<SongView> {
    songs.map_values(|song: NewSong| song@)
}

/// The views of a sequence of directory records, in order.
pub open spec fn directory_views(directories: Seq<NewDirectory>) -> Seq<DirectoryView> {
    directories.map_values(|directory: NewDirectory| directory@)
}

/// The characters of each string of a sequence, in order.
pub open spec fn texts(strings: Seq<String>) -> Seq<Seq<char>> {
    strings.map_values(|s: String| s@)
}

/// The song record of a tagged file at `path` in the directory `parent`,
/// whose located artwork is `artwork`.
pub open spec fn song_of(
    path: Seq<char>,
    parent: Seq<char>,
    artwork: Option<Seq<char>>,
    tags: Tags,
) -> SongView {
    SongView {
        path,
        parent,
        track_number: stored_number(tags.track_number),
        disc_number: stored_number(tags.disc_number),
        title: text(tags.title),
        artist: text(tags.artist),
        album_artist: text(tags.album_artist),
        year: tags.year,
        album: text(tags.album),
        artwork,
        duration: stored_number(tags.duration),
    }
}

/// Copies an optional string.
pub(crate) fn clone_text(value: &Option<String>) -> (copy: Option<String>)
    ensures
        text(copy) == text(*value),
{
    match value {
        Some(s) => Some(s.clone()),
        None => None,
    }
}

/// Whether two optional strings hold the same characters, or are both absent.
pub(crate) fn same_text(left: &Option<String>, right: &Option<String>) -> (same: bool)
    ensures
        same == (text(*left) == text(*right)),
{
    match (left, right) {
        (Some(a), Some(b)) => *a == *b,
        (None, None) => true,
        _ => false,
    }
}

/// Reads the 32 bits of an optional tag number as a signed number.
pub(crate) fn to_stored_number(value: Option<u32>) -> (stored: Option<i32>)
    ensures
        stored == stored_number(value),
{
    match value {
        Some(n) => Some(#[verifier::truncate] (n as i32)),
        None => None,
    }
}

impl NewSong {
    /// Builds the record of a tagged file: the file's own tags, the directory
    /// that holds it, and that directory's artwork.
    pub fn from_tags(path: &String, parent: &String, artwork: &Option<String>, tags: &Tags) -> (song:
        NewSong)
        ensures
            song@ == song_of(path@, parent@, text(*artwork), *tags),
    {
        NewSong {
            path: path.clone(),
            parent: parent.clone(),
            track_number: to_stored_number(tags.track_number),
            disc_number: to_stored_number(tags.disc_number),
            title: clone_text(&tags.title),
            artist: clone_text(&tags.artist),
            album_artist: clone_text(&tags.album_artist),
            year: tags.year,
            album: clone_text(&tags.album),
            artwork: clone_text(artwork),
            duration: to_stored_number(tags.duration),
        }
    }
}

} // verus!
