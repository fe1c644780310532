//! The index builder: it walks scanned directories, buffers the records they
//! yield and plans their insertion in batches.

use crate::aggregate::{
    aggregate_after, albums, artists, lemma_aggregate_push, lemma_field_after, years,
    TagAggregate,
};
use crate::buffers::{
    lemma_push_all_concat, lemma_push_all_keeps_settings, lemma_push_all_one, BuilderView,
};
use crate::error::IndexError;
use crate::pattern::name_is_artwork;
use crate::records::{
    clone_text, directory_views, song_views, text, NewDirectory, NewSong, RecordView,
};
use crate::scan::{date_added, listed_len, tagged_files, DirectoryScan, ScanEntry};
use crate::store::{command_views, CommandView, StoreCommand};
use crate::walk::{
    artwork_from, artwork_search, emitted, emitted_below, own_records, own_songs, parent_text,
    search_text, walk_result,
};
use regex::Regex;
use vstd::prelude::*;

verus! {

/// Insertions in each batch of a population pass.
pub const INDEX_BUILDING_INSERT_BUFFER_SIZE: usize = 1000;

/// Buffers records and plans their batched insertion.
pub struct IndexBuilder {
    new_songs: Vec<NewSong>,
    new_directories: Vec<NewDirectory>,
    capacity: usize,
    album_art_pattern: Regex,
    writes: Vec<StoreCommand>,
}

impl View for IndexBuilder {
    type V = BuilderView;

    closed spec fn view(&self) -> BuilderView {
        BuilderView {
            pattern: self.album_art_pattern,
            capacity: self.capacity as nat,
            new_songs: song_views(self.new_songs@),
            new_directories: directory_views(self.new_directories@),
            writes: command_views(self.writes@),
        }
    }
}

impl IndexBuilder {
    /// A builder with empty buffers of the given capacity and nothing
    /// written.
    pub fn new(album_art_pattern: Regex, capacity: usize) -> (builder: IndexBuilder)
        requires
            capacity >= 1,
        ensures
            builder@ == (BuilderView {
                pattern: album_art_pattern,
                capacity: capacity as nat,
                new_songs: Seq::empty(),
                new_directories: Seq::empty(),
                writes: Seq::empty(),
            }),
            builder@.well_formed(),
    {
        let builder = IndexBuilder {
            new_songs: Vec::new(),
            new_directories: Vec::new(),
            capacity,
            album_art_pattern,
            writes: Vec::new(),
        };
        assert(builder@.new_songs =~= Seq::empty());
        assert(builder@.new_directories =~= Seq::empty());
        assert(builder@.writes =~= Seq::empty());
        builder
    }

    /// Moves the buffered songs into one insert command, leaving the buffer
    /// empty.
    pub fn flush_songs(&mut self)
        ensures
            final(self)@ == old(self)@.flush_songs(),
    {
        let mut batch: Vec<NewSong> = Vec::new();
        std::mem::swap(&mut self.new_songs, &mut batch);
        let ghost before = self.writes@;
        let ghost songs = batch@;
        self.writes.push(StoreCommand::InsertSongs(batch));
        assert(self@.new_songs =~= Seq::empty());
        assert(self@.writes =~= command_views(before).push(
            CommandView::InsertSongs(song_views(songs)),
        ));
    }

    /// Moves the buffered directories into one insert command, leaving the
    /// buffer empty.
    pub fn flush_directories(&mut self)
        ensures
            final(self)@ == old(self)@.flush_directories(),
    {
        let mut batch: Vec<NewDirectory> = Vec::new();
        std::mem::swap(&mut self.new_directories, &mut batch);
        let ghost before = self.writes@;
        let ghost directories = batch@;
        self.writes.push(StoreCommand::InsertDirectories(batch));
        assert(self@.new_directories =~= Seq::empty());
        assert(self@.writes =~= command_views(before).push(
            CommandView::InsertDirectories(directory_views(directories)),
        ));
    }

    /// Buffers a song. When the buffer is full it is flushed first, so no
    /// record is dropped and the buffer never exceeds its capacity.
    pub fn push_song(&mut self, song: NewSong)
        ensures
            final(self)@ == old(self)@.push_song(song@),
            old(self)@.well_formed() ==> final(self)@.well_formed(),
    {
        if self.new_songs.len() >= self.capacity {
            self.flush_songs();
        }
        let ghost before = self.new_songs@;
        self.new_songs.push(song);
        assert(self@.new_songs =~= song_views(before).push(song@));
    }

    /// Buffers a directory. When the buffer is full it is flushed first, so
    /// no record is dropped and the buffer never exceeds its capacity.
    pub fn push_directory(&mut self, directory: NewDirectory)
        ensures
            final(self)@ == old(self)@.push_directory(directory@),
            old(self)@.well_formed() ==> final(self)@.well_formed(),
    {
        if self.new_directories.len() >= self.capacity {
            self.flush_directories();
        }
        let ghost before = self.new_directories@;
        self.new_directories.push(directory);
        assert(self@.new_directories =~= directory_views(before).push(directory@));
    }

    /// Finds the artwork of a directory among its own entries: the path of
    /// the first entry whose name matches the artwork pattern.
    #[verifier::loop_isolation(false)]
    pub fn get_artwork(&self, scan: &DirectoryScan) -> (found: Result<Option<String>, IndexError>)
        ensures
            search_text(found) == artwork_search(self@.pattern, *scan),
    {
        let entries = match &scan.entries {
            Some(entries) => entries,
            None => {
                return Err(IndexError::ListingUnavailable);
            },
        };
        let mut i: usize = 0;
        while i < entries.len()
            invariant
                i <= entries.len(),
                artwork_from(self@.pattern, entries@, i as int) == artwork_from(
                    self@.pattern,
                    entries@,
                    0,
                ),
            decreases entries.len() - i,
        {
            match &entries[i] {
                ScanEntry::Unreadable => {
                    return Err(IndexError::EntryUnreadable);
                },
                ScanEntry::File { name, path, .. } => {
                    if name_is_artwork(&self.album_art_pattern, name) {
                        return Ok(clone_text(path));
                    }
                },
                ScanEntry::Directory { name, scan: child } => {
                    if name_is_artwork(&self.album_art_pattern, name) {
                        return Ok(clone_text(&child.path));
                    }
                },
            }
            i += 1;
        }
        Ok(None)
    }

    /// Indexes one scanned directory and, after it, its sub-directories.
    ///
    /// The directory's tagged files become songs that carry the directory's
    /// artwork; the directory's own record follows, its album, artist and
    /// year inferred from those files alone; only then are the
    /// sub-directories visited, in listing order, with this directory as
    /// their parent. Entries after an unreadable one are left out. A
    /// directory without a valid path, a date of addition or a listing stops
    /// the walk.
    #[verifier::loop_isolation(false)]
    pub fn populate_directory(&mut self, parent: Option<&str>, scan: &DirectoryScan) -> (result:
        Result<(), IndexError>)
        ensures
            final(self)@ == old(self)@.push_all(
                emitted(old(self)@.pattern, parent_text(parent), *scan).records,
            ),
            result == walk_result(emitted(old(self)@.pattern, parent_text(parent), *scan).error),
        decreases scan,
    {
        let ghost start = self@;
        let ghost pattern = self@.pattern;
        let artwork = match self.get_artwork(scan) {
            Ok(found) => found,
            Err(_) => None,
        };
        let path = match &scan.path {
            Some(path) => path,
            None => {
                return Err(IndexError::InvalidDirectoryPath);
            },
        };
        let created = match date_added(&scan.times) {
            Ok(date) => date,
            Err(e) => {
                return Err(e);
            },
        };
        let entries = match &scan.entries {
            Some(entries) => entries,
            None => {
                return Err(IndexError::ListingUnavailable);
            },
        };
        let stop = listed_len(entries);
        let mut aggregate = TagAggregate::new();
        let mut i: usize = 0;
        while i < stop
            invariant
                i <= stop <= entries.len(),
                self@ == start.push_all(
                    own_songs(path@, text(artwork), tagged_files(entries@.take(i as int))),
                ),
                aggregate@ == aggregate_after(tagged_files(entries@.take(i as int))),
            decreases stop - i,
        {
            let ghost files = tagged_files(entries@.take(i as int));
            proof {
                assert(entries@.take(i + 1).drop_last() =~= entries@.take(i as int));
            }
            match &entries[i] {
                ScanEntry::File { path: Some(file_path), tags: Some(tags), .. } => {
                    aggregate.observe(tags);
                    let song = NewSong::from_tags(file_path, path, &artwork, tags);
                    self.push_song(song);
                    proof {
                        let file = entries@[i as int].tagged()->0;
                        lemma_aggregate_push(files, file);
                        assert(own_songs(path@, text(artwork), files.push(file)) =~= own_songs(
                            path@,
                            text(artwork),
                            files,
                        ).push(RecordView::Song(song@)));
                        lemma_push_all_one(
                            start,
                            own_songs(path@, text(artwork), files),
                            RecordView::Song(song@),
                        );
                    }
                },
                _ => {},
            }
            i += 1;
        }
        let ghost files = tagged_files(entries@.take(stop as int));
        let ghost songs = own_songs(path@, text(artwork), files);
        proof {
            lemma_field_after(albums(files));
            lemma_field_after(artists(files));
            lemma_field_after(years(files));
        }
        let directory = NewDirectory {
            path: path.clone(),
            parent: match parent {
                Some(p) => Some(p.to_owned()),
                None => None,
            },
            artist: aggregate.artist(),
            year: aggregate.year(),
            album: aggregate.album(),
            artwork,
            date_added: created,
        };
        let ghost own = own_records(pattern, parent_text(parent), *scan);
        proof {
            lemma_push_all_one(start, songs, RecordView::Directory(directory@));
        }
        self.push_directory(directory);
        let ghost below = emitted_below(pattern, path@, entries@, 0, stop as int);
        let ghost mut done: Seq<RecordView> = Seq::empty();
        let mut j: usize = 0;
        while j < stop
            invariant
                j <= stop <= entries.len(),
                self@ == start.push_all(own + done),
                below.records == done + emitted_below(
                    pattern,
                    path@,
                    entries@,
                    j as int,
                    stop as int,
                ).records,
                below.error == emitted_below(pattern, path@, entries@, j as int, stop as int).error,
            decreases stop - j,
        {
            if let ScanEntry::Directory { scan: child, .. } = &entries[j] {
                let ghost first = emitted(pattern, Some(path@), *child);
                proof {
                    lemma_push_all_keeps_settings(start, own + done);
                    lemma_push_all_concat(start, own + done, first.records);
                    assert(own + (done + first.records) =~= (own + done) + first.records);
                }
                match self.populate_directory(Some(path.as_str()), child) {
                    Err(e) => {
                        return Err(e);
                    },
                    Ok(()) => {
                        proof {
                            done = done + first.records;
                        }
                    },
                }
            }
            j += 1;
        }
        Ok(())
    }

    /// Hands over the commands planned so far, in the order in which they
    /// are to be carried out. Records still in the buffers are not among
    /// them.
    pub fn into_writes(self) -> (writes: Vec<StoreCommand>)
        ensures
            command_views(writes@) == self@.writes,
    {
        self.writes
    }
}

} // verus!
