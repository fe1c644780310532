//! The two record buffers of an index builder as a mathematical model:
//! songs and directories wait in a buffer of fixed capacity each, and a
//! buffer that is full is written out as one batch before the next record
//! goes in.

use crate::records::{DirectoryView, RecordView, SongView};
use crate::store::{inserted_directories, inserted_songs, only_inserts, CommandView};
use regex::Regex;
use vstd::prelude::*;

verus! {

/// The state of an index builder: its pattern, the capacity of each buffer,
/// the records that wait in the buffers and the batches written out so far.
pub struct BuilderView {
    pub pattern: Regex,
    pub capacity: nat,
    pub new_songs: Seq<SongView>,
    pub new_directories: Seq<DirectoryView>,
    pub writes: Seq<CommandView>,
}

impl BuilderView {
    /// Writes the buffered songs out as one batch and empties the buffer.
    pub open spec fn flush_songs(self) -> BuilderView {
        BuilderView {
            new_songs: Seq::empty(),
            writes: self.writes.push(CommandView::InsertSongs(self.new_songs)),
            ..self
        }
    }

    /// Writes the buffered directories out as one batch and empties the
    /// buffer.
    pub open spec fn flush_directories(self) -> BuilderView {
        BuilderView {
            new_directories: Seq::empty(),
            writes: self.writes.push(CommandView::InsertDirectories(self.new_directories)),
            ..self
        }
    }

    /// Buffers a song; a buffer that is full is written out first.
    pub open spec fn push_song(self, song: SongView) -> BuilderView {
        let ready = if self.new_songs.len() >= self.capacity {
            self.flush_songs()
        } else {
            self
        };
        BuilderView { new_songs: ready.new_songs.push(song), ..ready }
    }

    /// Buffers a directory; a buffer that is full is written out first.
    pub open spec fn push_directory(self, directory: DirectoryView) -> BuilderView {
        let ready = if self.new_directories.len() >= self.capacity {
            self.flush_directories()
        } else {
            self
        };
        BuilderView { new_directories: ready.new_directories.push(directory), ..ready }
    }

    /// Buffers one record of either kind.
    pub open spec fn push(self, record: RecordView) -> BuilderView {
        match record {
            RecordView::Song(song) => self.push_song(song),
            RecordView::Directory(directory) => self.push_directory(directory),
        }
    }

    /// Buffers the given records one after the other.
    pub open spec fn push_all(self, records: Seq<RecordView>) -> BuilderView
        decreases records.len(),
    {
        if records.len() == 0 {
            self
        } else {
            self.push_all(records.drop_last()).push(records.last())
        }
    }

    /// The songs taken in so far, written out or still buffered, in order.
    pub open spec fn taken_songs(self) -> Seq<SongView> {
        inserted_songs(self.writes) + self.new_songs
    }

    /// The directories taken in so far, written out or still buffered, in
    /// order.
    pub open spec fn taken_directories(self) -> Seq<DirectoryView> {
        inserted_directories(self.writes) + self.new_directories
    }

    /// No buffer holds more than its capacity, which is at least one.
    pub open spec fn well_formed(self) -> bool {
        &&& self.capacity >= 1
        &&& self.new_songs.len() <= self.capacity
        &&& self.new_directories.len() <= self.capacity
    }
}

/// Buffering one more record after some others is buffering them all.
pub(crate) proof fn lemma_push_all_one(builder: BuilderView, records: Seq<RecordView>, record: RecordView)
    ensures
        builder.push_all(records.push(record)) == builder.push_all(records).push(record),
{
    assert(records.push(record).drop_last() =~= records);
}

/// Buffering two runs of records one after the other is buffering their
/// concatenation.
pub(crate) proof fn lemma_push_all_concat(
    builder: BuilderView,
    first: Seq<RecordView>,
    second: Seq<RecordView>,
)
    ensures
        builder.push_all(first + second) == builder.push_all(first).push_all(second),
    decreases second.len(),
{
    if second.len() > 0 {
        lemma_push_all_concat(builder, first, second.drop_last());
        assert((first + second).drop_last() =~= first + second.drop_last());
    }
}

/// Buffering records changes neither the pattern nor the capacity.
pub(crate) proof fn lemma_push_all_keeps_settings(builder: BuilderView, records: Seq<RecordView>)
    ensures
        builder.push_all(records).pattern == builder.pattern,
        builder.push_all(records).capacity == builder.capacity,
    decreases records.len(),
{
    if records.len() > 0 {
        lemma_push_all_keeps_settings(builder, records.drop_last());
    }
}

/// The pattern a builder holds does not enter the buffering: with another
/// pattern the same records are buffered and the same batches written.
pub(crate) proof fn lemma_push_all_ignores_pattern(
    builder: BuilderView,
    pattern: Regex,
    records: Seq<RecordView>,
)
    ensures
        (BuilderView { pattern, ..builder }).push_all(records) == (BuilderView {
            pattern,
            ..builder.push_all(records)
        }),
    decreases records.len(),
{
    if records.len() > 0 {
        lemma_push_all_ignores_pattern(builder, pattern, records.drop_last());
    }
}

/// The songs among the given records, in order.
pub open spec fn songs_among(records: Seq<RecordView>) -> Seq<SongView>
    decreases records.len(),
{
    if records.len() == 0 {
        Seq::empty()
    } else {
        let before = songs_among(records.drop_last());
        match records.last() {
            RecordView::Song(song) => before.push(song),
            RecordView::Directory(_) => before,
        }
    }
}

/// The directories among the given records, in order.
pub open spec fn directories_among(records: Seq<RecordView>) -> Seq<DirectoryView>
    decreases records.len(),
{
    if records.len() == 0 {
        Seq::empty()
    } else {
        let before = directories_among(records.drop_last());
        match records.last() {
            RecordView::Song(_) => before,
            RecordView::Directory(directory) => before.push(directory),
        }
    }
}

/// A flush moves records from a buffer to the written batches: what the
/// builder has taken in stays the same, and the buffer is empty.
pub proof fn flush_keeps_every_record(builder: BuilderView)
    requires
        only_inserts(builder.writes),
    ensures
        builder.flush_songs().taken_songs() == builder.taken_songs(),
        builder.flush_songs().taken_directories() == builder.taken_directories(),
        builder.flush_songs().new_songs.len() == 0,
        only_inserts(builder.flush_songs().writes),
        builder.flush_directories().taken_songs() == builder.taken_songs(),
        builder.flush_directories().taken_directories() == builder.taken_directories(),
        builder.flush_directories().new_directories.len() == 0,
        only_inserts(builder.flush_directories().writes),
{
    assert(builder.flush_songs().writes.drop_last() =~= builder.writes);
    assert(builder.flush_directories().writes.drop_last() =~= builder.writes);
}

/// A push takes in exactly the record pushed, whatever the capacity: no
/// record is dropped or taken in twice, and the order is kept. A buffer
/// within its capacity stays within it.
pub proof fn push_takes_in_one_record(builder: BuilderView, record: RecordView)
    requires
        only_inserts(builder.writes),
    ensures
        only_inserts(builder.push(record).writes),
        match record {
            RecordView::Song(song) => {
                &&& builder.push(record).taken_songs() == builder.taken_songs().push(song)
                &&& builder.push(record).taken_directories() == builder.taken_directories()
            },
            RecordView::Directory(directory) => {
                &&& builder.push(record).taken_songs() == builder.taken_songs()
                &&& builder.push(record).taken_directories() == builder.taken_directories().push(
                    directory,
                )
            },
        },
        builder.well_formed() ==> builder.push(record).well_formed(),
{
    flush_keeps_every_record(builder);
}

/// Pushing a run of records takes in exactly those records, in order,
/// whatever the capacity of the buffers.
pub proof fn push_all_takes_in_every_record(builder: BuilderView, records: Seq<RecordView>)
    requires
        only_inserts(builder.writes),
    ensures
        only_inserts(builder.push_all(records).writes),
        builder.push_all(records).taken_songs() == builder.taken_songs() + songs_among(records),
        builder.push_all(records).taken_directories() == builder.taken_directories()
            + directories_among(records),
        builder.well_formed() ==> builder.push_all(records).well_formed(),
    decreases records.len(),
{
    if records.len() > 0 {
        let front = records.drop_last();
        push_all_takes_in_every_record(builder, front);
        push_takes_in_one_record(builder.push_all(front), records.last());
    }
}

} // verus!
