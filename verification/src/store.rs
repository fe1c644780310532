//! Writes to the library store, as values: the engine plans them, its caller
//! carries them out in order.

use crate::error::IndexError;
use crate::records::{
    directory_views, song_views, texts, DirectoryView, NewDirectory, NewSong, SongView,
};
use vstd::prelude::*;

verus! {

/// One batched write. Each is carried out as a whole or not at all.
#[derive(Debug, Clone, PartialEq, Eq)]
pub enum StoreCommand {
    /// Insert these song records.
    InsertSongs(Vec<NewSong>),
    /// Insert these directory records.
    InsertDirectories(Vec<NewDirectory>),
    /// Delete the song records stored under these paths.
    DeleteSongs(Vec<String>),
    /// Delete the directory records stored under these paths.
    DeleteDirectories(Vec<String>),
}

/// What a command says, with its records and paths taken by their views.
pub enum CommandView {
    InsertSongs(Seq<SongView>),
    InsertDirectories(Seq<DirectoryView>),
    DeleteSongs(Seq<Seq<char>>),
    DeleteDirectories(Seq<Seq<char>>),
}

impl View for StoreCommand {
    type V = CommandView;

    open spec fn view(&self) -> CommandView {
        match self {
            StoreCommand::InsertSongs(songs) => CommandView::InsertSongs(song_views(songs@)),
            StoreCommand::InsertDirectories(directories) => CommandView::InsertDirectories(
                directory_views(directories@),
            ),
            StoreCommand::DeleteSongs(paths) => CommandView::DeleteSongs(texts(paths@)),
            StoreCommand::DeleteDirectories(paths) => CommandView::DeleteDirectories(texts(paths@)),
        }
    }
}

/// The views of a sequence of commands, in order.
pub open spec fn command_views(commands: Seq<StoreCommand>) -> Seq<CommandView> {
    commands.map_values(|command: StoreCommand| command@)
}

/// The store as the engine sees it: one record under each stored path. This
/// is a store that keeps `path` unique in each table, so that a record
/// written under a stored path takes the place of the stored one.
pub struct StoreContents {
    pub songs: Map<Seq<char>, SongView>,
    pub directories: Map<Seq<char>, DirectoryView>,
}

/// The path a song is stored under.
pub open spec fn song_path() -> spec_fn(SongView) -> Seq<char> {
    |song: SongView| song.path
}

/// The path a directory is stored under.
pub open spec fn directory_path() -> spec_fn(DirectoryView) -> Seq<char> {
    |directory: DirectoryView| directory.path
}

/// The songs a command inserts, if it inserts songs.
pub open spec fn song_batch() -> spec_fn(CommandView) -> Option<Seq<SongView>> {
    |command: CommandView|
        match command {
            CommandView::InsertSongs(songs) => Some(songs),
            _ => None,
        }
}

/// The directories a command inserts, if it inserts directories.
pub open spec fn directory_batch() -> spec_fn(CommandView) -> Option<Seq<DirectoryView>> {
    |command: CommandView|
        match command {
            CommandView::InsertDirectories(directories) => Some(directories),
            _ => None,
        }
}

/// A table after the given records are inserted in order, each under the
/// path that `path_of` gives it. A record inserted under a path that is
/// already stored takes the place of the one stored there.
pub open spec fn with_records<R>(
    stored: Map<Seq<char>, R>,
    records: Seq<R>,
    path_of: spec_fn(R) -> Seq<char>,
) -> Map<Seq<char>, R>
    decreases records.len(),
{
    if records.len() == 0 {
        stored
    } else {
        with_records(stored, records.drop_last(), path_of).insert(
            path_of(records.last()),
            records.last(),
        )
    }
}

/// The stored songs after the given ones are inserted in order. A song
/// inserted under a path that is already stored takes the place of the one
/// stored there.
pub open spec fn with_songs(stored: Map<Seq<char>, SongView>, songs: Seq<SongView>) -> Map<
    Seq<char>,
    SongView,
> {
    with_records(stored, songs, song_path())
}

/// The stored directories after the given ones are inserted in order. A
/// directory inserted under a path that is already stored takes the place of
/// the one stored there.
pub open spec fn with_directories(
    stored: Map<Seq<char>, DirectoryView>,
    directories: Seq<DirectoryView>,
) -> Map<Seq<char>, DirectoryView> {
    with_records(stored, directories, directory_path())
}

impl StoreContents {
    /// The store after one command.
    pub open spec fn apply(self, command: CommandView) -> StoreContents {
        match command {
            CommandView::InsertSongs(songs) => StoreContents {
                songs: with_songs(self.songs, songs),
                ..self
            },
            CommandView::InsertDirectories(directories) => StoreContents {
                directories: with_directories(self.directories, directories),
                ..self
            },
            CommandView::DeleteSongs(paths) => StoreContents {
                songs: self.songs.remove_keys(paths.to_set()),
                ..self
            },
            CommandView::DeleteDirectories(paths) => StoreContents {
                directories: self.directories.remove_keys(paths.to_set()),
                ..self
            },
        }
    }

    /// The store after the given commands, carried out in order.
    pub open spec fn apply_all(self, commands: Seq<CommandView>) -> StoreContents
        decreases commands.len(),
    {
        if commands.len() == 0 {
            self
        } else {
            self.apply_all(commands.drop_last()).apply(commands.last())
        }
    }
}

/// The records that the commands hold which `batch_of` picks, in order.
pub open spec fn inserted<R>(
    commands: Seq<CommandView>,
    batch_of: spec_fn(CommandView) -> Option<Seq<R>>,
) -> Seq<R>
    decreases commands.len(),
{
    if commands.len() == 0 {
        Seq::empty()
    } else {
        let before = inserted(commands.drop_last(), batch_of);
        match batch_of(commands.last()) {
            Some(records) => before + records,
            None => before,
        }
    }
}

/// The songs that the insert commands among `commands` hold, in order.
pub open spec fn inserted_songs(commands: Seq<CommandView>) -> Seq<SongView> {
    inserted(commands, song_batch())
}

/// The directories that the insert commands among `commands` hold, in order.
pub open spec fn inserted_directories(commands: Seq<CommandView>) -> Seq<DirectoryView> {
    inserted(commands, directory_batch())
}

/// Whether every command inserts.
pub open spec fn only_inserts(commands: Seq<CommandView>) -> bool {
    forall|i: int|
        0 <= i < commands.len() ==> commands[i] is InsertSongs || commands[i] is InsertDirectories
}

/// Carrying out two runs of commands one after the other is carrying out
/// their concatenation.
pub(crate) proof fn lemma_apply_all_concat(
    store: StoreContents,
    first: Seq<CommandView>,
    second: Seq<CommandView>,
)
    ensures
        store.apply_all(first + second) == store.apply_all(first).apply_all(second),
    decreases second.len(),
{
    if second.len() > 0 {
        lemma_apply_all_concat(store, first, second.drop_last());
        assert((first + second).drop_last() =~= first + second.drop_last());
    }
}

/// Inserting two runs of records one after the other is inserting their
/// concatenation.
pub(crate) proof fn lemma_with_records_concat<R>(
    stored: Map<Seq<char>, R>,
    first: Seq<R>,
    second: Seq<R>,
    path_of: spec_fn(R) -> Seq<char>,
)
    ensures
        with_records(stored, first + second, path_of) == with_records(
            with_records(stored, first, path_of),
            second,
            path_of,
        ),
    decreases second.len(),
{
    if second.len() > 0 {
        lemma_with_records_concat(stored, first, second.drop_last(), path_of);
        assert((first + second).drop_last() =~= first + second.drop_last());
    }
}

/// What insert commands leave in the store depends on the records they hold
/// and on their order alone, not on how the records are split into batches.
pub proof fn inserts_store_their_records(store: StoreContents, commands: Seq<CommandView>)
    requires
        only_inserts(commands),
    ensures
        store.apply_all(commands) == (StoreContents {
            songs: with_songs(store.songs, inserted_songs(commands)),
            directories: with_directories(store.directories, inserted_directories(commands)),
        }),
    decreases commands.len(),
{
    if commands.len() > 0 {
        let front = commands.drop_last();
        assert forall|i: int| 0 <= i < front.len() implies front[i] is InsertSongs
            || front[i] is InsertDirectories by {
            assert(front[i] == commands[i]);
        }
        inserts_store_their_records(store, front);
        match commands.last() {
            CommandView::InsertSongs(songs) => {
                lemma_with_records_concat(store.songs, inserted_songs(front), songs, song_path());
            },
            CommandView::InsertDirectories(directories) => {
                lemma_with_records_concat(
                    store.directories,
                    inserted_directories(front),
                    directories,
                    directory_path(),
                );
            },
            _ => {},
        }
    }
}

/// Whether one of the records is stored under `path`.
pub open spec fn has_record_at<R>(
    records: Seq<R>,
    path_of: spec_fn(R) -> Seq<char>,
    path: Seq<char>,
) -> bool {
    exists|i: int| 0 <= i < records.len() && path_of(records[i]) == path
}

/// After an insertion a table holds the paths it held and the paths of the
/// inserted records; under a path that no inserted record has, the record is
/// the one stored before.
pub(crate) proof fn lemma_with_records_keeps<R>(
    stored: Map<Seq<char>, R>,
    records: Seq<R>,
    path_of: spec_fn(R) -> Seq<char>,
    path: Seq<char>,
)
    ensures
        with_records(stored, records, path_of).contains_key(path) <==> stored.contains_key(path)
            || has_record_at(records, path_of, path),
        !has_record_at(records, path_of, path) ==> with_records(stored, records, path_of)[path]
            == stored[path],
    decreases records.len(),
{
    if records.len() > 0 {
        let front = records.drop_last();
        lemma_with_records_keeps(stored, front, path_of, path);
        if has_record_at(front, path_of, path) {
            let i = choose|i: int| 0 <= i < front.len() && path_of(front[i]) == path;
            assert(path_of(records[i]) == path);
        }
        if has_record_at(records, path_of, path) && path_of(records.last()) != path {
            let i = choose|i: int| 0 <= i < records.len() && path_of(records[i]) == path;
            assert(path_of(front[i]) == path);
        }
    }
}

/// Under the path of an inserted record a table holds what the insertion
/// put there, whatever it held before.
pub(crate) proof fn lemma_with_records_replaces<R>(
    first: Map<Seq<char>, R>,
    second: Map<Seq<char>, R>,
    records: Seq<R>,
    path_of: spec_fn(R) -> Seq<char>,
    path: Seq<char>,
)
    requires
        has_record_at(records, path_of, path),
    ensures
        with_records(first, records, path_of)[path] == with_records(second, records, path_of)[path],
    decreases records.len(),
{
    let front = records.drop_last();
    if path_of(records.last()) != path {
        let i = choose|i: int| 0 <= i < records.len() && path_of(records[i]) == path;
        assert(path_of(front[i]) == path);
        lemma_with_records_replaces(first, second, front, path_of, path);
    }
}

/// Deleting what is not present and inserting the same records a second time
/// changes nothing.
pub(crate) proof fn lemma_records_settle<R>(
    before: Map<Seq<char>, R>,
    stale: Set<Seq<char>>,
    stale_after: Set<Seq<char>>,
    present: Set<Seq<char>>,
    records: Seq<R>,
    path_of: spec_fn(R) -> Seq<char>,
)
    requires
        forall|path: Seq<char>|
            before.contains_key(path) ==> (stale.contains(path) <==> !present.contains(path)),
        forall|path: Seq<char>|
            with_records(before.remove_keys(stale), records, path_of).contains_key(path) ==> (
            stale_after.contains(path) <==> !present.contains(path)),
    ensures
        with_records(
            with_records(before.remove_keys(stale), records, path_of).remove_keys(stale_after),
            records,
            path_of,
        ) == with_records(before.remove_keys(stale), records, path_of),
{
    let cleaned = before.remove_keys(stale);
    let once = with_records(cleaned, records, path_of);
    let cleaned_again = once.remove_keys(stale_after);
    let twice = with_records(cleaned_again, records, path_of);
    assert forall|path: Seq<char>| #![auto]
        twice.dom().contains(path) == once.dom().contains(path) by {
        lemma_with_records_keeps(cleaned, records, path_of, path);
        lemma_with_records_keeps(cleaned_again, records, path_of, path);
    }
    assert forall|path: Seq<char>| once.dom().contains(path) implies #[trigger] twice[path]
        == once[path] by {
        lemma_with_records_keeps(cleaned_again, records, path_of, path);
        if has_record_at(records, path_of, path) {
            lemma_with_records_replaces(cleaned, cleaned_again, records, path_of, path);
        }
    }
}

/// What an operation asks of the store and how it ended. The commands are to
/// be carried out in order, up to the first that the store refuses, also
/// when the operation failed: they are what it had written by then.
#[derive(Debug, PartialEq, Eq)]
pub struct Plan {
    pub commands: Vec<StoreCommand>,
    pub result: Result<(), IndexError>,
}

/// What a plan says, with its commands taken by their views.
pub struct PlanView {
    pub commands: Seq<CommandView>,
    pub result: Result<(), IndexError>,
}

impl View for Plan {
    type V = PlanView;

    open spec fn view(&self) -> PlanView {
        PlanView { commands: command_views(self.commands@), result: self.result }
    }
}

} // verus!
