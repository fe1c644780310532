//! A full update of the library index: cleanup, then population.

use crate::builder::INDEX_BUILDING_INSERT_BUFFER_SIZE;
use crate::cleanup::{
    clean, clean_deletes_exactly_the_stale, cleanup_plan, lists, stale_paths, PathStatus,
};
use crate::error::IndexError;
use crate::pattern::{compiles, matches_as};
use crate::population::{
    alike_compilations_give_the_same_plan, compiled_alike, populate_only_inserts,
    populate_outcome, populate_with,
};
use crate::scan::DirectoryScan;
use crate::store::{
    command_views, directory_path, inserted_directories, inserted_songs,
    inserts_store_their_records, lemma_apply_all_concat, lemma_records_settle, song_path,
    with_directories, with_songs, Plan, PlanView, StoreContents,
};
use regex::Regex;
use vstd::prelude::*;

verus! {

/// The plan of an update, given what compiling its pattern came to: the
/// commands of the cleanup pass, then those of the population
/// pass, whose result is the result of the update.
pub open spec fn update_outcome(
    songs: Seq<PathStatus>,
    directories: Seq<PathStatus>,
    compiled: Result<Regex, regex::Error>,
    roots: Seq<DirectoryScan>,
    capacity: nat,
) -> PlanView {
    let populated = populate_outcome(compiled, roots, capacity);
    PlanView {
        commands: cleanup_plan(songs, directories) + populated.commands,
        result: populated.result,
    }
}

/// The store after an update whose commands were all carried out.
pub open spec fn updated(
    store: StoreContents,
    songs: Seq<PathStatus>,
    directories: Seq<PathStatus>,
    compiled: Result<Regex, regex::Error>,
    roots: Seq<DirectoryScan>,
    capacity: nat,
) -> StoreContents {
    store.apply_all(update_outcome(songs, directories, compiled, roots, capacity).commands)
}

/// An update deletes the stored paths listed as stale, then inserts what the
/// population pass wrote.
pub(crate) proof fn lemma_updated(
    store: StoreContents,
    songs: Seq<PathStatus>,
    directories: Seq<PathStatus>,
    compiled: Result<Regex, regex::Error>,
    roots: Seq<DirectoryScan>,
    capacity: nat,
)
    ensures
        updated(store, songs, directories, compiled, roots, capacity) == (StoreContents {
            songs: with_songs(
                store.songs.remove_keys(stale_paths(songs)),
                inserted_songs(populate_outcome(compiled, roots, capacity).commands),
            ),
            directories: with_directories(
                store.directories.remove_keys(stale_paths(directories)),
                inserted_directories(populate_outcome(compiled, roots, capacity).commands),
            ),
        }),
{
    let cleanup = cleanup_plan(songs, directories);
    let writes = populate_outcome(compiled, roots, capacity).commands;
    if let Ok(pattern) = compiled {
        populate_only_inserts(pattern, roots, capacity);
    }
    lemma_apply_all_concat(store, cleanup, writes);
    clean_deletes_exactly_the_stale(store, songs, directories);
    inserts_store_their_records(store.apply_all(cleanup), writes);
}

/// An update depends on its pattern only through what the pattern matches:
/// compilations that came to the same give the same plan.
pub proof fn alike_compilations_give_the_same_update(
    songs: Seq<PathStatus>,
    directories: Seq<PathStatus>,
    first: Result<Regex, regex::Error>,
    second: Result<Regex, regex::Error>,
    roots: Seq<DirectoryScan>,
    capacity: nat,
)
    requires
        compiled_alike(first, second),
    ensures
        update_outcome(songs, directories, first, roots, capacity) == update_outcome(
            songs,
            directories,
            second,
            roots,
            capacity,
        ),
{
    alike_compilations_give_the_same_plan(first, second, roots, capacity);
}

/// Running an update twice on an unchanged filesystem leaves the store as
/// the first run left it: the same paths with the same records.
///
/// The filesystem is unchanged when both runs walk the same scans, when
/// compiling the pattern came to the same for both, as it does for one
/// source, and when the paths that exist and are mapped, `present`, are the
/// same for both: each run is given a listing of what the store holds at its
/// start, taken on that filesystem.
pub proof fn update_is_idempotent(
    store: StoreContents,
    present: Set<Seq<char>>,
    songs: Seq<PathStatus>,
    directories: Seq<PathStatus>,
    songs_after: Seq<PathStatus>,
    directories_after: Seq<PathStatus>,
    compiled: Result<Regex, regex::Error>,
    compiled_after: Result<Regex, regex::Error>,
    roots: Seq<DirectoryScan>,
    capacity: nat,
)
    requires
        compiled_alike(compiled, compiled_after),
        lists(songs, store.songs.dom(), present),
        lists(directories, store.directories.dom(), present),
        lists(
            songs_after,
            updated(store, songs, directories, compiled, roots, capacity).songs.dom(),
            present,
        ),
        lists(
            directories_after,
            updated(store, songs, directories, compiled, roots, capacity).directories.dom(),
            present,
        ),
    ensures
        updated(
            updated(store, songs, directories, compiled, roots, capacity),
            songs_after,
            directories_after,
            compiled_after,
            roots,
            capacity,
        ) == updated(store, songs, directories, compiled, roots, capacity),
{
    let once = updated(store, songs, directories, compiled, roots, capacity);
    let writes = populate_outcome(compiled, roots, capacity).commands;
    alike_compilations_give_the_same_update(
        songs_after,
        directories_after,
        compiled,
        compiled_after,
        roots,
        capacity,
    );
    lemma_updated(store, songs, directories, compiled, roots, capacity);
    lemma_updated(once, songs_after, directories_after, compiled, roots, capacity);
    lemma_records_settle(
        store.songs,
        stale_paths(songs),
        stale_paths(songs_after),
        present,
        inserted_songs(writes),
        song_path(),
    );
    lemma_records_settle(
        store.directories,
        stale_paths(directories),
        stale_paths(directories_after),
        present,
        inserted_directories(writes),
        directory_path(),
    );
}

/// Plans a full update, given what compiling the artwork pattern came to,
/// with buffers of the given capacity: the stale stored paths are deleted,
/// then every mount point is indexed anew, in the order given. The result is
/// that of the population pass.
pub fn update_with(
    songs: &Vec<PathStatus>,
    directories: &Vec<PathStatus>,
    compiled: Result<Regex, regex::Error>,
    mount_points: &Vec<DirectoryScan>,
    capacity: usize,
) -> (plan: Plan)
    requires
        capacity >= 1,
    ensures
        plan@ == update_outcome(songs@, directories@, compiled, mount_points@, capacity as nat),
{
    let mut commands = clean(songs, directories);
    let Plan { commands: mut writes, result } = populate_with(compiled, mount_points, capacity);
    let ghost cleanup = commands@;
    let ghost written = writes@;
    commands.append(&mut writes);
    assert(command_views(cleanup + written) =~= command_views(cleanup) + command_views(written));
    Plan { commands, result }
}

/// Plans a full update: the stale stored paths are deleted, then every mount
/// point is indexed anew, in the order given.
///
/// The cleanup pass is planned whatever the pattern. Where the pattern does
/// not compile, the update fails with `InvalidPattern` after the cleanup.
/// Where it compiles, the plan is that of `update_with` under a pattern that
/// matches as the one compiled from `album_art_pattern` does, with buffers
/// of `INDEX_BUILDING_INSERT_BUFFER_SIZE` records; by
/// `alike_compilations_give_the_same_update` there is one such plan.
pub fn update(
    songs: &Vec<PathStatus>,
    directories: &Vec<PathStatus>,
    album_art_pattern: &str,
    mount_points: &Vec<DirectoryScan>,
) -> (plan: Plan)
    ensures
        !compiles(album_art_pattern@) ==> plan@ == (PlanView {
            commands: cleanup_plan(songs@, directories@),
            result: Err(IndexError::InvalidPattern),
        }),
        compiles(album_art_pattern@) ==> exists|pattern: Regex|
            matches_as(pattern, album_art_pattern@) && plan@ == update_outcome(
                songs@,
                directories@,
                Ok(pattern),
                mount_points@,
                INDEX_BUILDING_INSERT_BUFFER_SIZE as nat,
            ),
{
    let compiled = Regex::new(album_art_pattern);
    assert(compiled is Ok ==> matches_as(compiled->Ok_0, album_art_pattern@));
    let plan = update_with(
        songs,
        directories,
        compiled,
        mount_points,
        INDEX_BUILDING_INSERT_BUFFER_SIZE,
    );
    assert(compiled is Err ==> plan@.commands =~= cleanup_plan(songs@, directories@));
    plan
}

} // verus!
