//! The cleanup pass: stored paths that no longer exist, or that the virtual
//! filesystem no longer maps, are deleted in chunks of bounded size.

use crate::records::texts;
use crate::store::{command_views, lemma_apply_all_concat, CommandView, StoreCommand, StoreContents};
use vstd::prelude::*;

verus! {

/// Deletions in each batch of a cleanup pass.
pub const INDEX_BUILDING_CLEAN_BUFFER_SIZE: usize = 500;

/// A stored path and what was found of it.
#[derive(Debug, Clone, PartialEq, Eq)]
pub struct PathStatus {
    /// The path as the store holds it.
    pub path: String,
    /// Whether the path exists on disk.
    pub exists: bool,
    /// Whether the virtual filesystem maps the path.
    pub mapped: bool,
}

/// The table a path is stored in.
#[derive(Debug, Clone, Copy, PartialEq, Eq, Structural)]
pub enum RecordKind {
    Song,
    Directory,
}

impl PathStatus {
    /// A path is stale when it does not exist on disk or is not mapped.
    pub open spec fn is_missing(self) -> bool {
        !self.exists || !self.mapped
    }
}

/// The stale paths among the stored ones, in order.
pub open spec fn missing_paths(stored: Seq<PathStatus>) -> Seq<Seq<char>>
    decreases stored.len(),
{
    if stored.len() == 0 {
        Seq::empty()
    } else {
        let before = missing_paths(stored.drop_last());
        if stored.last().is_missing() {
            before.push(stored.last().path@)
        } else {
            before
        }
    }
}

/// The command that deletes the given paths from the table of `kind`.
pub open spec fn delete_command(kind: RecordKind, paths: Seq<Seq<char>>) -> CommandView {
    match kind {
        RecordKind::Song => CommandView::DeleteSongs(paths),
        RecordKind::Directory => CommandView::DeleteDirectories(paths),
    }
}

/// The commands that delete `paths` in chunks: each command takes the next
/// `size` paths, the last one what is left. No paths, no command.
pub open spec fn delete_commands(kind: RecordKind, paths: Seq<Seq<char>>, size: nat) -> Seq<
    CommandView,
>
    decreases paths.len(),
{
    if paths.len() == 0 || size == 0 {
        Seq::empty()
    } else if paths.len() <= size {
        seq![delete_command(kind, paths)]
    } else {
        seq![delete_command(kind, paths.take(size as int))] + delete_commands(
            kind,
            paths.skip(size as int),
            size,
        )
    }
}

/// The commands of a cleanup pass: the stale songs are deleted first, then
/// the stale directories.
pub open spec fn cleanup_plan(songs: Seq<PathStatus>, directories: Seq<PathStatus>) -> Seq<
    CommandView,
> {
    delete_commands(
        RecordKind::Song,
        missing_paths(songs),
        INDEX_BUILDING_CLEAN_BUFFER_SIZE as nat,
    ) + delete_commands(
        RecordKind::Directory,
        missing_paths(directories),
        INDEX_BUILDING_CLEAN_BUFFER_SIZE as nat,
    )
}

/// Whether `path` is listed with a status that makes it stale.
pub open spec fn is_stale(stored: Seq<PathStatus>, path: Seq<char>) -> bool {
    exists|i: int| 0 <= i < stored.len() && stored[i].path@ == path && stored[i].is_missing()
}

/// The paths that are listed as stale.
pub open spec fn stale_paths(stored: Seq<PathStatus>) -> Set<Seq<char>> {
    Set::new(|path: Seq<char>| is_stale(stored, path))
}

/// The store after the paths are deleted from the table of `kind`.
pub open spec fn without_paths(store: StoreContents, kind: RecordKind, paths: Set<Seq<char>>) -> StoreContents {
    match kind {
        RecordKind::Song => StoreContents { songs: store.songs.remove_keys(paths), ..store },
        RecordKind::Directory => StoreContents {
            directories: store.directories.remove_keys(paths),
            ..store
        },
    }
}

/// Whether `stored` is a listing of the paths in `paths`, taken on a
/// filesystem on which exactly the paths in `present` exist and are mapped:
/// every path of `paths` is listed, and a listed path is stale exactly when
/// it is not present.
pub open spec fn lists(stored: Seq<PathStatus>, paths: Set<Seq<char>>, present: Set<Seq<char>>) -> bool {
    &&& forall|path: Seq<char>|
        paths.contains(path) ==> exists|i: int| 0 <= i < stored.len() && stored[i].path@ == path
    &&& forall|i: int|
        0 <= i < stored.len() ==> (stored[i].is_missing() <==> !present.contains(stored[i].path@))
}

/// The stale paths that the pass collects are the paths listed as stale.
pub(crate) proof fn lemma_missing_paths(stored: Seq<PathStatus>)
    ensures
        missing_paths(stored).to_set() == stale_paths(stored),
    decreases stored.len(),
{
    if stored.len() > 0 {
        let front = stored.drop_last();
        let before = missing_paths(front);
        let all = missing_paths(stored);
        lemma_missing_paths(front);
        assert forall|path: Seq<char>| all.to_set().contains(path) <==> stale_paths(
            stored,
        ).contains(path) by {
            if all.contains(path) {
                let k = choose|k: int| 0 <= k < all.len() && all[k] == path;
                if k < before.len() {
                    assert(before.to_set().contains(path));
                    let i = choose|i: int|
                        0 <= i < front.len() && front[i].path@ == path && front[i].is_missing();
                    assert(stored[i].path@ == path);
                }
            }
            if is_stale(stored, path) {
                let i = choose|i: int|
                    0 <= i < stored.len() && stored[i].path@ == path && stored[i].is_missing();
                if i == stored.len() - 1 {
                    assert(all[before.len() as int] == path);
                } else {
                    assert(front[i].path@ == path && front[i].is_missing());
                    assert(before.to_set().contains(path));
                    let k = choose|k: int| 0 <= k < before.len() && before[k] == path;
                    assert(all[k] == path);
                }
            }
        }
    }
}

/// Deleting paths in chunks deletes exactly those paths, whatever the size
/// of the chunks, and leaves every other record as it was.
pub(crate) proof fn lemma_delete_commands(
    store: StoreContents,
    kind: RecordKind,
    paths: Seq<Seq<char>>,
    size: nat,
)
    requires
        size >= 1,
    ensures
        store.apply_all(delete_commands(kind, paths, size)) == without_paths(
            store,
            kind,
            paths.to_set(),
        ),
    decreases paths.len(),
{
    let after = without_paths(store, kind, paths.to_set());
    if paths.len() == 0 {
        assert(after.songs =~= store.songs);
        assert(after.directories =~= store.directories);
    } else if paths.len() <= size {
        let command = delete_command(kind, paths);
        assert(seq![command].drop_last() =~= Seq::<CommandView>::empty());
        assert(store.apply_all(Seq::<CommandView>::empty()) == store);
    } else {
        let head = paths.take(size as int);
        let tail = paths.skip(size as int);
        let command = delete_command(kind, head);
        assert(seq![command].drop_last() =~= Seq::<CommandView>::empty());
        assert(store.apply_all(Seq::<CommandView>::empty()) == store);
        lemma_apply_all_concat(store, seq![command], delete_commands(kind, tail, size));
        lemma_delete_commands(store.apply(command), kind, tail, size);
        assert forall|path: Seq<char>|
            paths.to_set().contains(path) <==> head.to_set().contains(path)
                || tail.to_set().contains(path) by {
            if paths.contains(path) {
                let i = choose|i: int| 0 <= i < paths.len() && paths[i] == path;
                if i < size {
                    assert(head[i] == path);
                } else {
                    assert(tail[i - size] == path);
                }
            }
            if head.contains(path) {
                let i = choose|i: int| 0 <= i < head.len() && head[i] == path;
                assert(paths[i] == path);
            }
            if tail.contains(path) {
                let i = choose|i: int| 0 <= i < tail.len() && tail[i] == path;
                assert(paths[i + size] == path);
            }
        }
        let stepwise = without_paths(store.apply(command), kind, tail.to_set());
        assert(stepwise.songs =~= after.songs);
        assert(stepwise.directories =~= after.directories);
    }
}

/// A cleanup pass deletes a stored path exactly when the path is listed as
/// stale, that is when it does not exist on disk or is not mapped. Every
/// other record stays in the store as it was.
pub proof fn clean_deletes_exactly_the_stale(
    store: StoreContents,
    songs: Seq<PathStatus>,
    directories: Seq<PathStatus>,
)
    ensures
        store.apply_all(cleanup_plan(songs, directories)) == (StoreContents {
            songs: store.songs.remove_keys(stale_paths(songs)),
            directories: store.directories.remove_keys(stale_paths(directories)),
        }),
{
    let size = INDEX_BUILDING_CLEAN_BUFFER_SIZE as nat;
    let song_commands = delete_commands(RecordKind::Song, missing_paths(songs), size);
    let directory_commands = delete_commands(
        RecordKind::Directory,
        missing_paths(directories),
        size,
    );
    lemma_apply_all_concat(store, song_commands, directory_commands);
    lemma_delete_commands(store, RecordKind::Song, missing_paths(songs), size);
    lemma_delete_commands(
        store.apply_all(song_commands),
        RecordKind::Directory,
        missing_paths(directories),
        size,
    );
    lemma_missing_paths(songs);
    lemma_missing_paths(directories);
}

/// Collects the stale paths among the stored ones.
pub fn find_missing(stored: &Vec<PathStatus>) -> (missing: Vec<String>)
    ensures
        texts(missing@) == missing_paths(stored@),
{
    let mut missing: Vec<String> = Vec::new();
    let mut i: usize = 0;
    while i < stored.len()
        invariant
            i <= stored.len(),
            texts(missing@) == missing_paths(stored@.take(i as int)),
        decreases stored.len() - i,
    {
        proof {
            assert(stored@.take(i + 1).drop_last() =~= stored@.take(i as int));
        }
        let status = &stored[i];
        if !status.exists || !status.mapped {
            missing.push(status.path.clone());
        }
        i += 1;
    }
    assert(stored@.take(i as int) =~= stored@);
    missing
}

/// Appends to `commands` the deletion of `paths` from the table of `kind`,
/// in chunks of `size` paths.
pub fn push_delete_commands(
    commands: &mut Vec<StoreCommand>,
    kind: RecordKind,
    paths: &Vec<String>,
    size: usize,
)
    requires
        size >= 1,
    ensures
        command_views(final(commands)@) == command_views(old(commands)@) + delete_commands(
            kind,
            texts(paths@),
            size as nat,
        ),
{
    let ghost all = texts(paths@);
    let ghost start_commands = command_views(commands@);
    let mut start: usize = 0;
    assert(all.skip(0) =~= all);
    let ghost mut done: Seq<CommandView> = Seq::empty();
    while start < paths.len()
        invariant
            start <= paths.len(),
            size >= 1,
            all == texts(paths@),
            command_views(commands@) == start_commands + done,
            delete_commands(kind, all, size as nat) == done + delete_commands(
                kind,
                all.skip(start as int),
                size as nat,
            ),
        decreases paths.len() - start,
    {
        let end = if paths.len() - start <= size {
            paths.len()
        } else {
            start + size
        };
        let mut chunk: Vec<String> = Vec::new();
        let mut k: usize = start;
        while k < end
            invariant
                start <= k <= end <= paths.len(),
                all == texts(paths@),
                texts(chunk@) == all.subrange(start as int, k as int),
            decreases end - k,
        {
            chunk.push(paths[k].clone());
            proof {
                assert(all.subrange(start as int, k + 1) =~= all.subrange(
                    start as int,
                    k as int,
                ).push(all[k as int]));
            }
            k += 1;
        }
        let command = match kind {
            RecordKind::Song => StoreCommand::DeleteSongs(chunk),
            RecordKind::Directory => StoreCommand::DeleteDirectories(chunk),
        };
        commands.push(command);
        proof {
            let rest = all.skip(start as int);
            if rest.len() > size {
                assert(all.subrange(start as int, end as int) =~= rest.take(size as int));
                assert(rest.skip(size as int) =~= all.skip(end as int));
            }
            assert(start_commands + done.push(command@) =~= (start_commands + done).push(
                command@,
            ));
            done = done.push(command@);
        }
        start = end;
    }
}

/// Plans the cleanup of the store: every stored path that does not exist on
/// disk, or that the virtual filesystem does not map, is deleted, and no
/// other. Songs are cleaned before directories.
pub fn clean(songs: &Vec<PathStatus>, directories: &Vec<PathStatus>) -> (commands: Vec<
    StoreCommand,
>)
    ensures
        command_views(commands@) == cleanup_plan(songs@, directories@),
{
    let mut commands: Vec<StoreCommand> = Vec::new();
    let missing_songs = find_missing(songs);
    push_delete_commands(
        &mut commands,
        RecordKind::Song,
        &missing_songs,
        INDEX_BUILDING_CLEAN_BUFFER_SIZE,
    );
    let missing_directories = find_missing(directories);
    push_delete_commands(
        &mut commands,
        RecordKind::Directory,
        &missing_directories,
        INDEX_BUILDING_CLEAN_BUFFER_SIZE,
    );
    commands
}

} // verus!
