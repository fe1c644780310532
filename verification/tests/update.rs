use media_index::cleanup::PathStatus;
use media_index::error::IndexError;
use media_index::population::populate_with;
use media_index::records::{NewDirectory, NewSong, Tags};
use media_index::scan::{date_added, DirectoryScan, DirectoryTimes, FileTime, ScanEntry};
use media_index::store::StoreCommand;
use media_index::orchestrator::update_with;
use media_index::pattern::pattern_compiles;
use media_index::{populate, update};
use regex::Regex;
use std::collections::BTreeMap;

const PATTERN: &str = "Folder\\.(jpg|png)";

fn tags(title: &str) -> Tags {
    Tags {
        disc_number: Some(1),
        track_number: Some(2),
        title: Some(title.to_string()),
        duration: Some(180),
        artist: Some("Artist".to_string()),
        album_artist: None,
        album: Some("Album".to_string()),
        year: Some(1990),
    }
}

fn file(directory: &str, name: &str, tags: Option<Tags>) -> ScanEntry {
    ScanEntry::File {
        name: Some(name.to_string()),
        path: Some(format!("{}/{}", directory, name)),
        tags,
    }
}

fn created(seconds: u64) -> Option<DirectoryTimes> {
    Some(DirectoryTimes { created: FileTime::SinceEpoch(seconds), modified: FileTime::Unavailable })
}

fn directory(path: &str, entries: Vec<ScanEntry>) -> DirectoryScan {
    DirectoryScan { path: Some(path.to_string()), times: created(1000), entries: Some(entries) }
}

fn sub(name: &str, scan: DirectoryScan) -> ScanEntry {
    ScanEntry::Directory { name: Some(name.to_string()), scan }
}

fn music() -> Vec<DirectoryScan> {
    let a = directory(
        "/music/a",
        vec![
            file("/music/a", "1.mp3", Some(tags("one"))),
            file("/music/a", "Folder.jpg", None),
            file("/music/a", "2.mp3", Some(tags("two"))),
        ],
    );
    let b = directory("/music/b", vec![file("/music/b", "3.mp3", Some(tags("three")))]);
    vec![directory("/music", vec![sub("a", a), sub("b", b)]), directory("/more", vec![])]
}

struct Store {
    songs: BTreeMap<String, NewSong>,
    directories: BTreeMap<String, NewDirectory>,
}

fn carry_out(store: &mut Store, commands: &[StoreCommand]) {
    for command in commands {
        match command {
            StoreCommand::InsertSongs(batch) => {
                for song in batch {
                    store.songs.insert(song.path.clone(), song.clone());
                }
            }
            StoreCommand::InsertDirectories(batch) => {
                for directory in batch {
                    store.directories.insert(directory.path.clone(), directory.clone());
                }
            }
            StoreCommand::DeleteSongs(paths) => {
                for path in paths {
                    store.songs.remove(path);
                }
            }
            StoreCommand::DeleteDirectories(paths) => {
                for path in paths {
                    store.directories.remove(path);
                }
            }
        }
    }
}

fn listing<'a>(paths: impl Iterator<Item = &'a String>) -> Vec<PathStatus> {
    paths
        .map(|path| PathStatus {
            path: path.clone(),
            exists: !path.contains("gone"),
            mapped: path.starts_with("/music") || path.starts_with("/more"),
        })
        .collect()
}

fn run(store: &mut Store, roots: &Vec<DirectoryScan>) {
    let songs = listing(store.songs.keys());
    let directories = listing(store.directories.keys());
    let plan = update(&songs, &directories, PATTERN, roots);
    assert_eq!(plan.result, Ok(()));
    carry_out(store, &plan.commands);
}

fn old_song(path: &str) -> NewSong {
    NewSong {
        path: path.to_string(),
        parent: "/old".to_string(),
        track_number: None,
        disc_number: None,
        title: Some("old".to_string()),
        artist: None,
        album_artist: None,
        year: None,
        album: None,
        artwork: None,
        duration: None,
    }
}

#[test]
fn a_second_update_leaves_the_store_as_the_first_left_it() {
    let mut store = Store { songs: BTreeMap::new(), directories: BTreeMap::new() };
    for path in ["/music/a/gone.mp3", "/unmapped/x.mp3", "/music/a/1.mp3", "/music/kept.mp3"] {
        store.songs.insert(path.to_string(), old_song(path));
    }
    let roots = music();
    run(&mut store, &roots);
    let songs_once = store.songs.clone();
    let directories_once = store.directories.clone();
    let paths: Vec<&str> = songs_once.keys().map(|p| p.as_str()).collect();
    assert_eq!(
        paths,
        vec!["/music/a/1.mp3", "/music/a/2.mp3", "/music/b/3.mp3", "/music/kept.mp3"]
    );
    assert_eq!(songs_once["/music/a/1.mp3"].title, Some("one".to_string()));
    assert_eq!(songs_once["/music/kept.mp3"], old_song("/music/kept.mp3"));
    let folders: Vec<&str> = directories_once.keys().map(|p| p.as_str()).collect();
    assert_eq!(folders, vec!["/more", "/music", "/music/a", "/music/b"]);
    run(&mut store, &roots);
    assert_eq!(store.songs, songs_once);
    assert_eq!(store.directories, directories_once);
}

#[test]
fn an_update_cleans_before_it_populates() {
    let songs = vec![PathStatus { path: "/music/gone.mp3".to_string(), exists: false, mapped: true }];
    let directories =
        vec![PathStatus { path: "/unmapped".to_string(), exists: true, mapped: false }];
    let plan = update(&songs, &directories, PATTERN, &music());
    assert_eq!(plan.result, Ok(()));
    assert_eq!(plan.commands.len(), 4);
    assert_eq!(plan.commands[0], StoreCommand::DeleteSongs(vec!["/music/gone.mp3".to_string()]));
    assert_eq!(plan.commands[1], StoreCommand::DeleteDirectories(vec!["/unmapped".to_string()]));
    assert!(matches!(&plan.commands[2], StoreCommand::InsertSongs(batch) if batch.len() == 3));
    assert!(matches!(&plan.commands[3], StoreCommand::InsertDirectories(batch) if batch.len() == 4));
}

#[test]
fn an_update_batches_as_its_capacity_says() {
    let songs = vec![PathStatus { path: "/music/gone.mp3".to_string(), exists: false, mapped: true }];
    let plan = update_with(&songs, &vec![], Regex::new(PATTERN), &music(), 2);
    assert_eq!(plan.result, Ok(()));
    let shape: Vec<(char, usize)> = plan
        .commands
        .iter()
        .map(|command| match command {
            StoreCommand::DeleteSongs(paths) => ('-', paths.len()),
            StoreCommand::DeleteDirectories(paths) => ('-', paths.len()),
            StoreCommand::InsertSongs(batch) => ('s', batch.len()),
            StoreCommand::InsertDirectories(batch) => ('d', batch.len()),
        })
        .collect();
    assert_eq!(shape, vec![('-', 1), ('s', 2), ('d', 2), ('s', 1), ('d', 2)]);
}

#[test]
fn a_song_is_built_from_its_tags_and_its_directory() {
    let plan = populate(PATTERN, &music());
    let song = match &plan.commands[0] {
        StoreCommand::InsertSongs(batch) => batch[0].clone(),
        _ => panic!("songs are flushed first"),
    };
    assert_eq!(
        song,
        NewSong {
            path: "/music/a/1.mp3".to_string(),
            parent: "/music/a".to_string(),
            track_number: Some(2),
            disc_number: Some(1),
            title: Some("one".to_string()),
            artist: Some("Artist".to_string()),
            album_artist: None,
            year: Some(1990),
            album: Some("Album".to_string()),
            artwork: Some("/music/a/Folder.jpg".to_string()),
            duration: Some(180),
        }
    );
    let folder = match &plan.commands[1] {
        StoreCommand::InsertDirectories(batch) => batch[1].clone(),
        _ => panic!("directories are flushed last"),
    };
    assert_eq!(
        folder,
        NewDirectory {
            path: "/music/a".to_string(),
            parent: Some("/music".to_string()),
            artist: Some("Artist".to_string()),
            year: Some(1990),
            album: Some("Album".to_string()),
            artwork: Some("/music/a/Folder.jpg".to_string()),
            date_added: 1000,
        }
    );
}

#[test]
fn a_pattern_that_does_not_compile_fails_the_pass() {
    let plan = populate("Folder\\.(jpg", &music());
    assert_eq!(plan.result, Err(IndexError::InvalidPattern));
    assert!(plan.commands.is_empty());
    let songs = vec![PathStatus { path: "/music/gone.mp3".to_string(), exists: false, mapped: true }];
    let plan = update(&songs, &vec![], "(", &music());
    assert_eq!(plan.result, Err(IndexError::InvalidPattern));
    assert_eq!(plan.commands, vec![StoreCommand::DeleteSongs(vec!["/music/gone.mp3".to_string()])]);
}

#[test]
fn a_caller_can_ask_whether_the_pattern_compiles() {
    assert!(pattern_compiles(PATTERN));
    assert!(pattern_compiles(""));
    assert!(!pattern_compiles("Folder\\.(jpg"));
    assert!(!pattern_compiles("["));
}

#[test]
fn patterns_of_one_source_give_the_same_plan() {
    let first = populate_with(Regex::new(PATTERN), &music(), 3);
    let second = populate_with(Regex::new(PATTERN), &music(), 3);
    assert_eq!(first, second);
    assert_eq!(populate(PATTERN, &music()), populate(PATTERN, &music()));
}

#[test]
fn without_a_compiled_pattern_nothing_is_walked() {
    let plan = populate_with(Regex::new("Folder\\.(jpg"), &music(), 10);
    assert_eq!(plan.result, Err(IndexError::InvalidPattern));
    assert!(plan.commands.is_empty());
}

#[test]
fn a_directory_without_a_unicode_path_stops_the_walk() {
    let nameless = DirectoryScan { path: None, times: created(5), entries: Some(vec![]) };
    let root = directory(
        "/music",
        vec![
            file("/music", "1.mp3", Some(tags("one"))),
            file("/music", "2.mp3", Some(tags("two"))),
            ScanEntry::Directory { name: None, scan: nameless },
            sub("late", directory("/music/late", vec![])),
        ],
    );
    let plan = populate_with(Regex::new(PATTERN), &vec![root, directory("/more", vec![])], 1);
    assert_eq!(plan.result, Err(IndexError::InvalidDirectoryPath));
    assert_eq!(plan.commands.len(), 1);
    assert!(
        matches!(&plan.commands[0], StoreCommand::InsertSongs(batch) if batch.len() == 1 && batch[0].path == "/music/1.mp3")
    );
}

#[test]
fn a_directory_that_cannot_be_listed_stops_the_walk() {
    let closed = DirectoryScan { path: Some("/music".to_string()), times: created(5), entries: None };
    let plan = populate(PATTERN, &vec![closed]);
    assert_eq!(plan.result, Err(IndexError::ListingUnavailable));
    assert!(plan.commands.is_empty());
}

#[test]
fn a_directory_without_metadata_stops_the_walk() {
    let dark = DirectoryScan { path: Some("/music".to_string()), times: None, entries: Some(vec![]) };
    let plan = populate(PATTERN, &vec![dark]);
    assert_eq!(plan.result, Err(IndexError::MetadataUnavailable));
    assert!(plan.commands.is_empty());
}

#[test]
fn the_date_added_is_the_creation_time() {
    let times = DirectoryTimes { created: FileTime::SinceEpoch(1_500_000_000), modified: FileTime::SinceEpoch(1_600_000_000) };
    assert_eq!(date_added(&Some(times)), Ok(1_500_000_000));
}

#[test]
fn the_date_added_falls_back_to_the_modification_time() {
    let times = DirectoryTimes { created: FileTime::Unavailable, modified: FileTime::SinceEpoch(1_600_000_000) };
    assert_eq!(date_added(&Some(times)), Ok(1_600_000_000));
}

#[test]
fn the_date_added_fails_without_any_time() {
    let times = DirectoryTimes { created: FileTime::Unavailable, modified: FileTime::Unavailable };
    assert_eq!(date_added(&Some(times)), Err(IndexError::TimestampUnavailable));
    assert_eq!(date_added(&None), Err(IndexError::MetadataUnavailable));
}

#[test]
fn a_time_before_the_epoch_fails_without_fallback() {
    let times = DirectoryTimes { created: FileTime::BeforeEpoch, modified: FileTime::SinceEpoch(7) };
    assert_eq!(date_added(&Some(times)), Err(IndexError::TimestampBeforeEpoch));
    let times = DirectoryTimes { created: FileTime::Unavailable, modified: FileTime::BeforeEpoch };
    assert_eq!(date_added(&Some(times)), Err(IndexError::TimestampBeforeEpoch));
}

#[test]
fn the_date_added_keeps_the_low_thirty_two_bits() {
    let times = DirectoryTimes { created: FileTime::SinceEpoch(4_294_967_296 + 7), modified: FileTime::Unavailable };
    assert_eq!(date_added(&Some(times)), Ok(7));
    let times = DirectoryTimes { created: FileTime::SinceEpoch(2_147_483_648), modified: FileTime::Unavailable };
    assert_eq!(date_added(&Some(times)), Ok(i32::MIN));
}

#[test]
fn mount_points_are_walked_in_the_order_given() {
    let roots = vec![directory("/z", vec![]), directory("/a", vec![]), directory("/m", vec![])];
    let plan = populate(PATTERN, &roots);
    let paths: Vec<String> = match &plan.commands[1] {
        StoreCommand::InsertDirectories(batch) => batch.iter().map(|d| d.path.clone()).collect(),
        _ => panic!("directories are flushed last"),
    };
    assert_eq!(paths, vec!["/z", "/a", "/m"]);
}

#[test]
fn no_mount_point_means_two_empty_batches() {
    let plan = populate(PATTERN, &vec![]);
    assert_eq!(plan.result, Ok(()));
    assert_eq!(
        plan.commands,
        vec![StoreCommand::InsertSongs(vec![]), StoreCommand::InsertDirectories(vec![])]
    );
}
