use media_index::builder::{IndexBuilder, INDEX_BUILDING_INSERT_BUFFER_SIZE};
use media_index::population::populate_with;
use media_index::records::{NewDirectory, NewSong, Tags};
use media_index::scan::{DirectoryScan, DirectoryTimes, FileTime, ScanEntry};
use media_index::store::StoreCommand;
use regex::Regex;

fn song(path: &str) -> NewSong {
    NewSong {
        path: path.to_string(),
        parent: "/music".to_string(),
        track_number: None,
        disc_number: None,
        title: None,
        artist: None,
        album_artist: None,
        year: None,
        album: None,
        artwork: None,
        duration: None,
    }
}

fn folder(path: &str) -> NewDirectory {
    NewDirectory {
        path: path.to_string(),
        parent: None,
        artist: None,
        year: None,
        album: None,
        artwork: None,
        date_added: 0,
    }
}

fn pattern() -> Regex {
    Regex::new("Folder\\.(jpg|png)").unwrap()
}

fn tagged(directory: &str, name: &str) -> ScanEntry {
    ScanEntry::File {
        name: Some(name.to_string()),
        path: Some(format!("{}/{}", directory, name)),
        tags: Some(Tags {
            disc_number: None,
            track_number: None,
            title: Some(name.to_string()),
            duration: None,
            artist: None,
            album_artist: None,
            album: None,
            year: None,
        }),
    }
}

fn tree() -> Vec<DirectoryScan> {
    let times = Some(DirectoryTimes {
        created: FileTime::SinceEpoch(10),
        modified: FileTime::SinceEpoch(20),
    });
    let mut below = Vec::new();
    for d in 0..4 {
        let path = format!("/music/{}", d);
        let mut entries = Vec::new();
        for f in 0..5 {
            entries.push(tagged(&path, &format!("{}.mp3", f)));
        }
        below.push(ScanEntry::Directory {
            name: Some(format!("{}", d)),
            scan: DirectoryScan { path: Some(path), times, entries: Some(entries) },
        });
    }
    below.push(tagged("/music", "loose.mp3"));
    vec![DirectoryScan { path: Some("/music".to_string()), times, entries: Some(below) }]
}

fn song_paths(commands: &[StoreCommand]) -> Vec<String> {
    let mut paths = Vec::new();
    for command in commands {
        if let StoreCommand::InsertSongs(batch) = command {
            paths.extend(batch.iter().map(|s| s.path.clone()));
        }
    }
    paths
}

fn directory_paths(commands: &[StoreCommand]) -> Vec<String> {
    let mut paths = Vec::new();
    for command in commands {
        if let StoreCommand::InsertDirectories(batch) = command {
            paths.extend(batch.iter().map(|d| d.path.clone()));
        }
    }
    paths
}

#[test]
fn the_insert_buffer_holds_a_thousand_records() {
    assert_eq!(INDEX_BUILDING_INSERT_BUFFER_SIZE, 1000);
}

#[test]
fn a_new_builder_has_written_nothing() {
    let builder = IndexBuilder::new(pattern(), 3);
    assert!(builder.into_writes().is_empty());
}

#[test]
fn a_full_buffer_is_flushed_before_the_next_push() {
    let mut builder = IndexBuilder::new(pattern(), 2);
    builder.push_song(song("/music/1"));
    builder.push_song(song("/music/2"));
    builder.push_song(song("/music/3"));
    builder.push_song(song("/music/4"));
    builder.push_song(song("/music/5"));
    builder.flush_songs();
    let writes = builder.into_writes();
    assert_eq!(
        writes,
        vec![
            StoreCommand::InsertSongs(vec![song("/music/1"), song("/music/2")]),
            StoreCommand::InsertSongs(vec![song("/music/3"), song("/music/4")]),
            StoreCommand::InsertSongs(vec![song("/music/5")]),
        ]
    );
}

#[test]
fn a_buffer_at_capacity_is_not_flushed_without_a_push() {
    let mut builder = IndexBuilder::new(pattern(), 2);
    builder.push_directory(folder("/a"));
    builder.push_directory(folder("/b"));
    assert!(builder.into_writes().is_empty());
}

#[test]
fn songs_and_directories_are_buffered_apart() {
    let mut builder = IndexBuilder::new(pattern(), 1);
    builder.push_song(song("/music/1"));
    builder.push_directory(folder("/music"));
    builder.push_directory(folder("/other"));
    builder.push_song(song("/music/2"));
    builder.flush_songs();
    builder.flush_directories();
    assert_eq!(
        builder.into_writes(),
        vec![
            StoreCommand::InsertDirectories(vec![folder("/music")]),
            StoreCommand::InsertSongs(vec![song("/music/1")]),
            StoreCommand::InsertSongs(vec![song("/music/2")]),
            StoreCommand::InsertDirectories(vec![folder("/other")]),
        ]
    );
}

#[test]
fn a_flush_of_an_empty_buffer_writes_an_empty_batch() {
    let mut builder = IndexBuilder::new(pattern(), 4);
    builder.flush_songs();
    builder.flush_directories();
    assert_eq!(
        builder.into_writes(),
        vec![StoreCommand::InsertSongs(vec![]), StoreCommand::InsertDirectories(vec![])]
    );
}

#[test]
fn the_capacity_changes_the_batches_but_not_the_records() {
    let roots = tree();
    let single = populate_with(Ok(pattern()), &roots, 1);
    assert_eq!(single.result, Ok(()));
    let songs = song_paths(&single.commands);
    let directories = directory_paths(&single.commands);
    assert_eq!(songs.len(), 21);
    assert_eq!(directories.len(), 5);
    assert_eq!(songs[0], "/music/loose.mp3");
    assert_eq!(songs[1], "/music/0/0.mp3");
    assert_eq!(songs[20], "/music/3/4.mp3");
    for capacity in [2usize, 3, 5, 7, 20, 21, 22, 1000] {
        let plan = populate_with(Ok(pattern()), &roots, capacity);
        assert_eq!(plan.result, Ok(()));
        assert_eq!(song_paths(&plan.commands), songs);
        assert_eq!(directory_paths(&plan.commands), directories);
        for command in &plan.commands {
            match command {
                StoreCommand::InsertSongs(batch) => assert!(batch.len() <= capacity),
                StoreCommand::InsertDirectories(batch) => assert!(batch.len() <= capacity),
                _ => panic!("a population pass only inserts"),
            }
        }
    }
}

#[test]
fn with_capacity_one_every_record_is_a_batch_of_its_own() {
    let plan = populate_with(Ok(pattern()), &tree(), 1);
    let song_batches: Vec<usize> = plan
        .commands
        .iter()
        .filter_map(|c| match c {
            StoreCommand::InsertSongs(batch) => Some(batch.len()),
            _ => None,
        })
        .collect();
    assert_eq!(song_batches, vec![1; 21]);
}

#[test]
fn a_pass_ends_with_the_songs_then_the_directories_left_in_the_buffers() {
    let plan = populate_with(Ok(pattern()), &tree(), 1000);
    assert_eq!(plan.commands.len(), 2);
    assert!(matches!(&plan.commands[0], StoreCommand::InsertSongs(batch) if batch.len() == 21));
    assert!(matches!(&plan.commands[1], StoreCommand::InsertDirectories(batch) if batch.len() == 5));
}
