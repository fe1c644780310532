use media_index::aggregate::TagAggregate;
use media_index::builder::IndexBuilder;
use media_index::error::IndexError;
use media_index::records::Tags;
use media_index::scan::{listed_len, DirectoryScan, DirectoryTimes, FileTime, ScanEntry};
use media_index::store::StoreCommand;
use regex::Regex;

fn tags(album: Option<&str>, artist: Option<&str>, album_artist: Option<&str>, year: Option<i32>) -> Tags {
    Tags {
        disc_number: None,
        track_number: None,
        title: None,
        duration: None,
        artist: artist.map(|s| s.to_string()),
        album_artist: album_artist.map(|s| s.to_string()),
        album: album.map(|s| s.to_string()),
        year,
    }
}

fn plain_file(path: &str) -> ScanEntry {
    ScanEntry::File { name: None, path: Some(path.to_string()), tags: None }
}

#[test]
fn an_aggregate_that_saw_nothing_has_no_tags() {
    let aggregate = TagAggregate::new();
    assert_eq!(aggregate.album(), None);
    assert_eq!(aggregate.artist(), None);
    assert_eq!(aggregate.year(), None);
}

#[test]
fn one_file_gives_its_tags_to_the_directory() {
    let mut aggregate = TagAggregate::new();
    aggregate.observe(&tags(Some("A"), Some("Solo"), None, Some(1984)));
    assert_eq!(aggregate.album(), Some("A".to_string()));
    assert_eq!(aggregate.artist(), Some("Solo".to_string()));
    assert_eq!(aggregate.year(), Some(1984));
}

#[test]
fn a_file_without_a_tag_neither_sets_nor_spoils_the_field() {
    let mut aggregate = TagAggregate::new();
    aggregate.observe(&tags(None, None, None, None));
    aggregate.observe(&tags(Some("A"), None, None, Some(1984)));
    aggregate.observe(&tags(None, None, None, None));
    aggregate.observe(&tags(Some("A"), None, None, None));
    assert_eq!(aggregate.album(), Some("A".to_string()));
    assert_eq!(aggregate.year(), Some(1984));
    assert_eq!(aggregate.artist(), None);
}

#[test]
fn a_field_once_inconsistent_stays_absent() {
    let mut aggregate = TagAggregate::new();
    aggregate.observe(&tags(Some("A"), None, None, Some(1)));
    aggregate.observe(&tags(Some("B"), None, None, Some(1)));
    aggregate.observe(&tags(Some("A"), None, None, Some(1)));
    aggregate.observe(&tags(Some("A"), None, None, Some(1)));
    assert_eq!(aggregate.album(), None);
    assert_eq!(aggregate.year(), Some(1));
}

#[test]
fn the_three_fields_are_judged_apart() {
    let mut aggregate = TagAggregate::new();
    aggregate.observe(&tags(Some("A"), Some("X"), None, Some(1)));
    aggregate.observe(&tags(Some("A"), Some("Y"), None, Some(2)));
    assert_eq!(aggregate.album(), Some("A".to_string()));
    assert_eq!(aggregate.artist(), None);
    assert_eq!(aggregate.year(), None);
}

#[test]
fn an_artist_is_compared_with_whatever_the_files_before_contributed() {
    let mut aggregate = TagAggregate::new();
    aggregate.observe(&tags(None, Some("Guest"), Some("Band"), None));
    aggregate.observe(&tags(None, Some("Band"), None, None));
    assert_eq!(aggregate.artist(), Some("Band".to_string()));
    aggregate.observe(&tags(None, Some("Guest"), None, None));
    assert_eq!(aggregate.artist(), None);
}

#[test]
fn a_listing_ends_at_its_first_unreadable_entry() {
    assert_eq!(listed_len(&vec![]), 0);
    assert_eq!(listed_len(&vec![plain_file("/a"), plain_file("/b")]), 2);
    assert_eq!(listed_len(&vec![plain_file("/a"), ScanEntry::Unreadable, plain_file("/b")]), 1);
    assert_eq!(listed_len(&vec![ScanEntry::Unreadable, ScanEntry::Unreadable]), 0);
    assert!(ScanEntry::Unreadable.is_unreadable());
    assert!(!plain_file("/a").is_unreadable());
}

#[test]
fn a_directory_is_recorded_under_the_parent_it_is_walked_with() {
    let times = Some(DirectoryTimes { created: FileTime::SinceEpoch(42), modified: FileTime::Unavailable });
    let scan = DirectoryScan {
        path: Some("/music/a".to_string()),
        times,
        entries: Some(vec![ScanEntry::File {
            name: Some("1.mp3".to_string()),
            path: Some("/music/a/1.mp3".to_string()),
            tags: Some(tags(Some("A"), None, None, None)),
        }]),
    };
    let mut builder = IndexBuilder::new(Regex::new("^$").unwrap(), 8);
    assert_eq!(builder.populate_directory(Some("/music"), &scan), Ok(()));
    assert_eq!(builder.populate_directory(None, &scan), Ok(()));
    builder.flush_directories();
    builder.flush_songs();
    let writes = builder.into_writes();
    match &writes[0] {
        StoreCommand::InsertDirectories(batch) => {
            assert_eq!(batch.len(), 2);
            assert_eq!(batch[0].parent, Some("/music".to_string()));
            assert_eq!(batch[1].parent, None);
            assert_eq!(batch[0].date_added, 42);
        }
        _ => panic!("the directories were flushed first"),
    }
    match &writes[1] {
        StoreCommand::InsertSongs(batch) => {
            assert_eq!(batch.len(), 2);
            assert_eq!(batch[0].parent, "/music/a");
        }
        _ => panic!("the songs were flushed last"),
    }
}

#[test]
fn a_walk_that_fails_leaves_the_buffers_as_they_were() {
    let bad = DirectoryScan { path: Some("/music/a".to_string()), times: None, entries: Some(vec![]) };
    let mut builder = IndexBuilder::new(Regex::new("^$").unwrap(), 8);
    assert_eq!(builder.populate_directory(None, &bad), Err(IndexError::MetadataUnavailable));
    builder.flush_songs();
    builder.flush_directories();
    assert_eq!(
        builder.into_writes(),
        vec![StoreCommand::InsertSongs(vec![]), StoreCommand::InsertDirectories(vec![])]
    );
}
