//! Directory-level tags inferred from the tags of a directory's own files: a
//! field on which the files agree is the directory's, one on which they
//! differ is left out.

use crate::records::{clone_text, same_text, text, Tags};
use crate::scan::TaggedFile;
use vstd::prelude::*;

verus! {

/// Whether all the values that are present are one and the same.
pub open spec fn agree<T>(values: Seq<Option<T>>) -> bool {
    forall|i: int, j: int|
        0 <= i < values.len() && 0 <= j < values.len() && values[i] is Some && values[j] is Some
            ==> values[i] == values[j]
}

/// The last value that is present, if any is.
pub open spec fn last_present<T>(values: Seq<Option<T>>) -> Option<T>
    decreases values.len(),
{
    if values.len() == 0 {
        None
    } else if values.last() is Some {
        values.last()
    } else {
        last_present(values.drop_last())
    }
}

/// The value a directory takes from its files: the one value they carry, or
/// none when no file carries one or two files carry different ones.
pub open spec fn consensus<T>(values: Seq<Option<T>>) -> Option<T> {
    if agree(values) {
        last_present(values)
    } else {
        None
    }
}

/// The artist a file contributes to its directory: the album artist where the
/// file has one, else the artist.
pub open spec fn artist_of(tags: Tags) -> Option<Seq<char>> {
    if tags.album_artist is Some {
        text(tags.album_artist)
    } else {
        text(tags.artist)
    }
}

/// The year of each file, in order.
pub open spec fn years(files: Seq<TaggedFile>) -> Seq<Option<i32>> {
    files.map_values(|file: TaggedFile| file.tags.year)
}

/// The album of each file, in order.
pub open spec fn albums(files: Seq<TaggedFile>) -> Seq<Option<Seq<char>>> {
    files.map_values(|file: TaggedFile| text(file.tags.album))
}

/// The artist each file contributes, in order.
pub open spec fn artists(files: Seq<TaggedFile>) -> Seq<Option<Seq<char>>> {
    files.map_values(|file: TaggedFile| artist_of(file.tags))
}

/// The running state of one aggregated field.
pub struct FieldView<T> {
    /// The value seen last.
    pub value: Option<T>,
    /// Whether two different values have been seen.
    pub inconsistent: bool,
}

impl<T> FieldView<T> {
    /// The state before any file was seen.
    pub open spec fn start() -> Self {
        FieldView { value: None, inconsistent: false }
    }

    /// The state after one more file: an absent value changes nothing, a
    /// present one becomes the running value and flags the field when it
    /// differs from the one before.
    pub open spec fn observe(self, seen: Option<T>) -> Self {
        match seen {
            None => self,
            Some(_) => FieldView {
                value: seen,
                inconsistent: self.inconsistent || (self.value is Some && self.value != seen),
            },
        }
    }

    /// The field as the directory record gets it.
    pub open spec fn finished(self) -> Option<T> {
        if self.inconsistent {
            None
        } else {
            self.value
        }
    }
}

/// The state of a field after the given values, seen in order.
pub open spec fn field_after<T>(values: Seq<Option<T>>) -> FieldView<T>
    decreases values.len(),
{
    if values.len() == 0 {
        FieldView::start()
    } else {
        field_after(values.drop_last()).observe(values.last())
    }
}

/// The running state of the three aggregated fields.
pub struct AggregateView {
    pub album: FieldView<Seq<char>>,
    pub year: FieldView<i32>,
    pub artist: FieldView<Seq<char>>,
}

impl AggregateView {
    /// The state after one more tagged file.
    pub open spec fn observe(self, tags: Tags) -> AggregateView {
        AggregateView {
            album: self.album.observe(text(tags.album)),
            year: self.year.observe(tags.year),
            artist: self.artist.observe(artist_of(tags)),
        }
    }
}

/// The state after the given tagged files, seen in order.
pub open spec fn aggregate_after(files: Seq<TaggedFile>) -> AggregateView {
    AggregateView {
        album: field_after(albums(files)),
        year: field_after(years(files)),
        artist: field_after(artists(files)),
    }
}

/// The last present value is one of the values; when there is none, no value
/// is present.
pub(crate) proof fn lemma_last_present<T>(values: Seq<Option<T>>)
    ensures
        last_present(values) is Some ==> exists|k: int|
            0 <= k < values.len() && values[k] == last_present(values),
        last_present(values) is None ==> forall|k: int|
            0 <= k < values.len() ==> values[k] is None,
    decreases values.len(),
{
    if values.len() > 0 && values.last() is None {
        let front = values.drop_last();
        lemma_last_present(front);
        if last_present(front) is Some {
            let k = choose|k: int| 0 <= k < front.len() && front[k] == last_present(front);
            assert(values[k] == last_present(values));
        } else {
            assert forall|k: int| 0 <= k < values.len() implies values[k] is None by {
                if k < front.len() {
                    assert(front[k] is None);
                }
            }
        }
    }
}

/// Seeing the values one by one keeps the last present value and flags the
/// field exactly when the values do not agree.
pub(crate) proof fn lemma_field_after<T>(values: Seq<Option<T>>)
    ensures
        field_after(values).value == last_present(values),
        field_after(values).inconsistent == !agree(values),
        field_after(values).finished() == consensus(values),
    decreases values.len(),
{
    if values.len() > 0 {
        let front = values.drop_last();
        let seen = values.last();
        let before = last_present(front);
        let n = front.len() as int;
        lemma_field_after(front);
        lemma_last_present(front);
        assert forall|i: int| 0 <= i < n implies front[i] == values[i] by {}
        if !agree(front) {
            let (i, j) = choose|i: int, j: int|
                0 <= i < n && 0 <= j < n && front[i] is Some && front[j] is Some && front[i]
                    != front[j];
            assert(values[i] != values[j]);
        } else if seen is Some && before is Some && before != seen {
            let k = choose|k: int| 0 <= k < n && front[k] == before;
            assert(values[k] != values[n]);
        } else {
            assert forall|i: int, j: int|
                0 <= i < values.len() && 0 <= j < values.len() && values[i] is Some
                    && values[j] is Some implies values[i] == values[j] by {
                if before is Some {
                    let k = choose|k: int| 0 <= k < n && front[k] == before;
                    assert(i < n ==> front[i] == front[k]);
                    assert(j < n ==> front[j] == front[k]);
                }
            }
        }
    }
}

/// A field of a directory record is some value exactly when a file carries
/// that value and every file that carries a value carries the same one.
pub proof fn consensus_is_the_common_value<T>(values: Seq<Option<T>>, value: T)
    ensures
        consensus(values) == Some(value) <==> {
            &&& exists|k: int| 0 <= k < values.len() && values[k] == Some(value)
            &&& forall|k: int| 0 <= k < values.len() && values[k] is Some ==> values[k] == Some(value)
        },
{
    lemma_last_present(values);
    if consensus(values) == Some(value) {
        let k = choose|k: int| 0 <= k < values.len() && values[k] == last_present(values);
        assert(values[k] == Some(value));
    }
    if (exists|k: int| 0 <= k < values.len() && values[k] == Some(value)) && (forall|k: int|
        0 <= k < values.len() && values[k] is Some ==> values[k] == Some(value)) {
        let k = choose|k: int| 0 <= k < values.len() && values[k] == Some(value);
        assert(last_present(values) is Some);
        let m = choose|m: int| 0 <= m < values.len() && values[m] == last_present(values);
        assert(values[m] == values[k]);
    }
}

/// The state after one more tagged file is the state before, having seen
/// that file's tags.
pub(crate) proof fn lemma_aggregate_push(files: Seq<TaggedFile>, file: TaggedFile)
    ensures
        aggregate_after(files.push(file)) == aggregate_after(files).observe(file.tags),
{
    let more = files.push(file);
    assert(albums(more).drop_last() =~= albums(files));
    assert(years(more).drop_last() =~= years(files));
    assert(artists(more).drop_last() =~= artists(files));
}

/// The transient tag state of one directory while its files are read.
pub struct TagAggregate {
    album: Option<String>,
    year: Option<i32>,
    artist: Option<String>,
    inconsistent_album: bool,
    inconsistent_year: bool,
    inconsistent_artist: bool,
}

impl View for TagAggregate {
    type V = AggregateView;

    closed spec fn view(&self) -> AggregateView {
        AggregateView {
            album: FieldView { value: text(self.album), inconsistent: self.inconsistent_album },
            year: FieldView { value: self.year, inconsistent: self.inconsistent_year },
            artist: FieldView { value: text(self.artist), inconsistent: self.inconsistent_artist },
        }
    }
}

impl TagAggregate {
    /// The state of a directory none of whose files has been read.
    pub fn new() -> (aggregate: TagAggregate)
        ensures
            aggregate@ == aggregate_after(Seq::empty()),
    {
        TagAggregate {
            album: None,
            year: None,
            artist: None,
            inconsistent_album: false,
            inconsistent_year: false,
            inconsistent_artist: false,
        }
    }

    /// Takes in the tags of one more file of the directory.
    pub fn observe(&mut self, tags: &Tags)
        ensures
            final(self)@ == old(self)@.observe(*tags),
    {
        if let Some(year) = tags.year {
            let differs = match self.year {
                Some(before) => before != year,
                None => false,
            };
            self.inconsistent_year = self.inconsistent_year || differs;
            self.year = tags.year;
        }
        if tags.album.is_some() {
            let differs = self.album.is_some() && !same_text(&self.album, &tags.album);
            self.inconsistent_album = self.inconsistent_album || differs;
            self.album = clone_text(&tags.album);
        }
        if tags.album_artist.is_some() {
            let differs = self.artist.is_some() && !same_text(&self.artist, &tags.album_artist);
            self.inconsistent_artist = self.inconsistent_artist || differs;
            self.artist = clone_text(&tags.album_artist);
        } else if tags.artist.is_some() {
            let differs = self.artist.is_some() && !same_text(&self.artist, &tags.artist);
            self.inconsistent_artist = self.inconsistent_artist || differs;
            self.artist = clone_text(&tags.artist);
        }
    }

    /// The album of the directory record.
    pub fn album(&self) -> (album: Option<String>)
        ensures
            text(album) == self@.album.finished(),
    {
        if self.inconsistent_album {
            None
        } else {
            clone_text(&self.album)
        }
    }

    /// The year of the directory record.
    pub fn year(&self) -> (year: Option<i32>)
        ensures
            year == self@.year.finished(),
    {
        if self.inconsistent_year {
            None
        } else {
            self.year
        }
    }

    /// The artist of the directory record.
    pub fn artist(&self) -> (artist: Option<String>)
        ensures
            text(artist) == self@.artist.finished(),
    {
        if self.inconsistent_artist {
            None
        } else {
            clone_text(&self.artist)
        }
    }
}

} // verus!
