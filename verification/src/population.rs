//! The population pass: every mount point is walked in turn, and what is
//! left in the buffers is written out at the end.

use crate::buffers::{
    directories_among, flush_keeps_every_record, lemma_push_all_concat,
    lemma_push_all_ignores_pattern, lemma_push_all_keeps_settings,
    push_all_takes_in_every_record, songs_among, BuilderView,
};
use crate::builder::{IndexBuilder, INDEX_BUILDING_INSERT_BUFFER_SIZE};
use crate::error::IndexError;
use crate::records::RecordView;
use crate::scan::DirectoryScan;
use crate::store::{
    inserted_directories, inserted_songs, inserts_store_their_records, only_inserts, Plan,
    PlanView, StoreContents,
};
use crate::pattern::{compiles, match_alike, matches_as, patterns_of_one_source_match_alike};
use crate::walk::{alike_patterns_emit_alike, emitted, Emission};
use regex::Regex;
use vstd::prelude::*;

verus! {

/// What the walks of the mount points from `from` on emit, each walked as a
/// root without parent, in order, up to the first failure.
pub open spec fn emitted_roots(pattern: Regex, roots: Seq<DirectoryScan>, from: int) -> Emission
    decreases roots.len() - from,
{
    if from < 0 || from >= roots.len() {
        Emission { records: Seq::empty(), error: None }
    } else {
        let first = emitted(pattern, None, roots[from]);
        if first.error is Some {
            first
        } else {
            let rest = emitted_roots(pattern, roots, from + 1);
            Emission { records: first.records + rest.records, error: rest.error }
        }
    }
}

/// A builder that has buffered and written nothing.
pub open spec fn fresh_builder(pattern: Regex, capacity: nat) -> BuilderView {
    BuilderView {
        pattern,
        capacity,
        new_songs: Seq::empty(),
        new_directories: Seq::empty(),
        writes: Seq::empty(),
    }
}

/// The plan of a population pass under a compiled pattern. A pass that walks
/// every mount point ends by writing out the songs left in the buffer, then
/// the directories. A pass that a failure stops asks for the batches written
/// before the failure and for nothing more.
pub open spec fn populate_plan(pattern: Regex, roots: Seq<DirectoryScan>, capacity: nat) -> PlanView {
    let walk = emitted_roots(pattern, roots, 0);
    let filled = fresh_builder(pattern, capacity).push_all(walk.records);
    match walk.error {
        Some(e) => PlanView { commands: filled.writes, result: Err(e) },
        None => PlanView {
            commands: filled.flush_songs().flush_directories().writes,
            result: Ok(()),
        },
    }
}

/// The plan of a population pass, given what compiling its pattern came to.
/// Without a compiled pattern nothing is walked or written, and the pass
/// fails with `InvalidPattern`.
pub open spec fn populate_outcome(
    compiled: Result<Regex, regex::Error>,
    roots: Seq<DirectoryScan>,
    capacity: nat,
) -> PlanView {
    match compiled {
        Ok(pattern) => populate_plan(pattern, roots, capacity),
        Err(_) => PlanView { commands: Seq::empty(), result: Err(IndexError::InvalidPattern) },
    }
}

/// Whether two compilations came to the same: both failed, or both gave a
/// pattern and the two patterns match alike.
pub open spec fn compiled_alike(
    first: Result<Regex, regex::Error>,
    second: Result<Regex, regex::Error>,
) -> bool {
    match (first, second) {
        (Ok(a), Ok(b)) => match_alike(a, b),
        (Err(_), Err(_)) => true,
        _ => false,
    }
}

/// Patterns that match alike make the walks of the mount points emit the
/// same records and end the same way.
pub(crate) proof fn lemma_roots_under_alike_patterns(
    first: Regex,
    second: Regex,
    roots: Seq<DirectoryScan>,
    from: int,
)
    requires
        match_alike(first, second),
    ensures
        emitted_roots(first, roots, from) == emitted_roots(second, roots, from),
    decreases roots.len() - from,
{
    if 0 <= from < roots.len() {
        alike_patterns_emit_alike(first, second, None, roots[from]);
        lemma_roots_under_alike_patterns(first, second, roots, from + 1);
    }
}

/// A population pass depends on its pattern only through what the pattern
/// matches: under two patterns that match alike the plan is the same. So
/// two passes over the same scans whose patterns were compiled from the same
/// source ask the same of the store.
pub proof fn alike_patterns_give_the_same_plan(
    first: Regex,
    second: Regex,
    roots: Seq<DirectoryScan>,
    capacity: nat,
)
    requires
        match_alike(first, second),
    ensures
        populate_plan(first, roots, capacity) == populate_plan(second, roots, capacity),
{
    lemma_roots_under_alike_patterns(first, second, roots, 0);
    lemma_push_all_ignores_pattern(
        fresh_builder(first, capacity),
        second,
        emitted_roots(first, roots, 0).records,
    );
}

/// One source gives one plan: two passes over the same scans, each under a
/// pattern that matches as the one compiled from `source` does, ask the same
/// of the store.
pub proof fn one_source_gives_one_plan(
    first: Regex,
    second: Regex,
    source: Seq<char>,
    roots: Seq<DirectoryScan>,
    capacity: nat,
)
    requires
        matches_as(first, source),
        matches_as(second, source),
    ensures
        populate_plan(first, roots, capacity) == populate_plan(second, roots, capacity),
{
    patterns_of_one_source_match_alike(first, second, source);
    alike_patterns_give_the_same_plan(first, second, roots, capacity);
}

/// Compilations that came to the same give the same plan.
pub proof fn alike_compilations_give_the_same_plan(
    first: Result<Regex, regex::Error>,
    second: Result<Regex, regex::Error>,
    roots: Seq<DirectoryScan>,
    capacity: nat,
)
    requires
        compiled_alike(first, second),
    ensures
        populate_outcome(first, roots, capacity) == populate_outcome(second, roots, capacity),
{
    if let (Ok(a), Ok(b)) = (first, second) {
        alike_patterns_give_the_same_plan(a, b, roots, capacity);
    }
}

/// A population pass only inserts, whatever the capacity of its buffers and
/// however it ends.
pub proof fn populate_only_inserts(pattern: Regex, roots: Seq<DirectoryScan>, capacity: nat)
    ensures
        only_inserts(populate_plan(pattern, roots, capacity).commands),
{
    push_all_takes_in_every_record(
        fresh_builder(pattern, capacity),
        emitted_roots(pattern, roots, 0).records,
    );
}

/// A pass that walks every mount point writes each record that the walk
/// emits exactly once, songs and directories each in the order of the walk,
/// whatever the capacity of the buffers.
pub proof fn populate_writes_every_record_once(
    pattern: Regex,
    roots: Seq<DirectoryScan>,
    capacity: nat,
)
    requires
        emitted_roots(pattern, roots, 0).error is None,
    ensures
        inserted_songs(populate_plan(pattern, roots, capacity).commands) == songs_among(
            emitted_roots(pattern, roots, 0).records,
        ),
        inserted_directories(populate_plan(pattern, roots, capacity).commands)
            == directories_among(emitted_roots(pattern, roots, 0).records),
{
    let start = fresh_builder(pattern, capacity);
    let filled = start.push_all(emitted_roots(pattern, roots, 0).records);
    push_all_takes_in_every_record(start, emitted_roots(pattern, roots, 0).records);
    flush_keeps_every_record(filled);
    flush_keeps_every_record(filled.flush_songs());
}

/// The capacity of the buffers decides how the records are batched, never
/// what is stored: two passes that walk every mount point, under patterns
/// that match alike, leave the same store, whatever capacity each was run
/// with.
pub proof fn capacity_does_not_change_what_is_stored(
    store: StoreContents,
    pattern: Regex,
    pattern_after: Regex,
    roots: Seq<DirectoryScan>,
    first: nat,
    second: nat,
)
    requires
        match_alike(pattern, pattern_after),
        emitted_roots(pattern, roots, 0).error is None,
    ensures
        store.apply_all(populate_plan(pattern, roots, first).commands) == store.apply_all(
            populate_plan(pattern_after, roots, second).commands,
        ),
{
    alike_patterns_give_the_same_plan(pattern, pattern_after, roots, second);
    populate_only_inserts(pattern, roots, first);
    populate_only_inserts(pattern, roots, second);
    populate_writes_every_record_once(pattern, roots, first);
    populate_writes_every_record_once(pattern, roots, second);
    inserts_store_their_records(store, populate_plan(pattern, roots, first).commands);
    inserts_store_their_records(store, populate_plan(pattern, roots, second).commands);
}

/// Walks the mount points under a compiled pattern, with buffers of the
/// given capacity, and hands over what was written.
#[verifier::loop_isolation(false)]
fn walk_mount_points(pattern: Regex, mount_points: &Vec<DirectoryScan>, capacity: usize) -> (plan:
    Plan)
    requires
        capacity >= 1,
    ensures
        plan@ == populate_plan(pattern, mount_points@, capacity as nat),
{
    let ghost start = fresh_builder(pattern, capacity as nat);
    let ghost whole = emitted_roots(pattern, mount_points@, 0);
    let mut builder = IndexBuilder::new(pattern, capacity);
    let ghost mut done: Seq<RecordView> = Seq::empty();
    let mut k: usize = 0;
    while k < mount_points.len()
        invariant
            k <= mount_points.len(),
            builder@ == start.push_all(done),
            whole.records == done + emitted_roots(pattern, mount_points@, k as int).records,
            whole.error == emitted_roots(pattern, mount_points@, k as int).error,
        decreases mount_points.len() - k,
    {
        let ghost first = emitted(pattern, None, mount_points@[k as int]);
        proof {
            lemma_push_all_keeps_settings(start, done);
            lemma_push_all_concat(start, done, first.records);
        }
        match builder.populate_directory(None, &mount_points[k]) {
            Err(e) => {
                return Plan { commands: builder.into_writes(), result: Err(e) };
            },
            Ok(()) => {
                proof {
                    done = done + first.records;
                }
            },
        }
        k += 1;
    }
    builder.flush_songs();
    builder.flush_directories();
    Plan { commands: builder.into_writes(), result: Ok(()) }
}

/// Plans the population of the store from the scans of the mount points,
/// given what compiling the artwork pattern came to, with buffers of the
/// given capacity.
///
/// Under a compiled pattern every mount point is walked in the order given,
/// and what is left in the buffers is written out at the end, songs first.
/// A walk that fails ends the pass at once, with what was written by then.
/// Without a compiled pattern the pass fails before anything is walked.
pub fn populate_with(
    compiled: Result<Regex, regex::Error>,
    mount_points: &Vec<DirectoryScan>,
    capacity: usize,
) -> (plan: Plan)
    requires
        capacity >= 1,
    ensures
        plan@ == populate_outcome(compiled, mount_points@, capacity as nat),
{
    match compiled {
        Ok(pattern) => walk_mount_points(pattern, mount_points, capacity),
        Err(_) => {
            let plan = Plan { commands: Vec::new(), result: Err(IndexError::InvalidPattern) };
            assert(plan@.commands =~= Seq::empty());
            plan
        },
    }
}

/// Plans the population of the store from the scans of the mount points.
///
/// The artwork pattern is compiled first. Where it does not compile, nothing
/// is walked or written and the pass fails with `InvalidPattern`. Where it
/// compiles, the plan is that of a pass under a pattern that matches as the
/// one compiled from `album_art_pattern` does, with buffers of
/// `INDEX_BUILDING_INSERT_BUFFER_SIZE` records; by
/// `alike_patterns_give_the_same_plan` there is one such plan.
pub fn populate(album_art_pattern: &str, mount_points: &Vec<DirectoryScan>) -> (plan: Plan)
    ensures
        !compiles(album_art_pattern@) ==> plan@ == (PlanView {
            commands: Seq::empty(),
            result: Err(IndexError::InvalidPattern),
        }),
        compiles(album_art_pattern@) ==> exists|pattern: Regex|
            matches_as(pattern, album_art_pattern@) && plan@ == populate_plan(
                pattern,
                mount_points@,
                INDEX_BUILDING_INSERT_BUFFER_SIZE as nat,
            ),
{
    let compiled = Regex::new(album_art_pattern);
    assert(compiled is Ok ==> matches_as(compiled->Ok_0, album_art_pattern@));
    populate_with(compiled, mount_points, INDEX_BUILDING_INSERT_BUFFER_SIZE)
}

} // verus!
