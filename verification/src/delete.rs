//! The delete phase: what was deleted from the source is removed from the target.
use vstd::prelude::*;

use crate::failure::{record_failure, FailureItemType, FailureRecord, IoFailure};
use crate::order;
use crate::path_util;
use crate::paths;
use crate::text;

verus! {

// ---------------------------------------------------------------------------
// Counters
// ---------------------------------------------------------------------------

/// Counters of the delete phase.
#[derive(Debug, Clone, Copy, PartialEq, Eq, Structural)]
pub struct DeleteStats {
    pub entries_processed: u64,
    pub files_deleted: u64,
    pub dirs_deleted: u64,
    pub entries_failed: u64,
    /// Entries that were not found, or were of another kind than recorded.
    pub entries_skipped: u64,
}

/// The counters at one moment.
#[derive(Debug, Clone, Copy, PartialEq, Eq, Structural)]
pub struct DeleteStatsSnapshot {
    pub entries_processed: u64,
    pub files_deleted: u64,
    pub dirs_deleted: u64,
    pub entries_failed: u64,
    pub entries_skipped: u64,
}

impl Default for DeleteStats {
    fn default() -> (r: Self)
        ensures
            r == (DeleteStats {
                entries_processed: 0,
                files_deleted: 0,
                dirs_deleted: 0,
                entries_failed: 0,
                entries_skipped: 0,
            }),
    {
        DeleteStats {
            entries_processed: 0,
            files_deleted: 0,
            dirs_deleted: 0,
            entries_failed: 0,
            entries_skipped: 0,
        }
    }
}

impl DeleteStats {
    pub fn snapshot(&self) -> (r: DeleteStatsSnapshot)
        ensures
            r == (DeleteStatsSnapshot {
                entries_processed: self.entries_processed,
                files_deleted: self.files_deleted,
                dirs_deleted: self.dirs_deleted,
                entries_failed: self.entries_failed,
                entries_skipped: self.entries_skipped,
            }),
    {
        DeleteStatsSnapshot {
            entries_processed: self.entries_processed,
            files_deleted: self.files_deleted,
            dirs_deleted: self.dirs_deleted,
            entries_failed: self.entries_failed,
            entries_skipped: self.entries_skipped,
        }
    }
}

/// How the deletion of one entry ended.
#[derive(Debug, Clone, Copy, PartialEq, Eq, Structural)]
pub enum DeleteEnd {
    FileDeleted,
    DirDeleted,
    Failed,
    Skipped,
}

/// The counters once an entry has ended: exactly one of them moves.
pub open spec fn counted(stats: DeleteStats, end: DeleteEnd) -> DeleteStats {
    match end {
        DeleteEnd::FileDeleted => DeleteStats {
            files_deleted: stats.files_deleted.wrapping_add(1),
            ..stats
        },
        DeleteEnd::DirDeleted => DeleteStats {
            dirs_deleted: stats.dirs_deleted.wrapping_add(1),
            ..stats
        },
        DeleteEnd::Failed => DeleteStats {
            entries_failed: stats.entries_failed.wrapping_add(1),
            ..stats
        },
        DeleteEnd::Skipped => DeleteStats {
            entries_skipped: stats.entries_skipped.wrapping_add(1),
            ..stats
        },
    }
}

fn count(stats: &mut DeleteStats, end: DeleteEnd)
    ensures
        *final(stats) == counted(*old(stats), end),
{
    match end {
        DeleteEnd::FileDeleted => {
            stats.files_deleted = stats.files_deleted.wrapping_add(1);
        },
        DeleteEnd::DirDeleted => {
            stats.dirs_deleted = stats.dirs_deleted.wrapping_add(1);
        },
        DeleteEnd::Failed => {
            stats.entries_failed = stats.entries_failed.wrapping_add(1);
        },
        DeleteEnd::Skipped => {
            stats.entries_skipped = stats.entries_skipped.wrapping_add(1);
        },
    }
}

// ---------------------------------------------------------------------------
// The control file
// ---------------------------------------------------------------------------

#[derive(Debug, Clone, Copy, PartialEq, Eq, Structural)]
pub enum DeleteEntryType {
    File,
    Dir,
}

/// A line of a delete control file.
#[derive(Debug)]
pub struct DeleteEntry {
    pub path: String,
    pub entry_type: DeleteEntryType,
}

/// A delete control file: its header line, and its entries in order, without those that
/// could not be read, which are `None`.
#[derive(Debug)]
pub struct DeleteControl {
    pub header: String,
    pub entries: Vec<Option<DeleteEntry>>,
}

/// The control file that the delete phase reads.
pub fn run_delete_phase(ctrl_dir: &str) -> (s: String)
    ensures
        s@ == paths::join(ctrl_dir@, "delete.txt"@),
{
    paths::join_path(ctrl_dir, "delete.txt")
}

impl DeleteControl {
    /// Whether the paths of the file are logical ones, which begin at the root of the
    /// source: its header then names that root.
    pub open spec fn logical(&self) -> bool {
        text::contains(self.header@, " SOURCE_ROOT="@)
    }
}

// ---------------------------------------------------------------------------
// The plan
// ---------------------------------------------------------------------------

/// What is to be removed from the target, in this order: the files, then the
/// directories.
#[derive(Debug)]
pub struct DeletePlan {
    pub files: Vec<String>,
    pub dirs: Vec<String>,
}

/// The recorded paths of the entries of one kind, in order.
pub open spec fn recorded(
    entries: Seq<Option<DeleteEntry>>,
    entry_type: DeleteEntryType,
) -> Seq<Seq<char>>
    decreases entries.len(),
{
    if entries.len() == 0 {
        Seq::empty()
    } else {
        let earlier = recorded(entries.drop_last(), entry_type);
        match entries.last() {
            Some(e) => if e.entry_type == entry_type {
                earlier.push(e.path@)
            } else {
                earlier
            },
            None => earlier,
        }
    }
}

/// How many entries could be read.
pub open spec fn readable_count(entries: Seq<Option<DeleteEntry>>) -> nat
    decreases entries.len(),
{
    if entries.len() == 0 {
        0
    } else {
        readable_count(entries.drop_last()) + (if entries.last() is Some {
            1nat
        } else {
            0nat
        })
    }
}

/// Where the recorded paths lie on the target.
pub open spec fn targets(
    recorded: Seq<Seq<char>>,
    source_base: Seq<char>,
    target_base: Seq<char>,
    logical_paths: bool,
) -> Seq<Seq<char>> {
    recorded.map_values(
        |p: Seq<char>| path_util::placed_below(source_base, target_base, p, logical_paths),
    )
}

/// Whether a plan removes the files in the order of the control file, and then the
/// directories in descending order of their recorded paths.
pub open spec fn plan_for(
    plan: DeletePlan,
    control: DeleteControl,
    source_base: Seq<char>,
    target_base: Seq<char>,
) -> bool {
    &&& text::views(plan.files@) == targets(
        recorded(control.entries@, DeleteEntryType::File),
        source_base,
        target_base,
        control.logical(),
    )
    &&& exists|sorted: Seq<Seq<char>>| #[trigger]
        order::sorted_down(recorded(control.entries@, DeleteEntryType::Dir), sorted)
            && text::views(plan.dirs@) == targets(
            sorted,
            source_base,
            target_base,
            control.logical(),
        )
}

fn place_all(
    recorded: &Vec<String>,
    source_base: &str,
    target_base: &str,
    logical_paths: bool,
) -> (out: Vec<String>)
    ensures
        text::views(out@) == targets(
            text::views(recorded@),
            source_base@,
            target_base@,
            logical_paths,
        ),
{
    let mut out: Vec<String> = Vec::new();
    let mut i: usize = 0;
    while i < recorded.len()
        invariant
            i <= recorded@.len(),
            out@.len() == i,
            forall|k: int|
                0 <= k < i ==> (#[trigger] out@[k])@ == path_util::placed_below(
                    source_base@,
                    target_base@,
                    recorded@[k]@,
                    logical_paths,
                ),
        decreases recorded@.len() - i,
    {
        out.push(
            path_util::make_relative_and_join(
                source_base,
                target_base,
                recorded[i].as_str(),
                logical_paths,
            ),
        );
        i += 1;
    }
    assert(text::views(out@) =~= targets(
        text::views(recorded@),
        source_base@,
        target_base@,
        logical_paths,
    ));
    out
}

/// What the delete phase removes, and the counters before it starts. Without a control
/// file there is nothing to do.
pub fn process_deletes(
    control: Option<DeleteControl>,
    source_dir_base: &str,
    target_dir_base: &str,
) -> (r: (DeletePlan, DeleteStats))
    ensures
        plans_deletes(control, source_dir_base@, target_dir_base@, r),
{
    let mut stats = DeleteStats::default();
    let control = match control {
        None => {
            return (DeletePlan { files: Vec::new(), dirs: Vec::new() }, stats);
        },
        Some(c) => c,
    };
    let ghost whole = control;
    let ghost all = control.entries@;
    let logical_paths = text::contains_text(control.header.as_str(), " SOURCE_ROOT=");
    let mut files: Vec<String> = Vec::new();
    let mut dirs: Vec<String> = Vec::new();
    assert(all.len() == control.entries.len());
    assert(all.take(0) =~= Seq::empty());
    assert(text::views(files@) =~= recorded(all.take(0), DeleteEntryType::File));
    assert(text::views(dirs@) =~= recorded(all.take(0), DeleteEntryType::Dir));
    for entry in it: control.entries
        invariant
            it.seq() == all,
            text::views(files@) == recorded(all.take(it.index() as int), DeleteEntryType::File),
            text::views(dirs@) == recorded(all.take(it.index() as int), DeleteEntryType::Dir),
            readable_count(all.take(it.index() as int)) <= it.index(),
            it.index() <= all.len(),
            all.len() <= usize::MAX,
            stats == (DeleteStats {
                entries_processed: readable_count(all.take(it.index() as int)) as u64,
                files_deleted: 0,
                dirs_deleted: 0,
                entries_failed: (it.index() - readable_count(all.take(it.index() as int))) as u64,
                entries_skipped: 0,
            }),
    {
        let ghost done = it.index() as int;
        assert(all.take(done + 1).drop_last() =~= all.take(done));
        assert(all.take(done + 1).last() == entry);
        match entry {
            None => {
                count(&mut stats, DeleteEnd::Failed);
            },
            Some(e) => {
                stats.entries_processed = stats.entries_processed.wrapping_add(1);
                let ghost files_before = text::views(files@);
                let ghost dirs_before = text::views(dirs@);
                let ghost path = e.path@;
                match e.entry_type {
                    DeleteEntryType::File => {
                        files.push(e.path);
                        assert(text::views(files@) =~= files_before.push(path));
                    },
                    DeleteEntryType::Dir => {
                        dirs.push(e.path);
                        assert(text::views(dirs@) =~= dirs_before.push(path));
                    },
                }
            },
        }
    }
    assert(all.take(all.len() as int) =~= all);
    let sorted = order::sort_descending(dirs);
    let plan = DeletePlan {
        files: place_all(&files, source_dir_base, target_dir_base, logical_paths),
        dirs: place_all(&sorted, source_dir_base, target_dir_base, logical_paths),
    };
    proof {
        assert(order::sorted_down(
            recorded(whole.entries@, DeleteEntryType::Dir),
            text::views(sorted@),
        ));
    }
    (plan, stats)
}

/// A directory is removed after every recorded directory that lies below it.
pub proof fn law_deepest_directories_go_first(
    recorded: Seq<Seq<char>>,
    sorted: Seq<Seq<char>>,
    outer: int,
    inner: int,
    rel: Seq<char>,
)
    requires
        order::sorted_down(recorded, sorted),
        0 <= outer < sorted.len(),
        0 <= inner < sorted.len(),
        sorted[outer].len() > 0,
        rel.len() > 0,
        !paths::is_absolute(rel),
        sorted[inner] == paths::join(sorted[outer], rel),
    ensures
        inner < outer,
{
    assert(sorted[outer] =~= sorted[inner].take(sorted[outer].len() as int));
    order::law_extensions_come_first(sorted, outer, inner);
}

// ---------------------------------------------------------------------------
// Removing one entry
// ---------------------------------------------------------------------------

/// What was found at a path.
#[derive(Debug, Clone, Copy, PartialEq, Eq, Structural)]
pub enum Probe {
    Missing,
    File,
    Directory,
    Other,
}

/// Whether a file entry is to be removed; otherwise it is passed over.
pub fn file_is_deleted(found: Probe, stats: &mut DeleteStats) -> (r: bool)
    ensures
        decides_file(found, *old(stats), *final(stats), r),
{
    if found == Probe::File {
        true
    } else {
        count(stats, DeleteEnd::Skipped);
        false
    }
}

/// Whether a directory entry is to be removed; otherwise it is passed over.
pub fn dir_is_deleted(found: Probe, stats: &mut DeleteStats) -> (r: bool)
    ensures
        decides_dir(found, *old(stats), *final(stats), r),
{
    if found == Probe::Directory {
        true
    } else {
        count(stats, DeleteEnd::Skipped);
        false
    }
}

/// Counts a file after its removal, and records a failure.
pub fn file_was_removed(path: &str, result: Result<(), IoFailure>, stats: &mut DeleteStats) -> (r:
    Option<FailureRecord>)
    ensures
        counts_removed_file(path@, result, *old(stats), *final(stats), r),
{
    match result {
        Ok(_) => {
            count(stats, DeleteEnd::FileDeleted);
            None
        },
        Err(f) => {
            count(stats, DeleteEnd::Failed);
            Some(record_failure("delete_file", FailureItemType::File, path, &f))
        },
    }
}

/// Goes on after an attempt to remove a directory as an empty one. Where that failed,
/// the directory is to be removed with all that it holds.
pub fn empty_dir_was_removed(ok: bool, stats: &mut DeleteStats) -> (remove_all: bool)
    ensures
        counts_empty_dir(ok, *old(stats), *final(stats), remove_all),
{
    if ok {
        count(stats, DeleteEnd::DirDeleted);
    }
    !ok
}

/// Counts a directory after it was removed with all that it holds, and records a failure.
pub fn dir_was_removed(path: &str, result: Result<(), IoFailure>, stats: &mut DeleteStats) -> (r:
    Option<FailureRecord>)
    ensures
        counts_removed_dir(path@, result, *old(stats), *final(stats), r),
{
    match result {
        Ok(_) => {
            count(stats, DeleteEnd::DirDeleted);
            None
        },
        Err(f) => {
            count(stats, DeleteEnd::Failed);
            Some(record_failure("delete_dir", FailureItemType::Directory, path, &f))
        },
    }
}

// ---------------------------------------------------------------------------
// All entries
// ---------------------------------------------------------------------------

/// What was found in the place of a file, and how its removal ended.
#[derive(Debug)]
pub struct FileRemoval {
    pub found: Probe,
    pub removed: Result<(), IoFailure>,
}

/// What was found in the place of a directory, whether it could be removed as an empty
/// one, and otherwise how its removal with all that it holds ended.
#[derive(Debug)]
pub struct DirRemoval {
    pub found: Probe,
    pub was_empty: bool,
    pub removed: Result<(), IoFailure>,
}

/// How the deletion of a file ends.
pub open spec fn file_end(r: FileRemoval) -> DeleteEnd {
    if r.found != Probe::File {
        DeleteEnd::Skipped
    } else if r.removed is Ok {
        DeleteEnd::FileDeleted
    } else {
        DeleteEnd::Failed
    }
}

/// How the deletion of a directory ends.
pub open spec fn dir_end(r: DirRemoval) -> DeleteEnd {
    if r.found != Probe::Directory {
        DeleteEnd::Skipped
    } else if r.was_empty || r.removed is Ok {
        DeleteEnd::DirDeleted
    } else {
        DeleteEnd::Failed
    }
}

pub open spec fn file_ends(removals: Seq<FileRemoval>) -> Seq<DeleteEnd> {
    removals.map_values(|r: FileRemoval| file_end(r))
}

pub open spec fn dir_ends(removals: Seq<DirRemoval>) -> Seq<DeleteEnd> {
    removals.map_values(|r: DirRemoval| dir_end(r))
}

/// The entries that failed, by their number.
pub open spec fn failed_entries(ends: Seq<DeleteEnd>) -> Seq<int>
    decreases ends.len(),
{
    if ends.len() == 0 {
        Seq::empty()
    } else if ends.last() == DeleteEnd::Failed {
        failed_entries(ends.drop_last()).push(ends.len() - 1)
    } else {
        failed_entries(ends.drop_last())
    }
}

/// Whether the records tell of the given files, one for one.
pub open spec fn tell_of_files(
    records: Seq<FailureRecord>,
    failed: Seq<int>,
    paths: Seq<String>,
    removals: Seq<FileRemoval>,
) -> bool {
    &&& records.len() == failed.len()
    &&& forall|n: int|
        0 <= n < records.len() ==> crate::failure::tells_result(
            Some(#[trigger] records[n]),
            "delete_file"@,
            FailureItemType::File,
            paths[failed[n]]@,
            removals[failed[n]].removed,
        )
}

/// Whether the records tell of the given directories, one for one.
pub open spec fn tell_of_dirs(
    records: Seq<FailureRecord>,
    failed: Seq<int>,
    paths: Seq<String>,
    removals: Seq<DirRemoval>,
) -> bool {
    &&& records.len() == failed.len()
    &&& forall|n: int|
        0 <= n < records.len() ==> crate::failure::tells_result(
            Some(#[trigger] records[n]),
            "delete_dir"@,
            FailureItemType::Directory,
            paths[failed[n]]@,
            removals[failed[n]].removed,
        )
}

/// Counts the files of a plan, given what became of each, and records the failures in
/// order.
pub fn delete_files(paths: &Vec<String>, removals: Vec<FileRemoval>, stats: &mut DeleteStats) -> (
    records: Vec<FailureRecord>)
    requires
        removals@.len() == paths@.len(),
    ensures
        *final(stats) == all_counted(*old(stats), file_ends(removals@)),
        tell_of_files(records@, failed_entries(file_ends(removals@)), paths@, removals@),
{
    let ghost all = removals@;
    let ghost ends = file_ends(all);
    let ghost before = *stats;
    let mut records: Vec<FailureRecord> = Vec::new();
    let mut i: usize = 0;
    assert(all.len() == removals.len());
    assert(ends.take(0) =~= Seq::empty());
    for removal in it: removals
        invariant
            it.seq() == all,
            it.index() == i,
            i <= all.len() <= usize::MAX,
            all.len() == paths@.len(),
            ends == file_ends(all),
            *stats == all_counted(before, ends.take(i as int)),
            tell_of_files(records@, failed_entries(ends.take(i as int)), paths@, all),
    {
        assert(removal == all[i as int]);
        assert(ends.take(i + 1).drop_last() =~= ends.take(i as int));
        assert(ends.take(i + 1).last() == file_end(all[i as int]));
        if file_is_deleted(removal.found, stats) {
            if let Some(record) = file_was_removed(paths[i].as_str(), removal.removed, stats) {
                records.push(record);
            }
        }
        i = i + 1;
    }
    assert(ends.take(ends.len() as int) =~= ends);
    records
}

/// Counts the directories of a plan, given what became of each, and records the failures
/// in order.
pub fn delete_dirs(paths: &Vec<String>, removals: Vec<DirRemoval>, stats: &mut DeleteStats) -> (
    records: Vec<FailureRecord>)
    requires
        removals@.len() == paths@.len(),
    ensures
        *final(stats) == all_counted(*old(stats), dir_ends(removals@)),
        tell_of_dirs(records@, failed_entries(dir_ends(removals@)), paths@, removals@),
{
    let ghost all = removals@;
    let ghost ends = dir_ends(all);
    let ghost before = *stats;
    let mut records: Vec<FailureRecord> = Vec::new();
    let mut i: usize = 0;
    assert(all.len() == removals.len());
    assert(ends.take(0) =~= Seq::empty());
    for removal in it: removals
        invariant
            it.seq() == all,
            it.index() == i,
            i <= all.len() <= usize::MAX,
            all.len() == paths@.len(),
            ends == dir_ends(all),
            *stats == all_counted(before, ends.take(i as int)),
            tell_of_dirs(records@, failed_entries(ends.take(i as int)), paths@, all),
    {
        assert(removal == all[i as int]);
        assert(ends.take(i + 1).drop_last() =~= ends.take(i as int));
        assert(ends.take(i + 1).last() == dir_end(all[i as int]));
        if dir_is_deleted(removal.found, stats) {
            if empty_dir_was_removed(removal.was_empty, stats) {
                if let Some(record) = dir_was_removed(paths[i].as_str(), removal.removed, stats) {
                    records.push(record);
                }
            }
        }
        i = i + 1;
    }
    assert(ends.take(ends.len() as int) =~= ends);
    records
}

/// The counters once several entries have ended, one after the other.
pub open spec fn all_counted(stats: DeleteStats, ends: Seq<DeleteEnd>) -> DeleteStats
    decreases ends.len(),
{
    if ends.len() == 0 {
        stats
    } else {
        counted(all_counted(stats, ends.drop_last()), ends.last())
    }
}

/// How many entries have ended.
pub open spec fn ended(stats: DeleteStats) -> int {
    stats.files_deleted + stats.dirs_deleted + stats.entries_failed + stats.entries_skipped
}

/// Every entry is counted exactly once: as a file or directory deleted, as failed or as
/// passed over.
pub proof fn law_every_deletion_is_counted(stats: DeleteStats, ends: Seq<DeleteEnd>)
    requires
        ended(stats) + ends.len() <= u64::MAX,
    ensures
        ended(all_counted(stats, ends)) == ended(stats) + ends.len(),
        all_counted(stats, ends).entries_processed == stats.entries_processed,
    decreases ends.len(),
{
    if ends.len() > 0 {
        law_every_deletion_is_counted(stats, ends.drop_last());
    }
}

/// The recorded paths of one kind are taken in order: those of two lists, one behind the
/// other, are those of the first and then those of the second, and an entry belongs to its
/// own kind only.
pub proof fn law_entries_are_taken_by_kind(
    a: Seq<Option<DeleteEntry>>,
    b: Seq<Option<DeleteEntry>>,
    e: DeleteEntry,
    kind: DeleteEntryType,
)
    ensures
        recorded(a + b, kind) == recorded(a, kind) + recorded(b, kind),
        recorded(seq![Some(e)], kind) == (if e.entry_type == kind {
            seq![e.path@]
        } else {
            Seq::<Seq<char>>::empty()
        }),
        recorded(seq![None::<DeleteEntry>], kind).len() == 0,
    decreases b.len(),
{
    reveal_with_fuel(recorded, 2);
    assert(seq![Some(e)].drop_last() =~= Seq::empty());
    assert(seq![None::<DeleteEntry>].drop_last() =~= Seq::empty());
    assert(recorded(seq![Some(e)], kind) =~= (if e.entry_type == kind {
        seq![e.path@]
    } else {
        Seq::<Seq<char>>::empty()
    }));
    if b.len() == 0 {
        assert(a + b =~= a);
        assert(recorded(a, kind) + recorded(b, kind) =~= recorded(a, kind));
    } else {
        law_entries_are_taken_by_kind(a, b.drop_last(), e, kind);
        assert((a + b).drop_last() =~= a + b.drop_last());
        assert((a + b).last() == b.last());
        assert(recorded(a + b, kind) =~= recorded(a, kind) + recorded(b, kind));
    }
}

/// Every entry that can be read is planned for exactly once, as a file or as a directory.
pub proof fn law_every_entry_is_planned_for(
    plan: DeletePlan,
    control: DeleteControl,
    source_base: Seq<char>,
    target_base: Seq<char>,
)
    requires
        plan_for(plan, control, source_base, target_base),
    ensures
        plan.files@.len() + plan.dirs@.len() == control.entries@.filter(
            |e: Option<DeleteEntry>| e is Some,
        ).len(),
        readable_count(control.entries@) == control.entries@.filter(
            |e: Option<DeleteEntry>| e is Some,
        ).len(),
{
    let entries = control.entries@;
    lemma_kinds_add_up(entries);
    let dirs = recorded(entries, DeleteEntryType::Dir);
    let sorted = choose|sorted: Seq<Seq<char>>| #[trigger]
        order::sorted_down(dirs, sorted) && text::views(plan.dirs@) == targets(
            sorted,
            source_base,
            target_base,
            control.logical(),
        );
    broadcast use vstd::seq_lib::group_to_multiset_ensures;

    assert(sorted.to_multiset().len() == dirs.to_multiset().len());
    assert(text::views(plan.dirs@).len() == sorted.len());
    assert(text::views(plan.files@).len() == plan.files@.len());
}

proof fn lemma_kinds_add_up(entries: Seq<Option<DeleteEntry>>)
    ensures
        recorded(entries, DeleteEntryType::File).len() + recorded(
            entries,
            DeleteEntryType::Dir,
        ).len() == entries.filter(|e: Option<DeleteEntry>| e is Some).len(),
        readable_count(entries) == entries.filter(|e: Option<DeleteEntry>| e is Some).len(),
    decreases entries.len(),
{
    reveal(Seq::filter);
    if entries.len() > 0 {
        lemma_kinds_add_up(entries.drop_last());
    }
}

/// A file is deleted where the copy of it was written: the target joined with the recorded
/// path, from the source base on or, where the header names a root, as a whole without its
/// leading slash.
pub proof fn law_the_copy_is_deleted(
    plan: DeletePlan,
    control: DeleteControl,
    source_base: Seq<char>,
    target_base: Seq<char>,
    i: int,
    rel: Seq<char>,
)
    requires
        plan_for(plan, control, source_base, target_base),
        source_base.len() > 0,
        paths::is_clean(rel),
        0 <= i < plan.files@.len(),
    ensures
        recorded(control.entries@, DeleteEntryType::File).len() == plan.files@.len(),
        recorded(control.entries@, DeleteEntryType::File)[i] == paths::join(source_base, rel)
            ==> plan.files@[i]@ == paths::join(target_base, rel),
        recorded(control.entries@, DeleteEntryType::File)[i] == seq!['/'] + rel && text::contains(
            control.header@,
            " SOURCE_ROOT="@,
        ) && !paths::starts_with(seq!['/'] + rel, source_base) ==> plan.files@[i]@ == paths::join(
            target_base,
            rel,
        ),
        recorded(control.entries@, DeleteEntryType::File)[i] == seq!['/'] + rel && !text::contains(
            control.header@,
            " SOURCE_ROOT="@,
        ) && !paths::starts_with(seq!['/'] + rel, source_base) && paths::file_name(source_base)
            != Some(paths::pieces(rel)[0]) ==> (paths::file_name(seq!['/'] + rel) matches Some(n)
            ==> plan.files@[i]@ == paths::join(target_base, n)),
{
    let files = recorded(control.entries@, DeleteEntryType::File);
    assert(text::views(plan.files@)[i] == plan.files@[i]@);
    assert(text::views(plan.files@).len() == files.len());
    path_util::law_path_below_base_is_kept(source_base, rel);
    if !paths::starts_with(seq!['/'] + rel, source_base) {
        path_util::law_paths_outside_the_base(source_base, rel);
    }
}

/// Files are deleted only where a file was found, and directories only where a directory
/// was; anything else is passed over. Each removal that was tried counts by how it went: a
/// directory counts as deleted once it is gone, empty or not.
pub proof fn law_removals_end_as_they_went(f: FileRemoval, d: DirRemoval)
    ensures
        file_end(f) == DeleteEnd::Skipped <==> f.found != Probe::File,
        file_end(f) == DeleteEnd::FileDeleted <==> f.found == Probe::File && f.removed is Ok,
        file_end(f) == DeleteEnd::Failed <==> f.found == Probe::File && f.removed is Err,
        dir_end(d) == DeleteEnd::Skipped <==> d.found != Probe::Directory,
        dir_end(d) == DeleteEnd::DirDeleted <==> d.found == Probe::Directory && (d.was_empty
            || d.removed is Ok),
        dir_end(d) == DeleteEnd::Failed <==> d.found == Probe::Directory && !d.was_empty
            && d.removed is Err,
{
}

/// Each counter tells how often its end came.
pub proof fn law_deletion_counters_tell_the_ends(stats: DeleteStats, ends: Seq<DeleteEnd>)
    requires
        ended(stats) + ends.len() <= u64::MAX,
    ensures
        ({
            let end = all_counted(stats, ends);
            &&& end.files_deleted == stats.files_deleted + ends.filter(
                |e: DeleteEnd| e == DeleteEnd::FileDeleted,
            ).len()
            &&& end.dirs_deleted == stats.dirs_deleted + ends.filter(
                |e: DeleteEnd| e == DeleteEnd::DirDeleted,
            ).len()
            &&& end.entries_failed == stats.entries_failed + ends.filter(
                |e: DeleteEnd| e == DeleteEnd::Failed,
            ).len()
            &&& end.entries_skipped == stats.entries_skipped + ends.filter(
                |e: DeleteEnd| e == DeleteEnd::Skipped,
            ).len()
        }),
    decreases ends.len(),
{
    reveal(Seq::filter);
    law_every_deletion_is_counted(stats, ends);
    if ends.len() > 0 {
        law_deletion_counters_tell_the_ends(stats, ends.drop_last());
        law_every_deletion_is_counted(stats, ends.drop_last());
    }
}

/// A record is made of every entry that failed and of no other, in their order.
pub proof fn law_failures_are_recorded(ends: Seq<DeleteEnd>)
    ensures
        failed_entries(ends).len() == ends.filter(|e: DeleteEnd| e == DeleteEnd::Failed).len(),
        forall|n: int|
            0 <= n < failed_entries(ends).len() ==> 0 <= #[trigger] failed_entries(ends)[n]
                < ends.len() && ends[failed_entries(ends)[n]] == DeleteEnd::Failed,
        forall|n: int, m: int|
            0 <= n < m < failed_entries(ends).len() ==> #[trigger] failed_entries(ends)[n]
                < #[trigger] failed_entries(ends)[m],
    decreases ends.len(),
{
    reveal(Seq::filter);
    if ends.len() > 0 {
        law_failures_are_recorded(ends.drop_last());
    }
}

/// Whether `r` is what the delete phase removes, and the counters before it starts.
pub open spec fn plans_deletes(
    control: Option<DeleteControl>,
    source_base: Seq<char>,
    target_base: Seq<char>,
    r: (DeletePlan, DeleteStats),
) -> bool {
    match control {
        None => r.0.files@.len() == 0 && r.0.dirs@.len() == 0 && r.1 == (DeleteStats {
            entries_processed: 0,
            files_deleted: 0,
            dirs_deleted: 0,
            entries_failed: 0,
            entries_skipped: 0,
        }),
        Some(c) => {
            &&& plan_for(r.0, c, source_base, target_base)
            &&& r.1 == (DeleteStats {
                entries_processed: readable_count(c.entries@) as u64,
                files_deleted: 0,
                dirs_deleted: 0,
                entries_failed: (c.entries@.len() - readable_count(c.entries@)) as u64,
                entries_skipped: 0,
            })
        },
    }
}

/// Without a control file nothing is removed. With one, what is removed is planned from it,
/// every entry that can be read is processed and every other one has failed, and nothing
/// counts as deleted yet.
pub proof fn law_only_recorded_entries_are_deleted(
    control: DeleteControl,
    source_base: Seq<char>,
    target_base: Seq<char>,
    r: (DeletePlan, DeleteStats),
    none: (DeletePlan, DeleteStats),
)
    requires
        plans_deletes(Some(control), source_base, target_base, r),
        plans_deletes(None, source_base, target_base, none),
        control.entries@.len() <= u64::MAX,
    ensures
        none.0.files@.len() == 0 && none.0.dirs@.len() == 0,
        plan_for(r.0, control, source_base, target_base),
        r.1.entries_processed == control.entries@.filter(|e: Option<DeleteEntry>| e is Some).len(),
        r.1.entries_processed + r.1.entries_failed == control.entries@.len(),
        r.1.files_deleted == 0 && r.1.dirs_deleted == 0 && r.1.entries_skipped == 0,
{
    lemma_readable_entries(control.entries@);
}

proof fn lemma_readable_entries(entries: Seq<Option<DeleteEntry>>)
    ensures
        readable_count(entries) == entries.filter(|e: Option<DeleteEntry>| e is Some).len(),
        readable_count(entries) <= entries.len(),
    decreases entries.len(),
{
    reveal(Seq::filter);
    if entries.len() > 0 {
        lemma_readable_entries(entries.drop_last());
    }
}

/// Whether `r` says if a file entry is to be removed, and `after` are the counters then.
pub open spec fn decides_file(
    found: Probe,
    before: DeleteStats,
    after: DeleteStats,
    r: bool,
) -> bool {
    &&& r == (found == Probe::File)
    &&& after == (if r {
        before
    } else {
        counted(before, DeleteEnd::Skipped)
    })
}

/// Whether `r` says if a directory entry is to be removed, and `after` are the counters then.
pub open spec fn decides_dir(
    found: Probe,
    before: DeleteStats,
    after: DeleteStats,
    r: bool,
) -> bool {
    &&& r == (found == Probe::Directory)
    &&& after == (if r {
        before
    } else {
        counted(before, DeleteEnd::Skipped)
    })
}

/// Whether `remove_all` says if a directory is left that is not empty, and `after` are the
/// counters then.
pub open spec fn counts_empty_dir(
    ok: bool,
    before: DeleteStats,
    after: DeleteStats,
    remove_all: bool,
) -> bool {
    &&& remove_all == !ok
    &&& after == (if ok {
        counted(before, DeleteEnd::DirDeleted)
    } else {
        before
    })
}

/// Whether a file is counted after its removal, and a failure is recorded.
pub open spec fn counts_removed_file(
    path: Seq<char>,
    result: Result<(), IoFailure>,
    before: DeleteStats,
    after: DeleteStats,
    r: Option<FailureRecord>,
) -> bool {
    &&& crate::failure::tells_result(r, "delete_file"@, FailureItemType::File, path, result)
    &&& after == counted(
        before,
        (if result is Ok {
            DeleteEnd::FileDeleted
        } else {
            DeleteEnd::Failed
        }),
    )
}

/// Whether a directory is counted after its removal, and a failure is recorded.
pub open spec fn counts_removed_dir(
    path: Seq<char>,
    result: Result<(), IoFailure>,
    before: DeleteStats,
    after: DeleteStats,
    r: Option<FailureRecord>,
) -> bool {
    &&& crate::failure::tells_result(r, "delete_dir"@, FailureItemType::Directory, path, result)
    &&& after == counted(
        before,
        (if result is Ok {
            DeleteEnd::DirDeleted
        } else {
            DeleteEnd::Failed
        }),
    )
}

/// A file is removed only where a file is, and a directory only where a directory is: what is
/// something else by now is passed over, and so is what is gone.
pub proof fn law_only_what_was_recorded_is_removed(
    found: Probe,
    before: DeleteStats,
    after: DeleteStats,
    r: bool,
)
    requires
        before.entries_skipped < u64::MAX,
    ensures
        decides_file(found, before, after, r) ==> {
            &&& r <==> found == Probe::File
            &&& r ==> after == before
            &&& !r ==> after.entries_skipped == before.entries_skipped + 1
        },
        decides_dir(found, before, after, r) ==> {
            &&& r <==> found == Probe::Directory
            &&& r ==> after == before
            &&& !r ==> after.entries_skipped == before.entries_skipped + 1
        },
        decides_file(found, before, after, true) ==> !decides_dir(found, before, after, true),
{
}

/// A removal counts as what was removed, or as a failure with a record that names the path. A
/// directory that could not be removed as an empty one is not counted yet.
pub proof fn law_removals_are_counted_and_recorded(
    path: Seq<char>,
    result: Result<(), IoFailure>,
    ok: bool,
    before: DeleteStats,
    after: DeleteStats,
    record: Option<FailureRecord>,
    remove_all: bool,
)
    requires
        before.files_deleted < u64::MAX,
        before.dirs_deleted < u64::MAX,
        before.entries_failed < u64::MAX,
    ensures
        counts_removed_file(path, result, before, after, record) ==> {
            &&& record is Some <==> result is Err
            &&& record matches Some(x) ==> x.path@ == path && x.item_type == FailureItemType::File
            &&& result is Ok ==> after.files_deleted == before.files_deleted + 1
            &&& result is Err ==> after.entries_failed == before.entries_failed + 1
                && after.files_deleted == before.files_deleted
        },
        counts_removed_dir(path, result, before, after, record) ==> {
            &&& record is Some <==> result is Err
            &&& record matches Some(x) ==> x.path@ == path && x.item_type
                == FailureItemType::Directory
            &&& result is Ok ==> after.dirs_deleted == before.dirs_deleted + 1
            &&& result is Err ==> after.entries_failed == before.entries_failed + 1
                && after.dirs_deleted == before.dirs_deleted
        },
        counts_empty_dir(ok, before, after, remove_all) ==> {
            &&& remove_all <==> !ok
            &&& ok ==> after.dirs_deleted == before.dirs_deleted + 1
            &&& !ok ==> after == before
        },
{
}

/// Every record of a failed removal names the path that could not be removed, whether it was a
/// file or a directory.
pub proof fn law_records_name_what_is_left(
    records: Seq<FailureRecord>,
    failed: Seq<int>,
    paths: Seq<String>,
    files: Seq<FileRemoval>,
    dirs: Seq<DirRemoval>,
    n: int,
)
    requires
        0 <= n < records.len(),
    ensures
        tell_of_files(records, failed, paths, files) ==> records.len() == failed.len()
            && records[n].path@ == paths[failed[n]]@ && records[n].item_type == FailureItemType::File
            && files[failed[n]].removed is Err,
        tell_of_dirs(records, failed, paths, dirs) ==> records.len() == failed.len()
            && records[n].path@ == paths[failed[n]]@ && records[n].item_type
            == FailureItemType::Directory && dirs[failed[n]].removed is Err,
{
}

} // verus!
