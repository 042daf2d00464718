//! The mtime phase: directories get back the times that they had on the source.
use vstd::prelude::*;

use crate::failure::{record_failure, FailureItemType, FailureRecord, IoFailure};
use crate::path_util;
use crate::paths;

verus! {

/// Counters of the mtime phase.
#[derive(Debug, Clone, Copy, PartialEq, Eq, Structural)]
pub struct MtimeStats {
    pub dirs_processed: u64,
    pub dirs_restored: u64,
    pub dirs_failed: u64,
    /// Directories that were not found.
    pub dirs_skipped: u64,
}

/// The counters at one moment.
#[derive(Debug, Clone, Copy, PartialEq, Eq, Structural)]
pub struct MtimeStatsSnapshot {
    pub dirs_processed: u64,
    pub dirs_restored: u64,
    pub dirs_failed: u64,
    pub dirs_skipped: u64,
}

impl Default for MtimeStats {
    fn default() -> (r: Self)
        ensures
            r == (MtimeStats {
                dirs_processed: 0,
                dirs_restored: 0,
                dirs_failed: 0,
                dirs_skipped: 0,
            }),
    {
        MtimeStats { dirs_processed: 0, dirs_restored: 0, dirs_failed: 0, dirs_skipped: 0 }
    }
}

impl MtimeStats {
    pub fn snapshot(&self) -> (r: MtimeStatsSnapshot)
        ensures
            r == (MtimeStatsSnapshot {
                dirs_processed: self.dirs_processed,
                dirs_restored: self.dirs_restored,
                dirs_failed: self.dirs_failed,
                dirs_skipped: self.dirs_skipped,
            }),
    {
        MtimeStatsSnapshot {
            dirs_processed: self.dirs_processed,
            dirs_restored: self.dirs_restored,
            dirs_failed: self.dirs_failed,
            dirs_skipped: self.dirs_skipped,
        }
    }
}

/// A line of an mtime control file. Times are seconds since the Unix epoch.
#[derive(Debug)]
pub struct MtimeEntry {
    pub path: String,
    pub atime: u64,
    pub mtime: u64,
}

/// An mtime control file: the root of the source that its header names, and its entries
/// in order, where those that could not be read are `None`.
#[derive(Debug)]
pub struct MtimeControl {
    pub source_root: String,
    pub entries: Vec<Option<MtimeEntry>>,
}

/// A directory on the target, and the times that it is to have, as the operating system
/// counts them.
#[derive(Debug)]
pub struct SetTimes {
    pub path: String,
    pub atime: i64,
    pub mtime: i64,
}

/// Whether `set` gives the directory of an entry its times. Paths are logical where the
/// header names a root.
pub open spec fn sets(
    set: SetTimes,
    e: MtimeEntry,
    control: MtimeControl,
    source_base: Seq<char>,
    target_base: Seq<char>,
) -> bool {
    &&& set.path@ == path_util::placed_below(
        source_base,
        target_base,
        e.path@,
        control.source_root@.len() > 0,
    )
    &&& set.atime == e.atime as i64
    &&& set.mtime == e.mtime as i64
}

/// The entries that could be read, in order.
pub open spec fn readable(entries: Seq<Option<MtimeEntry>>) -> Seq<MtimeEntry>
    decreases entries.len(),
{
    if entries.len() == 0 {
        Seq::empty()
    } else {
        match entries.last() {
            Some(e) => readable(entries.drop_last()).push(e),
            None => readable(entries.drop_last()),
        }
    }
}

/// The directories whose times are to be set, in the order of the control file, and the
/// counters before that starts. Without a control file there is nothing to do.
pub fn process_mtime(control: Option<MtimeControl>, source_dir_base: &str, target_dir_base: &str)
    -> (r: (Vec<SetTimes>, MtimeStats))
    ensures
        plans_times(control, source_dir_base@, target_dir_base@, r),
{
    let mut stats = MtimeStats::default();
    let mut out: Vec<SetTimes> = Vec::new();
    let control = match control {
        None => {
            return (out, stats);
        },
        Some(c) => c,
    };
    let ghost whole = control;
    let ghost all = control.entries@;
    let logical_paths = !control.source_root.as_str().is_empty();
    assert(all.len() == control.entries.len());
    assert(all.take(0) =~= Seq::empty());
    for entry in it: control.entries
        invariant
            it.seq() == all,
            all == whole.entries@,
            logical_paths == (whole.source_root@.len() > 0),
            it.index() <= all.len() <= usize::MAX,
            out@.len() == readable(all.take(it.index() as int)).len(),
            out@.len() <= it.index(),
            forall|i: int|
                0 <= i < out@.len() ==> sets(
                    #[trigger] out@[i],
                    readable(all.take(it.index() as int))[i],
                    whole,
                    source_dir_base@,
                    target_dir_base@,
                ),
            stats == (MtimeStats {
                dirs_processed: out@.len() as u64,
                dirs_restored: 0,
                dirs_failed: (it.index() - out@.len()) as u64,
                dirs_skipped: 0,
            }),
    {
        let ghost done = it.index() as int;
        assert(all.take(done + 1).drop_last() =~= all.take(done));
        assert(all.take(done + 1).last() == entry);
        match entry {
            None => {
                stats.dirs_failed = stats.dirs_failed.wrapping_add(1);
            },
            Some(e) => {
                stats.dirs_processed = stats.dirs_processed.wrapping_add(1);
                out.push(
                    SetTimes {
                        path: path_util::make_relative_and_join(
                            source_dir_base,
                            target_dir_base,
                            e.path.as_str(),
                            logical_paths,
                        ),
                        atime: e.atime as i64,
                        mtime: e.mtime as i64,
                    },
                );
            },
        }
    }
    assert(all.take(all.len() as int) =~= all);
    (out, stats)
}

/// How a directory is counted.
#[derive(Debug, Clone, Copy, PartialEq, Eq, Structural)]
pub enum TimesCount {
    Skipped,
    Restored,
    Failed,
}

/// The counters once a directory was dealt with: exactly one of them moves.
pub open spec fn counted(stats: MtimeStats, dir: TimesCount) -> MtimeStats {
    match dir {
        TimesCount::Skipped => MtimeStats {
            dirs_skipped: stats.dirs_skipped.wrapping_add(1),
            ..stats
        },
        TimesCount::Restored => MtimeStats {
            dirs_restored: stats.dirs_restored.wrapping_add(1),
            ..stats
        },
        TimesCount::Failed => MtimeStats {
            dirs_failed: stats.dirs_failed.wrapping_add(1),
            ..stats
        },
    }
}

/// Whether the times of a directory are to be set: one that does not exist is passed over.
pub fn dir_is_restored(exists: bool, stats: &mut MtimeStats) -> (r: bool)
    ensures
        decides_times(exists, *old(stats), *final(stats), r),
{
    if !exists {
        stats.dirs_skipped = stats.dirs_skipped.wrapping_add(1);
    }
    exists
}

/// Counts a directory after its times were set, and records a failure.
pub fn times_were_set(path: &str, result: Result<(), IoFailure>, stats: &mut MtimeStats) -> (r:
    Option<FailureRecord>)
    ensures
        counts_times(path@, result, *old(stats), *final(stats), r),
{
    match result {
        Ok(_) => {
            stats.dirs_restored = stats.dirs_restored.wrapping_add(1);
            None
        },
        Err(f) => {
            stats.dirs_failed = stats.dirs_failed.wrapping_add(1);
            Some(record_failure("set_mtime", FailureItemType::Directory, path, &f))
        },
    }
}

/// Whether a directory exists, and how the setting of its times ended.
#[derive(Debug)]
pub struct TimesSet {
    pub exists: bool,
    pub result: Result<(), IoFailure>,
}

/// How a directory is counted.
pub open spec fn times_count(t: TimesSet) -> TimesCount {
    if !t.exists {
        TimesCount::Skipped
    } else if t.result is Ok {
        TimesCount::Restored
    } else {
        TimesCount::Failed
    }
}

pub open spec fn times_counts(set: Seq<TimesSet>) -> Seq<TimesCount> {
    set.map_values(|t: TimesSet| times_count(t))
}

/// The directories that failed, by their number.
pub open spec fn failed_dirs(dirs: Seq<TimesCount>) -> Seq<int>
    decreases dirs.len(),
{
    if dirs.len() == 0 {
        Seq::empty()
    } else if dirs.last() == TimesCount::Failed {
        failed_dirs(dirs.drop_last()).push(dirs.len() - 1)
    } else {
        failed_dirs(dirs.drop_last())
    }
}

/// Whether the records tell of the given directories, one for one.
pub open spec fn tell_of(
    records: Seq<FailureRecord>,
    failed: Seq<int>,
    dirs: Seq<SetTimes>,
    set: Seq<TimesSet>,
) -> bool {
    &&& records.len() == failed.len()
    &&& forall|n: int|
        0 <= n < records.len() ==> crate::failure::tells_result(
            Some(#[trigger] records[n]),
            "set_mtime"@,
            FailureItemType::Directory,
            dirs[failed[n]].path@,
            set[failed[n]].result,
        )
}

/// Counts the directories of a control file, given what became of each, and records the
/// failures in order.
pub fn restore_times(dirs: &Vec<SetTimes>, set: Vec<TimesSet>, stats: &mut MtimeStats) -> (records:
    Vec<FailureRecord>)
    requires
        set@.len() == dirs@.len(),
    ensures
        *final(stats) == all_counted(*old(stats), times_counts(set@)),
        tell_of(records@, failed_dirs(times_counts(set@)), dirs@, set@),
{
    let ghost all = set@;
    let ghost counts = times_counts(all);
    let ghost before = *stats;
    let mut records: Vec<FailureRecord> = Vec::new();
    let mut i: usize = 0;
    assert(all.len() == set.len());
    assert(counts.take(0) =~= Seq::empty());
    for times in it: set
        invariant
            it.seq() == all,
            it.index() == i,
            i <= all.len() <= usize::MAX,
            all.len() == dirs@.len(),
            counts == times_counts(all),
            *stats == all_counted(before, counts.take(i as int)),
            tell_of(records@, failed_dirs(counts.take(i as int)), dirs@, all),
    {
        assert(times == all[i as int]);
        assert(counts.take(i + 1).drop_last() =~= counts.take(i as int));
        assert(counts.take(i + 1).last() == times_count(all[i as int]));
        if dir_is_restored(times.exists, stats) {
            if let Some(record) = times_were_set(dirs[i].path.as_str(), times.result, stats) {
                records.push(record);
            }
        }
        i = i + 1;
    }
    assert(counts.take(counts.len() as int) =~= counts);
    records
}

/// The counters once several directories were dealt with, one after the other.
pub open spec fn all_counted(stats: MtimeStats, dirs: Seq<TimesCount>) -> MtimeStats
    decreases dirs.len(),
{
    if dirs.len() == 0 {
        stats
    } else {
        counted(all_counted(stats, dirs.drop_last()), dirs.last())
    }
}

/// How many directories were dealt with.
pub open spec fn dealt_with(stats: MtimeStats) -> int {
    stats.dirs_skipped + stats.dirs_restored + stats.dirs_failed
}

/// Every directory is counted exactly once: as restored, as failed or as passed over.
pub proof fn law_every_directory_is_counted(stats: MtimeStats, dirs: Seq<TimesCount>)
    requires
        dealt_with(stats) + dirs.len() <= u64::MAX,
    ensures
        dealt_with(all_counted(stats, dirs)) == dealt_with(stats) + dirs.len(),
        all_counted(stats, dirs).dirs_processed == stats.dirs_processed,
    decreases dirs.len(),
{
    if dirs.len() > 0 {
        law_every_directory_is_counted(stats, dirs.drop_last());
    }
}

/// The times of a directory are set where the copy of the directory is written: the target
/// joined with the whole recorded path without its leading slash, where the header names a
/// root; and for directories below the source base, the target joined with what stands
/// behind that base.
pub proof fn law_times_are_set_on_the_copy(
    set: SetTimes,
    e: MtimeEntry,
    control: MtimeControl,
    source_base: Seq<char>,
    target_base: Seq<char>,
    rel: Seq<char>,
)
    requires
        sets(set, e, control, source_base, target_base),
        source_base.len() > 0,
        paths::is_clean(rel),
    ensures
        e.path@ == seq!['/'] + rel && control.source_root@.len() > 0 && !paths::starts_with(
            e.path@,
            source_base,
        ) ==> {
            &&& set.path@ == paths::join(target_base, rel)
            &&& set.path@ == paths::join(target_base, crate::bio_copy::without_root(e.path@))
        },
        e.path@ == paths::join(source_base, rel) ==> set.path@ == paths::join(target_base, rel),
        control.source_root@.len() == 0 && e.path@ == seq!['/'] + rel && !paths::starts_with(
            e.path@,
            source_base,
        ) && paths::file_name(source_base) != Some(paths::pieces(rel)[0]) ==> (paths::file_name(
            e.path@,
        ) matches Some(n) ==> set.path@ == paths::join(target_base, n)),
{
    reveal_strlit("/");
    assert("/"@ =~= seq!['/']);
    paths::law_leading_slash_is_stripped(rel);
    path_util::law_path_below_base_is_kept(source_base, rel);
    if !paths::starts_with(seq!['/'] + rel, source_base) {
        path_util::law_paths_outside_the_base(source_base, rel);
    }
}

/// A directory gets the times that were recorded for it, each in its own place.
pub proof fn law_recorded_times_are_set(
    set: SetTimes,
    e: MtimeEntry,
    control: MtimeControl,
    source_base: Seq<char>,
    target_base: Seq<char>,
)
    requires
        sets(set, e, control, source_base, target_base),
    ensures
        e.atime <= i64::MAX ==> set.atime == e.atime,
        e.mtime <= i64::MAX ==> set.mtime == e.mtime,
{
}

/// The entries that can be read are taken in order, and those that cannot are left out and
/// nothing else.
pub proof fn law_readable_entries_are_taken(
    a: Seq<Option<MtimeEntry>>,
    b: Seq<Option<MtimeEntry>>,
    e: MtimeEntry,
)
    ensures
        readable(a + b) == readable(a) + readable(b),
        readable(seq![Some(e)]) == seq![e],
        readable(seq![None::<MtimeEntry>]).len() == 0,
    decreases b.len(),
{
    reveal_with_fuel(readable, 2);
    assert(seq![Some(e)].drop_last() =~= Seq::empty());
    assert(seq![None::<MtimeEntry>].drop_last() =~= Seq::empty());
    assert(readable(seq![Some(e)]) =~= seq![e]);
    if b.len() == 0 {
        assert(a + b =~= a);
        assert(readable(a) + readable(b) =~= readable(a));
    } else {
        law_readable_entries_are_taken(a, b.drop_last(), e);
        assert((a + b).drop_last() =~= a + b.drop_last());
        assert((a + b).last() == b.last());
        assert(readable(a + b) =~= readable(a) + readable(b));
    }
}

/// Each counter tells how often its end came: a directory that does not exist is passed
/// over, one whose times were set is restored, and one whose times were not has failed.
pub proof fn law_counters_tell_the_ends(stats: MtimeStats, set: Seq<TimesSet>)
    requires
        dealt_with(stats) + set.len() <= u64::MAX,
    ensures
        ({
            let end = all_counted(stats, times_counts(set));
            &&& end.dirs_skipped == stats.dirs_skipped + set.filter(|t: TimesSet| !t.exists).len()
            &&& end.dirs_restored == stats.dirs_restored + set.filter(
                |t: TimesSet| t.exists && t.result is Ok,
            ).len()
            &&& end.dirs_failed == stats.dirs_failed + set.filter(
                |t: TimesSet| t.exists && t.result is Err,
            ).len()
        }),
    decreases set.len(),
{
    reveal(Seq::filter);
    law_every_directory_is_counted(stats, times_counts(set));
    if set.len() == 0 {
        assert(times_counts(set) =~= Seq::empty());
    } else {
        let front = set.drop_last();
        law_counters_tell_the_ends(stats, front);
        law_every_directory_is_counted(stats, times_counts(front));
        assert(times_counts(set).drop_last() =~= times_counts(front));
        assert(times_counts(set).last() == times_count(set.last()));
    }
}

/// Whether `r` are the directories whose times are set, and the counters before that starts.
pub open spec fn plans_times(
    control: Option<MtimeControl>,
    source_base: Seq<char>,
    target_base: Seq<char>,
    r: (Vec<SetTimes>, MtimeStats),
) -> bool {
    match control {
        None => r.0@.len() == 0 && r.1 == (MtimeStats {
            dirs_processed: 0,
            dirs_restored: 0,
            dirs_failed: 0,
            dirs_skipped: 0,
        }),
        Some(c) => {
            &&& r.0@.len() == readable(c.entries@).len()
            &&& forall|i: int|
                0 <= i < r.0@.len() ==> sets(
                    #[trigger] r.0@[i],
                    readable(c.entries@)[i],
                    c,
                    source_base,
                    target_base,
                )
            &&& r.1 == (MtimeStats {
                dirs_processed: readable(c.entries@).len() as u64,
                dirs_restored: 0,
                dirs_failed: (c.entries@.len() - readable(c.entries@).len()) as u64,
                dirs_skipped: 0,
            })
        },
    }
}

/// Every recorded directory that can be read is given its times on the copy, in the order of
/// the control file, and every other one has failed; without a control file there is nothing
/// to do.
pub proof fn law_every_recorded_directory_is_planned_for(
    control: MtimeControl,
    source_base: Seq<char>,
    target_base: Seq<char>,
    r: (Vec<SetTimes>, MtimeStats),
    none: (Vec<SetTimes>, MtimeStats),
    i: int,
)
    requires
        plans_times(Some(control), source_base, target_base, r),
        plans_times(None, source_base, target_base, none),
        0 <= i < r.0@.len(),
        control.entries@.len() <= u64::MAX,
    ensures
        none.0@.len() == 0,
        r.0@.len() == control.entries@.filter(|e: Option<MtimeEntry>| e is Some).len(),
        r.1.dirs_processed == r.0@.len(),
        r.1.dirs_processed + r.1.dirs_failed == control.entries@.len(),
        r.1.dirs_restored == 0 && r.1.dirs_skipped == 0,
        sets(r.0@[i], readable(control.entries@)[i], control, source_base, target_base),
{
    lemma_readable_count(control.entries@);
}

proof fn lemma_readable_count(entries: Seq<Option<MtimeEntry>>)
    ensures
        readable(entries).len() == entries.filter(|e: Option<MtimeEntry>| e is Some).len(),
        readable(entries).len() <= entries.len(),
    decreases entries.len(),
{
    reveal(Seq::filter);
    if entries.len() > 0 {
        lemma_readable_count(entries.drop_last());
    }
}

/// Whether `r` says if the times of a directory are to be set, and `after` are the counters
/// then.
pub open spec fn decides_times(
    exists: bool,
    before: MtimeStats,
    after: MtimeStats,
    r: bool,
) -> bool {
    &&& r == exists
    &&& after == (if exists {
        before
    } else {
        counted(before, TimesCount::Skipped)
    })
}

/// Whether a directory is counted after its times were set, and a failure is recorded.
pub open spec fn counts_times(
    path: Seq<char>,
    result: Result<(), IoFailure>,
    before: MtimeStats,
    after: MtimeStats,
    r: Option<FailureRecord>,
) -> bool {
    &&& crate::failure::tells_result(r, "set_mtime"@, FailureItemType::Directory, path, result)
    &&& after == counted(
        before,
        (if result is Ok {
            TimesCount::Restored
        } else {
            TimesCount::Failed
        }),
    )
}

/// Times are set exactly on directories that exist; any other one is passed over. A directory
/// whose times were set is restored, and a failure leaves a record that names it.
pub proof fn law_times_are_set_where_a_directory_is(
    there: bool,
    path: Seq<char>,
    result: Result<(), IoFailure>,
    before: MtimeStats,
    after: MtimeStats,
    r: bool,
    record: Option<FailureRecord>,
)
    requires
        before.dirs_skipped < u64::MAX,
        before.dirs_restored < u64::MAX,
        before.dirs_failed < u64::MAX,
    ensures
        decides_times(there, before, after, r) ==> {
            &&& r <==> there
            &&& r ==> after == before
            &&& !r ==> after.dirs_skipped == before.dirs_skipped + 1
        },
        counts_times(path, result, before, after, record) ==> {
            &&& record is Some <==> result is Err
            &&& record matches Some(x) ==> x.path@ == path
            &&& result is Ok ==> after.dirs_restored == before.dirs_restored + 1
                && after.dirs_failed == before.dirs_failed
            &&& result is Err ==> after.dirs_failed == before.dirs_failed + 1
                && after.dirs_restored == before.dirs_restored
        },
{
}

/// The directories that failed are all there, each once and in order, and each leaves a record
/// that names it.
pub proof fn law_failed_directories_are_recorded(
    counts: Seq<TimesCount>,
    records: Seq<FailureRecord>,
    dirs: Seq<SetTimes>,
    set: Seq<TimesSet>,
)
    requires
        tell_of(records, failed_dirs(counts), dirs, set),
    ensures
        records.len() == counts.filter(|c: TimesCount| c == TimesCount::Failed).len(),
        forall|n: int|
            0 <= n < records.len() ==> {
                let at = failed_dirs(counts)[n];
                &&& 0 <= at < counts.len() && counts[at] == TimesCount::Failed
                &&& (#[trigger] records[n]).path@ == dirs[at].path@
                &&& set[at].result is Err
            },
{
    lemma_failed_dirs(counts);
}

proof fn lemma_failed_dirs(counts: Seq<TimesCount>)
    ensures
        failed_dirs(counts).len() == counts.filter(|c: TimesCount| c == TimesCount::Failed).len(),
        forall|n: int|
            0 <= n < failed_dirs(counts).len() ==> 0 <= #[trigger] failed_dirs(counts)[n]
                < counts.len() && counts[failed_dirs(counts)[n]] == TimesCount::Failed,
    decreases counts.len(),
{
    reveal(Seq::filter);
    if counts.len() > 0 {
        let front = counts.drop_last();
        lemma_failed_dirs(front);
        assert forall|n: int| 0 <= n < failed_dirs(counts).len() implies 0 <= #[trigger] failed_dirs(
            counts,
        )[n] < counts.len() && counts[failed_dirs(counts)[n]] == TimesCount::Failed by {
            if n < failed_dirs(front).len() {
                assert(failed_dirs(front)[n] == failed_dirs(counts)[n]);
            }
        }
    }
}

} // verus!
