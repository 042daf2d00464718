//! Copying between local directories: what becomes of each planned entry, and what is
//! counted.
use vstd::prelude::*;

use crate::aggregate::Payload;
use crate::aggregate_local::{LocalAggregateState, PendingLocalFile};
use crate::copy_plan::{CopyPlanEntry, FileCopyPlan};
use crate::metadata::FileMeta;
use crate::orchestrator::{run_post_copy_phases, Phase, PhaseFlags};
use crate::paths;
use crate::pipelines::blob_was_written;
use crate::stats::BackupStats;

verus! {

// ---------------------------------------------------------------------------
// The pipeline
// ---------------------------------------------------------------------------

/// How a local pipeline is set up.
#[derive(Debug)]
pub struct LocalPipeline {
    pub workers: usize,
    /// How many planned files may wait for a worker.
    pub queue_capacity: usize,
    /// Bytes that a worker moves at once.
    pub buffer_size: usize,
    pub phases: Vec<Phase>,
}

pub open spec fn at_least_one(n: usize) -> usize {
    if n == 0 {
        1
    } else {
        n
    }
}

/// Sets up a local pipeline: at least one worker, two waiting files for each, and the
/// enabled phases after the copy.
pub fn spawn_local_common_copy_pipeline(
    worker_count: usize,
    copy_buffer_size: usize,
    phase_flags: PhaseFlags,
) -> (r: LocalPipeline)
    requires
        worker_count <= usize::MAX / 2,
    ensures
        r.workers == at_least_one(worker_count),
        r.queue_capacity == 2 * at_least_one(worker_count),
        r.buffer_size == crate::transport::clamped_buffer_size(copy_buffer_size),
        r.phases@ == crate::orchestrator::phases_in_order(phase_flags),
{
    let workers: usize = if worker_count == 0 {
        1
    } else {
        worker_count
    };
    LocalPipeline {
        workers,
        queue_capacity: workers * 2,
        buffer_size: crate::transport::clamp_copy_buffer_size(copy_buffer_size),
        phases: run_post_copy_phases(phase_flags),
    }
}

// ---------------------------------------------------------------------------
// Entries
// ---------------------------------------------------------------------------

/// What is done with a planned entry.
#[derive(Debug)]
pub enum LocalEntryStep {
    /// Create this directory; its metadata is restored afterwards.
    CreateDir { dst_path: String },
    /// Hand the file to the workers.
    Queue(FileCopyPlan),
}

/// What is done with a planned entry.
pub fn execute_local_plan_entry(entry: CopyPlanEntry) -> (r: LocalEntryStep)
    ensures
        match entry {
            CopyPlanEntry::Directory { meta, dst_path } => r == (LocalEntryStep::CreateDir {
                dst_path,
            }),
            CopyPlanEntry::File(plan) => r == LocalEntryStep::Queue(plan),
        },
{
    match entry {
        CopyPlanEntry::Directory { meta: _, dst_path } => LocalEntryStep::CreateDir { dst_path },
        CopyPlanEntry::File(plan) => LocalEntryStep::Queue(plan),
    }
}

/// What a worker does with a file.
#[derive(Debug)]
pub enum LocalFileStep {
    /// Create the parent directory, where there is one, and the symbolic link.
    Symlink { parent: Option<String>, dst_path: String, target: String },
    /// Create the parent directory, where there is one, and copy the content.
    Copy { parent: Option<String>, src_path: String, dst_path: String },
    /// The file waits in its bucket.
    Buffered,
    /// The bucket is full: its files go into a blob.
    Blob { bucket_key: String, files: Vec<PendingLocalFile> },
    /// Put the file into its bucket.
    Collect { meta: FileMeta, src_path: String },
}

pub open spec fn parent_is(parent: Option<String>, path: Seq<char>) -> bool {
    match parent {
        Some(p) => paths::parent(path) == Some(p@),
        None => paths::parent(path) is None,
    }
}

/// What a worker does with a file that is copied on its own.
pub fn copy_one_local_file(meta: &FileMeta, src_path: String, dst_path: String) -> (r: LocalFileStep)
    ensures
        copies_local_file(*meta, src_path, dst_path, r),
{
    let parent = paths::parent_of(dst_path.as_str());
    match &meta.common.symlink_target_path {
        Some(target) => LocalFileStep::Symlink { parent, dst_path, target: target.clone() },
        None => LocalFileStep::Copy { parent, src_path, dst_path },
    }
}

/// What a worker does with a planned file. One that should go into a blob is an error
/// where files are not collected.
pub fn execute_local_file_plan(plan: FileCopyPlan, collecting: bool) -> (r: Result<
    LocalFileStep,
    String,
>)
    ensures
        is_local_step(plan, collecting, r),
{
    match plan {
        FileCopyPlan::Direct { meta, src_path, dst_path } => Ok(
            copy_one_local_file(&meta, src_path, dst_path),
        ),
        FileCopyPlan::Aggregate { meta, src_path } => {
            if collecting {
                Ok(LocalFileStep::Collect { meta, src_path })
            } else {
                Err(crate::text::copy_of("missing aggregate state"))
            }
        },
    }
}

/// Whether a pending file stands for a planned one.
pub open spec fn pends_for(
    p: PendingLocalFile,
    state: LocalAggregateState,
    meta: FileMeta,
    src_path: String,
) -> bool {
    &&& p.relative_path@ == state.engine.relative(src_path@)
    &&& p.source_path == src_path
    &&& p.size == meta.size
    &&& p.ctime == meta.common.ctime as u64
    &&& p.mtime == meta.common.mtime as u64
    &&& p.mode == meta.common.mode
    &&& p.xattrs == meta.common.xattributes
    &&& p.acl == meta.common.posix_access_acl
}

/// Puts a file into its bucket, which is handed out once it is full.
pub fn aggregate_one_local_file(state: &mut LocalAggregateState, meta: &FileMeta, src_path: String)
    -> (r: LocalFileStep)
    requires
        old(state).buffers.wf(),
        crate::aggregate::total_bytes(
            old(state).buffers.pending(
                old(state).engine.bucket_key(old(state).engine.relative(src_path@), meta.size),
            ),
        ) + meta.size <= u64::MAX,
    ensures
        collects_local_file(*old(state), *meta, src_path, *final(state), r),
{
    let relative_path = state.engine.relative_path_for_source(src_path.as_str());
    let ghost source = src_path;
    let pending = state.pending_file_for_source(relative_path.clone(), src_path, meta);
    assert(pends_for(pending, *old(state), *meta, source));
    match state.add_file(relative_path.as_str(), pending) {
        Some((bucket_key, files)) => LocalFileStep::Blob { bucket_key, files },
        None => LocalFileStep::Buffered,
    }
}

/// How far the copy of a local file came.
#[derive(Debug, Clone, Copy, PartialEq, Eq, Structural)]
pub enum LocalCopyEnd {
    SymlinkMade,
    /// Nothing was opened: a directory, the link or the source failed.
    NothingOpened,
    SourceOpened,
    /// Both files were opened; the content was not copied to its end.
    TargetOpened,
    /// The content was copied, but the target could not be flushed.
    NotFlushed { copied: u64 },
    Copied { copied: u64 },
}

/// The counters after the copy of a local file, as far as it came. One that failed counts
/// as a failed file.
pub open spec fn local_copy_counted(stats: BackupStats, end: LocalCopyEnd) -> BackupStats {
    let src = BackupStats { src_opened: stats.src_opened.wrapping_add(1), ..stats };
    let both = BackupStats { dst_opened: src.dst_opened.wrapping_add(1), ..src };
    match end {
        LocalCopyEnd::SymlinkMade => BackupStats {
            files_copied: stats.files_copied.wrapping_add(1),
            ..stats
        },
        LocalCopyEnd::NothingOpened => crate::executor::one_failed(stats),
        LocalCopyEnd::SourceOpened => crate::executor::one_failed(src),
        LocalCopyEnd::TargetOpened => crate::executor::one_failed(both),
        LocalCopyEnd::NotFlushed { copied } => crate::executor::one_failed(
            BackupStats { bytes_copied: both.bytes_copied.wrapping_add(copied), ..both },
        ),
        LocalCopyEnd::Copied { copied } => BackupStats {
            bytes_copied: both.bytes_copied.wrapping_add(copied),
            dst_closed: both.dst_closed.wrapping_add(1),
            src_closed: both.src_closed.wrapping_add(1),
            files_copied: both.files_copied.wrapping_add(1),
            ..both
        },
    }
}

/// Counts the copy of a local file.
pub fn local_file_was_copied(end: LocalCopyEnd, stats: &mut BackupStats)
    ensures
        *final(stats) == local_copy_counted(*old(stats), end),
{
    match end {
        LocalCopyEnd::SymlinkMade => {
            stats.inc_files_copied();
        },
        LocalCopyEnd::NothingOpened => {
            stats.inc_files_failed();
        },
        LocalCopyEnd::SourceOpened => {
            stats.inc_src_opened();
            stats.inc_files_failed();
        },
        LocalCopyEnd::TargetOpened => {
            stats.inc_src_opened();
            stats.inc_dst_opened();
            stats.inc_files_failed();
        },
        LocalCopyEnd::NotFlushed { copied } => {
            stats.inc_src_opened();
            stats.inc_dst_opened();
            stats.add_bytes_copied(copied);
            stats.inc_files_failed();
        },
        LocalCopyEnd::Copied { copied } => {
            stats.inc_src_opened();
            stats.inc_dst_opened();
            stats.add_bytes_copied(copied);
            stats.inc_dst_closed();
            stats.inc_src_closed();
            stats.inc_files_copied();
        },
    }
}

/// Counts the files of a blob that was written, or failed to be.
pub fn write_aggregate_blob(ok: bool, files: &Vec<PendingLocalFile>, stats: &mut BackupStats)
    requires
        crate::aggregate::total_bytes(files@) <= u64::MAX,
    ensures
        counts_local_blob(ok, files@, *old(stats), *final(stats)),
{
    let mut bytes: u64 = 0;
    let mut i: usize = 0;
    assert(files@.take(0) =~= Seq::empty());
    while i < files.len()
        invariant
            i <= files@.len(),
            bytes == crate::aggregate::total_bytes(files@.take(i as int)),
            crate::aggregate::total_bytes(files@) <= u64::MAX,
        decreases files@.len() - i,
    {
        proof {
            assert(files@.take(i + 1) =~= files@.take(i as int).push(files@[i as int]));
            crate::aggregate::lemma_total_push(files@.take(i as int), files@[i as int]);
            crate::aggregate_engine::lemma_total_grows(files@, i + 1);
        }
        bytes = bytes + files[i].size;
        i += 1;
    }
    assert(files@.take(i as int) =~= files@);
    blob_was_written(ok, files.len() as u64, bytes, stats);
}

/// A local file counts exactly once, as copied or as failed. It counts as copied exactly
/// where it came to its end or is a link, its bytes count once they were written, and both
/// sides are closed only where all went well.
pub proof fn law_local_copies_count_once(stats: BackupStats, end: LocalCopyEnd)
    requires
        stats.files_copied < u64::MAX,
        stats.files_failed < u64::MAX,
        stats.src_opened < u64::MAX,
        stats.src_closed < u64::MAX,
        stats.dst_opened < u64::MAX,
        stats.dst_closed < u64::MAX,
        end matches LocalCopyEnd::Copied { copied } ==> stats.bytes_copied + copied <= u64::MAX,
        end matches LocalCopyEnd::NotFlushed { copied } ==> stats.bytes_copied + copied <= u64::MAX,
    ensures
        ({
            let after = local_copy_counted(stats, end);
            let ok = end is Copied || end is SymlinkMade;
            &&& ok ==> after.files_copied == stats.files_copied + 1 && after.files_failed
                == stats.files_failed
            &&& !ok ==> after.files_failed == stats.files_failed + 1 && after.files_copied
                == stats.files_copied
            &&& after.bytes_copied == stats.bytes_copied + (match end {
                LocalCopyEnd::Copied { copied } => copied,
                LocalCopyEnd::NotFlushed { copied } => copied,
                _ => 0,
            })
            &&& after.src_opened == stats.src_opened + (if end is SymlinkMade
                || end is NothingOpened {
                0int
            } else {
                1int
            })
            &&& after.dst_opened == stats.dst_opened + (if end is SymlinkMade || end is NothingOpened
                || end is SourceOpened {
                0int
            } else {
                1int
            })
            &&& (after.src_closed, after.dst_closed) == (if end is Copied {
                ((stats.src_closed + 1) as u64, (stats.dst_closed + 1) as u64)
            } else {
                (stats.src_closed, stats.dst_closed)
            })
        }),
{
}

/// Whether `r` is what a worker does with a planned file.
pub open spec fn is_local_step(
    plan: FileCopyPlan,
    collecting: bool,
    r: Result<LocalFileStep, String>,
) -> bool {
    match plan {
        FileCopyPlan::Direct { meta, src_path, dst_path } => match meta.common.symlink_target_path {
            Some(t) => r matches Ok(LocalFileStep::Symlink { parent, dst_path: d, target })
                && d == dst_path && target == t && parent_is(parent, dst_path@),
            None => r matches Ok(LocalFileStep::Copy { parent, src_path: s, dst_path: d }) && s
                == src_path && d == dst_path && parent_is(parent, dst_path@),
        },
        FileCopyPlan::Aggregate { meta, src_path } => if collecting {
            r == Ok::<LocalFileStep, String>(LocalFileStep::Collect { meta, src_path })
        } else {
            r matches Err(e) && e@ == "missing aggregate state"@
        },
    }
}

/// Whether `r` is what a worker does with a file that is copied on its own.
pub open spec fn copies_local_file(
    meta: FileMeta,
    src_path: String,
    dst_path: String,
    r: LocalFileStep,
) -> bool {
    match meta.common.symlink_target_path {
        Some(t) => r matches LocalFileStep::Symlink { parent, dst_path: d, target } && d
            == dst_path && target == t && parent_is(parent, dst_path@),
        None => r matches LocalFileStep::Copy { parent, src_path: s, dst_path: d } && s
            == src_path && d == dst_path && parent_is(parent, dst_path@),
    }
}

/// Whether `after` are the buckets once a file was added, and `r` what is handed out.
pub open spec fn collects_local_file(
    before: LocalAggregateState,
    meta: FileMeta,
    src_path: String,
    after: LocalAggregateState,
    r: LocalFileStep,
) -> bool {
    &&& after.buffers.wf()
    &&& after.engine == before.engine
    &&& ({
        let key = before.engine.bucket_key(
            before.engine.relative(src_path@),
            meta.size,
        );
        let earlier = before.buffers.pending(key);
        exists|p: PendingLocalFile| #[trigger]
            pends_for(p, before, meta, src_path) && if crate::aggregate::total_bytes(
                earlier.push(p),
            ) >= before.engine.config.max_blob_size {
                &&& r matches LocalFileStep::Blob { bucket_key, files } && bucket_key@ == key
                    && files@ == earlier.push(p)
                &&& after.buffers@ == before.buffers@.insert(key, Seq::empty())
            } else {
                &&& r is Buffered
                &&& after.buffers@ == before.buffers@.insert(key, earlier.push(p))
            }
    })
}

/// Whether `after` are the counters once a blob was written, or failed to be.
pub open spec fn counts_local_blob(
    ok: bool,
    files: Seq<PendingLocalFile>,
    before: BackupStats,
    after: BackupStats,
) -> bool {
    after == (if ok {
        BackupStats {
            files_copied: before.files_copied.wrapping_add(files.len() as u64),
            bytes_copied: before.bytes_copied.wrapping_add(
                crate::aggregate::total_bytes(files) as u64,
            ),
            ..before
        }
    } else {
        BackupStats {
            files_failed: before.files_failed.wrapping_add(
                (if files.len() == 0 {
                    1u64
                } else {
                    files.len() as u64
                }),
            ),
            ..before
        }
    })
}

/// A file is collected where the plan says so, a link is made where there is one, and any other
/// file is copied from its source to its target; only a file that cannot be collected is an
/// error.
pub proof fn law_local_files_are_handled_as_planned(
    plan: FileCopyPlan,
    collecting: bool,
    r: Result<LocalFileStep, String>,
)
    requires
        is_local_step(plan, collecting, r),
    ensures
        r is Err <==> plan is Aggregate && !collecting,
        r matches Ok(LocalFileStep::Collect { meta, src_path }) ==> plan == (
        FileCopyPlan::Aggregate { meta, src_path }),
        r matches Ok(LocalFileStep::Copy { src_path: s, dst_path: d, .. }) ==> (
        plan matches FileCopyPlan::Direct { meta, src_path, dst_path } && s == src_path && d
            == dst_path && meta.common.symlink_target_path is None),
        r matches Ok(LocalFileStep::Symlink { dst_path: d, target, .. }) ==> (
        plan matches FileCopyPlan::Direct { meta, src_path, dst_path } && d == dst_path
            && meta.common.symlink_target_path == Some(target)),
        plan matches FileCopyPlan::Direct { meta, src_path, dst_path } ==> (r matches Ok(step)
            && copies_local_file(meta, src_path, dst_path, step)),
        r matches Ok(step) ==> !(step is Blob) && !(step is Buffered),
{
}

/// A file that is added waits in its bucket or is handed out with it: a bucket is handed out as
/// a whole, once its files reach the size of a blob, and is empty then.
pub proof fn law_local_files_wait_or_are_handed_out(
    before: LocalAggregateState,
    meta: FileMeta,
    src_path: String,
    after: LocalAggregateState,
    r: LocalFileStep,
)
    requires
        collects_local_file(before, meta, src_path, after, r),
    ensures
        ({
            let key = before.engine.bucket_key(before.engine.relative(src_path@), meta.size);
            let waiting = before.buffers.pending(key);
            let now = after.buffers.pending(key);
            &&& r matches LocalFileStep::Blob { bucket_key, files } ==> bucket_key@ == key
                && files@.len() == waiting.len() + 1 && files@.drop_last() == waiting
                && files@.last().source_path == src_path && now.len() == 0
                && crate::aggregate::total_bytes(files@) >= before.engine.config.max_blob_size
            &&& r is Buffered ==> now.len() == waiting.len() + 1 && now.drop_last() == waiting
                && now.last().source_path == src_path && now.last().size == meta.size
                && crate::aggregate::total_bytes(now) < before.engine.config.max_blob_size
            &&& r is Blob || r is Buffered
        }),
{
    let key = before.engine.bucket_key(before.engine.relative(src_path@), meta.size);
    let waiting = before.buffers.pending(key);
    let p = choose|p: PendingLocalFile| #[trigger]
        pends_for(p, before, meta, src_path) && if crate::aggregate::total_bytes(waiting.push(p))
            >= before.engine.config.max_blob_size {
            &&& r matches LocalFileStep::Blob { bucket_key, files } && bucket_key@ == key && files@
                == waiting.push(p)
            &&& after.buffers@ == before.buffers@.insert(key, Seq::empty())
        } else {
            &&& r is Buffered
            &&& after.buffers@ == before.buffers@.insert(key, waiting.push(p))
        };
    assert(waiting.push(p).drop_last() =~= waiting);
}

/// The files of a blob count together: as copied with all their bytes, or as failed, and then
/// at least one does.
pub proof fn law_local_blobs_count_their_files(
    ok: bool,
    files: Seq<PendingLocalFile>,
    before: BackupStats,
    after: BackupStats,
)
    requires
        counts_local_blob(ok, files, before, after),
        before.files_copied + files.len() <= u64::MAX,
        before.files_failed + files.len() < u64::MAX,
        before.bytes_copied + crate::aggregate::total_bytes(files) <= u64::MAX,
    ensures
        ok ==> after.files_copied == before.files_copied + files.len() && after.bytes_copied
            == before.bytes_copied + crate::aggregate::total_bytes(files) && after.files_failed
            == before.files_failed,
        !ok ==> after.files_failed > before.files_failed && after.files_copied
            == before.files_copied && after.bytes_copied == before.bytes_copied,
        !ok && files.len() > 0 ==> after.files_failed == before.files_failed + files.len(),
{
}

/// What a file needs is the directory that it lies in: a copy or a link has the directory of its
/// own target made first.
pub proof fn law_the_directory_of_the_target_is_made(
    meta: FileMeta,
    src_path: String,
    dst_path: String,
    r: LocalFileStep,
    dir: Seq<char>,
    name: Seq<char>,
)
    requires
        copies_local_file(meta, src_path, dst_path, r),
        paths::is_clean(dir),
        paths::is_name(name),
        dst_path@ == paths::join(dir, name),
    ensures
        r matches LocalFileStep::Copy { parent, .. } ==> (parent matches Some(p) && p@ == dir),
        r matches LocalFileStep::Symlink { parent, .. } ==> (parent matches Some(p) && p@ == dir),
        r is Copy || r is Symlink,
{
    paths::law_joined_name_lies_in_its_directory(dir, name);
}

} // verus!
