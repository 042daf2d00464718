//! Copy pipelines to and from servers: what is done with each control block, and how the
//! results are counted.
use vstd::prelude::*;

use crate::fcb::{ControlBlockVarient, DirControlBlock, FileControlBlock, SourceHandleState};
use crate::stats::BackupStats;
use crate::text;

verus! {

/// Most files that are copied to or from an NFS server at once.
pub const NFS_MAX_CONCURRENT_TASKS: usize = 16;

/// Most files that are copied to or from an SMB share at once by default.
pub const SMB_MAX_CONCURRENT_TASKS: usize = 16;

/// Files copied at once over each SMB connection, where nothing is configured.
pub const SMB_TASKS_PER_CONNECTION: usize = 2;

/// SMB clients in a pool by default.
pub const DEFAULT_SMB_POOL_SIZE: usize = 2;

/// How many files are copied at once over SMB: as configured, but at most 32; without a
/// configuration two for each connection, but at most 16.
pub open spec fn smb_tasks(pool_size: usize, configured_tasks: usize) -> usize {
    if configured_tasks > 0 {
        if configured_tasks > 32 {
            32
        } else {
            configured_tasks
        }
    } else if pool_size <= 1 {
        SMB_TASKS_PER_CONNECTION
    } else if pool_size >= 8 {
        SMB_MAX_CONCURRENT_TASKS
    } else {
        (pool_size * SMB_TASKS_PER_CONNECTION) as usize
    }
}

pub fn smb_copy_task_limit(pool_size: usize, configured_tasks: usize) -> (n: usize)
    ensures
        n == smb_tasks(pool_size, configured_tasks),
        1 <= n <= 32,
{
    if configured_tasks > 0 {
        return if configured_tasks > 32 {
            32
        } else {
            configured_tasks
        };
    }
    if pool_size <= 1 {
        SMB_TASKS_PER_CONNECTION
    } else if pool_size >= 8 {
        SMB_MAX_CONCURRENT_TASKS
    } else {
        pool_size * SMB_TASKS_PER_CONNECTION
    }
}

/// How many files are copied at once between NFS and SMB.
pub fn nfs_smb_task_limit(pool_size: usize, configured_tasks: usize) -> (n: usize)
    ensures
        n == (if smb_tasks(pool_size, configured_tasks) < NFS_MAX_CONCURRENT_TASKS {
            smb_tasks(pool_size, configured_tasks)
        } else {
            NFS_MAX_CONCURRENT_TASKS
        }),
{
    let limit: usize = smb_copy_task_limit(pool_size, configured_tasks);
    if limit < NFS_MAX_CONCURRENT_TASKS {
        limit
    } else {
        NFS_MAX_CONCURRENT_TASKS
    }
}

/// How many tasks run at once: at least one.
pub fn task_permits(max_concurrent_tasks: usize) -> (n: usize)
    ensures
        n == (if max_concurrent_tasks == 0 {
            1
        } else {
            max_concurrent_tasks
        }),
{
    if max_concurrent_tasks == 0 {
        1
    } else {
        max_concurrent_tasks
    }
}

// ---------------------------------------------------------------------------
// Whole files
// ---------------------------------------------------------------------------

/// How paths are written on a target.
#[derive(Debug)]
pub enum TargetPaths {
    /// On a share, with slashes only.
    Share,
    /// On an export, as they are.
    Export,
    /// Below a local directory.
    Directory { base: String },
}

/// A target path as it is written on a target.
pub open spec fn written_path(target: TargetPaths, dst_path: Seq<char>) -> Seq<char> {
    match target {
        TargetPaths::Share => text::forward_slashes(dst_path),
        TargetPaths::Export => dst_path,
        TargetPaths::Directory { base } => crate::paths::join(base@, dst_path),
    }
}

fn write_path(target: &TargetPaths, dst_path: &str) -> (s: String)
    ensures
        s@ == written_path(*target, dst_path@),
{
    match target {
        TargetPaths::Share => text::to_forward_slashes(dst_path),
        TargetPaths::Export => dst_path.to_owned(),
        TargetPaths::Directory { base } => crate::paths::join_path(base.as_str(), dst_path),
    }
}

/// What is done with a control block.
#[derive(Debug)]
pub enum WholeFileStep {
    MakeDir { path: String, dir: DirControlBlock },
    /// The whole file is read, and then written to `path`.
    ReadFile { path: String, block: FileControlBlock },
    /// Symbolic links are not copied to or from servers.
    SkipSymlink,
}

/// What is done with a control block.
pub fn whole_file_step(block: ControlBlockVarient, target: &TargetPaths) -> (r: WholeFileStep)
    ensures
        is_step_of(block, *target, r),
{
    match block {
        ControlBlockVarient::DirControlBlock(d) => {
            let path = write_path(target, d.dst_path.as_str());
            WholeFileStep::MakeDir { path, dir: d }
        },
        ControlBlockVarient::FileControlBlock(f) => {
            if f.meta.common.symlink_target_path.is_some() {
                return WholeFileStep::SkipSymlink;
            }
            let path = write_path(target, f.dst_path.as_str());
            WholeFileStep::ReadFile { path, block: f }
        },
    }
}

/// Takes the content of a file, or the failure to read it. Without content the file
/// counts as failed.
pub fn file_was_read(block: FileControlBlock, content: Option<Vec<u8>>, stats: &mut BackupStats) -> (r:
    Option<FileControlBlock>)
    ensures
        holds_content(block, content, *old(stats), *final(stats), r),
{
    match content {
        None => {
            stats.inc_files_failed();
            None
        },
        Some(bytes) => {
            let mut b = block;
            b.buffer_len = bytes.len();
            b.buffer = bytes;
            b.src_state = SourceHandleState::Read;
            Some(b)
        },
    }
}

/// Counts a file that was written, or failed to be.
pub fn file_was_written(ok: bool, size: u64, stats: &mut BackupStats)
    ensures
        counts_file(ok, size, *old(stats), *final(stats)),
{
    if ok {
        stats.inc_files_copied();
        stats.add_bytes_copied(size);
    } else {
        stats.inc_files_failed();
    }
}

/// Counts a directory that was created, or failed to be.
pub fn dir_was_made(ok: bool, stats: &mut BackupStats)
    ensures
        counts_made_dir(ok, *old(stats), *final(stats)),
{
    if ok {
        stats.inc_dirs_created();
    } else {
        stats.inc_dirs_failed();
    }
}

/// Counts the ends of a source and a target that could not be brought to a close: each
/// failure counts as a failed file.
pub fn pipeline_finished(source_ok: bool, target_ok: bool, stats: &mut BackupStats)
    ensures
        counts_ends(source_ok, target_ok, *old(stats), *final(stats)),
{
    if !source_ok {
        stats.inc_files_failed();
    }
    if !target_ok {
        stats.inc_files_failed();
    }
}

/// Counts the files of a blob that was written, or failed to be: a failure counts at
/// least one file.
pub fn blob_was_written(ok: bool, file_count: u64, bytes: u64, stats: &mut BackupStats)
    ensures
        counts_blob(ok, file_count, bytes, *old(stats), *final(stats)),
{
    if ok {
        stats.add_files_copied(file_count);
        stats.add_bytes_copied(bytes);
    } else {
        stats.add_files_failed(
            if file_count == 0 {
                1
            } else {
                file_count
            },
        );
    }
}

/// The counters once a control block was dealt with, successfully or not.
pub open spec fn block_counted(stats: BackupStats, block: ControlBlockVarient, ok: bool) -> BackupStats {
    match block {
        ControlBlockVarient::DirControlBlock(_) => if ok {
            BackupStats { dirs_created: stats.dirs_created.wrapping_add(1), ..stats }
        } else {
            BackupStats { dirs_failed: stats.dirs_failed.wrapping_add(1), ..stats }
        },
        ControlBlockVarient::FileControlBlock(f) => if f.meta.common.symlink_target_path is Some {
            stats
        } else if ok {
            BackupStats {
                files_copied: stats.files_copied.wrapping_add(1),
                bytes_copied: stats.bytes_copied.wrapping_add(f.meta.size),
                ..stats
            }
        } else {
            BackupStats { files_failed: stats.files_failed.wrapping_add(1), ..stats }
        },
    }
}

/// The counters once all control blocks were dealt with, each successfully or not.
pub open spec fn pipeline_counted(
    stats: BackupStats,
    blocks: Seq<ControlBlockVarient>,
    ok: Seq<bool>,
) -> BackupStats
    decreases blocks.len(),
{
    if blocks.len() == 0 {
        stats
    } else {
        block_counted(
            pipeline_counted(stats, blocks.drop_last(), ok),
            blocks.last(),
            ok[blocks.len() - 1],
        )
    }
}

/// Counts the control blocks of a pipeline, given which of them were dealt with
/// successfully, and then the ends of its source and its target.
pub fn run_copy_pipeline(
    blocks: &Vec<ControlBlockVarient>,
    ok: &Vec<bool>,
    source_ok: bool,
    target_ok: bool,
    stats: &mut BackupStats,
)
    requires
        ok@.len() == blocks@.len(),
    ensures
        counts_pipeline(blocks@, ok@, source_ok, target_ok, *old(stats), *final(stats)),
{
    let ghost before = *stats;
    let mut i: usize = 0;
    assert(blocks@.take(0) =~= Seq::empty());
    while i < blocks.len()
        invariant
            i <= blocks@.len(),
            ok@.len() == blocks@.len(),
            *stats == pipeline_counted(before, blocks@.take(i as int), ok@),
        decreases blocks@.len() - i,
    {
        assert(blocks@.take(i + 1).drop_last() =~= blocks@.take(i as int));
        match &blocks[i] {
            ControlBlockVarient::DirControlBlock(_) => {
                dir_was_made(ok[i], stats);
            },
            ControlBlockVarient::FileControlBlock(f) => {
                if f.meta.common.symlink_target_path.is_none() {
                    file_was_written(ok[i], f.meta.size, stats);
                }
            },
        }
        i += 1;
    }
    assert(blocks@.take(i as int) =~= blocks@);
    pipeline_finished(source_ok, target_ok, stats);
}

/// How many of the blocks are directories.
pub open spec fn dir_count(blocks: Seq<ControlBlockVarient>) -> nat
    decreases blocks.len(),
{
    if blocks.len() == 0 {
        0
    } else {
        dir_count(blocks.drop_last()) + (if is_dir_block(blocks.last()) {
            1nat
        } else {
            0nat
        })
    }
}

/// How many of the blocks are files that are copied.
pub open spec fn file_count(blocks: Seq<ControlBlockVarient>) -> nat
    decreases blocks.len(),
{
    if blocks.len() == 0 {
        0
    } else {
        file_count(blocks.drop_last()) + (if is_streamed(blocks.last()) {
            1nat
        } else {
            0nat
        })
    }
}

/// The bytes of the files that were copied.
pub open spec fn bytes_done(blocks: Seq<ControlBlockVarient>, ok: Seq<bool>) -> nat
    decreases blocks.len(),
{
    if blocks.len() == 0 {
        0
    } else {
        bytes_done(blocks.drop_last(), ok) + (if is_streamed(blocks.last()) && ok[blocks.len()
            - 1] {
            blocks.last()->FileControlBlock_0.meta.size as nat
        } else {
            0nat
        })
    }
}

/// A pipeline counts every directory and every file that is not a symbolic link exactly
/// once, as done or as failed, and the bytes of the files that were done, on top of what was
/// counted before.
pub proof fn law_every_block_is_counted(
    start: BackupStats,
    blocks: Seq<ControlBlockVarient>,
    ok: Seq<bool>,
)
    requires
        ok.len() >= blocks.len(),
        start.dirs_created + dir_count(blocks) <= u64::MAX,
        start.dirs_failed + dir_count(blocks) <= u64::MAX,
        start.files_copied + file_count(blocks) <= u64::MAX,
        start.files_failed + file_count(blocks) <= u64::MAX,
        start.bytes_copied + bytes_done(blocks, ok) <= u64::MAX,
    ensures
        ({
            let end = pipeline_counted(start, blocks, ok);
            &&& end.dirs_created + end.dirs_failed == start.dirs_created + start.dirs_failed
                + dir_count(blocks)
            &&& end.files_copied + end.files_failed == start.files_copied + start.files_failed
                + file_count(blocks)
            &&& end.bytes_copied == start.bytes_copied + bytes_done(blocks, ok)
            &&& start.dirs_created <= end.dirs_created <= start.dirs_created + dir_count(blocks)
            &&& start.dirs_failed <= end.dirs_failed <= start.dirs_failed + dir_count(blocks)
            &&& start.files_copied <= end.files_copied <= start.files_copied + file_count(blocks)
            &&& start.files_failed <= end.files_failed <= start.files_failed + file_count(blocks)
        }),
        dir_count(blocks) + file_count(blocks) <= blocks.len(),
    decreases blocks.len(),
{
    if blocks.len() > 0 {
        law_every_block_is_counted(start, blocks.drop_last(), ok);
    }
}

// ---------------------------------------------------------------------------
// Pipelines that copy whole files
// ---------------------------------------------------------------------------

/// A control block with what became of it: the content of a file, where it could be read,
/// and whether the target took what was written.
#[derive(Debug)]
pub struct WholeFileEntry {
    pub block: ControlBlockVarient,
    pub content: Option<Vec<u8>>,
    pub written: bool,
}

/// What is written on a target.
#[derive(Debug)]
pub enum TargetWrite {
    Dir(String),
    File { path: String, content: Vec<u8> },
}

/// What is written on a target, as values.
pub enum WriteView {
    Dir(Seq<char>),
    File(Seq<char>, Seq<u8>),
}

impl View for TargetWrite {
    type V = WriteView;

    open spec fn view(&self) -> WriteView {
        match self {
            TargetWrite::Dir(path) => WriteView::Dir(path@),
            TargetWrite::File { path, content } => WriteView::File(path@, content@),
        }
    }
}

pub open spec fn write_views(writes: Seq<TargetWrite>) -> Seq<WriteView> {
    writes.map_values(|w: TargetWrite| w@)
}

/// What is written for one control block: a directory, or a file with the content that
/// was read. Nothing is written for symbolic links and for files that could not be read.
pub open spec fn block_write(target: TargetPaths, e: WholeFileEntry) -> Option<WriteView> {
    match e.block {
        ControlBlockVarient::DirControlBlock(d) => Some(
            WriteView::Dir(written_path(target, d.dst_path@)),
        ),
        ControlBlockVarient::FileControlBlock(f) => if f.meta.common.symlink_target_path is Some {
            None
        } else {
            match e.content {
                Some(c) => Some(WriteView::File(written_path(target, f.dst_path@), c@)),
                None => None,
            }
        },
    }
}

/// What is written for all control blocks, in order.
pub open spec fn all_writes(target: TargetPaths, entries: Seq<WholeFileEntry>) -> Seq<WriteView>
    decreases entries.len(),
{
    if entries.len() == 0 {
        Seq::empty()
    } else {
        match block_write(target, entries.last()) {
            Some(w) => all_writes(target, entries.drop_last()).push(w),
            None => all_writes(target, entries.drop_last()),
        }
    }
}

/// The control blocks of some entries.
pub open spec fn blocks_of(entries: Seq<WholeFileEntry>) -> Seq<ControlBlockVarient> {
    entries.map_values(|e: WholeFileEntry| e.block)
}

/// Which of the entries are done: a file that could not be read has failed, whatever the
/// target would have said.
pub open spec fn done_of(entries: Seq<WholeFileEntry>) -> Seq<bool> {
    entries.map_values(
        |e: WholeFileEntry| e.written && (is_dir_block(e.block) || e.content is Some),
    )
}

/// Copies whole files to a target: says what is written for each control block, and
/// counts what became of it.
fn copy_whole_files(
    entries: Vec<WholeFileEntry>,
    target: &TargetPaths,
    stats: &mut BackupStats,
) -> (out: Vec<TargetWrite>)
    ensures
        write_views(out@) == all_writes(*target, entries@),
        *final(stats) == pipeline_counted(*old(stats), blocks_of(entries@), done_of(entries@)),
{
    let ghost all = entries@;
    let ghost start = *stats;
    let mut out: Vec<TargetWrite> = Vec::new();
    assert(all.take(0) =~= Seq::empty());
    assert(blocks_of(all).take(0) =~= Seq::empty());
    assert(write_views(out@) =~= Seq::empty());
    for entry in it: entries
        invariant
            it.seq() == all,
            write_views(out@) == all_writes(*target, all.take(it.index() as int)),
            *stats == pipeline_counted(
                start,
                blocks_of(all).take(it.index() as int),
                done_of(all),
            ),
    {
        let ghost n = it.index() as int;
        let ghost given = entry;
        let ghost earlier = write_views(out@);
        assert(all.take(n + 1).drop_last() =~= all.take(n));
        assert(all.take(n + 1).last() == entry);
        assert(blocks_of(all).take(n + 1).drop_last() =~= blocks_of(all).take(n));
        assert(blocks_of(all).take(n + 1).last() == entry.block);
        let WholeFileEntry { block, content, written } = entry;
        match whole_file_step(block, target) {
            WholeFileStep::MakeDir { path, dir } => {
                out.push(TargetWrite::Dir(path));
                dir_was_made(written, stats);
                assert(write_views(out@) =~= earlier.push(block_write(*target, given)->0));
            },
            WholeFileStep::ReadFile { path, block } => {
                let size: u64 = block.meta.size;
                match file_was_read(block, content, stats) {
                    Some(done) => {
                        out.push(TargetWrite::File { path, content: done.buffer });
                        file_was_written(written, size, stats);
                        assert(write_views(out@) =~= earlier.push(block_write(*target, given)->0));
                    },
                    None => {},
                }
            },
            WholeFileStep::SkipSymlink => {},
        }
    }
    assert(all.take(all.len() as int) =~= all);
    assert(blocks_of(all).take(all.len() as int) =~= blocks_of(all));
    out
}

/// Whole files from a local directory to an NFS export.
pub fn run_aio_copy_pipeline(entries: Vec<WholeFileEntry>, stats: &mut BackupStats) -> (out: Vec<
    TargetWrite,
>)
    ensures
        write_views(out@) == all_writes(TargetPaths::Export, entries@),
        *final(stats) == pipeline_counted(*old(stats), blocks_of(entries@), done_of(entries@)),
{
    copy_whole_files(entries, &TargetPaths::Export, stats)
}

/// Whole files from a local directory to an SMB share.
pub fn run_local_to_smb_copy_pipeline(
    entries: Vec<WholeFileEntry>,
    stats: &mut BackupStats,
) -> (out: Vec<TargetWrite>)
    ensures
        write_views(out@) == all_writes(TargetPaths::Share, entries@),
        *final(stats) == pipeline_counted(*old(stats), blocks_of(entries@), done_of(entries@)),
{
    copy_whole_files(entries, &TargetPaths::Share, stats)
}

/// Whole files from an NFS export to a local directory.
pub fn run_aio_nfs_to_local_pipeline(
    entries: Vec<WholeFileEntry>,
    local_target_base: String,
    stats: &mut BackupStats,
) -> (out: Vec<TargetWrite>)
    ensures
        write_views(out@) == all_writes(
            TargetPaths::Directory { base: local_target_base },
            entries@,
        ),
        *final(stats) == pipeline_counted(*old(stats), blocks_of(entries@), done_of(entries@)),
{
    copy_whole_files(entries, &TargetPaths::Directory { base: local_target_base }, stats)
}

/// Whole files from one NFS export to another.
pub fn run_aio_nfs_to_nfs_pipeline(
    entries: Vec<WholeFileEntry>,
    stats: &mut BackupStats,
) -> (out: Vec<TargetWrite>)
    ensures
        write_views(out@) == all_writes(TargetPaths::Export, entries@),
        *final(stats) == pipeline_counted(*old(stats), blocks_of(entries@), done_of(entries@)),
{
    copy_whole_files(entries, &TargetPaths::Export, stats)
}

/// Whole files from an SMB share to a local directory.
pub fn run_smb_to_local_copy_pipeline(
    entries: Vec<WholeFileEntry>,
    local_target_base: String,
    stats: &mut BackupStats,
) -> (out: Vec<TargetWrite>)
    ensures
        write_views(out@) == all_writes(
            TargetPaths::Directory { base: local_target_base },
            entries@,
        ),
        *final(stats) == pipeline_counted(*old(stats), blocks_of(entries@), done_of(entries@)),
{
    copy_whole_files(entries, &TargetPaths::Directory { base: local_target_base }, stats)
}

/// Whole files from one SMB share to another.
pub fn run_smb_to_smb_copy_pipeline(
    entries: Vec<WholeFileEntry>,
    stats: &mut BackupStats,
) -> (out: Vec<TargetWrite>)
    ensures
        write_views(out@) == all_writes(TargetPaths::Share, entries@),
        *final(stats) == pipeline_counted(*old(stats), blocks_of(entries@), done_of(entries@)),
{
    copy_whole_files(entries, &TargetPaths::Share, stats)
}

/// The content of a file that could be read is written at its path on the target, and
/// nothing else is written: every write comes from a directory or from a file that is no
/// symbolic link and could be read.
pub proof fn law_files_are_written_as_read(target: TargetPaths, entries: Seq<WholeFileEntry>)
    ensures
        forall|i: int|
            0 <= i < entries.len() && block_write(target, #[trigger] entries[i]) is Some
                ==> all_writes(target, entries).contains(block_write(target, entries[i])->0),
        forall|k: int|
            0 <= k < all_writes(target, entries).len() ==> comes_from(
                target,
                entries,
                #[trigger] all_writes(target, entries)[k],
            ),
    decreases entries.len(),
{
    if entries.len() > 0 {
        let front = entries.drop_last();
        let earlier = all_writes(target, front);
        let whole = all_writes(target, entries);
        law_files_are_written_as_read(target, front);
        assert forall|i: int|
            0 <= i < entries.len() && block_write(target, #[trigger] entries[i]) is Some
        implies whole.contains(block_write(target, entries[i])->0) by {
            if i < front.len() {
                assert(entries[i] == front[i]);
                let w = block_write(target, front[i])->0;
                assert(earlier.contains(w));
                let k = choose|k: int| 0 <= k < earlier.len() && earlier[k] == w;
                assert(whole[k] == w);
            } else {
                assert(whole[earlier.len() as int] == block_write(target, entries[i])->0);
            }
        }
        assert forall|k: int| 0 <= k < whole.len() implies comes_from(
            target,
            entries,
            #[trigger] whole[k],
        ) by {
            if k < earlier.len() {
                assert(whole[k] == earlier[k]);
                assert(comes_from(target, front, earlier[k]));
                let i = choose|i: int|
                    0 <= i < front.len() && block_write(target, #[trigger] front[i]) == Some(
                        earlier[k],
                    );
                assert(entries[i] == front[i]);
            } else {
                assert(block_write(target, entries[entries.len() - 1]) == Some(whole[k]));
            }
        }
    }
}

/// Whether a write is that of one of the entries.
pub open spec fn comes_from(
    target: TargetPaths,
    entries: Seq<WholeFileEntry>,
    w: WriteView,
) -> bool {
    exists|i: int| 0 <= i < entries.len() && block_write(target, #[trigger] entries[i]) == Some(w)
}

// ---------------------------------------------------------------------------
// Streaming between two shares
// ---------------------------------------------------------------------------

/// A file that is streamed from one share to another.
#[derive(Debug)]
pub struct StreamJob {
    pub read_path: String,
    pub write_path: String,
    /// Source path with slashes only.
    pub src_rel: String,
    /// Target path with slashes only.
    pub dst_rel: String,
    pub file_size: u64,
}

/// What is done between two shares: first all directories, then all files.
#[derive(Debug)]
pub struct StreamingPlan {
    pub dir_entries: u64,
    pub file_entries: u64,
    pub dir_paths: Vec<String>,
    pub file_jobs: Vec<StreamJob>,
}

pub open spec fn is_dir_block(b: ControlBlockVarient) -> bool {
    b is DirControlBlock
}

/// Whether a block is a file that is streamed: symbolic links are not.
pub open spec fn is_streamed(b: ControlBlockVarient) -> bool {
    b matches ControlBlockVarient::FileControlBlock(f) && f.meta.common.symlink_target_path is None
}

pub open spec fn streams(j: StreamJob, b: ControlBlockVarient) -> bool {
    b matches ControlBlockVarient::FileControlBlock(f) && j.read_path == f.src_path && j.write_path
        == f.dst_path && j.src_rel@ == text::forward_slashes(f.src_path@) && j.dst_rel@
        == text::forward_slashes(f.dst_path@) && j.file_size == f.meta.size
}

/// The directories and files of a control file, in order, with the numbers of both; the
/// number of files counts symbolic links too.
pub fn plan_streaming(blocks: Vec<ControlBlockVarient>) -> (plan: StreamingPlan)
    ensures
        plans_stream(blocks@, plan),
{
    let ghost all = blocks@;
    let ghost is_d = |b: ControlBlockVarient| is_dir_block(b);
    let ghost is_f = |b: ControlBlockVarient| is_streamed(b);
    let total: usize = blocks.len();
    let mut dir_entries: u64 = 0;
    let mut file_entries: u64 = 0;
    let mut dir_paths: Vec<String> = Vec::new();
    let mut file_jobs: Vec<StreamJob> = Vec::new();
    proof {
        reveal_with_fuel(Seq::filter, 1);
    }
    for block in it: blocks
        invariant
            it.seq() == all,
            total == all.len(),
            is_d == (|b: ControlBlockVarient| is_dir_block(b)),
            is_f == (|b: ControlBlockVarient| is_streamed(b)),
            dir_entries + file_entries == it.index(),
            dir_entries == all.take(it.index() as int).filter(is_d).len(),
            dir_paths@.len() == dir_entries,
            forall|i: int|
                0 <= i < dir_paths@.len() ==> #[trigger] dir_paths@[i] == all.take(
                    it.index() as int,
                ).filter(is_d)[i]->DirControlBlock_0.dst_path,
            file_jobs@.len() == all.take(it.index() as int).filter(is_f).len(),
            forall|i: int|
                0 <= i < file_jobs@.len() ==> streams(
                    #[trigger] file_jobs@[i],
                    all.take(it.index() as int).filter(is_f)[i],
                ),
    {
        let ghost n = it.index() as int;
        assert(all.take(n + 1).drop_last() =~= all.take(n));
        assert(all.take(n + 1).last() == block);
        proof {
            reveal_with_fuel(Seq::filter, 1);
        }
        match block {
            ControlBlockVarient::DirControlBlock(d) => {
                dir_entries = dir_entries + 1;
                dir_paths.push(d.dst_path);
            },
            ControlBlockVarient::FileControlBlock(f) => {
                file_entries = file_entries + 1;
                if f.meta.common.symlink_target_path.is_none() {
                    let src_rel = text::to_forward_slashes(f.src_path.as_str());
                    let dst_rel = text::to_forward_slashes(f.dst_path.as_str());
                    file_jobs.push(
                        StreamJob {
                            read_path: f.src_path,
                            write_path: f.dst_path,
                            src_rel,
                            dst_rel,
                            file_size: f.meta.size,
                        },
                    );
                }
            },
        }
    }
    assert(all.take(all.len() as int) =~= all);
    StreamingPlan { dir_entries, file_entries, dir_paths, file_jobs }
}

/// How many flags are set.
pub open spec fn set_count(flags: Seq<bool>) -> nat
    decreases flags.len(),
{
    if flags.len() == 0 {
        0
    } else {
        set_count(flags.drop_last()) + (if flags.last() {
            1nat
        } else {
            0nat
        })
    }
}

/// The bytes of the files that were copied.
pub open spec fn job_bytes(jobs: Seq<StreamJob>, ok: Seq<bool>) -> nat
    decreases jobs.len(),
{
    if jobs.len() == 0 {
        0
    } else {
        job_bytes(jobs.drop_last(), ok) + (if ok[jobs.len() - 1] {
            jobs.last().file_size as nat
        } else {
            0nat
        })
    }
}

proof fn lemma_jobs_grow(jobs: Seq<StreamJob>, ok: Seq<bool>, n: int)
    requires
        0 <= n <= jobs.len(),
    ensures
        job_bytes(jobs.take(n), ok) <= job_bytes(jobs, ok),
    decreases jobs.len(),
{
    if n == jobs.len() {
        assert(jobs.take(n) =~= jobs);
    } else {
        lemma_jobs_grow(jobs.drop_last(), ok, n);
        assert(jobs.drop_last().take(n) =~= jobs.take(n));
    }
}

proof fn lemma_set_at_most(flags: Seq<bool>)
    ensures
        set_count(flags) <= flags.len(),
    decreases flags.len(),
{
    if flags.len() > 0 {
        lemma_set_at_most(flags.drop_last());
    }
}

/// Counts a stream between two shares, given which directories were made and which files
/// were copied. All directories come before all files, and closing the shares counts
/// nothing.
pub fn run_smb_to_smb_streaming_pipeline(
    plan: &StreamingPlan,
    dirs_ok: &Vec<bool>,
    files_ok: &Vec<bool>,
) -> (stats: BackupStats)
    requires
        dirs_ok@.len() == plan.dir_paths@.len(),
        files_ok@.len() == plan.file_jobs@.len(),
        job_bytes(plan.file_jobs@, files_ok@) <= u64::MAX,
    ensures
        stats.dirs_created == set_count(dirs_ok@),
        stats.dirs_failed == dirs_ok@.len() - set_count(dirs_ok@),
        stats.files_copied == set_count(files_ok@),
        stats.files_failed == files_ok@.len() - set_count(files_ok@),
        stats.bytes_copied == job_bytes(plan.file_jobs@, files_ok@),
        stats.src_opened == 0 && stats.src_closed == 0 && stats.dst_opened == 0 && stats.dst_closed
            == 0 && stats.files_deleted == 0 && stats.dirs_deleted == 0,
{
    let mut stats = BackupStats::default();
    let mut i: usize = 0;
    assert(dirs_ok@.take(0) =~= Seq::empty());
    while i < dirs_ok.len()
        invariant
            i <= dirs_ok@.len(),
            stats == (BackupStats {
                dirs_created: set_count(dirs_ok@.take(i as int)) as u64,
                dirs_failed: (i - set_count(dirs_ok@.take(i as int))) as u64,
                ..crate::stats::no_counts()
            }),
        decreases dirs_ok@.len() - i,
    {
        proof {
            assert(dirs_ok@.take(i + 1).drop_last() =~= dirs_ok@.take(i as int));
            lemma_set_at_most(dirs_ok@.take(i as int));
        }
        dir_was_made(dirs_ok[i], &mut stats);
        i += 1;
    }
    assert(dirs_ok@.take(i as int) =~= dirs_ok@);
    let ghost made = stats;
    let mut k: usize = 0;
    assert(files_ok@.take(0) =~= Seq::empty());
    assert(plan.file_jobs@.take(0) =~= Seq::empty());
    while k < files_ok.len()
        invariant
            k <= files_ok@.len(),
            files_ok@.len() == plan.file_jobs@.len(),
            job_bytes(plan.file_jobs@, files_ok@) <= u64::MAX,
            made.files_copied == 0 && made.files_failed == 0 && made.bytes_copied == 0,
            stats == (BackupStats {
                files_copied: set_count(files_ok@.take(k as int)) as u64,
                files_failed: (k - set_count(files_ok@.take(k as int))) as u64,
                bytes_copied: job_bytes(plan.file_jobs@.take(k as int), files_ok@) as u64,
                ..made
            }),
        decreases files_ok@.len() - k,
    {
        proof {
            assert(files_ok@.take(k + 1).drop_last() =~= files_ok@.take(k as int));
            assert(plan.file_jobs@.take(k + 1).drop_last() =~= plan.file_jobs@.take(k as int));
            lemma_set_at_most(files_ok@.take(k as int));
            lemma_jobs_grow(plan.file_jobs@, files_ok@, k as int);
            lemma_jobs_grow(plan.file_jobs@, files_ok@, k + 1);
        }
        file_was_written(files_ok[k], plan.file_jobs[k].file_size, &mut stats);
        k += 1;
    }
    proof {
        assert(files_ok@.take(k as int) =~= files_ok@);
        assert(plan.file_jobs@.take(k as int) =~= plan.file_jobs@);
        lemma_set_at_most(files_ok@);
        lemma_set_at_most(dirs_ok@);
    }
    stats
}

// ---------------------------------------------------------------------------
// Times
// ---------------------------------------------------------------------------

/// A duration for people: minutes only where there are some, seconds to the millisecond.
pub open spec fn elapsed_text(secs: u64, millis: u32) -> Seq<char> {
    let tail = "."@ + text::pad_left(text::decimal(millis as nat), 3, '0') + "s"@;
    if secs >= 60 {
        text::decimal((secs / 60) as nat) + "m "@ + text::decimal((secs % 60) as nat) + tail
    } else {
        text::decimal(secs as nat) + tail
    }
}

pub fn format_elapsed(secs: u64, millis: u32) -> (s: String)
    ensures
        s@ == elapsed_text(secs, millis),
{
    let mut tail = text::copy_of(".");
    tail.append(text::decimal_padded(millis as u64, 3).as_str());
    tail.append("s");
    if secs >= 60 {
        let mut s = text::decimal_string(secs / 60);
        s.append("m ");
        s.append(text::decimal_string(secs % 60).as_str());
        s.append(tail.as_str());
        s
    } else {
        let mut s = text::decimal_string(secs);
        s.append(tail.as_str());
        s
    }
}

/// How many files are copied at once over SMB: what is configured, up to 32; otherwise two
/// for each connection, from two to 16. More connections never mean fewer files.
pub proof fn law_smb_tasks(pool: usize, larger: usize, configured: usize)
    requires
        pool <= larger,
    ensures
        1 <= configured <= 32 ==> smb_tasks(pool, configured) == configured,
        configured > 32 ==> smb_tasks(pool, configured) == 32,
        1 <= pool <= 8 ==> smb_tasks(pool, 0) == 2 * pool,
        pool == 0 ==> smb_tasks(pool, 0) == 2,
        pool > 8 ==> smb_tasks(pool, 0) == 16,
        smb_tasks(pool, configured) <= smb_tasks(larger, configured),
{
}

/// A path on a share has no backslash, one on an export is as it is, and one in a directory
/// lies below it.
pub proof fn law_paths_on_targets(base: String, dst: Seq<char>)
    ensures
        written_path(TargetPaths::Export, dst) == dst,
        written_path(TargetPaths::Share, dst).len() == dst.len(),
        !dst.contains('\\') ==> written_path(TargetPaths::Share, dst) == dst,
        base@.len() > 0 && crate::paths::is_clean(dst) ==> crate::paths::strip_prefix(
            written_path(TargetPaths::Directory { base }, dst),
            base@,
        ) == Some(dst),
{
    text::law_forward_slashes(dst);
    if base@.len() > 0 && crate::paths::is_clean(dst) {
        crate::paths::law_strip_undoes_join(base@, dst);
    }
}

/// A block counts as what it is: a directory as created or failed, a file as copied with its
/// bytes or as failed without, and a link not at all.
pub proof fn law_blocks_count_as_what_they_are(
    stats: BackupStats,
    block: ControlBlockVarient,
    ok: bool,
)
    requires
        stats.dirs_created < u64::MAX,
        stats.dirs_failed < u64::MAX,
        stats.files_copied < u64::MAX,
        stats.files_failed < u64::MAX,
        block matches ControlBlockVarient::FileControlBlock(f) ==> stats.bytes_copied + f.meta.size
            <= u64::MAX,
    ensures
        ({
            let after = block_counted(stats, block, ok);
            let link = block matches ControlBlockVarient::FileControlBlock(f)
                && f.meta.common.symlink_target_path is Some;
            let file = block is FileControlBlock && !link;
            &&& after.dirs_created - stats.dirs_created == (if block is DirControlBlock && ok {
                1int
            } else {
                0int
            })
            &&& after.dirs_failed - stats.dirs_failed == (if block is DirControlBlock && !ok {
                1int
            } else {
                0int
            })
            &&& after.files_copied - stats.files_copied == (if file && ok {
                1int
            } else {
                0int
            })
            &&& after.files_failed - stats.files_failed == (if file && !ok {
                1int
            } else {
                0int
            })
            &&& after.bytes_copied - stats.bytes_copied == (if file && ok {
                block->FileControlBlock_0.meta.size as int
            } else {
                0int
            })
            &&& link ==> after == stats
        }),
{
}

/// Blocks are written in their order: what is written for two lists, one behind the other, is
/// what is written for the first and then what is written for the second. A directory is
/// made, a file that was read is written with its content at its place, and nothing is written
/// for a link or for a file that was not read.
pub proof fn law_writes_follow_the_blocks(
    target: TargetPaths,
    a: Seq<WholeFileEntry>,
    b: Seq<WholeFileEntry>,
    e: WholeFileEntry,
)
    ensures
        all_writes(target, a + b) == all_writes(target, a) + all_writes(target, b),
        e.block matches ControlBlockVarient::DirControlBlock(d) ==> all_writes(target, seq![e])
            == seq![WriteView::Dir(written_path(target, d.dst_path@))],
        e.block matches ControlBlockVarient::FileControlBlock(f) ==> {
            &&& f.meta.common.symlink_target_path is Some ==> all_writes(target, seq![e]).len() == 0
            &&& e.content is None ==> all_writes(target, seq![e]).len() == 0
            &&& f.meta.common.symlink_target_path is None ==> (e.content matches Some(c)
                ==> all_writes(target, seq![e]) == seq![
                WriteView::File(written_path(target, f.dst_path@), c@),
            ])
        },
    decreases b.len(),
{
    reveal_with_fuel(all_writes, 2);
    assert(seq![e].drop_last() =~= Seq::empty());
    assert(all_writes(target, seq![e]) =~= (match block_write(target, e) {
        Some(w) => seq![w],
        None => Seq::empty(),
    }));
    if b.len() == 0 {
        assert(a + b =~= a);
        assert(all_writes(target, a) + all_writes(target, b) =~= all_writes(target, a));
    } else {
        law_writes_follow_the_blocks(target, a, b.drop_last(), e);
        assert((a + b).drop_last() =~= a + b.drop_last());
        assert((a + b).last() == b.last());
        assert(all_writes(target, a + b) =~= all_writes(target, a) + all_writes(target, b));
    }
}

/// An entry is done only where it was written, and a file only where it was read too.
pub proof fn law_entries_are_done_once_written(entries: Seq<WholeFileEntry>, i: int)
    requires
        0 <= i < entries.len(),
    ensures
        done_of(entries).len() == entries.len(),
        blocks_of(entries).len() == entries.len(),
        blocks_of(entries)[i] == entries[i].block,
        entries[i].block is DirControlBlock ==> done_of(entries)[i] == entries[i].written,
        entries[i].block is FileControlBlock ==> (done_of(entries)[i] <==> entries[i].written
            && entries[i].content is Some),
{
}

/// A file is streamed from where its block reads to where its block writes, with its whole
/// size; links are never streamed.
pub proof fn law_streams_follow_their_block(j: StreamJob, b: ControlBlockVarient)
    requires
        streams(j, b),
    ensures
        b matches ControlBlockVarient::FileControlBlock(f) && {
            &&& (j.read_path, j.write_path, j.file_size) == (f.src_path, f.dst_path, f.meta.size)
            &&& !f.src_path@.contains('\\') ==> j.src_rel@ == f.src_path@
            &&& !f.dst_path@.contains('\\') ==> j.dst_rel@ == f.dst_path@
            &&& is_streamed(b) <==> f.meta.common.symlink_target_path is None
        },
{
    match b {
        ControlBlockVarient::FileControlBlock(f) => {
            text::law_forward_slashes(f.src_path@);
            text::law_forward_slashes(f.dst_path@);
        },
        _ => {},
    }
}

/// Minutes stand in front of what is shown of the seconds.
pub proof fn law_minutes_stand_in_front(minutes: u64, secs: u64, millis: u32)
    requires
        1 <= minutes <= 1_000_000_000,
        secs < 60,
    ensures
        elapsed_text((60 * minutes + secs) as u64, millis) == text::decimal(minutes as nat)
            + "m "@ + elapsed_text(secs, millis),
{
    let whole = (60 * minutes + secs) as u64;
    assert(whole / 60 == minutes && whole % 60 == secs);
    let tail = "."@ + text::pad_left(text::decimal(millis as nat), 3, '0') + "s"@;
    assert(text::decimal(minutes as nat) + "m "@ + text::decimal(secs as nat) + tail
        =~= text::decimal(minutes as nat) + "m "@ + (text::decimal(secs as nat) + tail));
}

/// Whether `after` are the counters once a source and a target were brought to a close, or
/// failed to be.
pub open spec fn counts_ends(
    source_ok: bool,
    target_ok: bool,
    before: BackupStats,
    after: BackupStats,
) -> bool {
    after == (BackupStats {
        files_failed: before.files_failed.wrapping_add(
            (if source_ok {
                0u64
            } else {
                1u64
            }),
        ).wrapping_add(
            (if target_ok {
                0u64
            } else {
                1u64
            }),
        ),
        ..before
    })
}

/// Whether `after` are the counters once a file was written, or failed to be.
pub open spec fn counts_file(
    ok: bool,
    size: u64,
    before: BackupStats,
    after: BackupStats,
) -> bool {
    after == (if ok {
        BackupStats {
            files_copied: before.files_copied.wrapping_add(1),
            bytes_copied: before.bytes_copied.wrapping_add(size),
            ..before
        }
    } else {
        BackupStats { files_failed: before.files_failed.wrapping_add(1), ..before }
    })
}

/// Whether `after` are the counters once a directory was created, or failed to be.
pub open spec fn counts_made_dir(
    ok: bool,
    before: BackupStats,
    after: BackupStats,
) -> bool {
    after == (if ok {
        BackupStats { dirs_created: before.dirs_created.wrapping_add(1), ..before }
    } else {
        BackupStats { dirs_failed: before.dirs_failed.wrapping_add(1), ..before }
    })
}

/// Whether `after` are the counters once a blob was written, or failed to be.
pub open spec fn counts_blob(
    ok: bool,
    file_count: u64,
    bytes: u64,
    before: BackupStats,
    after: BackupStats,
) -> bool {
    after == (if ok {
        BackupStats {
            files_copied: before.files_copied.wrapping_add(file_count),
            bytes_copied: before.bytes_copied.wrapping_add(bytes),
            ..before
        }
    } else {
        BackupStats {
            files_failed: before.files_failed.wrapping_add(
                (if file_count == 0 {
                    1u64
                } else {
                    file_count
                }),
            ),
            ..before
        }
    })
}

/// Whether `after` are the counters once a pipeline has ended.
pub open spec fn counts_pipeline(
    blocks: Seq<ControlBlockVarient>,
    ok: Seq<bool>,
    source_ok: bool,
    target_ok: bool,
    before: BackupStats,
    after: BackupStats,
) -> bool {
    ({
        let all = pipeline_counted(before, blocks, ok);
        after == (BackupStats {
            files_failed: all.files_failed.wrapping_add(
                (if source_ok {
                    0u64
                } else {
                    1u64
                }),
            ).wrapping_add(
                (if target_ok {
                    0u64
                } else {
                    1u64
                }),
            ),
            ..all
        })
    })
}

/// Whether `r` is a file with the content that was read, and `after` what becomes of the
/// counters.
pub open spec fn holds_content(
    block: FileControlBlock,
    content: Option<Vec<u8>>,
    before: BackupStats,
    after: BackupStats,
    r: Option<FileControlBlock>,
) -> bool {
    match content {
        None => {
            &&& r is None
            &&& after == (BackupStats {
                files_failed: before.files_failed.wrapping_add(1),
                ..before
            })
        },
        Some(bytes) => {
            &&& after == before
            &&& r matches Some(b) && b.buffer == bytes && b.buffer_len == bytes@.len() && b.wf()
                && b.src_state == SourceHandleState::Read && b.dst_state == block.dst_state
                && b.meta == block.meta && b.src_path == block.src_path && b.dst_path
                == block.dst_path && b.src_offset == block.src_offset && b.dst_offset
                == block.dst_offset
        },
    }
}

/// Whether `r` is what is done with a control block.
pub open spec fn is_step_of(
    block: ControlBlockVarient,
    target: TargetPaths,
    r: WholeFileStep,
) -> bool {
    match block {
        ControlBlockVarient::DirControlBlock(d) => r matches WholeFileStep::MakeDir {
            path,
            dir,
        } && dir == d && path@ == written_path(target, d.dst_path@),
        ControlBlockVarient::FileControlBlock(f) =>
            if f.meta.common.symlink_target_path is Some {
                r == WholeFileStep::SkipSymlink
            } else {
                r matches WholeFileStep::ReadFile { path, block: b } && b == f && path@
                    == written_path(target, f.dst_path@)
            },
    }
}

/// Whether a plan streams what the control blocks name.
pub open spec fn plans_stream(
    blocks: Seq<ControlBlockVarient>,
    plan: StreamingPlan,
) -> bool {
    ({
        let dirs = blocks.filter(|b: ControlBlockVarient| is_dir_block(b));
        let files = blocks.filter(|b: ControlBlockVarient| is_streamed(b));
        &&& plan.dir_entries == dirs.len()
        &&& plan.file_entries == blocks.len() - dirs.len()
        &&& plan.dir_paths@.len() == dirs.len()
        &&& forall|i: int|
            0 <= i < dirs.len() ==> #[trigger] plan.dir_paths@[i]
                == dirs[i]->DirControlBlock_0.dst_path
        &&& plan.file_jobs@.len() == files.len()
        &&& forall|i: int|
            0 <= i < files.len() ==> streams(#[trigger] plan.file_jobs@[i], files[i])
    })
}

/// What ends counts once: a directory as created or as failed, a file as copied with its bytes
/// or as failed, each file of a blob with the blob, but at least one where it failed, and each
/// side of a pipeline that could not be closed as one failed file.
pub proof fn law_ends_count_once(
    ok: bool,
    other: bool,
    n: u64,
    bytes: u64,
    before: BackupStats,
    after: BackupStats,
)
    requires
        before.files_copied + n < u64::MAX,
        before.files_failed + n < u64::MAX - 2,
        before.bytes_copied + bytes < u64::MAX,
        before.dirs_created < u64::MAX,
        before.dirs_failed < u64::MAX,
    ensures
        counts_made_dir(ok, before, after) ==> {
            &&& after.dirs_created + after.dirs_failed == before.dirs_created + before.dirs_failed
                + 1
            &&& after.dirs_created > before.dirs_created <==> ok
            &&& (after.files_copied, after.files_failed, after.bytes_copied) == (
                before.files_copied,
                before.files_failed,
                before.bytes_copied,
            )
        },
        counts_file(ok, bytes, before, after) ==> {
            &&& after.files_copied + after.files_failed == before.files_copied + before.files_failed
                + 1
            &&& after.files_copied > before.files_copied <==> ok
            &&& ok ==> after.bytes_copied == before.bytes_copied + bytes
            &&& !ok ==> after.bytes_copied == before.bytes_copied
        },
        counts_blob(ok, n, bytes, before, after) ==> {
            &&& ok ==> after.files_copied == before.files_copied + n && after.bytes_copied
                == before.bytes_copied + bytes && after.files_failed == before.files_failed
            &&& !ok ==> after.files_failed > before.files_failed && after.files_copied
                == before.files_copied && after.bytes_copied == before.bytes_copied
            &&& !ok && n > 0 ==> after.files_failed == before.files_failed + n
        },
        counts_ends(ok, other, before, after) ==> {
            &&& after.files_failed - before.files_failed == (if ok {
                0int
            } else {
                1int
            }) + (if other {
                0int
            } else {
                1int
            })
            &&& after.files_copied == before.files_copied && after.bytes_copied
                == before.bytes_copied
        },
{
}

/// A pipeline counts as its blocks do, and then its ends: where both sides were closed, it
/// counts what its blocks count and nothing else.
pub proof fn law_pipelines_count_their_blocks_and_ends(
    blocks: Seq<ControlBlockVarient>,
    ok: Seq<bool>,
    source_ok: bool,
    target_ok: bool,
    before: BackupStats,
    after: BackupStats,
)
    requires
        counts_pipeline(blocks, ok, source_ok, target_ok, before, after),
    ensures
        source_ok && target_ok ==> after == pipeline_counted(before, blocks, ok),
        counts_ends(source_ok, target_ok, pipeline_counted(before, blocks, ok), after),
        after.files_copied == pipeline_counted(before, blocks, ok).files_copied,
        after.bytes_copied == pipeline_counted(before, blocks, ok).bytes_copied,
        after.dirs_created == pipeline_counted(before, blocks, ok).dirs_created,
{
}

/// A file that was read holds its content and is otherwise as it was; one that was not read
/// has failed.
pub proof fn law_content_is_held_as_read(
    block: FileControlBlock,
    content: Option<Vec<u8>>,
    before: BackupStats,
    after: BackupStats,
    r: Option<FileControlBlock>,
)
    requires
        holds_content(block, content, before, after, r),
        before.files_failed < u64::MAX,
    ensures
        r is Some <==> content is Some,
        r matches Some(b) ==> after == before && b.buffer@ == content->0@ && b.buffer_len
            == b.buffer@.len() && (b.src_path, b.dst_path) == (block.src_path, block.dst_path)
            && b.meta == block.meta && b.src_state == SourceHandleState::Read,
        r is None ==> after.files_failed == before.files_failed + 1 && after.files_copied
            == before.files_copied,
{
}

/// A directory is made and a file is read for the place where its block is written; a link is
/// passed over.
pub proof fn law_steps_go_where_the_block_is_written(
    block: ControlBlockVarient,
    target: TargetPaths,
    r: WholeFileStep,
)
    requires
        is_step_of(block, target, r),
    ensures
        r is MakeDir <==> block is DirControlBlock,
        r is SkipSymlink <==> block is FileControlBlock && !is_streamed(block),
        r is ReadFile <==> is_streamed(block),
        r matches WholeFileStep::ReadFile { path, block: b } ==> block
            == ControlBlockVarient::FileControlBlock(b) && path@ == written_path(
            target,
            b.dst_path@,
        ),
        r matches WholeFileStep::MakeDir { path, dir } ==> block
            == ControlBlockVarient::DirControlBlock(dir) && path@ == written_path(
            target,
            dir.dst_path@,
        ),
{
}

/// A stream has a directory for each block of one, and a job for each file that is no link;
/// every block is counted as one or the other.
pub proof fn law_streams_name_every_block(blocks: Seq<ControlBlockVarient>, plan: StreamingPlan)
    requires
        plans_stream(blocks, plan),
    ensures
        plan.dir_entries + plan.file_entries == blocks.len(),
        plan.dir_paths@.len() == plan.dir_entries,
        plan.file_jobs@.len() == blocks.filter(|b: ControlBlockVarient| is_streamed(b)).len(),
        plan.dir_entries == blocks.filter(|b: ControlBlockVarient| b is DirControlBlock).len(),
{
    assert((|b: ControlBlockVarient| is_dir_block(b)) =~= (|b: ControlBlockVarient|
        b is DirControlBlock));
}

} // verus!
