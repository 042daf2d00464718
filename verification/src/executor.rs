//! Copying one file: which block is read or written next, and how the copy ends.
use std::sync::Arc;

use vstd::prelude::*;

use crate::copy_block::CopyBlock;
use crate::copy_plan::FileCopyPlan;
use crate::failure::{FailureItemType, FailureRecord};
use crate::stats::BackupStats;

verus! {

/// A failure that is to be written down.
#[derive(Debug)]
pub struct FailureNote {
    pub operation: &'static str,
    pub path: String,
    pub detail: String,
    pub attempts: u32,
}

/// How the copy of a file ended.
#[derive(Debug)]
pub enum FileEnd {
    Copied,
    /// Symbolic links are not copied here.
    SkippedSymlink,
    Failed(Option<FailureNote>),
}

/// What is to be done next.
#[derive(Debug)]
pub enum FileStep {
    /// Read the next stretch for this block.
    Read(CopyBlock),
    /// Write the data of this block.
    Write(CopyBlock),
    Done(FileEnd),
}

/// A block that was handed to a source or a target: as it came back, or with the text of
/// the error and the number of attempts made.
#[derive(Debug)]
pub enum BlockOutcome {
    Ready(CopyBlock),
    Failed { block: CopyBlock, detail: String, attempts: u32 },
}

/// The counters with one more failed file.
pub open spec fn one_failed(stats: BackupStats) -> BackupStats {
    BackupStats { files_failed: stats.files_failed.wrapping_add(1), ..stats }
}

/// The counters with one more copied file of the given size.
pub open spec fn one_copied(stats: BackupStats, size: u64) -> BackupStats {
    BackupStats {
        files_copied: stats.files_copied.wrapping_add(1),
        bytes_copied: stats.bytes_copied.wrapping_add(size),
        ..stats
    }
}

/// Starts the copy of a file. A file that should have gone into a blob counts as failed,
/// and symbolic links are passed over.
pub fn begin_file(plan: FileCopyPlan, stats: &mut BackupStats) -> (r: FileStep)
    ensures
        begins_file(plan, *old(stats), *final(stats), r),
{
    match plan {
        FileCopyPlan::Aggregate { .. } => {
            stats.inc_files_failed();
            FileStep::Done(FileEnd::Failed(None))
        },
        FileCopyPlan::Direct { meta, src_path, dst_path } => {
            if meta.common.symlink_target_path.is_some() {
                return FileStep::Done(FileEnd::SkippedSymlink);
            }
            let file_size: u64 = meta.size;
            FileStep::Read(
                CopyBlock {
                    meta: Arc::new(meta),
                    src_path,
                    dst_path,
                    src_offset: 0,
                    dst_offset: 0,
                    file_size,
                    data: Vec::new(),
                    is_last: false,
                },
            )
        },
    }
}

/// Goes on after a read. A read that brings nothing before the end of the file is a
/// failure.
pub fn after_read(outcome: BlockOutcome, stats: &mut BackupStats) -> (r: FileStep)
    ensures
        follows_read(outcome, *old(stats), *final(stats), r),
{
    match outcome {
        BlockOutcome::Failed { block, detail, attempts } => {
            stats.inc_files_failed();
            FileStep::Done(
                FileEnd::Failed(
                    Some(
                        FailureNote {
                            operation: "read_block",
                            path: block.src_path,
                            detail,
                            attempts,
                        },
                    ),
                ),
            )
        },
        BlockOutcome::Ready(block) => {
            if block.data_len() == 0 && !block.read_complete() {
                stats.inc_files_failed();
                return FileStep::Done(FileEnd::Failed(None));
            }
            FileStep::Write(block)
        },
    }
}

/// Goes on after a write. The file is done once it is read and written to its end;
/// otherwise the next stretch is read.
pub fn after_write(outcome: BlockOutcome, stats: &mut BackupStats) -> (r: FileStep)
    ensures
        follows_write(outcome, *old(stats), *final(stats), r),
{
    match outcome {
        BlockOutcome::Failed { block, detail, attempts } => {
            stats.inc_files_failed();
            FileStep::Done(
                FileEnd::Failed(
                    Some(
                        FailureNote {
                            operation: "write_block",
                            path: block.dst_path,
                            detail,
                            attempts,
                        },
                    ),
                ),
            )
        },
        BlockOutcome::Ready(block) => {
            if block.read_complete() && block.write_complete() {
                stats.inc_files_copied();
                stats.add_bytes_copied(block.file_size);
                return FileStep::Done(FileEnd::Copied);
            }
            let mut next = block;
            next.clear_data();
            FileStep::Read(next)
        },
    }
}

/// Whether a record tells of a failure that is known by its text.
pub open spec fn tells_detail(
    r: FailureRecord,
    operation: Seq<char>,
    item_type: FailureItemType,
    path: Seq<char>,
    detail: Seq<char>,
    attempts: u32,
) -> bool {
    &&& r.phase@ == "backup"@
    &&& r.operation@ == operation
    &&& r.item_type == item_type
    &&& r.path@ == path
    &&& r.code@ == crate::failure::detail_code(detail)
    &&& r.detail@ == detail
    &&& r.attempts == attempts
}

/// The record of a file that failed.
pub fn record_note(note: &FailureNote) -> (r: FailureRecord)
    ensures
        tells_detail(
            r,
            note.operation@,
            FailureItemType::File,
            note.path@,
            note.detail@,
            note.attempts,
        ),
{
    FailureRecord::from_detail(
        "backup",
        note.operation,
        FailureItemType::File,
        note.path.as_str(),
        note.detail.as_str(),
        note.attempts,
    )
}

/// Counts a directory after it was created, and records a failure, which comes with its
/// text and the number of attempts.
pub fn dir_was_created(path: &str, result: Result<(), (String, u32)>, stats: &mut BackupStats) -> (r:
    Option<FailureRecord>)
    ensures
        counts_dir(path@, result, *old(stats), *final(stats), r),
{
    match result {
        Ok(_) => {
            stats.inc_dirs_created();
            None
        },
        Err((detail, attempts)) => {
            stats.inc_dirs_failed();
            Some(
                FailureRecord::from_detail(
                    "backup",
                    "create_dir",
                    FailureItemType::Directory,
                    path,
                    detail.as_str(),
                    attempts,
                ),
            )
        },
    }
}

/// A file that was copied counts once, with its size, and one that failed counts once and
/// with no bytes.
pub proof fn law_files_count_once(stats: BackupStats, size: u64)
    requires
        stats.files_copied < u64::MAX,
        stats.files_failed < u64::MAX,
        stats.bytes_copied + size <= u64::MAX,
    ensures
        one_copied(stats, size).files_copied == stats.files_copied + 1,
        one_copied(stats, size).bytes_copied == stats.bytes_copied + size,
        one_copied(stats, size).files_failed == stats.files_failed,
        one_failed(stats).files_failed == stats.files_failed + 1,
        one_failed(stats).files_copied == stats.files_copied,
        one_failed(stats).bytes_copied == stats.bytes_copied,
{
}

/// Whether `r` is the first step of a planned file, and `after` what becomes of the counters.
pub open spec fn begins_file(
    plan: FileCopyPlan,
    before: BackupStats,
    after: BackupStats,
    r: FileStep,
) -> bool {
    match plan {
        FileCopyPlan::Aggregate { .. } => {
            &&& r matches FileStep::Done(FileEnd::Failed(None))
            &&& after == one_failed(before)
        },
        FileCopyPlan::Direct { meta, src_path, dst_path } => {
            &&& after == before
            &&& if meta.common.symlink_target_path is Some {
                r matches FileStep::Done(FileEnd::SkippedSymlink)
            } else {
                r matches FileStep::Read(b) && *b.meta == meta && b.src_path == src_path
                    && b.dst_path == dst_path && b.src_offset == 0 && b.dst_offset == 0
                    && b.file_size == meta.size && b.data@.len() == 0 && !b.is_last
            }
        },
    }
}

/// Whether `r` is the step behind a read, and `after` what becomes of the counters.
pub open spec fn follows_read(
    outcome: BlockOutcome,
    before: BackupStats,
    after: BackupStats,
    r: FileStep,
) -> bool {
    match outcome {
        BlockOutcome::Failed { block, detail, attempts } => {
            &&& after == one_failed(before)
            &&& r matches FileStep::Done(FileEnd::Failed(Some(note))) && note.operation@
                == "read_block"@ && note.path == block.src_path && note.detail == detail
                && note.attempts == attempts
        },
        BlockOutcome::Ready(block) => if block.data@.len() == 0 && !block.is_read() {
            &&& after == one_failed(before)
            &&& r matches FileStep::Done(FileEnd::Failed(None))
        } else {
            &&& after == before
            &&& r == FileStep::Write(block)
        },
    }
}

/// Whether `r` is the step behind a write, and `after` what becomes of the counters.
pub open spec fn follows_write(
    outcome: BlockOutcome,
    before: BackupStats,
    after: BackupStats,
    r: FileStep,
) -> bool {
    match outcome {
        BlockOutcome::Failed { block, detail, attempts } => {
            &&& after == one_failed(before)
            &&& r matches FileStep::Done(FileEnd::Failed(Some(note))) && note.operation@
                == "write_block"@ && note.path == block.dst_path && note.detail == detail
                && note.attempts == attempts
        },
        BlockOutcome::Ready(block) => if block.is_read() && block.is_written() {
            &&& after == one_copied(before, block.file_size)
            &&& r matches FileStep::Done(FileEnd::Copied)
        } else {
            &&& after == before
            &&& r matches FileStep::Read(b) && b.data@.len() == 0 && b.meta == block.meta
                && b.src_path == block.src_path && b.dst_path == block.dst_path
                && b.src_offset == block.src_offset && b.dst_offset == block.dst_offset
                && b.file_size == block.file_size && b.is_last == block.is_last
        },
    }
}

/// Whether a directory is counted as it was created or failed to be, and a failure is recorded.
pub open spec fn counts_dir(
    path: Seq<char>,
    result: Result<(), (String, u32)>,
    before: BackupStats,
    after: BackupStats,
    r: Option<FailureRecord>,
) -> bool {
    match result {
        Ok(_) => {
            &&& r is None
            &&& after == (BackupStats {
                dirs_created: before.dirs_created.wrapping_add(1),
                ..before
            })
        },
        Err((detail, attempts)) => {
            &&& r matches Some(x) && tells_detail(
                x,
                "create_dir"@,
                FailureItemType::Directory,
                path,
                detail@,
                attempts,
            )
            &&& after == (BackupStats {
                dirs_failed: before.dirs_failed.wrapping_add(1),
                ..before
            })
        },
    }
}

/// A file that is copied on its own is read from its beginning; a link is passed over, and a
/// file that belongs into a blob fails. Only a failure is counted at this point.
pub proof fn law_files_are_read_from_their_beginning(
    plan: FileCopyPlan,
    before: BackupStats,
    after: BackupStats,
    r: FileStep,
)
    requires
        begins_file(plan, before, after, r),
        before.files_failed < u64::MAX,
    ensures
        !(r is Write),
        r is Read <==> (plan matches FileCopyPlan::Direct { meta, .. }
            && meta.common.symlink_target_path is None),
        r == FileStep::Done(FileEnd::SkippedSymlink) <==> (plan matches FileCopyPlan::Direct {
            meta,
            ..
        } && meta.common.symlink_target_path is Some),
        plan is Aggregate ==> r is Done && after.files_failed == before.files_failed + 1,
        plan is Direct ==> after == before,
        after.files_copied == before.files_copied && after.bytes_copied == before.bytes_copied,
        r matches FileStep::Read(b) ==> (plan matches FileCopyPlan::Direct {
            meta,
            src_path,
            dst_path,
        } && (b.src_path, b.dst_path) == (src_path, dst_path) && b.file_size == meta.size
            && b.src_offset == 0 && b.dst_offset == 0 && b.data@.len() == 0 && !b.is_last),
{
}

/// What was read is written, unless the read failed or brought nothing of a file that is not
/// at its end: then the file has failed, and is counted once.
pub proof fn law_what_is_read_is_written(
    outcome: BlockOutcome,
    before: BackupStats,
    after: BackupStats,
    r: FileStep,
)
    requires
        follows_read(outcome, before, after, r),
        before.files_failed < u64::MAX,
    ensures
        r is Write <==> (outcome matches BlockOutcome::Ready(b) && (b.data@.len() > 0
            || b.src_offset >= b.file_size)),
        r matches FileStep::Write(b) ==> outcome == BlockOutcome::Ready(b) && after == before,
        !(r is Write) ==> r is Done && after.files_failed == before.files_failed + 1
            && after.files_copied == before.files_copied,
{
}

/// A file is copied once both sides have reached its size, and is counted then, with its
/// bytes. Until then it is read on from where it stands, and a write that failed ends it.
pub proof fn law_files_are_copied_to_their_end(
    outcome: BlockOutcome,
    before: BackupStats,
    after: BackupStats,
    r: FileStep,
)
    requires
        follows_write(outcome, before, after, r),
        before.files_failed < u64::MAX,
        before.files_copied < u64::MAX,
        outcome matches BlockOutcome::Ready(b) ==> before.bytes_copied + b.file_size <= u64::MAX,
    ensures
        r == FileStep::Done(FileEnd::Copied) <==> (outcome matches BlockOutcome::Ready(b)
            && b.src_offset >= b.file_size && b.dst_offset >= b.file_size),
        outcome is Failed <==> after.files_failed == before.files_failed + 1,
        outcome is Failed ==> r is Done,
        after.files_copied == before.files_copied + (if r == FileStep::Done(FileEnd::Copied) {
            1int
        } else {
            0int
        }),
        outcome matches BlockOutcome::Ready(b) ==> after.bytes_copied == before.bytes_copied + (if r
            == FileStep::Done(FileEnd::Copied) {
            b.file_size as int
        } else {
            0int
        }),
        r matches FileStep::Read(n) ==> (outcome matches BlockOutcome::Ready(b) && n.data@.len()
            == 0 && (n.src_offset, n.dst_offset) == (b.src_offset, b.dst_offset) && (
        n.src_path, n.dst_path) == (b.src_path, b.dst_path) && n.file_size == b.file_size),
        !(r is Write),
{
}

/// A directory counts as created or as failed, and only a failure leaves a record, which
/// names the directory.
pub proof fn law_directories_count_as_they_went(
    path: Seq<char>,
    result: Result<(), (String, u32)>,
    before: BackupStats,
    after: BackupStats,
    r: Option<FailureRecord>,
)
    requires
        counts_dir(path, result, before, after, r),
        before.dirs_created < u64::MAX,
        before.dirs_failed < u64::MAX,
    ensures
        r is Some <==> result is Err,
        r matches Some(x) ==> x.path@ == path && x.item_type == FailureItemType::Directory,
        after.dirs_created - before.dirs_created == (if result is Ok {
            1int
        } else {
            0int
        }),
        after.dirs_failed - before.dirs_failed == (if result is Ok {
            0int
        } else {
            1int
        }),
        after.files_failed == before.files_failed,
{
}

/// A failure that is known by its text is recorded with its text, its path and its attempts.
pub proof fn law_details_are_recorded(
    r: FailureRecord,
    operation: Seq<char>,
    item_type: FailureItemType,
    path: Seq<char>,
    detail: Seq<char>,
    attempts: u32,
)
    requires
        tells_detail(r, operation, item_type, path, detail, attempts),
    ensures
        (r.operation@, r.path@, r.detail@) == (operation, path, detail),
        (r.item_type, r.attempts) == (item_type, attempts),
        r.phase@ == "backup"@,
        r.code@ == crate::failure::io_error_code(None, detail),
{
}

} // verus!
