//! Plans: what is to be done with each entry of a control file.
use vstd::prelude::*;

use crate::aggregate::{aggregates, should_aggregate, AggregateConfig};
use crate::fcb::{ControlBlockVarient, FileControlBlock};
use crate::metadata::{DirMeta, FileMeta};

verus! {

#[derive(Debug)]
pub enum CopyPlanEntry {
    Directory { meta: DirMeta, dst_path: String },
    File(FileCopyPlan),
}

#[derive(Debug)]
pub enum FileCopyPlan {
    /// The file is copied on its own.
    Direct { meta: FileMeta, src_path: String, dst_path: String },
    /// The file goes into a blob.
    Aggregate { meta: FileMeta, src_path: String },
}

impl FileCopyPlan {
    /// The plan for a file, once it was decided whether it goes into a blob.
    pub fn from_fcb(fcb: FileControlBlock, aggregate: bool) -> (r: Self)
        ensures
            aggregate ==> (r matches FileCopyPlan::Aggregate { meta, src_path } && meta
                == *fcb.meta && src_path == fcb.src_path),
            !aggregate ==> (r matches FileCopyPlan::Direct { meta, src_path, dst_path } && meta
                == *fcb.meta && src_path == fcb.src_path && dst_path == fcb.dst_path),
    {
        let meta = *fcb.meta;
        if aggregate {
            FileCopyPlan::Aggregate { meta, src_path: fcb.src_path }
        } else {
            FileCopyPlan::Direct { meta, src_path: fcb.src_path, dst_path: fcb.dst_path }
        }
    }
}

/// Whether a local file goes into a blob: symbolic links never do.
pub open spec fn local_aggregates(meta: FileMeta, config: Option<AggregateConfig>) -> bool {
    match config {
        Some(c) => meta.common.symlink_target_path is None && aggregates(meta.size, c),
        None => false,
    }
}

/// Whether a plan does what the block calls for.
pub open spec fn plans(
    entry: CopyPlanEntry,
    block: ControlBlockVarient,
    config: Option<AggregateConfig>,
) -> bool {
    match block {
        ControlBlockVarient::DirControlBlock(d) => entry matches CopyPlanEntry::Directory {
            meta,
            dst_path,
        } && meta == *d.meta && dst_path == d.dst_path,
        ControlBlockVarient::FileControlBlock(f) => if local_aggregates(*f.meta, config) {
            entry matches CopyPlanEntry::File(FileCopyPlan::Aggregate { meta, src_path }) && meta
                == *f.meta && src_path == f.src_path
        } else {
            entry matches CopyPlanEntry::File(FileCopyPlan::Direct { meta, src_path, dst_path })
                && meta == *f.meta && src_path == f.src_path && dst_path == f.dst_path
        },
    }
}

/// The plan for one control block. Without a configuration nothing is aggregated.
pub fn plan_entry(block: ControlBlockVarient, config: Option<AggregateConfig>) -> (r: CopyPlanEntry)
    ensures
        plans(r, block, config),
{
    match block {
        ControlBlockVarient::DirControlBlock(d) => CopyPlanEntry::Directory {
            meta: *d.meta,
            dst_path: d.dst_path,
        },
        ControlBlockVarient::FileControlBlock(f) => {
            let aggregate = match config {
                Some(c) => f.meta.common.symlink_target_path.is_none() && should_aggregate(
                    f.meta.size,
                    &c,
                ),
                None => false,
            };
            CopyPlanEntry::File(FileCopyPlan::from_fcb(f, aggregate))
        },
    }
}

/// The plans for a list of control blocks, in order.
pub fn produce_copy_plan(blocks: Vec<ControlBlockVarient>, config: Option<AggregateConfig>) -> (out:
    Vec<CopyPlanEntry>)
    ensures
        out@.len() == blocks@.len(),
        forall|i: int|
            0 <= i < blocks@.len() ==> plans(#[trigger] out@[i], blocks@[i], config),
{
    let ghost all = blocks@;
    let mut out: Vec<CopyPlanEntry> = Vec::new();
    for block in it: blocks
        invariant
            it.seq() == all,
            out@.len() == it.index(),
            forall|i: int| 0 <= i < out@.len() ==> plans(#[trigger] out@[i], all[i], config),
    {
        out.push(plan_entry(block, config));
    }
    out
}

/// A local file goes into a blob exactly where small files are collected, it is no link, and
/// it is neither empty nor as large as the threshold.
pub proof fn law_small_files_are_collected(meta: FileMeta, config: AggregateConfig)
    ensures
        local_aggregates(meta, Some(config)) <==> config.enabled && meta.common.symlink_target_path
            is None && meta.size > 0 && meta.size < config.file_threshold,
        !local_aggregates(meta, None),
{
}

/// A plan is made of the block that it stands for: it reads where the block reads, and what
/// is not collected is written where the block writes. Without collecting, every file is
/// copied on its own.
pub proof fn law_plans_follow_their_block(
    entry: CopyPlanEntry,
    block: ControlBlockVarient,
    config: Option<AggregateConfig>,
)
    requires
        plans(entry, block, config),
    ensures
        entry is Directory <==> block is DirControlBlock,
        block matches ControlBlockVarient::DirControlBlock(d) ==> (
        entry matches CopyPlanEntry::Directory { meta, dst_path } && meta == *d.meta && dst_path
            == d.dst_path),
        entry matches CopyPlanEntry::File(FileCopyPlan::Direct { meta, src_path, dst_path }) ==> (
        block matches ControlBlockVarient::FileControlBlock(f) && meta == *f.meta && src_path
            == f.src_path && dst_path == f.dst_path),
        entry matches CopyPlanEntry::File(FileCopyPlan::Aggregate { meta, src_path }) ==> (
        block matches ControlBlockVarient::FileControlBlock(f) && meta == *f.meta && src_path
            == f.src_path && config is Some && meta.common.symlink_target_path is None),
        config is None && block is FileControlBlock ==> (entry matches CopyPlanEntry::File(p)
            && p is Direct),
{
}

} // verus!
