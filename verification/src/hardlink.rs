//! The hardlink phase: files that shared an inode on the source are linked on the target.
use vstd::prelude::*;

use crate::failure::{record_failure, FailureItemType, FailureRecord, IoFailure};
use crate::path_util;
use crate::paths;

verus! {

// ---------------------------------------------------------------------------
// Counters
// ---------------------------------------------------------------------------

/// Counters of the hardlink phase.
#[derive(Debug, Clone, Copy, PartialEq, Eq, Structural)]
pub struct HardlinkStats {
    pub groups_processed: u64,
    pub hardlinks_created: u64,
    pub hardlinks_failed: u64,
    /// Files that needed no link, and groups of less than two files.
    pub files_skipped: u64,
}

/// The counters at one moment.
#[derive(Debug, Clone, Copy, PartialEq, Eq, Structural)]
pub struct HardlinkStatsSnapshot {
    pub groups_processed: u64,
    pub hardlinks_created: u64,
    pub hardlinks_failed: u64,
    pub files_skipped: u64,
}

impl Default for HardlinkStats {
    fn default() -> (r: Self)
        ensures
            r == (HardlinkStats {
                groups_processed: 0,
                hardlinks_created: 0,
                hardlinks_failed: 0,
                files_skipped: 0,
            }),
    {
        HardlinkStats {
            groups_processed: 0,
            hardlinks_created: 0,
            hardlinks_failed: 0,
            files_skipped: 0,
        }
    }
}

impl HardlinkStats {
    pub fn snapshot(&self) -> (r: HardlinkStatsSnapshot)
        ensures
            r == (HardlinkStatsSnapshot {
                groups_processed: self.groups_processed,
                hardlinks_created: self.hardlinks_created,
                hardlinks_failed: self.hardlinks_failed,
                files_skipped: self.files_skipped,
            }),
    {
        HardlinkStatsSnapshot {
            groups_processed: self.groups_processed,
            hardlinks_created: self.hardlinks_created,
            hardlinks_failed: self.hardlinks_failed,
            files_skipped: self.files_skipped,
        }
    }
}

// ---------------------------------------------------------------------------
// Groups
// ---------------------------------------------------------------------------

/// The line that starts a group: an inode, and how many names it has.
#[derive(Debug, Clone, Copy, PartialEq, Eq, Structural)]
pub struct HardlinkInodeEntry {
    pub inode: u64,
    pub device: u64,
    pub link_count: u32,
}

/// One name of an inode, and whether its metadata could be read.
#[derive(Debug)]
pub struct HardlinkFileEntry {
    pub meta_fid: u32,
    pub meta_offset: u32,
    pub path: String,
    pub meta_found: bool,
}

/// A line of a hardlink control file.
#[derive(Debug)]
pub enum HardlinkEntry {
    Inode(HardlinkInodeEntry),
    File(HardlinkFileEntry),
}

/// A file of a group.
#[derive(Debug)]
pub struct HardlinkFileInfo {
    pub meta_fid: u32,
    pub meta_offset: u32,
    pub src_path: String,
    pub dst_path: String,
}

/// Files that share an inode.
#[derive(Debug)]
pub struct HardlinkGroup {
    pub inode: u64,
    pub device: u64,
    pub link_count: u32,
    pub files: Vec<HardlinkFileInfo>,
}

/// A group in the model: its first line and the entries of its files.
pub struct GroupView {
    pub head: HardlinkInodeEntry,
    pub files: Seq<HardlinkFileEntry>,
}

/// The groups of a control file, those without files left out, and the group that the
/// next file would belong to. A file in front of all groups belongs to none, and one
/// without metadata is left out.
pub open spec fn groups_of(lines: Seq<HardlinkEntry>) -> (Seq<GroupView>, Option<GroupView>)
    decreases lines.len(),
{
    if lines.len() == 0 {
        (Seq::empty(), None)
    } else {
        let (done, open) = groups_of(lines.drop_last());
        match lines.last() {
            HardlinkEntry::Inode(e) => (
                closed(done, open),
                Some(GroupView { head: e, files: Seq::empty() }),
            ),
            HardlinkEntry::File(f) => match open {
                Some(g) => (
                    done,
                    Some(
                        if f.meta_found {
                            GroupView { files: g.files.push(f), ..g }
                        } else {
                            g
                        },
                    ),
                ),
                None => (done, None),
            },
        }
    }
}

/// The finished groups once the open one is finished too.
pub open spec fn closed(done: Seq<GroupView>, open: Option<GroupView>) -> Seq<GroupView> {
    match open {
        Some(g) => if g.files.len() > 0 {
            done.push(g)
        } else {
            done
        },
        None => done,
    }
}

/// All groups of a control file that have files.
pub open spec fn all_groups(lines: Seq<HardlinkEntry>) -> Seq<GroupView> {
    closed(groups_of(lines).0, groups_of(lines).1)
}

/// Whether a file of a group stands for an entry.
pub open spec fn places(
    info: HardlinkFileInfo,
    e: HardlinkFileEntry,
    source_base: Seq<char>,
    target_base: Seq<char>,
    logical_paths: bool,
) -> bool {
    &&& info.meta_fid == e.meta_fid
    &&& info.meta_offset == e.meta_offset
    &&& info.src_path@ == e.path@
    &&& info.dst_path@ == path_util::placed_below(source_base, target_base, e.path@, logical_paths)
}

/// Whether a group stands for its model.
pub open spec fn stands_for(
    g: HardlinkGroup,
    v: GroupView,
    source_base: Seq<char>,
    target_base: Seq<char>,
    logical_paths: bool,
) -> bool {
    &&& g.inode == v.head.inode
    &&& g.device == v.head.device
    &&& g.link_count == v.head.link_count
    &&& g.files@.len() == v.files.len()
    &&& forall|i: int|
        0 <= i < g.files@.len() ==> places(
            #[trigger] g.files@[i],
            v.files[i],
            source_base,
            target_base,
            logical_paths,
        )
}

/// Whether groups stand for their models, one for one.
pub open spec fn all_stand_for(
    groups: Seq<HardlinkGroup>,
    views: Seq<GroupView>,
    source_base: Seq<char>,
    target_base: Seq<char>,
    logical_paths: bool,
) -> bool {
    &&& groups.len() == views.len()
    &&& forall|i: int|
        0 <= i < groups.len() ==> stands_for(
            #[trigger] groups[i],
            views[i],
            source_base,
            target_base,
            logical_paths,
        )
}

/// Whether these are the groups of a control file. Its paths are logical where its header
/// names the root of the source.
pub open spec fn reads_groups(
    groups: Seq<HardlinkGroup>,
    source_root: Seq<char>,
    lines: Seq<HardlinkEntry>,
    source_base: Seq<char>,
    target_base: Seq<char>,
) -> bool {
    all_stand_for(groups, all_groups(lines), source_base, target_base, source_root.len() > 0)
}

/// The groups of a control file. Its paths are logical where its header names the root
/// of the source.
pub fn read_hardlink_groups(
    source_root: &str,
    lines: Vec<HardlinkEntry>,
    source_dir_base: &str,
    target_dir_base: &str,
) -> (groups: Vec<HardlinkGroup>)
    ensures
        reads_groups(groups@, source_root@, lines@, source_dir_base@, target_dir_base@),
{
    let ghost all = lines@;
    let logical_paths = !source_root.is_empty();
    let mut groups: Vec<HardlinkGroup> = Vec::new();
    let mut current: Option<HardlinkGroup> = None;
    assert(all.take(0) =~= Seq::empty());
    for line in it: lines
        invariant
            it.seq() == all,
            all_stand_for(
                groups@,
                groups_of(all.take(it.index() as int)).0,
                source_dir_base@,
                target_dir_base@,
                logical_paths,
            ),
            match (current, groups_of(all.take(it.index() as int)).1) {
                (Some(g), Some(v)) => stands_for(
                    g,
                    v,
                    source_dir_base@,
                    target_dir_base@,
                    logical_paths,
                ),
                (None, None) => true,
                _ => false,
            },
    {
        let ghost done = it.index() as int;
        assert(all.take(done + 1).drop_last() =~= all.take(done));
        assert(all.take(done + 1).last() == line);
        match line {
            HardlinkEntry::Inode(e) => {
                match current {
                    Some(group) => {
                        if group.files.len() > 0 {
                            groups.push(group);
                        }
                    },
                    None => {},
                }
                current =
                Some(
                    HardlinkGroup {
                        inode: e.inode,
                        device: e.device,
                        link_count: e.link_count,
                        files: Vec::new(),
                    },
                );
            },
            HardlinkEntry::File(f) => {
                match current {
                    Some(group) => {
                        let mut group = group;
                        if f.meta_found {
                            let dst_path = path_util::make_relative_and_join(
                                source_dir_base,
                                target_dir_base,
                                f.path.as_str(),
                                logical_paths,
                            );
                            group.files.push(
                                HardlinkFileInfo {
                                    meta_fid: f.meta_fid,
                                    meta_offset: f.meta_offset,
                                    src_path: f.path,
                                    dst_path,
                                },
                            );
                        }
                        current = Some(group);
                    },
                    None => {
                        current = None;
                    },
                }
            },
        }
    }
    assert(all.take(all.len() as int) =~= all);
    match current {
        Some(group) => {
            if group.files.len() > 0 {
                groups.push(group);
            }
        },
        None => {},
    }
    groups
}

// ---------------------------------------------------------------------------
// One group
// ---------------------------------------------------------------------------

/// What is done with a group: nothing, or the files from `first_link` on become links to
/// the file `target`.
#[derive(Debug, Clone, Copy, PartialEq, Eq, Structural)]
pub enum GroupPlan {
    Nothing,
    Link { target: usize, first_link: usize },
}

/// The first file that exists.
pub open spec fn first_existing(exists_at: Seq<bool>, from: int) -> Option<int>
    decreases exists_at.len() - from,
{
    if from < 0 || from >= exists_at.len() {
        None
    } else if exists_at[from] {
        Some(from)
    } else {
        first_existing(exists_at, from + 1)
    }
}

/// What is decided for a group, and the counters before and after. The target of the links
/// is the first file that exists: where that is the first of the group, the others become
/// links to it, and otherwise all files are gone through.
pub open spec fn plans_group(
    exists_at: Seq<bool>,
    before: HardlinkStats,
    plan: GroupPlan,
    after: HardlinkStats,
) -> bool {
    if exists_at.len() < 2 {
        &&& plan == GroupPlan::Nothing
        &&& after == (HardlinkStats {
            files_skipped: before.files_skipped.wrapping_add(1),
            ..before
        })
    } else {
        let seen = HardlinkStats {
            groups_processed: before.groups_processed.wrapping_add(1),
            ..before
        };
        match first_existing(exists_at, 0) {
            Some(k) => {
                &&& 0 <= k < exists_at.len()
                &&& plan == (GroupPlan::Link {
                    target: k as usize,
                    first_link: if k == 0 {
                        1
                    } else {
                        0
                    },
                })
                &&& after == seen
            },
            None => {
                &&& plan == GroupPlan::Nothing
                &&& after == (HardlinkStats {
                    hardlinks_failed: seen.hardlinks_failed.wrapping_add(exists_at.len() as u64),
                    ..seen
                })
            },
        }
    }
}

/// A group of at least two files is linked exactly where one of them exists. The target
/// exists, no file in front of it does, and every file but the target is gone through.
/// Where none exists, each file of the group has failed.
pub proof fn law_groups_are_linked_to_a_file_that_exists(
    exists_at: Seq<bool>,
    before: HardlinkStats,
    plan: GroupPlan,
    after: HardlinkStats,
)
    requires
        plans_group(exists_at, before, plan, after),
        exists_at.len() <= usize::MAX,
        before.groups_processed < u64::MAX,
        before.files_skipped < u64::MAX,
        before.hardlinks_failed + exists_at.len() <= u64::MAX,
    ensures
        plan is Link <==> exists_at.len() >= 2 && exists_at.contains(true),
        plan matches GroupPlan::Link { target, first_link } ==> {
            &&& target < exists_at.len()
            &&& exists_at[target as int]
            &&& forall|i: int| 0 <= i < target ==> !#[trigger] exists_at[i]
            &&& target == 0 ==> first_link == 1
            &&& target > 0 ==> first_link == 0
        },
        exists_at.len() >= 2 <==> after.groups_processed == before.groups_processed + 1,
        exists_at.len() < 2 <==> after.files_skipped == before.files_skipped + 1,
        after.hardlinks_failed == before.hardlinks_failed + (if exists_at.len() >= 2
            && !exists_at.contains(true) {
            exists_at.len()
        } else {
            0
        }),
        after.hardlinks_created == before.hardlinks_created,
{
    law_link_target_exists(exists_at, 0);
    match first_existing(exists_at, 0) {
        Some(k) => {
            assert(exists_at.contains(exists_at[k]));
        },
        None => {},
    }
}

/// Decides what the files of a group are linked to, given which of them exist on the
/// target. It is the first file where that exists, and all others become links to it;
/// otherwise it is the first that does exist, and all files are gone through. Where none
/// exists, all have failed. A group of less than two files needs no link.
pub fn process_hardlink_group(group: &HardlinkGroup, exists_at: &Vec<bool>, stats: &mut HardlinkStats)
    -> (r: GroupPlan)
    requires
        exists_at@.len() == group.files@.len(),
    ensures
        plans_group(exists_at@, *old(stats), r, *final(stats)),
{
    proof {
        law_link_target_exists(exists_at@, 0);
    }
    if group.files.len() < 2 {
        stats.files_skipped = stats.files_skipped.wrapping_add(1);
        return GroupPlan::Nothing;
    }
    stats.groups_processed = stats.groups_processed.wrapping_add(1);
    let mut k: usize = 0;
    while k < exists_at.len() && !exists_at[k]
        invariant
            k <= exists_at@.len(),
            first_existing(exists_at@, k as int) == first_existing(exists_at@, 0),
        decreases exists_at@.len() - k,
    {
        k += 1;
    }
    if k < exists_at.len() {
        GroupPlan::Link {
            target: k,
            first_link: if k == 0 {
                1
            } else {
                0
            },
        }
    } else {
        stats.hardlinks_failed = stats.hardlinks_failed.wrapping_add(group.files.len() as u64);
        GroupPlan::Nothing
    }
}

// ---------------------------------------------------------------------------
// One link
// ---------------------------------------------------------------------------

/// How a link is counted.
#[derive(Debug, Clone, Copy, PartialEq, Eq, Structural)]
pub enum LinkCount {
    Skipped,
    Created,
    Failed,
}

/// The counters once a link was dealt with: exactly one of them moves.
pub open spec fn counted(stats: HardlinkStats, link: LinkCount) -> HardlinkStats {
    match link {
        LinkCount::Skipped => HardlinkStats {
            files_skipped: stats.files_skipped.wrapping_add(1),
            ..stats
        },
        LinkCount::Created => HardlinkStats {
            hardlinks_created: stats.hardlinks_created.wrapping_add(1),
            ..stats
        },
        LinkCount::Failed => HardlinkStats {
            hardlinks_failed: stats.hardlinks_failed.wrapping_add(1),
            ..stats
        },
    }
}

/// What was found where a link is to be made.
#[derive(Debug, Clone, Copy, PartialEq, Eq, Structural)]
pub enum LinkProbe {
    Missing,
    /// The same inode of the same device as the target.
    SameInode,
    Other,
}

/// What is done for one link.
#[derive(Debug)]
pub enum LinkStep {
    Skip,
    /// Remove what is there, where `remove_existing` says so; then create the parent
    /// directory, where there is one; then the link.
    Make { remove_existing: bool, parent: Option<String> },
}

/// What is decided for one link, and the counters before and after.
pub open spec fn begins_link(
    target_path: Seq<char>,
    link_path: Seq<char>,
    found: LinkProbe,
    before: HardlinkStats,
    step: LinkStep,
    after: HardlinkStats,
) -> bool {
    &&& paths::components(link_path) == paths::components(target_path) || found
        == LinkProbe::SameInode ==> {
        &&& step is Skip
        &&& after == counted(before, LinkCount::Skipped)
    }
    &&& paths::components(link_path) != paths::components(target_path) && found
        != LinkProbe::SameInode ==> {
        &&& after == before
        &&& step matches LinkStep::Make { remove_existing, parent } && remove_existing == (found
            == LinkProbe::Other) && match parent {
            Some(p) => paths::parent(link_path) == Some(p@),
            None => paths::parent(link_path) is None,
        }
    }
}

/// A link is passed over exactly where it stands in for the target already: it is the target
/// itself, or has its inode. What is in the way of another one is removed, and nothing is
/// removed where nothing was found.
pub proof fn law_links_are_made_unless_there(
    target_path: Seq<char>,
    link_path: Seq<char>,
    found: LinkProbe,
    before: HardlinkStats,
    step: LinkStep,
    after: HardlinkStats,
)
    requires
        begins_link(target_path, link_path, found, before, step, after),
        before.files_skipped < u64::MAX,
    ensures
        found == LinkProbe::SameInode ==> step is Skip,
        link_path == target_path ==> step is Skip,
        step is Skip <==> after.files_skipped == before.files_skipped + 1,
        step !is Skip ==> after == before,
        step matches LinkStep::Make { remove_existing, .. } ==> (remove_existing <==> found
            == LinkProbe::Other),
        found != LinkProbe::SameInode && paths::components(link_path) != paths::components(
            target_path,
        ) ==> step is Make,
        after.hardlinks_created == before.hardlinks_created,
        after.hardlinks_failed == before.hardlinks_failed,
{
}

/// Decides what is done for one link. The target itself and a file that is a link to it
/// already are passed over.
pub fn begin_link(target_path: &str, link_path: &str, found: LinkProbe, stats: &mut HardlinkStats)
    -> (r: LinkStep)
    ensures
        begins_link(target_path@, link_path@, found, *old(stats), r, *final(stats)),
{
    if paths::same_path(link_path, target_path) || found == LinkProbe::SameInode {
        stats.files_skipped = stats.files_skipped.wrapping_add(1);
        LinkStep::Skip
    } else {
        LinkStep::Make {
            remove_existing: found == LinkProbe::Other,
            parent: paths::parent_of(link_path),
        }
    }
}

/// How the making of a link ended, with what failed where it did.
#[derive(Debug)]
pub enum LinkEnd {
    Made,
    RemoveFailed(IoFailure),
    ParentFailed { parent: String, failure: IoFailure },
    LinkFailed(IoFailure),
}

/// Whether a record tells of a link that could not be made.
pub open spec fn tells_end(x: FailureRecord, link_path: Seq<char>, end: LinkEnd) -> bool {
    match end {
        LinkEnd::Made => false,
        LinkEnd::RemoveFailed(f) => crate::failure::tells(
            x,
            "remove_existing"@,
            FailureItemType::File,
            link_path,
            f,
        ),
        LinkEnd::ParentFailed { parent, failure } => crate::failure::tells(
            x,
            "create_dir"@,
            FailureItemType::Directory,
            parent@,
            failure,
        ),
        LinkEnd::LinkFailed(f) => crate::failure::tells(
            x,
            "create_hardlink"@,
            FailureItemType::File,
            link_path,
            f,
        ),
    }
}

/// Counts a link after it was made, and records a failure.
pub fn link_was_made(link_path: &str, end: LinkEnd, stats: &mut HardlinkStats) -> (r: Option<
    FailureRecord,
>)
    ensures
        counts_link(link_path@, end, *old(stats), *final(stats), r),
{
    let record = match end {
        LinkEnd::Made => {
            stats.hardlinks_created = stats.hardlinks_created.wrapping_add(1);
            return None;
        },
        LinkEnd::RemoveFailed(f) => {
            record_failure("remove_existing", FailureItemType::File, link_path, &f)
        },
        LinkEnd::ParentFailed { parent, failure } => {
            record_failure("create_dir", FailureItemType::Directory, parent.as_str(), &failure)
        },
        LinkEnd::LinkFailed(f) => {
            record_failure("create_hardlink", FailureItemType::File, link_path, &f)
        },
    };
    stats.hardlinks_failed = stats.hardlinks_failed.wrapping_add(1);
    Some(record)
}

/// How a link is counted: the target itself and a link to it are passed over, and any
/// other counts by how its making ended.
pub open spec fn link_count(
    target_path: Seq<char>,
    link_path: Seq<char>,
    found: LinkProbe,
    end: LinkEnd,
) -> LinkCount {
    if paths::components(link_path) == paths::components(target_path) || found
        == LinkProbe::SameInode {
        LinkCount::Skipped
    } else if end is Made {
        LinkCount::Created
    } else {
        LinkCount::Failed
    }
}

/// How the files of a group are counted, from `first_link` on.
pub open spec fn group_counts(
    group: HardlinkGroup,
    target: int,
    first_link: int,
    found: Seq<LinkProbe>,
    ends: Seq<LinkEnd>,
) -> Seq<LinkCount> {
    Seq::new(
        (group.files@.len() - first_link) as nat,
        |i: int|
            link_count(
                group.files@[target].dst_path@,
                group.files@[first_link + i].dst_path@,
                found[first_link + i],
                ends[first_link + i],
            ),
    )
}

/// The links that failed, by their number.
pub open spec fn failed_links(links: Seq<LinkCount>) -> Seq<int>
    decreases links.len(),
{
    if links.len() == 0 {
        Seq::empty()
    } else if links.last() == LinkCount::Failed {
        failed_links(links.drop_last()).push(links.len() - 1)
    } else {
        failed_links(links.drop_last())
    }
}

/// Whether the records tell of the given links of a group, one for one.
pub open spec fn tell_of(
    records: Seq<FailureRecord>,
    failed: Seq<int>,
    group: HardlinkGroup,
    first_link: int,
    ends: Seq<LinkEnd>,
) -> bool {
    &&& records.len() == failed.len()
    &&& forall|n: int|
        0 <= n < records.len() ==> tells_end(
            #[trigger] records[n],
            group.files@[first_link + failed[n]].dst_path@,
            ends[first_link + failed[n]],
        )
}

/// Goes through the links of a group, given what was found in the place of each file and
/// how the making of its link ended. The records of the failures come out, in order.
pub fn create_hardlinks_for_group(
    group: &HardlinkGroup,
    target: usize,
    first_link: usize,
    found: &Vec<LinkProbe>,
    ends: Vec<LinkEnd>,
    stats: &mut HardlinkStats,
) -> (records: Vec<FailureRecord>)
    requires
        target < group.files@.len(),
        first_link <= group.files@.len(),
        found@.len() == group.files@.len(),
        ends@.len() == group.files@.len(),
    ensures
        *final(stats) == all_counted(
            *old(stats),
            group_counts(*group, target as int, first_link as int, found@, ends@),
        ),
        tell_of(
            records@,
            failed_links(group_counts(*group, target as int, first_link as int, found@, ends@)),
            *group,
            first_link as int,
            ends@,
        ),
{
    let ghost all = ends@;
    let ghost counts = group_counts(*group, target as int, first_link as int, found@, all);
    let ghost before = *stats;
    let target_path = group.files[target].dst_path.as_str();
    let mut records: Vec<FailureRecord> = Vec::new();
    let mut i: usize = 0;
    assert(all.len() == ends.len());
    assert(counts.take(0) =~= Seq::empty());
    for end in it: ends
        invariant
            it.seq() == all,
            it.index() == i,
            i <= all.len() <= usize::MAX,
            all.len() == group.files@.len(),
            found@.len() == all.len(),
            target < all.len(),
            first_link <= all.len(),
            target_path@ == group.files@[target as int].dst_path@,
            counts == group_counts(*group, target as int, first_link as int, found@, all),
            *stats == all_counted(
                before,
                counts.take(
                    if i < first_link {
                        0
                    } else {
                        i - first_link
                    },
                ),
            ),
            tell_of(
                records@,
                failed_links(
                    counts.take(
                        if i < first_link {
                            0
                        } else {
                            i - first_link
                        },
                    ),
                ),
                *group,
                first_link as int,
                all,
            ),
    {
        let ghost ended = end;
        assert(ended == all[i as int]);
        if i >= first_link {
            let ghost k = i - first_link;
            assert(counts.take(k + 1).drop_last() =~= counts.take(k));
            assert(counts.take(k + 1).last() == counts[k]);
            let link_path = group.files[i].dst_path.as_str();
            match begin_link(target_path, link_path, found[i], stats) {
                LinkStep::Skip => {},
                LinkStep::Make { .. } => {
                    if let Some(record) = link_was_made(link_path, end, stats) {
                        records.push(record);
                    }
                },
            }
        }
        i = i + 1;
    }
    assert(counts.take(counts.len() as int) =~= counts);
    records
}

/// The file that a group is linked to exists, and none in front of it does.
pub proof fn law_link_target_exists(exists_at: Seq<bool>, from: int)
    requires
        0 <= from <= exists_at.len(),
    ensures
        match first_existing(exists_at, from) {
            Some(k) => from <= k < exists_at.len() && exists_at[k] && forall|i: int|
                from <= i < k ==> !#[trigger] exists_at[i],
            None => forall|i: int| from <= i < exists_at.len() ==> !#[trigger] exists_at[i],
        },
    decreases exists_at.len() - from,
{
    if from < exists_at.len() && !exists_at[from] {
        law_link_target_exists(exists_at, from + 1);
    }
}

/// The counters once several links were dealt with, one after the other.
pub open spec fn all_counted(stats: HardlinkStats, links: Seq<LinkCount>) -> HardlinkStats
    decreases links.len(),
{
    if links.len() == 0 {
        stats
    } else {
        counted(all_counted(stats, links.drop_last()), links.last())
    }
}

/// How many files were dealt with.
pub open spec fn dealt_with(stats: HardlinkStats) -> int {
    stats.files_skipped + stats.hardlinks_created + stats.hardlinks_failed
}

/// Every file of a group that is gone through is counted exactly once: as a link made, as
/// failed or as passed over.
pub proof fn law_every_link_is_counted(stats: HardlinkStats, links: Seq<LinkCount>)
    requires
        dealt_with(stats) + links.len() <= u64::MAX,
    ensures
        dealt_with(all_counted(stats, links)) == dealt_with(stats) + links.len(),
        all_counted(stats, links).groups_processed == stats.groups_processed,
    decreases links.len(),
{
    if links.len() > 0 {
        law_every_link_is_counted(stats, links.drop_last());
    }
}

/// A file is linked where its copy lies: the target joined with the recorded path, from the
/// source base on or, where the header names a root, as a whole without its leading slash.
pub proof fn law_links_are_made_on_the_copy(
    groups: Seq<HardlinkGroup>,
    source_root: Seq<char>,
    lines: Seq<HardlinkEntry>,
    source_base: Seq<char>,
    target_base: Seq<char>,
    g: int,
    i: int,
    rel: Seq<char>,
)
    requires
        reads_groups(groups, source_root, lines, source_base, target_base),
        source_base.len() > 0,
        paths::is_clean(rel),
        0 <= g < groups.len(),
        0 <= i < groups[g].files@.len(),
    ensures
        ({
            let f = groups[g].files@[i];
            &&& f.src_path@ == paths::join(source_base, rel) ==> f.dst_path@ == paths::join(
                target_base,
                rel,
            )
            &&& f.src_path@ == seq!['/'] + rel && source_root.len() > 0 && !paths::starts_with(
                f.src_path@,
                source_base,
            ) ==> f.dst_path@ == paths::join(target_base, rel)
            &&& f.src_path@ == seq!['/'] + rel && source_root.len() == 0 && !paths::starts_with(
                f.src_path@,
                source_base,
            ) && paths::file_name(source_base) != Some(paths::pieces(rel)[0]) ==> (
            paths::file_name(f.src_path@) matches Some(n) ==> f.dst_path@ == paths::join(
                target_base,
                n,
            ))
        }),
{
    let views = all_groups(lines);
    assert(stands_for(groups[g], views[g], source_base, target_base, source_root.len() > 0));
    assert(places(
        groups[g].files@[i],
        views[g].files[i],
        source_base,
        target_base,
        source_root.len() > 0,
    ));
    path_util::law_path_below_base_is_kept(source_base, rel);
    if !paths::starts_with(seq!['/'] + rel, source_base) {
        path_util::law_paths_outside_the_base(source_base, rel);
    }
}

/// A line of an inode begins a group, and the files behind it up to the next one are its
/// files, in order and without those that have no metadata. Files in front of all groups
/// belong to none.
pub proof fn law_files_belong_to_the_inode_before_them(
    front: Seq<HardlinkEntry>,
    head: HardlinkInodeEntry,
    files: Seq<HardlinkFileEntry>,
)
    ensures
        ({
            let own = files.filter(|f: HardlinkFileEntry| f.meta_found);
            let lines = front + seq![HardlinkEntry::Inode(head)] + files.map_values(
                |f: HardlinkFileEntry| HardlinkEntry::File(f),
            );
            all_groups(lines) == (if own.len() > 0 {
                all_groups(front).push(GroupView { head, files: own })
            } else {
                all_groups(front)
            })
        }),
        all_groups(files.map_values(|f: HardlinkFileEntry| HardlinkEntry::File(f))).len() == 0,
{
    lemma_open_group(front, head, files);
    lemma_no_group(files);
}

proof fn lemma_open_group(
    front: Seq<HardlinkEntry>,
    head: HardlinkInodeEntry,
    files: Seq<HardlinkFileEntry>,
)
    ensures
        groups_of(
            front + seq![HardlinkEntry::Inode(head)] + files.map_values(
                |f: HardlinkFileEntry| HardlinkEntry::File(f),
            ),
        ) == (
            all_groups(front),
            Some(GroupView { head, files: files.filter(|f: HardlinkFileEntry| f.meta_found) }),
        ),
    decreases files.len(),
{
    reveal(Seq::filter);
    let as_line = |f: HardlinkFileEntry| HardlinkEntry::File(f);
    let begun = front + seq![HardlinkEntry::Inode(head)];
    let lines = begun + files.map_values(as_line);
    if files.len() == 0 {
        assert(lines =~= begun);
        assert(begun.drop_last() =~= front);
        assert(begun.last() == HardlinkEntry::Inode(head));
        assert(files.filter(|f: HardlinkFileEntry| f.meta_found) =~= Seq::empty());
    } else {
        lemma_open_group(front, head, files.drop_last());
        let own = |f: HardlinkFileEntry| f.meta_found;
        assert(lines.drop_last() =~= begun + files.drop_last().map_values(as_line));
        assert(lines.last() == HardlinkEntry::File(files.last()));
        assert(files.filter(own) =~= (if files.last().meta_found {
            files.drop_last().filter(own).push(files.last())
        } else {
            files.drop_last().filter(own)
        }));
    }
}

proof fn lemma_no_group(files: Seq<HardlinkFileEntry>)
    ensures
        groups_of(files.map_values(|f: HardlinkFileEntry| HardlinkEntry::File(f))) == (
            Seq::<GroupView>::empty(),
            None::<GroupView>,
        ),
    decreases files.len(),
{
    let as_line = |f: HardlinkFileEntry| HardlinkEntry::File(f);
    let lines = files.map_values(as_line);
    if files.len() > 0 {
        lemma_no_group(files.drop_last());
        assert(lines.drop_last() =~= files.drop_last().map_values(as_line));
        assert(lines.last() == HardlinkEntry::File(files.last()));
    }
}

/// A group that was read tells of the inode that its first line names.
pub proof fn law_groups_keep_their_inode(
    group: HardlinkGroup,
    view: GroupView,
    source_base: Seq<char>,
    target_base: Seq<char>,
    logical_paths: bool,
    i: int,
)
    requires
        stands_for(group, view, source_base, target_base, logical_paths),
        0 <= i < group.files@.len(),
    ensures
        (group.inode, group.device, group.link_count) == (
            view.head.inode,
            view.head.device,
            view.head.link_count,
        ),
        group.files@.len() == view.files.len(),
        group.files@[i].src_path@ == view.files[i].path@,
        (group.files@[i].meta_fid, group.files@[i].meta_offset) == (
            view.files[i].meta_fid,
            view.files[i].meta_offset,
        ),
{
    assert(places(
        group.files@[i],
        view.files[i],
        source_base,
        target_base,
        logical_paths,
    ));
}

/// A link counts as made exactly where it was made, and as passed over exactly where none
/// was needed.
pub proof fn law_links_count_as_they_went(
    target_path: Seq<char>,
    link_path: Seq<char>,
    found: LinkProbe,
    end: LinkEnd,
)
    ensures
        link_count(target_path, link_path, found, end) == LinkCount::Skipped <==> found
            == LinkProbe::SameInode || paths::components(link_path) == paths::components(
            target_path,
        ),
        link_count(target_path, link_path, found, end) == LinkCount::Created ==> end is Made,
        link_count(target_path, link_path, found, end) == LinkCount::Failed ==> end !is Made,
{
}

/// Each counter tells how often its end came.
pub proof fn law_link_counters_tell_the_ends(stats: HardlinkStats, links: Seq<LinkCount>)
    requires
        dealt_with(stats) + links.len() <= u64::MAX,
    ensures
        ({
            let end = all_counted(stats, links);
            &&& end.files_skipped == stats.files_skipped + links.filter(
                |l: LinkCount| l == LinkCount::Skipped,
            ).len()
            &&& end.hardlinks_created == stats.hardlinks_created + links.filter(
                |l: LinkCount| l == LinkCount::Created,
            ).len()
            &&& end.hardlinks_failed == stats.hardlinks_failed + links.filter(
                |l: LinkCount| l == LinkCount::Failed,
            ).len()
        }),
    decreases links.len(),
{
    reveal(Seq::filter);
    law_every_link_is_counted(stats, links);
    if links.len() > 0 {
        law_link_counters_tell_the_ends(stats, links.drop_last());
        law_every_link_is_counted(stats, links.drop_last());
    }
}

/// All files of a group from the first link on are gone through, each in its own place.
pub proof fn law_every_file_of_a_group_is_gone_through(
    group: HardlinkGroup,
    target: int,
    first_link: int,
    found: Seq<LinkProbe>,
    ends: Seq<LinkEnd>,
    i: int,
)
    requires
        0 <= first_link <= i < group.files@.len(),
    ensures
        group_counts(group, target, first_link, found, ends).len() == group.files@.len()
            - first_link,
        group_counts(group, target, first_link, found, ends)[i - first_link] == link_count(
            group.files@[target].dst_path@,
            group.files@[i].dst_path@,
            found[i],
            ends[i],
        ),
{
}

/// Whether a link is counted after it was made, and a failure is recorded.
pub open spec fn counts_link(
    link_path: Seq<char>,
    end: LinkEnd,
    before: HardlinkStats,
    after: HardlinkStats,
    r: Option<FailureRecord>,
) -> bool {
    &&& after == counted(
        before,
        (if end is Made {
            LinkCount::Created
        } else {
            LinkCount::Failed
        }),
    )
    &&& match r {
        None => end is Made,
        Some(x) => !(end is Made) && tells_end(x, link_path, end),
    }
}

/// A link that was made counts as created and leaves no record; any other end counts as failed
/// and leaves one.
pub proof fn law_made_links_are_counted(
    link_path: Seq<char>,
    end: LinkEnd,
    before: HardlinkStats,
    after: HardlinkStats,
    r: Option<FailureRecord>,
)
    requires
        counts_link(link_path, end, before, after, r),
        before.hardlinks_created < u64::MAX,
        before.hardlinks_failed < u64::MAX,
    ensures
        r is None <==> end is Made,
        after.hardlinks_created - before.hardlinks_created == (if end is Made {
            1int
        } else {
            0int
        }),
        after.hardlinks_failed - before.hardlinks_failed == (if end is Made {
            0int
        } else {
            1int
        }),
{
}

/// The links that failed are all there, each once and in order, and each leaves a record about
/// the path that it was to have, or about the directory of that path.
pub proof fn law_failed_links_are_recorded(
    links: Seq<LinkCount>,
    records: Seq<FailureRecord>,
    group: HardlinkGroup,
    first_link: int,
    ends: Seq<LinkEnd>,
)
    requires
        tell_of(records, failed_links(links), group, first_link, ends),
    ensures
        records.len() == links.filter(|l: LinkCount| l == LinkCount::Failed).len(),
        forall|n: int|
            0 <= n < records.len() ==> {
                let at = failed_links(links)[n];
                &&& 0 <= at < links.len() && links[at] == LinkCount::Failed
                &&& !(ends[first_link + at] is Made)
                &&& ends[first_link + at] is LinkFailed ==> (#[trigger] records[n]).path@
                    == group.files@[first_link + at].dst_path@
                &&& ends[first_link + at] is RemoveFailed ==> records[n].path@
                    == group.files@[first_link + at].dst_path@
                &&& ends[first_link + at] matches LinkEnd::ParentFailed { parent, .. }
                    ==> records[n].path@ == parent@
            },
{
    lemma_failed_links(links);
}

proof fn lemma_failed_links(links: Seq<LinkCount>)
    ensures
        failed_links(links).len() == links.filter(|l: LinkCount| l == LinkCount::Failed).len(),
        forall|n: int|
            0 <= n < failed_links(links).len() ==> 0 <= #[trigger] failed_links(links)[n]
                < links.len() && links[failed_links(links)[n]] == LinkCount::Failed,
    decreases links.len(),
{
    reveal(Seq::filter);
    if links.len() > 0 {
        let front = links.drop_last();
        lemma_failed_links(front);
        assert forall|n: int| 0 <= n < failed_links(links).len() implies 0 <= #[trigger] failed_links(
            links,
        )[n] < links.len() && links[failed_links(links)[n]] == LinkCount::Failed by {
            if n < failed_links(front).len() {
                assert(failed_links(front)[n] == failed_links(links)[n]);
            }
        }
    }
}

/// Every recorded group is read, in order and with all its files, and each file is placed on the
/// copy.
pub proof fn law_all_groups_are_read(
    groups: Seq<HardlinkGroup>,
    views: Seq<GroupView>,
    source_base: Seq<char>,
    target_base: Seq<char>,
    logical: bool,
    i: int,
    k: int,
)
    requires
        all_stand_for(groups, views, source_base, target_base, logical),
    ensures
        groups.len() == views.len(),
        0 <= i < groups.len() ==> groups[i].inode == views[i].head.inode && groups[i].device
            == views[i].head.device && groups[i].files@.len() == views[i].files.len(),
        0 <= i < groups.len() && 0 <= k < groups[i].files@.len() ==> groups[i].files@[k].dst_path@
            == crate::path_util::placed_below(
            source_base,
            target_base,
            views[i].files[k].path@,
            logical,
        ) && groups[i].files@[k].meta_fid == views[i].files[k].meta_fid
            && groups[i].files@[k].meta_offset == views[i].files[k].meta_offset,
{
    if 0 <= i < groups.len() && 0 <= k < groups[i].files@.len() {
        assert(stands_for(groups[i], views[i], source_base, target_base, logical));
        assert(places(
            groups[i].files@[k],
            views[i].files[k],
            source_base,
            target_base,
            logical,
        ));
    }
}

} // verus!
