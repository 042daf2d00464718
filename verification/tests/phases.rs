use bifrost::delete::{
    delete_dirs, delete_files, dir_is_deleted, dir_was_removed, empty_dir_was_removed, file_is_deleted, file_was_removed,
    process_deletes, run_delete_phase, DeleteControl, DeleteEntry, DeleteEntryType,
    DeleteStats, DirRemoval, FileRemoval, Probe,
};
use bifrost::failure::IoFailure;
use bifrost::hardlink::{
    begin_link, create_hardlinks_for_group, link_was_made, process_hardlink_group, read_hardlink_groups, GroupPlan,
    HardlinkEntry, HardlinkFileEntry, HardlinkInodeEntry, HardlinkStats, LinkEnd, LinkProbe,
    LinkStep,
};
use bifrost::mtime::{
    dir_is_restored, process_mtime, restore_times, times_were_set, MtimeControl, MtimeEntry,
    MtimeStats, SetTimes, TimesSet,
};
use bifrost::path_util::make_relative_and_join;
use bifrost::sharded_processor::{
    process_sharded_backup, worker_ranges, ShardResult, ShardedBackupBuilder,
    ShardedControlInfo, ShardedControlProcessor, ShardedProcessorConfig,
};

#[test]
fn delete_test_make_relative_and_join() {
    let base = "/home/user/source";
    let target = "/backup/target";
    let result = make_relative_and_join(base, target, "/home/user/source/docs", false);
    assert_eq!(result, "/backup/target/docs");
    let result = make_relative_and_join(base, target, "/other/path", false);
    assert_eq!(result, "/backup/target/path");
}

#[test]
fn mtime_test_make_relative_and_join() {
    let base = "/home/user/source";
    let target = "/backup/target";
    let result = make_relative_and_join(base, target, "/home/user/source/docs", false);
    assert_eq!(result, "/backup/target/docs");
    let result = make_relative_and_join(base, target, "/other/path", false);
    assert_eq!(result, "/backup/target/path");
}

#[test]
fn test_extract_shard_id() {
    let config = ShardedProcessorConfig::default(None);
    let processor = ShardedControlProcessor::new(config);
    assert_eq!(processor.extract_shard_id("/tmp/copy_0000000A_0001.txt").unwrap(), 10);
    assert_eq!(processor.extract_shard_id("/tmp/copy_000000FF_0000.txt").unwrap(), 255);
}

#[test]
fn test_aggregate_results() {
    let config = ShardedProcessorConfig::default(None);
    let processor = ShardedControlProcessor::new(config);
    let shard_results = vec![
        ShardResult {
            shard_id: 0,
            files_processed: 100,
            dirs_processed: 10,
            bytes_transferred: 1000000,
            errors: 0,
        },
        ShardResult {
            shard_id: 1,
            files_processed: 200,
            dirs_processed: 20,
            bytes_transferred: 2000000,
            errors: 1,
        },
    ];
    let aggregated = processor.aggregate_results(shard_results);
    assert_eq!(aggregated.total_files, 300);
    assert_eq!(aggregated.total_dirs, 30);
    assert_eq!(aggregated.total_bytes, 3000000);
    assert_eq!(aggregated.total_errors, 1);
}

fn failure() -> IoFailure {
    IoFailure { raw_os_error: Some(13), message: "denied".to_string(), attempts: 4 }
}

fn deletion(path: &str, entry_type: DeleteEntryType) -> Option<DeleteEntry> {
    Some(DeleteEntry { path: path.to_string(), entry_type })
}

#[test]
fn directories_are_deleted_from_the_inside_out() {
    assert_eq!(run_delete_phase("/ctrl"), "/ctrl/delete.txt");
    let control = DeleteControl {
        header: "DELETE V1".to_string(),
        entries: vec![
            deletion("/src/a", DeleteEntryType::Dir),
            deletion("/src/a/b/c", DeleteEntryType::Dir),
            None,
            deletion("/src/f2", DeleteEntryType::File),
            deletion("/src/a/b", DeleteEntryType::Dir),
            deletion("/src/f1", DeleteEntryType::File),
        ],
    };
    let (plan, stats) = process_deletes(Some(control), "/src", "/tgt");
    assert_eq!(plan.files, ["/tgt/f2", "/tgt/f1"]);
    assert_eq!(plan.dirs, ["/tgt/a/b/c", "/tgt/a/b", "/tgt/a"]);
    assert_eq!((stats.entries_processed, stats.entries_failed), (5, 1));

    let control = DeleteControl {
        header: "DELETE V1 SOURCE_ROOT=/ds/x".to_string(),
        entries: vec![deletion("/ds/x/f", DeleteEntryType::File)],
    };
    let (plan, _) = process_deletes(Some(control), "/real", "/tgt");
    assert_eq!(plan.files, ["/tgt/ds/x/f"]);

    let (plan, stats) = process_deletes(None, "/src", "/tgt");
    assert!(plan.files.is_empty() && plan.dirs.is_empty());
    assert_eq!(stats.entries_processed, 0);
}

#[test]
fn deletions_are_counted() {
    let (_, mut stats) = process_deletes(None, "/src", "/tgt");
    assert!(file_is_deleted(Probe::File, &mut stats));
    assert!(!file_is_deleted(Probe::Missing, &mut stats));
    assert!(!file_is_deleted(Probe::Directory, &mut stats));
    assert!(dir_is_deleted(Probe::Directory, &mut stats));
    assert!(!dir_is_deleted(Probe::Other, &mut stats));
    assert!(file_was_removed("/f", Ok(()), &mut stats).is_none());
    let r = file_was_removed("/f", Err(failure()), &mut stats).unwrap();
    assert_eq!((r.operation.as_str(), r.code.as_str(), r.attempts), ("delete_file", "EACCES", 4));
    assert!(!empty_dir_was_removed(true, &mut stats));
    assert!(empty_dir_was_removed(false, &mut stats));
    assert!(dir_was_removed("/d", Ok(()), &mut stats).is_none());
    assert!(dir_was_removed("/d", Err(failure()), &mut stats).is_some());
    let s = stats.snapshot();
    assert_eq!((s.files_deleted, s.dirs_deleted), (1, 2));
    assert_eq!((s.entries_failed, s.entries_skipped), (2, 3));
}

#[test]
fn directory_times_are_set_on_the_target() {
    let control = MtimeControl {
        source_root: String::new(),
        entries: vec![
            Some(MtimeEntry { path: "/src/a".to_string(), atime: 1, mtime: 2 }),
            None,
        ],
    };
    let (sets, mut stats) = process_mtime(Some(control), "/src", "/tgt");
    assert_eq!(sets.len(), 1);
    assert_eq!((sets[0].path.as_str(), sets[0].atime, sets[0].mtime), ("/tgt/a", 1, 2));
    assert_eq!((stats.dirs_processed, stats.dirs_failed), (1, 1));
    assert!(dir_is_restored(true, &mut stats));
    assert!(!dir_is_restored(false, &mut stats));
    assert!(times_were_set("/tgt/a", Ok(()), &mut stats).is_none());
    let r = times_were_set("/tgt/a", Err(failure()), &mut stats).unwrap();
    assert_eq!(r.operation, "set_mtime");
    let s = stats.snapshot();
    assert_eq!((s.dirs_restored, s.dirs_failed, s.dirs_skipped), (1, 2, 1));
    let (sets, stats) = process_mtime(None, "/src", "/tgt");
    assert!(sets.is_empty());
    assert_eq!(stats.dirs_processed, MtimeStats::default().dirs_processed);
}

fn inode(n: u64) -> HardlinkEntry {
    HardlinkEntry::Inode(HardlinkInodeEntry { inode: n, device: 1, link_count: 2 })
}

fn name(path: &str, meta_found: bool) -> HardlinkEntry {
    HardlinkEntry::File(HardlinkFileEntry {
        meta_fid: 0,
        meta_offset: 0,
        path: path.to_string(),
        meta_found,
    })
}

#[test]
fn names_are_grouped_by_inode() {
    let lines = vec![
        name("/src/stray", true),
        inode(7),
        name("/src/a", true),
        name("/src/lost", false),
        name("/src/b", true),
        inode(8),
        inode(9),
        name("/src/c", true),
    ];
    let groups = read_hardlink_groups("", lines, "/src", "/tgt");
    let got: Vec<(u64, Vec<&str>)> = groups
        .iter()
        .map(|g| (g.inode, g.files.iter().map(|f| f.dst_path.as_str()).collect()))
        .collect();
    assert_eq!(got, [(7, vec!["/tgt/a", "/tgt/b"]), (9, vec!["/tgt/c"])]);

    let mut stats = HardlinkStats::default();
    assert_eq!(
        process_hardlink_group(&groups[0], &vec![true, true], &mut stats),
        GroupPlan::Link { target: 0, first_link: 1 }
    );
    assert_eq!(
        process_hardlink_group(&groups[0], &vec![false, true], &mut stats),
        GroupPlan::Link { target: 1, first_link: 0 }
    );
    assert_eq!(
        process_hardlink_group(&groups[0], &vec![false, false], &mut stats), GroupPlan::Nothing
    );
    assert_eq!(process_hardlink_group(&groups[1], &vec![true], &mut stats), GroupPlan::Nothing);
    let s = stats.snapshot();
    assert_eq!((s.groups_processed, s.hardlinks_failed, s.files_skipped), (3, 2, 1));
}

#[test]
fn links_are_made_once() {
    let mut stats = HardlinkStats::default();
    assert!(matches!(begin_link("/t/a", "/t//a", LinkProbe::Other, &mut stats), LinkStep::Skip));
    assert!(matches!(
        begin_link("/t/a", "/t/b", LinkProbe::SameInode, &mut stats), LinkStep::Skip
    ));
    match begin_link("/t/a", "/t/d/b", LinkProbe::Other, &mut stats) {
        LinkStep::Make { remove_existing, parent } => {
            assert!(remove_existing);
            assert_eq!(parent.as_deref(), Some("/t/d"));
        }
        LinkStep::Skip => panic!("a link was due"),
    }
    assert!(matches!(
        begin_link("/t/a", "/t/b", LinkProbe::Missing, &mut stats),
        LinkStep::Make { remove_existing: false, .. }
    ));
    assert!(link_was_made("/t/b", LinkEnd::Made, &mut stats).is_none());
    let r = link_was_made("/t/b", LinkEnd::RemoveFailed(failure()), &mut stats).unwrap();
    assert_eq!((r.operation.as_str(), r.path.as_str()), ("remove_existing", "/t/b"));
    let end = LinkEnd::ParentFailed { parent: "/t".to_string(), failure: failure() };
    let r = link_was_made("/t/b", end, &mut stats).unwrap();
    assert_eq!((r.operation.as_str(), r.path.as_str()), ("create_dir", "/t"));
    let r = link_was_made("/t/b", LinkEnd::LinkFailed(failure()), &mut stats).unwrap();
    assert_eq!(r.operation, "create_hardlink");
    assert_eq!((stats.hardlinks_created, stats.hardlinks_failed, stats.files_skipped), (1, 3, 2));
}

#[test]
fn shards_are_dealt_out_evenly() {
    for shards in 1..40usize {
        for workers in 1..=shards {
            let ranges = worker_ranges(shards, workers);
            assert!(ranges.len() <= workers);
            let mut all: Vec<usize> = Vec::new();
            for (from, to) in ranges {
                assert!(from < to);
                all.extend(from..to);
            }
            assert_eq!(all, (0..shards).collect::<Vec<usize>>());
        }
    }
    assert_eq!(worker_ranges(10, 4), [(0, 3), (3, 6), (6, 9), (9, 10)]);
}

#[test]
fn shard_names_without_a_number_are_errors() {
    let p = ShardedControlProcessor::new(ShardedProcessorConfig::default(None));
    assert_eq!(p.extract_shard_id("/").unwrap_err(), "Invalid shard path");
    assert_eq!(p.extract_shard_id("copy.txt").unwrap_err(), "Invalid shard file name format");
    assert_eq!(
        p.extract_shard_id("copy_xyz_1.txt").unwrap_err(),
        "Invalid shard ID: invalid digit found in string"
    );
    assert_eq!(
        p.extract_shard_id("copy__1.txt").unwrap_err(),
        "Invalid shard ID: cannot parse integer from empty string"
    );
    assert_eq!(
        p.extract_shard_id("copy_11112222333344445_1").unwrap_err(),
        "Invalid shard ID: number too large to fit in target type"
    );
}

fn shards(names: &[&str]) -> ShardedControlInfo {
    ShardedControlInfo { shard_files: names.iter().map(|n| n.to_string()).collect() }
}

#[test]
fn sharded_backups_go_through_all_phases() {
    let p = ShardedBackupBuilder::new("/t".to_string(), None)
        .source_dir("/s".to_string())
        .work_dir("/w".to_string())
        .concurrency(2)
        .disable_delete()
        .disable_hardlink()
        .disable_mtime()
        .build();
    assert_eq!((p.config.concurrency, p.config.target_dir.as_str()), (2, "/t"));
    assert_eq!(p.config.source_dir.as_deref(), Some("/s"));
    assert!(!p.config.enable_delete && !p.config.enable_hardlink && !p.config.enable_mtime);
    assert!(p.process_delete_phase(&shards(&["delete_1_0"])).shard_results.is_empty());

    assert_eq!(ShardedProcessorConfig::default(Some(16)).concurrency, 16);
    assert_eq!(ShardedProcessorConfig::default(None).concurrency, 4);
    let p = ShardedBackupBuilder::new("/t".to_string(), Some(7)).build();
    assert_eq!((p.config.concurrency, p.config.target_dir.as_str()), (7, "/t"));
    let p = ShardedBackupBuilder::new("/t".to_string(), None).concurrency(2).build();
    let copied = p.process_copy_phase(&shards(&["copy_1_0", "bad", "copy_2_0"]));
    let ids: Vec<usize> = copied.shard_results.iter().map(|r| r.shard_id).collect();
    assert_eq!((ids, copied.total_errors), (vec![1, 0, 2], 1));
    let deleted = p.process_delete_phase(&shards(&["delete_1_0", "bad"]));
    assert_eq!(deleted.shard_results.len(), 1);

    let none = shards(&[]);
    let all = process_sharded_backup(
        p.config, &shards(&["copy_1_0", "bad"]), &none, &shards(&["delete_3_0"]), &none,
    );
    assert_eq!((all.total_errors, all.total_files), (1, 0));
    assert!(all.shard_results.is_empty());
}

#[test]
fn every_deletion_is_counted_once() {
    let paths: Vec<String> = ["/t/a", "/t/b", "/t/c"].iter().map(|p| p.to_string()).collect();
    let mut stats = DeleteStats::default();
    let records = delete_files(
        &paths,
        vec![
            FileRemoval { found: Probe::File, removed: Ok(()) },
            FileRemoval { found: Probe::File, removed: Err(failure()) },
            FileRemoval { found: Probe::Missing, removed: Ok(()) },
        ],
        &mut stats,
    );
    assert_eq!(records.len(), 1);
    assert_eq!((records[0].path.as_str(), records[0].operation.as_str()), ("/t/b", "delete_file"));
    assert_eq!((records[0].code.as_str(), records[0].attempts), ("EACCES", 4));
    let records = delete_dirs(
        &paths,
        vec![
            DirRemoval { found: Probe::Directory, was_empty: true, removed: Err(failure()) },
            DirRemoval { found: Probe::Directory, was_empty: false, removed: Ok(()) },
            DirRemoval { found: Probe::Directory, was_empty: false, removed: Err(failure()) },
        ],
        &mut stats,
    );
    assert_eq!(records.len(), 1);
    assert_eq!((records[0].path.as_str(), records[0].operation.as_str()), ("/t/c", "delete_dir"));
    assert_eq!((stats.files_deleted, stats.dirs_deleted), (1, 2));
    assert_eq!((stats.entries_failed, stats.entries_skipped), (2, 1));
}

#[test]
fn every_link_of_a_group_is_counted_once() {
    let file = |path: &str| {
        HardlinkEntry::File(HardlinkFileEntry {
            meta_fid: 0,
            meta_offset: 0,
            path: path.to_string(),
            meta_found: true,
        })
    };
    let lines = vec![
        HardlinkEntry::Inode(HardlinkInodeEntry { inode: 1, device: 2, link_count: 4 }),
        file("/a"),
        file("/b"),
        file("/c"),
        file("/d"),
    ];
    let groups = read_hardlink_groups("/", lines, "/s", "/t");
    let mut stats = HardlinkStats::default();
    let records = create_hardlinks_for_group(
        &groups[0],
        1,
        0,
        &vec![LinkProbe::Missing, LinkProbe::Other, LinkProbe::SameInode, LinkProbe::Other],
        vec![
            LinkEnd::Made,
            LinkEnd::Made,
            LinkEnd::Made,
            LinkEnd::LinkFailed(failure()),
        ],
        &mut stats,
    );
    assert_eq!((stats.hardlinks_created, stats.files_skipped, stats.hardlinks_failed), (1, 2, 1));
    assert_eq!(records.len(), 1);
    assert_eq!(
        (records[0].path.as_str(), records[0].operation.as_str()),
        ("/t/d", "create_hardlink")
    );
}

#[test]
fn every_directory_time_is_counted_once() {
    let dir = |path: &str| SetTimes { path: path.to_string(), atime: 1, mtime: 2 };
    let mut stats = MtimeStats::default();
    let records = restore_times(
        &vec![dir("/t/a"), dir("/t/b"), dir("/t/c")],
        vec![
            TimesSet { exists: false, result: Err(failure()) },
            TimesSet { exists: true, result: Err(failure()) },
            TimesSet { exists: true, result: Ok(()) },
        ],
        &mut stats,
    );
    assert_eq!((stats.dirs_restored, stats.dirs_failed, stats.dirs_skipped), (1, 1, 1));
    assert_eq!(records.len(), 1);
    assert_eq!((records[0].path.as_str(), records[0].operation.as_str()), ("/t/b", "set_mtime"));
}
