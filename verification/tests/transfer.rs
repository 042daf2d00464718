use bifrost::copy_block::CopyBlock;
use bifrost::copy_plan::{plan_entry, produce_copy_plan, CopyPlanEntry, FileCopyPlan};
use bifrost::aggregate::{AggregateConfig, AggregateLayout};
use bifrost::backup::{RestorePolicy, RestoreStats};
use bifrost::entry::{
    produce_entries_for_each, EntryEvent, EntryMapping, EntryProducer, RelativeProducer,
};
use bifrost::executor::{
    after_read, after_write, begin_file, dir_was_created, record_note, BlockOutcome, FileEnd,
    FileStep,
};
use bifrost::fcb::{
    ControlBlockVarient, DirControlBlock, FileControlBlock, SourceHandleState, TargetHandleState,
};
use bifrost::metadata::{DirEntry, DirMeta, EntryDiff, FileEntry, FileMeta, MetaCommon};
use bifrost::path_util::{make_relative, target_relative_path};
use bifrost::pipelines::{
    blob_was_written, file_was_read, file_was_written, format_elapsed, nfs_smb_task_limit,
    pipeline_finished, plan_streaming, run_aio_copy_pipeline, run_aio_nfs_to_local_pipeline,
    run_aio_nfs_to_nfs_pipeline, run_copy_pipeline, run_local_to_smb_copy_pipeline,
    run_smb_to_local_copy_pipeline, run_smb_to_smb_copy_pipeline, smb_copy_task_limit,
    task_permits, whole_file_step, TargetPaths, TargetWrite, WholeFileEntry, WholeFileStep,
};
use bifrost::restore_pipeline::{
    begin_restore, first_block, restore_after_read, restore_after_write, restored_dir,
    restored_symlink, should_skip_restore, IndexLookup, LocalRepoRestoreSource, RestoreBlockStep,
    RestoreStep, TargetFile,
};
use bifrost::stats::BackupStats;
use bifrost::transport::{
    accept_read, accept_write, chunk_len_of, clamp_copy_buffer_size, LocalSource, LocalTarget,
    DEFAULT_COPY_BUFFER_SIZE, MAX_COPY_BUFFER_SIZE, MIN_COPY_BUFFER_SIZE,
};

fn file(src: &str, dst: &str, size: u64) -> FileControlBlock {
    let mut meta = FileMeta::default();
    meta.size = size;
    let mut fcb = FileControlBlock::from(meta);
    fcb.src_path = src.to_string();
    fcb.dst_path = dst.to_string();
    fcb
}

fn link(src: &str, dst: &str) -> FileControlBlock {
    let mut fcb = file(src, dst, 1);
    fcb.meta.common.symlink_target_path = Some("elsewhere".to_string());
    fcb
}

fn dir(dst: &str) -> DirControlBlock {
    let mut d = DirControlBlock::from(DirMeta {
        common: MetaCommon::default(),
        path: dst.to_string(),
    });
    d.dst_path = dst.to_string();
    d
}

fn direct(src: &str, dst: &str, size: u64) -> FileCopyPlan {
    FileCopyPlan::from_fcb(file(src, dst, size), false)
}

/// Copies `content` with the given chunk size, and says what arrived and how it ended.
fn copy_in_chunks(content: &[u8], chunk: usize, stats: &mut BackupStats) -> (Vec<u8>, FileEnd) {
    let mut written: Vec<u8> = Vec::new();
    let mut step = begin_file(direct("/s/f", "d/f", content.len() as u64), stats);
    loop {
        step = match step {
            FileStep::Read(block) => {
                let from = block.src_offset as usize;
                let n = chunk_len_of(block.src_offset, block.file_size, chunk);
                let data = content[from..from + n].to_vec();
                after_read(BlockOutcome::Ready(accept_read(block, data)), stats)
            }
            FileStep::Write(block) => {
                assert_eq!(block.dst_offset as usize, written.len());
                written.extend(&block.data);
                after_write(BlockOutcome::Ready(accept_write(block)), stats)
            }
            FileStep::Done(end) => return (written, end),
        };
    }
}

#[test]
fn a_file_arrives_whole_whatever_the_chunks() {
    let content: Vec<u8> = (0..1000u32).map(|i| (i * 7 % 251) as u8).collect();
    for chunk in [1, 3, 999, 1000, 1001, 100_000] {
        let mut stats = BackupStats::default();
        let (written, end) = copy_in_chunks(&content, chunk, &mut stats);
        assert!(matches!(end, FileEnd::Copied));
        assert_eq!(written, content);
        assert_eq!((stats.files_copied, stats.bytes_copied, stats.files_failed), (1, 1000, 0));
    }
    let mut stats = BackupStats::default();
    let (written, end) = copy_in_chunks(b"", 10, &mut stats);
    assert!(matches!(end, FileEnd::Copied));
    assert!(written.is_empty());
    assert_eq!((stats.files_copied, stats.bytes_copied), (1, 0));
}

#[test]
fn copies_that_fail_are_recorded() {
    let mut stats = BackupStats::default();
    let block = |step: FileStep| -> CopyBlock {
        match step {
            FileStep::Read(b) => b,
            _ => panic!("a read was due"),
        }
    };
    let b = block(begin_file(direct("/s/f", "d/f", 5), &mut stats));
    let outcome =
        BlockOutcome::Failed { block: b, detail: "EIO on read".to_string(), attempts: 4 };
    match after_read(outcome, &mut stats) {
        FileStep::Done(FileEnd::Failed(Some(note))) => {
            let r = record_note(&note);
            assert_eq!((r.operation.as_str(), r.path.as_str()), ("read_block", "/s/f"));
            assert_eq!((r.code.as_str(), r.attempts), ("EIO", 4));
        }
        _ => panic!("the read failed"),
    }
    let b = block(begin_file(direct("/s/f", "d/f", 5), &mut stats));
    let outcome = BlockOutcome::Failed { block: b, detail: "no room".to_string(), attempts: 1 };
    match after_write(outcome, &mut stats) {
        FileStep::Done(FileEnd::Failed(Some(note))) => {
            assert_eq!((note.operation, note.path.as_str()), ("write_block", "d/f"));
        }
        _ => panic!("the write failed"),
    }
    // A read that brings nothing before the end.
    let b = block(begin_file(direct("/s/f", "d/f", 5), &mut stats));
    let step = after_read(BlockOutcome::Ready(accept_read(b, Vec::new())), &mut stats);
    assert!(matches!(step, FileStep::Done(FileEnd::Failed(None))));
    assert_eq!(stats.files_failed, 3);
    assert_eq!(stats.files_copied, 0);

    let aggregate = FileCopyPlan::from_fcb(file("/s/f", "d/f", 5), true);
    let step = begin_file(aggregate, &mut stats);
    assert!(matches!(step, FileStep::Done(FileEnd::Failed(None))));
    let step = begin_file(FileCopyPlan::from_fcb(link("/s/l", "d/l"), false), &mut stats);
    assert!(matches!(step, FileStep::Done(FileEnd::SkippedSymlink)));
    assert_eq!(stats.files_failed, 4);
}

#[test]
fn directories_are_counted_and_failures_recorded() {
    let mut stats = BackupStats::default();
    assert!(dir_was_created("d", Ok(()), &mut stats).is_none());
    let r = dir_was_created("d", Err(("Access Denied".to_string(), 2)), &mut stats).unwrap();
    assert_eq!((r.operation.as_str(), r.code.as_str()), ("create_dir", "ACCESS_DENIED"));
    let snap = stats.snapshot();
    assert_eq!((snap.dirs_created, snap.dirs_failed), (1, 1));
}

#[test]
fn snapshots_sum_up_the_calls() {
    let mut stats = BackupStats::default();
    stats.add_bytes_copied(u64::MAX);
    for _ in 0..3 {
        stats.inc_files_copied();
        stats.add_bytes_copied(4);
        stats.inc_dirs_failed();
    }
    stats.inc_src_opened();
    stats.inc_dst_closed();
    let snap = stats.snapshot();
    assert_eq!((snap.files_copied, snap.dirs_failed, snap.bytes_copied), (3, 3, 11));
    assert_eq!((snap.src_opened, snap.src_closed, snap.dst_opened, snap.dst_closed), (1, 0, 0, 1));
    assert_eq!((snap.files_failed, snap.files_deleted, snap.dirs_created), (0, 0, 0));
}

#[test]
fn buffer_sizes_are_clamped() {
    assert_eq!(clamp_copy_buffer_size(0), MIN_COPY_BUFFER_SIZE);
    assert_eq!(clamp_copy_buffer_size(MIN_COPY_BUFFER_SIZE - 1), MIN_COPY_BUFFER_SIZE);
    assert_eq!(clamp_copy_buffer_size(DEFAULT_COPY_BUFFER_SIZE), DEFAULT_COPY_BUFFER_SIZE);
    assert_eq!(clamp_copy_buffer_size(usize::MAX), MAX_COPY_BUFFER_SIZE);
    assert_eq!(
        (MIN_COPY_BUFFER_SIZE, DEFAULT_COPY_BUFFER_SIZE, MAX_COPY_BUFFER_SIZE),
        (256 * 1024, 1024 * 1024, 4 * 1024 * 1024)
    );
    assert_eq!(chunk_len_of(0, 10, 4), 4);
    assert_eq!(chunk_len_of(8, 10, 4), 2);
    assert_eq!(chunk_len_of(12, 10, 4), 0);
}

#[test]
fn requests_say_what_to_read_and_write() {
    let mut block = CopyBlock::from_fcb(file("/s/f", "d/f", 5_000_000));
    let r = LocalSource { buffer_size: 0 }.request(&block);
    assert_eq!((r.path.as_str(), r.offset, r.len), ("/s/f", 0, MIN_COPY_BUFFER_SIZE));
    let target = LocalTarget { base: "/t".to_string() };
    let w = target.request(&block);
    assert_eq!((w.path.as_str(), w.offset, w.truncate, w.mark_sparse), ("/t/d/f", 0, true, false));
    block.dst_offset = 10;
    assert!(!target.request(&block).truncate);
    assert_eq!(target.dir_path("a/b"), "/t/a/b");

    let fcb = block.into_fcb();
    assert_eq!((fcb.dst_offset, fcb.buffer_len), (10, 0));
}

#[test]
fn plans_divide_files_by_size() {
    let config = AggregateConfig::enabled().file_threshold(100);
    let blocks = vec![
        ControlBlockVarient::DirControlBlock(dir("d")),
        ControlBlockVarient::FileControlBlock(file("/s/a", "d/a", 99)),
        ControlBlockVarient::FileControlBlock(file("/s/b", "d/b", 100)),
        ControlBlockVarient::FileControlBlock(link("/s/l", "d/l")),
    ];
    let plan = produce_copy_plan(blocks, Some(config));
    assert_eq!(plan.len(), 4);
    assert!(matches!(&plan[0], CopyPlanEntry::Directory { dst_path, .. } if dst_path == "d"));
    assert!(matches!(
        &plan[1],
        CopyPlanEntry::File(FileCopyPlan::Aggregate { src_path, .. }) if src_path == "/s/a"
    ));
    assert!(matches!(
        &plan[2],
        CopyPlanEntry::File(FileCopyPlan::Direct { dst_path, .. }) if dst_path == "d/b"
    ));
    assert!(matches!(&plan[3], CopyPlanEntry::File(FileCopyPlan::Direct { .. })));
    let alone = plan_entry(ControlBlockVarient::FileControlBlock(file("/s/a", "d/a", 99)), None);
    assert!(matches!(alone, CopyPlanEntry::File(FileCopyPlan::Direct { .. })));
}

fn dir_entry(path: &str) -> DirEntry {
    DirEntry {
        path: path.to_string(),
        diff: EntryDiff::New,
        meta_fid: 0,
        meta_offset: 0,
        files_count: 1,
    }
}

fn file_entry(name: &str) -> FileEntry {
    FileEntry { name: name.to_string(), diff: EntryDiff::New, meta_fid: 0, meta_offset: 0 }
}

fn dir_meta(path: &str) -> DirMeta {
    DirMeta { common: MetaCommon::default(), path: path.to_string() }
}

#[test]
fn entries_are_produced_in_their_directories() {
    let mut sized = FileMeta::default();
    sized.size = 12;
    sized.common.mode = 0o640;
    let events = vec![
        EntryEvent::Dir { entry: dir_entry("/ds2/a"), meta: Some(dir_meta("/ds2/a")) },
        EntryEvent::File { child: file_entry("f"), file_meta: Some(sized) },
        EntryEvent::File { child: file_entry("lost"), file_meta: None },
        EntryEvent::Unreadable,
        EntryEvent::Dir { entry: dir_entry("/ds2/b"), meta: None },
        EntryEvent::File { child: file_entry("g"), file_meta: Some(FileMeta::default()) },
    ];
    let mapping = EntryMapping::local_to_prefixed_target("/real".to_string(), "repo".to_string());
    let blocks = produce_entries_for_each(events, mapping, "/ds2".to_string());
    let paths: Vec<(String, String)> = blocks
        .iter()
        .map(|b| match b {
            ControlBlockVarient::DirControlBlock(d) => (d.src_path.clone(), d.dst_path.clone()),
            ControlBlockVarient::FileControlBlock(f) => (f.src_path.clone(), f.dst_path.clone()),
        })
        .collect();
    assert_eq!(
        paths,
        [
            ("/real/a".to_string(), "repo/ds2/a".to_string()),
            ("/real/a/f".to_string(), "repo/ds2/a/f".to_string()),
            // The directory without metadata was passed over.
            ("/real/a/g".to_string(), "repo/ds2/a/g".to_string()),
        ]
    );
    match &blocks[1] {
        ControlBlockVarient::FileControlBlock(f) => {
            assert_eq!((f.meta.size, f.meta.common.mode), (12, 0o640));
            assert_eq!((f.src_offset, f.dst_offset, f.buffer_len), (0, 0, 0));
            assert_eq!(f.src_state, SourceHandleState::Inited);
            assert_eq!(f.dst_state, TargetHandleState::Inited);
        }
        ControlBlockVarient::DirControlBlock(_) => panic!("a directory"),
    }
    let mut producer =
        EntryProducer::new(EntryMapping::remote_to_local(), "/ds2".to_string());
    assert!(producer.accepted(true));
    assert!(!producer.accepted(false));
    assert!(producer.step(EntryEvent::Unreadable).is_none());
}

#[test]
fn relative_producers_follow_the_current_directory() {
    let mut p = RelativeProducer::new("/base".to_string(), None);
    let d = p.directory("/base/x", dir_meta("/base/x"));
    assert_eq!(d.dst_path, "x");
    let f = p.file("f.txt", FileMeta::default());
    assert_eq!(f.dst_path, "x/f.txt");
}

#[test]
fn paths_are_made_relative_to_their_base() {
    assert_eq!(make_relative("/base", "/base/a/b"), "a/b");
    assert_eq!(make_relative("/base", "/other/b"), "b");
    assert_eq!(target_relative_path("/base", "repo", "/base/a/b"), "repo/a/b");
}

#[test]
fn task_limits_follow_the_connections() {
    assert_eq!(smb_copy_task_limit(0, 0), 2);
    assert_eq!(smb_copy_task_limit(4, 0), 8);
    assert_eq!(smb_copy_task_limit(100, 0), 16);
    assert_eq!(smb_copy_task_limit(4, 20), 20);
    assert_eq!(smb_copy_task_limit(4, 100), 32);
    assert_eq!(nfs_smb_task_limit(4, 100), 16);
    assert_eq!(nfs_smb_task_limit(2, 0), 4);
    assert_eq!(task_permits(0), 1);
    assert_eq!(task_permits(5), 5);
}

#[test]
fn whole_files_go_where_the_target_wants_them() {
    let block = || ControlBlockVarient::FileControlBlock(file("/s/f", "d\\e/f", 3));
    let path = |target: TargetPaths| match whole_file_step(block(), &target) {
        WholeFileStep::ReadFile { path, .. } => path,
        _ => panic!("a file"),
    };
    assert_eq!(path(TargetPaths::Share), "d/e/f");
    assert_eq!(path(TargetPaths::Export), "d\\e/f");
    assert_eq!(path(TargetPaths::Directory { base: "/t".to_string() }), "/t/d\\e/f");
    let step = whole_file_step(
        ControlBlockVarient::FileControlBlock(link("/s/l", "l")), &TargetPaths::Share,
    );
    assert!(matches!(step, WholeFileStep::SkipSymlink));
    let step =
        whole_file_step(ControlBlockVarient::DirControlBlock(dir("d\\e")), &TargetPaths::Share);
    assert!(matches!(step, WholeFileStep::MakeDir { path, .. } if path == "d/e"));
}

/// A directory, a file that arrives, one that cannot be read, one that cannot be written,
/// and a symbolic link.
fn whole_files() -> Vec<WholeFileEntry> {
    let entry = |block: ControlBlockVarient, content: Option<&[u8]>, written: bool| WholeFileEntry {
        block,
        content: content.map(|c| c.to_vec()),
        written,
    };
    vec![
        entry(ControlBlockVarient::DirControlBlock(dir("d\\e")), None, true),
        entry(
            ControlBlockVarient::FileControlBlock(file("/s/a", "d\\e/a", 3)),
            Some(&b"abc"[..]),
            true,
        ),
        entry(ControlBlockVarient::FileControlBlock(file("/s/b", "d/b", 20)), None, true),
        entry(
            ControlBlockVarient::FileControlBlock(file("/s/c", "d/c", 2)),
            Some(&b"xy"[..]),
            false,
        ),
        entry(ControlBlockVarient::FileControlBlock(link("/s/l", "d/l")), None, true),
    ]
}

fn written(writes: Vec<TargetWrite>) -> Vec<(String, Option<Vec<u8>>)> {
    writes
        .into_iter()
        .map(|w| match w {
            TargetWrite::Dir(path) => (path, None),
            TargetWrite::File { path, content } => (path, Some(content)),
        })
        .collect()
}

#[test]
fn whole_files_are_written_as_they_were_read() {
    let expected = |base: &str, slashes: bool| {
        let at = |path: &str| {
            let path = if slashes { path.replace('\\', "/") } else { path.to_string() };
            format!("{base}{path}")
        };
        vec![
            (at("d\\e"), None),
            (at("d\\e/a"), Some(b"abc".to_vec())),
            (at("d/c"), Some(b"xy".to_vec())),
        ]
    };
    let counted = |stats: &BackupStats| {
        assert_eq!((stats.dirs_created, stats.dirs_failed), (1, 0));
        assert_eq!((stats.files_copied, stats.files_failed, stats.bytes_copied), (1, 2, 3));
    };
    let run = |f: &dyn Fn(&mut BackupStats) -> Vec<TargetWrite>| {
        let mut stats = BackupStats::default();
        let writes = f(&mut stats);
        counted(&stats);
        written(writes)
    };
    assert_eq!(run(&|s| run_aio_copy_pipeline(whole_files(), s)), expected("", false));
    assert_eq!(run(&|s| run_aio_nfs_to_nfs_pipeline(whole_files(), s)), expected("", false));
    assert_eq!(run(&|s| run_local_to_smb_copy_pipeline(whole_files(), s)), expected("", true));
    assert_eq!(run(&|s| run_smb_to_smb_copy_pipeline(whole_files(), s)), expected("", true));
    let base = || "/t".to_string();
    assert_eq!(
        run(&|s| run_aio_nfs_to_local_pipeline(whole_files(), base(), s)),
        expected("/t/", false)
    );
    assert_eq!(
        run(&|s| run_smb_to_local_copy_pipeline(whole_files(), base(), s)),
        expected("/t/", false)
    );
}

#[test]
fn pipelines_count_every_block_once() {
    let blocks = vec![
        ControlBlockVarient::DirControlBlock(dir("d")),
        ControlBlockVarient::DirControlBlock(dir("e")),
        ControlBlockVarient::FileControlBlock(file("/s/a", "d/a", 10)),
        ControlBlockVarient::FileControlBlock(file("/s/b", "d/b", 20)),
        ControlBlockVarient::FileControlBlock(link("/s/l", "d/l")),
    ];
    let mut stats = BackupStats::default();
    run_copy_pipeline(&blocks, &vec![true, false, true, false, true], true, true, &mut stats);
    assert_eq!((stats.dirs_created, stats.dirs_failed), (1, 1));
    assert_eq!((stats.files_copied, stats.files_failed, stats.bytes_copied), (1, 1, 10));
    let mut stats = BackupStats::default();
    run_copy_pipeline(&blocks, &vec![true; 5], false, false, &mut stats);
    assert_eq!((stats.dirs_created, stats.files_copied, stats.files_failed), (2, 2, 2));
    assert_eq!(stats.bytes_copied, 30);

    let plan = plan_streaming(blocks);
    assert_eq!((plan.dir_entries, plan.file_entries), (2, 3));
    assert_eq!(plan.dir_paths, ["d", "e"]);
    assert_eq!(plan.file_jobs.len(), 2);
    assert_eq!((plan.file_jobs[1].src_rel.as_str(), plan.file_jobs[1].file_size), ("/s/b", 20));
}

#[test]
fn outcomes_of_whole_files_are_counted() {
    let mut stats = BackupStats::default();
    let read = file_was_read(file("/s/f", "d/f", 3), Some(b"abc".to_vec()), &mut stats).unwrap();
    assert_eq!((read.buffer.as_slice(), read.buffer_len), (b"abc".as_slice(), 3));
    assert!(file_was_read(file("/s/f", "d/f", 3), None, &mut stats).is_none());
    file_was_written(true, 3, &mut stats);
    file_was_written(false, 3, &mut stats);
    blob_was_written(true, 4, 40, &mut stats);
    blob_was_written(false, 0, 0, &mut stats);
    pipeline_finished(true, false, &mut stats);
    assert_eq!((stats.files_copied, stats.bytes_copied, stats.files_failed), (5, 43, 4));
}

#[test]
fn durations_are_written_for_people() {
    assert_eq!(format_elapsed(0, 5), "0.005s");
    assert_eq!(format_elapsed(59, 999), "59.999s");
    assert_eq!(format_elapsed(125, 50), "2m 5.050s");
}

#[test]
fn restores_look_into_the_index_of_their_layout() {
    let shard =
        LocalRepoRestoreSource::new("/repo".to_string(), AggregateLayout::Shard).unwrap();
    match shard.lookup("a\\b/f") {
        IndexLookup::Shard { index_path, relative_path } => {
            assert_eq!(index_path, "/repo/.AGGR/AGGREGATE_INDEX.bidx");
            assert_eq!(relative_path, "a/b/f");
        }
        _ => panic!("a shard index"),
    }
    let table =
        LocalRepoRestoreSource::new("/repo".to_string(), AggregateLayout::DirLevel).unwrap();
    match table.lookup("a/b/f") {
        IndexLookup::DirLevel { table_path, file_name, blob_dir } => {
            assert_eq!(table_path, "/repo/a/b/.AGGR/AGGREGATE_IDX.sqlite");
            assert_eq!((file_name.as_str(), blob_dir.as_str()), ("f", "a/b/.AGGR"));
        }
        _ => panic!("a table"),
    }
    assert!(matches!(table.lookup("/"), IndexLookup::Invalid(_)));
    let block = CopyBlock::from_fcb(file("a/f", "d/f", 10));
    let r = table.request(&block);
    assert_eq!((r.path.as_str(), r.offset, r.len), ("/repo/a/f", 0, 10));
}

#[test]
fn restores_leave_out_what_the_policy_keeps() {
    let mut meta = FileMeta::default();
    meta.size = 7;
    meta.common.mtime = 100;
    let there = |mtime: i128| Some(TargetFile { exists: true, mtime: Some(mtime) });
    let gone = Some(TargetFile { exists: false, mtime: None });
    let mut stats = RestoreStats::default();
    assert!(!should_skip_restore(&meta, there(0), RestorePolicy::Replace, &mut stats));
    assert!(should_skip_restore(&meta, there(0), RestorePolicy::Skip, &mut stats));
    assert!(!should_skip_restore(&meta, gone, RestorePolicy::Skip, &mut stats));
    assert!(!should_skip_restore(&meta, None, RestorePolicy::Skip, &mut stats));
    let secs = 1_000_000_000i128;
    assert!(should_skip_restore(&meta, there(100 * secs), RestorePolicy::KeepNewer, &mut stats));
    assert!(!should_skip_restore(&meta, there(99 * secs), RestorePolicy::KeepNewer, &mut stats));
    assert_eq!((stats.files_skipped, stats.bytes_skipped), (2, 14));
    let unknown = Some(TargetFile { exists: true, mtime: None });
    assert!(!should_skip_restore(&meta, unknown, RestorePolicy::KeepNewer, &mut stats));
    assert!(!RestorePolicy::KeepNewer.should_restore(None, true, Some(1)));
    assert!(RestorePolicy::KeepNewer.should_restore(None, true, None));
}

#[test]
fn restores_make_directories_links_and_files() {
    let base = Some("/t".to_string());
    let mut stats = RestoreStats::default();
    let step = begin_restore(
        CopyPlanEntry::Directory { meta: dir_meta("d"), dst_path: "d".to_string() },
        &base,
        &mut stats,
    );
    assert!(matches!(step, RestoreStep::MakeDir(p) if p == "d"));
    restored_dir(true, &mut stats);
    restored_dir(false, &mut stats);
    let entry = CopyPlanEntry::File(FileCopyPlan::from_fcb(link("/s/l", "d/l"), false));
    match begin_restore(entry, &base, &mut stats) {
        RestoreStep::MakeSymlink(job) => {
            assert_eq!((job.link_path.as_str(), job.target.as_str()), ("/t/d/l", "elsewhere"));
            assert_eq!(job.parent.as_deref(), Some("/t/d"));
        }
        _ => panic!("a link"),
    }
    restored_symlink(true, &mut stats);
    let entry = CopyPlanEntry::File(FileCopyPlan::from_fcb(file("/s/f", "d/f", 3), true));
    assert!(matches!(begin_restore(entry, &base, &mut stats), RestoreStep::Failed));
    assert_eq!((stats.dirs_created, stats.files_restored, stats.files_failed), (1, 1, 1));

    let entry = CopyPlanEntry::File(direct("/s/f", "d/f", 3));
    let job = match begin_restore(entry, &base, &mut stats) {
        RestoreStep::RestoreFile(job) => job,
        _ => panic!("a file"),
    };
    assert_eq!(job.full_path, "/t/d/f");
    let block = first_block(job);
    let block = match restore_after_read(
        BlockOutcome::Ready(accept_read(block, b"ab".to_vec())), &mut stats,
    ) {
        RestoreBlockStep::Write(b) => b,
        _ => panic!("a write was due"),
    };
    let block = match restore_after_write(BlockOutcome::Ready(accept_write(block)), &mut stats) {
        RestoreBlockStep::Read(b) => b,
        _ => panic!("a read was due"),
    };
    let block = match restore_after_read(
        BlockOutcome::Ready(accept_read(block, b"c".to_vec())), &mut stats,
    ) {
        RestoreBlockStep::Write(b) => b,
        _ => panic!("a write was due"),
    };
    let step = restore_after_write(BlockOutcome::Ready(accept_write(block)), &mut stats);
    assert!(matches!(step, RestoreBlockStep::Restored(_)));
    assert_eq!((stats.files_restored, stats.bytes_restored), (2, 3));
}
