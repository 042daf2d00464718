use bifrost::aggregate::{AggregateConfig, AggregateLayout};
use bifrost::aggregate_engine::{AggregateBackupEngine, AggregateBackupState};
use bifrost::aggregate_local::LocalAggregateState;
use bifrost::bio_copy::{
    aggregating_reader_idles, blob_was_created, buffer_was_written, close_source, close_target,
    logical_target_path, open_source, open_target, open_target_plan, part_was_read, read_request,
    read_source, resolve_local_source_path, spawn_file_entry_producer, spawn_reader,
    spawn_reader_io_result_poll, spawn_reader_with_aggregation, spawn_writer,
    spawn_writer_io_result_poll, write_target, AggregatingRoute, BioError, LocalEntry,
    LocalEntryProducer, ReaderBioResult, ReaderBioTask, ReaderRoute, ResultRoute, SharedState,
    WriterBioResult, WriterBioTask, WriterRoute, WriterStep,
};
use bifrost::copy_plan::{CopyPlanEntry, FileCopyPlan};
use bifrost::fcb::{
    ControlBlockVarient, FileControlBlock, SourceHandleState, TargetHandleState,
    MAX_FILE_BUFFER_SIZE,
};
use bifrost::local_executor::{
    aggregate_one_local_file, execute_local_file_plan, execute_local_plan_entry,
    local_file_was_copied, spawn_local_common_copy_pipeline, write_aggregate_blob, LocalCopyEnd,
    LocalEntryStep, LocalFileStep,
};
use bifrost::local_metadata::{acl_lines, restore_acl, restore_acl_of, restore_xattrs, xattr_lines};
use bifrost::metadata::{DirMeta, FileMeta, MetaCommon};
use bifrost::orchestrator::{Phase, PhaseFlags};
use bifrost::stats::BackupStats;

fn file(dst: &str, size: u64) -> FileControlBlock {
    let mut meta = FileMeta::default();
    meta.size = size;
    let mut fcb = FileControlBlock::from(meta);
    fcb.src_path = format!("/s/{}", dst);
    fcb.dst_path = dst.to_string();
    fcb
}

fn link(dst: &str) -> FileControlBlock {
    let mut fcb = file(dst, 4);
    fcb.meta.common.symlink_target_path = Some("there".to_string());
    fcb
}

fn engine(max_blob_size: u64) -> AggregateBackupEngine {
    let config = AggregateConfig::enabled()
        .layout(AggregateLayout::DirLevel)
        .max_blob_size(max_blob_size);
    AggregateBackupEngine::new(config, "/s".to_string(), "/t".to_string(), None, 1).unwrap()
}

#[test]
fn control_paths_are_found_on_both_sides() {
    assert_eq!(resolve_local_source_path("/real/ds", "/ds", "/ds/a"), "/real/ds/a");
    assert_eq!(resolve_local_source_path("/ds", "/ds", "/ds/a"), "/ds/a");
    assert_eq!(resolve_local_source_path("/real", "/ds", "/else/a"), "/real/else/a");
    assert_eq!(logical_target_path("/t", "/ds/a"), "/t/ds/a");
    let mut p =
        LocalEntryProducer::new("/real/ds".to_string(), "/ds".to_string(), "/t".to_string());
    let d = p.directory(
        "/ds/a", DirMeta { common: MetaCommon::default(), path: "/ds/a".to_string() },
    );
    assert_eq!((d.src_path.as_str(), d.dst_path.as_str()), ("/real/ds/a", "/t/ds/a"));
    let f = p.file("f", FileMeta::default());
    assert_eq!((f.src_path.as_str(), f.dst_path.as_str()), ("/real/ds/a/f", "/t/ds/a/f"));
}

#[test]
fn a_small_file_passes_through_the_engine() {
    let mut stats = BackupStats::default();
    let content = b"hello".to_vec();
    let fcb = match spawn_reader(ControlBlockVarient::FileControlBlock(file("d/f", 5))) {
        ReaderRoute::Task(ReaderBioTask::OpenSource(f)) => f,
        other => panic!("{:?}", other),
    };
    let fcb =
        match spawn_reader_io_result_poll(open_source(fcb, false, Ok(())), None, &mut stats) {
            ResultRoute::ToReader(f) => f,
            other => panic!("{:?}", other),
        };
    let fcb = match spawn_reader(ControlBlockVarient::FileControlBlock(fcb)) {
        ReaderRoute::Task(ReaderBioTask::ReadSource(f)) => f,
        other => panic!("{:?}", other),
    };
    assert_eq!(read_request(&fcb), (0, 5));
    let fcb =
        match spawn_reader_io_result_poll(read_source(fcb, Ok(content)), None, &mut stats) {
            ResultRoute::ToWriter(f) => f,
            other => panic!("{:?}", other),
        };
    assert_eq!(fcb.src_state, SourceHandleState::Read);
    let fcb = match spawn_writer(ControlBlockVarient::FileControlBlock(fcb)) {
        WriterRoute::Task(WriterBioTask::OpenTarget(f)) => f,
        other => panic!("{:?}", other),
    };
    let plan = open_target_plan(&fcb);
    assert_eq!((plan.parent.as_deref(), plan.symlink_target), (Some("d"), None));
    let fcb = spawn_writer_io_result_poll(open_target(fcb, Ok(())), &mut stats).unwrap();
    let fcb = match spawn_writer(ControlBlockVarient::FileControlBlock(fcb)) {
        WriterRoute::Task(WriterBioTask::WriteTarget(f)) => f,
        other => panic!("{:?}", other),
    };
    assert_eq!(fcb.buffer, b"hello");
    let result = write_target(fcb, Ok(()));
    assert!(matches!(
        &result,
        WriterBioResult::WriteTarget(Ok(f)) if f.dst_state == TargetHandleState::Written
    ));
    assert!(spawn_writer_io_result_poll(result, &mut stats).is_none());
    assert_eq!((stats.src_opened, stats.dst_opened), (1, 1));
    assert_eq!((stats.files_copied, stats.bytes_copied, stats.files_failed), (1, 5, 0));
}

#[test]
fn links_and_directories_skip_the_reader() {
    let item = ControlBlockVarient::FileControlBlock(link("d/l"));
    assert!(matches!(spawn_reader(item), ReaderRoute::ToWriter(_)));
    let mut stats = BackupStats::default();
    let made = open_target(link("d/l"), Ok(()));
    assert!(spawn_writer_io_result_poll(made, &mut stats).is_none());
    assert_eq!((stats.files_copied, stats.bytes_copied, stats.dst_opened), (1, 4, 1));
    let plan = open_target_plan(&link("d/l"));
    assert_eq!(plan.symlink_target.as_deref(), Some("there"));
}

#[test]
fn failed_operations_count_as_failed_files() {
    let mut stats = BackupStats::default();
    let device = open_source(file("f", 5), true, Ok(()));
    assert!(matches!(
        &device,
        ReaderBioResult::OpenSource(Err(BioError::Unknown(e))) if e == "Block device skipped"
    ));
    assert!(matches!(spawn_reader_io_result_poll(device, None, &mut stats), ResultRoute::Nothing));
    let failed = read_source(file("f", 5), Err("EIO".to_string()));
    assert!(matches!(spawn_reader_io_result_poll(failed, None, &mut stats), ResultRoute::Nothing));
    let failed = write_target(file("f", 5), Err("full".to_string()));
    assert!(spawn_writer_io_result_poll(failed, &mut stats).is_none());
    assert_eq!(stats.files_failed, 3);
    let closed = close_source(file("f", 5));
    assert!(matches!(
        spawn_reader_io_result_poll(closed, None, &mut stats), ResultRoute::ToWriter(_)
    ));
    assert!(spawn_writer_io_result_poll(close_target(file("f", 5)), &mut stats).is_none());
    assert_eq!((stats.src_closed, stats.dst_closed), (1, 1));
}

#[test]
fn large_files_are_read_in_part() {
    let mut big = file("big", MAX_FILE_BUFFER_SIZE as u64 + 10);
    assert_eq!(read_request(&big), (0, MAX_FILE_BUFFER_SIZE));
    big.src_offset = MAX_FILE_BUFFER_SIZE as u64;
    assert_eq!(read_request(&big), (MAX_FILE_BUFFER_SIZE as u64, 10));
    big.src_offset = 0;
    match read_source(big, Ok(vec![0; 7])) {
        ReaderBioResult::ReadSource(Ok(f)) => {
            assert_eq!((f.src_state, f.src_offset), (SourceHandleState::PartialRead, 7));
        }
        other => panic!("{:?}", other),
    }
}

/// Takes a file that was recorded with ten bytes through the engine, with reads of at most
/// `most` bytes, and gives what arrived.
fn copy_in_parts(content: &[u8], most: usize, stats: &mut BackupStats) -> Vec<u8> {
    let read = |f: &FileControlBlock| {
        let (at, len) = read_request(f);
        let from = (at as usize).min(content.len());
        let to = (from + len.min(most)).min(content.len());
        content[from..to].to_vec()
    };
    let opened = open_source(file("d/f", 10), false, Ok(()));
    let f = match spawn_reader_io_result_poll(opened, None, stats) {
        ResultRoute::ToReader(f) => f,
        other => panic!("{:?}", other),
    };
    let data = read(&f);
    let mut next = match spawn_reader_io_result_poll(read_source(f, Ok(data)), None, stats) {
        ResultRoute::ToWriter(f) => Some(f),
        other => panic!("{:?}", other),
    };
    let mut target: Vec<u8> = Vec::new();
    while let Some(f) = next.take() {
        let result = match spawn_writer(ControlBlockVarient::FileControlBlock(f)) {
            WriterRoute::Task(WriterBioTask::OpenTarget(f)) => open_target(f, Ok(())),
            WriterRoute::Task(WriterBioTask::WriteTarget(f)) => {
                let mut step = WriterStep::Write(f);
                loop {
                    step = match step {
                        WriterStep::Write(f) => {
                            target.truncate(f.dst_offset as usize);
                            target.extend(&f.buffer);
                            buffer_was_written(write_target(f, Ok(())))
                        }
                        WriterStep::ReadOn(f) => {
                            let data = read(&f);
                            part_was_read(f, Ok(data))
                        }
                        WriterStep::Send(result) => break result,
                    };
                }
            }
            WriterRoute::Nothing => return target,
            other => panic!("{:?}", other),
        };
        next = spawn_writer_io_result_poll(result, stats);
    }
    target
}

#[test]
fn files_are_copied_in_parts() {
    for most in [1, 3, 5, 10, 20] {
        let mut stats = BackupStats::default();
        assert_eq!(copy_in_parts(b"0123456789", most, &mut stats), b"0123456789");
        assert_eq!((stats.files_copied, stats.bytes_copied), (1, 10));
        assert_eq!((stats.src_opened, stats.dst_opened), (1, 1));
    }
}

#[test]
fn files_that_became_shorter_are_not_counted() {
    for content in [&b""[..], &b"0123"[..]] {
        let mut stats = BackupStats::default();
        assert_eq!(copy_in_parts(content, 3, &mut stats), content);
        assert_eq!((stats.files_copied, stats.files_failed, stats.bytes_copied), (0, 0, 0));
    }
    let mut f = file("d/f", 10);
    f.src_offset = 4;
    match part_was_read(f, Err("EIO".to_string())) {
        WriterStep::Send(result) => {
            let mut stats = BackupStats::default();
            assert!(spawn_writer_io_result_poll(result, &mut stats).is_none());
            assert_eq!(stats.files_failed, 1);
        }
        other => panic!("{:?}", other),
    }
}

#[test]
fn small_files_that_were_read_are_collected() {
    let mut state = AggregateBackupState::new(engine(8));
    let read = |dst: &str| {
        let mut f = file(dst, 5);
        f.buffer = b"hello".to_vec();
        f.buffer_len = 5;
        f.src_state = SourceHandleState::Read;
        ControlBlockVarient::FileControlBlock(f)
    };
    let config = state.engine.config.clone();
    let mut stats = BackupStats::default();
    let came = |state: SourceHandleState| {
        let mut f = file("d/a", 5);
        f.buffer = b"hello".to_vec();
        f.src_state = state;
        ReaderBioResult::ReadSource(Ok(f))
    };
    let whole = came(SourceHandleState::Read);
    let back = spawn_reader_io_result_poll(whole, Some(&config), &mut stats);
    assert!(matches!(back, ResultRoute::ToReader(_)));
    let part = came(SourceHandleState::PartialRead);
    let on = spawn_reader_io_result_poll(part, Some(&config), &mut stats);
    assert!(matches!(on, ResultRoute::ToWriter(_)));
    assert!(matches!(
        spawn_reader_with_aggregation(&mut state, read("d/a")), AggregatingRoute::Buffered
    ));
    match spawn_reader_with_aggregation(&mut state, read("d/b")) {
        AggregatingRoute::Blob { bucket_key, files } => {
            assert_eq!((bucket_key.as_str(), files.len()), ("d", 2));
            assert_eq!(files[1].data, b"hello");
        }
        other => panic!("{:?}", other),
    }
    let fresh = ControlBlockVarient::FileControlBlock(file("d/c", 5));
    assert!(matches!(
        spawn_reader_with_aggregation(&mut state, fresh),
        AggregatingRoute::Route(ReaderRoute::Task(ReaderBioTask::OpenSource(_)))
    ));
}

#[test]
fn a_collecting_reader_hands_out_its_buckets_at_the_end() {
    let read = |dst: &str| {
        let mut fcb = file(dst, 5);
        fcb.buffer = b"hello".to_vec();
        fcb.buffer_len = 5;
        fcb.src_state = SourceHandleState::Read;
        ControlBlockVarient::FileControlBlock(fcb)
    };
    let mut state = AggregateBackupState::new(engine(100));
    for dst in ["d/a", "e/b", "d/c"] {
        assert!(matches!(
            spawn_reader_with_aggregation(&mut state, read(dst)), AggregatingRoute::Buffered
        ));
    }
    let mut shared = SharedState::default();
    assert!(aggregating_reader_idles(&mut shared, &mut state).is_none());
    shared.entry_produce_done = true;
    let mut rest = aggregating_reader_idles(&mut shared, &mut state).unwrap();
    assert!(shared.reader_done);
    rest.sort_by(|a, b| a.0.cmp(&b.0));
    let sizes: Vec<(&str, usize)> = rest.iter().map(|(k, f)| (k.as_str(), f.len())).collect();
    assert_eq!(sizes, vec![("d", 2), ("e", 1)]);
    assert_eq!(aggregating_reader_idles(&mut shared, &mut state).unwrap().len(), 0);

    let mut stats = BackupStats::default();
    blob_was_created(true, &rest[0].1, &mut stats);
    blob_was_created(false, &rest[1].1, &mut stats);
    assert_eq!((stats.files_copied, stats.bytes_copied, stats.files_failed), (2, 10, 1));
}

#[test]
fn threads_stop_one_after_the_other() {
    let mut shared = SharedState::default();
    assert!(!shared.reader_idles());
    assert!(!shared.writer_idles());
    shared.entry_produce_done = true;
    shared.active_reader_io_workers = 1;
    assert!(!shared.reader_idles());
    shared.active_reader_io_workers = 0;
    assert!(shared.reader_idles());
    assert!(shared.reader_done);
    assert!(shared.writer_idles());
    assert!(shared.writer_done);
}

#[test]
fn local_pipelines_have_a_worker() {
    let flags = PhaseFlags { hardlink: true, delete: false, mtime: true };
    let p = spawn_local_common_copy_pipeline(0, 1, flags);
    assert_eq!((p.workers, p.queue_capacity, p.buffer_size), (1, 2, 256 * 1024));
    assert_eq!(p.phases, [Phase::Hardlink, Phase::Mtime]);
    let p = spawn_local_common_copy_pipeline(6, 1024 * 1024, flags);
    assert_eq!((p.workers, p.queue_capacity, p.buffer_size), (6, 12, 1024 * 1024));
}

#[test]
fn local_files_are_copied_linked_or_collected() {
    let entry = CopyPlanEntry::File(FileCopyPlan::from_fcb(file("d/f", 5), false));
    let plan = match execute_local_plan_entry(entry) {
        LocalEntryStep::Queue(plan) => plan,
        other => panic!("{:?}", other),
    };
    match execute_local_file_plan(plan, false).unwrap() {
        LocalFileStep::Copy { parent, src_path, dst_path } => {
            assert_eq!(parent.as_deref(), Some("d"));
            assert_eq!((src_path.as_str(), dst_path.as_str()), ("/s/d/f", "d/f"));
        }
        other => panic!("{:?}", other),
    }
    let plan = FileCopyPlan::from_fcb(link("d/l"), false);
    assert!(matches!(
        execute_local_file_plan(plan, true).unwrap(),
        LocalFileStep::Symlink { target, .. } if target == "there"
    ));
    let plan = FileCopyPlan::from_fcb(file("d/f", 5), true);
    assert_eq!(execute_local_file_plan(plan, false).unwrap_err(), "missing aggregate state");
    let plan = FileCopyPlan::from_fcb(file("d/f", 5), true);
    let (meta, src_path) = match execute_local_file_plan(plan, true).unwrap() {
        LocalFileStep::Collect { meta, src_path } => (meta, src_path),
        other => panic!("{:?}", other),
    };
    let mut state = LocalAggregateState::new(engine(10));
    assert!(matches!(
        aggregate_one_local_file(&mut state, &meta, src_path), LocalFileStep::Buffered
    ));
    match aggregate_one_local_file(&mut state, &meta, "/s/d/g".to_string()) {
        LocalFileStep::Blob { bucket_key, files } => {
            assert_eq!((bucket_key.as_str(), files.len()), ("d", 2));
            let mut stats = BackupStats::default();
            write_aggregate_blob(true, &files, &mut stats);
            write_aggregate_blob(false, &files, &mut stats);
            write_aggregate_blob(false, &Vec::new(), &mut stats);
            assert_eq!((stats.files_copied, stats.bytes_copied, stats.files_failed), (2, 10, 3));
        }
        other => panic!("{:?}", other),
    }
}

#[test]
fn local_copies_are_counted_as_far_as_they_came() {
    let count = |end: LocalCopyEnd| {
        let mut s = BackupStats::default();
        local_file_was_copied(end, &mut s);
        (s.src_opened, s.dst_opened, s.src_closed, s.dst_closed, s.bytes_copied, s.files_copied, s.files_failed)
    };
    assert_eq!(count(LocalCopyEnd::SymlinkMade), (0, 0, 0, 0, 0, 1, 0));
    assert_eq!(count(LocalCopyEnd::NothingOpened), (0, 0, 0, 0, 0, 0, 1));
    assert_eq!(count(LocalCopyEnd::SourceOpened), (1, 0, 0, 0, 0, 0, 1));
    assert_eq!(count(LocalCopyEnd::TargetOpened), (1, 1, 0, 0, 0, 0, 1));
    assert_eq!(count(LocalCopyEnd::NotFlushed { copied: 9 }), (1, 1, 0, 0, 9, 0, 1));
    assert_eq!(count(LocalCopyEnd::Copied { copied: 9 }), (1, 1, 1, 1, 9, 1, 0));
}

#[test]
fn attributes_are_decoded() {
    let recorded = "user.one=aGVsbG8=\nno separator\nuser.bad=***\nuser.two=\n";
    assert_eq!(xattr_lines(recorded).len(), 3);
    let got = restore_xattrs(&Some(recorded.to_string()));
    let got: Vec<(&str, &[u8])> =
        got.iter().map(|x| (x.name.as_str(), x.value.as_slice())).collect();
    assert_eq!(
        got,
        [("user.one", b"hello".as_slice()), ("user.two", b"".as_slice())]
    );
    assert!(restore_xattrs(&None).is_empty());
}

#[test]
fn invalid_access_entries_are_left_out() {
    let lines = acl_lines(
        &Some("user::rwx\n\ngroup::r-x".to_string()), &Some("default:other::---".to_string()),
    );
    assert!(lines.len() >= 3);
    let mut valid = vec![true; lines.len()];
    valid[0] = false;
    let want: Vec<String> = lines[1..].to_vec();
    assert_eq!(restore_acl(lines, &valid), want);
    assert!(acl_lines(&None, &None).is_empty());
    let access = Some("user::rwx\nrubbish".to_string());
    let default = Some("default:other::---".to_string());
    let reads = vec![true, false, true];
    assert_eq!(restore_acl_of(&access, &default, &reads), ["user::rwx", "default:other::---"]);
    assert!(restore_acl_of(&None, &None, &vec![]).is_empty());
}

#[test]
fn entries_become_blocks_in_order() {
    let dir = |path: &str| LocalEntry::Dir {
        path: path.to_string(),
        dir_meta: DirMeta { common: MetaCommon::default(), path: path.to_string() },
    };
    let named = |name: &str| LocalEntry::File {
        name: name.to_string(),
        file_meta: FileMeta::default(),
    };
    let blocks = spawn_file_entry_producer(
        vec![dir("/log/a"), named("f"), dir("/log/b"), named("g")],
        "/src".to_string(),
        "/log".to_string(),
        "/dst".to_string(),
    );
    let places: Vec<(String, String)> = blocks
        .into_iter()
        .map(|b| match b {
            ControlBlockVarient::DirControlBlock(d) => (d.src_path, d.dst_path),
            ControlBlockVarient::FileControlBlock(f) => (f.src_path, f.dst_path),
        })
        .collect();
    let expected = [
        ("/src/a", "/dst/log/a"),
        ("/src/a/f", "/dst/log/a/f"),
        ("/src/b", "/dst/log/b"),
        ("/src/b/g", "/dst/log/b/g"),
    ];
    assert_eq!(places.len(), 4);
    for (place, (src, dst)) in places.iter().zip(expected.iter()) {
        assert_eq!((place.0.as_str(), place.1.as_str()), (*src, *dst));
    }
}

#[test]
fn busy_workers_keep_a_side_open() {
    let mut shared = SharedState::default();
    shared.entry_produce_done = true;
    shared.reader_task_begins();
    assert!(!shared.reader_idles());
    shared.reader_task_ends();
    assert!(shared.reader_idles());
    shared.writer_task_begins();
    assert!(shared.reader_idles());
    assert!(!shared.writer_idles());
    shared.writer_task_ends();
    assert!(shared.writer_idles());
}
