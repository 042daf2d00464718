use bifrost::aggregate::{
    generate_blob_name, AggregateBlobMeta, AggregateFileEntry, AggregateLayout,
};
use bifrost::aggregate_dir_index::{write_dir_index, DirIndexRow};
use bifrost::aggregate_index::AggregateIndex;
use bifrost::backup::{RestorePolicy, RestoreStats};
use bifrost::copy_block::CopyBlock;
use bifrost::copy_plan::{CopyPlanEntry, FileCopyPlan};
use bifrost::executor::BlockOutcome;
use bifrost::fcb::{ControlBlockVarient, DirControlBlock, FileControlBlock};
use bifrost::metadata::{DirMeta, FileMeta, MetaCommon};
use bifrost::paths;
use bifrost::pipelines::{plan_streaming, run_smb_to_smb_streaming_pipeline};
use bifrost::restore_pipeline::{
    begin_restore, first_block, restore_after_read, restore_after_write,
    run_restore_copy_pipeline, should_skip_restore, LocalRepoRestoreSource, Locating, RepoRead,
    RestoreBlockStep, RestoreEnd, RestoreStep,
};

fn meta(size: u64, link: Option<&str>) -> FileMeta {
    let mut m = FileMeta::default();
    m.size = size;
    m.common.symlink_target_path = link.map(|l| l.to_string());
    m
}

fn block(src: &str, size: u64) -> CopyBlock {
    let mut fcb = FileControlBlock::from(meta(size, None));
    fcb.src_path = src.to_string();
    fcb.dst_path = src.to_string();
    CopyBlock::from_fcb(fcb)
}

fn blob_of(path: &str, file: &str, offset: u64, size: u64) -> AggregateBlobMeta {
    AggregateBlobMeta {
        blob_path: path.to_string(),
        blob_size: offset + size,
        file_count: 1,
        shard_id: 0,
        files: vec![AggregateFileEntry {
            relative_path: file.to_string(),
            offset,
            size,
            ctime: 1,
            mtime: 2,
            mode: 0o600,
            xattrs: None,
            acl: None,
        }],
    }
}

#[test]
fn aggregated_files_are_read_out_of_their_blob() {
    let mut index = AggregateIndex::open("i", None).unwrap();
    index.add_blob(&blob_of(".AGGR/0/x.aggr", "a/f", 2, 3)).unwrap();
    let bytes = index.flush().unwrap();

    let mut source =
        LocalRepoRestoreSource::new("/repo".to_string(), AggregateLayout::Shard).unwrap();
    match source.locate("a\\f") {
        Locating::LoadIndex(p) => assert_eq!(p, "/repo/.AGGR/AGGREGATE_INDEX.bidx"),
        _ => panic!("the index is not loaded yet"),
    }
    source.index_loaded(Ok(Some(bytes))).unwrap();
    let info = match source.locate("a\\f") {
        Locating::Located(Ok(Some(info))) => info,
        _ => panic!("the file is in the index"),
    };
    assert_eq!((info.offset, info.size, info.mode), (2, 3, 0o600));
    let (path, info, waiting) = match source.read_block(block("a/f", 3), Ok(Some(info)), "a/f") {
        RepoRead::LoadBlob { path, info, block } => (path, info, block),
        _ => panic!("the blob is not loaded yet"),
    };
    assert_eq!(path, "/repo/.AGGR/0/x.aggr");
    match source.blob_loaded(waiting, info, Ok(b"--abc--".to_vec()), "a/f") {
        BlockOutcome::Ready(b) => {
            assert_eq!(b.data, b"abc".to_vec());
            assert_eq!(b.src_offset, 3);
        }
        BlockOutcome::Failed { .. } => panic!("the blob holds the file"),
    }

    let again = match source.locate("a/f") {
        Locating::Located(found) => found,
        _ => panic!("the index is loaded"),
    };
    match source.read_block(block("a/f", 3), again, "a/f") {
        RepoRead::Done(BlockOutcome::Ready(b)) => assert_eq!(b.data, b"abc".to_vec()),
        _ => panic!("the blob is kept"),
    }
    assert!(matches!(source.locate("a/g"), Locating::Located(Ok(None))));
}

#[test]
fn rows_of_a_directory_lead_to_its_blob() {
    let rows = write_dir_index(&vec![blob_of("a/.AGGR/b.aggr", "f", 1, 2)]).unwrap();
    let mut source =
        LocalRepoRestoreSource::new("/repo".to_string(), AggregateLayout::DirLevel).unwrap();
    let (table, name, dir) = match source.locate("a/f") {
        Locating::QueryTable { table_path, file_name, blob_dir } => {
            (table_path, file_name, blob_dir)
        }
        _ => panic!("a table is asked"),
    };
    assert_eq!((table.as_str(), name.as_str(), dir.as_str()), (
        "/repo/a/.AGGR/AGGREGATE_IDX.sqlite",
        "f",
        "a/.AGGR",
    ));
    let row: DirIndexRow = rows.into_iter().find(|r| r.file_name == name).unwrap();
    let found = LocalRepoRestoreSource::row_found(&table, &dir, Ok(Some(row)));
    match source.read_block(block("a/f", 2), found, "a/f") {
        RepoRead::LoadBlob { path, info, block } => {
            assert_eq!(path, "/repo/a/.AGGR/b.aggr");
            match source.blob_loaded(block, info, Ok(b"xyz".to_vec()), "a/f") {
                BlockOutcome::Ready(b) => assert_eq!(b.data, b"yz".to_vec()),
                BlockOutcome::Failed { .. } => panic!("the blob holds the file"),
            }
        }
        _ => panic!("the blob is not loaded yet"),
    }
    let failed = LocalRepoRestoreSource::row_found("t", "d", Err("locked".to_string()));
    assert_eq!(failed.err().unwrap(), "query dir aggregate index t: locked");
    assert!(matches!(LocalRepoRestoreSource::row_found("t", "d", Ok(None)), Ok(None)));
}

#[test]
fn files_outside_of_blobs_are_read_on_their_own() {
    let mut source =
        LocalRepoRestoreSource::new("/repo".to_string(), AggregateLayout::Shard).unwrap();
    let waiting = match source.read_block(block("a/f", 4), Ok(None), "a/f") {
        RepoRead::ReadFile { request, block } => {
            assert_eq!((request.path.as_str(), request.offset, request.len), ("/repo/a/f", 0, 4));
            block
        }
        _ => panic!("the file has its own place"),
    };
    match LocalRepoRestoreSource::file_read(waiting, Ok(b"data".to_vec())) {
        BlockOutcome::Ready(b) => assert_eq!((b.data, b.src_offset), (b"data".to_vec(), 4)),
        BlockOutcome::Failed { .. } => panic!("the file was read"),
    }
    match LocalRepoRestoreSource::file_read(block("a/f", 4), Err("denied".to_string())) {
        BlockOutcome::Failed { block, attempts, .. } => {
            assert_eq!((block.src_path.as_str(), attempts), ("a/f", 1));
        }
        BlockOutcome::Ready(_) => panic!("the read failed"),
    }
}

#[test]
fn failures_of_the_repository_name_the_file() {
    let mut source =
        LocalRepoRestoreSource::new("/repo".to_string(), AggregateLayout::Shard).unwrap();
    assert_eq!(
        source.index_loaded(Err("gone".to_string())).err().unwrap(),
        "open aggregate index /repo/.AGGR/AGGREGATE_INDEX.bidx: IO error: gone",
    );
    assert!(source.index_loaded(Ok(Some(vec![1, 2, 3]))).is_err());
    assert!(source.index.is_none());
    assert!(source.index_loaded(Ok(None)).is_ok());
    assert!(matches!(source.locate("f"), Locating::Located(Ok(None))));
    match source.read_block(block("f", 1), Err("no index".to_string()), "f") {
        RepoRead::Done(BlockOutcome::Failed { detail, .. }) => {
            assert_eq!(detail, "lookup aggregated f: no index");
        }
        _ => panic!("the lookup failed"),
    }
    let table =
        LocalRepoRestoreSource::new("/repo".to_string(), AggregateLayout::DirLevel).unwrap();
    match table.locate("..") {
        Locating::Located(Err(m)) => assert_eq!(m, "invalid restore path .."),
        _ => panic!("a path without a name"),
    }
}

#[test]
fn every_entry_of_a_restore_is_counted_once() {
    let direct = |size: u64, link: Option<&str>| {
        CopyPlanEntry::File(FileCopyPlan::Direct {
            meta: meta(size, link),
            src_path: "s".to_string(),
            dst_path: "d".to_string(),
        })
    };
    let folder = || CopyPlanEntry::Directory {
        meta: DirMeta { common: MetaCommon::default(), path: "p".to_string() },
        dst_path: "p".to_string(),
    };
    let entries = vec![
        folder(),
        folder(),
        direct(10, None),
        direct(20, None),
        direct(40, None),
        direct(80, Some("t")),
        direct(80, Some("t")),
        CopyPlanEntry::File(FileCopyPlan::Aggregate {
            meta: meta(1, None),
            src_path: "s".to_string(),
        }),
    ];
    let ends = vec![
        RestoreEnd::Restored,
        RestoreEnd::Failed,
        RestoreEnd::Restored,
        RestoreEnd::Skipped,
        RestoreEnd::Failed,
        RestoreEnd::Restored,
        RestoreEnd::Failed,
        RestoreEnd::Restored,
    ];
    let s = run_restore_copy_pipeline(&entries, &ends);
    assert_eq!((s.files_restored, s.files_skipped, s.files_failed), (2, 1, 3));
    assert_eq!((s.bytes_restored, s.bytes_skipped, s.dirs_created), (10, 20, 1));
}

#[test]
fn steps_of_a_restore_count_as_their_ends() {
    let entry = |size: u64| {
        CopyPlanEntry::File(FileCopyPlan::Direct {
            meta: meta(size, None),
            src_path: "s".to_string(),
            dst_path: "d".to_string(),
        })
    };
    // The bytes that each read brings, and how the file ends.
    let cases = [
        (vec![4u64, 4, 2], RestoreEnd::Restored),
        (vec![4, 0], RestoreEnd::Failed),
        (vec![10], RestoreEnd::Restored),
    ];
    let mut stats = RestoreStats::default();
    for (reads, end) in &cases {
        let job = match begin_restore(entry(10), &None, &mut stats) {
            RestoreStep::RestoreFile(job) => job,
            other => panic!("{:?}", other),
        };
        assert!(!should_skip_restore(&job.meta, None, RestorePolicy::Skip, &mut stats));
        let mut step = RestoreBlockStep::Read(first_block(job));
        let mut next = reads.iter();
        let ended = loop {
            step = match step {
                RestoreBlockStep::Read(mut b) => {
                    let n = *next.next().unwrap();
                    b.data = vec![0; n as usize];
                    b.src_offset += n;
                    restore_after_read(BlockOutcome::Ready(b), &mut stats)
                }
                RestoreBlockStep::Write(mut b) => {
                    b.dst_offset += b.data.len() as u64;
                    restore_after_write(BlockOutcome::Ready(b), &mut stats)
                }
                RestoreBlockStep::Restored(_) => break RestoreEnd::Restored,
                RestoreBlockStep::Failed => break RestoreEnd::Failed,
            };
        };
        assert_eq!(ended, *end);
    }
    let entries = vec![entry(10), entry(10), entry(10)];
    let ends = cases.iter().map(|(_, end)| *end).collect();
    assert_eq!(stats, run_restore_copy_pipeline(&entries, &ends));
    assert_eq!((stats.files_restored, stats.files_failed, stats.bytes_restored), (2, 1, 20));
}

#[test]
fn streams_between_shares_count_directories_and_files() {
    let named = |path: &str, size: u64| {
        let mut fcb = FileControlBlock::from(meta(size, None));
        fcb.src_path = path.to_string();
        fcb.dst_path = path.to_string();
        ControlBlockVarient::FileControlBlock(fcb)
    };
    let folder = |path: &str| {
        let mut d = DirControlBlock::from(DirMeta {
            common: MetaCommon::default(),
            path: path.to_string(),
        });
        d.dst_path = path.to_string();
        ControlBlockVarient::DirControlBlock(d)
    };
    let plan = plan_streaming(vec![
        named("d/f", 5),
        folder("d"),
        named("d/g", 7),
        folder("e"),
    ]);
    assert_eq!((plan.dir_paths.len(), plan.file_jobs.len()), (2, 2));
    let s = run_smb_to_smb_streaming_pipeline(&plan, &vec![true, false], &vec![false, true]);
    assert_eq!((s.dirs_created, s.dirs_failed), (1, 1));
    assert_eq!((s.files_copied, s.files_failed, s.bytes_copied), (1, 1, 7));
}

#[test]
fn blobs_of_different_ids_have_different_names() {
    assert_ne!(generate_blob_name(1), generate_blob_name(11));
    assert_ne!(generate_blob_name(10), generate_blob_name(100));
}

#[test]
fn joined_names_are_the_last_component() {
    let joined = paths::join_path("/repo/a", "f.txt");
    assert_eq!(paths::file_name_of(&joined).unwrap(), "f.txt");
    assert_eq!(paths::parent_of(&joined).unwrap(), "/repo/a");
}
