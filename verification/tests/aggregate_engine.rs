use bifrost::aggregate::{
    generate_blob_name, AggregateBlobMeta, AggregateConfig, AggregateFileEntry, AggregateLayout,
    PendingFile, SnowflakeIdGenerator, ThreadSafeSnowflake, BIFROST_EPOCH, MAX_SEQUENCE,
};
use bifrost::aggregate_dir_index::{read_dir_index, write_dir_index};
use bifrost::aggregate_engine::{
    aggregate_dir_for, assemble_blob, fcb_to_pending_file, fnv_hash_of, parent_dir_of,
    shard_index_path_of, shard_name, AggregateBackupEngine, AggregateBackupState,
    AggregateEngineError, IndexWrite,
};
use bifrost::aggregate_index::{AggregateIndex, AggregateIndexError, BINARY_INDEX_FILE_NAME};
use bifrost::aggregate_local::LocalAggregateState;
use bifrost::aggregate_restore::{
    slice_blob, AggregateRestoreEngine, AggregateRestoreError, BlobRead,
};
use bifrost::aggregation::{
    finish_block, synthetic_block, AggregatingTarget, FinishedIndex, TargetStep,
};
use bifrost::fcb::FileControlBlock;
use bifrost::metadata::FileMeta;

fn pending(name: &str, data: &[u8]) -> PendingFile {
    PendingFile {
        file_name: name.to_string(),
        data: data.to_vec(),
        ctime: 1,
        mtime: 2,
        mode: 0o644,
        xattrs: None,
        acl: None,
    }
}

fn entry(path: &str, offset: u64, size: u64) -> AggregateFileEntry {
    AggregateFileEntry {
        relative_path: path.to_string(),
        offset,
        size,
        ctime: 1,
        mtime: 2,
        mode: 0o644,
        xattrs: Some("user.a=Yg==".to_string()),
        acl: None,
    }
}

fn blob(path: &str, files: Vec<AggregateFileEntry>) -> AggregateBlobMeta {
    AggregateBlobMeta {
        blob_path: path.to_string(),
        blob_size: files.iter().map(|f| f.size).sum(),
        file_count: files.len() as u32,
        shard_id: 0,
        files,
    }
}

#[test]
fn binary_index_roundtrip() {
    let path = BINARY_INDEX_FILE_NAME;
    let mut index = AggregateIndex::open(path, None).unwrap();
    index
        .add_blob(&AggregateBlobMeta {
            blob_path: ".AGGR/shard-000/blob-1.blob".to_string(),
            blob_size: 7,
            file_count: 1,
            shard_id: 0,
            files: vec![AggregateFileEntry {
                relative_path: "a/b/f1".to_string(),
                offset: 3,
                size: 4,
                ctime: 1,
                mtime: 2,
                mode: 0o644,
                xattrs: None,
                acl: None,
            }],
        })
        .unwrap();
    let written = index.flush().unwrap();
    drop(index);

    let reopened = AggregateIndex::open(path, Some(written)).unwrap();
    let info = reopened.query_file("a/b/f1").unwrap().unwrap();
    assert_eq!(info.blob_path, ".AGGR/shard-000/blob-1.blob");
    assert_eq!(info.offset, 3);
    assert_eq!(info.size, 4);
    assert!(reopened.is_aggregated("a/b/f1").unwrap());
}

#[test]
fn index_keeps_every_field_over_a_reopening() {
    let mut index = AggregateIndex::open("i", None).unwrap();
    index.add_blob(&blob("b1", vec![entry("x", 0, 5), entry("y", 5, 7)])).unwrap();
    index.add_blob(&blob("b2", vec![entry("z", 0, 9)])).unwrap();
    let bytes = index.flush().unwrap();
    let again = AggregateIndex::open("i", Some(bytes)).unwrap();
    for name in ["x", "y", "z"] {
        let a = index.query_file(name).unwrap().unwrap();
        let b = again.query_file(name).unwrap().unwrap();
        assert_eq!(
            (a.blob_path, a.offset, a.size, a.mtime, a.mode, a.xattrs, a.acl),
            (b.blob_path, b.offset, b.size, b.mtime, b.mode, b.xattrs, b.acl)
        );
    }
    let stats = again.get_stats().unwrap();
    assert_eq!((stats.total_files, stats.total_blobs, stats.total_size), (3, 2, 21));
}

#[test]
fn index_takes_the_newest_blob_of_a_file() {
    let mut index = AggregateIndex::open("i", None).unwrap();
    index.add_blob(&blob("b1", vec![entry("x", 0, 5), entry("y", 5, 7)])).unwrap();
    index.add_blob(&blob("b2", vec![entry("x", 3, 9)])).unwrap();
    let x = index.query_file("x").unwrap().unwrap();
    assert_eq!((x.blob_path.as_str(), x.offset, x.size), ("b2", 3, 9));
    let y = index.query_file("y").unwrap().unwrap();
    assert_eq!((y.blob_path.as_str(), y.offset, y.size), ("b1", 5, 7));
    assert!(index.query_file("missing").unwrap().is_none());
    assert!(!index.is_aggregated("missing").unwrap());
}

#[test]
fn blobs_can_be_listed_and_forgotten() {
    let mut index = AggregateIndex::open("i", None).unwrap();
    index.add_blob(&blob("b1", vec![entry("late", 5, 7), entry("early", 0, 5)])).unwrap();
    index.add_blob(&blob("b2", vec![entry("z", 0, 9)])).unwrap();
    let files = index.get_blob_files("b1").unwrap();
    let mut names: Vec<&str> = files.iter().map(|f| f.relative_path.as_str()).collect();
    names.sort();
    assert_eq!(names, ["early", "late"]);
    assert_eq!(index.delete_blob_entries("b1").unwrap(), 2);
    assert_eq!(index.delete_blob_entries("b1").unwrap(), 0);
    assert!(!index.is_aggregated("early").unwrap());
    assert!(index.is_aggregated("z").unwrap());
}

#[test]
fn contents_that_are_no_index_are_refused() {
    let err = AggregateIndex::open("/repo/i", Some(b"not an index".to_vec())).err().unwrap();
    assert!(matches!(err, AggregateIndexError::Other(_)));
    let mut bytes = AggregateIndex::open("i", None).unwrap().flush().unwrap();
    assert!(AggregateIndex::open("i", Some(bytes.clone())).is_ok());
    bytes.pop();
    assert!(AggregateIndex::open("i", Some(bytes)).is_err());

    let config = AggregateConfig::enabled().layout(AggregateLayout::Shard);
    let engine = AggregateBackupEngine::new(
        config, "/src".to_string(), "/dst".to_string(), Some(b"??".to_vec()), 1,
    );
    assert!(matches!(engine.err().unwrap(), AggregateEngineError::Index(_)));
}

#[test]
fn identifiers_hold_time_process_and_sequence() {
    let mut ids = SnowflakeIdGenerator::new(1025);
    let id = ids.next_id(5).unwrap();
    assert_eq!(id, (5 << 23) | (1 << 12));
    assert_eq!((id >> 23, (id >> 12) & 0x3FF, id & 0xFFF), (5, 1, 0));
    assert_eq!(ids.next_id(5).unwrap(), id + 1);
    assert_eq!(ids.next_id(4), None);
    assert_eq!(ids.last_timestamp(), 5);
    let next = ids.next_id(6).unwrap();
    assert!(next > id + 1);
    assert_eq!(next & 0xFFF, 0);
    assert_eq!(ids.current_timestamp(BIFROST_EPOCH + 7), 7);
    assert_eq!(ids.current_timestamp(BIFROST_EPOCH - 7), 0);
}

#[test]
fn a_used_up_millisecond_gives_no_identifier() {
    let mut ids = SnowflakeIdGenerator::new(3);
    let mut last = 0;
    for n in 0..=MAX_SEQUENCE as u64 {
        let id = ids.next_id(9).unwrap();
        assert_eq!(id & 0xFFF, n);
        assert!(id > last);
        last = id;
    }
    assert_eq!(ids.next_id(9), None);
    assert!(ids.next_id(10).unwrap() > last);
}

#[test]
fn blob_names_are_numbered() {
    assert_eq!(generate_blob_name(7), generate_blob_name(7));
    assert_ne!(generate_blob_name(7), generate_blob_name(8));
    let mut shared = ThreadSafeSnowflake::new(0);
    assert_eq!(shared.generate_blob_name(1).unwrap(), generate_blob_name(1 << 23));
    assert!(shared.generate_blob_name(0).is_none());
}

#[test]
fn buckets_of_the_directory_layout_are_directories() {
    assert_eq!(parent_dir_of("a/b/f"), "a/b");
    assert_eq!(parent_dir_of("f"), "");
    assert_eq!(aggregate_dir_for(""), ".AGGR");
    assert_eq!(aggregate_dir_for("a/b"), "a/b/.AGGR");
    assert_eq!(shard_index_path_of("/dst"), format!("/dst/.AGGR/{}", BINARY_INDEX_FILE_NAME));
}

fn reference_hash(s: &str) -> u64 {
    let mut hash: u64 = 1469598103934665603;
    for b in s.as_bytes() {
        hash ^= *b as u64;
        hash = hash.wrapping_mul(1099511628211);
    }
    hash
}

#[test]
fn shards_are_chosen_by_hash() {
    for s in ["", "a", "dir/file.txt", "größe/日本"] {
        assert_eq!(fnv_hash_of(s), reference_hash(s));
    }
    assert_eq!(shard_name(7), "shard-007");
    assert_eq!(shard_name(1234), "shard-1234");

    let config = AggregateConfig::enabled()
        .layout(AggregateLayout::Shard)
        .max_blob_size(100)
        .shard_count(8);
    let engine =
        AggregateBackupEngine::new(config, "/src".to_string(), "/dst".to_string(), None, 1)
            .unwrap();
    assert_eq!(engine.bucket_key_for_relative_path("a/f", 99), "shard-000");
    let want = reference_hash("a/f") % 4;
    assert_eq!(engine.bucket_key_for_relative_path("a/f", 399), shard_name(want));
    let want = reference_hash("a/f") % 8;
    assert_eq!(engine.bucket_key_for_relative_path("a/f", 100_000), shard_name(want));
}

#[test]
fn blobs_give_back_their_files() {
    let files = vec![pending("a", b"hello"), pending("b", b""), pending("c", b"world!")];
    let want: Vec<Vec<u8>> = files.iter().map(|f| f.data.clone()).collect();
    let (data, entries) = assemble_blob(files);
    assert_eq!(data, b"helloworld!");
    for (e, w) in entries.iter().zip(want) {
        assert_eq!(slice_blob(&data, e.offset, e.size).unwrap(), w);
    }
    assert_eq!(entries[2].offset, 5);
    assert!(matches!(slice_blob(&data, 5, 7), Err(AggregateRestoreError::Other(_))));
}

#[test]
fn shard_engine_indexes_what_it_wrote() {
    let config = AggregateConfig::enabled().layout(AggregateLayout::Shard);
    let mut engine =
        AggregateBackupEngine::new(config, "/src".to_string(), "/dst".to_string(), None, 1)
            .unwrap();
    assert_eq!(engine.relative_path_for_source("/src/a/f"), "a/f");
    assert_eq!(engine.relative_path_for_source("/other/f"), "/other/f");
    assert!(engine.should_aggregate(5));
    assert!(!engine.should_aggregate(0));

    let plan = engine.create_blob(
        "shard-003",
        vec![pending("a/f", b"abc"), pending("a/g", b"de")],
        "one.blob",
    );
    assert_eq!(plan.dir, "/dst/.AGGR/shard-003");
    assert_eq!(plan.path, "/dst/.AGGR/shard-003/one.blob");
    assert_eq!(plan.meta.blob_path, ".AGGR/shard-003/one.blob");
    assert_eq!((plan.meta.shard_id, plan.meta.file_count, plan.meta.blob_size), (3, 2, 5));
    assert_eq!(plan.data, b"abcde");
    let data = plan.data;
    engine.commit_blob("shard-003", plan.meta);
    let stats = engine.stats();
    assert_eq!((stats.blobs_created, stats.files_aggregated, stats.blob_bytes), (1, 2, 5));
    assert_eq!((stats.original_bytes, stats.active_shards), (5, 1));

    let writes = engine.flush_all_indexes().unwrap();
    assert_eq!(writes.len(), 1);
    let bytes = match &writes[0] {
        IndexWrite::Binary { path, bytes } => {
            assert_eq!(path, &format!("/dst/.AGGR/{}", BINARY_INDEX_FILE_NAME));
            bytes.clone()
        }
        IndexWrite::Table { .. } => panic!("a table"),
    };
    let index = AggregateIndex::open("i", Some(bytes)).unwrap();
    let g = index.query_file("a/g").unwrap().unwrap();
    assert_eq!(g.blob_path, ".AGGR/shard-003/one.blob");
    assert_eq!(slice_blob(&data, g.offset, g.size).unwrap(), b"de");
}

#[test]
fn directory_engine_writes_one_table_per_directory() {
    let config = AggregateConfig::enabled().layout(AggregateLayout::DirLevel);
    let mut engine =
        AggregateBackupEngine::new(config, "/src".to_string(), "/dst".to_string(), None, 1)
            .unwrap();
    for (dir, name) in [("a", "a/f"), ("b", "b/f"), ("a", "a/g")] {
        let plan = engine.create_blob(dir, vec![pending(name, b"xyz")], "n.blob");
        assert_eq!(plan.meta.blob_path, format!("{}/.AGGR/n.blob", dir));
        assert_eq!(plan.meta.shard_id, 0);
        engine.commit_blob(dir, plan.meta);
    }
    assert_eq!(engine.stats().active_shards, 2);
    let mut tables: Vec<(String, usize)> = Vec::new();
    for write in engine.flush_all_indexes().unwrap() {
        match write {
            IndexWrite::Table { path, rows } => tables.push((path, rows.len())),
            IndexWrite::Binary { .. } => panic!("an index"),
        }
    }
    tables.sort();
    assert_eq!(
        tables,
        [
            ("/dst/a/.AGGR/AGGREGATE_IDX.sqlite".to_string(), 2),
            ("/dst/b/.AGGR/AGGREGATE_IDX.sqlite".to_string(), 1)
        ]
    );
}

#[test]
fn directory_rows_keep_what_a_restore_needs() {
    let blobs = vec![blob("a/.AGGR/n.blob", vec![entry("a/f", 3, 4)])];
    let mut rows = write_dir_index(&blobs).unwrap();
    assert_eq!(rows.len(), 1);
    let row = rows.pop().unwrap();
    assert_eq!((row.file_name.as_str(), row.blob_name.as_str()), ("f", "n.blob"));
    let info = read_dir_index(Some(row), "a/.AGGR").unwrap();
    assert_eq!(info.blob_path, "a/.AGGR/n.blob");
    assert_eq!((info.offset, info.size, info.mtime, info.mode), (3, 4, 2, 0o644));
    assert!(read_dir_index(None, "a/.AGGR").is_none());
}

fn engine(layout: AggregateLayout, max_blob_size: u64) -> AggregateBackupEngine {
    let config = AggregateConfig::enabled().layout(layout).max_blob_size(max_blob_size);
    AggregateBackupEngine::new(config, "/src".to_string(), "/dst".to_string(), None, 1).unwrap()
}

#[test]
fn full_buckets_are_handed_out() {
    let mut state = AggregateBackupState::new(engine(AggregateLayout::DirLevel, 10));
    assert!(state.add_file("a/f", pending("a/f", b"12345")).is_none());
    assert!(state.add_file("b/f", pending("b/f", b"12345")).is_none());
    let (key, files) = state.add_file("a/g", pending("a/g", b"67890")).unwrap();
    assert_eq!(key, "a");
    assert_eq!(files.iter().map(|f| f.file_name.as_str()).collect::<Vec<_>>(), ["a/f", "a/g"]);
    let rest = state.flush_all();
    assert_eq!(rest.len(), 1);
    assert_eq!((rest[0].0.as_str(), rest[0].1.len()), ("b", 1));
    assert!(state.flush_all().is_empty());
}

#[test]
fn every_file_of_a_run_comes_out_once() {
    let mut state = LocalAggregateState::new(engine(AggregateLayout::DirLevel, 10));
    let mut out: Vec<String> = Vec::new();
    let mut added: Vec<String> = Vec::new();
    for n in 0u64..25 {
        let path = format!("d{}/f{}", n % 3, n);
        let mut meta = FileMeta::default();
        meta.size = n % 7;
        let file =
            state.pending_file_for_source(path.clone(), format!("/src/{}", path), &meta);
        added.push(path.clone());
        if let Some((_, group)) = state.add_file(&path, file) {
            assert!(!group.is_empty());
            out.extend(group.into_iter().map(|f| f.relative_path));
        }
    }
    for (_, group) in state.flush_all() {
        assert!(!group.is_empty());
        out.extend(group.into_iter().map(|f| f.relative_path));
    }
    out.sort();
    added.sort();
    assert_eq!(out, added);
    assert!(state.flush_all().is_empty());

    let mut state = AggregateBackupState::new(engine(AggregateLayout::DirLevel, 4));
    let mut count = 0;
    for n in 0..7 {
        let path = format!("d{}/f{}", n % 2, n);
        count += state.add_file(&path, pending(&path, b"ab")).map_or(0, |(_, g)| g.len());
    }
    count += state.flush_all().iter().map(|(_, g)| g.len()).sum::<usize>();
    assert_eq!(count, 7);
}

#[test]
fn blobs_are_found_behind_later_ones() {
    let mut engine = engine(AggregateLayout::Shard, 10);
    let plan = engine.create_blob(
        "shard-001",
        vec![pending("a/f", b"abc"), pending("a/g", b"de"), pending("a/h", b"")],
        "one.blob",
    );
    engine.commit_blob("shard-001", plan.meta);
    for name in ["b/f", "c/f"] {
        let later = engine.create_blob("shard-002", vec![pending(name, b"xyz")], "two.blob");
        engine.commit_blob("shard-002", later.meta);
    }
    let bytes = match engine.flush_all_indexes().unwrap().pop().unwrap() {
        IndexWrite::Binary { bytes, .. } => bytes,
        IndexWrite::Table { .. } => panic!("a table"),
    };
    let index = AggregateIndex::open("i", Some(bytes)).unwrap();
    for (path, offset, size) in [("a/f", 0, 3), ("a/g", 3, 2), ("a/h", 5, 0)] {
        let found = index.query_file(path).unwrap().unwrap();
        assert_eq!(found.blob_path, ".AGGR/shard-001/one.blob");
        assert_eq!((found.offset, found.size), (offset, size));
    }
}

#[test]
fn names_of_one_generator_differ() {
    let mut generator = ThreadSafeSnowflake::new(7);
    let mut names: Vec<String> = Vec::new();
    for time in [0, 0, 1, 1, 1, 5, 3, 5, 9] {
        match generator.generate_blob_name(time) {
            Some(name) => names.push(name),
            None => assert_eq!(time, 3),
        }
    }
    assert_eq!(names.len(), 8);
    for pair in names.windows(2) {
        assert!(pair[0] < pair[1]);
    }
    for name in &names {
        let (digits, tail) = name.split_at(16);
        assert!(digits.chars().all(|c| c.is_ascii_digit() || ('a'..='f').contains(&c)));
        assert_eq!(tail, ".bifrost.blob");
    }
}

#[test]
fn committed_blobs_are_counted_once() {
    let mut engine = engine(AggregateLayout::Shard, 100);
    for n in 1..4u64 {
        let before = engine.stats();
        let files: Vec<PendingFile> =
            (0..n).map(|i| pending(&format!("{}/{}", n, i), b"abc")).collect();
        let plan = engine.create_blob("shard-000", files, "b.blob");
        engine.commit_blob("shard-000", plan.meta);
        let after = engine.stats();
        assert_eq!(after.blobs_created, before.blobs_created + 1);
        assert_eq!(after.files_aggregated, before.files_aggregated + n);
        assert_eq!(after.blob_bytes, before.blob_bytes + 3 * n);
        assert_eq!(after.original_bytes, before.original_bytes + 3 * n);
        assert_eq!(after.files_normal, before.files_normal);
    }
}

#[test]
fn records_that_do_not_decode_are_named() {
    let open = |payload: &[u8]| {
        let bytes = [&b"BAGG0002"[..], payload].concat();
        match AggregateIndex::open("i", Some(bytes)) {
            Err(AggregateIndexError::Other(m)) => m,
            _ => panic!("an error was expected"),
        }
    };
    let short = "decode aggregate index: io error: failed to fill whole buffer";
    assert_eq!(open(&[]), short);
    let mut record = vec![1, 0, 0, 0, 0, 0, 0, 0, 1, 0, 0, 0, 0, 0, 0, 0, b'a'];
    assert_eq!(open(&record), short);
    record.extend([9, 0, 0, 0, 0, 0, 0, 0, b'b']);
    assert_eq!(open(&record), short);
    record.truncate(17);
    record.extend([1, 0, 0, 0, 0, 0, 0, 0, b'b']);
    record.extend([0; 28]);
    record.push(7);
    assert_eq!(open(&record), "decode aggregate index: tag for enum is not valid, found 7");
}

#[test]
fn blob_names_sort_as_their_numbers() {
    let numbers = [0, 1, 9, 10, 15, 16, 255, 256, 0xABCDEF, u64::MAX - 1, u64::MAX];
    for pair in numbers.windows(2) {
        assert!(generate_blob_name(pair[0]) < generate_blob_name(pair[1]));
    }
}

#[test]
fn local_files_wait_by_their_size() {
    let mut state = LocalAggregateState::new(engine(AggregateLayout::DirLevel, 10));
    let mut meta = FileMeta::default();
    meta.size = 6;
    meta.common.mode = 0o600;
    meta.common.mtime = 12;
    let one = state.pending_file_for_source("a/f".to_string(), "/src/a/f".to_string(), &meta);
    assert_eq!((one.relative_path.as_str(), one.source_path.as_str()), ("a/f", "/src/a/f"));
    assert_eq!((one.size, one.mode, one.mtime), (6, 0o600, 12));
    assert!(state.add_file("a/f", one).is_none());
    let two = state.pending_file_for_source("a/g".to_string(), "/src/a/g".to_string(), &meta);
    let (key, files) = state.add_file("a/g", two).unwrap();
    assert_eq!((key.as_str(), files.len()), ("a", 2));
}

#[test]
fn a_control_block_becomes_a_pending_file() {
    let mut meta = FileMeta::default();
    meta.common.mode = 0o640;
    meta.common.mtime = 4;
    meta.common.posix_access_acl = Some("user::rw-".to_string());
    let mut fcb = FileControlBlock::from(meta);
    fcb.dst_path = "d\\e/f".to_string();
    fcb.buffer = b"abcdef".to_vec();
    fcb.buffer_len = 3;
    let file = fcb_to_pending_file(&fcb);
    assert_eq!((file.file_name.as_str(), file.data.as_slice()), ("d/e/f", b"abc".as_slice()));
    assert_eq!((file.mode, file.mtime, file.acl.as_deref()), (0o640, 4, Some("user::rw-")));
}

#[test]
fn restore_engine_loads_each_blob_once() {
    let mut engine = AggregateRestoreEngine::new("/repo".to_string()).unwrap();
    match engine.read_from_blob(".AGGR/s/one.blob", 1, 2) {
        BlobRead::Load(path) => assert_eq!(path, "/repo/.AGGR/s/one.blob"),
        BlobRead::Ready(_) => panic!("not loaded yet"),
    }
    let got = engine.complete_read(".AGGR/s/one.blob", b"abcdef".to_vec(), 1, 2).unwrap();
    assert_eq!(got, b"bc");
    match engine.read_from_blob(".AGGR/s/one.blob", 4, 2) {
        BlobRead::Ready(Ok(data)) => assert_eq!(data, b"ef"),
        _ => panic!("loaded before"),
    }
    match engine.read_from_blob(".AGGR/s/one.blob", 4, 3) {
        BlobRead::Ready(Err(AggregateRestoreError::Other(_))) => {}
        _ => panic!("beyond the blob"),
    }
    let stats = engine.stats();
    assert_eq!((stats.blobs_read, stats.cache_misses, stats.cache_hits), (1, 1, 2));
}

#[test]
fn remote_targets_collect_small_files() {
    let config = AggregateConfig::enabled().layout(AggregateLayout::DirLevel).max_blob_size(6);
    let mut target = AggregatingTarget::with_repo_prefix(config, "repo".to_string());
    let small = |name: &str| {
        let mut b = synthetic_block(name.to_string(), b"abc".to_vec(), 0, 3, 0o644);
        b.is_last = true;
        b
    };
    match target.write_block(small("repo/d/f")) {
        TargetStep::Collected(b) => assert_eq!(b.dst_path, "repo/d/f"),
        _ => panic!("the bucket has room"),
    }
    match target.write_block(small("repo/d/g")) {
        TargetStep::WriteBlob { bucket, files, block } => {
            assert_eq!(files.len(), 2);
            let plan = target.write_blob(&bucket, files, "one.blob");
            assert_eq!(plan.block.data, b"abcabc");
            assert_eq!(plan.meta.file_count, 2);
            let done = target.blob_was_written(block, plan.meta, Ok(())).unwrap();
            assert_eq!(done.dst_offset, 3);
        }
        _ => panic!("the bucket is full"),
    }
    assert!(target.finish().is_empty());
    match target.finish_index().unwrap() {
        FinishedIndex::Tables(tables) => {
            assert_eq!(tables.len(), 1);
            assert_eq!(tables[0].blobs.len(), 1);
            assert_eq!(tables[0].path, "repo/d/.AGGR/AGGREGATE_IDX.sqlite");
        }
        FinishedIndex::Binary(_) => panic!("one index"),
    }
}

#[test]
fn a_blob_that_fails_gives_the_block_back() {
    let config = AggregateConfig::enabled().layout(AggregateLayout::Shard).max_blob_size(3);
    let mut target = AggregatingTarget::new(config);
    let block = synthetic_block("f".to_string(), b"abc".to_vec(), 0, 3, 0o644);
    match target.write_block(block) {
        TargetStep::WriteBlob { bucket, files, block } => {
            let plan = target.write_blob(&bucket, files, "one.blob");
            assert_eq!(plan.block.src_offset, 3);
            assert_eq!(plan.block.meta.common.name, "one.blob");
            let (back, error) =
                target.blob_was_written(block, plan.meta, Err("disk full".to_string())).unwrap_err();
            assert_eq!((back.dst_offset, error.as_str()), (0, "disk full"));
        }
        _ => panic!("the bucket is full"),
    }
    assert!(target.blobs.is_empty());
    assert_eq!(finish_block(synthetic_block("g".to_string(), vec![1], 0, 1, 0)).dst_offset, 1);
}

#[test]
fn the_index_of_a_remote_target_finds_its_files() {
    let config = AggregateConfig::enabled().layout(AggregateLayout::Shard);
    let mut target = AggregatingTarget::with_repo_prefix(config, "repo".to_string());
    assert!(target.flush_shard_index().unwrap().is_none());
    target.blob_written(blob(".AGGR/shard-000/b.aggr", vec![entry("a/f", 4, 6)]));
    let (dir, fcb) = target.flush_shard_index().unwrap().unwrap();
    assert_eq!(dir, "repo/.AGGR");
    assert_eq!(fcb.dst_path, "repo/.AGGR/AGGREGATE_INDEX.bidx");
    assert_eq!((fcb.meta.common.ctime, fcb.meta.common.mtime, fcb.meta.links), (0, 0, 0));
    match target.finish_index().unwrap() {
        FinishedIndex::Binary(Some((dir, same))) => {
            assert_eq!((dir.as_str(), &same.buffer), ("repo/.AGGR", &fcb.buffer));
        }
        _ => panic!("one index was expected"),
    }
    let index = AggregateIndex::open("i", Some(fcb.buffer)).unwrap();
    let info = index.query_file("a/f").unwrap().unwrap();
    assert_eq!((info.blob_path.as_str(), info.offset, info.size), (
        ".AGGR/shard-000/b.aggr",
        4,
        6,
    ));
}
