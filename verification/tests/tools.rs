use bifrost::delete::{DeleteEntry, DeleteEntryType};
use bifrost::fsdiff::{
    calculate_checksum, compare_directories, compare_entry, hex_of, relative_entry_path, FileInfo,
    FileTable, Verdict,
};
use bifrost::hardlink::{HardlinkEntry, HardlinkFileEntry, HardlinkInodeEntry};
use bifrost::inspect::{
    detect_by_name, detect_input_kind, inspect_control_file, inspect_kind_name,
    inspect_meta_file, read_dcache_entries, read_fcache_entries, resolve_format, resolve_input,
    ControlFileKind, InspectInputKind, MetaEnd, OutputFormat,
};
use bifrost::inspect_files::{
    inspect_copy_control, inspect_dcache_file, inspect_delete_control, inspect_fcache_file,
    inspect_hardlink_control, inspect_mtime_control,
};
use bifrost::inspect_table::{
    control_tab_columns, group_by_record_type, group_columns, join_logical_path,
    record_from_copy_dir, record_from_copy_file, record_from_dcache, record_from_delete,
    record_from_dir_meta, record_from_fcache, record_from_file_meta, record_from_inode,
    record_from_link, record_from_mtime, sanitize_tab_value, union_columns, write_csv, write_tab,
    InspectRecord, MtimeRecord,
};
use bifrost::metadata::{ControlEntry, DirEntry, DirMeta, EntryDiff, FileEntry, FileMeta, MetaCommon};
use bifrost::text::{blank, first_word_of, trim};
use bifrost::vdbench::{
    confirm_generation, dir_name, estimate_total, expand, file_name, file_seed, fill_random_data,
    parse_size, progress_line, report_step, size_in_bytes, split_size, splitmix64,
    unit_multiplier, Opts, ReportStep, WorkItem,
};

#[test]
fn blanks_are_those_of_the_standard_library() {
    for n in 0..=0x10ffffu32 {
        if let Some(c) = char::from_u32(n) {
            assert_eq!(blank(c), c.is_whitespace(), "{:x}", n);
        }
    }
    for s in ["", " ", "a", " a ", "\t a b \n", "\u{a0}x\u{3000}", "a\u{200b}", "  \u{85}"] {
        assert_eq!(trim(s), s.trim());
        assert_eq!(first_word_of(s), s.split_whitespace().next().unwrap_or_default());
    }
}

// ---------------------------------------------------------------------------
// Comparing trees
// ---------------------------------------------------------------------------

#[test]
fn checksums_are_those_of_sha_256() {
    assert_eq!(
        calculate_checksum(b"hello world"),
        "b94d27b9934d3e08a52e52d7da7dabfac484efe37a5380ee9088f7ace2efcde9"
    );
    assert_eq!(
        calculate_checksum(b""),
        "e3b0c44298fc1c149afbf4c8996fb92427ae41e4649b934ca495991b7852b855"
    );
    assert_eq!(hex_of(&vec![0, 9, 10, 255]), "00090aff");
}

fn regular(size: u64, checksum: &str) -> FileInfo {
    FileInfo {
        path: "/p".to_string(),
        size,
        checksum: Some(checksum.to_string()),
        is_symlink: false,
        symlink_target: None,
    }
}

fn symlink(target: &str) -> FileInfo {
    FileInfo {
        path: "/p".to_string(),
        size: 3,
        checksum: None,
        is_symlink: true,
        symlink_target: Some(target.to_string()),
    }
}

#[test]
fn entries_are_compared_by_what_they_are() {
    let cases = [
        (regular(1, "a"), regular(1, "a"), Verdict::Identical),
        (regular(1, "a"), regular(2, "a"), Verdict::SizeMismatch),
        (regular(1, "a"), regular(1, "b"), Verdict::ChecksumMismatch),
        (regular(1, "a"), symlink("x"), Verdict::SymlinkMismatch),
        (symlink("x"), symlink("y"), Verdict::SymlinkMismatch),
        (symlink("x/y"), symlink("x//y"), Verdict::Identical),
    ];
    for (a, b, want) in cases {
        assert_eq!(compare_entry(&a, Some(&b)), want);
        assert_eq!(compare_entry(&b, Some(&a)), want);
        assert_eq!(compare_entry(&a, None), Verdict::SourceOnly);
    }
}

fn tree(entries: Vec<(&str, FileInfo)>) -> FileTable {
    let mut t = FileTable::new();
    for (path, info) in entries {
        t.insert(path.to_string(), info);
    }
    t
}

#[test]
fn trees_are_compared_entry_by_entry() {
    let source = tree(vec![
        ("same", regular(1, "a")),
        ("only", regular(1, "a")),
        ("size", regular(1, "a")),
        ("sum", regular(1, "a")),
        ("link", symlink("x")),
        ("same", regular(2, "b")),
    ]);
    let target = tree(vec![
        ("extra", regular(1, "a")),
        ("same", regular(2, "b")),
        ("size", regular(5, "a")),
        ("sum", regular(1, "c")),
        ("link", symlink("y")),
    ]);
    assert_eq!(source.get("same").unwrap().size, 2);
    assert!(source.get("none").is_none());
    let report = compare_directories(&source, &target);
    assert!(report.has_differences());
    assert_eq!(report.source_only, ["only"]);
    assert_eq!(report.target_only, ["extra"]);
    assert_eq!(report.size_mismatch, [("size".to_string(), 1, 5)]);
    assert_eq!(report.checksum_mismatch, ["sum"]);
    assert_eq!(
        report.symlink_mismatch,
        [("link".to_string(), Some("x".to_string()), Some("y".to_string()))]
    );
    assert_eq!(report.identical, ["same"]);
    assert_eq!(
        report.print_details(),
        [
            "",
            "--- Files only in source ---",
            "  + only",
            "",
            "--- Files only in target ---",
            "  - extra",
            "",
            "--- Files with size mismatch ---",
            "  ! size (source: 1 bytes, target: 5 bytes)",
            "",
            "--- Files with checksum mismatch ---",
            "  ! sum",
            "",
            "--- Files with symlink mismatch ---",
            "  ! link\n      source -> Some(\"x\")\n      target -> Some(\"y\")",
            "",
            "--- Identical files (1) ---",
            "  = same",
        ]
    );
    assert_eq!(report.print_summary()[9], "Result: DIFFERENCES FOUND");

    let odd = tree(vec![("link", symlink("an \"x\"\n"))]);
    let mut bare = symlink("");
    bare.symlink_target = None;
    let report = compare_directories(&odd, &tree(vec![("link", bare)]));
    assert_eq!(
        report.print_details()[2],
        "  ! link\n      source -> Some(\"an \\\"x\\\"\\n\")\n      target -> None"
    );

    let itself = compare_directories(&source, &source);
    assert!(!itself.has_differences());
    assert_eq!(itself.identical.len(), 5);
    let lines = itself.print_summary();
    assert_eq!(lines[7], "Identical files:           5");
    assert_eq!(lines[9], "Result: DIRECTORIES ARE IDENTICAL");
}

#[test]
fn prefixes_are_stripped_as_text() {
    assert_eq!(relative_entry_path("/b", "/b/x/y", None), "x/y");
    assert_eq!(relative_entry_path("/b", "/b/x/y", Some("x")), "y");
    assert_eq!(relative_entry_path("/b", "/b/xz/y", Some("x")), "z/y");
    assert_eq!(relative_entry_path("/b", "/b/x/y", Some("q")), "x/y");
    assert_eq!(relative_entry_path("/b", "/c/y", None), "/c/y");
}

// ---------------------------------------------------------------------------
// Generating trees
// ---------------------------------------------------------------------------

fn opts() -> Opts {
    Opts {
        depth: 2,
        files: 3,
        dirs: 2,
        size: 20,
        dir_prefix: "d".to_string(),
        file_prefix: "f".to_string(),
        level_names: false,
        index_base: 1,
        seed: 0xB1F0_5715_DA7A_5EED,
    }
}

#[test]
fn sizes_are_taken_apart() {
    assert_eq!(split_size("10MB"), ("10".to_string(), "MB".to_string()));
    let parts = parse_size(" 1.5 kb ");
    assert_eq!((parts.number.as_str(), parts.multiplier.clone()), ("1.5", Ok(1024)));
    assert_eq!(size_in_bytes(parts, Some(1536)), Ok(1536));
    for (unit, bytes) in [
        ("", 1u64),
        ("b", 1),
        ("k", 1 << 10),
        ("M", 1 << 20),
        ("gb", 1 << 30),
        ("T", 1 << 40),
    ] {
        assert_eq!(parse_size(&format!("7{}", unit)).multiplier, Ok(bytes));
    }
    let parts = parse_size("5 parsecs");
    assert_eq!(size_in_bytes(parts, Some(5)), Err("Unknown unit:  PARSECS".to_string()));
    let parts = parse_size("x");
    assert_eq!(size_in_bytes(parts, None), Err("Invalid number: ".to_string()));
    assert_eq!(unit_multiplier("Q"), Err("Unknown unit: Q".to_string()));
    assert_eq!(parse_size("1straße").multiplier, Err("Unknown unit: STRASSE".to_string()));
}

#[test]
fn estimates_are_what_is_created() {
    for depth in 0..4u32 {
        for dirs in 0..4u32 {
            let mut o = opts();
            o.depth = depth;
            o.dirs = dirs;
            let mut queue =
                vec![WorkItem { path: "/r".to_string(), current_depth: 0, indexes: Vec::new() }];
            let (mut made_dirs, mut made_files) = (0u64, 0u64);
            while let Some(work) = queue.pop() {
                let e = expand(&o, &work);
                made_dirs += e.dirs.len() as u64;
                made_files += e.files.len() as u64;
                queue.extend(e.dirs);
            }
            assert_eq!(estimate_total(&o), (made_dirs, made_files, made_files * 20));
        }
    }
    assert_eq!(estimate_total(&opts()), (6, 9, 180));
}

#[test]
fn names_follow_the_options() {
    let mut o = opts();
    assert_eq!(dir_name(&o, &vec![1, 2], 2), "d2");
    o.level_names = true;
    o.dir_prefix = "vdb.".to_string();
    o.file_prefix = "file.".to_string();
    assert_eq!(dir_name(&o, &vec![1, 2, 3], 3), "vdb.1.2.3");
    assert_eq!(file_name(&o, 4), "file.4");
    let root = WorkItem { path: "/r".to_string(), current_depth: 0, indexes: vec![] };
    let e = expand(&o, &root);
    let dirs: Vec<&str> = e.dirs.iter().map(|d| d.path.as_str()).collect();
    assert_eq!(dirs, ["/r/vdb.1", "/r/vdb.2"]);
    let files: Vec<&str> = e.files.iter().map(|f| f.path.as_str()).collect();
    assert_eq!(files, ["/r/file.1", "/r/file.2", "/r/file.3"]);
    assert_eq!(e.files[0].seed, file_seed(&o, &vec![], 1));
}

fn reference_mix(mut x: u64) -> u64 {
    x = x.wrapping_add(0x9E37_79B9_7F4A_7C15);
    let mut z = x;
    z = (z ^ (z >> 30)).wrapping_mul(0xBF58_476D_1CE4_E5B9);
    z = (z ^ (z >> 27)).wrapping_mul(0x94D0_49BB_1331_11EB);
    z ^ (z >> 31)
}

#[test]
fn content_is_reproducible() {
    assert_eq!(splitmix64(0), 0xE220_A839_7B1D_CDAF);
    for x in [1u64, 0xB1F0_5715_DA7A_5EED, u64::MAX] {
        assert_eq!(splitmix64(x), reference_mix(x));
    }
    let o = opts();
    let mut seed = o.seed ^ 9;
    for (level, index) in [4u32, 5, 6].iter().enumerate() {
        seed ^= ((*index as u64) << (level % 24)) ^ ((level as u64 + 1) * 0x9E37_79B9);
        seed = reference_mix(seed);
    }
    assert_eq!(file_seed(&o, &vec![4, 5, 6], 9), seed);

    let long = fill_random_data(100, 42);
    assert_eq!(long.len(), 100);
    assert_eq!(long[..8], reference_mix(42).to_le_bytes());
    assert_eq!(long[8..16], reference_mix(reference_mix(42)).to_le_bytes());
    for n in 0..100 {
        assert_eq!(fill_random_data(n, 42), long[..n]);
    }
}

#[test]
fn progress_is_reported() {
    assert!(matches!(report_step(10, 10, 3, 0), ReportStep::Finish));
    assert!(matches!(report_step(5, 10, 3, 0), ReportStep::Report));
    assert!(matches!(report_step(3, 10, 3, 5), ReportStep::Report));
    assert!(matches!(report_step(3, 10, 3, 4), ReportStep::Wait));
    assert_eq!(
        progress_line(7, 12, 345, "1.00 KB"),
        "[Progress] Elapsed:   7s | Dirs:     12 | Files:     345 | Size: 1.00 KB"
    );
    assert!(confirm_generation(" YES\n") && confirm_generation("y") && confirm_generation("Yes"));
    assert!(!confirm_generation("") && !confirm_generation("no") && !confirm_generation("ye s"));
}

// ---------------------------------------------------------------------------
// Looking into files
// ---------------------------------------------------------------------------

#[test]
fn formats_and_inputs_are_resolved() {
    let tab = OutputFormat::Tab;
    assert_eq!(resolve_format(true, true, true, tab), OutputFormat::Json);
    assert_eq!(resolve_format(false, true, false, tab), OutputFormat::Csv);
    assert_eq!(resolve_format(false, false, true, OutputFormat::Csv), OutputFormat::Tab);
    assert_eq!(resolve_format(false, false, false, OutputFormat::Csv), OutputFormat::Csv);
    let some = |s: &str| Some(s.to_string());
    let i = resolve_input(None, some("d"), None, None, some("x")).unwrap();
    assert_eq!((i.path.as_str(), i.kind), ("d", Some(InspectInputKind::Dcache)));
    let i = resolve_input(None, None, None, None, some("x")).unwrap();
    assert_eq!(i.kind, None);
    assert!(resolve_input(None, None, None, None, None).is_err());
}

#[test]
fn kinds_are_detected() {
    assert_eq!(detect_by_name("/m/meta_0_0.dat"), Some(InspectInputKind::Meta));
    assert_eq!(detect_by_name("dcache_0.dat"), Some(InspectInputKind::Dcache));
    assert_eq!(detect_by_name("fcache_0.dat"), Some(InspectInputKind::Fcache));
    assert_eq!(detect_by_name("copy_1.control.bin"), Some(InspectInputKind::Control));
    assert_eq!(detect_by_name("x"), None);
    let detect = |name: &str, prefix: &[u8], len: u64| {
        detect_input_kind(name, &prefix.to_vec(), len)
    };
    assert_eq!(detect("x", b"#FPT_BACKUP", 100).unwrap(), InspectInputKind::Control);
    assert_eq!(detect("my_dcache", &[9; 32], 64).unwrap(), InspectInputKind::Dcache);
    assert_eq!(detect("my_fcache", &[9; 32], 60).unwrap(), InspectInputKind::Fcache);
    assert_eq!(detect("x", &[1; 32], 33).unwrap(), InspectInputKind::Meta);
    assert_eq!(detect("x", &[2; 32], 33).unwrap(), InspectInputKind::Meta);
    assert_eq!(
        detect("x", &[9; 32], 33).unwrap_err(),
        "cannot detect file type for x; use --meta/--dcache/--fcache/--control"
    );
    assert_eq!(detect("x", &[], 0).unwrap_err(), "cannot detect empty file type for x");
    assert_eq!(detect("/m/meta_0_0.dat", &[], 0).unwrap(), InspectInputKind::Meta);
    assert_eq!(detect("dcache_0.dat", b"#FPT_", 5).unwrap(), InspectInputKind::Dcache);
    assert_eq!(inspect_kind_name(InspectInputKind::Fcache), "fcache");
    assert_eq!(
        inspect_control_file("#FPT_MTIME_CTRL_FILE V1\n", "c").unwrap(), ControlFileKind::Mtime
    );
    assert_eq!(
        inspect_control_file(" #FPT_BACKUP_CTRL_FILE", "c").unwrap(), ControlFileKind::Copy
    );
    assert_eq!(
        inspect_control_file("#FPT_DELETE_CTRL_FILE", "c").unwrap(), ControlFileKind::Delete
    );
    assert_eq!(
        inspect_control_file("#FPT_HARDLINK_CTRL_FILE", "c").unwrap(), ControlFileKind::Hardlink
    );
    assert_eq!(
        inspect_control_file("#X y", "c").unwrap_err(), "unsupported control file magic #X in c"
    );
}

#[test]
fn cache_entries_are_read() {
    let mut data: Vec<u8> = Vec::new();
    data.extend(7u64.to_le_bytes());
    for n in [0xABCDu32, 2, 3, 4, 5, 6] {
        data.extend(n.to_le_bytes());
    }
    data.extend([1, 2, 3]);
    let dirs = read_dcache_entries(&data);
    assert_eq!(dirs.len(), 1);
    let d = &dirs[0];
    assert_eq!((d.id, d.hash, d.meta_loc), (7, 0xABCD, (2, 3)));
    assert_eq!((d.files_count, d.fcache_fid, d.fcache_offset), (4, 5, 6));
    let files = read_fcache_entries(&data);
    assert_eq!(files.len(), 1);
    assert_eq!((files[0].id, files[0].hash, files[0].meta_loc), (7, 0xABCD, (2, 3)));
    assert!(read_fcache_entries(&data[..19].to_vec()).is_empty());
    let r = record_from_dcache(d);
    assert_eq!((r.value("hash"), r.value("files_count")), ("0000ABCD".to_string(), "4".to_string()));
    assert_eq!(record_from_fcache(&files[0]).value("meta_offset"), "3");
    let shown = inspect_dcache_file(&data);
    assert_eq!((shown.len(), shown[0].value("fcache_fid")), (1, "5".to_string()));
    let shown = inspect_fcache_file(&data);
    assert_eq!((shown.len(), shown[0].value("hash")), (1, "0000ABCD".to_string()));
}

#[test]
fn control_entries_are_shown_up_to_an_error() {
    let dir = |path: &str| {
        Ok(ControlEntry::Dir(DirEntry {
            path: path.to_string(),
            diff: EntryDiff::New,
            meta_fid: 1,
            meta_offset: 2,
            files_count: 3,
        }))
    };
    let file = |name: &str| {
        Ok(ControlEntry::File(FileEntry {
            name: name.to_string(),
            diff: EntryDiff::Unchanged,
            meta_fid: 1,
            meta_offset: 2,
        }))
    };
    let paths = |records: Vec<InspectRecord>| -> Vec<String> {
        records.iter().map(|r| r.value("path")).collect()
    };
    let shown = inspect_copy_control(vec![file("a"), dir("/d"), file("b"), dir("/e/"), file("c")]);
    assert_eq!(paths(shown.unwrap()), ["/a", "/d", "/d/b", "/e/", "/e/c"]);
    let broken = inspect_copy_control(vec![
        dir("/d"),
        Err("first".to_string()),
        file("b"),
        Err("second".to_string()),
    ]);
    assert_eq!(broken.unwrap_err(), "first");
    let delete = |path: &str| {
        Ok(DeleteEntry { path: path.to_string(), entry_type: DeleteEntryType::File })
    };
    assert_eq!(paths(inspect_delete_control(vec![delete("/x"), delete("/y")]).unwrap()), ["/x", "/y"]);
    assert_eq!(inspect_delete_control(vec![Err("e".to_string())]).unwrap_err(), "e");
    let times = MtimeRecord { path: "/t".to_string(), mode: 0, uid: 0, gid: 0, atime: 1, mtime: 2 };
    assert_eq!(paths(inspect_mtime_control(vec![Ok(times)]).unwrap()), ["/t"]);
    assert_eq!(inspect_mtime_control(vec![Err("e".to_string())]).unwrap_err(), "e");
    let inode = HardlinkEntry::Inode(HardlinkInodeEntry { inode: 5, device: 6, link_count: 2 });
    let link = HardlinkEntry::File(HardlinkFileEntry {
        meta_fid: 1,
        meta_offset: 2,
        path: "/l".to_string(),
        meta_found: false,
    });
    let shown = inspect_hardlink_control(vec![Ok(inode), Ok(link)]).unwrap();
    assert_eq!((shown[0].value("inode"), shown[1].value("path")), ("5".to_string(), "/l".to_string()));
    assert_eq!(inspect_hardlink_control(vec![Err("e".to_string())]).unwrap_err(), "e");
}

fn frame(tag: u8, payload: &[u8]) -> Vec<u8> {
    let mut f = vec![tag];
    f.extend((payload.len() as u32).to_le_bytes());
    f.extend(payload);
    f
}

#[test]
fn stored_records_are_read_back() {
    let mut data = frame(1, b"dir");
    data.extend(frame(2, b""));
    let (frames, end) = inspect_meta_file(&data);
    assert!(matches!(end, MetaEnd::Clean));
    assert_eq!(frames.len(), 2);
    assert!(frames[0].is_dir && !frames[1].is_dir);
    assert_eq!(frames[0].payload, b"dir");
    for cut in 1..data.len() {
        let (_, end) = inspect_meta_file(&data[..cut].to_vec());
        assert_eq!(matches!(end, MetaEnd::Clean), cut == 8);
    }
    data.extend(frame(3, b"?"));
    let (frames, end) = inspect_meta_file(&data);
    assert!(matches!(end, MetaEnd::UnknownTag(3)));
    assert_eq!(frames.len(), 2);
    assert!(matches!(inspect_meta_file(&vec![1, 2]).1, MetaEnd::Truncated));
}

#[test]
fn records_show_their_fields() {
    let mut common = MetaCommon::default();
    common.name = "n".to_string();
    common.mode = 0o755;
    let d = record_from_dir_meta(&DirMeta { common, path: "/p".to_string() });
    assert_eq!((d.value("kind"), d.value("record_type")), ("meta".to_string(), "dir_meta".to_string()));
    assert_eq!((d.value("mode"), d.value("path")), ("755".to_string(), "/p".to_string()));
    assert_eq!(d.value("none"), "");
    let mut f = FileMeta::default();
    f.size = 9;
    f.links = 2;
    let f = record_from_file_meta(&f);
    assert_eq!((f.value("size"), f.value("link_count")), ("9".to_string(), "2".to_string()));
    let m = record_from_mtime(&MtimeRecord {
        path: "/d".to_string(),
        mode: 0o700,
        uid: 1,
        gid: 2,
        atime: 3,
        mtime: 4,
    });
    assert_eq!((m.value("mode"), m.value("mtime")), ("700".to_string(), "4".to_string()));
    let i = record_from_inode(&HardlinkInodeEntry { inode: 5, device: 6, link_count: 7 });
    assert_eq!((i.value("inode"), i.value("type")), ("5".to_string(), "INODE".to_string()));
    let l = record_from_link(&HardlinkFileEntry {
        meta_fid: 1,
        meta_offset: 2,
        path: "/l".to_string(),
        meta_found: true,
    });
    assert_eq!((l.value("path"), l.value("record_type")), ("/l".to_string(), "hardlink_file".to_string()));
    let x = record_from_delete(&DeleteEntry {
        path: "/x".to_string(),
        entry_type: DeleteEntryType::Dir,
    });
    assert_eq!((x.value("type"), x.value("record_type")), ("DIR".to_string(), "delete_dir".to_string()));
    assert_eq!(join_logical_path("/", "f"), "/f");
    assert_eq!(join_logical_path("/a//", "f"), "/a/f");
    assert_eq!(sanitize_tab_value("a\tb\r\nc"), "a\\tb\\r\\nc");
}

fn copy_records() -> Vec<InspectRecord> {
    let dir = DirEntry {
        path: "/d".to_string(),
        diff: EntryDiff::New,
        meta_fid: 1,
        meta_offset: 2,
        files_count: 3,
    };
    let file = FileEntry {
        name: "f,\"x\"".to_string(),
        diff: EntryDiff::Modified,
        meta_fid: 1,
        meta_offset: 20,
    };
    vec![record_from_copy_dir(&dir), record_from_copy_file(Some("/d"), &file)]
}

#[test]
fn control_files_are_shown_in_one_table() {
    let records = copy_records();
    assert_eq!(
        control_tab_columns(&records),
        ["type", "path", "diff", "meta_fid", "meta_offset", "files_count"]
    );
    assert_eq!(
        write_tab("c", InspectInputKind::Control, &records),
        [
            "Input        : c",
            "Detected type: control",
            "Records      : 2",
            "",
            "type  path      diff      meta_fid  meta_offset  files_count",
            "----  --------  --------  --------  -----------  -----------",
            "DIR   /d        New       1         2            3          ",
            "FILE  /d/f,\"x\"  Modified  1         20           N/A        ",
        ]
    );
}

#[test]
fn other_files_are_shown_by_type() {
    let records = vec![
        InspectRecord::new("b", "y").with_u64("n", 1),
        InspectRecord::new("a", "z").with_string("s", "v").with_u32("k", 2),
        InspectRecord::new("b", "y").with_string("m", "w"),
    ];
    let groups = group_by_record_type(&records);
    let sizes: Vec<(String, usize)> =
        groups.iter().map(|g| (g.kind.clone(), g.records.len())).collect();
    assert_eq!(sizes, [("a".to_string(), 1), ("b".to_string(), 2)]);
    assert_eq!(group_columns(&records), ["k", "m", "n", "s"]);
    assert_eq!(
        write_tab("f", InspectInputKind::Meta, &records)[3..],
        [
            "", "[a:z]", "k  s", "-  -", "2  v", "", "[b:y]", "m  n", "-  -", "   1", "w   ",
        ]
    );
}

#[test]
fn csv_output_has_all_columns() {
    let records = copy_records();
    let columns = union_columns(&records);
    assert_eq!(
        columns,
        ["kind", "record_type", "diff", "files_count", "meta_fid", "meta_offset", "path", "type"]
    );
    assert_eq!(
        String::from_utf8(write_csv(&columns, &records).unwrap()).unwrap(),
        "kind,record_type,diff,files_count,meta_fid,meta_offset,path,type\n\
         control,copy_dir,New,3,1,2,/d,DIR\n\
         control,copy_file,Modified,N/A,1,20,\"/d/f,\"\"x\"\"\",FILE\n"
    );
}
