use bifrost::aggregate::{should_aggregate, AggregateConfig, DirAggregateBuffer, PendingFile};

#[test]
fn test_aggregate_config_default() {
    let config = AggregateConfig::default();
    assert!(!config.enabled);
    assert_eq!(config.max_blob_size, 64 * 1024 * 1024);
    assert_eq!(config.file_threshold, 1024 * 1024);
}

#[test]
fn test_should_aggregate() {
    let config = AggregateConfig::enabled();
    assert!(should_aggregate(100, &config));
    assert!(should_aggregate(1024 * 1024 - 1, &config));
    assert!(!should_aggregate(1024 * 1024, &config));
    assert!(!should_aggregate(0, &config));
}

#[test]
fn test_dir_buffer() {
    let mut buffer = DirAggregateBuffer::new("/test".to_string(), 100);
    assert!(buffer.is_empty());

    let file = PendingFile {
        file_name: "test.txt".to_string(),
        data: vec![0u8; 50],
        ctime: 0,
        mtime: 0,
        mode: 0o644,
        xattrs: None,
        acl: None,
    };

    let should_flush = buffer.add_file(file);
    assert!(!should_flush);
    assert!(!buffer.is_empty());

    let file2 = PendingFile {
        file_name: "test2.txt".to_string(),
        data: vec![0u8; 60],
        ctime: 0,
        mtime: 0,
        mode: 0o644,
        xattrs: None,
        acl: None,
    };

    let should_flush = buffer.add_file(file2);
    assert!(should_flush);

    let files = buffer.flush();
    assert_eq!(files.len(), 2);
    assert!(buffer.is_empty());
}
