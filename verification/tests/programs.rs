use bifrost::aggregate::{AggregateConfig, AggregateLayout};
use bifrost::backup::RestorePolicy;
use bifrost::cli::{
    backup_summary, cmd_backup, cmd_restore, format_abbr, job_outcome, location_kind,
    parse_data_location, raised_file_limit, restore_summary, BackupArgs, BackupFormat,
    BackupReport, JobResult, RemoteSpec, RestoreArgs, RestoreReport, RULE,
};
use bifrost::counter::{get_status, increment};
use bifrost::failure::{FailureLogFormat, RetryPolicy};
use bifrost::location::{DataLocation, LocationKind, RemoteLocation};
use bifrost::scan::{
    parse_task_location, run_scan, run_scan_task, ProcessUser, RetryPolicySpec,
    ScanPathFilterSpec, ScanSummary, ScanTaskSpec,
};
use bifrost::server::{
    create_task_response, dispatch_rpc, enforce_limits, invalid_params, io_to_rpc,
    is_active_state, json_to_rpc, limit_to_rpc, reconcile_task_exit, run_worker, signal_target,
    signal_task, spawn_task, task_created, task_files, worker_running, worker_spawned, worker_starting,
    ManagedTask, RpcMethod, ServerConfig, TaskKind, TaskSignal, TaskState, TaskStats, TaskStatus,
    TaskTable, WorkerExit, SIGKILL, SIGTERM,
};
use bifrost::server_tasks::{
    restore_job, run_backup_task, transfer_stats, AggregateOptionsSpec, BackupTaskSpec,
    RestoreTaskSpec, DEFAULT_BUFFER_SIZE_KB, DEFAULT_JOB_COUNT, DEFAULT_NFS_CONNECTIONS,
    DEFAULT_SMB_CONNECTIONS,
};

fn server_location(uid: u32) -> RemoteLocation {
    RemoteLocation {
        url: "nfs://h/e".to_string(),
        root: "/e".to_string(),
        uid,
        gid: 0,
        connection_count: 1,
    }
}

fn args() -> BackupArgs {
    BackupArgs {
        data: "/data".to_string(),
        data_remote: RemoteSpec::NotCompiledIn,
        target: "/backup".to_string(),
        target_remote: RemoteSpec::NotCompiledIn,
        format: BackupFormat::Common,
        aggregate: false,
        incremental_base: None,
        jobs: 4,
        blob_size: 4,
        threshold: 1024,
        aggregate_layout: AggregateLayout::DirLevel,
        hardlink: true,
        delete: true,
        mtime: true,
        workers: 8,
        nfs_connections: 32,
        smb_connections: 0,
        smb_copy_tasks: 0,
        buffer_size: 1024,
        failure_log_format: Some(FailureLogFormat::Csv),
        operation_retries: 3,
        retry_delay_ms: 1000,
        retry_max_delay_ms: 500,
        nfs_uid: None,
        nfs_gid: None,
        temp_dir: None,
        verbose: 1,
    }
}

#[test]
fn locations_are_told_apart_by_their_scheme() {
    assert_eq!(location_kind("nfs://h/e"), "NFS");
    assert_eq!(location_kind("smb://h/s"), "SMB");
    assert_eq!(location_kind("smb:\\\\h\\s"), "SMB");
    assert_eq!(location_kind("/nfs://h"), "Local");

    let local =
        parse_data_location("/a".to_string(), RemoteSpec::NotCompiledIn, 1, None, None).unwrap();
    assert_eq!((local.kind(), local.base_path()), (LocationKind::Local, "/a".to_string()));
    let parsed = RemoteSpec::Parsed(Ok(server_location(7)));
    match parse_data_location("nfs://h/e".to_string(), parsed, 9, None, Some(5)).unwrap() {
        DataLocation::Nfs(l) => assert_eq!((l.uid, l.gid, l.connection_count), (7, 5, 9)),
        other => panic!("{:?}", other),
    }
    let refused =
        parse_data_location("smb://h/s".to_string(), RemoteSpec::NotCompiledIn, 1, None, None);
    assert_eq!(
        refused.unwrap_err(), "SMB support not compiled in. Rebuild with --features smb"
    );
    let bad = RemoteSpec::Parsed(Err("no host".to_string()));
    let refused = parse_data_location("nfs://".to_string(), bad, 1, None, None);
    assert_eq!(refused.unwrap_err(), "no host");
}

#[test]
fn scans_and_tasks_use_the_user_of_the_process() {
    let user = ProcessUser { uid: 1000, gid: 100 };
    let locate = |uid: u32, given: Option<u32>| {
        let parsed = RemoteSpec::Parsed(Ok(server_location(uid)));
        match parse_task_location("nfs://h/e".to_string(), parsed, 2, given, None, user).unwrap() {
            DataLocation::Nfs(l) => (l.uid, l.gid),
            other => panic!("{:?}", other),
        }
    };
    assert_eq!(locate(0, None), (1000, 100));
    assert_eq!(locate(7, None), (7, 100));
    assert_eq!(locate(0, Some(0)), (0, 100));
}

#[test]
fn common_backups_run_the_phases() {
    let job = cmd_backup(args()).unwrap();
    assert_eq!((job.format_tag.as_str(), job.type_tag.as_str()), ("COMMON", "FULL"));
    assert_eq!(job.temp_root, "/tmp/bifrost");
    assert!(job.enable_hardlink && job.enable_delete && job.enable_mtime);
    assert_eq!(job.aggregate_config, AggregateConfig::default());
    assert_eq!((job.smb_connection_count, job.copy_buffer_size), (1, 1024 * 1024));
    assert_eq!(job.retry_policy, RetryPolicy::new(3, 1000));
    assert_eq!((job.scan_config.worker_count, job.scan_config.writer_count), (8, 1));
    assert!(!job.scan_config.enable_aggregation);
}

#[test]
fn aggregated_backups_do_not() {
    let mut a = args();
    a.aggregate = true;
    a.incremental_base = Some("/old".to_string());
    a.temp_dir = Some("/t".to_string());
    let job = cmd_backup(a).unwrap();
    assert_eq!((job.format_tag.as_str(), job.type_tag.as_str()), ("AGGR", "INC"));
    assert!(!job.enable_hardlink && !job.enable_delete && !job.enable_mtime);
    let config = AggregateConfig::enabled()
        .layout(AggregateLayout::DirLevel)
        .max_blob_size(4 * 1024 * 1024)
        .file_threshold(1024 * 1024);
    assert_eq!(job.aggregate_config, config);
    assert_eq!(job.temp_root, "/t");

    let mut a = args();
    a.incremental_base = Some("/old".to_string());
    assert_eq!(
        cmd_backup(a).unwrap_err(), "Incremental backup is only supported with aggregated format"
    );
    let mut a = args();
    a.target = "nfs://h/e".to_string();
    assert_eq!(
        cmd_backup(a).unwrap_err(), "NFS support not compiled in. Rebuild with --features nfs"
    );
}

#[test]
fn restores_are_set_up_from_their_arguments() {
    let restore = |target: &str| RestoreArgs {
        copy: "/copy".to_string(),
        copy_remote: RemoteSpec::NotCompiledIn,
        target: target.to_string(),
        target_remote: RemoteSpec::NotCompiledIn,
        policy: RestorePolicy::KeepNewer,
        jobs: 2,
        paths: vec!["a/b".to_string()],
        nfs_connections: 1,
        nfs_uid: None,
        nfs_gid: None,
        temp_dir: None,
    };
    let job = cmd_restore(restore("/out")).unwrap();
    assert_eq!((job.policy, job.max_concurrent_subtasks), (RestorePolicy::KeepNewer, 2));
    assert_eq!(job.fine_grain_paths, ["a/b"]);
    assert_eq!(job.copy_source.base_path(), "/copy");
    assert!(cmd_restore(restore("smb://h/s")).is_err());
}

fn result() -> JobResult {
    JobResult {
        copy_uuid: "u".to_string(),
        copy_root: "/backup/u".to_string(),
        subtasks_ok: 2,
        subtasks_failed: 1,
        total_files: 10,
        total_dirs: 3,
        total_bytes: 4096,
    }
}

#[test]
fn summaries_list_what_was_done() {
    assert_eq!(RULE, "=".repeat(60));
    let report = |format: BackupFormat| BackupReport {
        data: "/data".to_string(),
        target: "nfs://h/e".to_string(),
        format,
        layout: AggregateLayout::Shard,
        blob_size: 4,
        threshold: 1024,
        elapsed_secs: 61,
        elapsed_millis: 7,
        file_rate: "1.50".to_string(),
        data_rate: "2.00 KiB".to_string(),
    };
    let lines = backup_summary(&report(BackupFormat::Common), &result());
    assert_eq!(
        lines,
        [
            RULE,
            "Backup Summary",
            RULE,
            "Source type : Local",
            "Target type : NFS",
            "Format      : COMMON",
            "Aggregation : disabled",
            "Source path : /data",
            "Target path : nfs://h/e",
            "Copy UUID   : u",
            "Copy root   : /backup/u",
            "Subtasks    : 2 ok, 1 failed",
            "Total files : 10",
            "Total dirs  : 3",
            "Total bytes : 4096",
            "Elapsed     : 1m 1.007s",
            "File rate   : 1.50 files/s",
            "Data rate   : 2.00 KiB/s",
        ]
    );
    let lines = backup_summary(&report(BackupFormat::Aggregated), &result());
    assert_eq!(
        lines[6..10],
        [
            "Aggregation : enabled",
            "Layout      : shard",
            "Blob size   : 4 MiB",
            "Threshold   : 1024 KiB",
        ]
    );
    let lines = restore_summary(
        &RestoreReport {
            copy: "/copy".to_string(),
            target: "/out".to_string(),
            elapsed_secs: 1,
            elapsed_millis: 0,
            file_rate: "3.00".to_string(),
        },
        &result(),
    );
    assert_eq!(lines.len(), 11);
    assert_eq!(lines[1], "Restore Summary");
    assert_eq!(lines[9], "Elapsed     : 1.000s");
    assert_eq!(format_abbr(BackupFormat::Aggregated), "AGGR");
}

#[test]
fn commands_fail_with_their_subtasks() {
    assert_eq!(job_outcome(0), Ok(()));
    assert_eq!(job_outcome(3), Err("3 subtask(s) failed".to_string()));
    assert_eq!(raised_file_limit(1024, 4096), Some(4096));
    assert_eq!(raised_file_limit(4096, 4096), None);
}

fn scan_spec(source: &str) -> ScanTaskSpec {
    ScanTaskSpec {
        source: source.to_string(),
        ctrl_dir: "/c".to_string(),
        meta_dir: "/m".to_string(),
        temp_dir: "/t".to_string(),
        workers: 2,
        writers: 1,
        follow_symlinks: false,
        scan_hidden: true,
        max_depth: Some(3),
        scan_acl: true,
        scan_xattrs: false,
        scan_hardlinks: true,
        skip_block_devices: true,
        skip: vec!["x".to_string()],
        filters: ScanPathFilterSpec::default(),
        prev_meta_dir: None,
        shard: true,
        shard_num: 4,
        shard_max_entries_copy: None,
        shard_max_entries_other: Some(5),
        shard_max_size: None,
        smb_query_buffer_mb: 8,
        nfs_connections: 1,
        nfs_uid: None,
        nfs_gid: None,
        stats_only: false,
        failure_log_format: Some(FailureLogFormat::Json),
        retry: RetryPolicySpec::default(),
        verbose: 0,
    }
}

#[test]
fn scans_are_set_up_from_their_request() {
    let user = ProcessUser { uid: 1, gid: 1 };
    let (at, option) =
        run_scan_task(scan_spec("/src"), RemoteSpec::NotCompiledIn, user).unwrap();
    assert_eq!(at.base_path(), "/src");
    assert_eq!(option.smb_query_buffer_size, 8 * 1024 * 1024);
    let log = option.failure_log.unwrap();
    assert_eq!(log.path, "/c/SCAN_FAILURE.json");
    assert_eq!((option.shard_num, option.shard_max_entries_other), (4, Some(5)));
    assert_eq!(option.retry_policy, RetryPolicy::default());
    let mut big = scan_spec("/src");
    big.smb_query_buffer_mb = 5000;
    let (_, option) = run_scan_task(big, RemoteSpec::NotCompiledIn, user).unwrap();
    assert_eq!(option.smb_query_buffer_size, u32::MAX);
    assert!(run_scan_task(scan_spec("nfs://h/e"), RemoteSpec::NotCompiledIn, user).is_err());
}

#[test]
fn only_directories_are_scanned() {
    assert_eq!(run_scan("Source", "/d", true, true), Ok(()));
    assert_eq!(
        run_scan("Source", "/d", false, false),
        Err("Source path does not exist: /d".to_string())
    );
    assert_eq!(
        run_scan("Source", "/d", true, false),
        Err("Source path is not a directory: /d".to_string())
    );
    let mut sum = ScanSummary::default();
    sum.add_source(ScanSummary { total_files: 2, total_dirs: 1, total_size_bytes: 10 });
    sum.add_source(ScanSummary { total_files: 3, total_dirs: 1, total_size_bytes: 20 });
    assert_eq!((sum.total_files, sum.total_dirs, sum.total_size_bytes), (5, 2, 30));
    assert_eq!(
        sum.print_summary("Total: ", "0.00", 2, 30), "Total: 5 files, 2 dirs, 0.00 MB, elapsed 2.030s"
    );
}

fn task(uuid: &str, kind: TaskKind, created: &str) -> TaskStatus {
    task_created(uuid.to_string(), kind, created.to_string())
}

fn in_state(kind: TaskKind, state: TaskState) -> TaskStatus {
    let mut t = task("t", kind, "1");
    t.state = state;
    t
}

#[test]
fn tasks_live_through_their_states() {
    let t = task("u", TaskKind::Backup, "1");
    assert_eq!((t.state, t.message.as_deref()), (TaskState::Created, Some("task created")));
    let t = worker_spawned(t, Some(7), "2".to_string());
    assert_eq!((t.state, t.pid, t.started_at.as_deref()), (TaskState::Starting, Some(7), Some("2")));
    let t = worker_running(t);
    assert_eq!(t.state, TaskState::Running);
    let failed = run_worker(t.clone(), Err("broken".to_string()), "3".to_string());
    assert_eq!((failed.state, failed.exit_code), (TaskState::Failed, Some(1)));
    assert_eq!(failed.message.as_deref(), Some("broken"));
    let done = run_worker(t, Ok(TaskStats::Nothing), "3".to_string());
    assert_eq!((done.state, done.exit_code), (TaskState::Completed, Some(0)));
    let w = worker_starting("u".to_string(), TaskKind::Scan, 9, "4".to_string());
    assert_eq!((w.pid, w.created_at.as_str(), w.state), (Some(9), "4", TaskState::Starting));
    for (state, active) in [
        (TaskState::Created, true),
        (TaskState::Starting, true),
        (TaskState::Running, true),
        (TaskState::Stopping, true),
        (TaskState::Stopped, false),
        (TaskState::Completed, false),
        (TaskState::Failed, false),
        (TaskState::Killed, false),
    ] {
        assert_eq!(is_active_state(state), active);
    }
}

#[test]
fn the_end_of_a_worker_is_noted_once() {
    let running = || in_state(TaskKind::Scan, TaskState::Running);
    let exit = |code: Option<i32>, signal: Option<i32>, success: bool| WorkerExit::Exited {
        code,
        signal,
        success,
        status: "exit status: 3".to_string(),
    };
    let end = |e: WorkerExit| {
        let (t, changed) = reconcile_task_exit(running(), None, e, "9".to_string());
        assert!(changed);
        (t.state, t.message.unwrap())
    };
    assert_eq!(
        end(exit(None, Some(libc::SIGKILL), false)),
        (TaskState::Killed, "worker exited by signal 9".to_string())
    );
    assert_eq!(
        end(exit(None, Some(libc::SIGTERM), false)),
        (TaskState::Stopped, "worker exited by signal 15".to_string())
    );
    assert_eq!(
        end(exit(Some(0), None, true)),
        (TaskState::Completed, "worker exited successfully".to_string())
    );
    assert_eq!(
        end(exit(Some(3), None, false)),
        (TaskState::Failed, "worker exited with status exit status: 3".to_string())
    );
    assert_eq!(
        end(WorkerExit::WaitFailed("lost".to_string())),
        (TaskState::Failed, "failed waiting for worker: lost".to_string())
    );
    assert_eq!((SIGKILL, SIGTERM), (libc::SIGKILL, libc::SIGTERM));

    let done = in_state(TaskKind::Scan, TaskState::Completed);
    let (t, changed) =
        reconcile_task_exit(running(), Some(done), exit(Some(3), None, false), "9".to_string());
    assert!(!changed);
    assert_eq!((t.state, t.finished_at), (TaskState::Completed, None));
}

#[test]
fn limits_count_scans_and_transfers_apart() {
    let config = ServerConfig::new("/run".to_string(), 0, 2);
    assert_eq!((config.max_scanners_count, config.max_subtasks_count), (1, 2));
    let tasks = vec![
        in_state(TaskKind::Scan, TaskState::Completed),
        in_state(TaskKind::Backup, TaskState::Running),
        in_state(TaskKind::Restore, TaskState::Stopping),
    ];
    assert_eq!(enforce_limits(&config, &tasks, TaskKind::Scan), Ok(()));
    assert_eq!(
        enforce_limits(&config, &tasks, TaskKind::Restore),
        Err("subtask limit reached: 2/2".to_string())
    );
    let tasks = vec![in_state(TaskKind::Scan, TaskState::Created)];
    assert_eq!(
        enforce_limits(&config, &tasks, TaskKind::Scan),
        Err("scanner limit reached: 1/1".to_string())
    );
}

#[test]
fn admitted_tasks_get_an_identifier_and_files() {
    let config = ServerConfig::new("/run".to_string(), 1, 1);
    let first = spawn_task(&config, &Vec::new(), TaskKind::Backup).unwrap();
    let second = spawn_task(&config, &Vec::new(), TaskKind::Backup).unwrap();
    let id = first.status.uuid.clone();
    assert_eq!((id.len(), id.matches('-').count()), (36, 4));
    assert_ne!(id, second.status.uuid);
    assert_eq!(first.files.status_file, format!("/run/{}/status.json", id));
    assert_eq!((first.status.state, first.status.pid), (TaskState::Created, None));
    assert!(first.status.created_at.contains('T'));
    let error = spawn_task(&config, &vec![first.status], TaskKind::Restore).err().unwrap();
    assert_eq!((error.code, error.message.as_str()), (-32001, "subtask limit reached: 1/1"));
}

#[test]
fn requests_name_their_method() {
    let pairs = [
        ("task.create_scan", RpcMethod::CreateScan),
        ("task.create_backup", RpcMethod::CreateBackup),
        ("task.create_restore", RpcMethod::CreateRestore),
        ("task.stop", RpcMethod::Stop),
        ("task.kill", RpcMethod::Kill),
        ("task.get", RpcMethod::Get),
        ("task.list", RpcMethod::List),
        ("task.all", RpcMethod::List),
    ];
    for (name, method) in pairs {
        assert_eq!(dispatch_rpc(name).unwrap(), method);
    }
    let e = dispatch_rpc("task.x").unwrap_err();
    assert_eq!((e.code, e.message.as_str()), (-32601, "unknown method: task.x"));
    assert_eq!(io_to_rpc("m".to_string()).code, -32000);
    assert_eq!(json_to_rpc("m".to_string()).code, -32603);
    assert_eq!(limit_to_rpc("m".to_string()).code, -32001);
    let e = invalid_params("no id");
    assert_eq!((e.code, e.message.as_str()), (-32602, "invalid params: no id"));
    let r = create_task_response(&task("u", TaskKind::Scan, "1"));
    assert_eq!((r.status_url.as_str(), r.logs_url.as_str()), ("/tasks/u/status", "/tasks/u/logs"));
    let f = task_files("/run", "u");
    assert_eq!(
        (f.request_file.as_str(), f.status_file.as_str(), f.log_file.as_str()),
        ("/run/u/request.json", "/run/u/status.json", "/run/u/worker.log")
    );
}

#[test]
fn the_table_keeps_one_task_per_identifier() {
    let managed = |id: &str, created: &str| ManagedTask {
        id: id.to_string(),
        status: task(id, TaskKind::Scan, created),
        status_file: format!("/run/{}/status.json", id),
        log_file: format!("/run/{}/worker.log", id),
    };
    let mut table = TaskTable::new();
    table.insert(managed("b", "2"));
    table.insert(managed("a", "3"));
    table.insert(managed("c", "1"));
    table.insert(managed("a", "0"));
    let order: Vec<String> =
        table.list_task_snapshots().into_iter().map(|t| t.uuid).collect();
    assert_eq!(order, ["a", "c", "b"]);
    assert_eq!(table.get_task_logs("b").unwrap(), "/run/b/worker.log");
    assert_eq!(table.get_task_snapshot("x").unwrap_err(), "task not found: x");
    table.set_status("b", in_state(TaskKind::Scan, TaskState::Running)).unwrap();
    assert_eq!(table.get_task_snapshot("b").unwrap().state, TaskState::Running);
    assert!(table.set_status("x", task("x", TaskKind::Scan, "1")).is_err());
    assert_eq!(table.refresh("b", None), Ok(()));
    assert_eq!(table.refresh("b", Some(Err("bad json".to_string()))), Err("bad json".to_string()));
    let latest = in_state(TaskKind::Scan, TaskState::Failed);
    assert_eq!(table.refresh("b", Some(Ok(latest))), Ok(()));
    assert_eq!(table.get_task_snapshot("b").unwrap().state, TaskState::Failed);
    assert_eq!(table.get_task_snapshot("c").unwrap().state, TaskState::Created);
}

#[test]
fn signals_reach_live_workers() {
    let mut t = task("u", TaskKind::Scan, "1");
    assert_eq!(signal_target(None, "u").unwrap_err().code, -32004);
    assert_eq!(signal_target(Some(&t), "u").unwrap_err().code, -32005);
    t.pid = Some(42);
    assert_eq!(signal_target(Some(&t), "u").unwrap(), 42);
    assert_eq!(TaskSignal::Stop.number(), libc::SIGTERM);
    assert_eq!(TaskSignal::Kill.number(), libc::SIGKILL);
    let stopped = signal_task(t.clone(), "u", TaskSignal::Stop, Ok(()), "5".to_string()).unwrap();
    assert_eq!((stopped.state, stopped.finished_at), (TaskState::Stopping, None));
    let killed = signal_task(t.clone(), "u", TaskSignal::Kill, Ok(()), "5".to_string()).unwrap();
    assert_eq!((killed.state, killed.finished_at.as_deref()), (TaskState::Killed, Some("5")));
    let exit = || WorkerExit::Exited {
        code: None,
        signal: Some(libc::SIGTERM),
        success: false,
        status: "signal: 15".to_string(),
    };
    let (over, changed) = reconcile_task_exit(killed, None, exit(), "6".to_string());
    assert_eq!((over.state, over.finished_at.as_deref(), changed), (
        TaskState::Killed,
        Some("5"),
        false,
    ));
    let stopping = signal_task(t.clone(), "u", TaskSignal::Stop, Ok(()), "5".to_string()).unwrap();
    let (over, changed) = reconcile_task_exit(stopping, None, exit(), "6".to_string());
    assert_eq!((over.state, over.finished_at.as_deref(), changed), (
        TaskState::Stopped,
        Some("6"),
        true,
    ));
    let failed = Err("gone".to_string());
    let e = signal_task(t, "u", TaskSignal::Stop, failed, "5".to_string()).unwrap_err();
    assert_eq!((e.code, e.message.as_str()), (-32007, "failed to signal task u: gone"));
}

#[test]
fn task_requests_become_jobs() {
    let user = ProcessUser { uid: 1, gid: 1 };
    let spec = |format: BackupFormat, aggregate: AggregateOptionsSpec| BackupTaskSpec {
        source: "/s".to_string(),
        target: "/t".to_string(),
        format,
        incremental_base: None,
        temp_dir: "/tmp/fpt".to_string(),
        scan_workers: 8,
        scan_writers: 1,
        jobs: DEFAULT_JOB_COUNT,
        aggregate,
        hardlink: true,
        delete: false,
        mtime: true,
        scan_filters: ScanPathFilterSpec::default(),
        nfs_connections: DEFAULT_NFS_CONNECTIONS,
        nfs_uid: None,
        nfs_gid: None,
        smb_connections: DEFAULT_SMB_CONNECTIONS,
        smb_copy_tasks: 0,
        buffer_size_kb: DEFAULT_BUFFER_SIZE_KB,
        failure_log_format: None,
        retry: RetryPolicySpec::default(),
        verbose: 0,
    };
    let run = |s: BackupTaskSpec| {
        run_backup_task(s, RemoteSpec::NotCompiledIn, RemoteSpec::NotCompiledIn, user).unwrap().0
    };
    let job = run(spec(BackupFormat::Common, AggregateOptionsSpec::default()));
    assert!(job.enable_hardlink && !job.enable_delete && job.enable_mtime);
    assert_eq!((job.max_concurrent_subtasks, job.smb_connection_count), (4, 4));
    assert_eq!(job.aggregate_config, AggregateConfig::default());
    let mut options = AggregateOptionsSpec::default();
    options.enabled = true;
    let job = run(spec(BackupFormat::Common, options));
    assert!(!job.enable_hardlink && !job.enable_mtime);
    assert_eq!(job.aggregate_config, AggregateConfig::enabled());
    assert_eq!(job.format_tag, "COMMON");

    let restore = RestoreTaskSpec {
        copy_source: "/c".to_string(),
        target: "/t".to_string(),
        policy: RestorePolicy::Skip,
        temp_dir: "/tmp".to_string(),
        jobs: 1,
        paths: Vec::new(),
        nfs_connections: 1,
        nfs_uid: None,
        nfs_gid: None,
        verbose: 0,
    };
    let job =
        restore_job(restore, RemoteSpec::NotCompiledIn, RemoteSpec::NotCompiledIn, user).unwrap();
    assert_eq!((job.policy, job.temp_root.as_str()), (RestorePolicy::Skip, "/tmp"));
    assert_eq!(
        transfer_stats(&result()),
        TaskStats::Transfer {
            files: 10,
            dirs: 3,
            bytes: 4096,
            files_failed: 0,
            dirs_failed: 0,
            subtasks_ok: 2,
            subtasks_failed: 1,
        }
    );
}

#[test]
fn the_counter_counts() {
    let mut counter = 5u32;
    assert_eq!(increment(&mut counter, 3), 8);
    assert_eq!(counter, 8);
    assert_eq!(get_status(counter).counter, 8);
}
