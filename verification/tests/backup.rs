use bifrost::aggregate::AggregateConfig;
use bifrost::backup::{
    plan_restore_phase, run_restore_copy_phase, BackupError,
    BackupOption, BackupTask, ControlKind, Destination, RestoreAction, RestoreError,
    RestoreOption, RestorePolicy, RestoreStats, RestoreTask,
};
use bifrost::failure::{FailureLogConfig, FailureLogFormat, RetryPolicy};
use bifrost::location::{DataLocation, LocationKind, RemoteLocation};
use bifrost::orchestrator::{
    connect_error, run_backup, run_copy_for_source_target, run_post_copy_phases, select_route,
    smb_pool_size, BackupPipelineParams, BackupSource, BackupTarget, CopyRoute, Phase, PhaseFlags,
};

fn remote() -> RemoteLocation {
    RemoteLocation {
        url: "nfs://h/e".to_string(),
        root: "/e".to_string(),
        uid: 0,
        gid: 0,
        connection_count: 4,
    }
}

fn local(path: &str) -> DataLocation {
    DataLocation::Local(path.to_string())
}

fn option(source: DataLocation, target: DataLocation) -> BackupOption {
    BackupOption::new(
        source, target, "/m".to_string(), "/c".to_string(), "/c/copy.txt".to_string(),
    )
}

#[test]
fn phases_run_in_a_fixed_order() {
    let all = PhaseFlags { hardlink: true, delete: true, mtime: true };
    assert_eq!(run_post_copy_phases(all), [Phase::Hardlink, Phase::Delete, Phase::Mtime]);
    let one = PhaseFlags { hardlink: false, delete: true, mtime: false };
    assert_eq!(run_post_copy_phases(one), [Phase::Delete]);
}

#[test]
fn routes_exist_between_all_but_local_pairs() {
    let kinds = [LocationKind::Local, LocationKind::Nfs, LocationKind::Smb];
    let mut labels: Vec<&str> = Vec::new();
    for s in kinds {
        for t in kinds {
            match select_route(s, t) {
                Some(r) => labels.push(r.label()),
                None => assert!(s == LocationKind::Local && t == LocationKind::Local),
            }
        }
    }
    assert_eq!(labels.len(), 8);
    labels.sort();
    labels.dedup();
    assert_eq!(labels.len(), 8);
    assert_eq!(smb_pool_size(0), 1);
    assert_eq!(smb_pool_size(5), 5);
}

#[test]
fn backups_are_planned_from_their_options() {
    let plan = BackupTask::from(
        option(local("/s"), local("/t"))
            .enable_hardlink_phase(true)
            .enable_delete_phase(true)
            .enable_mtime_phase(false)
            .aggregate_max_blob_size(10)
            .aggregate_file_threshold(5)
            .copy_buffer_size(1)
            .retry_policy(RetryPolicy::new(1, 2))
            .failure_log(Some(FailureLogConfig::new("/f.csv".to_string(), FailureLogFormat::Csv))),
    )
    .start()
    .unwrap();
    assert!(!plan.complete());
    assert_eq!(plan.stats().files_copied, 0);
    assert!(plan.hardlink_stats().is_none());
    assert!(plan.delete_stats().is_none() && plan.mtime_stats().is_none());
    let plan = plan.plan;
    assert!(plan.route.is_none());
    assert_eq!((plan.source_dir_base.as_str(), plan.meta_dir.as_str()), ("/s", "/m"));
    assert!(matches!(plan.destination, Destination::Dir(d) if d == "/t"));
    assert_eq!((plan.aggregate_config.max_blob_size, plan.aggregate_config.file_threshold), (10, 5));
    assert_eq!(plan.retry_policy, RetryPolicy::new(1, 2));
    assert_eq!(plan.failure_log.unwrap().path, "/f.csv");
    assert!(plan.phase_flags.hardlink && plan.phase_flags.delete && !plan.phase_flags.mtime);

    let plan = BackupTask::from(
        option(local("/s"), DataLocation::Nfs(remote())).target_prefix("repo".to_string()),
    )
    .start()
    .unwrap()
    .plan;
    assert_eq!(plan.route, Some(CopyRoute::LocalToNfs));
    assert!(matches!(plan.destination, Destination::Prefix(p) if p == "repo"));
}

#[test]
fn builders_set_one_option_each() {
    let o = option(local("/s"), local("/t"));
    assert_eq!(o.aggregate_config, AggregateConfig::default());
    let o = o.enable_aggregation(true);
    assert!(o.aggregate_config.enabled);
    let flags = PhaseFlags { hardlink: false, delete: true, mtime: true };
    let o = o.phase_flags(flags).smb_connection_count(7).smb_copy_task_count(9);
    assert_eq!(o.phase_flags, flags);
    assert_eq!((o.smb_connection_count, o.smb_copy_task_count), (7, 9));
    let o = o.aggregate_config(AggregateConfig::enabled().shard_count(3));
    assert_eq!(o.aggregate_config.shard_count, 3);
}

#[test]
fn errors_have_their_messages() {
    let backup: Vec<&str> = [
        BackupError::InvalidMetaPath,
        BackupError::InvalidControlFile,
        BackupError::InsuffientDiskSpace,
    ]
    .iter()
    .map(|e| e.message())
    .collect();
    assert_eq!(backup.len(), 3);
    assert!(backup[0] != backup[1] && backup[1] != backup[2] && backup[0] != backup[2]);
    let restore: Vec<String> = [
        RestoreError::InvalidSourcePath,
        RestoreError::InvalidTargetPath,
        RestoreError::InvalidMetaPath,
        RestoreError::InvalidControlFile,
        RestoreError::InsufficientDiskSpace,
        RestoreError::IoError("disk".to_string()),
    ]
    .iter()
    .map(|e| e.message())
    .collect();
    assert_eq!(
        restore,
        [
            "Invalid source path",
            "Invalid target path",
            "Invalid metadata path",
            "Invalid control file",
            "Insufficient disk space",
            "IO error: disk",
        ]
    );
}

fn restore(target: DataLocation, control: &str) -> RestoreOption {
    RestoreOption::new(
        "/repo".to_string(),
        "/src".to_string(),
        target,
        "/m".to_string(),
        "/c".to_string(),
        control.to_string(),
    )
}

#[test]
fn restores_check_their_paths_in_order() {
    let start = |s: bool, m: bool, c: bool| {
        let task = RestoreTask::new(restore(local("/t"), "/c/copy_1.txt"));
        assert_eq!(task.check(s, m, c).is_ok(), s && m && c);
        task.start(s, m, c, Ok(()), ControlKind::Copy)
    };
    assert!(matches!(start(false, false, false), Err(RestoreError::InvalidSourcePath)));
    assert!(matches!(start(true, false, false), Err(RestoreError::InvalidMetaPath)));
    assert!(matches!(start(true, true, false), Err(RestoreError::InvalidControlFile)));
    let running = start(true, true, true).unwrap();
    assert_eq!((running.action, running.complete()), (RestoreAction::Copy, false));
    assert_eq!(running.stats(), RestoreStats::default());
    let task = RestoreTask::new(restore(local("/t"), "/c/copy_1.txt"));
    match task.start(true, true, true, Err("read-only".to_string()), ControlKind::Copy) {
        Err(e) => assert_eq!(e.message(), "IO error: read-only"),
        Ok(_) => panic!("the target could not be made"),
    }
}

#[test]
fn restores_follow_their_control_file() {
    let name = |control: &str| RestoreTask::new(restore(local("/t"), control)).control_name();
    assert_eq!(name("/c/hardlink_1.control.bin"), "hardlink_1.control.bin");
    assert_eq!(name("/"), "");
    let action = |kind: ControlKind, links: bool, times: bool| {
        let o = restore(local("/t"), "/c/f").restore_hardlinks(links).restore_mtime(times);
        RestoreTask::from(o).start(true, true, true, Ok(()), kind).unwrap().action
    };
    assert_eq!(action(ControlKind::Hardlink, true, false), RestoreAction::Hardlinks);
    assert_eq!(action(ControlKind::Hardlink, false, true), RestoreAction::Nothing);
    assert_eq!(action(ControlKind::Mtime, false, true), RestoreAction::Times);
    assert_eq!(action(ControlKind::Mtime, true, false), RestoreAction::Nothing);
    assert_eq!(action(ControlKind::Delete, false, false), RestoreAction::Deletes);
    assert_eq!(action(ControlKind::Copy, false, false), RestoreAction::Copy);
}

#[test]
fn restores_are_planned_from_their_target() {
    let o = restore(local("/t"), "/c/copy.txt").policy(RestorePolicy::Skip).worker_count(0);
    let plan = run_restore_copy_phase(&o);
    assert_eq!((plan.kind, plan.label), (LocationKind::Local, "restore-copy-local"));
    assert_eq!(plan.local_base, Some(o.target_dir_base.clone()));
    assert_eq!((&plan.control_file, &plan.meta_dir), (&o.control_file, &o.meta_dir));
    assert_eq!((&plan.repo_base, &plan.original_source_base), (
        &o.source_dir_base,
        &o.original_source_base,
    ));
    assert_eq!((plan.layout, plan.policy), (o.aggregate_config.layout, RestorePolicy::Skip));
    assert_eq!(plan.worker_count, 0);
    let phase = plan_restore_phase(&o, Phase::Mtime);
    assert_eq!((phase.source_dir_base.as_str(), phase.ctrl_dir.as_str()), ("/src", "/c"));
    let o = restore(DataLocation::Smb(remote()), "/c/copy.txt").worker_count(0);
    let plan = run_restore_copy_phase(&o);
    assert_eq!((plan.label, plan.smb_pool_size), ("restore-copy-smb", Some(1)));
    assert!(matches!(
        plan_restore_phase(&o, Phase::Delete).destination, Destination::Prefix(p) if p.is_empty()
    ));
}

fn params() -> BackupPipelineParams {
    BackupPipelineParams {
        control_file: "/c/copy.txt".to_string(),
        meta_dir: "/m".to_string(),
        ctrl_dir: "/c".to_string(),
        source_dir_base: "/s".to_string(),
        target_prefix: "repo".to_string(),
        aggregate_config: AggregateConfig::default(),
        copy_buffer_size: 1024 * 1024,
        retry_policy: RetryPolicy::default(),
        phase_flags: PhaseFlags { hardlink: true, delete: false, mtime: true },
        smb_connection_count: 4,
        smb_copy_task_count: 0,
    }
}

#[test]
fn copies_run_along_their_route() {
    let source = BackupSource::connect(&local("/s"));
    let target = BackupTarget::connect(&DataLocation::Smb(remote()));
    assert!(!source.is_smb() && target.is_smb() && !target.is_local());
    let run = run_copy_for_source_target(&source, &target, &params()).unwrap();
    assert_eq!(run.route, CopyRoute::LocalToSmb);
    assert_eq!(run.max_concurrent_tasks, 8);
    assert_eq!((run.control_file.as_str(), run.meta_dir.as_str()), ("/c/copy.txt", "/m"));
    assert_eq!((run.source_dir_base.as_str(), run.destination.as_str()), ("/s", "repo"));
    assert_eq!(run.aggregate_config, AggregateConfig::default());
    assert_eq!(run.retry_policy, RetryPolicy::default());
    let (run, phases) = run_backup(Ok(source), Ok(target), &params()).unwrap();
    assert_eq!(run.route, CopyRoute::LocalToSmb);
    assert!(phases.iter().all(|p| *p == Phase::Hardlink || *p == Phase::Mtime));

    let here = BackupSource::connect(&local("/s"));
    let there = BackupTarget::connect(&local("/t"));
    assert!(run_copy_for_source_target(&here, &there, &params()).is_none());

    let message = connect_error(LocationKind::Nfs, true, "refused");
    assert!(message.ends_with("refused"));
    assert_ne!(message, connect_error(LocationKind::Nfs, false, "refused"));
    let failed = run_backup(Err(message.clone()), Ok(there), &params());
    assert_eq!(failed.unwrap_err(), message);
}
