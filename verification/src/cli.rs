//! The command line: what the arguments of a backup or a restore come to, and what is
//! printed about them.
use vstd::prelude::*;

use crate::aggregate::{no_aggregation, AggregateConfig, AggregateLayout};
use crate::backup::RestorePolicy;
use crate::failure::{FailureLogFormat, RetryPolicy};
use crate::location::{DataLocation, RemoteLocation};
use crate::pipelines::format_elapsed;
use crate::text;
use crate::transport::clamp_copy_buffer_size;

verus! {

// ---------------------------------------------------------------------------
// Locations
// ---------------------------------------------------------------------------

/// The kind of a location by the way it is written.
pub open spec fn kind_name(spec: Seq<char>) -> Seq<char> {
    if "nfs://"@.is_prefix_of(spec) {
        "NFS"@
    } else if "smb://"@.is_prefix_of(spec) || "smb:\\\\"@.is_prefix_of(spec) {
        "SMB"@
    } else {
        "Local"@
    }
}

pub fn location_kind(spec: &str) -> (s: &'static str)
    ensures
        s@ == kind_name(spec@),
{
    if text::starts_with(spec, "nfs://") {
        "NFS"
    } else if text::starts_with(spec, "smb://") || text::starts_with(spec, "smb:\\\\") {
        "SMB"
    } else {
        "Local"
    }
}

/// What the client of a network protocol made of a URL.
#[derive(Debug)]
pub enum RemoteSpec {
    /// There is no client for the protocol.
    NotCompiledIn,
    Parsed(Result<RemoteLocation, String>),
}

/// How an NFS server is reached: with the given number of connections, and with the
/// given user and group where they are given, otherwise with those of the URL.
pub open spec fn nfs_access(
    location: RemoteLocation,
    connections: usize,
    uid: Option<u32>,
    gid: Option<u32>,
) -> RemoteLocation {
    RemoteLocation {
        connection_count: connections,
        uid: match uid {
            Some(u) => u,
            None => location.uid,
        },
        gid: match gid {
            Some(g) => g,
            None => location.gid,
        },
        ..location
    }
}

/// The location that a text on the command line names, or the message about it.
pub open spec fn named_location(
    spec: String,
    remote: RemoteSpec,
    connections: usize,
    uid: Option<u32>,
    gid: Option<u32>,
    r: Result<DataLocation, String>,
) -> bool {
    if kind_name(spec@) == "NFS"@ {
        match remote {
            RemoteSpec::NotCompiledIn => r matches Err(e) && e@
                == "NFS support not compiled in. Rebuild with --features nfs"@,
            RemoteSpec::Parsed(Ok(l)) => r == Ok::<DataLocation, String>(
                DataLocation::Nfs(nfs_access(l, connections, uid, gid)),
            ),
            RemoteSpec::Parsed(Err(m)) => r == Err::<DataLocation, String>(m),
        }
    } else if kind_name(spec@) == "SMB"@ {
        match remote {
            RemoteSpec::NotCompiledIn => r matches Err(e) && e@
                == "SMB support not compiled in. Rebuild with --features smb"@,
            RemoteSpec::Parsed(Ok(l)) => r == Ok::<DataLocation, String>(DataLocation::Smb(l)),
            RemoteSpec::Parsed(Err(m)) => r == Err::<DataLocation, String>(m),
        }
    } else {
        r == Ok::<DataLocation, String>(DataLocation::Local(spec))
    }
}

pub fn parse_data_location(
    spec: String,
    remote: RemoteSpec,
    connections: usize,
    uid: Option<u32>,
    gid: Option<u32>,
) -> (r: Result<DataLocation, String>)
    ensures
        named_location(spec, remote, connections, uid, gid, r),
{
    proof {
        reveal_strlit("NFS");
        reveal_strlit("SMB");
        reveal_strlit("Local");
        assert("NFS"@[0] != "SMB"@[0]);
        assert("NFS"@[0] != "Local"@[0]);
        assert("SMB"@[0] != "Local"@[0]);
    }
    if text::starts_with(spec.as_str(), "nfs://") {
        match remote {
            RemoteSpec::NotCompiledIn => Err(
                text::copy_of("NFS support not compiled in. Rebuild with --features nfs"),
            ),
            RemoteSpec::Parsed(Ok(l)) => {
                let mut l = l;
                l.connection_count = connections;
                l.uid =
                match uid {
                    Some(u) => u,
                    None => l.uid,
                };
                l.gid =
                match gid {
                    Some(g) => g,
                    None => l.gid,
                };
                Ok(DataLocation::Nfs(l))
            },
            RemoteSpec::Parsed(Err(m)) => Err(m),
        }
    } else if text::starts_with(spec.as_str(), "smb://") || text::starts_with(
        spec.as_str(),
        "smb:\\\\",
    ) {
        match remote {
            RemoteSpec::NotCompiledIn => Err(
                text::copy_of("SMB support not compiled in. Rebuild with --features smb"),
            ),
            RemoteSpec::Parsed(Ok(l)) => Ok(DataLocation::Smb(l)),
            RemoteSpec::Parsed(Err(m)) => Err(m),
        }
    } else {
        Ok(DataLocation::Local(spec))
    }
}

// ---------------------------------------------------------------------------
// Backup
// ---------------------------------------------------------------------------

#[derive(Debug, Clone, Copy, PartialEq, Eq, Structural)]
pub enum BackupFormat {
    Common,
    Aggregated,
}

pub open spec fn abbreviation(format: BackupFormat) -> Seq<char> {
    match format {
        BackupFormat::Common => "COMMON"@,
        BackupFormat::Aggregated => "AGGR"@,
    }
}

/// The abbreviation of a format, as it appears in the names of copies.
pub fn format_abbr(format: BackupFormat) -> (s: &'static str)
    ensures
        s@ == abbreviation(format),
{
    match format {
        BackupFormat::Common => "COMMON",
        BackupFormat::Aggregated => "AGGR",
    }
}

/// The arguments of a backup, and what was made of its locations where they are URLs.
#[derive(Debug)]
pub struct BackupArgs {
    pub data: String,
    pub data_remote: RemoteSpec,
    pub target: String,
    pub target_remote: RemoteSpec,
    pub format: BackupFormat,
    /// The same as the aggregated format.
    pub aggregate: bool,
    pub incremental_base: Option<String>,
    pub jobs: usize,
    /// MiB.
    pub blob_size: u64,
    /// KiB.
    pub threshold: u64,
    pub aggregate_layout: AggregateLayout,
    pub hardlink: bool,
    pub delete: bool,
    pub mtime: bool,
    pub workers: usize,
    pub nfs_connections: usize,
    pub smb_connections: usize,
    pub smb_copy_tasks: usize,
    /// KiB.
    pub buffer_size: usize,
    pub failure_log_format: Option<FailureLogFormat>,
    pub operation_retries: u32,
    pub retry_delay_ms: u64,
    pub retry_max_delay_ms: u64,
    pub nfs_uid: Option<u32>,
    pub nfs_gid: Option<u32>,
    pub temp_dir: Option<String>,
    pub verbose: u8,
}

impl BackupArgs {
    pub open spec fn final_format(&self) -> BackupFormat {
        if self.aggregate {
            BackupFormat::Aggregated
        } else {
            self.format
        }
    }

    /// Whether the sizes fit into machine numbers once they are turned into bytes.
    pub open spec fn sizes_fit(&self) -> bool {
        &&& self.blob_size * 1_048_576 <= u64::MAX
        &&& self.threshold * 1024 <= u64::MAX
        &&& self.buffer_size * 1024 <= usize::MAX
    }
}

/// Settings of the scan that precedes a copy.
#[derive(Debug, Clone, Copy, PartialEq, Eq, Structural)]
pub struct ScanConfig {
    pub worker_count: usize,
    pub writer_count: usize,
    pub enable_aggregation: bool,
    pub max_aggregate_blob_size: u64,
    pub aggregate_file_threshold: u64,
    pub retry_policy: RetryPolicy,
}

/// A backup that is ready to run.
#[derive(Debug)]
pub struct BackupJobConfig {
    pub source: DataLocation,
    pub target: DataLocation,
    pub format_tag: String,
    pub type_tag: String,
    /// Where metadata and control files are staged.
    pub temp_root: String,
    pub scan_config: ScanConfig,
    pub aggregate_config: AggregateConfig,
    pub enable_hardlink: bool,
    pub enable_delete: bool,
    pub enable_mtime: bool,
    pub max_concurrent_subtasks: usize,
    pub smb_connection_count: usize,
    pub smb_copy_task_count: usize,
    pub copy_buffer_size: usize,
    pub failure_log_format: Option<FailureLogFormat>,
    pub retry_policy: RetryPolicy,
    pub incremental_base: Option<String>,
    pub verbose: u8,
}

pub open spec fn retries(args: BackupArgs) -> RetryPolicy {
    RetryPolicy {
        max_retries: args.operation_retries,
        retry_delay_ms: args.retry_delay_ms,
        max_retry_delay_ms: if args.retry_max_delay_ms > args.retry_delay_ms {
            args.retry_max_delay_ms
        } else {
            args.retry_delay_ms
        },
    }
}

/// Whether a job does what the arguments ask for. The phases behind the copy belong to
/// the common format.
pub open spec fn does(job: BackupJobConfig, args: BackupArgs) -> bool {
    let aggregated = args.final_format() == BackupFormat::Aggregated;
    &&& job.format_tag@ == abbreviation(args.final_format())
    &&& job.type_tag@ == (if args.incremental_base is Some {
        "INC"@
    } else {
        "FULL"@
    })
    &&& job.temp_root@ == (match args.temp_dir {
        Some(d) => d@,
        None => "/tmp/bifrost"@,
    })
    &&& job.scan_config == (ScanConfig {
        worker_count: args.workers,
        writer_count: 1,
        enable_aggregation: aggregated,
        max_aggregate_blob_size: (args.blob_size * 1_048_576) as u64,
        aggregate_file_threshold: (args.threshold * 1024) as u64,
        retry_policy: retries(args),
    })
    &&& job.aggregate_config == (if aggregated {
        AggregateConfig {
            enabled: true,
            layout: args.aggregate_layout,
            max_blob_size: (args.blob_size * 1_048_576) as u64,
            file_threshold: (args.threshold * 1024) as u64,
            ..no_aggregation()
        }
    } else {
        no_aggregation()
    })
    &&& job.enable_hardlink == (args.hardlink && !aggregated)
    &&& job.enable_delete == (args.delete && !aggregated)
    &&& job.enable_mtime == (args.mtime && !aggregated)
    &&& job.max_concurrent_subtasks == args.jobs
    &&& job.smb_connection_count == (if args.smb_connections == 0 {
        1
    } else {
        args.smb_connections
    })
    &&& job.smb_copy_task_count == args.smb_copy_tasks
    &&& job.copy_buffer_size == crate::transport::clamped_buffer_size(
        (args.buffer_size * 1024) as usize,
    )
    &&& job.failure_log_format == args.failure_log_format
    &&& job.retry_policy == retries(args)
    &&& job.incremental_base == args.incremental_base
    &&& job.verbose == args.verbose
}

/// The job that the arguments of a backup ask for. An incremental backup needs the
/// aggregated format; then the source and the target have to be locations.
pub fn cmd_backup(args: BackupArgs) -> (r: Result<BackupJobConfig, String>)
    requires
        args.sizes_fit(),
    ensures
        asks_backup(args, r),
{
    let format = if args.aggregate {
        BackupFormat::Aggregated
    } else {
        args.format
    };
    let aggregated = format == BackupFormat::Aggregated;
    if args.incremental_base.is_some() && !aggregated {
        return Err(
            text::copy_of("Incremental backup is only supported with aggregated format"),
        );
    }
    let ghost given = args;
    let parsed_source = parse_data_location(
        args.data,
        args.data_remote,
        args.nfs_connections,
        args.nfs_uid,
        args.nfs_gid,
    );
    let parsed_target = parse_data_location(
        args.target,
        args.target_remote,
        args.nfs_connections,
        args.nfs_uid,
        args.nfs_gid,
    );
    proof {
        assert(named_location(
            given.data,
            given.data_remote,
            given.nfs_connections,
            given.nfs_uid,
            given.nfs_gid,
            parsed_source,
        ));
        assert(named_location(
            given.target,
            given.target_remote,
            given.nfs_connections,
            given.nfs_uid,
            given.nfs_gid,
            parsed_target,
        ));
    }
    let source = match parsed_source {
        Ok(l) => l,
        Err(m) => {
            return Err(m);
        },
    };
    let target = match parsed_target {
        Ok(l) => l,
        Err(m) => {
            return Err(m);
        },
    };
    let blob_bytes: u64 = args.blob_size * 1_048_576;
    let threshold_bytes: u64 = args.threshold * 1024;
    let aggregate_config = if aggregated {
        AggregateConfig::enabled().layout(args.aggregate_layout).max_blob_size(
            blob_bytes,
        ).file_threshold(threshold_bytes)
    } else {
        AggregateConfig::default()
    };
    let retry_policy = RetryPolicy::new(args.operation_retries, args.retry_delay_ms).with_max_delay(
        args.retry_max_delay_ms,
    );
    let type_tag = if args.incremental_base.is_some() {
        "INC"
    } else {
        "FULL"
    };
    let temp_root = match args.temp_dir {
        Some(d) => d,
        None => text::copy_of("/tmp/bifrost"),
    };
    Ok(
        BackupJobConfig {
            source,
            target,
            format_tag: text::copy_of(format_abbr(format)),
            type_tag: text::copy_of(type_tag),
            temp_root,
            scan_config: ScanConfig {
                worker_count: args.workers,
                writer_count: 1,
                enable_aggregation: aggregated,
                max_aggregate_blob_size: blob_bytes,
                aggregate_file_threshold: threshold_bytes,
                retry_policy,
            },
            aggregate_config,
            enable_hardlink: args.hardlink && !aggregated,
            enable_delete: args.delete && !aggregated,
            enable_mtime: args.mtime && !aggregated,
            max_concurrent_subtasks: args.jobs,
            smb_connection_count: if args.smb_connections == 0 {
                1
            } else {
                args.smb_connections
            },
            smb_copy_task_count: args.smb_copy_tasks,
            copy_buffer_size: clamp_copy_buffer_size(args.buffer_size * 1024),
            failure_log_format: args.failure_log_format,
            retry_policy,
            incremental_base: args.incremental_base,
            verbose: args.verbose,
        },
    )
}

// ---------------------------------------------------------------------------
// Restore
// ---------------------------------------------------------------------------

/// A restore that is ready to run.
#[derive(Debug)]
pub struct RestoreJobConfig {
    pub copy_source: DataLocation,
    pub restore_target: DataLocation,
    pub policy: RestorePolicy,
    pub temp_root: String,
    pub max_concurrent_subtasks: usize,
    /// Files and directories that are restored; all where there is none.
    pub fine_grain_paths: Vec<String>,
}

/// The arguments of a restore.
#[derive(Debug)]
pub struct RestoreArgs {
    pub copy: String,
    pub copy_remote: RemoteSpec,
    pub target: String,
    pub target_remote: RemoteSpec,
    pub policy: RestorePolicy,
    pub jobs: usize,
    pub paths: Vec<String>,
    pub nfs_connections: usize,
    pub nfs_uid: Option<u32>,
    pub nfs_gid: Option<u32>,
    pub temp_dir: Option<String>,
}

/// The job that the arguments of a restore ask for. The target is looked at first.
pub fn cmd_restore(args: RestoreArgs) -> (r: Result<RestoreJobConfig, String>)
    ensures
        asks_restore(args, r),
{
    let ghost given = args;
    let parsed_target = parse_data_location(
        args.target,
        args.target_remote,
        args.nfs_connections,
        args.nfs_uid,
        args.nfs_gid,
    );
    let parsed_copy = parse_data_location(
        args.copy,
        args.copy_remote,
        args.nfs_connections,
        args.nfs_uid,
        args.nfs_gid,
    );
    proof {
        assert(named_location(
            given.target,
            given.target_remote,
            given.nfs_connections,
            given.nfs_uid,
            given.nfs_gid,
            parsed_target,
        ));
        assert(named_location(
            given.copy,
            given.copy_remote,
            given.nfs_connections,
            given.nfs_uid,
            given.nfs_gid,
            parsed_copy,
        ));
    }
    let restore_target = match parsed_target {
        Ok(l) => l,
        Err(m) => {
            return Err(m);
        },
    };
    let copy_source = match parsed_copy {
        Ok(l) => l,
        Err(m) => {
            return Err(m);
        },
    };
    let temp_root = match args.temp_dir {
        Some(d) => d,
        None => text::copy_of("/tmp/bifrost"),
    };
    Ok(
        RestoreJobConfig {
            copy_source,
            restore_target,
            policy: args.policy,
            temp_root,
            max_concurrent_subtasks: args.jobs,
            fine_grain_paths: args.paths,
        },
    )
}

// ---------------------------------------------------------------------------
// Reports
// ---------------------------------------------------------------------------

/// What a job came to.
#[derive(Debug)]
pub struct JobResult {
    pub copy_uuid: String,
    pub copy_root: String,
    pub subtasks_ok: u64,
    pub subtasks_failed: u64,
    pub total_files: u64,
    pub total_dirs: u64,
    pub total_bytes: u64,
}

/// What is known of a backup besides its result. The two rates come as text.
#[derive(Debug)]
pub struct BackupReport {
    pub data: String,
    pub target: String,
    pub format: BackupFormat,
    pub layout: AggregateLayout,
    /// MiB.
    pub blob_size: u64,
    /// KiB.
    pub threshold: u64,
    pub elapsed_secs: u64,
    pub elapsed_millis: u32,
    pub file_rate: String,
    pub data_rate: String,
}

pub const RULE: &'static str = "============================================================";

pub open spec fn layout_name(layout: AggregateLayout) -> Seq<char> {
    match layout {
        AggregateLayout::DirLevel => "dir-level"@,
        AggregateLayout::Shard => "shard"@,
    }
}

pub open spec fn subtask_line(ok: u64, failed: u64) -> Seq<char> {
    "Subtasks    : "@ + text::decimal(ok as nat) + " ok, "@ + text::decimal(failed as nat)
        + " failed"@
}

/// The lines of the summary of a backup.
pub open spec fn backup_lines(b: BackupReport, r: JobResult) -> Seq<Seq<char>> {
    seq![
        RULE@,
        "Backup Summary"@,
        RULE@,
        "Source type : "@ + kind_name(b.data@),
        "Target type : "@ + kind_name(b.target@),
        "Format      : "@ + abbreviation(b.format),
    ] + (if b.format == BackupFormat::Aggregated {
        seq![
            "Aggregation : enabled"@,
            "Layout      : "@ + layout_name(b.layout),
            "Blob size   : "@ + text::decimal(b.blob_size as nat) + " MiB"@,
            "Threshold   : "@ + text::decimal(b.threshold as nat) + " KiB"@,
        ]
    } else {
        seq!["Aggregation : disabled"@]
    }) + seq![
        "Source path : "@ + b.data@,
        "Target path : "@ + b.target@,
        "Copy UUID   : "@ + r.copy_uuid@,
        "Copy root   : "@ + r.copy_root@,
        subtask_line(r.subtasks_ok, r.subtasks_failed),
        "Total files : "@ + text::decimal(r.total_files as nat),
        "Total dirs  : "@ + text::decimal(r.total_dirs as nat),
        "Total bytes : "@ + text::decimal(r.total_bytes as nat),
        "Elapsed     : "@ + crate::pipelines::elapsed_text(b.elapsed_secs, b.elapsed_millis),
        "File rate   : "@ + b.file_rate@ + " files/s"@,
        "Data rate   : "@ + b.data_rate@ + "/s"@,
    ]
}

fn number_line(label: &str, n: u64) -> (s: String)
    ensures
        s@ == label@ + text::decimal(n as nat),
{
    text::concat(label, text::decimal_string(n).as_str())
}

fn subtasks(ok: u64, failed: u64) -> (s: String)
    ensures
        s@ == subtask_line(ok, failed),
{
    let mut s = number_line("Subtasks    : ", ok);
    s.append(" ok, ");
    s.append(text::decimal_string(failed).as_str());
    s.append(" failed");
    s
}

fn with_unit(label: &str, value: &str, unit: &str) -> (s: String)
    ensures
        s@ == label@ + value@ + unit@,
{
    let mut s = text::concat(label, value);
    s.append(unit);
    s
}

/// The lines of the summary of a backup.
pub fn backup_summary(b: &BackupReport, r: &JobResult) -> (out: Vec<String>)
    ensures
        text::views(out@) == backup_lines(*b, *r),
{
    let mut out: Vec<String> = vec![
        text::copy_of(RULE),
        text::copy_of("Backup Summary"),
        text::copy_of(RULE),
        text::concat("Source type : ", location_kind(b.data.as_str())),
        text::concat("Target type : ", location_kind(b.target.as_str())),
        text::concat("Format      : ", format_abbr(b.format)),
    ];
    let mut middle: Vec<String> = if b.format == BackupFormat::Aggregated {
        vec![
            text::copy_of("Aggregation : enabled"),
            text::concat("Layout      : ", b.layout.as_str()),
            with_unit("Blob size   : ", text::decimal_string(b.blob_size).as_str(), " MiB"),
            with_unit("Threshold   : ", text::decimal_string(b.threshold).as_str(), " KiB"),
        ]
    } else {
        vec![text::copy_of("Aggregation : disabled")]
    };
    let mut tail: Vec<String> = vec![
        text::concat("Source path : ", b.data.as_str()),
        text::concat("Target path : ", b.target.as_str()),
        text::concat("Copy UUID   : ", r.copy_uuid.as_str()),
        text::concat("Copy root   : ", r.copy_root.as_str()),
        subtasks(r.subtasks_ok, r.subtasks_failed),
        number_line("Total files : ", r.total_files),
        number_line("Total dirs  : ", r.total_dirs),
        number_line("Total bytes : ", r.total_bytes),
        text::concat(
            "Elapsed     : ",
            format_elapsed(b.elapsed_secs, b.elapsed_millis).as_str(),
        ),
        with_unit("File rate   : ", b.file_rate.as_str(), " files/s"),
        with_unit("Data rate   : ", b.data_rate.as_str(), "/s"),
    ];
    out.append(&mut middle);
    out.append(&mut tail);
    assert(text::views(out@) =~= backup_lines(*b, *r));
    out
}

/// What is known of a restore besides its result.
#[derive(Debug)]
pub struct RestoreReport {
    pub copy: String,
    pub target: String,
    pub elapsed_secs: u64,
    pub elapsed_millis: u32,
    pub file_rate: String,
}

/// The lines of the summary of a restore.
pub fn restore_summary(b: &RestoreReport, r: &JobResult) -> (out: Vec<String>)
    ensures
        text::views(out@) == seq![
            RULE@,
            "Restore Summary"@,
            RULE@,
            "Source type : "@ + kind_name(b.copy@),
            "Target type : "@ + kind_name(b.target@),
            "Source path : "@ + b.copy@,
            "Target path : "@ + b.target@,
            subtask_line(r.subtasks_ok, r.subtasks_failed),
            "Total files : "@ + text::decimal(r.total_files as nat),
            "Elapsed     : "@ + crate::pipelines::elapsed_text(b.elapsed_secs, b.elapsed_millis),
            "File rate   : "@ + b.file_rate@ + " files/s"@,
        ],
{
    let out: Vec<String> = vec![
        text::copy_of(RULE),
        text::copy_of("Restore Summary"),
        text::copy_of(RULE),
        text::concat("Source type : ", location_kind(b.copy.as_str())),
        text::concat("Target type : ", location_kind(b.target.as_str())),
        text::concat("Source path : ", b.copy.as_str()),
        text::concat("Target path : ", b.target.as_str()),
        subtasks(r.subtasks_ok, r.subtasks_failed),
        number_line("Total files : ", r.total_files),
        text::concat(
            "Elapsed     : ",
            format_elapsed(b.elapsed_secs, b.elapsed_millis).as_str(),
        ),
        with_unit("File rate   : ", b.file_rate.as_str(), " files/s"),
    ];
    assert(text::views(out@) =~= seq![
        RULE@,
        "Restore Summary"@,
        RULE@,
        "Source type : "@ + kind_name(b.copy@),
        "Target type : "@ + kind_name(b.target@),
        "Source path : "@ + b.copy@,
        "Target path : "@ + b.target@,
        subtask_line(r.subtasks_ok, r.subtasks_failed),
        "Total files : "@ + text::decimal(r.total_files as nat),
        "Elapsed     : "@ + crate::pipelines::elapsed_text(b.elapsed_secs, b.elapsed_millis),
        "File rate   : "@ + b.file_rate@ + " files/s"@,
    ]);
    out
}

/// A command fails where a subtask failed.
pub fn job_outcome(subtasks_failed: u64) -> (r: Result<(), String>)
    ensures
        match r {
            Ok(_) => subtasks_failed == 0,
            Err(e) => subtasks_failed > 0 && e@ == text::decimal(subtasks_failed as nat)
                + " subtask(s) failed"@,
        },
{
    if subtasks_failed > 0 {
        Err(text::concat(text::decimal_string(subtasks_failed).as_str(), " subtask(s) failed"))
    } else {
        Ok(())
    }
}

/// The limit of open files that is to be set, if it can be raised.
pub fn raised_file_limit(soft: u64, hard: u64) -> (r: Option<u64>)
    ensures
        r == (if soft < hard {
            Some(hard)
        } else {
            None
        }),
{
    if soft < hard {
        Some(hard)
    } else {
        None
    }
}

/// Arguments that ask for aggregation, by the format or by the switch, yield a job that
/// aggregates, in the copy and in the scan, without the phases behind the copy. Any other
/// yields one that does not aggregate, with the phases that were asked for.
pub proof fn law_aggregated_backups_aggregate(job: BackupJobConfig, args: BackupArgs)
    requires
        does(job, args),
        args.sizes_fit(),
    ensures
        args.aggregate || args.format == BackupFormat::Aggregated ==> {
            &&& job.aggregate_config.enabled
            &&& job.scan_config.enable_aggregation
            &&& !job.enable_hardlink && !job.enable_delete && !job.enable_mtime
            &&& job.aggregate_config.layout == args.aggregate_layout
            &&& job.aggregate_config.max_blob_size == args.blob_size * 1024 * 1024
            &&& job.aggregate_config.file_threshold == args.threshold * 1024
            &&& job.format_tag@ == "AGGR"@
        },
        !args.aggregate && args.format != BackupFormat::Aggregated ==> {
            &&& !job.aggregate_config.enabled
            &&& !job.scan_config.enable_aggregation
            &&& job.enable_hardlink == args.hardlink
            &&& job.enable_delete == args.delete
            &&& job.enable_mtime == args.mtime
            &&& job.format_tag@ == "COMMON"@
        },
        job.type_tag@ == "INC"@ <==> args.incremental_base is Some,
        job.type_tag@ == "FULL"@ <==> args.incremental_base is None,
{
    reveal_strlit("INC");
    reveal_strlit("FULL");
    assert("INC"@.len() != "FULL"@.len());
}

/// The scan and the copy of a job go by one set of sizes and one retry policy, the copy has
/// at least one connection and a buffer within bounds, and everything else is as asked for.
pub proof fn law_arguments_are_handed_on(job: BackupJobConfig, args: BackupArgs)
    requires
        does(job, args),
        args.sizes_fit(),
    ensures
        args.temp_dir matches Some(d) ==> job.temp_root@ == d@,
        args.temp_dir is None ==> job.temp_root@ == "/tmp/bifrost"@,
        job.incremental_base == args.incremental_base,
        job.max_concurrent_subtasks == args.jobs,
        job.scan_config.worker_count == args.workers,
        job.scan_config.writer_count == 1,
        job.scan_config.max_aggregate_blob_size == args.blob_size * 1024 * 1024,
        job.scan_config.aggregate_file_threshold == args.threshold * 1024,
        job.scan_config.retry_policy == job.retry_policy,
        job.retry_policy.max_retries == args.operation_retries,
        job.retry_policy.retry_delay_ms == args.retry_delay_ms,
        job.retry_policy.max_retry_delay_ms >= args.retry_delay_ms,
        job.retry_policy.max_retry_delay_ms >= args.retry_max_delay_ms,
        job.retry_policy.max_retry_delay_ms == args.retry_delay_ms
            || job.retry_policy.max_retry_delay_ms == args.retry_max_delay_ms,
        job.smb_connection_count >= 1,
        args.smb_connections >= 1 ==> job.smb_connection_count == args.smb_connections,
        job.smb_copy_task_count == args.smb_copy_tasks,
        256 * 1024 <= job.copy_buffer_size <= 4 * 1024 * 1024,
        256 <= args.buffer_size <= 4096 ==> job.copy_buffer_size == args.buffer_size * 1024,
        job.failure_log_format == args.failure_log_format,
        job.verbose == args.verbose,
{
}

/// A text names a server exactly by the scheme that it begins with; every other one names a
/// local path, as it is written. A user, a group and the connections that are given go before
/// those of the URL, and only for NFS.
pub proof fn law_schemes_tell_locations(
    spec: String,
    remote: RemoteSpec,
    connections: usize,
    uid: Option<u32>,
    gid: Option<u32>,
    r: Result<DataLocation, String>,
)
    requires
        named_location(spec, remote, connections, uid, gid, r),
    ensures
        r matches Ok(DataLocation::Nfs(l)) ==> "nfs://"@.is_prefix_of(spec@) && {
            &&& remote matches RemoteSpec::Parsed(Ok(p)) && l.url == p.url && l.root == p.root
                && (uid is None ==> l.uid == p.uid) && (gid is None ==> l.gid == p.gid)
            &&& l.connection_count == connections
            &&& uid matches Some(u) ==> l.uid == u
            &&& gid matches Some(g) ==> l.gid == g
        },
        r matches Ok(DataLocation::Smb(l)) ==> ("smb://"@.is_prefix_of(spec@)
            || "smb:\\\\"@.is_prefix_of(spec@)) && remote == RemoteSpec::Parsed(Ok(l)),
        r matches Ok(DataLocation::Local(p)) ==> p == spec && !"nfs://"@.is_prefix_of(spec@)
            && !"smb://"@.is_prefix_of(spec@) && !"smb:\\\\"@.is_prefix_of(spec@),
        !"nfs://"@.is_prefix_of(spec@) && !"smb://"@.is_prefix_of(spec@)
            && !"smb:\\\\"@.is_prefix_of(spec@) ==> r is Ok,
        r is Err ==> (remote is NotCompiledIn || (remote matches RemoteSpec::Parsed(p) && p is Err)),
        r is Ok && r->Ok_0 !is Local ==> (remote matches RemoteSpec::Parsed(p) && p is Ok),
{
    reveal_strlit("NFS");
    reveal_strlit("SMB");
    reveal_strlit("Local");
    assert("NFS"@[0] == 'N' && "SMB"@[0] == 'S' && "Local"@[0] == 'L');
}

/// Whether `r` is the job that the arguments of a backup ask for.
pub open spec fn asks_backup(
    args: BackupArgs,
    r: Result<BackupJobConfig, String>,
) -> bool {
    &&& args.incremental_base is Some && args.final_format() == BackupFormat::Common ==> (
    r matches Err(e) && e@ == "Incremental backup is only supported with aggregated format"@)
    &&& !(args.incremental_base is Some && args.final_format() == BackupFormat::Common) ==> exists|
        source: Result<DataLocation, String>,
        target: Result<DataLocation, String>,
    |
        {
            &&& #[trigger] named_location(
                args.data,
                args.data_remote,
                args.nfs_connections,
                args.nfs_uid,
                args.nfs_gid,
                source,
            )
            &&& #[trigger] named_location(
                args.target,
                args.target_remote,
                args.nfs_connections,
                args.nfs_uid,
                args.nfs_gid,
                target,
            )
            &&& match (source, target) {
                (Err(m), _) => r == Err::<BackupJobConfig, String>(m),
                (Ok(_), Err(m)) => r == Err::<BackupJobConfig, String>(m),
                (Ok(s), Ok(t)) => r matches Ok(job) && job.source == s && job.target == t
                    && does(job, args),
            }
        }
}

/// Whether `r` is the job that the arguments of a restore ask for.
pub open spec fn asks_restore(
    args: RestoreArgs,
    r: Result<RestoreJobConfig, String>,
) -> bool {
    exists|target: Result<DataLocation, String>, copy: Result<DataLocation, String>|
        {
            &&& #[trigger] named_location(
                args.target,
                args.target_remote,
                args.nfs_connections,
                args.nfs_uid,
                args.nfs_gid,
                target,
            )
            &&& #[trigger] named_location(
                args.copy,
                args.copy_remote,
                args.nfs_connections,
                args.nfs_uid,
                args.nfs_gid,
                copy,
            )
            &&& match (target, copy) {
                (Err(m), _) => r == Err::<RestoreJobConfig, String>(m),
                (Ok(_), Err(m)) => r == Err::<RestoreJobConfig, String>(m),
                (Ok(t), Ok(c)) => r matches Ok(job) && job.copy_source == c
                    && job.restore_target == t && job.policy == args.policy
                    && job.max_concurrent_subtasks == args.jobs && job.fine_grain_paths
                    == args.paths && job.temp_root@ == (match args.temp_dir {
                    Some(d) => d@,
                    None => "/tmp/bifrost"@,
                }),
            }
        }
}

/// A backup that is based on another one is refused unless it aggregates. The job of any other
/// is the one that its arguments describe; so no job is both based on another one and not
/// aggregated.
pub proof fn law_incremental_backups_aggregate(
    args: BackupArgs,
    r: Result<BackupJobConfig, String>,
)
    requires
        asks_backup(args, r),
        args.sizes_fit(),
    ensures
        args.incremental_base is Some && !args.aggregate && args.format == BackupFormat::Common
            ==> r is Err,
        r matches Ok(job) ==> does(job, args),
        r matches Ok(job) ==> (job.incremental_base is Some ==> job.aggregate_config.enabled),
        r matches Ok(job) ==> named_location(
            args.data,
            args.data_remote,
            args.nfs_connections,
            args.nfs_uid,
            args.nfs_gid,
            Ok(job.source),
        ) && named_location(
            args.target,
            args.target_remote,
            args.nfs_connections,
            args.nfs_uid,
            args.nfs_gid,
            Ok(job.target),
        ),
{
    match r {
        Ok(job) => {
            law_aggregated_backups_aggregate(job, args);
            law_arguments_are_handed_on(job, args);
        },
        Err(_) => {},
    }
}

/// A restore goes by the policy, the paths and the number of subtasks that were asked for.
pub proof fn law_restore_arguments_are_handed_on(
    args: RestoreArgs,
    r: Result<RestoreJobConfig, String>,
)
    requires
        asks_restore(args, r),
    ensures
        r matches Ok(job) ==> {
            &&& job.policy == args.policy
            &&& job.max_concurrent_subtasks == args.jobs
            &&& job.fine_grain_paths == args.paths
            &&& args.temp_dir matches Some(d) ==> job.temp_root@ == d@
            &&& args.temp_dir is None ==> job.temp_root@ == "/tmp/bifrost"@
            &&& named_location(
                args.copy,
                args.copy_remote,
                args.nfs_connections,
                args.nfs_uid,
                args.nfs_gid,
                Ok(job.copy_source),
            )
            &&& named_location(
                args.target,
                args.target_remote,
                args.nfs_connections,
                args.nfs_uid,
                args.nfs_gid,
                Ok(job.restore_target),
            )
        },
{
}

} // verus!
