//! The tasks of the server: what a request for a backup or a restore comes to.
use vstd::prelude::*;

use crate::aggregate::{no_aggregation, AggregateConfig, AggregateLayout};
use crate::backup::RestorePolicy;
use crate::cli::{
    format_abbr, BackupFormat, BackupJobConfig, JobResult, RemoteSpec, RestoreJobConfig, ScanConfig,
};
use crate::failure::FailureLogFormat;
use crate::location::DataLocation;
use crate::scan::{parse_task_location, ProcessUser, RetryPolicySpec, ScanPathFilterSpec};
use crate::server::TaskStats;
use crate::text;
use crate::transport::clamp_copy_buffer_size;

verus! {

// ---------------------------------------------------------------------------
// What a request leaves open
// ---------------------------------------------------------------------------

pub const DEFAULT_SCAN_TEMP_DIR: &'static str = "/tmp/fpt/cache";

pub const DEFAULT_BACKUP_TEMP_DIR: &'static str = "/tmp/fpt";

pub const DEFAULT_SCAN_WORKERS: usize = 8;

pub const DEFAULT_SCAN_WRITERS: usize = 1;

pub const DEFAULT_SHARD_NUM: usize = 16;

pub const DEFAULT_SMB_QUERY_BUFFER_MB: u32 = 8;

pub const DEFAULT_NFS_CONNECTIONS: usize = 32;

pub const DEFAULT_SMB_CONNECTIONS: usize = 4;

pub const DEFAULT_JOB_COUNT: usize = 4;

pub const DEFAULT_BUFFER_SIZE_KB: usize = 1024;

pub const DEFAULT_BLOB_SIZE_MB: u64 = 64;

pub const DEFAULT_THRESHOLD_KB: u64 = 1024;

pub const DEFAULT_AGGREGATE_SHARDS: u16 = 16;

/// How small files are aggregated, as a request states it.
#[derive(Debug, Clone, Copy, PartialEq, Eq, Structural)]
pub struct AggregateOptionsSpec {
    pub enabled: bool,
    pub layout: AggregateLayout,
    pub blob_size_mb: u64,
    pub threshold_kb: u64,
    pub shard_count: u16,
}

impl Default for AggregateOptionsSpec {
    fn default() -> (r: Self)
        ensures
            r == (AggregateOptionsSpec {
                enabled: false,
                layout: AggregateLayout::Shard,
                blob_size_mb: DEFAULT_BLOB_SIZE_MB,
                threshold_kb: DEFAULT_THRESHOLD_KB,
                shard_count: DEFAULT_AGGREGATE_SHARDS,
            }),
    {
        AggregateOptionsSpec {
            enabled: false,
            layout: AggregateLayout::Shard,
            blob_size_mb: DEFAULT_BLOB_SIZE_MB,
            threshold_kb: DEFAULT_THRESHOLD_KB,
            shard_count: DEFAULT_AGGREGATE_SHARDS,
        }
    }
}

// ---------------------------------------------------------------------------
// Backup
// ---------------------------------------------------------------------------

/// A backup as a request states it.
#[derive(Debug)]
pub struct BackupTaskSpec {
    pub source: String,
    pub target: String,
    pub format: BackupFormat,
    pub incremental_base: Option<String>,
    pub temp_dir: String,
    pub scan_workers: usize,
    pub scan_writers: usize,
    pub jobs: usize,
    pub aggregate: AggregateOptionsSpec,
    pub hardlink: bool,
    pub delete: bool,
    pub mtime: bool,
    pub scan_filters: ScanPathFilterSpec,
    pub nfs_connections: usize,
    pub nfs_uid: Option<u32>,
    pub nfs_gid: Option<u32>,
    pub smb_connections: usize,
    pub smb_copy_tasks: usize,
    pub buffer_size_kb: usize,
    pub failure_log_format: Option<FailureLogFormat>,
    pub retry: RetryPolicySpec,
    pub verbose: u8,
}

impl BackupTaskSpec {
    /// Whether the sizes fit into machine numbers once they are turned into bytes.
    pub open spec fn sizes_fit(&self) -> bool {
        &&& self.aggregate.blob_size_mb * 1_048_576 <= u64::MAX
        &&& self.aggregate.threshold_kb * 1024 <= u64::MAX
        &&& self.buffer_size_kb * 1024 <= usize::MAX
    }

    /// Small files are aggregated where the format or the options say so.
    pub open spec fn aggregates(&self) -> bool {
        self.format == BackupFormat::Aggregated || self.aggregate.enabled
    }
}

/// Whether a job does what a request states. The phases behind the copy need files that
/// are not aggregated.
pub open spec fn does_task(job: BackupJobConfig, s: BackupTaskSpec) -> bool {
    let aggregated = s.aggregates();
    &&& job.format_tag@ == crate::cli::abbreviation(s.format)
    &&& job.type_tag@ == (if s.incremental_base is Some {
        "INC"@
    } else {
        "FULL"@
    })
    &&& job.temp_root == s.temp_dir
    &&& job.scan_config == (ScanConfig {
        worker_count: s.scan_workers,
        writer_count: s.scan_writers,
        enable_aggregation: aggregated,
        max_aggregate_blob_size: (s.aggregate.blob_size_mb * 1_048_576) as u64,
        aggregate_file_threshold: (s.aggregate.threshold_kb * 1024) as u64,
        retry_policy: s.retry.policy(),
    })
    &&& job.aggregate_config == (if aggregated {
        AggregateConfig {
            enabled: true,
            layout: s.aggregate.layout,
            max_blob_size: (s.aggregate.blob_size_mb * 1_048_576) as u64,
            file_threshold: (s.aggregate.threshold_kb * 1024) as u64,
            shard_count: s.aggregate.shard_count,
        }
    } else {
        no_aggregation()
    })
    &&& job.enable_hardlink == (s.hardlink && !aggregated)
    &&& job.enable_delete == (s.delete && !aggregated)
    &&& job.enable_mtime == (s.mtime && !aggregated)
    &&& job.max_concurrent_subtasks == s.jobs
    &&& job.smb_connection_count == (if s.smb_connections == 0 {
        1
    } else {
        s.smb_connections
    })
    &&& job.smb_copy_task_count == s.smb_copy_tasks
    &&& job.copy_buffer_size == crate::transport::clamped_buffer_size(
        (s.buffer_size_kb * 1024) as usize,
    )
    &&& job.failure_log_format == s.failure_log_format
    &&& job.retry_policy == s.retry.policy()
    &&& job.incremental_base == s.incremental_base
    &&& job.verbose == s.verbose
}

/// The job that a request for a backup asks for, and the filters of its scan; or the
/// message about its source, or else about its target.
pub fn run_backup_task(
    spec: BackupTaskSpec,
    source_remote: RemoteSpec,
    target_remote: RemoteSpec,
    user: ProcessUser,
) -> (r: Result<(BackupJobConfig, ScanPathFilterSpec), String>)
    requires
        spec.sizes_fit(),
    ensures
        asks_backup_task(spec, source_remote, target_remote, user, r),
{
    let ghost given = spec;
    let parsed_source = parse_task_location(
        spec.source,
        source_remote,
        spec.nfs_connections,
        spec.nfs_uid,
        spec.nfs_gid,
        user,
    );
    let parsed_target = parse_task_location(
        spec.target,
        target_remote,
        spec.nfs_connections,
        spec.nfs_uid,
        spec.nfs_gid,
        user,
    );
    proof {
        assert(crate::scan::task_location(
            given.source,
            source_remote,
            given.nfs_connections,
            given.nfs_uid,
            given.nfs_gid,
            user,
            parsed_source,
        ));
        assert(crate::scan::task_location(
            given.target,
            target_remote,
            given.nfs_connections,
            given.nfs_uid,
            given.nfs_gid,
            user,
            parsed_target,
        ));
    }
    let source = match parsed_source {
        Ok(l) => l,
        Err(m) => {
            return Err(m);
        },
    };
    let target = match parsed_target {
        Ok(l) => l,
        Err(m) => {
            return Err(m);
        },
    };
    let retry_policy = spec.retry.build();
    let aggregated = spec.format == BackupFormat::Aggregated || spec.aggregate.enabled;
    let blob_bytes: u64 = spec.aggregate.blob_size_mb * 1_048_576;
    let threshold_bytes: u64 = spec.aggregate.threshold_kb * 1024;
    let aggregate_config = if aggregated {
        AggregateConfig::enabled().layout(spec.aggregate.layout).max_blob_size(
            blob_bytes,
        ).file_threshold(threshold_bytes).shard_count(spec.aggregate.shard_count)
    } else {
        AggregateConfig::default()
    };
    let type_tag = if spec.incremental_base.is_some() {
        "INC"
    } else {
        "FULL"
    };
    let job = BackupJobConfig {
        source,
        target,
        format_tag: text::copy_of(format_abbr(spec.format)),
        type_tag: text::copy_of(type_tag),
        temp_root: spec.temp_dir,
        scan_config: ScanConfig {
            worker_count: spec.scan_workers,
            writer_count: spec.scan_writers,
            enable_aggregation: aggregated,
            max_aggregate_blob_size: blob_bytes,
            aggregate_file_threshold: threshold_bytes,
            retry_policy,
        },
        aggregate_config,
        enable_hardlink: spec.hardlink && !aggregated,
        enable_delete: spec.delete && !aggregated,
        enable_mtime: spec.mtime && !aggregated,
        max_concurrent_subtasks: spec.jobs,
        smb_connection_count: if spec.smb_connections == 0 {
            1
        } else {
            spec.smb_connections
        },
        smb_copy_task_count: spec.smb_copy_tasks,
        copy_buffer_size: clamp_copy_buffer_size(spec.buffer_size_kb * 1024),
        failure_log_format: spec.failure_log_format,
        retry_policy,
        incremental_base: spec.incremental_base,
        verbose: spec.verbose,
    };
    Ok((job, spec.scan_filters))
}

// ---------------------------------------------------------------------------
// Restore
// ---------------------------------------------------------------------------

/// A restore as a request states it.
#[derive(Debug)]
pub struct RestoreTaskSpec {
    pub copy_source: String,
    pub target: String,
    pub policy: RestorePolicy,
    pub temp_dir: String,
    pub jobs: usize,
    pub paths: Vec<String>,
    pub nfs_connections: usize,
    pub nfs_uid: Option<u32>,
    pub nfs_gid: Option<u32>,
    pub verbose: u8,
}

/// The job that a request for a restore asks for, or the message about its copy, or else
/// about its target.
pub fn restore_job(
    spec: RestoreTaskSpec,
    copy_remote: RemoteSpec,
    target_remote: RemoteSpec,
    user: ProcessUser,
) -> (r: Result<RestoreJobConfig, String>)
    ensures
        asks_restore_job(spec, copy_remote, target_remote, user, r),
{
    let ghost given = spec;
    let parsed_copy = parse_task_location(
        spec.copy_source,
        copy_remote,
        spec.nfs_connections,
        spec.nfs_uid,
        spec.nfs_gid,
        user,
    );
    let parsed_target = parse_task_location(
        spec.target,
        target_remote,
        spec.nfs_connections,
        spec.nfs_uid,
        spec.nfs_gid,
        user,
    );
    proof {
        assert(crate::scan::task_location(
            given.copy_source,
            copy_remote,
            given.nfs_connections,
            given.nfs_uid,
            given.nfs_gid,
            user,
            parsed_copy,
        ));
        assert(crate::scan::task_location(
            given.target,
            target_remote,
            given.nfs_connections,
            given.nfs_uid,
            given.nfs_gid,
            user,
            parsed_target,
        ));
    }
    let copy_source = match parsed_copy {
        Ok(l) => l,
        Err(m) => {
            return Err(m);
        },
    };
    let restore_target = match parsed_target {
        Ok(l) => l,
        Err(m) => {
            return Err(m);
        },
    };
    Ok(
        RestoreJobConfig {
            copy_source,
            restore_target,
            policy: spec.policy,
            temp_root: spec.temp_dir,
            max_concurrent_subtasks: spec.jobs,
            fine_grain_paths: spec.paths,
        },
    )
}

/// What the server reports of a job: failures of single files are not told apart.
pub fn transfer_stats(result: &JobResult) -> (r: TaskStats)
    requires
        result.subtasks_ok <= usize::MAX,
        result.subtasks_failed <= usize::MAX,
    ensures
        r == (TaskStats::Transfer {
            files: result.total_files,
            dirs: result.total_dirs,
            bytes: result.total_bytes,
            files_failed: 0,
            dirs_failed: 0,
            subtasks_ok: result.subtasks_ok as usize,
            subtasks_failed: result.subtasks_failed as usize,
        }),
{
    TaskStats::Transfer {
        files: result.total_files,
        dirs: result.total_dirs,
        bytes: result.total_bytes,
        files_failed: 0,
        dirs_failed: 0,
        subtasks_ok: result.subtasks_ok as usize,
        subtasks_failed: result.subtasks_failed as usize,
    }
}

/// A request for the aggregated format, or with aggregation switched on, yields a job that
/// aggregates, in the copy and in the scan, with the layout and the sizes that it states, and
/// without the phases behind the copy. Any other yields one that does not aggregate, with the
/// phases that it states.
pub proof fn law_aggregated_requests_aggregate(job: BackupJobConfig, spec: BackupTaskSpec)
    requires
        does_task(job, spec),
        spec.sizes_fit(),
    ensures
        spec.format == BackupFormat::Aggregated || spec.aggregate.enabled ==> {
            &&& job.aggregate_config.enabled
            &&& job.scan_config.enable_aggregation
            &&& !job.enable_hardlink && !job.enable_delete && !job.enable_mtime
            &&& job.aggregate_config.layout == spec.aggregate.layout
            &&& job.aggregate_config.max_blob_size == spec.aggregate.blob_size_mb * 1024 * 1024
            &&& job.aggregate_config.file_threshold == spec.aggregate.threshold_kb * 1024
            &&& job.aggregate_config.shard_count == spec.aggregate.shard_count
        },
        spec.format != BackupFormat::Aggregated && !spec.aggregate.enabled ==> {
            &&& !job.aggregate_config.enabled
            &&& !job.scan_config.enable_aggregation
            &&& job.enable_hardlink == spec.hardlink
            &&& job.enable_delete == spec.delete
            &&& job.enable_mtime == spec.mtime
        },
{
}

/// A job that is tagged as aggregated always aggregates, and one that was asked for by the
/// aggregated format is always tagged so.
pub proof fn law_tags_tell_the_format(job: BackupJobConfig, spec: BackupTaskSpec)
    requires
        does_task(job, spec),
    ensures
        job.format_tag@ == "AGGR"@ ==> job.aggregate_config.enabled
            && job.scan_config.enable_aggregation,
        job.format_tag@ == "AGGR"@ <==> spec.format == BackupFormat::Aggregated,
        job.format_tag@ == "COMMON"@ <==> spec.format == BackupFormat::Common,
        job.type_tag@ == "INC"@ <==> spec.incremental_base is Some,
        job.type_tag@ == "FULL"@ <==> spec.incremental_base is None,
{
    reveal_strlit("AGGR");
    reveal_strlit("COMMON");
    reveal_strlit("INC");
    reveal_strlit("FULL");
    assert("AGGR"@.len() != "COMMON"@.len());
    assert("INC"@.len() != "FULL"@.len());
}

/// The scan and the copy of a job go by one set of sizes and one retry policy, the copy has
/// at least one connection and a buffer within bounds, and everything else is as requested.
pub proof fn law_settings_are_handed_on(job: BackupJobConfig, spec: BackupTaskSpec)
    requires
        does_task(job, spec),
        spec.sizes_fit(),
    ensures
        job.temp_root == spec.temp_dir,
        job.incremental_base == spec.incremental_base,
        job.max_concurrent_subtasks == spec.jobs,
        job.scan_config.worker_count == spec.scan_workers,
        job.scan_config.writer_count == spec.scan_writers,
        job.scan_config.max_aggregate_blob_size == spec.aggregate.blob_size_mb * 1024 * 1024,
        job.scan_config.aggregate_file_threshold == spec.aggregate.threshold_kb * 1024,
        job.scan_config.retry_policy == job.retry_policy,
        job.retry_policy.max_retries == spec.retry.operation_retries,
        job.retry_policy.retry_delay_ms == spec.retry.retry_delay_ms,
        job.retry_policy.max_retry_delay_ms >= spec.retry.retry_delay_ms,
        job.retry_policy.max_retry_delay_ms >= spec.retry.retry_max_delay_ms,
        job.smb_connection_count >= 1,
        spec.smb_connections >= 1 ==> job.smb_connection_count == spec.smb_connections,
        job.smb_copy_task_count == spec.smb_copy_tasks,
        256 * 1024 <= job.copy_buffer_size <= 4 * 1024 * 1024,
        256 <= spec.buffer_size_kb <= 4096 ==> job.copy_buffer_size == spec.buffer_size_kb * 1024,
        job.failure_log_format == spec.failure_log_format,
        job.verbose == spec.verbose,
{
}

/// Whether `r` is the job that a request for a backup asks for, with its filters.
pub open spec fn asks_backup_task(
    spec: BackupTaskSpec,
    source_remote: RemoteSpec,
    target_remote: RemoteSpec,
    user: ProcessUser,
    r: Result<(BackupJobConfig, ScanPathFilterSpec), String>,
) -> bool {
    exists|source: Result<DataLocation, String>, target: Result<DataLocation, String>|
        {
            &&& #[trigger] crate::scan::task_location(
                spec.source,
                source_remote,
                spec.nfs_connections,
                spec.nfs_uid,
                spec.nfs_gid,
                user,
                source,
            )
            &&& #[trigger] crate::scan::task_location(
                spec.target,
                target_remote,
                spec.nfs_connections,
                spec.nfs_uid,
                spec.nfs_gid,
                user,
                target,
            )
            &&& match (source, target) {
                (Err(m), _) => r == Err::<(BackupJobConfig, ScanPathFilterSpec), String>(m),
                (Ok(_), Err(m)) => r == Err::<(BackupJobConfig, ScanPathFilterSpec), String>(
                    m,
                ),
                (Ok(a), Ok(b)) => r matches Ok((job, filters)) && job.source == a && job.target
                    == b && filters == spec.scan_filters && does_task(job, spec),
            }
        }
}

/// Whether `r` is the job that a request for a restore asks for.
pub open spec fn asks_restore_job(
    spec: RestoreTaskSpec,
    copy_remote: RemoteSpec,
    target_remote: RemoteSpec,
    user: ProcessUser,
    r: Result<RestoreJobConfig, String>,
) -> bool {
    exists|copy: Result<DataLocation, String>, target: Result<DataLocation, String>|
        {
            &&& #[trigger] crate::scan::task_location(
                spec.copy_source,
                copy_remote,
                spec.nfs_connections,
                spec.nfs_uid,
                spec.nfs_gid,
                user,
                copy,
            )
            &&& #[trigger] crate::scan::task_location(
                spec.target,
                target_remote,
                spec.nfs_connections,
                spec.nfs_uid,
                spec.nfs_gid,
                user,
                target,
            )
            &&& match (copy, target) {
                (Err(m), _) => r == Err::<RestoreJobConfig, String>(m),
                (Ok(_), Err(m)) => r == Err::<RestoreJobConfig, String>(m),
                (Ok(c), Ok(t)) => r == Ok::<RestoreJobConfig, String>(
                    RestoreJobConfig {
                        copy_source: c,
                        restore_target: t,
                        policy: spec.policy,
                        temp_root: spec.temp_dir,
                        max_concurrent_subtasks: spec.jobs,
                        fine_grain_paths: spec.paths,
                    },
                ),
            }
        }
}

/// The job of a request reads the source and writes the target that it names, does what the
/// request states, and scans with the filters that it states.
pub proof fn law_backup_requests_become_jobs(
    spec: BackupTaskSpec,
    source_remote: RemoteSpec,
    target_remote: RemoteSpec,
    user: ProcessUser,
    r: Result<(BackupJobConfig, ScanPathFilterSpec), String>,
)
    requires
        asks_backup_task(spec, source_remote, target_remote, user, r),
        spec.sizes_fit(),
    ensures
        r matches Ok((job, filters)) ==> {
            &&& does_task(job, spec)
            &&& filters == spec.scan_filters
            &&& spec.format == BackupFormat::Aggregated ==> job.aggregate_config.enabled
                && !job.enable_hardlink && !job.enable_delete && !job.enable_mtime
            &&& crate::scan::task_location(
                spec.source,
                source_remote,
                spec.nfs_connections,
                spec.nfs_uid,
                spec.nfs_gid,
                user,
                Ok(job.source),
            )
            &&& crate::scan::task_location(
                spec.target,
                target_remote,
                spec.nfs_connections,
                spec.nfs_uid,
                spec.nfs_gid,
                user,
                Ok(job.target),
            )
        },
{
    match r {
        Ok((job, _)) => {
            law_aggregated_requests_aggregate(job, spec);
        },
        Err(_) => {},
    }
}

/// The job of a request for a restore reads the copy and writes the target that it names, by
/// the policy and for the paths that it states.
pub proof fn law_restore_requests_become_jobs(
    spec: RestoreTaskSpec,
    copy_remote: RemoteSpec,
    target_remote: RemoteSpec,
    user: ProcessUser,
    r: Result<RestoreJobConfig, String>,
)
    requires
        asks_restore_job(spec, copy_remote, target_remote, user, r),
    ensures
        r matches Ok(job) ==> {
            &&& (job.policy, job.temp_root, job.max_concurrent_subtasks, job.fine_grain_paths) == (
                spec.policy,
                spec.temp_dir,
                spec.jobs,
                spec.paths,
            )
            &&& crate::scan::task_location(
                spec.copy_source,
                copy_remote,
                spec.nfs_connections,
                spec.nfs_uid,
                spec.nfs_gid,
                user,
                Ok(job.copy_source),
            )
            &&& crate::scan::task_location(
                spec.target,
                target_remote,
                spec.nfs_connections,
                spec.nfs_uid,
                spec.nfs_gid,
                user,
                Ok(job.restore_target),
            )
        },
{
}

} // verus!
