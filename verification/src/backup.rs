//! Backup and restore tasks: their options, their checks and what they set in motion.
use vstd::prelude::*;

use crate::aggregate::{no_aggregation, AggregateConfig, AggregateLayout};
use crate::delete::DeleteStatsSnapshot;
use crate::failure::{FailureLogConfig, RetryPolicy};
use crate::hardlink::HardlinkStatsSnapshot;
use crate::location::{DataLocation, LocationKind};
use crate::mtime::MtimeStatsSnapshot;
use crate::orchestrator::{route_between, select_route, CopyRoute, Phase, PhaseFlags};
use crate::paths;
use crate::pipelines::DEFAULT_SMB_POOL_SIZE;
use crate::stats::{BackupStats, BackupStatsSnapshot};
use crate::text;
use crate::transport::{clamp_copy_buffer_size, clamped_buffer_size, DEFAULT_COPY_BUFFER_SIZE};

verus! {

// ---------------------------------------------------------------------------
// Backup
// ---------------------------------------------------------------------------

#[derive(Debug)]
pub enum BackupError {
    InvalidMetaPath,
    InvalidControlFile,
    InsuffientDiskSpace,
}

impl BackupError {
    /// The message shown to users.
    pub fn message(&self) -> (s: &'static str)
        ensures
            s@ == (match *self {
                BackupError::InvalidMetaPath => "Invalid metadata path"@,
                BackupError::InvalidControlFile => "Invalid control file"@,
                BackupError::InsuffientDiskSpace => "Insufficient disk space"@,
            }),
    {
        match self {
            BackupError::InvalidMetaPath => "Invalid metadata path",
            BackupError::InvalidControlFile => "Invalid control file",
            BackupError::InsuffientDiskSpace => "Insufficient disk space",
        }
    }
}

/// What a backup of one control file is told.
#[derive(Debug)]
pub struct BackupOption {
    pub source: DataLocation,
    pub target: DataLocation,
    pub meta_dir: String,
    pub ctrl_dir: String,
    pub control_file: String,
    pub worker_count: usize,
    pub copy_buffer_size: usize,
    pub retry_policy: RetryPolicy,
    pub failure_log: Option<FailureLogConfig>,
    pub phase_flags: PhaseFlags,
    pub aggregate_config: AggregateConfig,
    /// Path on a server below which the data is put.
    pub target_prefix: Option<String>,
    pub smb_connection_count: usize,
    /// Zero leaves the choice to the pipeline.
    pub smb_copy_task_count: usize,
}

impl BackupOption {
    pub fn new(
        source: DataLocation,
        target: DataLocation,
        meta_dir: String,
        ctrl_dir: String,
        control_file: String,
    ) -> (r: Self)
        ensures
            r.source == source,
            r.target == target,
            r.meta_dir == meta_dir,
            r.ctrl_dir == ctrl_dir,
            r.control_file == control_file,
            r.worker_count == 8,
            r.copy_buffer_size == DEFAULT_COPY_BUFFER_SIZE,
            r.retry_policy == (RetryPolicy {
                max_retries: 3,
                retry_delay_ms: 1000,
                max_retry_delay_ms: 1000,
            }),
            r.failure_log is None,
            r.phase_flags == (PhaseFlags { hardlink: false, delete: false, mtime: false }),
            r.aggregate_config == no_aggregation(),
            r.target_prefix is None,
            r.smb_connection_count == DEFAULT_SMB_POOL_SIZE,
            r.smb_copy_task_count == 0,
    {
        BackupOption {
            source,
            target,
            meta_dir,
            ctrl_dir,
            control_file,
            worker_count: 8,
            copy_buffer_size: DEFAULT_COPY_BUFFER_SIZE,
            retry_policy: RetryPolicy::default(),
            failure_log: None,
            phase_flags: PhaseFlags::default(),
            aggregate_config: AggregateConfig::default(),
            target_prefix: None,
            smb_connection_count: DEFAULT_SMB_POOL_SIZE,
            smb_copy_task_count: 0,
        }
    }

    pub fn enable_hardlink_phase(self, enable: bool) -> (r: Self)
        ensures
            r == (BackupOption {
                phase_flags: PhaseFlags { hardlink: enable, ..self.phase_flags },
                ..self
            }),
    {
        let mut option = self;
        option.phase_flags.hardlink = enable;
        option
    }

    pub fn enable_delete_phase(self, enable: bool) -> (r: Self)
        ensures
            r == (BackupOption {
                phase_flags: PhaseFlags { delete: enable, ..self.phase_flags },
                ..self
            }),
    {
        let mut option = self;
        option.phase_flags.delete = enable;
        option
    }

    pub fn enable_mtime_phase(self, enable: bool) -> (r: Self)
        ensures
            r == (BackupOption {
                phase_flags: PhaseFlags { mtime: enable, ..self.phase_flags },
                ..self
            }),
    {
        let mut option = self;
        option.phase_flags.mtime = enable;
        option
    }

    pub fn phase_flags(self, phase_flags: PhaseFlags) -> (r: Self)
        ensures
            r == (BackupOption { phase_flags, ..self }),
    {
        let mut option = self;
        option.phase_flags = phase_flags;
        option
    }

    pub fn enable_aggregation(self, enable: bool) -> (r: Self)
        ensures
            r == (BackupOption {
                aggregate_config: AggregateConfig { enabled: enable, ..self.aggregate_config },
                ..self
            }),
    {
        let mut option = self;
        option.aggregate_config.enabled = enable;
        option
    }

    pub fn aggregate_config(self, config: AggregateConfig) -> (r: Self)
        ensures
            r == (BackupOption { aggregate_config: config, ..self }),
    {
        let mut option = self;
        option.aggregate_config = config;
        option
    }

    pub fn aggregate_max_blob_size(self, size: u64) -> (r: Self)
        ensures
            r == (BackupOption {
                aggregate_config: AggregateConfig { max_blob_size: size, ..self.aggregate_config },
                ..self
            }),
    {
        let mut option = self;
        option.aggregate_config.max_blob_size = size;
        option
    }

    pub fn aggregate_file_threshold(self, threshold: u64) -> (r: Self)
        ensures
            r == (BackupOption {
                aggregate_config: AggregateConfig {
                    file_threshold: threshold,
                    ..self.aggregate_config
                },
                ..self
            }),
    {
        let mut option = self;
        option.aggregate_config.file_threshold = threshold;
        option
    }

    /// Sets the buffer size, brought into the accepted range.
    pub fn copy_buffer_size(self, size: usize) -> (r: Self)
        ensures
            r == (BackupOption { copy_buffer_size: clamped_buffer_size(size), ..self }),
    {
        let mut option = self;
        option.copy_buffer_size = clamp_copy_buffer_size(size);
        option
    }

    pub fn retry_policy(self, policy: RetryPolicy) -> (r: Self)
        ensures
            r == (BackupOption { retry_policy: policy, ..self }),
    {
        let mut option = self;
        option.retry_policy = policy;
        option
    }

    pub fn failure_log(self, config: Option<FailureLogConfig>) -> (r: Self)
        ensures
            r == (BackupOption { failure_log: config, ..self }),
    {
        let mut option = self;
        option.failure_log = config;
        option
    }

    pub fn target_prefix(self, prefix: String) -> (r: Self)
        ensures
            r == (BackupOption { target_prefix: Some(prefix), ..self }),
    {
        let mut option = self;
        option.target_prefix = Some(prefix);
        option
    }

    /// Sets the number of SMB connections: at least one.
    pub fn smb_connection_count(self, count: usize) -> (r: Self)
        ensures
            r == (BackupOption {
                smb_connection_count: if count == 0 {
                    1
                } else {
                    count
                },
                ..self
            }),
    {
        let mut option = self;
        option.smb_connection_count =
        if count == 0 {
            1
        } else {
            count
        };
        option
    }

    pub fn smb_copy_task_count(self, count: usize) -> (r: Self)
        ensures
            r == (BackupOption { smb_copy_task_count: count, ..self }),
    {
        let mut option = self;
        option.smb_copy_task_count = count;
        option
    }
}

/// Where a pipeline puts the data.
#[derive(Debug)]
pub enum Destination {
    /// A directory of this machine.
    Dir(String),
    /// A path on a server.
    Prefix(String),
}

/// What is set in motion for a backup.
#[derive(Debug)]
pub struct BackupPlan {
    /// The pipeline; none for local files, which have one of their own.
    pub route: Option<CopyRoute>,
    pub control_file: String,
    pub meta_dir: String,
    pub ctrl_dir: String,
    pub source_dir_base: String,
    pub destination: Destination,
    pub aggregate_config: AggregateConfig,
    pub copy_buffer_size: usize,
    pub retry_policy: RetryPolicy,
    /// Where failures are written down, if they are.
    pub failure_log: Option<FailureLogConfig>,
    pub phase_flags: PhaseFlags,
    /// Threads of the local pipeline.
    pub worker_count: Option<usize>,
    /// Connections and copy tasks of pipelines with a share at one end.
    pub smb: Option<(usize, usize)>,
}

/// The backup of one control file.
#[derive(Debug)]
pub struct BackupTask {
    pub option: BackupOption,
}

impl From<BackupOption> for BackupTask {
    fn from(option: BackupOption) -> (r: Self)
        ensures
            r.option == option,
    {
        BackupTask { option }
    }
}

impl vstd::std_specs::convert::FromSpecImpl<BackupOption> for BackupTask {
    open spec fn obeys_from_spec() -> bool {
        true
    }

    open spec fn from_spec(v: BackupOption) -> Self {
        BackupTask { option: v }
    }
}

/// Whether a plan is that of a backup with the given options: the route follows from the
/// two ends, and threads, connections and the prefix belong to the routes that use them.
pub open spec fn plans(plan: BackupPlan, o: BackupOption) -> bool {
    &&& plan.route == route_between(o.source.spec_kind(), o.target.spec_kind())
    &&& plan.control_file == o.control_file
    &&& plan.meta_dir == o.meta_dir
    &&& plan.ctrl_dir == o.ctrl_dir
    &&& plan.source_dir_base == o.source.base()
    &&& plan.aggregate_config == o.aggregate_config
    &&& plan.copy_buffer_size == o.copy_buffer_size
    &&& plan.retry_policy == o.retry_policy
    &&& plan.failure_log == o.failure_log
    &&& plan.phase_flags == o.phase_flags
    &&& if o.target.spec_kind() == LocationKind::Local {
        plan.destination == Destination::Dir(o.target.base())
    } else {
        match o.target_prefix {
            Some(prefix) => plan.destination == Destination::Prefix(prefix),
            None => plan.destination matches Destination::Prefix(p) && p@.len() == 0,
        }
    }
    &&& plan.worker_count == (if plan.route is None {
        Some(o.worker_count)
    } else {
        None
    })
    &&& plan.smb == (if o.source.spec_kind() == LocationKind::Smb || o.target.spec_kind()
        == LocationKind::Smb {
        Some((o.smb_connection_count, o.smb_copy_task_count))
    } else {
        None
    })
}

/// A backup that was started.
#[derive(Debug)]
pub struct RunningBackup {
    pub plan: BackupPlan,
    pub stats: BackupStats,
    pub hardlink_stats: Option<HardlinkStatsSnapshot>,
    pub delete_stats: Option<DeleteStatsSnapshot>,
    pub mtime_stats: Option<MtimeStatsSnapshot>,
    /// Set once the pipeline has come to its end.
    pub terminated: bool,
}

impl RunningBackup {
    /// The counters of the copy as they stand.
    pub fn stats(&self) -> (r: BackupStatsSnapshot)
        ensures
            r == self.stats.at_present(),
    {
        self.stats.snapshot()
    }

    /// The counters of the hardlink phase, once there are any.
    pub fn hardlink_stats(&self) -> (r: Option<HardlinkStatsSnapshot>)
        ensures
            r == self.hardlink_stats,
    {
        self.hardlink_stats
    }

    /// The counters of the delete phase, once there are any.
    pub fn delete_stats(&self) -> (r: Option<DeleteStatsSnapshot>)
        ensures
            r == self.delete_stats,
    {
        self.delete_stats
    }

    /// The counters of the mtime phase, once there are any.
    pub fn mtime_stats(&self) -> (r: Option<MtimeStatsSnapshot>)
        ensures
            r == self.mtime_stats,
    {
        self.mtime_stats
    }

    /// Whether the backup has come to its end.
    pub fn complete(&self) -> (r: bool)
        ensures
            r == self.terminated,
    {
        self.terminated
    }
}

impl BackupTask {
    /// What is set in motion: the pipeline between the two kinds of locations, with the
    /// paths and settings that it needs. Data goes below the base of a local target and
    /// below the prefix of a server.
    pub fn start(self) -> (r: Result<RunningBackup, BackupError>)
        ensures
            r matches Ok(running) && {
                &&& plans(running.plan, self.option)
                &&& running.stats == crate::stats::no_counts()
                &&& running.hardlink_stats is None
                &&& running.delete_stats is None
                &&& running.mtime_stats is None
                &&& !running.terminated
            },
    {
        let option = self.option;
        let source_kind = option.source.kind();
        let target_kind = option.target.kind();
        let route = select_route(source_kind, target_kind);
        let source_dir_base = option.source.base_path();
        let destination = match target_kind {
            LocationKind::Local => Destination::Dir(option.target.base_path()),
            _ => match option.target_prefix {
                Some(prefix) => Destination::Prefix(prefix),
                None => Destination::Prefix(String::new()),
            },
        };
        let worker_count = if route.is_none() {
            Some(option.worker_count)
        } else {
            None
        };
        let with_smb = source_kind == LocationKind::Smb || target_kind == LocationKind::Smb;
        let smb = if with_smb {
            Some((option.smb_connection_count, option.smb_copy_task_count))
        } else {
            None
        };
        let plan = BackupPlan {
            route,
            control_file: option.control_file,
            meta_dir: option.meta_dir,
            ctrl_dir: option.ctrl_dir,
            source_dir_base,
            destination,
            aggregate_config: option.aggregate_config,
            copy_buffer_size: option.copy_buffer_size,
            retry_policy: option.retry_policy,
            failure_log: option.failure_log,
            phase_flags: option.phase_flags,
            worker_count,
            smb,
        };
        Ok(
            RunningBackup {
                plan,
                stats: BackupStats::default(),
                hardlink_stats: None,
                delete_stats: None,
                mtime_stats: None,
                terminated: false,
            },
        )
    }
}

// ---------------------------------------------------------------------------
// Restore
// ---------------------------------------------------------------------------

/// What happens to files that already exist.
#[derive(Debug, Clone, Copy, PartialEq, Eq, Structural)]
pub enum RestorePolicy {
    /// They are overwritten.
    Replace,
    /// They are left alone.
    Skip,
    /// They are overwritten by newer files only.
    KeepNewer,
}

impl Default for RestorePolicy {
    fn default() -> (r: Self)
        ensures
            r == RestorePolicy::Replace,
    {
        RestorePolicy::Replace
    }
}

impl RestorePolicy {
    /// Whether a file is restored.
    pub open spec fn restores(
        self,
        source_mtime: Option<i128>,
        target_exists: bool,
        target_mtime: Option<i128>,
    ) -> bool {
        match self {
            RestorePolicy::Replace => true,
            RestorePolicy::Skip => !target_exists,
            RestorePolicy::KeepNewer => !target_exists || match (source_mtime, target_mtime) {
                (Some(src), Some(tgt)) => src > tgt,
                (Some(_), None) => true,
                (None, Some(_)) => false,
                (None, None) => true,
            },
        }
    }

    /// Whether a file is restored, by the modification times of the backed up and of the
    /// present file, in nanoseconds since the Unix epoch.
    pub fn should_restore(
        &self,
        source_mtime: Option<i128>,
        target_exists: bool,
        target_mtime: Option<i128>,
    ) -> (r: bool)
        ensures
            r == self.restores(source_mtime, target_exists, target_mtime),
    {
        match self {
            RestorePolicy::Replace => true,
            RestorePolicy::Skip => !target_exists,
            RestorePolicy::KeepNewer => {
                if !target_exists {
                    return true;
                }
                match (source_mtime, target_mtime) {
                    (Some(src), Some(tgt)) => src > tgt,
                    (Some(_), None) => true,
                    (None, Some(_)) => false,
                    (None, None) => true,
                }
            },
        }
    }
}

/// Whatever the policy, a file that does not exist yet is restored.
pub proof fn law_missing_files_are_restored(
    policy: RestorePolicy,
    source_mtime: Option<i128>,
    target_mtime: Option<i128>,
)
    ensures
        policy.restores(source_mtime, false, target_mtime),
{
}

/// A file that was restored is not restored again over itself, unless everything is
/// replaced.
pub proof fn law_restored_files_are_kept(policy: RestorePolicy, mtime: i128)
    requires
        policy != RestorePolicy::Replace,
    ensures
        !policy.restores(Some(mtime), true, Some(mtime)),
{
}

/// A file on the target that is as new as the one in the backup, or newer, is kept under
/// `KeepNewer`; an older one is overwritten. The later of two times always survives.
pub proof fn law_the_newer_file_survives(source: i128, target: i128)
    ensures
        target >= source ==> !RestorePolicy::KeepNewer.restores(Some(source), true, Some(target)),
        source > target ==> RestorePolicy::KeepNewer.restores(Some(source), true, Some(target)),
{
}

/// `KeepNewer` goes on as the times move: where a file of one time is restored, a later one
/// is too, and where a target of one time is overwritten, so is an earlier one.
pub proof fn law_keeping_newer_is_monotone(
    source: i128,
    later: i128,
    target: i128,
    earlier: i128,
)
    requires
        source <= later,
        earlier <= target,
        RestorePolicy::KeepNewer.restores(Some(source), true, Some(target)),
    ensures
        RestorePolicy::KeepNewer.restores(Some(later), true, Some(earlier)),
{
}

/// A target whose time is not known is overwritten, and one whose time is known is kept
/// where that of the backup is not.
pub proof fn law_unknown_times(source: Option<i128>, target: i128)
    ensures
        RestorePolicy::KeepNewer.restores(source, true, None),
        !RestorePolicy::KeepNewer.restores(None, true, Some(target)),
{
}

/// What is there is always overwritten under `Replace` and never under `Skip`, whatever the
/// times are.
pub proof fn law_replace_and_skip_ignore_times(source: Option<i128>, target: Option<i128>)
    ensures
        RestorePolicy::Replace.restores(source, true, target),
        !RestorePolicy::Skip.restores(source, true, target),
{
}

/// Counters of a restore.
#[derive(Debug, Clone, Copy, PartialEq, Eq, Structural)]
pub struct RestoreStats {
    pub files_restored: u64,
    pub bytes_restored: u64,
    pub files_skipped: u64,
    pub bytes_skipped: u64,
    pub files_failed: u64,
    pub dirs_created: u64,
}

/// The counters before anything was restored.
pub open spec fn no_restore_counts() -> RestoreStats {
    RestoreStats {
        files_restored: 0,
        bytes_restored: 0,
        files_skipped: 0,
        bytes_skipped: 0,
        files_failed: 0,
        dirs_created: 0,
    }
}

impl Default for RestoreStats {
    fn default() -> (r: Self)
        ensures
            r == no_restore_counts(),
    {
        RestoreStats {
            files_restored: 0,
            bytes_restored: 0,
            files_skipped: 0,
            bytes_skipped: 0,
            files_failed: 0,
            dirs_created: 0,
        }
    }
}

/// What a restore of one control file is told.
#[derive(Debug)]
pub struct RestoreOption {
    pub source_dir_base: String,
    /// Base path of the data when it was backed up.
    pub original_source_base: String,
    pub target: DataLocation,
    pub target_dir_base: String,
    pub meta_dir: String,
    pub ctrl_dir: String,
    pub control_file: String,
    pub policy: RestorePolicy,
    pub aggregate_config: AggregateConfig,
    pub worker_count: usize,
    pub restore_hardlinks: bool,
    pub restore_mtime: bool,
}

impl RestoreOption {
    pub fn new(
        source_dir_base: String,
        original_source_base: String,
        target: DataLocation,
        meta_dir: String,
        ctrl_dir: String,
        control_file: String,
    ) -> (r: Self)
        ensures
            r.source_dir_base == source_dir_base,
            r.original_source_base == original_source_base,
            r.target == target,
            r.target_dir_base == target.base(),
            r.meta_dir == meta_dir,
            r.ctrl_dir == ctrl_dir,
            r.control_file == control_file,
            r.policy == RestorePolicy::Replace,
            r.aggregate_config == no_aggregation(),
            r.worker_count == 8,
            !r.restore_hardlinks,
            r.restore_mtime,
    {
        let target_dir_base = target.base_path();
        RestoreOption {
            source_dir_base,
            original_source_base,
            target,
            target_dir_base,
            meta_dir,
            ctrl_dir,
            control_file,
            policy: RestorePolicy::default(),
            aggregate_config: AggregateConfig::default(),
            worker_count: 8,
            restore_hardlinks: false,
            restore_mtime: true,
        }
    }

    pub fn policy(self, policy: RestorePolicy) -> (r: Self)
        ensures
            r == (RestoreOption { policy, ..self }),
    {
        let mut option = self;
        option.policy = policy;
        option
    }

    pub fn aggregate_config(self, config: AggregateConfig) -> (r: Self)
        ensures
            r == (RestoreOption { aggregate_config: config, ..self }),
    {
        let mut option = self;
        option.aggregate_config = config;
        option
    }

    pub fn worker_count(self, count: usize) -> (r: Self)
        ensures
            r == (RestoreOption { worker_count: count, ..self }),
    {
        let mut option = self;
        option.worker_count = count;
        option
    }

    pub fn restore_hardlinks(self, enable: bool) -> (r: Self)
        ensures
            r == (RestoreOption { restore_hardlinks: enable, ..self }),
    {
        let mut option = self;
        option.restore_hardlinks = enable;
        option
    }

    pub fn restore_mtime(self, enable: bool) -> (r: Self)
        ensures
            r == (RestoreOption { restore_mtime: enable, ..self }),
    {
        let mut option = self;
        option.restore_mtime = enable;
        option
    }
}

#[derive(Debug)]
pub enum RestoreError {
    InvalidSourcePath,
    InvalidTargetPath,
    InvalidMetaPath,
    InvalidControlFile,
    InsufficientDiskSpace,
    IoError(String),
}

impl RestoreError {
    /// The message shown to users.
    pub fn message(&self) -> (s: String)
        ensures
            s@ == (match *self {
                RestoreError::InvalidSourcePath => "Invalid source path"@,
                RestoreError::InvalidTargetPath => "Invalid target path"@,
                RestoreError::InvalidMetaPath => "Invalid metadata path"@,
                RestoreError::InvalidControlFile => "Invalid control file"@,
                RestoreError::InsufficientDiskSpace => "Insufficient disk space"@,
                RestoreError::IoError(e) => "IO error: "@ + e@,
            }),
    {
        match self {
            RestoreError::InvalidSourcePath => text::copy_of("Invalid source path"),
            RestoreError::InvalidTargetPath => text::copy_of("Invalid target path"),
            RestoreError::InvalidMetaPath => text::copy_of("Invalid metadata path"),
            RestoreError::InvalidControlFile => text::copy_of("Invalid control file"),
            RestoreError::InsufficientDiskSpace => text::copy_of("Insufficient disk space"),
            RestoreError::IoError(e) => text::concat("IO error: ", e.as_str()),
        }
    }
}

/// What a control file is for; one that is for no other phase is for the copy.
#[derive(Debug, Clone, Copy, PartialEq, Eq, Structural)]
pub enum ControlKind {
    Copy,
    Hardlink,
    Delete,
    Mtime,
}

/// What a restore of a control file does.
#[derive(Debug, Clone, Copy, PartialEq, Eq, Structural)]
pub enum RestoreAction {
    Copy,
    Hardlinks,
    Deletes,
    Times,
    /// The phase of the control file is switched off.
    Nothing,
}

/// What a restore does, by what its control file is for and by its options.
pub open spec fn restore_action(o: RestoreOption, kind: ControlKind) -> RestoreAction {
    match kind {
        ControlKind::Hardlink => if o.restore_hardlinks {
            RestoreAction::Hardlinks
        } else {
            RestoreAction::Nothing
        },
        ControlKind::Delete => RestoreAction::Deletes,
        ControlKind::Mtime => if o.restore_mtime {
            RestoreAction::Times
        } else {
            RestoreAction::Nothing
        },
        ControlKind::Copy => RestoreAction::Copy,
    }
}

pub fn run_restore_task(option: &RestoreOption, kind: ControlKind) -> (a: RestoreAction)
    ensures
        a == restore_action(*option, kind),
{
    match kind {
        ControlKind::Hardlink => if option.restore_hardlinks {
            RestoreAction::Hardlinks
        } else {
            RestoreAction::Nothing
        },
        ControlKind::Delete => RestoreAction::Deletes,
        ControlKind::Mtime => if option.restore_mtime {
            RestoreAction::Times
        } else {
            RestoreAction::Nothing
        },
        ControlKind::Copy => RestoreAction::Copy,
    }
}

/// How the copy of a restore is run.
#[derive(Debug)]
pub struct RestoreCopyPlan {
    pub kind: LocationKind,
    /// The name in front of log lines.
    pub label: &'static str,
    /// Directory of a local target, in which existing files are looked up.
    pub local_base: Option<String>,
    /// Connections to an SMB share.
    pub smb_pool_size: Option<usize>,
    pub control_file: String,
    pub meta_dir: String,
    /// Repository that the data are read from.
    pub repo_base: String,
    /// Base path of the data when it was backed up.
    pub original_source_base: String,
    /// Where the repository keeps its blobs.
    pub layout: AggregateLayout,
    pub policy: RestorePolicy,
    pub worker_count: usize,
}

/// Whether a plan runs the copy of a restore as its options say: only for local targets are
/// existing files looked up, so only there does the policy matter.
pub open spec fn plans_restore_copy(plan: RestoreCopyPlan, option: RestoreOption) -> bool {
    let kind = option.target.spec_kind();
    &&& plan.kind == kind
    &&& plan.label@ == (match kind {
        LocationKind::Local => "restore-copy-local"@,
        LocationKind::Nfs => "restore-copy-nfs"@,
        LocationKind::Smb => "restore-copy-smb"@,
    })
    &&& match kind {
        LocationKind::Local => plan.local_base == Some(option.target_dir_base),
        _ => plan.local_base is None,
    }
    &&& plan.smb_pool_size == (if kind != LocationKind::Smb {
        None
    } else if option.worker_count == 0 {
        Some(1usize)
    } else {
        Some(option.worker_count)
    })
    &&& plan.control_file == option.control_file
    &&& plan.meta_dir == option.meta_dir
    &&& plan.repo_base == option.source_dir_base
    &&& plan.original_source_base == option.original_source_base
    &&& plan.layout == option.aggregate_config.layout
    &&& plan.policy == option.policy
    &&& plan.worker_count == option.worker_count
}

/// How the copy of a restore is run: only for local targets are existing files looked
/// up, so only there does the policy matter.
pub fn run_restore_copy_phase(option: &RestoreOption) -> (plan: RestoreCopyPlan)
    ensures
        plans_restore_copy(plan, *option),
{
    let kind = option.target.kind();
    let label = match kind {
        LocationKind::Nfs => "restore-copy-nfs",
        LocationKind::Smb => "restore-copy-smb",
        LocationKind::Local => "restore-copy-local",
    };
    let local_base = match kind {
        LocationKind::Local => Some(option.target_dir_base.clone()),
        _ => None,
    };
    let smb_pool_size: Option<usize> = match kind {
        LocationKind::Smb => if option.worker_count == 0 {
            Some(1)
        } else {
            Some(option.worker_count)
        },
        _ => None,
    };
    RestoreCopyPlan {
        kind,
        label,
        local_base,
        smb_pool_size,
        control_file: option.control_file.clone(),
        meta_dir: option.meta_dir.clone(),
        repo_base: option.source_dir_base.clone(),
        original_source_base: option.original_source_base.clone(),
        layout: option.aggregate_config.layout,
        policy: option.policy,
        worker_count: option.worker_count,
    }
}

/// How a phase of a restore is run.
#[derive(Debug)]
pub struct RestorePhasePlan {
    pub phase: Phase,
    pub kind: LocationKind,
    pub ctrl_dir: String,
    /// Base of the recorded paths.
    pub source_dir_base: String,
    pub destination: Destination,
    pub retry_policy: RetryPolicy,
}

/// Whether a plan runs a phase of a restore as its options say: below the target directory
/// for local targets, and at the root of a server otherwise, with the default retries.
pub open spec fn plans_restore_phase(
    plan: RestorePhasePlan,
    option: RestoreOption,
    phase: Phase,
) -> bool {
    &&& plan.phase == phase
    &&& plan.kind == option.target.spec_kind()
    &&& plan.ctrl_dir == option.ctrl_dir
    &&& plan.source_dir_base == option.original_source_base
    &&& match option.target.spec_kind() {
        LocationKind::Local => plan.destination == Destination::Dir(option.target_dir_base),
        _ => plan.destination matches Destination::Prefix(p) && p@.len() == 0,
    }
    &&& plan.retry_policy == (RetryPolicy {
        max_retries: 3,
        retry_delay_ms: 1000,
        max_retry_delay_ms: 1000,
    })
}

/// How a phase of a restore is run: below the target directory for local targets, and at
/// the root of a server otherwise, with the default retries.
pub fn plan_restore_phase(option: &RestoreOption, phase: Phase) -> (plan: RestorePhasePlan)
    ensures
        plans_restore_phase(plan, *option, phase),
{
    let kind = option.target.kind();
    let destination = match kind {
        LocationKind::Local => Destination::Dir(option.target_dir_base.clone()),
        _ => Destination::Prefix(String::new()),
    };
    RestorePhasePlan {
        phase,
        kind,
        ctrl_dir: option.ctrl_dir.clone(),
        source_dir_base: option.original_source_base.clone(),
        destination,
        retry_policy: RetryPolicy::default(),
    }
}

/// The error about the first path of a restore that does not exist.
pub open spec fn path_error(
    source_exists: bool,
    meta_exists: bool,
    control_exists: bool,
) -> Option<RestoreError> {
    if !source_exists {
        Some(RestoreError::InvalidSourcePath)
    } else if !meta_exists {
        Some(RestoreError::InvalidMetaPath)
    } else if !control_exists {
        Some(RestoreError::InvalidControlFile)
    } else {
        None
    }
}

/// A restore that was started.
#[derive(Debug)]
pub struct RunningRestore {
    pub option: RestoreOption,
    /// What it does.
    pub action: RestoreAction,
    pub stats: RestoreStats,
    /// Set once it has come to its end.
    pub terminated: bool,
}

impl RunningRestore {
    /// The counters as they stand.
    pub fn stats(&self) -> (r: RestoreStats)
        ensures
            r == self.stats,
    {
        self.stats
    }

    /// Whether the restore has come to its end.
    pub fn complete(&self) -> (r: bool)
        ensures
            r == self.terminated,
    {
        self.terminated
    }
}

/// The restore of one control file.
#[derive(Debug)]
pub struct RestoreTask {
    pub option: RestoreOption,
}

impl RestoreTask {
    pub fn new(option: RestoreOption) -> (r: Self)
        ensures
            r.option == option,
    {
        RestoreTask { option }
    }

    /// The name of the control file, which tells what it is for.
    pub fn control_name(&self) -> (s: String)
        ensures
            s@ == (match paths::file_name(self.option.control_file@) {
                Some(n) => n,
                None => Seq::empty(),
            }),
    {
        match paths::file_name_of(self.option.control_file.as_str()) {
            Some(n) => n,
            None => String::new(),
        }
    }

    /// Checks the paths of a restore, given which of them exist: the source, the
    /// metadata and the control file, in this order. Once all are there, the target
    /// directory is to be made.
    pub fn check(&self, source_exists: bool, meta_exists: bool, control_exists: bool) -> (r: Result<
        (),
        RestoreError,
    >)
        ensures
            match path_error(source_exists, meta_exists, control_exists) {
                Some(error) => r == Err::<(), RestoreError>(error),
                None => r is Ok,
            },
    {
        if !source_exists {
            Err(RestoreError::InvalidSourcePath)
        } else if !meta_exists {
            Err(RestoreError::InvalidMetaPath)
        } else if !control_exists {
            Err(RestoreError::InvalidControlFile)
        } else {
            Ok(())
        }
    }

    /// Starts a restore, given which of its paths exist and, where all do, whether the
    /// target directory could be made, and what the control file is for.
    pub fn start(
        self,
        source_exists: bool,
        meta_exists: bool,
        control_exists: bool,
        target_made: Result<(), String>,
        kind: ControlKind,
    ) -> (r: Result<RunningRestore, RestoreError>)
        ensures
            match path_error(source_exists, meta_exists, control_exists) {
                Some(error) => r == Err::<RunningRestore, RestoreError>(error),
                None => match target_made {
                    Err(e) => r == Err::<RunningRestore, RestoreError>(RestoreError::IoError(e)),
                    Ok(_) => r matches Ok(running) && {
                        &&& running.option == self.option
                        &&& running.action == restore_action(self.option, kind)
                        &&& running.stats == no_restore_counts()
                        &&& !running.terminated
                    },
                },
            },
    {
        match self.check(source_exists, meta_exists, control_exists) {
            Err(e) => Err(e),
            Ok(_) => match target_made {
                Err(e) => Err(RestoreError::IoError(e)),
                Ok(_) => {
                    let action = run_restore_task(&self.option, kind);
                    Ok(
                        RunningRestore {
                            option: self.option,
                            action,
                            stats: RestoreStats::default(),
                            terminated: false,
                        },
                    )
                },
            },
        }
    }
}

impl From<RestoreOption> for RestoreTask {
    fn from(option: RestoreOption) -> (r: Self)
        ensures
            r.option == option,
    {
        RestoreTask::new(option)
    }
}

impl vstd::std_specs::convert::FromSpecImpl<RestoreOption> for RestoreTask {
    open spec fn obeys_from_spec() -> bool {
        true
    }

    open spec fn from_spec(v: RestoreOption) -> Self {
        RestoreTask { option: v }
    }
}

/// A backup between local directories has no pipeline of its own but threads, and every
/// other one has a pipeline and no threads. Data goes into the directory of a local target
/// and below the prefix of a server. A share at either end brings its connections along.
pub proof fn law_backups_go_where_their_target_is(plan: BackupPlan, o: BackupOption)
    requires
        plans(plan, o),
    ensures
        plan.route is None <==> o.source is Local && o.target is Local,
        plan.worker_count is Some <==> o.source is Local && o.target is Local,
        plan.worker_count matches Some(n) ==> n == o.worker_count,
        o.target matches DataLocation::Local(p) ==> plan.destination == Destination::Dir(p),
        o.target !is Local ==> plan.destination is Prefix,
        o.target !is Local ==> (o.target_prefix matches Some(p) ==> plan.destination
            == Destination::Prefix(p)),
        o.target !is Local && o.target_prefix is None ==> (
        plan.destination matches Destination::Prefix(p) && p@.len() == 0),
        o.source matches DataLocation::Local(p) ==> plan.source_dir_base == p,
        o.source matches DataLocation::Nfs(l) ==> plan.source_dir_base == l.root,
        o.source matches DataLocation::Smb(l) ==> plan.source_dir_base == l.root,
        plan.smb is Some <==> o.source is Smb || o.target is Smb,
        plan.smb matches Some((connections, tasks)) ==> connections == o.smb_connection_count
            && tasks == o.smb_copy_task_count,
{
}

/// What a backup is told reaches its plan, each setting in its own place.
pub proof fn law_backup_settings_reach_the_plan(plan: BackupPlan, o: BackupOption)
    requires
        plans(plan, o),
    ensures
        (plan.control_file, plan.meta_dir, plan.ctrl_dir) == (
            o.control_file,
            o.meta_dir,
            o.ctrl_dir,
        ),
        (plan.aggregate_config, plan.copy_buffer_size) == (o.aggregate_config, o.copy_buffer_size),
        (plan.retry_policy, plan.failure_log, plan.phase_flags) == (
            o.retry_policy,
            o.failure_log,
            o.phase_flags,
        ),
{
}

/// A restore does what its control file is for. Links and times are left alone where they
/// were switched off, and the switches bear on nothing else.
pub proof fn law_control_files_decide_the_action(o: RestoreOption, kind: ControlKind)
    ensures
        restore_action(o, kind) == RestoreAction::Copy <==> kind == ControlKind::Copy,
        restore_action(o, kind) == RestoreAction::Deletes <==> kind == ControlKind::Delete,
        restore_action(o, kind) == RestoreAction::Hardlinks <==> kind == ControlKind::Hardlink
            && o.restore_hardlinks,
        restore_action(o, kind) == RestoreAction::Times <==> kind == ControlKind::Mtime
            && o.restore_mtime,
        restore_action(o, kind) == RestoreAction::Nothing <==> (kind == ControlKind::Hardlink
            && !o.restore_hardlinks) || (kind == ControlKind::Mtime && !o.restore_mtime),
{
}

/// A restore starts exactly where its source, its metadata and its control file all exist;
/// otherwise the first of them that is missing is named.
pub proof fn law_missing_paths_are_named(source: bool, meta: bool, control: bool)
    ensures
        path_error(source, meta, control) is None <==> source && meta && control,
        !source <==> path_error(source, meta, control) == Some(RestoreError::InvalidSourcePath),
        source && !meta <==> path_error(source, meta, control) == Some(
            RestoreError::InvalidMetaPath,
        ),
        source && meta && !control <==> path_error(source, meta, control) == Some(
            RestoreError::InvalidControlFile,
        ),
{
}

/// Existing files are looked up on local targets only, below the directory that is restored
/// into; data is read from the repository, and its recorded paths keep their own base. A
/// share has as many connections as there are workers, and at least one.
pub proof fn law_restores_read_the_repository(plan: RestoreCopyPlan, option: RestoreOption)
    requires
        plans_restore_copy(plan, option),
    ensures
        plan.local_base is Some <==> option.target is Local,
        plan.local_base matches Some(b) ==> b == option.target_dir_base,
        plan.repo_base == option.source_dir_base,
        plan.original_source_base == option.original_source_base,
        (plan.control_file, plan.meta_dir) == (option.control_file, option.meta_dir),
        (plan.policy, plan.layout, plan.worker_count) == (
            option.policy,
            option.aggregate_config.layout,
            option.worker_count,
        ),
        plan.smb_pool_size is Some <==> option.target is Smb,
        plan.smb_pool_size matches Some(n) ==> n >= 1 && n >= option.worker_count && (
        option.worker_count >= 1 ==> n == option.worker_count),
{
}

/// The phases of a restore work where its copy has written: in the directory of a local
/// target, and at the root of a server.
pub proof fn law_restore_phases_work_on_the_copy(
    plan: RestorePhasePlan,
    copy: RestoreCopyPlan,
    option: RestoreOption,
    phase: Phase,
)
    requires
        plans_restore_phase(plan, option, phase),
        plans_restore_copy(copy, option),
    ensures
        plan.phase == phase,
        plan.kind == copy.kind,
        plan.source_dir_base == copy.original_source_base,
        plan.ctrl_dir == option.ctrl_dir,
        plan.destination matches Destination::Dir(d) ==> copy.local_base == Some(d),
        copy.local_base is Some <==> plan.destination is Dir,
        plan.destination matches Destination::Prefix(p) ==> p@.len() == 0,
        plan.retry_policy.max_retries == 3,
        plan.retry_policy.retry_delay_ms == plan.retry_policy.max_retry_delay_ms,
{
}

} // verus!
