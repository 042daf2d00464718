//! Which pipeline copies between two kinds of locations, and how it is set up.
use vstd::prelude::*;

use crate::aggregate::AggregateConfig;
use crate::entry::{EntryMapping, PathLayout};
use crate::failure::RetryPolicy;
use crate::location::{DataLocation, LocationKind, RemoteLocation};
use crate::metadata::MetaCommon;
use crate::pipelines::{
    nfs_smb_task_limit, smb_copy_task_limit, smb_tasks, NFS_MAX_CONCURRENT_TASKS,
};
use crate::transport::{clamp_copy_buffer_size, clamped_buffer_size};

verus! {

/// The phases that may follow the copy.
#[derive(Debug, Clone, Copy, PartialEq, Eq, Structural)]
pub struct PhaseFlags {
    pub hardlink: bool,
    pub delete: bool,
    pub mtime: bool,
}

impl Default for PhaseFlags {
    fn default() -> (r: Self)
        ensures
            r == (PhaseFlags { hardlink: false, delete: false, mtime: false }),
    {
        PhaseFlags { hardlink: false, delete: false, mtime: false }
    }
}

/// A phase that follows the copy.
#[derive(Debug, Clone, Copy, PartialEq, Eq, Structural)]
pub enum Phase {
    Hardlink,
    Delete,
    Mtime,
}

/// The enabled phases in the order in which they run: links are made before anything is
/// deleted, and times are restored last, when nothing changes a directory any more.
pub open spec fn phases_in_order(flags: PhaseFlags) -> Seq<Phase> {
    (if flags.hardlink {
        seq![Phase::Hardlink]
    } else {
        Seq::empty()
    }) + (if flags.delete {
        seq![Phase::Delete]
    } else {
        Seq::empty()
    }) + (if flags.mtime {
        seq![Phase::Mtime]
    } else {
        Seq::empty()
    })
}

/// The enabled phases in the order in which they run.
pub fn run_post_copy_phases(flags: PhaseFlags) -> (out: Vec<Phase>)
    ensures
        out@ == phases_in_order(flags),
{
    let mut out: Vec<Phase> = Vec::new();
    if flags.hardlink {
        out.push(Phase::Hardlink);
    }
    if flags.delete {
        out.push(Phase::Delete);
    }
    if flags.mtime {
        out.push(Phase::Mtime);
    }
    assert(out@ =~= phases_in_order(flags));
    out
}

/// A source that data is read from.
#[derive(Debug)]
pub enum BackupSource {
    Local { source_dir_base: String },
    Nfs { nfs: RemoteLocation },
    Smb { smb: RemoteLocation },
}

impl BackupSource {
    pub open spec fn spec_kind(&self) -> LocationKind {
        match self {
            BackupSource::Local { .. } => LocationKind::Local,
            BackupSource::Nfs { .. } => LocationKind::Nfs,
            BackupSource::Smb { .. } => LocationKind::Smb,
        }
    }

    /// The source at a location.
    pub fn connect(location: &DataLocation) -> (r: Self)
        ensures
            match *location {
                DataLocation::Local(p) => r == (BackupSource::Local { source_dir_base: p }),
                DataLocation::Nfs(l) => r == (BackupSource::Nfs { nfs: l }),
                DataLocation::Smb(l) => r == (BackupSource::Smb { smb: l }),
            },
            r.spec_kind() == location.spec_kind(),
    {
        match location {
            DataLocation::Local(p) => BackupSource::Local { source_dir_base: p.clone() },
            DataLocation::Nfs(l) => BackupSource::Nfs { nfs: l.clone() },
            DataLocation::Smb(l) => BackupSource::Smb { smb: l.clone() },
        }
    }

    pub fn is_smb(&self) -> (r: bool)
        ensures
            r == (self.spec_kind() == LocationKind::Smb),
    {
        matches!(self, BackupSource::Smb { .. })
    }
}

/// A target that data is written to.
#[derive(Debug)]
pub enum BackupTarget {
    Local { target_dir_base: String },
    Nfs { nfs: RemoteLocation },
    Smb { smb: RemoteLocation },
}

impl BackupTarget {
    pub open spec fn spec_kind(&self) -> LocationKind {
        match self {
            BackupTarget::Local { .. } => LocationKind::Local,
            BackupTarget::Nfs { .. } => LocationKind::Nfs,
            BackupTarget::Smb { .. } => LocationKind::Smb,
        }
    }

    /// The target at a location.
    pub fn connect(location: &DataLocation) -> (r: Self)
        ensures
            match *location {
                DataLocation::Local(p) => r == (BackupTarget::Local { target_dir_base: p }),
                DataLocation::Nfs(l) => r == (BackupTarget::Nfs { nfs: l }),
                DataLocation::Smb(l) => r == (BackupTarget::Smb { smb: l }),
            },
            r.spec_kind() == location.spec_kind(),
    {
        match location {
            DataLocation::Local(p) => BackupTarget::Local { target_dir_base: p.clone() },
            DataLocation::Nfs(l) => BackupTarget::Nfs { nfs: l.clone() },
            DataLocation::Smb(l) => BackupTarget::Smb { smb: l.clone() },
        }
    }

    pub fn is_smb(&self) -> (r: bool)
        ensures
            r == (self.spec_kind() == LocationKind::Smb),
    {
        matches!(self, BackupTarget::Smb { .. })
    }

    pub fn is_local(&self) -> (r: bool)
        ensures
            r == (self.spec_kind() == LocationKind::Local),
    {
        matches!(self, BackupTarget::Local { .. })
    }
}

/// How many clients a pool of SMB clients has: at least one.
pub fn smb_pool_size(smb_connection_count: usize) -> (n: usize)
    ensures
        n == (if smb_connection_count == 0 {
            1
        } else {
            smb_connection_count
        }),
{
    if smb_connection_count == 0 {
        1
    } else {
        smb_connection_count
    }
}

// ---------------------------------------------------------------------------
// Routes
// ---------------------------------------------------------------------------

/// A pipeline between two kinds of locations, at least one of which is a server.
#[derive(Debug, Clone, Copy, PartialEq, Eq, Structural)]
pub enum CopyRoute {
    LocalToNfs,
    LocalToSmb,
    NfsToLocal,
    NfsToNfs,
    NfsToSmb,
    SmbToLocal,
    SmbToNfs,
    SmbToSmb,
}

/// The pipeline between two kinds of locations; local files are copied without one.
pub open spec fn route_between(source: LocationKind, target: LocationKind) -> Option<CopyRoute> {
    match (source, target) {
        (LocationKind::Local, LocationKind::Local) => None,
        (LocationKind::Local, LocationKind::Nfs) => Some(CopyRoute::LocalToNfs),
        (LocationKind::Local, LocationKind::Smb) => Some(CopyRoute::LocalToSmb),
        (LocationKind::Nfs, LocationKind::Local) => Some(CopyRoute::NfsToLocal),
        (LocationKind::Nfs, LocationKind::Nfs) => Some(CopyRoute::NfsToNfs),
        (LocationKind::Nfs, LocationKind::Smb) => Some(CopyRoute::NfsToSmb),
        (LocationKind::Smb, LocationKind::Local) => Some(CopyRoute::SmbToLocal),
        (LocationKind::Smb, LocationKind::Nfs) => Some(CopyRoute::SmbToNfs),
        (LocationKind::Smb, LocationKind::Smb) => Some(CopyRoute::SmbToSmb),
    }
}

pub fn select_route(source: LocationKind, target: LocationKind) -> (r: Option<CopyRoute>)
    ensures
        r == route_between(source, target),
{
    match (source, target) {
        (LocationKind::Local, LocationKind::Local) => None,
        (LocationKind::Local, LocationKind::Nfs) => Some(CopyRoute::LocalToNfs),
        (LocationKind::Local, LocationKind::Smb) => Some(CopyRoute::LocalToSmb),
        (LocationKind::Nfs, LocationKind::Local) => Some(CopyRoute::NfsToLocal),
        (LocationKind::Nfs, LocationKind::Nfs) => Some(CopyRoute::NfsToNfs),
        (LocationKind::Nfs, LocationKind::Smb) => Some(CopyRoute::NfsToSmb),
        (LocationKind::Smb, LocationKind::Local) => Some(CopyRoute::SmbToLocal),
        (LocationKind::Smb, LocationKind::Nfs) => Some(CopyRoute::SmbToNfs),
        (LocationKind::Smb, LocationKind::Smb) => Some(CopyRoute::SmbToSmb),
    }
}

/// No two pairs of kinds share a pipeline.
pub proof fn law_routes_are_distinct(
    s1: LocationKind,
    t1: LocationKind,
    s2: LocationKind,
    t2: LocationKind,
)
    requires
        route_between(s1, t1) == route_between(s2, t2),
    ensures
        s1 == s2,
        t1 == t2,
{
}

impl CopyRoute {
    pub open spec fn name(self) -> Seq<char> {
        match self {
            CopyRoute::LocalToNfs => "local->NFS"@,
            CopyRoute::LocalToSmb => "local->SMB"@,
            CopyRoute::NfsToLocal => "NFS->local"@,
            CopyRoute::NfsToNfs => "NFS->NFS"@,
            CopyRoute::NfsToSmb => "NFS->SMB"@,
            CopyRoute::SmbToLocal => "SMB->local"@,
            CopyRoute::SmbToNfs => "SMB->NFS"@,
            CopyRoute::SmbToSmb => "SMB->SMB"@,
        }
    }

    /// The name in front of log lines.
    pub fn label(self) -> (s: &'static str)
        ensures
            s@ == self.name(),
    {
        match self {
            CopyRoute::LocalToNfs => "local->NFS",
            CopyRoute::LocalToSmb => "local->SMB",
            CopyRoute::NfsToLocal => "NFS->local",
            CopyRoute::NfsToNfs => "NFS->NFS",
            CopyRoute::NfsToSmb => "NFS->SMB",
            CopyRoute::SmbToLocal => "SMB->local",
            CopyRoute::SmbToNfs => "SMB->NFS",
            CopyRoute::SmbToSmb => "SMB->SMB",
        }
    }

    /// Most files that the pipeline copies at once.
    pub open spec fn task_limit(self, pool_size: usize, configured: usize) -> usize {
        match self {
            CopyRoute::LocalToNfs => NFS_MAX_CONCURRENT_TASKS,
            CopyRoute::NfsToLocal => NFS_MAX_CONCURRENT_TASKS,
            CopyRoute::NfsToNfs => NFS_MAX_CONCURRENT_TASKS,
            CopyRoute::LocalToSmb => smb_tasks(pool_size, configured),
            CopyRoute::SmbToLocal => smb_tasks(pool_size, configured),
            CopyRoute::SmbToSmb => smb_tasks(pool_size, configured),
            _ => if smb_tasks(pool_size, configured) < NFS_MAX_CONCURRENT_TASKS {
                smb_tasks(pool_size, configured)
            } else {
                NFS_MAX_CONCURRENT_TASKS
            },
        }
    }

    pub fn max_concurrent_tasks(self, pool_size: usize, configured: usize) -> (n: usize)
        ensures
            n == self.task_limit(pool_size, configured),
            1 <= n <= 32,
    {
        match self {
            CopyRoute::LocalToNfs => NFS_MAX_CONCURRENT_TASKS,
            CopyRoute::NfsToLocal => NFS_MAX_CONCURRENT_TASKS,
            CopyRoute::NfsToNfs => NFS_MAX_CONCURRENT_TASKS,
            CopyRoute::LocalToSmb => smb_copy_task_limit(pool_size, configured),
            CopyRoute::SmbToLocal => smb_copy_task_limit(pool_size, configured),
            CopyRoute::SmbToSmb => smb_copy_task_limit(pool_size, configured),
            CopyRoute::NfsToSmb => nfs_smb_task_limit(pool_size, configured),
            CopyRoute::SmbToNfs => nfs_smb_task_limit(pool_size, configured),
        }
    }
}

/// What a backup between two locations is told.
#[derive(Debug)]
pub struct BackupPipelineParams {
    pub control_file: String,
    pub meta_dir: String,
    pub ctrl_dir: String,
    pub source_dir_base: String,
    pub target_prefix: String,
    pub aggregate_config: AggregateConfig,
    pub copy_buffer_size: usize,
    pub retry_policy: RetryPolicy,
    pub phase_flags: PhaseFlags,
    pub smb_connection_count: usize,
    pub smb_copy_task_count: usize,
}

/// A copy that is ready to run.
#[derive(Debug)]
pub struct CopyRun {
    pub route: CopyRoute,
    pub mapping: EntryMapping,
    /// Repository that blobs and their index belong to; empty for local targets.
    pub repo_prefix: String,
    pub copy_buffer_size: usize,
    pub max_concurrent_tasks: usize,
    /// Files are streamed from share to share, without being collected into blobs.
    pub streaming: bool,
    pub control_file: String,
    pub meta_dir: String,
    /// Base of the recorded paths.
    pub source_dir_base: String,
    /// Directory of a local target, or prefix on a server.
    pub destination: String,
    pub aggregate_config: AggregateConfig,
    pub retry_policy: RetryPolicy,
}

/// Whether a run copies from a source to a target as the parameters say.
pub open spec fn copies(
    run: CopyRun,
    source: BackupSource,
    target: BackupTarget,
    params: BackupPipelineParams,
) -> bool {
    &&& route_between(source.spec_kind(), target.spec_kind()) == Some(run.route)
    &&& match (source, target) {
        (BackupSource::Local { source_dir_base }, _) => {
            &&& run.mapping.dir_source == (PathLayout::LocalSource { root: source_dir_base })
            &&& run.mapping.file_source == (PathLayout::LocalSource { root: source_dir_base })
            &&& run.mapping.dir_target == (PathLayout::PrefixedLogicalTarget {
                prefix: params.target_prefix,
            })
            &&& run.mapping.file_target == (PathLayout::PrefixedLogicalTarget {
                prefix: params.target_prefix,
            })
        },
        (_, BackupTarget::Local { .. }) => {
            &&& run.mapping.dir_source == PathLayout::RemoteSource
            &&& run.mapping.file_source == PathLayout::RemoteSource
            &&& run.mapping.dir_target == PathLayout::LogicalTarget
            &&& run.mapping.file_target == PathLayout::LogicalTarget
        },
        _ => {
            &&& run.mapping.dir_source == PathLayout::RemoteSource
            &&& run.mapping.file_source == PathLayout::RemoteSource
            &&& run.mapping.dir_target == (PathLayout::PrefixedLogicalTarget {
                prefix: params.target_prefix,
            })
            &&& run.mapping.file_target == (PathLayout::PrefixedLogicalTarget {
                prefix: params.target_prefix,
            })
        },
    }
    &&& target.spec_kind() == LocationKind::Local ==> run.repo_prefix@.len() == 0
    &&& target.spec_kind() != LocationKind::Local ==> run.repo_prefix == params.target_prefix
    &&& run.copy_buffer_size == clamped_buffer_size(params.copy_buffer_size)
    &&& run.max_concurrent_tasks == run.route.task_limit(
        if params.smb_connection_count == 0 {
            1
        } else {
            params.smb_connection_count
        },
        params.smb_copy_task_count,
    )
    &&& run.streaming == (run.route == CopyRoute::SmbToSmb && !params.aggregate_config.enabled)
    &&& run.control_file == params.control_file
    &&& run.meta_dir == params.meta_dir
    &&& run.source_dir_base == (match source {
        BackupSource::Local { source_dir_base } => source_dir_base,
        _ => params.source_dir_base,
    })
    &&& run.destination == (match target {
        BackupTarget::Local { target_dir_base } => target_dir_base,
        _ => params.target_prefix,
    })
    &&& run.aggregate_config == params.aggregate_config
    &&& run.retry_policy == params.retry_policy
}

/// The copy between a source and a target. Between local files there is none: they are
/// copied by the local pipeline.
pub fn run_copy_for_source_target(
    source: &BackupSource,
    target: &BackupTarget,
    params: &BackupPipelineParams,
) -> (r: Option<CopyRun>)
    ensures
        match r {
            Some(run) => copies(run, *source, *target, *params),
            None => route_between(source.spec_kind(), target.spec_kind()) is None,
        },
{
    let source_kind = match source {
        BackupSource::Local { .. } => LocationKind::Local,
        BackupSource::Nfs { .. } => LocationKind::Nfs,
        BackupSource::Smb { .. } => LocationKind::Smb,
    };
    let target_kind = match target {
        BackupTarget::Local { .. } => LocationKind::Local,
        BackupTarget::Nfs { .. } => LocationKind::Nfs,
        BackupTarget::Smb { .. } => LocationKind::Smb,
    };
    let route = match select_route(source_kind, target_kind) {
        Some(route) => route,
        None => {
            return None;
        },
    };
    let mapping = match source {
        BackupSource::Local { source_dir_base } => EntryMapping::local_to_prefixed_target(
            source_dir_base.clone(),
            params.target_prefix.clone(),
        ),
        _ => if target.is_local() {
            EntryMapping::remote_to_local()
        } else {
            EntryMapping::remote_to_prefixed_target(params.target_prefix.clone())
        },
    };
    let repo_prefix = if target.is_local() {
        String::new()
    } else {
        params.target_prefix.clone()
    };
    let pool_size: usize = smb_pool_size(params.smb_connection_count);
    let source_dir_base = match source {
        BackupSource::Local { source_dir_base } => source_dir_base.clone(),
        _ => params.source_dir_base.clone(),
    };
    let destination = match target {
        BackupTarget::Local { target_dir_base } => target_dir_base.clone(),
        _ => params.target_prefix.clone(),
    };
    Some(
        CopyRun {
            route,
            mapping,
            repo_prefix,
            copy_buffer_size: clamp_copy_buffer_size(params.copy_buffer_size),
            max_concurrent_tasks: route.max_concurrent_tasks(
                pool_size,
                params.smb_copy_task_count,
            ),
            streaming: source.is_smb() && target.is_smb() && !params.aggregate_config.enabled,
            control_file: params.control_file.clone(),
            meta_dir: params.meta_dir.clone(),
            source_dir_base,
            destination,
            aggregate_config: params.aggregate_config,
            retry_policy: params.retry_policy,
        },
    )
}

/// The message about a server that could not be reached.
pub open spec fn connect_message(server: LocationKind, as_source: bool, detail: Seq<char>) -> Seq<char> {
    (if server == LocationKind::Nfs {
        "NFS "@
    } else {
        "SMB "@
    }) + (if as_source {
        "source"@
    } else {
        "target"@
    }) + " connect failed: "@ + detail
}

/// The message about a server that could not be reached.
pub fn connect_error(server: LocationKind, as_source: bool, detail: &str) -> (s: String)
    requires
        server != LocationKind::Local,
    ensures
        s@ == connect_message(server, as_source, detail@),
{
    let mut s = match server {
        LocationKind::Nfs => crate::text::copy_of("NFS "),
        _ => crate::text::copy_of("SMB "),
    };
    s.append(
        if as_source {
            "source"
        } else {
            "target"
        },
    );
    s.append(" connect failed: ");
    s.append(detail);
    s
}

/// A whole backup between two locations, once both were connected to: the copy, and the
/// phases behind it. The first location that could not be connected to ends it.
pub fn run_backup(
    source: Result<BackupSource, String>,
    target: Result<BackupTarget, String>,
    params: &BackupPipelineParams,
) -> (r: Result<(CopyRun, Vec<Phase>), String>)
    requires
        (source is Ok && target is Ok) ==> route_between(
            source->Ok_0.spec_kind(),
            target->Ok_0.spec_kind(),
        ) is Some,
    ensures
        runs_backup(source, target, *params, r),
{
    let source = match source {
        Ok(s) => s,
        Err(m) => {
            return Err(m);
        },
    };
    let target = match target {
        Ok(t) => t,
        Err(m) => {
            return Err(m);
        },
    };
    match run_copy_for_source_target(&source, &target, params) {
        Some(run) => Ok((run, run_post_copy_phases(params.phase_flags))),
        None => vstd::pervasive::unreached(),
    }
}

// ---------------------------------------------------------------------------
// Operations of restore targets
// ---------------------------------------------------------------------------

/// What a target of a restore does besides writing files. By default it does nothing:
/// only local targets know symbolic links and local metadata.
pub trait RestoreOps {
    fn create_symlink(&self, _link_path: &str, _target: &str) -> (r: Result<(), String>)
        default_ensures
            r is Ok,
    {
        Ok(())
    }

    fn restore_metadata(&self, _path: &str, _meta: &MetaCommon) {
    }
}

/// A phase runs exactly where it is switched on, each at most once; links are made before
/// anything is deleted, and times are set last.
pub proof fn law_phases_run_in_order(flags: PhaseFlags, i: int, j: int)
    ensures
        phases_in_order(flags).contains(Phase::Hardlink) <==> flags.hardlink,
        phases_in_order(flags).contains(Phase::Delete) <==> flags.delete,
        phases_in_order(flags).contains(Phase::Mtime) <==> flags.mtime,
        0 <= i < j < phases_in_order(flags).len() ==> phases_in_order(flags)[i]
            != phases_in_order(flags)[j] && phases_in_order(flags)[i] != Phase::Mtime
            && phases_in_order(flags)[j] != Phase::Hardlink,
{
    let s = phases_in_order(flags);
    let h: int = if flags.hardlink {
        1
    } else {
        0
    };
    let d: int = if flags.delete {
        1
    } else {
        0
    };
    if flags.hardlink {
        assert(s[0] == Phase::Hardlink);
    }
    if flags.delete {
        assert(s[h] == Phase::Delete);
    }
    if flags.mtime {
        assert(s[h + d] == Phase::Mtime);
    }
}

/// A route leads from its source to its target: which pipeline runs follows from the two
/// kinds, and only local files are copied without one.
pub proof fn law_routes_join_their_ends(source: LocationKind, target: LocationKind)
    ensures
        route_between(source, target) is None <==> source == LocationKind::Local && target
            == LocationKind::Local,
        route_between(source, target) matches Some(r) ==> {
            &&& (r == CopyRoute::LocalToNfs || r == CopyRoute::LocalToSmb) <==> source
                == LocationKind::Local
            &&& (r == CopyRoute::NfsToLocal || r == CopyRoute::NfsToNfs || r == CopyRoute::NfsToSmb)
                <==> source == LocationKind::Nfs
            &&& (r == CopyRoute::SmbToLocal || r == CopyRoute::SmbToNfs || r == CopyRoute::SmbToSmb)
                <==> source == LocationKind::Smb
            &&& (r == CopyRoute::NfsToLocal || r == CopyRoute::SmbToLocal) <==> target
                == LocationKind::Local
            &&& (r == CopyRoute::LocalToNfs || r == CopyRoute::NfsToNfs || r == CopyRoute::SmbToNfs)
                <==> target == LocationKind::Nfs
            &&& (r == CopyRoute::LocalToSmb || r == CopyRoute::NfsToSmb || r == CopyRoute::SmbToSmb)
                <==> target == LocationKind::Smb
        },
{
}

/// As many files are copied at once as were asked for, within bounds: no share takes more
/// than 32, no export more than 16, and one is always copied. Exports do not heed what was
/// asked for shares.
pub proof fn law_task_limits(route: CopyRoute, pool_size: usize, configured: usize)
    ensures
        ({
            let n = route.task_limit(pool_size, configured);
            let with_nfs = route == CopyRoute::LocalToNfs || route == CopyRoute::NfsToLocal || route
                == CopyRoute::NfsToNfs || route == CopyRoute::NfsToSmb || route
                == CopyRoute::SmbToNfs;
            let with_smb = route == CopyRoute::LocalToSmb || route == CopyRoute::SmbToLocal || route
                == CopyRoute::SmbToSmb || route == CopyRoute::NfsToSmb || route
                == CopyRoute::SmbToNfs;
            &&& 1 <= n <= 32
            &&& with_nfs ==> n <= 16
            &&& !with_smb ==> n == 16
            &&& with_smb && 1 <= configured <= 16 ==> n == configured
            &&& !with_nfs && 1 <= configured <= 32 ==> n == configured
            &&& !with_nfs && configured > 32 ==> n == 32
            &&& with_smb && configured == 0 && 1 <= pool_size <= 8 ==> n == 2 * pool_size
            &&& with_smb && configured == 0 && pool_size > 8 ==> n == 16
            &&& with_smb && configured == 0 && pool_size == 0 ==> n == 2
        }),
{
}

/// Where a run reads and writes: a recorded path is written as a whole below the prefix of a
/// server, and as a whole below the directory of a local target; and what lies below the
/// logical root is read below the local source, or at its place on the server.
pub proof fn law_runs_read_and_write_the_recorded_paths(
    run: CopyRun,
    source: BackupSource,
    target: BackupTarget,
    params: BackupPipelineParams,
    rel: Seq<char>,
    base: Seq<char>,
)
    requires
        copies(run, source, target, params),
        crate::paths::is_clean(rel),
        crate::paths::is_clean(base),
    ensures
        ({
            let root = seq!['/'] + base;
            let path = seq!['/'] + crate::paths::join(base, rel);
            let whole = crate::paths::join(base, rel);
            &&& target !is Local ==> {
                &&& crate::entry::control_path(run.mapping.dir_target, path, root)
                    == crate::paths::join(params.target_prefix@, whole)
                &&& crate::entry::control_path(run.mapping.file_target, path, root)
                    == crate::paths::join(params.target_prefix@, whole)
            }
            &&& target is Local ==> {
                &&& crate::entry::control_path(run.mapping.dir_target, path, root) == whole
                &&& crate::entry::control_path(run.mapping.file_target, path, root) == whole
            }
            &&& source matches BackupSource::Local { source_dir_base } ==> {
                &&& crate::entry::control_path(run.mapping.dir_source, path, root)
                    == crate::paths::join(source_dir_base@, rel)
                &&& crate::entry::control_path(run.mapping.file_source, path, root)
                    == crate::paths::join(source_dir_base@, rel)
            }
            &&& source !is Local ==> {
                &&& crate::entry::control_path(run.mapping.dir_source, path, root) == rel
                &&& crate::entry::control_path(run.mapping.file_source, path, root) == rel
            }
        }),
{
    let root = seq!['/'] + base;
    let whole = crate::paths::join(base, rel);
    crate::paths::lemma_clean_join(base, rel);
    crate::entry::law_logical_target_is_the_recorded_path(whole, params.target_prefix, root);
    match source {
        BackupSource::Local { source_dir_base } => {
            crate::entry::law_source_is_read_below_its_root(rel, base, source_dir_base);
        },
        _ => {
            crate::entry::law_source_is_read_below_its_root(rel, base, params.target_prefix);
        },
    }
}

/// What a run is told reaches it. Files are streamed only from share to share, and only
/// where none are collected; blobs belong to the prefix that the data lies below.
pub proof fn law_run_settings(
    run: CopyRun,
    source: BackupSource,
    target: BackupTarget,
    params: BackupPipelineParams,
)
    requires
        copies(run, source, target, params),
    ensures
        run.streaming <==> source is Smb && target is Smb && !params.aggregate_config.enabled,
        target is Local ==> run.repo_prefix@.len() == 0,
        target !is Local ==> run.repo_prefix == params.target_prefix && run.destination
            == params.target_prefix,
        target matches BackupTarget::Local { target_dir_base } ==> run.destination
            == target_dir_base,
        source matches BackupSource::Local { source_dir_base } ==> run.source_dir_base
            == source_dir_base,
        source !is Local ==> run.source_dir_base == params.source_dir_base,
        (run.control_file, run.meta_dir) == (params.control_file, params.meta_dir),
        (run.aggregate_config, run.retry_policy) == (params.aggregate_config, params.retry_policy),
        262_144 <= run.copy_buffer_size <= 4_194_304,
        262_144 <= params.copy_buffer_size <= 4_194_304 ==> run.copy_buffer_size
            == params.copy_buffer_size,
        1 <= run.max_concurrent_tasks <= 32,
{
    law_task_limits(
        run.route,
        if params.smb_connection_count == 0 {
            1
        } else {
            params.smb_connection_count
        },
        params.smb_copy_task_count,
    );
}

/// Whether `r` is a whole backup, or the message about the first location that could not be
/// connected to.
pub open spec fn runs_backup(
    source: Result<BackupSource, String>,
    target: Result<BackupTarget, String>,
    params: BackupPipelineParams,
    r: Result<(CopyRun, Vec<Phase>), String>,
) -> bool {
    match (source, target) {
        (Err(m), _) => r == Err::<(CopyRun, Vec<Phase>), String>(m),
        (Ok(_), Err(m)) => r == Err::<(CopyRun, Vec<Phase>), String>(m),
        (Ok(a), Ok(b)) => r matches Ok((run, phases)) && copies(run, a, b, params) && phases@
            == phases_in_order(params.phase_flags),
    }
}

/// A backup runs only where both locations were connected to, and its copy comes before all
/// other phases.
pub proof fn law_backups_need_both_locations(
    source: Result<BackupSource, String>,
    target: Result<BackupTarget, String>,
    params: BackupPipelineParams,
    r: Result<(CopyRun, Vec<Phase>), String>,
)
    requires
        runs_backup(source, target, params, r),
    ensures
        r is Ok <==> source is Ok && target is Ok,
        source matches Err(m) ==> r == Err::<(CopyRun, Vec<Phase>), String>(m),
        r matches Ok((run, phases)) ==> copies(run, source->Ok_0, target->Ok_0, params) && phases@
            == phases_in_order(params.phase_flags),
{
}

/// A message about a server says which kind it is and on which side it stood.
pub proof fn law_messages_name_the_server(detail: Seq<char>)
    ensures
        connect_message(LocationKind::Nfs, true, detail) == "NFS source connect failed: "@ + detail,
        connect_message(LocationKind::Nfs, false, detail) == "NFS target connect failed: "@ + detail,
        connect_message(LocationKind::Smb, true, detail) == "SMB source connect failed: "@ + detail,
        connect_message(LocationKind::Smb, false, detail) == "SMB target connect failed: "@ + detail,
{
    reveal_strlit("NFS ");
    reveal_strlit("SMB ");
    reveal_strlit("source");
    reveal_strlit("target");
    reveal_strlit(" connect failed: ");
    reveal_strlit("NFS source connect failed: ");
    reveal_strlit("NFS target connect failed: ");
    reveal_strlit("SMB source connect failed: ");
    reveal_strlit("SMB target connect failed: ");
    assert("NFS "@ + "source"@ + " connect failed: "@ =~= "NFS source connect failed: "@);
    assert("NFS "@ + "target"@ + " connect failed: "@ =~= "NFS target connect failed: "@);
    assert("SMB "@ + "source"@ + " connect failed: "@ =~= "SMB source connect failed: "@);
    assert("SMB "@ + "target"@ + " connect failed: "@ =~= "SMB target connect failed: "@);
}

} // verus!
