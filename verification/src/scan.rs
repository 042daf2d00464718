//! Scans: what is asked of the scanner, and what its results come to.
use vstd::prelude::*;

use crate::cli::{parse_data_location, RemoteSpec};
use crate::failure::{failure_file_path, FailureLogConfig, FailureLogFormat, RetryPolicy};
use crate::location::DataLocation;
use crate::text;

verus! {

// ---------------------------------------------------------------------------
// Options
// ---------------------------------------------------------------------------

/// Patterns of paths that a scan takes or leaves.
#[derive(Debug)]
pub struct ScanPathFilterSpec {
    pub include_dir_patterns: Vec<String>,
    pub include_file_patterns: Vec<String>,
    pub exclude_dir_patterns: Vec<String>,
    pub exclude_file_patterns: Vec<String>,
}

impl Default for ScanPathFilterSpec {
    fn default() -> (r: Self)
        ensures
            r.include_dir_patterns@.len() == 0,
            r.include_file_patterns@.len() == 0,
            r.exclude_dir_patterns@.len() == 0,
            r.exclude_file_patterns@.len() == 0,
    {
        ScanPathFilterSpec {
            include_dir_patterns: Vec::new(),
            include_file_patterns: Vec::new(),
            exclude_dir_patterns: Vec::new(),
            exclude_file_patterns: Vec::new(),
        }
    }
}

/// How operations are tried again, as a request states it.
#[derive(Debug, Clone, Copy, PartialEq, Eq, Structural)]
pub struct RetryPolicySpec {
    pub operation_retries: u32,
    pub retry_delay_ms: u64,
    pub retry_max_delay_ms: u64,
}

impl Default for RetryPolicySpec {
    fn default() -> (r: Self)
        ensures
            r == (RetryPolicySpec {
                operation_retries: 3,
                retry_delay_ms: 1000,
                retry_max_delay_ms: 1000,
            }),
    {
        RetryPolicySpec { operation_retries: 3, retry_delay_ms: 1000, retry_max_delay_ms: 1000 }
    }
}

impl RetryPolicySpec {
    pub open spec fn policy(self) -> RetryPolicy {
        RetryPolicy {
            max_retries: self.operation_retries,
            retry_delay_ms: self.retry_delay_ms,
            max_retry_delay_ms: if self.retry_max_delay_ms > self.retry_delay_ms {
                self.retry_max_delay_ms
            } else {
                self.retry_delay_ms
            },
        }
    }

    pub fn build(&self) -> (r: RetryPolicy)
        ensures
            r == self.policy(),
    {
        RetryPolicy::new(self.operation_retries, self.retry_delay_ms).with_max_delay(
            self.retry_max_delay_ms,
        )
    }
}

/// A scan as it is asked for, on the command line or in a request.
#[derive(Debug)]
pub struct ScanTaskSpec {
    pub source: String,
    pub ctrl_dir: String,
    pub meta_dir: String,
    pub temp_dir: String,
    pub workers: usize,
    pub writers: usize,
    pub follow_symlinks: bool,
    pub scan_hidden: bool,
    pub max_depth: Option<usize>,
    pub scan_acl: bool,
    pub scan_xattrs: bool,
    pub scan_hardlinks: bool,
    pub skip_block_devices: bool,
    pub skip: Vec<String>,
    pub filters: ScanPathFilterSpec,
    pub prev_meta_dir: Option<String>,
    pub shard: bool,
    pub shard_num: usize,
    pub shard_max_entries_copy: Option<usize>,
    pub shard_max_entries_other: Option<usize>,
    pub shard_max_size: Option<u64>,
    pub smb_query_buffer_mb: u32,
    pub nfs_connections: usize,
    pub nfs_uid: Option<u32>,
    pub nfs_gid: Option<u32>,
    pub stats_only: bool,
    pub failure_log_format: Option<FailureLogFormat>,
    pub retry: RetryPolicySpec,
    pub verbose: u8,
}

/// What the scanner is told.
#[derive(Debug)]
pub struct ScanOption {
    pub ctrl_dir: String,
    pub meta_dir: String,
    pub temp_dir: String,
    pub worker_count: usize,
    pub writer_count: usize,
    pub follow_symlinks: bool,
    pub scan_hidden: bool,
    pub max_depth: Option<usize>,
    pub scan_acl: bool,
    pub scan_xattrs: bool,
    pub scan_hardlinks: bool,
    pub skip_block_devices: bool,
    pub skip_entries: Vec<String>,
    pub path_filters: ScanPathFilterSpec,
    pub prev_meta_dir: Option<String>,
    pub enable_sharding: bool,
    pub shard_num: usize,
    /// The scanner has limits of its own where these are not given.
    pub shard_max_entries_copy: Option<usize>,
    pub shard_max_entries_other: Option<usize>,
    pub shard_max_size: Option<u64>,
    /// Bytes.
    pub smb_query_buffer_size: u32,
    pub stats_only: bool,
    pub failure_log: Option<FailureLogConfig>,
    pub retry_policy: RetryPolicy,
}

/// MiB as bytes, or the largest number where they are too many.
pub open spec fn mib(n: u32) -> u32 {
    if n * 1_048_576 > u32::MAX {
        u32::MAX
    } else {
        (n * 1_048_576) as u32
    }
}

/// Whether a log of failures is kept where it was asked for: beside the control files.
pub open spec fn logs_failures(
    log: Option<FailureLogConfig>,
    format: Option<FailureLogFormat>,
    ctrl_dir: Seq<char>,
) -> bool {
    match format {
        None => log is None,
        Some(f) => log matches Some(c) && c.format == f && c.path@ == crate::paths::join(
            ctrl_dir,
            "SCAN_FAILURE"@ + "."@ + f.suffix(),
        ),
    }
}

/// Whether the scanner is told what the request states.
pub open spec fn tells_scanner(o: ScanOption, s: ScanTaskSpec) -> bool {
    &&& o.ctrl_dir == s.ctrl_dir
    &&& o.meta_dir == s.meta_dir
    &&& o.temp_dir == s.temp_dir
    &&& o.worker_count == s.workers
    &&& o.writer_count == s.writers
    &&& o.follow_symlinks == s.follow_symlinks
    &&& o.scan_hidden == s.scan_hidden
    &&& o.max_depth == s.max_depth
    &&& o.scan_acl == s.scan_acl
    &&& o.scan_xattrs == s.scan_xattrs
    &&& o.scan_hardlinks == s.scan_hardlinks
    &&& o.skip_block_devices == s.skip_block_devices
    &&& o.skip_entries == s.skip
    &&& o.path_filters == s.filters
    &&& o.prev_meta_dir == s.prev_meta_dir
    &&& o.enable_sharding == s.shard
    &&& o.shard_num == s.shard_num
    &&& o.shard_max_entries_copy == s.shard_max_entries_copy
    &&& o.shard_max_entries_other == s.shard_max_entries_other
    &&& o.shard_max_size == s.shard_max_size
    &&& o.smb_query_buffer_size == mib(s.smb_query_buffer_mb)
    &&& o.stats_only == s.stats_only
    &&& logs_failures(o.failure_log, s.failure_log_format, s.ctrl_dir@)
    &&& o.retry_policy == s.retry.policy()
}

/// What the scanner is told.
pub fn build_scan_option(spec: ScanTaskSpec) -> (r: ScanOption)
    ensures
        tells_scanner(r, spec),
{
    let failure_log = match spec.failure_log_format {
        Some(format) => Some(
            FailureLogConfig::new(
                failure_file_path(spec.ctrl_dir.as_str(), "SCAN_FAILURE", format),
                format,
            ),
        ),
        None => None,
    };
    let retry_policy = spec.retry.build();
    ScanOption {
        ctrl_dir: spec.ctrl_dir,
        meta_dir: spec.meta_dir,
        temp_dir: spec.temp_dir,
        worker_count: spec.workers,
        writer_count: spec.writers,
        follow_symlinks: spec.follow_symlinks,
        scan_hidden: spec.scan_hidden,
        max_depth: spec.max_depth,
        scan_acl: spec.scan_acl,
        scan_xattrs: spec.scan_xattrs,
        scan_hardlinks: spec.scan_hardlinks,
        skip_block_devices: spec.skip_block_devices,
        skip_entries: spec.skip,
        path_filters: spec.filters,
        prev_meta_dir: spec.prev_meta_dir,
        enable_sharding: spec.shard,
        shard_num: spec.shard_num,
        shard_max_entries_copy: spec.shard_max_entries_copy,
        shard_max_entries_other: spec.shard_max_entries_other,
        shard_max_size: spec.shard_max_size,
        smb_query_buffer_size: match spec.smb_query_buffer_mb.checked_mul(1_048_576) {
            Some(bytes) => bytes,
            None => u32::MAX,
        },
        stats_only: spec.stats_only,
        failure_log,
        retry_policy,
    }
}

// ---------------------------------------------------------------------------
// Sources
// ---------------------------------------------------------------------------

/// The effective user and group of this process.
#[derive(Debug, Clone, Copy, PartialEq, Eq, Structural)]
pub struct ProcessUser {
    pub uid: u32,
    pub gid: u32,
}

/// A parsed URL in which the user and the group of this process stand in for root.
pub open spec fn as_process_user(remote: RemoteSpec, user: ProcessUser) -> RemoteSpec {
    match remote {
        RemoteSpec::Parsed(Ok(l)) => RemoteSpec::Parsed(
            Ok(
                crate::location::RemoteLocation {
                    uid: if l.uid == 0 {
                        user.uid
                    } else {
                        l.uid
                    },
                    gid: if l.gid == 0 {
                        user.gid
                    } else {
                        l.gid
                    },
                    ..l
                },
            ),
        ),
        _ => remote,
    }
}

/// Whether a result is the location of a scan or of a task of the server: on an NFS
/// server root is replaced by the user of this process, unless a user is given.
pub open spec fn task_location(
    spec: String,
    remote: RemoteSpec,
    connections: usize,
    uid: Option<u32>,
    gid: Option<u32>,
    user: ProcessUser,
    r: Result<DataLocation, String>,
) -> bool {
    if crate::cli::kind_name(spec@) == "NFS"@ {
        crate::cli::named_location(
            spec,
            as_process_user(remote, user),
            connections,
            uid,
            gid,
            r,
        )
    } else {
        crate::cli::named_location(spec, remote, connections, uid, gid, r)
    }
}

pub fn parse_task_location(
    spec: String,
    remote: RemoteSpec,
    connections: usize,
    uid: Option<u32>,
    gid: Option<u32>,
    user: ProcessUser,
) -> (r: Result<DataLocation, String>)
    ensures
        task_location(spec, remote, connections, uid, gid, user, r),
{
    let nfs = text::same(crate::cli::location_kind(spec.as_str()), "NFS");
    let remote = if nfs {
        match remote {
            RemoteSpec::Parsed(Ok(l)) => {
                let mut l = l;
                if l.uid == 0 {
                    l.uid = user.uid;
                }
                if l.gid == 0 {
                    l.gid = user.gid;
                }
                RemoteSpec::Parsed(Ok(l))
            },
            RemoteSpec::Parsed(Err(m)) => RemoteSpec::Parsed(Err(m)),
            RemoteSpec::NotCompiledIn => RemoteSpec::NotCompiledIn,
        }
    } else {
        remote
    };
    parse_data_location(spec, remote, connections, uid, gid)
}

/// The message about a local source that cannot be scanned.
pub open spec fn source_problem(
    subject: Seq<char>,
    path: Seq<char>,
    exists_there: bool,
    is_dir: bool,
) -> Option<Seq<char>> {
    if !exists_there {
        Some(subject + " path does not exist: "@ + path)
    } else if !is_dir {
        Some(subject + " path is not a directory: "@ + path)
    } else {
        None
    }
}

/// Whether a local source can be scanned: it has to be a directory. `subject` begins the
/// message about it.
pub fn run_scan(subject: &str, path: &str, exists_there: bool, is_dir: bool) -> (r: Result<
    (),
    String,
>)
    ensures
        match r {
            Ok(_) => source_problem(subject@, path@, exists_there, is_dir) is None,
            Err(e) => source_problem(subject@, path@, exists_there, is_dir) == Some(e@),
        },
{
    if !exists_there {
        let mut s = text::concat(subject, " path does not exist: ");
        s.append(path);
        return Err(s);
    }
    if !is_dir {
        let mut s = text::concat(subject, " path is not a directory: ");
        s.append(path);
        return Err(s);
    }
    Ok(())
}

/// What is scanned, and what the scanner is told; or the message about the source.
pub fn run_scan_task(spec: ScanTaskSpec, remote: RemoteSpec, user: ProcessUser) -> (r: Result<
    (DataLocation, ScanOption),
    String,
>)
    ensures
        asks_scan(spec, remote, user, r),
{
    let location = parse_task_location(
        spec.source.clone(),
        remote,
        spec.nfs_connections,
        spec.nfs_uid,
        spec.nfs_gid,
        user,
    );
    assert(task_location(
        spec.source,
        remote,
        spec.nfs_connections,
        spec.nfs_uid,
        spec.nfs_gid,
        user,
        location,
    ));
    match location {
        Err(m) => Err(m),
        Ok(l) => Ok((l, build_scan_option(spec))),
    }
}

// ---------------------------------------------------------------------------
// Results
// ---------------------------------------------------------------------------

#[derive(Debug, Clone, Copy, PartialEq, Eq, Structural)]
pub struct ScanSummary {
    pub total_files: u64,
    pub total_dirs: u64,
    pub total_size_bytes: u64,
}

impl Default for ScanSummary {
    fn default() -> (r: Self)
        ensures
            r == (ScanSummary { total_files: 0, total_dirs: 0, total_size_bytes: 0 }),
    {
        ScanSummary { total_files: 0, total_dirs: 0, total_size_bytes: 0 }
    }
}

impl ScanSummary {
    /// Adds the result of another source.
    pub fn add_source(&mut self, other: ScanSummary)
        requires
            old(self).total_files + other.total_files <= u64::MAX,
            old(self).total_dirs + other.total_dirs <= u64::MAX,
            old(self).total_size_bytes + other.total_size_bytes <= u64::MAX,
        ensures
            final(self).total_files == old(self).total_files + other.total_files,
            final(self).total_dirs == old(self).total_dirs + other.total_dirs,
            final(self).total_size_bytes == old(self).total_size_bytes + other.total_size_bytes,
    {
        self.total_files = self.total_files + other.total_files;
        self.total_dirs = self.total_dirs + other.total_dirs;
        self.total_size_bytes = self.total_size_bytes + other.total_size_bytes;
    }

    /// The line about a result, with the size in MB and the time taken.
    pub open spec fn line(&self, label: Seq<char>, megabytes: Seq<char>, elapsed: Seq<char>) -> Seq<
        char,
    > {
        label + text::decimal(self.total_files as nat) + " files, "@ + text::decimal(
            self.total_dirs as nat,
        ) + " dirs, "@ + megabytes + " MB, elapsed "@ + elapsed
    }

    /// The line that is printed about a result. The size in MB comes as text.
    pub fn print_summary(&self, label: &str, megabytes: &str, secs: u64, millis: u32) -> (s: String)
        ensures
            s@ == self.line(label@, megabytes@, crate::pipelines::elapsed_text(secs, millis)),
    {
        let mut s = text::concat(label, text::decimal_string(self.total_files).as_str());
        s.append(" files, ");
        s.append(text::decimal_string(self.total_dirs).as_str());
        s.append(" dirs, ");
        s.append(megabytes);
        s.append(" MB, elapsed ");
        s.append(crate::pipelines::format_elapsed(secs, millis).as_str());
        s
    }
}

/// Sizes in MiB are turned into bytes as long as they fit, and stay at the largest number
/// beyond that.
pub proof fn law_mib_is_saturating(n: u32, m: u32)
    ensures
        n < 4096 ==> mib(n) == n * 1024 * 1024,
        n >= 4096 ==> mib(n) == u32::MAX,
        n <= m ==> mib(n) <= mib(m),
{
}

/// The user of this process stands in for root alone: a user that is given, or that the URL
/// names, is kept.
pub proof fn law_root_is_replaced(
    spec: String,
    remote: RemoteSpec,
    connections: usize,
    uid: Option<u32>,
    gid: Option<u32>,
    user: ProcessUser,
    r: Result<DataLocation, String>,
)
    requires
        task_location(spec, remote, connections, uid, gid, user, r),
    ensures
        r matches Ok(DataLocation::Nfs(l)) ==> {
            &&& remote matches RemoteSpec::Parsed(Ok(p)) && {
                &&& l.root == p.root && l.url == p.url
                &&& uid is None && p.uid != 0 ==> l.uid == p.uid
                &&& uid is None && p.uid == 0 ==> l.uid == user.uid
                &&& gid is None && p.gid != 0 ==> l.gid == p.gid
                &&& gid is None && p.gid == 0 ==> l.gid == user.gid
            }
            &&& uid matches Some(u) ==> l.uid == u
            &&& gid matches Some(g) ==> l.gid == g
            &&& l.connection_count == connections
        },
        r matches Ok(DataLocation::Smb(l)) ==> remote == RemoteSpec::Parsed(Ok(l)),
        r matches Ok(DataLocation::Local(p)) ==> p == spec,
        "nfs://"@.is_prefix_of(spec@) && r is Ok ==> r->Ok_0 is Nfs,
        r is Ok && r->Ok_0 is Nfs ==> "nfs://"@.is_prefix_of(spec@),
{
    let seen = if crate::cli::kind_name(spec@) == "NFS"@ {
        as_process_user(remote, user)
    } else {
        remote
    };
    crate::cli::law_schemes_tell_locations(spec, seen, connections, uid, gid, r);
    reveal_strlit("NFS");
    reveal_strlit("SMB");
    reveal_strlit("Local");
    assert("NFS"@[0] == 'N' && "SMB"@[0] == 'S' && "Local"@[0] == 'L');
}

/// A local source can be scanned exactly where it exists and is a directory, and what is
/// said otherwise names the path.
pub proof fn law_directories_can_be_scanned(
    subject: Seq<char>,
    path: Seq<char>,
    exists_there: bool,
    is_dir: bool,
)
    ensures
        source_problem(subject, path, exists_there, is_dir) is None <==> exists_there && is_dir,
        source_problem(subject, path, exists_there, is_dir) matches Some(m) ==> {
            &&& subject.is_prefix_of(m)
            &&& path.is_suffix_of(m)
            &&& m == subject + (if exists_there {
                " path is not a directory: "@
            } else {
                " path does not exist: "@
            }) + path
        },
{
    match source_problem(subject, path, exists_there, is_dir) {
        Some(m) => {
            assert(m.take(subject.len() as int) =~= subject);
            assert(m.skip(m.len() - path.len()) =~= path);
            assert(m.subrange(m.len() - path.len(), m.len() as int) =~= path);
        },
        None => {},
    }
}

/// A retry policy waits at least as long at most as it waits at first.
pub proof fn law_longest_delay_is_no_shorter(spec: RetryPolicySpec)
    ensures
        spec.policy().max_retries == spec.operation_retries,
        spec.policy().retry_delay_ms == spec.retry_delay_ms,
        spec.policy().max_retry_delay_ms >= spec.policy().retry_delay_ms,
        spec.retry_max_delay_ms >= spec.retry_delay_ms ==> spec.policy().max_retry_delay_ms
            == spec.retry_max_delay_ms,
        spec.retry_max_delay_ms < spec.retry_delay_ms ==> spec.policy().max_retry_delay_ms
            == spec.retry_delay_ms,
{
}

/// The scanner is told every setting of a request, each in its own place.
pub proof fn law_requests_reach_the_scanner(o: ScanOption, s: ScanTaskSpec)
    requires
        tells_scanner(o, s),
    ensures
        (o.ctrl_dir, o.meta_dir, o.temp_dir) == (s.ctrl_dir, s.meta_dir, s.temp_dir),
        (o.worker_count, o.writer_count) == (s.workers, s.writers),
        (o.follow_symlinks, o.scan_hidden, o.max_depth) == (
            s.follow_symlinks,
            s.scan_hidden,
            s.max_depth,
        ),
        (o.scan_acl, o.scan_xattrs, o.scan_hardlinks, o.skip_block_devices) == (
            s.scan_acl,
            s.scan_xattrs,
            s.scan_hardlinks,
            s.skip_block_devices,
        ),
        (o.skip_entries, o.path_filters, o.prev_meta_dir) == (s.skip, s.filters, s.prev_meta_dir),
        (o.enable_sharding, o.shard_num, o.shard_max_size) == (
            s.shard,
            s.shard_num,
            s.shard_max_size,
        ),
        (o.shard_max_entries_copy, o.shard_max_entries_other) == (
            s.shard_max_entries_copy,
            s.shard_max_entries_other,
        ),
        o.stats_only == s.stats_only,
        s.smb_query_buffer_mb < 4096 ==> o.smb_query_buffer_size == s.smb_query_buffer_mb * 1024
            * 1024,
        o.failure_log is Some <==> s.failure_log_format is Some,
        o.failure_log matches Some(c) ==> Some(c.format) == s.failure_log_format,
        o.retry_policy.max_retries == s.retry.operation_retries,
{
    law_mib_is_saturating(s.smb_query_buffer_mb, 0);
}

/// Whether `r` is what a request scans, and what the scanner is told.
pub open spec fn asks_scan(
    spec: ScanTaskSpec,
    remote: RemoteSpec,
    user: ProcessUser,
    r: Result<(DataLocation, ScanOption), String>,
) -> bool {
    exists|location: Result<DataLocation, String>| #[trigger]
        task_location(
            spec.source,
            remote,
            spec.nfs_connections,
            spec.nfs_uid,
            spec.nfs_gid,
            user,
            location,
        ) && match location {
            Err(m) => r == Err::<(DataLocation, ScanOption), String>(m),
            Ok(l) => r matches Ok((at, option)) && at == l && tells_scanner(option, spec),
        }
}

/// A request scans the location that it names, and the scanner is told what it states.
pub proof fn law_scan_requests_are_handed_on(
    spec: ScanTaskSpec,
    remote: RemoteSpec,
    user: ProcessUser,
    r: Result<(DataLocation, ScanOption), String>,
)
    requires
        asks_scan(spec, remote, user, r),
    ensures
        r matches Ok((at, option)) ==> tells_scanner(option, spec) && task_location(
            spec.source,
            remote,
            spec.nfs_connections,
            spec.nfs_uid,
            spec.nfs_gid,
            user,
            Ok(at),
        ),
{
}

/// Failures of a scan are logged where they are asked for: in the directory of the control
/// files, in a file that is named after the format.
pub proof fn law_failures_are_logged_beside_the_control_files(
    log: Option<FailureLogConfig>,
    format: FailureLogFormat,
    dir: Seq<char>,
)
    requires
        crate::paths::is_clean(dir),
        crate::paths::is_name("SCAN_FAILURE"@ + "."@ + format.suffix()),
    ensures
        logs_failures(log, Some(format), dir) ==> (log matches Some(c) && c.format == format
            && crate::paths::parent(c.path@) == Some(dir) && crate::paths::file_name(c.path@)
            == Some("SCAN_FAILURE"@ + "."@ + format.suffix())),
        logs_failures(log, None, dir) ==> log is None,
{
    let name = "SCAN_FAILURE"@ + "."@ + format.suffix();
    crate::paths::law_joined_name_lies_in_its_directory(dir, name);
    crate::paths::law_joined_name_is_last(dir, name);
}

} // verus!
