//! Control files that are split into shards: which worker takes which shard, and what all
//! of them come to.
use vstd::prelude::*;

use crate::paths;
use crate::text;

verus! {

// ---------------------------------------------------------------------------
// Configuration
// ---------------------------------------------------------------------------

#[derive(Debug)]
pub struct ShardedProcessorConfig {
    /// How many shards are processed at once.
    pub concurrency: usize,
    pub source_dir: Option<String>,
    pub target_dir: String,
    pub work_dir: String,
    pub enable_hardlink: bool,
    pub enable_delete: bool,
    pub enable_mtime: bool,
}

impl ShardedProcessorConfig {
    /// All phases, no directories, and as many workers as the machine can run at once;
    /// four where that is not known.
    pub fn default(parallelism: Option<usize>) -> (r: Self)
        ensures
            r.concurrency == (match parallelism {
                Some(n) => n,
                None => 4,
            }),
            r.source_dir is None,
            r.target_dir@.len() == 0,
            r.work_dir@.len() == 0,
            r.enable_hardlink,
            r.enable_delete,
            r.enable_mtime,
    {
        let concurrency: usize = match parallelism {
            Some(n) => n,
            None => 4,
        };
        ShardedProcessorConfig {
            concurrency,
            source_dir: None,
            target_dir: String::new(),
            work_dir: String::new(),
            enable_hardlink: true,
            enable_delete: true,
            enable_mtime: true,
        }
    }
}

/// The shards of one kind of control file.
#[derive(Debug)]
pub struct ShardedControlInfo {
    pub shard_files: Vec<String>,
}

// ---------------------------------------------------------------------------
// Results
// ---------------------------------------------------------------------------

/// What the processing of one shard came to.
#[derive(Debug, Clone, Copy, PartialEq, Eq, Structural)]
pub struct ShardResult {
    pub shard_id: usize,
    pub files_processed: u64,
    pub dirs_processed: u64,
    pub bytes_transferred: u64,
    pub errors: u64,
}

impl Default for ShardResult {
    fn default() -> (r: Self)
        ensures
            r == (ShardResult {
                shard_id: 0,
                files_processed: 0,
                dirs_processed: 0,
                bytes_transferred: 0,
                errors: 0,
            }),
    {
        ShardResult {
            shard_id: 0,
            files_processed: 0,
            dirs_processed: 0,
            bytes_transferred: 0,
            errors: 0,
        }
    }
}

/// What all shards came to.
#[derive(Debug)]
pub struct ShardedResults {
    pub shard_results: Vec<ShardResult>,
    pub total_files: u64,
    pub total_dirs: u64,
    pub total_bytes: u64,
    pub total_errors: u64,
}

impl Default for ShardedResults {
    fn default() -> (r: Self)
        ensures
            r.shard_results@.len() == 0,
            r.total_files == 0,
            r.total_dirs == 0,
            r.total_bytes == 0,
            r.total_errors == 0,
    {
        ShardedResults {
            shard_results: Vec::new(),
            total_files: 0,
            total_dirs: 0,
            total_bytes: 0,
            total_errors: 0,
        }
    }
}

/// Sums over all shards.
pub struct Totals {
    pub files: nat,
    pub dirs: nat,
    pub bytes: nat,
    pub errors: nat,
}

pub open spec fn totals(results: Seq<ShardResult>) -> Totals
    decreases results.len(),
{
    if results.len() == 0 {
        Totals { files: 0, dirs: 0, bytes: 0, errors: 0 }
    } else {
        let earlier = totals(results.drop_last());
        let last = results.last();
        Totals {
            files: earlier.files + last.files_processed as nat,
            dirs: earlier.dirs + last.dirs_processed as nat,
            bytes: earlier.bytes + last.bytes_transferred as nat,
            errors: earlier.errors + last.errors as nat,
        }
    }
}

pub open spec fn fit(t: Totals) -> bool {
    t.files <= u64::MAX && t.dirs <= u64::MAX && t.bytes <= u64::MAX && t.errors <= u64::MAX
}

proof fn lemma_totals_grow(results: Seq<ShardResult>, n: int)
    requires
        0 <= n <= results.len(),
    ensures
        totals(results.take(n)).files <= totals(results).files,
        totals(results.take(n)).dirs <= totals(results).dirs,
        totals(results.take(n)).bytes <= totals(results).bytes,
        totals(results.take(n)).errors <= totals(results).errors,
    decreases results.len(),
{
    if n == results.len() {
        assert(results.take(n) =~= results);
    } else {
        lemma_totals_grow(results.drop_last(), n);
        assert(results.drop_last().take(n) =~= results.take(n));
    }
}

// ---------------------------------------------------------------------------
// Workers
// ---------------------------------------------------------------------------

/// How many shards a worker takes: the same number for each, as few as possible, so that
/// no more than `workers` of them are needed.
pub open spec fn chunk_size(shards: nat, workers: nat) -> nat {
    ((shards + workers - 1) / workers as int) as nat
}

/// The shards of each worker: adjacent ranges of at most `size`, which leave none out.
pub open spec fn covers(ranges: Seq<(usize, usize)>, shards: nat, size: nat) -> bool {
    &&& ranges.len() > 0
    &&& ranges[0].0 == 0
    &&& ranges.last().1 == shards
    &&& forall|i: int|
        0 <= i < ranges.len() ==> {
            &&& (#[trigger] ranges[i]).0 < ranges[i].1
            &&& ranges[i].1 - ranges[i].0 <= size
            &&& i + 1 < ranges.len() ==> ranges[i].1 - ranges[i].0 == size && ranges[i].1
                == ranges[i + 1].0
        }
}

/// Deals the shards out to the workers.
pub fn worker_ranges(shards: usize, workers: usize) -> (out: Vec<(usize, usize)>)
    requires
        0 < workers <= shards,
        shards + workers <= usize::MAX,
    ensures
        covers(out@, shards as nat, chunk_size(shards as nat, workers as nat)),
{
    let size: usize = (shards + workers - 1) / workers;
    proof {
        assert(size >= 1) by (nonlinear_arith)
            requires
                size == (shards + workers - 1) / (workers as int),
                0 < workers <= shards,
        ;
    }
    let mut out: Vec<(usize, usize)> = Vec::new();
    let mut at: usize = 0;
    while at < shards
        invariant
            at <= shards,
            size >= 1,
            0 < shards,
            at == 0 ==> out@.len() == 0,
            at > 0 ==> covers(out@, at as nat, size as nat),
            at < shards && at > 0 ==> out@.last().1 - out@.last().0 == size,
        decreases shards - at,
    {
        let end: usize = if shards - at <= size {
            shards
        } else {
            at + size
        };
        out.push((at, end));
        at = end;
    }
    out
}

/// No more ranges are dealt out than there are workers.
pub proof fn law_no_more_ranges_than_workers(
    ranges: Seq<(usize, usize)>,
    shards: nat,
    workers: nat,
)
    requires
        0 < workers <= shards,
        covers(ranges, shards, chunk_size(shards, workers)),
    ensures
        ranges.len() <= workers,
{
    let size = chunk_size(shards, workers);
    assert(size * workers >= shards) by (nonlinear_arith)
        requires
            size == (shards + workers - 1) / workers as int,
            0 < workers,
    ;
    lemma_range_start(ranges, shards, size, ranges.len() - 1);
    if ranges.len() > workers {
        assert((ranges.len() - 1) * size >= workers * size) by (nonlinear_arith)
            requires
                ranges.len() - 1 >= workers,
                size >= 0,
        ;
        assert(size * workers == workers * size) by (nonlinear_arith);
    }
}

proof fn lemma_range_start(ranges: Seq<(usize, usize)>, shards: nat, size: nat, i: int)
    requires
        covers(ranges, shards, size),
        0 <= i < ranges.len(),
    ensures
        ranges[i].0 == i * size,
    decreases i,
{
    if i > 0 {
        lemma_range_start(ranges, shards, size, i - 1);
        assert(ranges[i - 1].1 == ranges[i].0);
        assert(i * size == (i - 1) * size + size) by (nonlinear_arith);
    } else {
        assert(0 * size == 0) by (nonlinear_arith);
    }
}

// ---------------------------------------------------------------------------
// Shard names
// ---------------------------------------------------------------------------

/// The number of a shard, in base 16, between the first two underscores of its file
/// name, or up to the end of the name; or the message about a name without one.
pub open spec fn shard_id(path: Seq<char>) -> Result<nat, Seq<char>> {
    match paths::file_name(path) {
        None => Err("Invalid shard path"@),
        Some(name) => if text::split(name, '_').len() < 2 {
            Err("Invalid shard file name format"@)
        } else {
            match text::parse_unsigned(text::split(name, '_')[1], 16, usize::MAX as nat) {
                Ok(n) => Ok(n),
                Err(e) => Err("Invalid shard ID: "@ + e.text()),
            }
        },
    }
}

/// What one shard comes to: its number, and nothing counted yet.
pub open spec fn fresh_result(id: nat) -> ShardResult {
    ShardResult {
        shard_id: id as usize,
        files_processed: 0,
        dirs_processed: 0,
        bytes_transferred: 0,
        errors: 0,
    }
}

/// What a shard comes to in the copy phase; one without a number is an error.
pub open spec fn copy_result(path: Seq<char>) -> ShardResult {
    match shard_id(path) {
        Ok(id) => fresh_result(id),
        Err(_) => ShardResult { errors: 1, ..fresh_result(0) },
    }
}

/// What the shards come to in the delete phase; those without a number are left out.
pub open spec fn delete_results(paths: Seq<Seq<char>>) -> Seq<ShardResult>
    decreases paths.len(),
{
    if paths.len() == 0 {
        Seq::empty()
    } else {
        match shard_id(paths.last()) {
            Ok(id) => delete_results(paths.drop_last()).push(fresh_result(id)),
            Err(_) => delete_results(paths.drop_last()),
        }
    }
}

// ---------------------------------------------------------------------------
// The processor
// ---------------------------------------------------------------------------

#[derive(Debug)]
pub struct ShardedControlProcessor {
    pub config: ShardedProcessorConfig,
}

/// Whether the totals are those of the shards.
pub open spec fn sums(r: ShardedResults, results: Seq<ShardResult>) -> bool {
    &&& r.shard_results@ == results
    &&& r.total_files == totals(results).files
    &&& r.total_dirs == totals(results).dirs
    &&& r.total_bytes == totals(results).bytes
    &&& r.total_errors == totals(results).errors
}

proof fn lemma_fresh_totals(results: Seq<ShardResult>)
    requires
        forall|i: int|
            0 <= i < results.len() ==> {
                &&& (#[trigger] results[i]).files_processed == 0
                &&& results[i].dirs_processed == 0
                &&& results[i].bytes_transferred == 0
                &&& results[i].errors <= 1
            },
    ensures
        totals(results).files == 0,
        totals(results).dirs == 0,
        totals(results).bytes == 0,
        totals(results).errors <= results.len(),
    decreases results.len(),
{
    if results.len() > 0 {
        lemma_fresh_totals(results.drop_last());
    }
}

impl ShardedControlProcessor {
    pub fn new(config: ShardedProcessorConfig) -> (r: Self)
        ensures
            r.config == config,
    {
        ShardedControlProcessor { config }
    }

    pub fn extract_shard_id(&self, path: &str) -> (r: Result<usize, String>)
        ensures
            match r {
                Ok(n) => shard_id(path@) == Ok::<nat, Seq<char>>(n as nat),
                Err(e) => shard_id(path@) == Err::<nat, Seq<char>>(e@),
            },
    {
        let name = match paths::file_name_of(path) {
            Some(name) => name,
            None => {
                return Err(text::copy_of("Invalid shard path"));
            },
        };
        let parts = text::split_char(name.as_str(), '_');
        assert(text::split(name@, '_').len() == parts@.len());
        if parts.len() < 2 {
            return Err(text::copy_of("Invalid shard file name format"));
        }
        assert(text::split(name@, '_')[1] == parts@[1]@);
        match text::parse_number(parts[1].as_str(), 16, usize::MAX as u64) {
            Ok(n) => Ok(n as usize),
            Err(e) => Err(text::concat("Invalid shard ID: ", e.message())),
        }
    }

    fn process_copy_shard(&self, path: &str) -> (r: ShardResult)
        ensures
            r == copy_result(path@),
    {
        match self.extract_shard_id(path) {
            Ok(shard_id) => ShardResult {
                shard_id,
                files_processed: 0,
                dirs_processed: 0,
                bytes_transferred: 0,
                errors: 0,
            },
            Err(_) => ShardResult {
                shard_id: 0,
                files_processed: 0,
                dirs_processed: 0,
                bytes_transferred: 0,
                errors: 1,
            },
        }
    }

    /// The shards of the copy phase, dealt out to the workers and put together again in
    /// their order.
    pub fn process_copy_phase(&self, ctrl_info: &ShardedControlInfo) -> (r: ShardedResults)
        requires
            self.config.concurrency > 0,
            0 < ctrl_info.shard_files@.len() <= usize::MAX / 2,
        ensures
            sums(
                r,
                text::views(ctrl_info.shard_files@).map_values(|p: Seq<char>| copy_result(p)),
            ),
    {
        let shards: usize = ctrl_info.shard_files.len();
        let workers: usize = if self.config.concurrency < shards {
            self.config.concurrency
        } else {
            shards
        };
        let ghost expected = text::views(ctrl_info.shard_files@).map_values(
            |p: Seq<char>| copy_result(p),
        );
        let ranges = worker_ranges(shards, workers);
        let mut results: Vec<ShardResult> = Vec::new();
        let mut w: usize = 0;
        while w < ranges.len()
            invariant
                w <= ranges@.len(),
                shards == ctrl_info.shard_files@.len(),
                expected == text::views(ctrl_info.shard_files@).map_values(
                    |p: Seq<char>| copy_result(p),
                ),
                covers(
                    ranges@,
                    shards as nat,
                    chunk_size(shards as nat, workers as nat),
                ),
                w < ranges@.len() ==> results@.len() == ranges@[w as int].0,
                w == ranges@.len() ==> results@.len() == shards,
                results@.len() <= shards,
                results@ == expected.take(results@.len() as int),
            decreases ranges@.len() - w,
        {
            let (from, to) = ranges[w];
            proof {
                lemma_ranges_below(
                    ranges@,
                    shards as nat,
                    chunk_size(shards as nat, workers as nat),
                    w as int,
                );
            }
            let mut i: usize = from;
            while i < to
                invariant
                    from <= i <= to <= shards,
                    shards == ctrl_info.shard_files@.len(),
                    expected == text::views(ctrl_info.shard_files@).map_values(
                        |p: Seq<char>| copy_result(p),
                    ),
                    results@.len() == i,
                    results@ == expected.take(i as int),
                decreases to - i,
            {
                results.push(self.process_copy_shard(ctrl_info.shard_files[i].as_str()));
                assert(results@ =~= expected.take(i + 1));
                i += 1;
            }
            w += 1;
        }
        assert(results@ =~= expected);
        proof {
            lemma_fresh_totals(results@);
        }
        self.aggregate_results(results)
    }

    /// The shards of the delete phase, unless it is disabled.
    pub fn process_delete_phase(&self, ctrl_info: &ShardedControlInfo) -> (r: ShardedResults)
        ensures
            sums(
                r,
                if self.config.enable_delete {
                    delete_results(text::views(ctrl_info.shard_files@))
                } else {
                    Seq::empty()
                },
            ),
    {
        let mut results: Vec<ShardResult> = Vec::new();
        if !self.config.enable_delete {
            return self.aggregate_results(results);
        }
        let ghost all = text::views(ctrl_info.shard_files@);
        let mut i: usize = 0;
        assert(all.take(0) =~= Seq::empty());
        while i < ctrl_info.shard_files.len()
            invariant
                i <= ctrl_info.shard_files@.len(),
                all == text::views(ctrl_info.shard_files@),
                results@ == delete_results(all.take(i as int)),
                forall|k: int|
                    0 <= k < results@.len() ==> {
                        &&& (#[trigger] results@[k]).files_processed == 0
                        &&& results@[k].dirs_processed == 0
                        &&& results@[k].bytes_transferred == 0
                        &&& results@[k].errors == 0
                    },
            decreases ctrl_info.shard_files@.len() - i,
        {
            assert(all.take(i + 1).drop_last() =~= all.take(i as int));
            assert(all.take(i + 1).last() == ctrl_info.shard_files@[i as int]@);
            match self.extract_shard_id(ctrl_info.shard_files[i].as_str()) {
                Ok(shard_id) => {
                    results.push(
                        ShardResult {
                            shard_id,
                            files_processed: 0,
                            dirs_processed: 0,
                            bytes_transferred: 0,
                            errors: 0,
                        },
                    );
                },
                Err(_) => {},
            }
            i += 1;
        }
        assert(all.take(i as int) =~= all);
        assert(results@.len() == results.len());
        proof {
            lemma_fresh_totals(results@);
        }
        self.aggregate_results(results)
    }

    /// The shards of the hardlink phase add nothing, whether it is enabled or not.
    pub fn process_hardlink_phase(&self, ctrl_info: &ShardedControlInfo) -> (r: ShardedResults)
        ensures
            sums(r, Seq::empty()),
    {
        let r = ShardedResults::default();
        assert(r.shard_results@ =~= Seq::empty());
        r
    }

    /// The shards of the mtime phase add nothing, whether it is enabled or not.
    pub fn process_mtime_phase(&self, ctrl_info: &ShardedControlInfo) -> (r: ShardedResults)
        ensures
            sums(r, Seq::empty()),
    {
        let r = ShardedResults::default();
        assert(r.shard_results@ =~= Seq::empty());
        r
    }

    /// The sums over all shards.
    pub fn aggregate_results(&self, shard_results: Vec<ShardResult>) -> (r: ShardedResults)
        requires
            fit(totals(shard_results@)),
        ensures
            sums(r, shard_results@),
    {
        let mut files: u64 = 0;
        let mut dirs: u64 = 0;
        let mut bytes: u64 = 0;
        let mut errors: u64 = 0;
        let mut i: usize = 0;
        assert(shard_results@.take(0) =~= Seq::empty());
        while i < shard_results.len()
            invariant
                i <= shard_results@.len(),
                fit(totals(shard_results@)),
                files == totals(shard_results@.take(i as int)).files,
                dirs == totals(shard_results@.take(i as int)).dirs,
                bytes == totals(shard_results@.take(i as int)).bytes,
                errors == totals(shard_results@.take(i as int)).errors,
            decreases shard_results@.len() - i,
        {
            proof {
                assert(shard_results@.take(i + 1).drop_last() =~= shard_results@.take(i as int));
                lemma_totals_grow(shard_results@, i + 1);
            }
            files = files + shard_results[i].files_processed;
            dirs = dirs + shard_results[i].dirs_processed;
            bytes = bytes + shard_results[i].bytes_transferred;
            errors = errors + shard_results[i].errors;
            i += 1;
        }
        assert(shard_results@.take(i as int) =~= shard_results@);
        ShardedResults {
            shard_results,
            total_files: files,
            total_dirs: dirs,
            total_bytes: bytes,
            total_errors: errors,
        }
    }
}

proof fn lemma_ranges_below(ranges: Seq<(usize, usize)>, shards: nat, size: nat, i: int)
    requires
        covers(ranges, shards, size),
        0 <= i < ranges.len(),
    ensures
        ranges[i].1 <= shards,
    decreases ranges.len() - i,
{
    if i + 1 < ranges.len() {
        lemma_ranges_below(ranges, shards, size, i + 1);
        assert(ranges[i].1 == ranges[i + 1].0);
    }
}

// ---------------------------------------------------------------------------
// Setting up
// ---------------------------------------------------------------------------

#[derive(Debug)]
pub struct ShardedBackupBuilder {
    pub config: ShardedProcessorConfig,
}

impl ShardedBackupBuilder {
    /// A builder that begins with as many workers as the machine can run at once.
    pub fn new(target_dir: String, parallelism: Option<usize>) -> (r: Self)
        ensures
            r.config.target_dir == target_dir,
            r.config.concurrency == (match parallelism {
                Some(n) => n,
                None => 4,
            }),
            r.config.source_dir is None,
            r.config.work_dir@.len() == 0,
            r.config.enable_hardlink,
            r.config.enable_delete,
            r.config.enable_mtime,
    {
        let mut config = ShardedProcessorConfig::default(parallelism);
        config.target_dir = target_dir;
        ShardedBackupBuilder { config }
    }

    pub fn source_dir(self, dir: String) -> (r: Self)
        ensures
            r.config == (ShardedProcessorConfig { source_dir: Some(dir), ..self.config }),
    {
        let mut config = self.config;
        config.source_dir = Some(dir);
        ShardedBackupBuilder { config }
    }

    pub fn work_dir(self, dir: String) -> (r: Self)
        ensures
            r.config == (ShardedProcessorConfig { work_dir: dir, ..self.config }),
    {
        let mut config = self.config;
        config.work_dir = dir;
        ShardedBackupBuilder { config }
    }

    pub fn concurrency(self, n: usize) -> (r: Self)
        ensures
            r.config == (ShardedProcessorConfig { concurrency: n, ..self.config }),
    {
        let mut config = self.config;
        config.concurrency = n;
        ShardedBackupBuilder { config }
    }

    pub fn disable_hardlink(self) -> (r: Self)
        ensures
            r.config == (ShardedProcessorConfig { enable_hardlink: false, ..self.config }),
    {
        let mut config = self.config;
        config.enable_hardlink = false;
        ShardedBackupBuilder { config }
    }

    pub fn disable_delete(self) -> (r: Self)
        ensures
            r.config == (ShardedProcessorConfig { enable_delete: false, ..self.config }),
    {
        let mut config = self.config;
        config.enable_delete = false;
        ShardedBackupBuilder { config }
    }

    pub fn disable_mtime(self) -> (r: Self)
        ensures
            r.config == (ShardedProcessorConfig { enable_mtime: false, ..self.config }),
    {
        let mut config = self.config;
        config.enable_mtime = false;
        ShardedBackupBuilder { config }
    }

    pub fn build(self) -> (r: ShardedControlProcessor)
        ensures
            r.config == self.config,
    {
        ShardedControlProcessor::new(self.config)
    }
}

/// All phases of a sharded backup together: the copy, the links, the deletions and the
/// times.
pub fn process_sharded_backup(
    config: ShardedProcessorConfig,
    copy_info: &ShardedControlInfo,
    hardlink_info: &ShardedControlInfo,
    delete_info: &ShardedControlInfo,
    mtime_info: &ShardedControlInfo,
) -> (r: ShardedResults)
    requires
        config.concurrency > 0,
        0 < copy_info.shard_files@.len() <= usize::MAX / 2,
    ensures
        sums_up_phases(config, text::views(copy_info.shard_files@), text::views(delete_info.shard_files@), r),
{
    let processor = ShardedControlProcessor::new(config);
    let copied = processor.process_copy_phase(copy_info);
    let linked = processor.process_hardlink_phase(hardlink_info);
    let deleted = processor.process_delete_phase(delete_info);
    let timed = processor.process_mtime_phase(mtime_info);
    proof {
        let c = text::views(copy_info.shard_files@).map_values(|p: Seq<char>| copy_result(p));
        lemma_fresh_totals(c);
        lemma_delete_totals(text::views(delete_info.shard_files@));
        lemma_fresh_totals(Seq::empty());
    }
    ShardedResults {
        shard_results: Vec::new(),
        total_files: copied.total_files + linked.total_files + deleted.total_files
            + timed.total_files,
        total_dirs: copied.total_dirs + deleted.total_dirs + timed.total_dirs,
        total_bytes: copied.total_bytes,
        total_errors: copied.total_errors + linked.total_errors + deleted.total_errors
            + timed.total_errors,
    }
}

proof fn lemma_delete_totals(paths: Seq<Seq<char>>)
    ensures
        totals(delete_results(paths)) == (Totals { files: 0, dirs: 0, bytes: 0, errors: 0 }),
    decreases paths.len(),
{
    if paths.len() > 0 {
        lemma_delete_totals(paths.drop_last());
        match shard_id(paths.last()) {
            Ok(id) => {
                let earlier = delete_results(paths.drop_last());
                assert(earlier.push(fresh_result(id)).drop_last() =~= earlier);
            },
            Err(_) => {},
        }
    }
}

/// The workers together take all shards, and with one shard less for each they would not.
pub proof fn law_workers_take_as_few_as_they_can(shards: nat, workers: nat)
    requires
        workers > 0,
    ensures
        chunk_size(shards, workers) * workers >= shards,
        shards > 0 ==> (chunk_size(shards, workers) - 1) * workers < shards,
        shards == 0 ==> chunk_size(shards, workers) == 0,
{
    let size = chunk_size(shards, workers) as int;
    let all = shards + workers - 1;
    assert(size * workers <= all < size * workers + workers && (all < workers ==> size == 0))
        by (nonlinear_arith)
        requires
            workers > 0,
            all >= 0,
            size == all / (workers as int),
    ;
    assert((size - 1) * workers == size * workers - workers) by (nonlinear_arith);
}

/// Every shard is in exactly one range.
pub proof fn law_every_shard_is_in_one_range(
    ranges: Seq<(usize, usize)>,
    shards: nat,
    size: nat,
    shard: nat,
)
    requires
        covers(ranges, shards, size),
        shard < shards,
    ensures
        exists|i: int|
            0 <= i < ranges.len() && (#[trigger] ranges[i]).0 <= shard < ranges[i].1,
        forall|i: int, j: int|
            0 <= i < ranges.len() && 0 <= j < ranges.len() && (#[trigger] ranges[i]).0 <= shard
                < ranges[i].1 && (#[trigger] ranges[j]).0 <= shard < ranges[j].1 ==> i == j,
{
    lemma_range_of(ranges, shards, size, shard, ranges.len() as int);
    assert forall|i: int, j: int|
        0 <= i < ranges.len() && 0 <= j < ranges.len() && (#[trigger] ranges[i]).0 <= shard
            < ranges[i].1 && (#[trigger] ranges[j]).0 <= shard < ranges[j].1 implies i == j by {
        if i < j {
            lemma_ranges_ascend(ranges, shards, size, i, j);
        }
        if j < i {
            lemma_ranges_ascend(ranges, shards, size, j, i);
        }
    }
}

proof fn lemma_ranges_ascend(
    ranges: Seq<(usize, usize)>,
    shards: nat,
    size: nat,
    i: int,
    j: int,
)
    requires
        covers(ranges, shards, size),
        0 <= i < j < ranges.len(),
    ensures
        ranges[i].1 <= ranges[j].0,
    decreases j - i,
{
    if i + 1 < j {
        lemma_ranges_ascend(ranges, shards, size, i, j - 1);
    }
    assert(ranges[j - 1].1 == ranges[j].0);
    assert(ranges[j - 1].0 < ranges[j - 1].1);
}

proof fn lemma_range_of(
    ranges: Seq<(usize, usize)>,
    shards: nat,
    size: nat,
    shard: nat,
    n: int,
)
    requires
        covers(ranges, shards, size),
        0 < n <= ranges.len(),
        shard < ranges[n - 1].1,
    ensures
        exists|i: int|
            0 <= i < ranges.len() && (#[trigger] ranges[i]).0 <= shard < ranges[i].1,
    decreases n,
{
    if shard < ranges[n - 1].0 {
        assert(ranges[n - 2].1 == ranges[n - 1].0);
        lemma_range_of(ranges, shards, size, shard, n - 1);
    }
}

/// The totals of two groups of shards are those of both together, and the totals of one are
/// its own counts.
pub proof fn law_totals_add_up(a: Seq<ShardResult>, b: Seq<ShardResult>, r: ShardResult)
    ensures
        ({
            let (x, y, both) = (totals(a), totals(b), totals(a + b));
            &&& both.files == x.files + y.files
            &&& both.dirs == x.dirs + y.dirs
            &&& both.bytes == x.bytes + y.bytes
            &&& both.errors == x.errors + y.errors
        }),
        ({
            let one = totals(seq![r]);
            &&& (one.files, one.dirs) == (r.files_processed as nat, r.dirs_processed as nat)
            &&& (one.bytes, one.errors) == (r.bytes_transferred as nat, r.errors as nat)
        }),
    decreases b.len(),
{
    reveal_with_fuel(totals, 2);
    assert(seq![r].drop_last() =~= Seq::empty());
    if b.len() == 0 {
        assert(a + b =~= a);
    } else {
        law_totals_add_up(a, b.drop_last(), r);
        assert((a + b).drop_last() =~= a + b.drop_last());
        assert((a + b).last() == b.last());
    }
}

/// A shard is known by the number in its name, wherever the file lies and whatever stands in
/// front of the number and behind it.
pub proof fn law_shards_are_known_by_their_number(
    dir: Seq<char>,
    before: Seq<char>,
    id: nat,
    after: Seq<char>,
)
    requires
        id <= usize::MAX,
        !before.contains('_'),
        paths::is_name(before.push('_') + (text::digits(id, 16, false).push('_') + after)),
    ensures
        ({
            let path = paths::join(
                dir,
                before.push('_') + (text::digits(id, 16, false).push('_') + after),
            );
            &&& shard_id(path) == Ok::<nat, Seq<char>>(id)
            &&& copy_result(path).shard_id == id
            &&& copy_result(path).errors == 0
            &&& delete_results(seq![path]) == seq![copy_result(path)]
        }),
{
    let number = text::digits(id, 16, false);
    let name = before.push('_') + (number.push('_') + after);
    let path = paths::join(dir, name);
    paths::law_joined_name_is_last(dir, name);
    text::law_pieces_stand_between_separators(before, number.push('_') + after, '_');
    text::law_pieces_stand_between_separators(number, after, '_');
    text::law_pieces_stand_between_separators(Seq::empty(), before, '_');
    text::lemma_digits_are_digits(id, 16, false);
    text::lemma_digits_nonempty(id, 16, false);
    assert(!number.contains('_'));
    text::law_pieces_stand_between_separators(Seq::empty(), number, '_');
    text::lemma_split_nonempty(after, '_');
    assert(text::split(name, '_')[1] == number);
    text::law_digits_read_back(id, 16, usize::MAX as nat);
    assert(number[0] != '+');
    reveal_with_fuel(delete_results, 2);
    assert(seq![path].drop_last() =~= Seq::empty());
}

/// A shard without a number is one error of the copy phase, with nothing counted, and is left
/// out of the delete phase.
pub proof fn law_shards_without_a_number(path: Seq<char>)
    ensures
        copy_result(path).errors == 1 <==> shard_id(path) is Err,
        copy_result(path).errors == 0 <==> shard_id(path) is Ok,
        copy_result(path).files_processed == 0 && copy_result(path).dirs_processed == 0
            && copy_result(path).bytes_transferred == 0,
        shard_id(path) is Err ==> delete_results(seq![path]).len() == 0,
{
    reveal_with_fuel(delete_results, 2);
    assert(seq![path].drop_last() =~= Seq::empty());
}

/// The shards of the delete phase come one after the other.
pub proof fn law_shards_come_in_order(a: Seq<Seq<char>>, b: Seq<Seq<char>>)
    ensures
        delete_results(a + b) == delete_results(a) + delete_results(b),
    decreases b.len(),
{
    if b.len() == 0 {
        assert(a + b =~= a);
        assert(delete_results(a + b) =~= delete_results(a) + delete_results(b));
    } else {
        law_shards_come_in_order(a, b.drop_last());
        assert((a + b).drop_last() =~= a + b.drop_last());
        assert((a + b).last() == b.last());
        assert(delete_results(a + b) =~= delete_results(a) + delete_results(b));
    }
}

/// Whether `r` sums up all phases of a sharded backup.
pub open spec fn sums_up_phases(
    config: ShardedProcessorConfig,
    copied_shards: Seq<Seq<char>>,
    deleted_shards: Seq<Seq<char>>,
    r: ShardedResults,
) -> bool {
    &&& r.shard_results@.len() == 0
    &&& ({
        let copied = totals(
            copied_shards.map_values(|p: Seq<char>| copy_result(p)),
        );
        let deleted = totals(
            if config.enable_delete {
                delete_results(deleted_shards)
            } else {
                Seq::empty()
            },
        );
        &&& r.total_files == copied.files + deleted.files
        &&& r.total_dirs == copied.dirs + deleted.dirs
        &&& r.total_bytes == copied.bytes
        &&& r.total_errors == copied.errors + deleted.errors
    })
}

/// Every shard of the copy phase without a number is one error of the whole backup, and nothing
/// else is an error or is counted otherwise.
pub proof fn law_errors_are_the_shards_without_a_number(
    config: ShardedProcessorConfig,
    copied: Seq<Seq<char>>,
    deleted: Seq<Seq<char>>,
    r: ShardedResults,
)
    requires
        sums_up_phases(config, copied, deleted, r),
    ensures
        r.total_errors == copied.filter(|p: Seq<char>| shard_id(p) is Err).len(),
        r.total_files == 0 && r.total_dirs == 0 && r.total_bytes == 0,
{
    lemma_copy_errors(copied);
    lemma_delete_totals(deleted);
    lemma_fresh_totals(Seq::empty());
}

proof fn lemma_copy_errors(shards: Seq<Seq<char>>)
    ensures
        ({
            let t = totals(shards.map_values(|p: Seq<char>| copy_result(p)));
            &&& t.errors == shards.filter(|p: Seq<char>| shard_id(p) is Err).len()
            &&& t.files == 0 && t.dirs == 0 && t.bytes == 0
        }),
    decreases shards.len(),
{
    reveal(Seq::filter);
    let all = shards.map_values(|p: Seq<char>| copy_result(p));
    if shards.len() > 0 {
        let front = shards.drop_last();
        lemma_copy_errors(front);
        assert(all.drop_last() =~= front.map_values(|p: Seq<char>| copy_result(p)));
        assert(all.last() == copy_result(shards.last()));
        law_shards_without_a_number(shards.last());
    }
}

} // verus!
