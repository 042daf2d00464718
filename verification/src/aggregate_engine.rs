//! The aggregate backup engine: where a small file goes, how blobs are put together and
//! what their index learns of them.
use vstd::prelude::*;
use vstd::hash_map::StringHashMap;

use crate::aggregate::{
    aggregates, lemma_total_push, total_bytes, AggregateBlobMeta, AggregateConfig,
    AggregateFileEntry, AggregateLayout, AggregateStats, Payload, PendingFile,
    ThreadSafeSnowflake, AGGREGATE_DIR_NAME, AGGREGATE_ROOT_DIR,
};
use crate::aggregate_dir_index::{write_dir_index, DirIndexRow, SQLITE_INDEX_FILE_NAME};
use crate::aggregate_index::{AggregateIndex, AggregateIndexError, BINARY_INDEX_FILE_NAME};
use crate::buckets::{
    added, bucket_files, drained, files_in, group_of, handed_groups, law_every_file_comes_out_once,
    waiting, BucketMap,
};
use crate::fcb::FileControlBlock;
use crate::metadata::{clone_text, FileMeta};
use crate::paths;
use crate::text;

verus! {

// ---------------------------------------------------------------------------
// Where a file goes
// ---------------------------------------------------------------------------

/// The directory part of a relative path, with slashes only.
pub open spec fn parent_dir(relative_path: Seq<char>) -> Seq<char> {
    match paths::parent(relative_path) {
        Some(p) => text::forward_slashes(p),
        None => Seq::empty(),
    }
}

/// The directory part of a relative path.
pub fn parent_dir_of(relative_path: &str) -> (s: String)
    ensures
        s@ == parent_dir(relative_path@),
{
    match paths::parent_of(relative_path) {
        Some(p) => text::to_forward_slashes(p.as_str()),
        None => String::new(),
    }
}

/// The directory that holds the blobs of a source directory.
pub open spec fn aggregate_dir(dir_rel: Seq<char>) -> Seq<char> {
    if dir_rel.len() == 0 {
        AGGREGATE_DIR_NAME@
    } else {
        paths::join(dir_rel, AGGREGATE_DIR_NAME@)
    }
}

/// The directory that holds the blobs of a source directory.
pub fn aggregate_dir_for(dir_rel: &str) -> (s: String)
    ensures
        s@ == aggregate_dir(dir_rel@),
{
    if dir_rel.is_empty() {
        AGGREGATE_DIR_NAME.to_owned()
    } else {
        paths::join_path(dir_rel, AGGREGATE_DIR_NAME)
    }
}

/// The FNV hash of a byte string, exclusive-or first.
pub open spec fn fnv_hash(bytes: Seq<u8>) -> u64
    decreases bytes.len(),
{
    if bytes.len() == 0 {
        1469598103934665603u64
    } else {
        (fnv_hash(bytes.drop_last()) ^ (bytes.last() as u64)).wrapping_mul(1099511628211u64)
    }
}

/// The FNV hash of the bytes of a string.
pub fn fnv_hash_of(s: &str) -> (h: u64)
    ensures
        h == fnv_hash(vstd::utf8::encode_utf8(s@)),
{
    let bytes = s.as_bytes();
    let mut hash: u64 = 1469598103934665603u64;
    let mut i: usize = 0;
    assert(bytes@.take(0) =~= Seq::<u8>::empty());
    while i < bytes.len()
        invariant
            i <= bytes@.len(),
            hash == fnv_hash(bytes@.take(i as int)),
        decreases bytes@.len() - i,
    {
        assert(bytes@.take(i + 1).drop_last() =~= bytes@.take(i as int));
        hash = (hash ^ (bytes[i] as u64)).wrapping_mul(1099511628211u64);
        i += 1;
    }
    assert(bytes@.take(i as int) =~= bytes@);
    hash
}

/// How many shards are in use once the given number of bytes was seen: one more for
/// each full blob, at least one and at most `shard_count`. The count is kept in 16 bits.
pub open spec fn shards_in_use(bytes_seen: u64, config: AggregateConfig) -> u16 {
    let blob_size: u64 = if config.max_blob_size == 0 {
        1
    } else {
        config.max_blob_size
    };
    let most: u16 = if config.shard_count == 0 {
        1
    } else {
        config.shard_count
    };
    let full = bytes_seen / blob_size;
    let desired = (if full == u64::MAX {
        full as int
    } else {
        full + 1
    }) % 0x1_0000;
    if desired < 1 {
        1
    } else if desired > most {
        most
    } else {
        desired as u16
    }
}

/// How many shards are in use once the given number of bytes was seen.
fn count_shards(bytes_seen: u64, config: &AggregateConfig) -> (n: u16)
    ensures
        n == shards_in_use(bytes_seen, *config),
        1 <= n,
{
    let blob_size: u64 = if config.max_blob_size == 0 {
        1
    } else {
        config.max_blob_size
    };
    let most: u16 = if config.shard_count == 0 {
        1
    } else {
        config.shard_count
    };
    let desired: u64 = (bytes_seen / blob_size).saturating_add(1) % 0x1_0000;
    if desired < 1 {
        1
    } else if desired > most as u64 {
        most
    } else {
        desired as u16
    }
}

/// The name of a shard.
pub open spec fn shard_key(shard: nat) -> Seq<char> {
    "shard-"@ + text::pad_left(text::decimal(shard), 3, '0')
}

/// The name of a shard.
pub fn shard_name(shard: u64) -> (s: String)
    ensures
        s@ == shard_key(shard as nat),
{
    text::concat("shard-", text::decimal_padded(shard, 3).as_str())
}

/// The shard that a bucket stands for: zero where its name is no shard name.
pub open spec fn shard_of_key(key: Seq<char>) -> u16 {
    if "shard-"@.is_prefix_of(key) {
        match text::parse_unsigned(key.skip("shard-"@.len() as int), 10, 65535) {
            Ok(n) => n as u16,
            Err(_) => 0,
        }
    } else {
        0
    }
}

/// A shard is known by its name.
pub proof fn law_shard_name_reads_back(shard: u16)
    ensures
        shard_of_key(shard_key(shard as nat)) == shard,
{
    let number = text::pad_left(text::decimal(shard as nat), 3, '0');
    let key = shard_key(shard as nat);
    assert(key.take("shard-"@.len() as int) =~= "shard-"@);
    assert(key.skip("shard-"@.len() as int) =~= number);
    text::law_padded_number_reads_back(shard as nat, 10, 3, 65535);
}

/// The number of shards in use never leaves the configured range.
pub proof fn law_shards_in_range(bytes_seen: u64, config: AggregateConfig)
    ensures
        1 <= shards_in_use(bytes_seen, config),
        config.shard_count >= 1 ==> shards_in_use(bytes_seen, config) <= config.shard_count,
        config.shard_count == 0 ==> shards_in_use(bytes_seen, config) == 1,
{
}

// ---------------------------------------------------------------------------
// Blobs
// ---------------------------------------------------------------------------

/// The data of all files, one after the other.
pub open spec fn blob_data(files: Seq<PendingFile>) -> Seq<u8>
    decreases files.len(),
{
    if files.len() == 0 {
        Seq::empty()
    } else {
        blob_data(files.drop_last()) + files.last().data@
    }
}

/// Whether an entry describes the given file, placed at `offset`.
pub open spec fn describes(e: AggregateFileEntry, f: PendingFile, offset: nat) -> bool {
    &&& e.relative_path == f.file_name
    &&& e.offset == offset
    &&& e.size == f.data@.len()
    &&& e.ctime == f.ctime
    &&& e.mtime == f.mtime
    &&& e.mode == f.mode
    &&& e.xattrs == f.xattrs
    &&& e.acl == f.acl
}

/// Whether the entries describe the files, each placed behind those before it.
pub open spec fn tiles(entries: Seq<AggregateFileEntry>, files: Seq<PendingFile>) -> bool {
    &&& entries.len() == files.len()
    &&& forall|i: int|
        0 <= i < files.len() ==> describes(
            #[trigger] entries[i],
            files[i],
            total_bytes(files.take(i)),
        )
}

/// A blob holds exactly the bytes of its files.
pub proof fn lemma_blob_len(files: Seq<PendingFile>)
    ensures
        blob_data(files).len() == total_bytes(files),
    decreases files.len(),
{
    if files.len() > 0 {
        lemma_blob_len(files.drop_last());
    }
}

/// The stretch of a blob that an entry names holds the data of its file, and nothing of
/// another one: what is read back is what was put in.
pub proof fn law_blob_gives_back_files(
    entries: Seq<AggregateFileEntry>,
    files: Seq<PendingFile>,
    i: int,
)
    requires
        tiles(entries, files),
        0 <= i < files.len(),
    ensures
        entries[i].offset + entries[i].size <= blob_data(files).len(),
        blob_data(files).subrange(
            entries[i].offset as int,
            entries[i].offset + entries[i].size,
        ) == files[i].data@,
    decreases files.len(),
{
    assert(describes(entries[i], files[i], total_bytes(files.take(i))));
    lemma_file_in_blob(files, i);
}

proof fn lemma_file_in_blob(files: Seq<PendingFile>, i: int)
    requires
        0 <= i < files.len(),
    ensures
        total_bytes(files.take(i)) + files[i].data@.len() <= blob_data(files).len(),
        blob_data(files).subrange(
            total_bytes(files.take(i)) as int,
            (total_bytes(files.take(i)) + files[i].data@.len()) as int,
        ) == files[i].data@,
    decreases files.len(),
{
    let front = files.drop_last();
    lemma_blob_len(front);
    lemma_blob_len(files);
    if i == files.len() - 1 {
        assert(files.take(i) =~= front);
        assert(blob_data(files).subrange(
            total_bytes(front) as int,
            (total_bytes(front) + files[i].data@.len()) as int,
        ) =~= files[i].data@);
    } else {
        lemma_file_in_blob(front, i);
        assert(front.take(i) =~= files.take(i));
        let (a, b) = (
            total_bytes(files.take(i)) as int,
            (total_bytes(files.take(i)) + files[i].data@.len()) as int,
        );
        assert(blob_data(files).subrange(a, b) =~= blob_data(front).subrange(a, b));
    }
}

/// The entries of a blob do not overlap: each ends where the next one begins.
pub proof fn law_entries_are_adjacent(
    entries: Seq<AggregateFileEntry>,
    files: Seq<PendingFile>,
    i: int,
)
    requires
        tiles(entries, files),
        0 <= i < files.len() - 1,
    ensures
        entries[i].offset + entries[i].size == entries[i + 1].offset,
{
    assert(describes(entries[i], files[i], total_bytes(files.take(i))));
    assert(describes(entries[i + 1], files[i + 1], total_bytes(files.take(i + 1))));
    assert(files.take(i + 1).drop_last() =~= files.take(i));
}

/// Puts the files of a blob together: their data and their entries.
pub fn assemble_blob(files: Vec<PendingFile>) -> (r: (Vec<u8>, Vec<AggregateFileEntry>))
    requires
        total_bytes(files@) <= u64::MAX,
    ensures
        r.0@ == blob_data(files@),
        tiles(r.1@, files@),
{
    let mut data: Vec<u8> = Vec::new();
    let mut entries: Vec<AggregateFileEntry> = Vec::new();
    let mut offset: u64 = 0;
    let mut i: usize = 0;
    assert(files@.take(0) =~= Seq::<PendingFile>::empty());
    while i < files.len()
        invariant
            i <= files@.len(),
            total_bytes(files@) <= u64::MAX,
            offset == total_bytes(files@.take(i as int)),
            data@ == blob_data(files@.take(i as int)),
            entries@.len() == i,
            forall|k: int|
                0 <= k < i ==> describes(
                    #[trigger] entries@[k],
                    files@[k],
                    total_bytes(files@.take(k)),
                ),
        decreases files@.len() - i,
    {
        let file = &files[i];
        proof {
            assert(files@.take(i + 1).drop_last() =~= files@.take(i as int));
            lemma_total_grows(files@, i + 1);
        }
        let size: u64 = file.data.len() as u64;
        entries.push(
            AggregateFileEntry {
                relative_path: file.file_name.clone(),
                offset,
                size,
                ctime: file.ctime,
                mtime: file.mtime,
                mode: file.mode,
                xattrs: clone_text(&file.xattrs),
                acl: clone_text(&file.acl),
            },
        );
        let mut copy = vstd::slice::slice_to_vec(file.data.as_slice());
        data.append(&mut copy);
        offset = offset + size;
        i += 1;
    }
    assert(files@.take(i as int) =~= files@);
    (data, entries)
}

/// The bytes of the first files are no more than those of all.
pub proof fn lemma_total_grows<F: Payload>(files: Seq<F>, n: int)
    requires
        0 <= n <= files.len(),
    ensures
        total_bytes(files.take(n)) <= total_bytes(files),
    decreases files.len(),
{
    if n == files.len() {
        assert(files.take(n) =~= files);
    } else {
        lemma_total_grows(files.drop_last(), n);
        assert(files.drop_last().take(n) =~= files.take(n));
    }
}

/// A blob that is ready to be written.
#[derive(Debug)]
pub struct BlobPlan {
    /// Directory that has to exist.
    pub dir: String,
    /// File to be created.
    pub path: String,
    pub data: Vec<u8>,
    pub meta: AggregateBlobMeta,
}

/// The blobs of one directory.
#[derive(Debug)]
pub struct DirBlobs {
    pub dir: String,
    pub blobs: Vec<AggregateBlobMeta>,
}

/// An index that is to be written.
#[derive(Debug)]
pub enum IndexWrite {
    /// The whole contents of a binary index.
    Binary { path: String, bytes: Vec<u8> },
    /// The rows of a directory's table, in the order in which they are entered.
    Table { path: String, rows: Vec<DirIndexRow> },
}

#[derive(Debug)]
pub enum AggregateEngineError {
    Io(String),
    Index(AggregateIndexError),
    Other(String),
}

impl AggregateEngineError {
    /// The message shown to users.
    pub fn message(&self) -> (s: String)
        ensures
            s@ == (match *self {
                AggregateEngineError::Io(e) => "IO error: "@ + e@,
                AggregateEngineError::Index(AggregateIndexError::Io(e)) => "Index error: "@ + (
                "IO error: "@ + e@),
                AggregateEngineError::Index(AggregateIndexError::Other(e)) => "Index error: "@ + e@,
                AggregateEngineError::Other(e) => e@,
            }),
    {
        match self {
            AggregateEngineError::Io(e) => text::concat("IO error: ", e.as_str()),
            AggregateEngineError::Index(e) => text::concat("Index error: ", e.message().as_str()),
            AggregateEngineError::Other(e) => e.clone(),
        }
    }
}

/// Where the shard index of a target lies.
pub open spec fn shard_index_path(target_base: Seq<char>) -> Seq<char> {
    paths::join(paths::join(target_base, AGGREGATE_ROOT_DIR@), BINARY_INDEX_FILE_NAME@)
}

/// Where the shard index of a target lies.
pub fn shard_index_path_of(target_base: &str) -> (s: String)
    ensures
        s@ == shard_index_path(target_base@),
{
    let dir = paths::join_path(target_base, AGGREGATE_ROOT_DIR);
    paths::join_path(dir.as_str(), BINARY_INDEX_FILE_NAME)
}

// ---------------------------------------------------------------------------
// The engine
// ---------------------------------------------------------------------------

pub struct AggregateBackupEngine {
    pub config: AggregateConfig,
    pub source_base: String,
    pub id_generator: ThreadSafeSnowflake,
    pub target_base: String,
    pub shard_index: Option<AggregateIndex>,
    pub dir_indexes: Vec<DirBlobs>,
    pub dir_slots: StringHashMap<usize>,
    pub stats: AggregateStats,
}

impl AggregateBackupEngine {
    /// There is a shard index exactly in the shard layout, and each directory is listed once.
    pub open spec fn wf(&self) -> bool {
        &&& self.id_generator.inner.wf()
        &&& (self.config.layout == AggregateLayout::Shard) == self.shard_index is Some
        &&& self.shard_index matches Some(index) ==> index.wf()
        &&& forall|k: Seq<char>| #[trigger]
            self.dir_slots@.contains_key(k) ==> self.dir_slots@[k] < self.dir_indexes@.len()
                && self.dir_indexes@[self.dir_slots@[k] as int].dir@ == k
        &&& forall|i: int|
            0 <= i < self.dir_indexes@.len() ==> self.dir_slots@.contains_key(
                #[trigger] self.dir_indexes@[i].dir@,
            ) && self.dir_slots@[self.dir_indexes@[i].dir@] == i
    }

    pub open spec fn target(&self) -> Seq<char> {
        self.target_base@
    }

    pub open spec fn counters(&self) -> AggregateStats {
        self.stats
    }

    /// What the shard index holds.
    pub open spec fn index(&self) -> Map<Seq<char>, crate::aggregate_index::InfoView> {
        self.shard_index->0@
    }

    /// The blobs of each directory.
    pub open spec fn dir_blobs(&self) -> Map<Seq<char>, Seq<AggregateBlobMeta>> {
        Map::new(
            |k: Seq<char>| self.dir_slots@.contains_key(k),
            |k: Seq<char>| self.dir_indexes@[self.dir_slots@[k] as int].blobs@,
        )
    }

    /// How many directories have blobs.
    pub open spec fn dir_count(&self) -> nat {
        self.dir_indexes@.len()
    }

    /// An engine that starts without blobs. In the shard layout it continues the index
    /// whose contents are given; it fails where they cannot be read.
    pub fn new(
        config: AggregateConfig,
        source_base: String,
        target_base: String,
        index_contents: Option<Vec<u8>>,
        os_pid: u32,
    ) -> (r: Result<Self, AggregateEngineError>)
        ensures
            match r {
                Ok(engine) => {
                    &&& engine.wf()
                    &&& engine.config == config
                    &&& engine.source_base == source_base
                    &&& engine.target() == target_base@
                    &&& engine.id_generator.inner.wf()
                    &&& engine.id_generator.inner.process() == os_pid % 1024
                    &&& engine.id_generator.inner.last() == 0
                    &&& engine.id_generator.inner.seq() == 0
                    &&& engine.counters() == (AggregateStats {
                        blobs_created: 0,
                        files_aggregated: 0,
                        files_normal: 0,
                        blob_bytes: 0,
                        original_bytes: 0,
                        active_shards: 0,
                    })
                    &&& engine.dir_blobs() == Map::<Seq<char>, Seq<AggregateBlobMeta>>::empty()
                    &&& config.layout == AggregateLayout::Shard ==> {
                        &&& crate::aggregate_index::readable(index_contents)
                        &&& engine.index() == crate::aggregate_index::read_map(index_contents)
                    }
                },
                Err(e) => {
                    &&& config.layout == AggregateLayout::Shard
                    &&& !crate::aggregate_index::readable(index_contents)
                    &&& e matches AggregateEngineError::Index(ie)
                        && crate::aggregate_index::open_error(
                        index_contents->0@,
                        shard_index_path(target_base@),
                        ie,
                    )
                },
            },
    {
        let shard_index = match config.layout {
            AggregateLayout::Shard => {
                let path = shard_index_path_of(target_base.as_str());
                match AggregateIndex::open(path.as_str(), index_contents) {
                    Ok(index) => Some(index),
                    Err(e) => {
                        return Err(AggregateEngineError::Index(e));
                    },
                }
            },
            AggregateLayout::DirLevel => None,
        };
        let engine = AggregateBackupEngine {
            config,
            source_base,
            id_generator: ThreadSafeSnowflake::default(os_pid),
            target_base,
            shard_index,
            dir_indexes: Vec::new(),
            dir_slots: StringHashMap::new(),
            stats: AggregateStats::default(),
        };
        assert(engine.dir_blobs() =~= Map::<Seq<char>, Seq<AggregateBlobMeta>>::empty());
        Ok(engine)
    }

    pub fn should_aggregate(&self, file_size: u64) -> (r: bool)
        ensures
            r == aggregates(file_size, self.config),
    {
        crate::aggregate::should_aggregate(file_size, &self.config)
    }

    /// A source path relative to the source base, or as a whole where it lies elsewhere.
    pub open spec fn relative(&self, source_path: Seq<char>) -> Seq<char> {
        text::forward_slashes(
            match paths::strip_prefix(source_path, self.source_base@) {
                Some(rest) => rest,
                None => source_path,
            },
        )
    }

    pub fn relative_path_for_source(&self, source_path: &str) -> (s: String)
        ensures
            s@ == self.relative(source_path@),
    {
        match paths::strip_base(source_path, self.source_base.as_str()) {
            Some(rest) => text::to_forward_slashes(rest.as_str()),
            None => text::to_forward_slashes(source_path),
        }
    }

    /// How many shards are in use once `extra_bytes` more were written.
    pub open spec fn preferred_shards(&self, extra_bytes: u64) -> u16 {
        let seen = self.counters().original_bytes + extra_bytes;
        shards_in_use(
            if seen > u64::MAX {
                u64::MAX
            } else {
                seen as u64
            },
            self.config,
        )
    }

    fn preferred_shard_count(&self, extra_bytes: u64) -> (n: u16)
        ensures
            n == self.preferred_shards(extra_bytes),
            n >= 1,
    {
        count_shards(self.stats.original_bytes.saturating_add(extra_bytes), &self.config)
    }

    /// The shard of a path: its hash modulo the number of shards in use.
    pub open spec fn shard_for(&self, path: Seq<char>, extra_bytes: u64) -> u16 {
        (fnv_hash(vstd::utf8::encode_utf8(path)) % (self.preferred_shards(extra_bytes) as u64)) as u16
    }

    fn shard_for_relative_path_with_hint(&self, relative_path: &str, extra_bytes: u64) -> (n: u16)
        ensures
            n == self.shard_for(relative_path@, extra_bytes),
            n < self.preferred_shards(extra_bytes),
    {
        let hash = fnv_hash_of(relative_path);
        let count: u64 = self.preferred_shard_count(extra_bytes) as u64;
        let shard: u64 = hash % count;
        assert(shard < count);
        shard as u16
    }

    /// The bucket of a path: its directory, or its shard.
    pub open spec fn bucket_key(&self, relative_path: Seq<char>, extra_bytes: u64) -> Seq<char> {
        match self.config.layout {
            AggregateLayout::DirLevel => parent_dir(relative_path),
            AggregateLayout::Shard => shard_key(
                self.shard_for(relative_path, extra_bytes) as nat,
            ),
        }
    }

    pub fn bucket_key_for_relative_path(&self, relative_path: &str, extra_bytes: u64) -> (s: String)
        ensures
            s@ == self.bucket_key(relative_path@, extra_bytes),
    {
        match self.config.layout {
            AggregateLayout::DirLevel => parent_dir_of(relative_path),
            AggregateLayout::Shard => shard_name(
                self.shard_for_relative_path_with_hint(relative_path, extra_bytes) as u64,
            ),
        }
    }

    /// The directory of a bucket's blobs, relative to the target.
    pub open spec fn blob_dir(&self, bucket_key: Seq<char>) -> Seq<char> {
        match self.config.layout {
            AggregateLayout::Shard => paths::join(AGGREGATE_ROOT_DIR@, bucket_key),
            AggregateLayout::DirLevel => aggregate_dir(bucket_key),
        }
    }

    /// Plans the blob of a bucket under the given file name. Nothing changes yet: the
    /// blob counts once `commit_blob` was called.
    pub fn create_blob(&self, bucket_key: &str, files: Vec<PendingFile>, blob_name: &str) -> (plan:
        BlobPlan)
        requires
            total_bytes(files@) <= u64::MAX,
        ensures
            plans_blob(*self, bucket_key@, files@, blob_name@, plan),
    {
        let rel_dir = match self.config.layout {
            AggregateLayout::Shard => paths::join_path(AGGREGATE_ROOT_DIR, bucket_key),
            AggregateLayout::DirLevel => aggregate_dir_for(bucket_key),
        };
        let shard_id: u16 = match self.config.layout {
            AggregateLayout::Shard => shard_id_of(bucket_key),
            AggregateLayout::DirLevel => 0,
        };
        let dir = paths::join_path(self.target_base.as_str(), rel_dir.as_str());
        let rel = text::to_forward_slashes(paths::join_path(rel_dir.as_str(), blob_name).as_str());
        let path = paths::join_path(self.target_base.as_str(), rel.as_str());
        let file_count: u32 = #[verifier::truncate] (files.len() as u32);
        proof {
            lemma_blob_len(files@);
        }
        let (data, entries) = assemble_blob(files);
        let blob_size: u64 = data.len() as u64;
        BlobPlan {
            dir,
            path,
            data,
            meta: AggregateBlobMeta {
                blob_path: rel,
                blob_size,
                file_count,
                shard_id,
                files: entries,
            },
        }
    }

    /// Whether the counters have room for one more blob.
    pub open spec fn has_room(&self, meta: AggregateBlobMeta) -> bool {
        let c = self.counters();
        &&& c.blobs_created < u64::MAX
        &&& c.files_aggregated + meta.file_count <= u64::MAX
        &&& c.blob_bytes + meta.blob_size <= u64::MAX
        &&& c.original_bytes + meta.blob_size <= u64::MAX
    }

    /// Takes a blob that was written into the index and the counters.
    pub fn commit_blob(&mut self, bucket_key: &str, meta: AggregateBlobMeta)
        requires
            old(self).wf(),
            old(self).has_room(meta),
        ensures
            commits(*old(self), bucket_key@, meta, *final(self)),
    {
        let ghost before = *self;
        let file_count: u64 = meta.file_count as u64;
        let blob_size: u64 = meta.blob_size;
        let active: u64 = match self.config.layout {
            AggregateLayout::Shard => {
                let active: u64 = self.preferred_shard_count(blob_size) as u64;
                let taken = self.shard_index.take();
                match taken {
                    Some(index) => {
                        let mut index = index;
                        let _ = index.add_blob(&meta);
                        self.shard_index = Some(index);
                    },
                    None => {},
                }
                assert(self.dir_blobs() =~= before.dir_blobs());
                active
            },
            AggregateLayout::DirLevel => {
                self.push_dir_blob(bucket_key, meta);
                self.dir_indexes.len() as u64
            },
        };
        let ghost mid = *self;
        self.stats.blobs_created = self.stats.blobs_created + 1;
        self.stats.files_aggregated = self.stats.files_aggregated + file_count;
        self.stats.blob_bytes = self.stats.blob_bytes + blob_size;
        self.stats.original_bytes = self.stats.original_bytes + blob_size;
        self.stats.active_shards = active;
        assert(self.dir_blobs() =~= mid.dir_blobs());
    }

    fn push_dir_blob(&mut self, dir: &str, meta: AggregateBlobMeta)
        requires
            old(self).wf(),
        ensures
            final(self).wf(),
            final(self).config == old(self).config,
            final(self).source_base == old(self).source_base,
            final(self).target() == old(self).target(),
            final(self).id_generator == old(self).id_generator,
            final(self).counters() == old(self).counters(),
            final(self).dir_blobs() == old(self).dir_blobs().insert(
                dir@,
                (if old(self).dir_blobs().contains_key(dir@) {
                    old(self).dir_blobs()[dir@]
                } else {
                    Seq::empty()
                }).push(meta),
            ),
    {
        let ghost before = *self;
        let ghost earlier = if before.dir_blobs().contains_key(dir@) {
            before.dir_blobs()[dir@]
        } else {
            Seq::empty()
        };
        let found: Option<usize> = match self.dir_slots.get(dir) {
            Some(i) => Some(*i),
            None => None,
        };
        match found {
            Some(i) => {
                self.dir_indexes[i].blobs.push(meta);
                assert(forall|k: Seq<char>| #[trigger]
                    before.dir_slots@.contains_key(k) && k != dir@ ==> before.dir_slots@[k] != i);
            },
            None => {
                let i: usize = self.dir_indexes.len();
                self.dir_indexes.push(DirBlobs { dir: dir.to_owned(), blobs: vec![meta] });
                self.dir_slots.insert(dir.to_owned(), i);
                assert(self.dir_indexes@[i as int].blobs@ =~= earlier.push(meta));
            },
        }
        assert(self.dir_blobs() =~= before.dir_blobs().insert(dir@, earlier.push(meta)));
    }

    /// Where the table of a directory's blobs lies.
    pub open spec fn dir_index_path(&self, dir: Seq<char>) -> Seq<char> {
        paths::join(paths::join(self.target(), aggregate_dir(dir)), SQLITE_INDEX_FILE_NAME@)
    }

    /// Whether every blob and every file of the directories has a name.
    pub open spec fn all_nameable(&self) -> bool {
        forall|k: Seq<char>, i: int|
            self.dir_blobs().contains_key(k) && 0 <= i < self.dir_blobs()[k].len()
                ==> crate::aggregate_dir_index::nameable(#[trigger] self.dir_blobs()[k][i])
    }

    /// The indexes that are to be written now. In the shard layout this is the one binary
    /// index; otherwise it is a table for each directory that has blobs, and the message
    /// about a blob or file without a name where there is one.
    pub fn flush_all_indexes(&self) -> (r: Result<Vec<IndexWrite>, AggregateEngineError>)
        requires
            self.wf(),
        ensures
            self.config.layout == AggregateLayout::Shard ==> {
                &&& r is Ok
                &&& r->Ok_0@.len() == 1
                &&& r->Ok_0@[0] matches IndexWrite::Binary { path, bytes } && path@
                    == shard_index_path(self.target()) && crate::aggregate_index::readable(Some(bytes))
                    && crate::aggregate_index::read_map(Some(bytes)) == self.index()
            },
            self.config.layout == AggregateLayout::DirLevel ==> match r {
                Ok(writes) => {
                    &&& self.all_nameable()
                    &&& writes@.len() == self.dir_count()
                    &&& forall|k: Seq<char>| #[trigger]
                        self.dir_blobs().contains_key(k) ==> exists|n: int|
                            0 <= n < writes@.len() && table_of(
                                #[trigger] writes@[n],
                                self.dir_index_path(k),
                                self.dir_blobs()[k],
                            )
                },
                Err(e) => exists|k: Seq<char>, i: int|
                    {
                        &&& self.dir_blobs().contains_key(k)
                        &&& 0 <= i < self.dir_blobs()[k].len()
                        &&& !crate::aggregate_dir_index::nameable(
                            #[trigger] self.dir_blobs()[k][i],
                        )
                        &&& e matches AggregateEngineError::Other(m)
                            && crate::aggregate_dir_index::first_unnameable(
                            self.dir_blobs()[k][i],
                            m@,
                        )
                    },
            },
    {
        let mut writes: Vec<IndexWrite> = Vec::new();
        match &self.shard_index {
            Some(index) => {
                match index.flush() {
                    Ok(bytes) => {
                        let path = shard_index_path_of(self.target_base.as_str());
                        writes.push(IndexWrite::Binary { path, bytes });
                        Ok(writes)
                    },
                    Err(e) => Err(AggregateEngineError::Index(e)),
                }
            },
            None => {
                let mut i: usize = 0;
                while i < self.dir_indexes.len()
                    invariant
                        self.wf(),
                        self.config.layout == AggregateLayout::DirLevel,
                        i <= self.dir_indexes@.len(),
                        writes@.len() == i,
                        forall|j: int|
                            0 <= j < i ==> table_of(
                                #[trigger] writes@[j],
                                self.dir_index_path(self.dir_indexes@[j].dir@),
                                self.dir_indexes@[j].blobs@,
                            ),
                        forall|j: int, n: int|
                            0 <= j < i && 0 <= n < self.dir_indexes@[j].blobs@.len()
                                ==> crate::aggregate_dir_index::nameable(
                                #[trigger] self.dir_indexes@[j].blobs@[n],
                            ),
                    decreases self.dir_indexes@.len() - i,
                {
                    let entry = &self.dir_indexes[i];
                    let dir = paths::join_path(
                        self.target_base.as_str(),
                        aggregate_dir_for(entry.dir.as_str()).as_str(),
                    );
                    let path = paths::join_path(dir.as_str(), SQLITE_INDEX_FILE_NAME);
                    match write_dir_index(&entry.blobs) {
                        Ok(rows) => {
                            writes.push(IndexWrite::Table { path, rows });
                        },
                        Err(m) => {
                            proof {
                                let k = entry.dir@;
                                assert(self.dir_blobs().contains_key(k));
                                assert(self.dir_blobs()[k] == entry.blobs@);
                                let n = choose|n: int|
                                    0 <= n < entry.blobs@.len()
                                        && !crate::aggregate_dir_index::nameable(
                                        #[trigger] entry.blobs@[n],
                                    ) && crate::aggregate_dir_index::first_unnameable(
                                        entry.blobs@[n],
                                        m@,
                                    );
                                assert(!crate::aggregate_dir_index::nameable(
                                    self.dir_blobs()[k][n],
                                ));
                            }
                            return Err(AggregateEngineError::Other(m));
                        },
                    }
                    i += 1;
                }
                assert forall|k: Seq<char>| #[trigger]
                    self.dir_blobs().contains_key(k) implies exists|n: int|
                    0 <= n < writes@.len() && table_of(
                        #[trigger] writes@[n],
                        self.dir_index_path(k),
                        self.dir_blobs()[k],
                    ) by {
                    let n = self.dir_slots@[k] as int;
                    assert(table_of(
                        writes@[n],
                        self.dir_index_path(k),
                        self.dir_blobs()[k],
                    ));
                }
                Ok(writes)
            },
        }
    }

    pub fn stats(&self) -> (r: AggregateStats)
        ensures
            r == self.counters(),
    {
        self.stats
    }
}

/// A blob that is created and committed moves the counters on by one blob, by the number of
/// its files and by their bytes, and by nothing else. The number of files of a blob is kept in
/// 32 bits.
pub proof fn law_blob_is_counted_once(
    before: AggregateStats,
    files: Seq<PendingFile>,
    plan: BlobPlan,
    after: AggregateStats,
)
    requires
        files.len() <= u32::MAX,
        plan.data@ == blob_data(files),
        plan.meta.blob_size == plan.data@.len(),
        plan.meta.file_count == files.len() as u32,
        before.blobs_created < u64::MAX,
        before.files_aggregated + plan.meta.file_count <= u64::MAX,
        before.blob_bytes + plan.meta.blob_size <= u64::MAX,
        before.original_bytes + plan.meta.blob_size <= u64::MAX,
        after == (AggregateStats {
            blobs_created: (before.blobs_created + 1) as u64,
            files_aggregated: (before.files_aggregated + plan.meta.file_count) as u64,
            blob_bytes: (before.blob_bytes + plan.meta.blob_size) as u64,
            original_bytes: (before.original_bytes + plan.meta.blob_size) as u64,
            active_shards: after.active_shards,
            ..before
        }),
    ensures
        plan.meta.blob_size == total_bytes(files),
        plan.meta.file_count == files.len(),
        after.blobs_created == before.blobs_created + 1,
        after.files_aggregated == before.files_aggregated + files.len(),
        after.blob_bytes == before.blob_bytes + total_bytes(files),
        after.original_bytes == before.original_bytes + total_bytes(files),
        after.files_normal == before.files_normal,
{
    lemma_blob_len(files);
}

/// What was put into a blob is found in the index that is read back. `engines` are the states
/// before the blob is taken in, between it and each blob that follows it, and after the last
/// one, `metas` are these blobs, and `contents` is what the last state writes as its index.
/// Where the paths of the blob's files differ and no later blob has them, each file is found
/// under its path: in this blob, with its size, directly behind the files before it.
pub proof fn law_committed_blob_is_read_back(
    engines: Seq<AggregateBackupEngine>,
    metas: Seq<AggregateBlobMeta>,
    files: Seq<PendingFile>,
    contents: Vec<u8>,
    i: int,
)
    requires
        metas.len() > 0,
        engines.len() == metas.len() + 1,
        tiles(metas[0].files@, files),
        forall|n: int|
            0 <= n < metas.len() ==> engines[n + 1].index()
                == crate::aggregate_index::with_files(
                engines[n].index(),
                (#[trigger] metas[n]).blob_path@,
                metas[n].files@,
            ),
        forall|a: int, b: int|
            0 <= a < b < files.len() ==> (#[trigger] files[a]).file_name@ != (
            #[trigger] files[b]).file_name@,
        forall|n: int, j: int|
            0 < n < metas.len() && 0 <= j < metas[n].files@.len() ==> !files.map_values(
                |f: PendingFile| f.file_name@,
            ).contains((#[trigger] metas[n].files@[j]).relative_path@),
        crate::aggregate_index::readable(Some(contents)),
        crate::aggregate_index::read_map(Some(contents)) == engines.last().index(),
        0 <= i < files.len(),
    ensures
        ({
            let found = crate::aggregate_index::read_map(Some(contents));
            &&& found.contains_key(files[i].file_name@)
            &&& found[files[i].file_name@].blob_path == metas[0].blob_path@
            &&& found[files[i].file_name@].size == files[i].data@.len()
            &&& found[files[i].file_name@].offset == total_bytes(files.take(i))
        }),
{
    let entries = metas[0].files@;
    let k = files[i].file_name@;
    assert(describes(entries[i], files[i], total_bytes(files.take(i))));
    assert forall|j: int| i < j < entries.len() implies (#[trigger] entries[j]).relative_path@
        != entries[i].relative_path@ by {
        assert(describes(entries[j], files[j], total_bytes(files.take(j))));
        assert(files[i].file_name@ != files[j].file_name@);
    }
    crate::aggregate_index::law_added_file_is_found(
        engines[0].index(),
        metas[0].blob_path@,
        entries,
        i,
    );
    assert(engines[1].index().contains_key(k));
    let names = files.map_values(|f: PendingFile| f.file_name@);
    assert(names[i] == k);
    assert(names.contains(k));
    lemma_later_blobs_keep(engines, metas, k, metas.len() as int);
}

/// A path that no blob but the first has is kept by the later ones.
proof fn lemma_later_blobs_keep(
    engines: Seq<AggregateBackupEngine>,
    metas: Seq<AggregateBlobMeta>,
    k: Seq<char>,
    n: int,
)
    requires
        1 <= n <= metas.len(),
        engines.len() == metas.len() + 1,
        forall|m: int|
            0 <= m < metas.len() ==> engines[m + 1].index()
                == crate::aggregate_index::with_files(
                engines[m].index(),
                (#[trigger] metas[m]).blob_path@,
                metas[m].files@,
            ),
        engines[1].index().contains_key(k),
        forall|m: int, j: int|
            0 < m < metas.len() && 0 <= j < metas[m].files@.len() ==> (
            #[trigger] metas[m].files@[j]).relative_path@ != k,
    ensures
        engines[n].index().contains_key(k),
        engines[n].index()[k] == engines[1].index()[k],
    decreases n,
{
    if n > 1 {
        lemma_later_blobs_keep(engines, metas, k, n - 1);
        let m = n - 1;
        assert(engines[m + 1].index() == crate::aggregate_index::with_files(
            engines[m].index(),
            metas[m].blob_path@,
            metas[m].files@,
        ));
        crate::aggregate_index::law_other_files_are_kept(
            engines[m].index(),
            metas[m].blob_path@,
            metas[m].files@,
            k,
        );
    }
}

/// Whether a write is the table of the given blobs at the given path.
pub open spec fn table_of(w: IndexWrite, path: Seq<char>, blobs: Seq<AggregateBlobMeta>) -> bool {
    w matches IndexWrite::Table { path: p, rows } && p@ == path
        && crate::aggregate_dir_index::dir_row_views(rows@) == crate::aggregate_dir_index::all_rows(
        blobs,
    )
}

/// The shard that a bucket stands for.
fn shard_id_of(bucket_key: &str) -> (n: u16)
    ensures
        n == shard_of_key(bucket_key@),
{
    match text::strip_prefix(bucket_key, "shard-") {
        Some(number) => match text::parse_number(number.as_str(), 10, 65535) {
            Ok(n) => n as u16,
            Err(_) => 0,
        },
        None => 0,
    }
}

// ---------------------------------------------------------------------------
// Collecting files
// ---------------------------------------------------------------------------

/// The engine together with the files that wait in its buckets.
pub struct AggregateBackupState {
    pub buffers: BucketMap<PendingFile>,
    pub engine: AggregateBackupEngine,
    pub normal_files: Vec<FileControlBlock>,
}

impl AggregateBackupState {
    pub fn new(engine: AggregateBackupEngine) -> (r: Self)
        ensures
            r.engine == engine,
            r.buffers.wf(),
            r.buffers@ == Map::<Seq<char>, Seq<PendingFile>>::empty(),
            r.normal_files@.len() == 0,
    {
        AggregateBackupState { buffers: BucketMap::new(), engine, normal_files: Vec::new() }
    }

    /// Adds a file to its bucket. Once the bucket holds `max_blob_size` bytes, it is
    /// handed out with all its files and is empty again.
    pub fn add_file(&mut self, relative_path: &str, file: PendingFile) -> (r: Option<
        (String, Vec<PendingFile>),
    >)
        requires
            old(self).buffers.wf(),
            total_bytes(
                old(self).buffers.pending(
                    old(self).engine.bucket_key(relative_path@, file.bytes() as u64),
                ),
            ) + file.bytes() <= u64::MAX,
        ensures
            final(self).buffers.wf(),
            final(self).engine == old(self).engine,
            final(self).normal_files == old(self).normal_files,
            added(
                old(self).buffers@,
                old(self).engine.bucket_key(relative_path@, file.bytes() as u64),
                file,
                old(self).engine.config.max_blob_size,
                group_of(r),
                final(self).buffers@,
            ),
            r matches Some((key, _)) ==> key@ == old(self).engine.bucket_key(
                relative_path@,
                file.bytes() as u64,
            ),
    {
        let key = self.engine.bucket_key_for_relative_path(relative_path, file.byte_len());
        let max_size: u64 = self.engine.config.max_blob_size;
        match self.buffers.add(key.as_str(), file, max_size) {
            Some(files) => Some((key, files)),
            None => None,
        }
    }

    /// Hands out every bucket that still has files.
    pub fn flush_all(&mut self) -> (out: Vec<(String, Vec<PendingFile>)>)
        requires
            old(self).buffers.wf(),
        ensures
            final(self).buffers.wf(),
            final(self).engine == old(self).engine,
            final(self).normal_files == old(self).normal_files,
            drained(old(self).buffers@, out@, final(self).buffers@),
    {
        self.buffers.drain_all()
    }
}

/// Over a whole run every file comes out exactly once. `states` are the states before each
/// file is added and before the buckets are flushed; the engine may change in between. What the
/// calls of `add_file` and `flush_all` handed out holds each file that was added as often as
/// it was added, and no other; no group is empty, and nothing stays in a bucket.
pub proof fn law_every_pending_file_comes_out_once(
    states: Seq<AggregateBackupState>,
    paths: Seq<Seq<char>>,
    files: Seq<PendingFile>,
    outs: Seq<Option<(String, Vec<PendingFile>)>>,
    rest: Seq<(String, Vec<PendingFile>)>,
    end: AggregateBackupState,
)
    requires
        states.len() == files.len() + 1,
        paths.len() == files.len(),
        outs.len() == files.len(),
        states[0].buffers@ == Map::<Seq<char>, Seq<PendingFile>>::empty(),
        forall|i: int|
            0 <= i < files.len() ==> added(
                states[i].buffers@,
                states[i].engine.bucket_key(paths[i], files[i].bytes() as u64),
                #[trigger] files[i],
                states[i].engine.config.max_blob_size,
                group_of(outs[i]),
                states[i + 1].buffers@,
            ),
        drained(states.last().buffers@, rest, end.buffers@),
    ensures
        files_in(handed_groups(outs)).add(files_in(bucket_files(rest))) == files.to_multiset(),
        forall|i: int|
            0 <= i < outs.len() ==> (#[trigger] outs[i] matches Some((_, group)) ==> group@.len()
                > 0),
        forall|n: int| 0 <= n < rest.len() ==> (#[trigger] rest[n]).1@.len() > 0,
        forall|k: Seq<char>| (#[trigger] waiting(end.buffers@, k)).len() == 0,
{
    let n = files.len();
    let buckets = Seq::new(n + 1, |i: int| states[i].buffers@);
    let keys = Seq::new(n, |i: int| states[i].engine.bucket_key(paths[i], files[i].bytes() as u64));
    let sizes = Seq::new(n, |i: int| states[i].engine.config.max_blob_size);
    let groups = Seq::new(n, |i: int| group_of(outs[i]));
    assert(groups =~= Seq::new(outs.len(), |i: int| group_of(outs[i])));
    assert forall|i: int| 0 <= i < n implies #[trigger] added(
        buckets[i],
        keys[i],
        files[i],
        sizes[i],
        groups[i],
        buckets[i + 1],
    ) by {
        assert(files[i] == files[i]);
    }
    law_every_file_comes_out_once(buckets, keys, files, sizes, groups, rest, end.buffers@);
    assert forall|i: int| 0 <= i < outs.len() implies (#[trigger] outs[i] matches Some((_, group))
        ==> group@.len() > 0) by {
        assert(added(buckets[i], keys[i], files[i], sizes[i], groups[i], buckets[i + 1]));
    }
}

/// The pending file that a control block stands for.
pub fn fcb_to_pending_file(fcb: &FileControlBlock) -> (r: PendingFile)
    requires
        fcb.wf(),
    ensures
        r.file_name@ == text::forward_slashes(fcb.dst_path@),
        r.data@ == fcb.buffer@.take(fcb.buffer_len as int),
        r.ctime == fcb.meta.common.ctime as u64,
        r.mtime == fcb.meta.common.mtime as u64,
        r.mode == fcb.meta.common.mode,
        r.xattrs == fcb.meta.common.xattributes,
        r.acl == fcb.meta.common.posix_access_acl,
{
    let part = vstd::slice::slice_subrange(fcb.buffer.as_slice(), 0, fcb.buffer_len);
    assert(part@ =~= fcb.buffer@.take(fcb.buffer_len as int));
    PendingFile {
        file_name: text::to_forward_slashes(fcb.dst_path.as_str()),
        data: vstd::slice::slice_to_vec(part),
        ctime: fcb.meta.common.ctime as u64,
        mtime: fcb.meta.common.mtime as u64,
        mode: fcb.meta.common.mode,
        xattrs: clone_text(&fcb.meta.common.xattributes),
        acl: clone_text(&fcb.meta.common.posix_access_acl),
    }
}

/// Shards come into use one by one: there is one more than full blobs were seen, up to the
/// configured number.
pub proof fn law_shards_come_into_use_one_by_one(bytes_seen: u64, config: AggregateConfig)
    requires
        config.max_blob_size > 0,
        config.shard_count > 0,
        bytes_seen / config.max_blob_size < 65535,
    ensures
        ({
            let n = shards_in_use(bytes_seen, config);
            &&& (n - 1) * config.max_blob_size <= bytes_seen
            &&& n < config.shard_count ==> bytes_seen < n * config.max_blob_size
            &&& n <= config.shard_count
        }),
{
    let blob = config.max_blob_size as int;
    let full = bytes_seen as int / blob;
    let n = shards_in_use(bytes_seen, config) as int;
    assert(full * blob <= bytes_seen < (full + 1) * blob) by (nonlinear_arith)
        requires
            blob > 0,
            bytes_seen >= 0,
            full == bytes_seen as int / blob,
    ;
    assert(n - 1 <= full);
    assert((n - 1) * blob <= full * blob) by (nonlinear_arith)
        requires
            n - 1 <= full,
            blob > 0,
    ;
}

/// The shard of a path is one of those in use, and its bucket tells which. Files of one
/// directory share a bucket in the other layout, which is named after the directory.
pub proof fn law_buckets_tell_where_files_go(
    engine: AggregateBackupEngine,
    dir: Seq<char>,
    name: Seq<char>,
    extra: u64,
)
    requires
        paths::is_clean(dir),
        paths::is_name(name),
        !dir.contains('\\'),
    ensures
        engine.config.layout == AggregateLayout::DirLevel ==> engine.bucket_key(
            paths::join(dir, name),
            extra,
        ) == dir,
        engine.config.layout == AggregateLayout::Shard ==> {
            let shard = engine.shard_for(paths::join(dir, name), extra);
            &&& shard < engine.preferred_shards(extra)
            &&& shard_of_key(engine.bucket_key(paths::join(dir, name), extra)) == shard
        },
{
    paths::law_joined_name_lies_in_its_directory(dir, name);
    text::lemma_forward_slashes_id(dir);
    let shard = engine.shard_for(paths::join(dir, name), extra);
    let most = engine.preferred_shards(extra);
    let hash = fnv_hash(vstd::utf8::encode_utf8(paths::join(dir, name)));
    assert(most > 0);
    assert(hash % (most as u64) < most) by (nonlinear_arith)
        requires
            most > 0,
    ;
    law_shard_name_reads_back(shard);
}

/// The blobs of a directory lie in a directory of their own inside it, and the blobs of a
/// shard in the directory of the shard.
pub proof fn law_blobs_lie_beside_their_files(
    engine: AggregateBackupEngine,
    key: Seq<char>,
)
    requires
        paths::is_clean(key),
    ensures
        engine.config.layout == AggregateLayout::DirLevel ==> paths::parent(engine.blob_dir(key))
            == Some(key) && paths::file_name(engine.blob_dir(key)) == Some(AGGREGATE_DIR_NAME@),
        engine.config.layout == AggregateLayout::Shard ==> paths::strip_prefix(
            engine.blob_dir(key),
            AGGREGATE_ROOT_DIR@,
        ) == Some(key),
        aggregate_dir(Seq::empty()) == AGGREGATE_DIR_NAME@,
{
    paths::lemma_first_piece(key);
    lemma_aggregate_name();
    paths::law_joined_name_lies_in_its_directory(key, AGGREGATE_DIR_NAME@);
    paths::law_joined_name_is_last(key, AGGREGATE_DIR_NAME@);
    paths::law_strip_undoes_join(AGGREGATE_ROOT_DIR@, key);
}

proof fn lemma_aggregate_name()
    ensures
        paths::is_name(AGGREGATE_DIR_NAME@),
        AGGREGATE_ROOT_DIR@.len() > 0,
{
    reveal_strlit(".AGGR");
    assert(AGGREGATE_DIR_NAME@[1] == 'A');
    text::law_pieces_stand_between_separators(Seq::empty(), AGGREGATE_DIR_NAME@, '/');
}

/// A path of the source is known without the source in front of it.
pub proof fn law_sources_are_known_by_their_relative_path(
    engine: AggregateBackupEngine,
    rel: Seq<char>,
)
    requires
        engine.source_base@.len() > 0,
        paths::is_clean(rel),
        !rel.contains('\\'),
    ensures
        engine.relative(paths::join(engine.source_base@, rel)) == rel,
{
    paths::law_strip_undoes_join(engine.source_base@, rel);
    text::lemma_forward_slashes_id(rel);
}

/// The hash of a text takes in its bytes from the front: texts that begin alike hash alike up
/// to there, and each byte is mixed in before the product.
pub proof fn law_hash_goes_byte_by_byte(bytes: Seq<u8>, b: u8)
    ensures
        fnv_hash(Seq::empty()) == 1469598103934665603u64,
        fnv_hash(bytes.push(b)) == ((fnv_hash(bytes) ^ (b as u64)) * 1099511628211) % (u64::MAX
            + 1),
{
    assert(bytes.push(b).drop_last() =~= bytes);
}

/// Whether `plan` is the blob of a bucket under a file name.
pub open spec fn plans_blob(
    engine: AggregateBackupEngine,
    bucket_key: Seq<char>,
    files: Seq<PendingFile>,
    blob_name: Seq<char>,
    plan: BlobPlan,
) -> bool {
    &&& plan.dir@ == paths::join(engine.target(), engine.blob_dir(bucket_key))
    &&& plan.meta.blob_path@ == text::forward_slashes(
        paths::join(engine.blob_dir(bucket_key), blob_name),
    )
    &&& plan.path@ == paths::join(engine.target(), plan.meta.blob_path@)
    &&& plan.data@ == blob_data(files)
    &&& tiles(plan.meta.files@, files)
    &&& plan.meta.blob_size == plan.data@.len()
    &&& plan.meta.file_count == files.len() as u32
    &&& plan.meta.shard_id == (match engine.config.layout {
        AggregateLayout::Shard => shard_of_key(bucket_key),
        AggregateLayout::DirLevel => 0,
    })
}

/// Whether `after` is the engine once a blob that was written is taken in.
pub open spec fn commits(
    before: AggregateBackupEngine,
    bucket_key: Seq<char>,
    meta: AggregateBlobMeta,
    after: AggregateBackupEngine,
) -> bool {
    &&& after.wf()
    &&& after.config == before.config
    &&& after.source_base == before.source_base
    &&& after.target() == before.target()
    &&& after.id_generator == before.id_generator
    &&& match before.config.layout {
        AggregateLayout::Shard => {
            &&& after.index() == crate::aggregate_index::with_files(
                before.index(),
                meta.blob_path@,
                meta.files@,
            )
            &&& after.dir_blobs() == before.dir_blobs()
            &&& after.counters().active_shards == before.preferred_shards(
                meta.blob_size,
            )
        },
        AggregateLayout::DirLevel => {
            &&& after.dir_blobs() == before.dir_blobs().insert(
                bucket_key,
                (if before.dir_blobs().contains_key(bucket_key) {
                    before.dir_blobs()[bucket_key]
                } else {
                    Seq::empty()
                }).push(meta),
            )
            &&& after.counters().active_shards == after.dir_count()
        },
    }
    &&& after.counters() == (AggregateStats {
        blobs_created: (before.counters().blobs_created + 1) as u64,
        files_aggregated: (before.counters().files_aggregated + meta.file_count) as u64,
        blob_bytes: (before.counters().blob_bytes + meta.blob_size) as u64,
        original_bytes: (before.counters().original_bytes + meta.blob_size) as u64,
        active_shards: after.counters().active_shards,
        ..before.counters()
    })
}

/// A blob holds its files, one behind the other, and tells where each of them lies. It lies in
/// the directory of its bucket under its name, and says which shard that is.
pub proof fn law_planned_blobs_hold_their_files(
    engine: AggregateBackupEngine,
    key: Seq<char>,
    files: Seq<PendingFile>,
    name: Seq<char>,
    plan: BlobPlan,
    i: int,
)
    requires
        plans_blob(engine, key, files, name, plan),
        0 <= i < files.len(),
        files.len() <= u32::MAX,
    ensures
        plan.meta.files@.len() == files.len(),
        plan.meta.file_count == files.len(),
        plan.meta.files@[i].relative_path@ == files[i].file_name@,
        plan.data@.subrange(
            plan.meta.files@[i].offset as int,
            plan.meta.files@[i].offset + plan.meta.files@[i].size,
        ) == files[i].data@,
        plan.meta.blob_size == total_bytes(files),
        engine.target().len() > 0 && paths::is_clean(plan.meta.blob_path@) ==> paths::strip_prefix(
            plan.path@,
            engine.target(),
        ) == Some(plan.meta.blob_path@),
        paths::is_name(name) && !engine.blob_dir(key).contains('\\') && !name.contains('\\')
            ==> paths::file_name(plan.meta.blob_path@) == Some(name),
{
    assert(describes(plan.meta.files@[i], files[i], total_bytes(files.take(i))));
    law_blob_gives_back_files(plan.meta.files@, files, i);
    lemma_blob_len(files);
    if engine.target().len() > 0 && paths::is_clean(plan.meta.blob_path@) {
        paths::law_strip_undoes_join(engine.target(), plan.meta.blob_path@);
    }
    let dir = engine.blob_dir(key);
    if paths::is_name(name) && !dir.contains('\\') && !name.contains('\\') {
        let whole = paths::join(dir, name);
        assert forall|k: int| 0 <= k < whole.len() implies whole[k] != '\\' by {
            if k < dir.len() && whole.len() > name.len() {
                assert(dir.contains(dir[k]));
            } else if whole.len() - name.len() <= k {
                assert(name.contains(name[k - (whole.len() - name.len())]));
            }
        }
        text::lemma_forward_slashes_id(whole);
        paths::law_joined_name_is_last(dir, name);
    }
}

/// A blob that is taken in is counted once, with its files and its bytes. In the layout by
/// shards every file of it is found in the index from then on; in the other it stands last
/// among the blobs of its directory, and those of other directories stay as they are.
pub proof fn law_committed_blobs_are_known(
    before: AggregateBackupEngine,
    key: Seq<char>,
    meta: AggregateBlobMeta,
    after: AggregateBackupEngine,
    other: Seq<char>,
    i: int,
)
    requires
        commits(before, key, meta, after),
        before.has_room(meta),
        0 <= i < meta.files@.len(),
    ensures
        after.counters().blobs_created == before.counters().blobs_created + 1,
        after.counters().files_aggregated == before.counters().files_aggregated + meta.file_count,
        after.counters().blob_bytes == before.counters().blob_bytes + meta.blob_size,
        after.counters().original_bytes == before.counters().original_bytes + meta.blob_size,
        after.counters().files_normal == before.counters().files_normal,
        before.config.layout == AggregateLayout::Shard ==> after.index().contains_key(
            meta.files@[i].relative_path@,
        ),
        before.config.layout == AggregateLayout::DirLevel ==> {
            &&& after.dir_blobs().contains_key(key)
            &&& after.dir_blobs()[key].last() == meta
            &&& other != key ==> (after.dir_blobs().contains_key(other)
                <==> before.dir_blobs().contains_key(other))
            &&& other != key && before.dir_blobs().contains_key(other) ==> after.dir_blobs()[other]
                == before.dir_blobs()[other]
        },
        after.config == before.config,
{
    if before.config.layout == AggregateLayout::Shard {
        lemma_entered_path(before.index(), meta.blob_path@, meta.files@, i);
    }
}

proof fn lemma_entered_path(
    m: Map<Seq<char>, crate::aggregate_index::InfoView>,
    blob_path: Seq<char>,
    files: Seq<AggregateFileEntry>,
    i: int,
)
    requires
        0 <= i < files.len(),
    ensures
        crate::aggregate_index::with_files(m, blob_path, files).contains_key(
            files[i].relative_path@,
        ),
    decreases files.len(),
{
    if i < files.len() - 1 {
        lemma_entered_path(m, blob_path, files.drop_last(), i);
    }
}

/// What a blob says of a file is what was known of it when it was collected.
pub proof fn law_entries_keep_what_was_known(e: AggregateFileEntry, f: PendingFile, offset: nat)
    requires
        describes(e, f, offset),
    ensures
        e.relative_path@ == f.file_name@,
        e.offset == offset && e.size == f.data@.len(),
        (e.ctime, e.mtime, e.mode) == (f.ctime, f.mtime, f.mode),
        (e.xattrs, e.acl) == (f.xattrs, f.acl),
{
}

/// Shards are chosen by all bytes that were written and those that come next.
pub proof fn law_shards_go_by_all_bytes(engine: AggregateBackupEngine, extra: u64)
    ensures
        engine.counters().original_bytes + extra <= u64::MAX ==> engine.preferred_shards(extra)
            == shards_in_use((engine.counters().original_bytes + extra) as u64, engine.config),
        engine.counters().original_bytes + extra > u64::MAX ==> engine.preferred_shards(extra)
            == shards_in_use(u64::MAX, engine.config),
{
}

/// A table is written where it belongs, with a row for each file of its blobs.
pub proof fn law_tables_list_their_blobs(
    w: IndexWrite,
    path: Seq<char>,
    blobs: Seq<AggregateBlobMeta>,
)
    requires
        table_of(w, path, blobs),
    ensures
        w matches IndexWrite::Table { path: p, rows } && p@ == path && rows@.len()
            == crate::aggregate_dir_index::all_rows(blobs).len(),
{
}

} // verus!
