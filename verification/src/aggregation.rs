//! A target that collects small files into blobs before it hands them on.
use std::sync::Arc;

use vstd::prelude::*;

use crate::aggregate::{
    aggregates, should_aggregate, total_bytes, AggregateBlobMeta, AggregateConfig,
    AggregateLayout, Payload, PendingFile, AGGREGATE_ROOT_DIR,
};
use crate::aggregate_dir_index::SQLITE_INDEX_FILE_NAME;
use crate::aggregate_engine::{
    aggregate_dir, aggregate_dir_for, assemble_blob, blob_data, fnv_hash, fnv_hash_of,
    lemma_blob_len, parent_dir, parent_dir_of, shard_key, shard_name, tiles,
};
use crate::aggregate_index::{AggregateIndex, BINARY_INDEX_FILE_NAME};
use crate::buckets::BucketMap;
use crate::copy_block::CopyBlock;
use crate::fcb::{FileControlBlock, SourceHandleState, TargetHandleState};
use crate::metadata::{clone_text, FileMeta};
use crate::paths;
use crate::text;

verus! {

// ---------------------------------------------------------------------------
// Files that are made here
// ---------------------------------------------------------------------------

/// The name that a file at `path` has: its last component, if it has one.
pub open spec fn name_at(path: Seq<char>) -> Seq<char> {
    match paths::file_name(path) {
        Some(n) => n,
        None => Seq::empty(),
    }
}

fn name_of(path: &str) -> (s: String)
    ensures
        s@ == name_at(path@),
{
    match paths::file_name_of(path) {
        Some(n) => n,
        None => String::new(),
    }
}

/// Whether a file is described as one that is made here: by its name, mode and size, with
/// all else as in fresh metadata.
pub open spec fn made_here(m: FileMeta, path: Seq<char>, mode: u32, size: nat) -> bool {
    &&& m.common.name@ == name_at(path)
    &&& m.common.mode == mode
    &&& m.common.id == 0 && m.common.devno == 0
    &&& m.common.atime == 0 && m.common.mtime == 0 && m.common.ctime == 0
    &&& m.common.xattributes is None
    &&& m.common.posix_access_acl is None
    &&& m.common.posix_default_acl is None
    &&& m.common.symlink_target_path is None
    &&& m.size == size
    &&& m.links == 0
    &&& m.sparse_range is None
}

/// A control block for a file whose whole content is at hand.
pub fn synthetic_fcb(dst_path: String, bytes: Vec<u8>, mode: u32) -> (r: FileControlBlock)
    ensures
        made_here(*r.meta, dst_path@, mode, bytes@.len()),
        r.dst_path == dst_path,
        r.src_path@.len() == 0,
        r.buffer == bytes,
        r.buffer_len == bytes@.len(),
        r.wf(),
        r.src_state == SourceHandleState::Read,
        r.dst_state == TargetHandleState::Inited,
        r.src_offset == 0,
        r.dst_offset == 0,
{
    let mut meta = FileMeta::default();
    meta.common.mode = mode;
    meta.common.name = name_of(dst_path.as_str());
    meta.size = bytes.len() as u64;
    let mut fcb = FileControlBlock::from(meta);
    fcb.dst_path = dst_path;
    fcb.buffer_len = bytes.len();
    fcb.buffer = bytes;
    fcb.src_state = SourceHandleState::Read;
    fcb
}

/// A block for a stretch of a file that is made here.
pub fn synthetic_block(
    dst_path: String,
    bytes: Vec<u8>,
    dst_offset: u64,
    file_size: u64,
    mode: u32,
) -> (r: CopyBlock)
    requires
        dst_offset + bytes@.len() <= u64::MAX,
    ensures
        made_here(*r.meta, dst_path@, mode, file_size as nat),
        r.src_path@.len() == 0,
        r.dst_path == dst_path,
        r.src_offset == dst_offset + bytes@.len(),
        r.dst_offset == dst_offset,
        r.file_size == file_size,
        r.data == bytes,
        r.is_last == (dst_offset + bytes@.len() >= file_size),
{
    let mut meta = FileMeta::default();
    meta.common.mode = mode;
    meta.common.name = name_of(dst_path.as_str());
    meta.size = file_size;
    let end: u64 = dst_offset + bytes.len() as u64;
    CopyBlock {
        meta: Arc::new(meta),
        src_path: String::new(),
        dst_path,
        src_offset: end,
        dst_offset,
        file_size,
        data: bytes,
        is_last: end >= file_size,
    }
}

// ---------------------------------------------------------------------------
// The target
// ---------------------------------------------------------------------------

/// How many shards are in use once the given number of bytes was seen: one more for each
/// full blob, at least one and at most the configured number.
pub open spec fn shards_for_bytes(bytes_seen: u64, config: AggregateConfig) -> u64 {
    let blob_size: u64 = if config.max_blob_size == 0 {
        1
    } else {
        config.max_blob_size
    };
    let most: u64 = if config.shard_count == 0 {
        1
    } else {
        config.shard_count as u64
    };
    let full = bytes_seen / blob_size;
    if full >= most {
        most
    } else {
        (full + 1) as u64
    }
}

fn count_shards_for_bytes(bytes_seen: u64, config: &AggregateConfig) -> (n: u64)
    ensures
        n == shards_for_bytes(bytes_seen, *config),
        n >= 1,
{
    let blob_size: u64 = if config.max_blob_size == 0 {
        1
    } else {
        config.max_blob_size
    };
    let most: u64 = if config.shard_count == 0 {
        1
    } else {
        config.shard_count as u64
    };
    let desired: u64 = (bytes_seen / blob_size).saturating_add(1);
    if desired > most {
        most
    } else {
        desired
    }
}

/// What becomes of a block.
#[derive(Debug)]
pub enum TargetStep {
    /// The block is written as it is.
    PassOn(CopyBlock),
    /// The file of the block was collected.
    Collected(CopyBlock),
    /// The file of the block was collected and filled its bucket, whose files are now to
    /// be written as a blob; the block is done once that is.
    WriteBlob { block: CopyBlock, bucket: String, files: Vec<PendingFile> },
}

/// A blob that is to be written through the target behind.
#[derive(Debug)]
pub struct RemoteBlobPlan {
    /// Directory that has to exist.
    pub dir: Option<String>,
    pub block: CopyBlock,
    pub meta: AggregateBlobMeta,
}

/// The blobs of one directory.
#[derive(Debug)]
pub struct DirIndexPlan {
    /// Directory that has to exist.
    pub dir: Option<String>,
    /// File that the table is written to.
    pub path: String,
    pub key: String,
    pub blobs: Vec<AggregateBlobMeta>,
}

pub struct AggregatingTarget {
    pub config: AggregateConfig,
    pub repo_prefix: String,
    pub state: BucketMap<PendingFile>,
    pub blobs: Vec<AggregateBlobMeta>,
    pub bytes_seen: u64,
}

impl AggregatingTarget {
    pub open spec fn wf(&self) -> bool {
        self.state.wf()
    }

    pub fn new(config: AggregateConfig) -> (r: Self)
        ensures
            r.wf(),
            r.config == config,
            r.repo_prefix@.len() == 0,
            r.state@ == Map::<Seq<char>, Seq<PendingFile>>::empty(),
            r.blobs@.len() == 0,
            r.bytes_seen == 0,
    {
        AggregatingTarget::with_repo_prefix(config, String::new())
    }

    pub fn with_repo_prefix(config: AggregateConfig, repo_prefix: String) -> (r: Self)
        ensures
            r.wf(),
            r.config == config,
            r.repo_prefix == repo_prefix,
            r.state@ == Map::<Seq<char>, Seq<PendingFile>>::empty(),
            r.blobs@.len() == 0,
            r.bytes_seen == 0,
    {
        AggregatingTarget {
            config,
            repo_prefix,
            state: BucketMap::new(),
            blobs: Vec::new(),
            bytes_seen: 0,
        }
    }

    /// Whether the file of a block is collected: it is no symbolic link, small enough,
    /// and the block holds all of it.
    pub open spec fn collects(&self, block: CopyBlock) -> bool {
        &&& block.meta.common.symlink_target_path is None
        &&& aggregates(block.file_size, self.config)
        &&& block.is_last
        &&& block.data@.len() == block.file_size
    }

    fn should_aggregate_block(&self, block: &CopyBlock) -> (r: bool)
        ensures
            r == self.collects(*block),
    {
        block.meta.common.symlink_target_path.is_none() && should_aggregate(
            block.file_size,
            &self.config,
        ) && block.is_last && block.data.len() as u64 == block.file_size
    }

    /// A target path seen from the repository.
    pub open spec fn inside_repo(&self, path: Seq<char>) -> Seq<char> {
        text::forward_slashes(
            if self.repo_prefix@.len() == 0 {
                path
            } else {
                match paths::strip_prefix(path, self.repo_prefix@) {
                    Some(rest) => rest,
                    None => path,
                }
            },
        )
    }

    fn logical_relative_path(&self, path: &str) -> (s: String)
        ensures
            s@ == self.inside_repo(path@),
    {
        if self.repo_prefix.as_str().is_empty() {
            return text::to_forward_slashes(path);
        }
        match paths::strip_base(path, self.repo_prefix.as_str()) {
            Some(rest) => text::to_forward_slashes(rest.as_str()),
            None => text::to_forward_slashes(path),
        }
    }

    /// The bucket of a path once the given number of bytes was seen.
    pub open spec fn bucket_key(&self, relative_path: Seq<char>, bytes_seen: u64) -> Seq<char> {
        match self.config.layout {
            AggregateLayout::DirLevel => parent_dir(relative_path),
            AggregateLayout::Shard => shard_key(
                (fnv_hash(vstd::utf8::encode_utf8(relative_path)) % shards_for_bytes(
                    bytes_seen,
                    self.config,
                )) as nat,
            ),
        }
    }

    fn bucket_for_relative_path(&self, relative_path: &str) -> (s: String)
        ensures
            s@ == self.bucket_key(relative_path@, self.bytes_seen),
    {
        match self.config.layout {
            AggregateLayout::DirLevel => parent_dir_of(relative_path),
            AggregateLayout::Shard => {
                let shards: u64 = count_shards_for_bytes(self.bytes_seen, &self.config);
                shard_name(fnv_hash_of(relative_path) % shards)
            },
        }
    }

    /// Where a blob lies on the target.
    pub open spec fn blob_target_path(&self, bucket: Seq<char>, blob_name: Seq<char>) -> Seq<char> {
        let dir = match self.config.layout {
            AggregateLayout::DirLevel => aggregate_dir(bucket),
            AggregateLayout::Shard => paths::join(AGGREGATE_ROOT_DIR@, bucket),
        };
        let rel = paths::join(dir, blob_name);
        if self.repo_prefix@.len() == 0 {
            rel
        } else {
            paths::join(self.repo_prefix@, rel)
        }
    }

    fn blob_rel_path(&self, bucket: &str, blob_name: &str) -> (s: String)
        ensures
            s@ == self.blob_target_path(bucket@, blob_name@),
    {
        let dir = match self.config.layout {
            AggregateLayout::DirLevel => aggregate_dir_for(bucket),
            AggregateLayout::Shard => paths::join_path(AGGREGATE_ROOT_DIR, bucket),
        };
        let rel = paths::join_path(dir.as_str(), blob_name);
        if self.repo_prefix.as_str().is_empty() {
            rel
        } else {
            paths::join_path(self.repo_prefix.as_str(), rel.as_str())
        }
    }

    /// The pending file that stands for the file of a block.
    pub open spec fn pends(&self, f: PendingFile, block: CopyBlock) -> bool {
        &&& f.file_name@ == self.inside_repo(block.dst_path@)
        &&& f.data@ == block.data@
        &&& f.ctime == block.meta.common.ctime as u64
        &&& f.mtime == block.meta.common.mtime as u64
        &&& f.mode == block.meta.common.mode
        &&& f.xattrs == block.meta.common.xattributes
        &&& f.acl == block.meta.common.posix_access_acl
    }

    /// Takes a block. A file that is collected is added to its bucket; a bucket that
    /// reaches the blob size is handed out.
    pub fn write_block(&mut self, block: CopyBlock) -> (r: TargetStep)
        requires
            old(self).wf(),
            old(self).collects(block) ==> total_bytes(
                old(self).state.pending(
                    old(self).bucket_key(
                        old(self).inside_repo(block.dst_path@),
                        old(self).bytes_seen.wrapping_add(block.data@.len() as u64),
                    ),
                ),
            ) + block.data@.len() <= u64::MAX,
        ensures
            takes_block(*old(self), block, *final(self), r),
    {
        if !self.should_aggregate_block(&block) {
            return TargetStep::PassOn(block);
        }
        let relative_path = self.logical_relative_path(block.dst_path.as_str());
        let file = PendingFile {
            file_name: relative_path.clone(),
            data: vstd::slice::slice_to_vec(block.data.as_slice()),
            ctime: block.meta.common.ctime as u64,
            mtime: block.meta.common.mtime as u64,
            mode: block.meta.common.mode,
            xattrs: clone_text(&block.meta.common.xattributes),
            acl: clone_text(&block.meta.common.posix_access_acl),
        };
        assert(old(self).pends(file, block));
        self.bytes_seen = self.bytes_seen.wrapping_add(block.data.len() as u64);
        let key = self.bucket_for_relative_path(relative_path.as_str());
        let max_size: u64 = self.config.max_blob_size;
        assert(total_bytes(old(self).state.pending(key@)) + block.data@.len() <= u64::MAX);
        match self.state.add(key.as_str(), file, max_size) {
            Some(files) => TargetStep::WriteBlob { block, bucket: key, files },
            None => TargetStep::Collected(finish_block(block)),
        }
    }

    /// Plans the blob of a bucket under the given file name.
    pub fn write_blob(&self, bucket: &str, files: Vec<PendingFile>, blob_name: &str) -> (plan:
        RemoteBlobPlan)
        requires
            total_bytes(files@) <= u64::MAX,
        ensures
            plans_remote_blob(*self, bucket@, files@, blob_name@, plan),
    {
        let path = self.blob_rel_path(bucket, blob_name);
        let dir = paths::parent_of(path.as_str());
        let target_path = text::to_forward_slashes(path.as_str());
        let index_path = self.logical_relative_path(path.as_str());
        let file_count: u32 = #[verifier::truncate] (files.len() as u32);
        proof {
            lemma_blob_len(files@);
        }
        let (data, entries) = assemble_blob(files);
        let blob_size: u64 = data.len() as u64;
        let block = synthetic_block(target_path, data, 0, blob_size, 0o644);
        RemoteBlobPlan {
            dir,
            block,
            meta: AggregateBlobMeta {
                blob_path: index_path,
                blob_size,
                file_count,
                shard_id: 0,
                files: entries,
            },
        }
    }

    /// Takes note of a blob that was written.
    pub fn blob_written(&mut self, meta: AggregateBlobMeta)
        ensures
            final(self).blobs@ == old(self).blobs@.push(meta),
            final(self).config == old(self).config,
            final(self).repo_prefix == old(self).repo_prefix,
            final(self).state == old(self).state,
            final(self).bytes_seen == old(self).bytes_seen,
    {
        self.blobs.push(meta);
    }

    /// What becomes of the block that filled a bucket, once the blob was tried: where it
    /// was written it is taken note of and the file of the block is done; where it was not,
    /// the block comes back with the error.
    pub fn blob_was_written(
        &mut self,
        block: CopyBlock,
        meta: AggregateBlobMeta,
        outcome: Result<(), String>,
    ) -> (r: Result<CopyBlock, (CopyBlock, String)>)
        ensures
            notes_blob(*old(self), block, meta, outcome, *final(self), r),
    {
        match outcome {
            Ok(_) => {
                self.blob_written(meta);
                Ok(finish_block(block))
            },
            Err(e) => Err((block, e)),
        }
    }

    /// Hands out the files of every bucket that still has some, to be written as blobs.
    pub fn finish(&mut self) -> (out: Vec<(String, Vec<PendingFile>)>)
        requires
            old(self).wf(),
        ensures
            final(self).wf(),
            final(self).config == old(self).config,
            final(self).repo_prefix == old(self).repo_prefix,
            final(self).blobs == old(self).blobs,
            final(self).bytes_seen == old(self).bytes_seen,
            crate::buckets::drained(old(self).state@, out@, final(self).state@),
    {
        self.state.drain_all()
    }

    /// Whether this is the index of all blobs in the shard layout: the directory that has to
    /// exist and the file to be written. There is none without blobs.
    pub open spec fn is_shard_index(&self, index: Option<(String, FileControlBlock)>) -> bool {
        match index {
            None => self.blobs@.len() == 0,
            Some((dir, fcb)) => {
                &&& self.blobs@.len() > 0
                &&& dir@ == paths::join(self.repo_prefix@, AGGREGATE_ROOT_DIR@)
                &&& fcb.dst_path@ == paths::join(dir@, BINARY_INDEX_FILE_NAME@)
                &&& made_here(*fcb.meta, fcb.dst_path@, 0o644, fcb.buffer@.len())
                &&& fcb.src_path@.len() == 0
                &&& fcb.src_state == SourceHandleState::Read
                &&& fcb.dst_state == TargetHandleState::Inited
                &&& fcb.src_offset == 0
                &&& fcb.dst_offset == 0
                &&& fcb.wf()
                &&& fcb.buffer_len == fcb.buffer@.len()
                &&& crate::aggregate_index::readable(Some(fcb.buffer))
                &&& crate::aggregate_index::read_map(Some(fcb.buffer)) == index_of(self.blobs@)
            },
        }
    }

    /// The index of all blobs in the shard layout. There is none without blobs.
    pub fn flush_shard_index(&self) -> (r: Result<Option<(String, FileControlBlock)>, String>)
        ensures
            r matches Ok(index) && self.is_shard_index(index),
    {
        if self.blobs.len() == 0 {
            return Ok(None);
        }
        let dir = paths::join_path(self.repo_prefix.as_str(), AGGREGATE_ROOT_DIR);
        let path = paths::join_path(dir.as_str(), BINARY_INDEX_FILE_NAME);
        let mut index = match AggregateIndex::open(path.as_str(), None) {
            Ok(index) => index,
            Err(e) => {
                return Err(e.message());
            },
        };
        let mut i: usize = 0;
        assert(self.blobs@.take(0) =~= Seq::<AggregateBlobMeta>::empty());
        while i < self.blobs.len()
            invariant
                i <= self.blobs@.len(),
                index.wf(),
                index@ == index_of(self.blobs@.take(i as int)),
            decreases self.blobs@.len() - i,
        {
            assert(self.blobs@.take(i + 1).drop_last() =~= self.blobs@.take(i as int));
            let _ = index.add_blob(&self.blobs[i]);
            i += 1;
        }
        assert(self.blobs@.take(i as int) =~= self.blobs@);
        match index.flush() {
            Ok(bytes) => Ok(Some((dir, synthetic_fcb(path, bytes, 0o644)))),
            Err(e) => Err(e.message()),
        }
    }

    /// Where the table of a directory's blobs is written.
    pub open spec fn dir_index_path(&self, key: Seq<char>) -> Seq<char> {
        let rel = paths::join(aggregate_dir(key), SQLITE_INDEX_FILE_NAME@);
        if self.repo_prefix@.len() == 0 {
            rel
        } else {
            paths::join(self.repo_prefix@, rel)
        }
    }

    /// Whether these are the blobs grouped by the directory of their first file. Each blob
    /// stands in the group of its directory, the blobs of a group keep their order, and no
    /// group is empty.
    pub open spec fn are_dir_indexes(&self, out: Seq<DirIndexPlan>) -> bool {
        &&& forall|n: int, m: int|
            0 <= n < m < out.len() ==> (#[trigger] out[n]).key@ != (#[trigger] out[m]).key@
        &&& forall|n: int|
            0 <= n < out.len() ==> {
                let plan = #[trigger] out[n];
                &&& plan.path@ == self.dir_index_path(plan.key@)
                &&& match plan.dir {
                    Some(d) => paths::parent(plan.path@) == Some(d@),
                    None => paths::parent(plan.path@) is None,
                }
                &&& plan.blobs@ == self.blobs@.filter(
                    |b: AggregateBlobMeta| blob_dir_key(b) == plan.key@,
                )
                &&& plan.blobs@.len() > 0
            }
        &&& forall|i: int|
            0 <= i < self.blobs@.len() ==> has_group(out, blob_dir_key(#[trigger] self.blobs@[i]))
    }

    /// The blobs grouped by the directory of their first file.
    pub fn flush_dir_level_indexes(self) -> (out: Vec<DirIndexPlan>)
        ensures
            self.are_dir_indexes(out@),
    {
        let ghost this = self;
        let ghost all = self.blobs@;
        let mut out: Vec<DirIndexPlan> = Vec::new();
        let prefix = self.repo_prefix;
        let blobs = self.blobs;
        for blob in it: blobs
            invariant
                it.seq() == all,
                all == this.blobs@,
                prefix == this.repo_prefix,
                grouped(out@, this, all.take(it.index() as int)),
        {
            let ghost i = it.index() as int;
            let ghost seen = all.take(i);
            assert(all.take(i + 1) =~= seen.push(blob));
            let key = match blob.files.len() {
                0 => String::new(),
                _ => parent_dir_of(blob.files[0].relative_path.as_str()),
            };
            assert(key@ == blob_dir_key(blob));
            let mut at: usize = 0;
            while at < out.len() && !text::same(out[at].key.as_str(), key.as_str())
                invariant
                    at <= out@.len(),
                    forall|n: int| 0 <= n < at ==> (#[trigger] out@[n]).key@ != key@,
                decreases out@.len() - at,
            {
                at += 1;
            }
            let ghost before = out@;
            if at < out.len() {
                out[at].blobs.push(blob);
                proof {
                    lemma_group_old(before, out@, this, seen, blob, at as int);
                }
            } else {
                let path = dir_index_path_of(prefix.as_str(), key.as_str());
                let dir = paths::parent_of(path.as_str());
                out.push(DirIndexPlan { dir, path, key, blobs: vec![blob] });
                proof {
                    assert(out@[before.len() as int].blobs@ =~= seq![blob]);
                    lemma_group_new(before, out@, this, seen, blob);
                }
            }
        }
        assert(all.take(all.len() as int) =~= all);
        assert(grouped(out@, this, all));
        out
    }

    /// The index that is written at the end, once the buckets were finished and their blobs
    /// written: tables of the directories or one index of all blobs, by the layout.
    pub fn finish_index(self) -> (r: Result<FinishedIndex, String>)
        ensures
            match self.config.layout {
                AggregateLayout::DirLevel => r matches Ok(FinishedIndex::Tables(tables))
                    && self.are_dir_indexes(tables@),
                AggregateLayout::Shard => r matches Ok(FinishedIndex::Binary(index))
                    && self.is_shard_index(index),
            },
    {
        match self.config.layout {
            AggregateLayout::DirLevel => Ok(
                FinishedIndex::Tables(self.flush_dir_level_indexes()),
            ),
            AggregateLayout::Shard => match self.flush_shard_index() {
                Ok(index) => Ok(FinishedIndex::Binary(index)),
                Err(e) => Err(e),
            },
        }
    }
}

/// What is written as the index of a target's blobs.
#[derive(Debug)]
pub enum FinishedIndex {
    /// A table for each directory that has blobs.
    Tables(Vec<DirIndexPlan>),
    /// One file, with the directory that has to exist.
    Binary(Option<(String, FileControlBlock)>),
}

/// The directory whose table a blob is entered in: that of its first file.
pub open spec fn blob_dir_key(b: AggregateBlobMeta) -> Seq<char> {
    if b.files@.len() == 0 {
        Seq::empty()
    } else {
        parent_dir(b.files@[0].relative_path@)
    }
}

/// The index after the files of all given blobs were entered in order.
pub open spec fn index_of(blobs: Seq<AggregateBlobMeta>) -> Map<
    Seq<char>,
    crate::aggregate_index::InfoView,
>
    decreases blobs.len(),
{
    if blobs.len() == 0 {
        Map::empty()
    } else {
        crate::aggregate_index::with_files(
            index_of(blobs.drop_last()),
            blobs.last().blob_path@,
            blobs.last().files@,
        )
    }
}

fn dir_index_path_of(repo_prefix: &str, key: &str) -> (s: String)
    ensures
        s@ == (if repo_prefix@.len() == 0 {
            paths::join(aggregate_dir(key@), SQLITE_INDEX_FILE_NAME@)
        } else {
            paths::join(
                repo_prefix@,
                paths::join(aggregate_dir(key@), SQLITE_INDEX_FILE_NAME@),
            )
        }),
{
    let dir = aggregate_dir_for(key);
    let rel = paths::join_path(dir.as_str(), SQLITE_INDEX_FILE_NAME);
    if repo_prefix.is_empty() {
        rel
    } else {
        paths::join_path(repo_prefix, rel.as_str())
    }
}

/// Whether the plans group the given blobs.
spec fn grouped(
    out: Seq<DirIndexPlan>,
    this: AggregatingTarget,
    seen: Seq<AggregateBlobMeta>,
) -> bool {
    &&& forall|n: int, m: int|
        0 <= n < m < out.len() ==> (#[trigger] out[n]).key@ != (#[trigger] out[m]).key@
    &&& forall|n: int|
        0 <= n < out.len() ==> {
            let plan = #[trigger] out[n];
            &&& plan.path@ == this.dir_index_path(plan.key@)
            &&& match plan.dir {
                Some(d) => paths::parent(plan.path@) == Some(d@),
                None => paths::parent(plan.path@) is None,
            }
            &&& plan.blobs@ == seen.filter(|b: AggregateBlobMeta| blob_dir_key(b) == plan.key@)
            &&& plan.blobs@.len() > 0
        }
    &&& forall|i: int|
        0 <= i < seen.len() ==> has_group(out, blob_dir_key(#[trigger] seen[i]))
}

/// Whether there is a group for the given directory.
pub open spec fn has_group(out: Seq<DirIndexPlan>, key: Seq<char>) -> bool {
    exists|n: int| 0 <= n < out.len() && (#[trigger] out[n]).key@ == key
}

proof fn lemma_filter_push(
    seen: Seq<AggregateBlobMeta>,
    blob: AggregateBlobMeta,
    key: Seq<char>,
)
    ensures
        seen.push(blob).filter(|b: AggregateBlobMeta| blob_dir_key(b) == key) == (
        if blob_dir_key(blob) == key {
            seen.filter(|b: AggregateBlobMeta| blob_dir_key(b) == key).push(blob)
        } else {
            seen.filter(|b: AggregateBlobMeta| blob_dir_key(b) == key)
        }),
{
    reveal_with_fuel(Seq::filter, 1);
    assert(seen.push(blob).drop_last() =~= seen);
}

proof fn lemma_filter_none(seen: Seq<AggregateBlobMeta>, key: Seq<char>)
    requires
        forall|i: int| 0 <= i < seen.len() ==> blob_dir_key(#[trigger] seen[i]) != key,
    ensures
        seen.filter(|b: AggregateBlobMeta| blob_dir_key(b) == key) == Seq::<
            AggregateBlobMeta,
        >::empty(),
    decreases seen.len(),
{
    reveal_with_fuel(Seq::filter, 1);
    if seen.len() > 0 {
        let front = seen.drop_last();
        assert forall|i: int| 0 <= i < front.len() implies blob_dir_key(#[trigger] front[i])
            != key by {
            assert(front[i] == seen[i]);
        }
        lemma_filter_none(front, key);
        assert(blob_dir_key(seen[seen.len() - 1]) != key);
    }
}

proof fn lemma_group_old(
    before: Seq<DirIndexPlan>,
    after: Seq<DirIndexPlan>,
    this: AggregatingTarget,
    seen: Seq<AggregateBlobMeta>,
    blob: AggregateBlobMeta,
    at: int,
)
    requires
        grouped(before, this, seen),
        0 <= at < before.len(),
        after.len() == before.len(),
        before[at].key@ == blob_dir_key(blob),
        forall|n: int| 0 <= n < before.len() && n != at ==> #[trigger] after[n] == before[n],
        after[at].key == before[at].key,
        after[at].path == before[at].path,
        after[at].dir == before[at].dir,
        after[at].blobs@ == before[at].blobs@.push(blob),
    ensures
        grouped(after, this, seen.push(blob)),
{
    let next = seen.push(blob);
    assert forall|n: int, m: int| 0 <= n < m < after.len() implies (#[trigger] after[n]).key@ != (
    #[trigger] after[m]).key@ by {
        assert(before[n].key@ != before[m].key@);
    }
    assert forall|n: int| 0 <= n < after.len() implies {
        let plan = #[trigger] after[n];
        &&& plan.path@ == this.dir_index_path(plan.key@)
        &&& match plan.dir {
            Some(d) => paths::parent(plan.path@) == Some(d@),
            None => paths::parent(plan.path@) is None,
        }
        &&& plan.blobs@ == next.filter(|b: AggregateBlobMeta| blob_dir_key(b) == plan.key@)
        &&& plan.blobs@.len() > 0
    } by {
        lemma_filter_push(seen, blob, after[n].key@);
        assert(before[n].key@ == after[n].key@);
        if n != at {
            assert(after[n] == before[n]);
            if n < at {
                assert(before[n].key@ != before[at].key@);
            } else {
                assert(before[at].key@ != before[n].key@);
            }
        }
    }
    assert forall|i: int| 0 <= i < next.len() implies has_group(
        after,
        blob_dir_key(#[trigger] next[i]),
    ) by {
        if i < seen.len() {
            assert(next[i] == seen[i]);
            let n = choose|n: int|
                0 <= n < before.len() && (#[trigger] before[n]).key@ == blob_dir_key(seen[i]);
            assert(after[n].key@ == before[n].key@);
        } else {
            assert(after[at].key@ == blob_dir_key(next[i]));
        }
    }
}

proof fn lemma_group_new(
    before: Seq<DirIndexPlan>,
    after: Seq<DirIndexPlan>,
    this: AggregatingTarget,
    seen: Seq<AggregateBlobMeta>,
    blob: AggregateBlobMeta,
)
    requires
        grouped(before, this, seen),
        after.len() == before.len() + 1,
        forall|n: int| 0 <= n < before.len() ==> #[trigger] after[n] == before[n],
        forall|n: int| 0 <= n < before.len() ==> (#[trigger] before[n]).key@ != blob_dir_key(blob),
        after.last().key@ == blob_dir_key(blob),
        after.last().path@ == this.dir_index_path(blob_dir_key(blob)),
        match after.last().dir {
            Some(d) => paths::parent(after.last().path@) == Some(d@),
            None => paths::parent(after.last().path@) is None,
        },
        after.last().blobs@ == seq![blob],
    ensures
        grouped(after, this, seen.push(blob)),
{
    let next = seen.push(blob);
    let key = blob_dir_key(blob);
    // No blob seen so far belongs to the new group.
    assert forall|i: int| 0 <= i < seen.len() implies blob_dir_key(#[trigger] seen[i]) != key by {
        let n = choose|n: int|
            0 <= n < before.len() && (#[trigger] before[n]).key@ == blob_dir_key(seen[i]);
        assert(before[n].key@ != key);
    }
    lemma_filter_none(seen, key);
    assert forall|n: int, m: int| 0 <= n < m < after.len() implies (#[trigger] after[n]).key@ != (
    #[trigger] after[m]).key@ by {
        assert(after[n] == before[n]);
        if m < before.len() {
            assert(after[m] == before[m]);
        }
    }
    assert forall|n: int| 0 <= n < after.len() implies {
        let plan = #[trigger] after[n];
        &&& plan.path@ == this.dir_index_path(plan.key@)
        &&& match plan.dir {
            Some(d) => paths::parent(plan.path@) == Some(d@),
            None => paths::parent(plan.path@) is None,
        }
        &&& plan.blobs@ == next.filter(|b: AggregateBlobMeta| blob_dir_key(b) == plan.key@)
        &&& plan.blobs@.len() > 0
    } by {
        lemma_filter_push(seen, blob, after[n].key@);
        if n < before.len() {
            assert(after[n] == before[n]);
        } else {
            assert(after[n].blobs@ =~= Seq::<AggregateBlobMeta>::empty().push(blob));
        }
    }
    assert forall|i: int| 0 <= i < next.len() implies has_group(
        after,
        blob_dir_key(#[trigger] next[i]),
    ) by {
        if i < seen.len() {
            assert(next[i] == seen[i]);
            let n = choose|n: int|
                0 <= n < before.len() && (#[trigger] before[n]).key@ == blob_dir_key(seen[i]);
            assert(after[n].key@ == before[n].key@);
        } else {
            assert(after[before.len() as int].key@ == blob_dir_key(next[i]));
        }
    }
}

/// A block whose file was put away as a whole.
pub fn finish_block(block: CopyBlock) -> (r: CopyBlock)
    ensures
        r.dst_offset == block.file_size,
        r.meta == block.meta,
        r.src_path == block.src_path,
        r.dst_path == block.dst_path,
        r.src_offset == block.src_offset,
        r.file_size == block.file_size,
        r.data == block.data,
        r.is_last == block.is_last,
        r.is_written(),
{
    let mut out = block;
    out.dst_offset = out.file_size;
    out
}

/// Shards come into use one by one: there is one more than full blobs were seen, up to the
/// configured number.
pub proof fn law_target_shards_come_into_use_one_by_one(bytes_seen: u64, config: AggregateConfig)
    requires
        config.max_blob_size > 0,
        config.shard_count > 0,
    ensures
        ({
            let n = shards_for_bytes(bytes_seen, config);
            &&& 1 <= n <= config.shard_count
            &&& (n - 1) * config.max_blob_size <= bytes_seen
            &&& n < config.shard_count ==> bytes_seen < n * config.max_blob_size
        }),
{
    let blob = config.max_blob_size as int;
    let full = bytes_seen as int / blob;
    let n = shards_for_bytes(bytes_seen, config) as int;
    assert(full * blob <= bytes_seen < (full + 1) * blob) by (nonlinear_arith)
        requires
            blob > 0,
            bytes_seen >= 0,
            full == bytes_seen as int / blob,
    ;
    assert(n - 1 <= full);
    assert((n - 1) * blob <= full * blob) by (nonlinear_arith)
        requires
            n - 1 <= full,
            blob > 0,
    ;
}

/// As long as the number of blobs fits into the counter of shards, both ways of writing a
/// repository choose the same shard.
pub proof fn law_both_writers_choose_alike(bytes_seen: u64, config: AggregateConfig)
    requires
        config.max_blob_size > 0,
        bytes_seen / config.max_blob_size < 65535,
    ensures
        shards_for_bytes(bytes_seen, config) == crate::aggregate_engine::shards_in_use(
            bytes_seen,
            config,
        ),
{
}

/// A path inside the repository is known without the prefix of the repository, and a blob
/// lies behind the same prefix: seen from the repository, its path is as without one.
pub proof fn law_prefix_is_only_in_front(
    this: AggregatingTarget,
    rel: Seq<char>,
    bucket: Seq<char>,
    name: Seq<char>,
)
    requires
        paths::is_clean(rel),
        !rel.contains('\\'),
        paths::is_name(name),
    ensures
        this.repo_prefix@.len() == 0 ==> this.inside_repo(rel) == rel,
        this.repo_prefix@.len() > 0 ==> this.inside_repo(paths::join(this.repo_prefix@, rel)) == rel,
        paths::file_name(this.blob_target_path(bucket, name)) == Some(name) || this.repo_prefix@.len()
            > 0,
{
    text::lemma_forward_slashes_id(rel);
    if this.repo_prefix@.len() > 0 {
        paths::law_strip_undoes_join(this.repo_prefix@, rel);
    }
    paths::law_joined_name_is_last(
        match this.config.layout {
            AggregateLayout::DirLevel => aggregate_dir(bucket),
            AggregateLayout::Shard => paths::join(AGGREGATE_ROOT_DIR@, bucket),
        },
        name,
    );
}

/// A file is collected only with all its bytes at hand.
pub proof fn law_whole_files_are_collected(this: AggregatingTarget, block: CopyBlock)
    ensures
        this.collects(block) ==> this.config.enabled && block.is_last && block.data@.len()
            == block.file_size && 0 < block.data@.len() < this.config.file_threshold,
        block.meta.common.symlink_target_path is Some ==> !this.collects(block),
        this.config.enabled && block.is_last && block.meta.common.symlink_target_path is None && 0
            < block.file_size < this.config.file_threshold && block.data@.len() == block.file_size
            ==> this.collects(block),
{
}

/// What waits for a blob is the file of its block, under its path in the repository.
pub proof fn law_pending_files_keep_what_was_read(
    this: AggregatingTarget,
    f: PendingFile,
    block: CopyBlock,
    rel: Seq<char>,
)
    requires
        this.pends(f, block),
        this.collects(block),
        this.repo_prefix@.len() > 0,
        paths::is_clean(rel),
        !rel.contains('\\'),
        block.dst_path@ == paths::join(this.repo_prefix@, rel),
    ensures
        f.file_name@ == rel,
        f.data@ == block.data@,
        f.data@.len() == block.file_size,
        f.mode == block.meta.common.mode,
        f.mtime == block.meta.common.mtime as u64 && f.ctime == block.meta.common.ctime as u64,
        f.xattrs == block.meta.common.xattributes && f.acl == block.meta.common.posix_access_acl,
{
    text::lemma_forward_slashes_id(rel);
    paths::law_strip_undoes_join(this.repo_prefix@, rel);
}

/// The index knows the files of the blobs and nothing else.
pub proof fn law_index_knows_the_files_of_its_blobs(blobs: Seq<AggregateBlobMeta>, path: Seq<char>)
    ensures
        index_of(blobs).contains_key(path) <==> exists|i: int, j: int|
            0 <= i < blobs.len() && 0 <= j < blobs[i].files@.len() && (#[trigger] blobs[i].files@[j]).relative_path@
                == path,
    decreases blobs.len(),
{
    if blobs.len() > 0 {
        let front = blobs.drop_last();
        let files = blobs.last().files@;
        let n = blobs.len() - 1;
        law_index_knows_the_files_of_its_blobs(front, path);
        lemma_entered(index_of(front), blobs.last().blob_path@, files, path);
        if index_of(front).contains_key(path) {
            let (i, j) = choose|i: int, j: int|
                0 <= i < front.len() && 0 <= j < front[i].files@.len() && (#[trigger] front[i].files@[j]).relative_path@
                    == path;
            assert(blobs[i].files@[j].relative_path@ == path);
        }
        if exists|j: int| 0 <= j < files.len() && (#[trigger] files[j]).relative_path@ == path {
            let j = choose|j: int|
                0 <= j < files.len() && (#[trigger] files[j]).relative_path@ == path;
            assert(blobs[n].files@[j].relative_path@ == path);
        }
        if exists|i: int, j: int|
            0 <= i < blobs.len() && 0 <= j < blobs[i].files@.len() && (#[trigger] blobs[i].files@[j]).relative_path@
                == path {
            let (i, j) = choose|i: int, j: int|
                0 <= i < blobs.len() && 0 <= j < blobs[i].files@.len() && (#[trigger] blobs[i].files@[j]).relative_path@
                    == path;
            if i < n {
                assert(front[i].files@[j].relative_path@ == path);
            } else {
                assert(files[j].relative_path@ == path);
            }
        }
    }
}

proof fn lemma_entered(
    m: Map<Seq<char>, crate::aggregate_index::InfoView>,
    blob_path: Seq<char>,
    files: Seq<crate::aggregate::AggregateFileEntry>,
    path: Seq<char>,
)
    ensures
        crate::aggregate_index::with_files(m, blob_path, files).contains_key(path)
            <==> m.contains_key(path) || exists|j: int|
            0 <= j < files.len() && (#[trigger] files[j]).relative_path@ == path,
    decreases files.len(),
{
    if files.len() > 0 {
        let front = files.drop_last();
        lemma_entered(m, blob_path, front, path);
        if exists|j: int| 0 <= j < front.len() && (#[trigger] front[j]).relative_path@ == path {
            let j = choose|j: int|
                0 <= j < front.len() && (#[trigger] front[j]).relative_path@ == path;
            assert(files[j].relative_path@ == path);
        }
        if exists|j: int| 0 <= j < files.len() && (#[trigger] files[j]).relative_path@ == path {
            let j = choose|j: int|
                0 <= j < files.len() && (#[trigger] files[j]).relative_path@ == path;
            if j < front.len() {
                assert(front[j].relative_path@ == path);
            }
        }
        assert(files[files.len() - 1] == files.last());
    }
}

/// Whether `r` is what is done with a block, and `after` the target then.
pub open spec fn takes_block(
    before: AggregatingTarget,
    block: CopyBlock,
    after: AggregatingTarget,
    r: TargetStep,
) -> bool {
    &&& after.wf()
    &&& after.config == before.config
    &&& after.repo_prefix == before.repo_prefix
    &&& after.blobs == before.blobs
    &&& !before.collects(block) ==> {
        &&& r == TargetStep::PassOn(block)
        &&& after.state@ == before.state@
        &&& after.bytes_seen == before.bytes_seen
    }
    &&& before.collects(block) ==> {
        let seen = before.bytes_seen.wrapping_add(block.data@.len() as u64);
        let key = before.bucket_key(before.inside_repo(block.dst_path@), seen);
        &&& after.bytes_seen == seen
        &&& exists|f: PendingFile| #[trigger]
            before.pends(f, block) && {
                let files = before.state.pending(key).push(f);
                if total_bytes(files) >= before.config.max_blob_size {
                    &&& r matches TargetStep::WriteBlob { block: b, bucket, files: out } && b
                        == block && bucket@ == key && out@ == files
                    &&& after.state@ == before.state@.insert(key, Seq::empty())
                } else {
                    &&& r matches TargetStep::Collected(b) && b.dst_offset == block.file_size
                        && b.meta == block.meta && b.src_path == block.src_path
                        && b.dst_path == block.dst_path && b.src_offset
                        == block.src_offset && b.file_size == block.file_size && b.data
                        == block.data && b.is_last == block.is_last
                    &&& after.state@ == before.state@.insert(key, files)
                }
            }
    }
}

/// Whether `plan` is the blob of a bucket under a file name.
pub open spec fn plans_remote_blob(
    this: AggregatingTarget,
    bucket: Seq<char>,
    files: Seq<PendingFile>,
    blob_name: Seq<char>,
    plan: RemoteBlobPlan,
) -> bool {
    &&& ({
        let path = this.blob_target_path(bucket, blob_name);
        &&& match plan.dir {
            Some(d) => paths::parent(path) == Some(d@),
            None => paths::parent(path) is None,
        }
        &&& plan.block.dst_path@ == text::forward_slashes(path)
        &&& plan.meta.blob_path@ == this.inside_repo(path)
    })
    &&& plan.block.data@ == blob_data(files)
    &&& plan.block.src_path@.len() == 0
    &&& plan.block.src_offset == plan.block.data@.len()
    &&& plan.block.dst_offset == 0
    &&& plan.block.file_size == plan.block.data@.len()
    &&& plan.block.is_last
    &&& made_here(
        *plan.block.meta,
        plan.block.dst_path@,
        0o644,
        plan.block.data@.len(),
    )
    &&& plan.meta.blob_size == plan.block.data@.len()
    &&& plan.meta.file_count == files.len() as u32
    &&& plan.meta.shard_id == 0
    &&& tiles(plan.meta.files@, files)
}

/// Whether a blob that was written is taken note of, and `r` what becomes of the block that
/// filled it.
pub open spec fn notes_blob(
    before: AggregatingTarget,
    block: CopyBlock,
    meta: AggregateBlobMeta,
    outcome: Result<(), String>,
    after: AggregatingTarget,
    r: Result<CopyBlock, (CopyBlock, String)>,
) -> bool {
    &&& after.config == before.config
    &&& after.repo_prefix == before.repo_prefix
    &&& after.state == before.state
    &&& after.bytes_seen == before.bytes_seen
    &&& match outcome {
        Ok(_) => {
            &&& after.blobs@ == before.blobs@.push(meta)
            &&& r == Ok::<CopyBlock, (CopyBlock, String)>(
                (CopyBlock { dst_offset: block.file_size, ..block }),
            )
        },
        Err(e) => {
            &&& after.blobs == before.blobs
            &&& r == Err::<CopyBlock, (CopyBlock, String)>((block, e))
        },
    }
}

/// A block that is not collected is passed on unchanged and leaves nothing behind. The file of
/// any other waits in its bucket, or is handed out with the whole bucket, once the files in it
/// reach the size of a blob; the bucket is empty then.
pub proof fn law_blocks_wait_or_are_handed_out(
    before: AggregatingTarget,
    block: CopyBlock,
    after: AggregatingTarget,
    r: TargetStep,
)
    requires
        takes_block(before, block, after, r),
    ensures
        r is PassOn <==> !before.collects(block),
        r matches TargetStep::PassOn(b) ==> b == block && after.state@ == before.state@
            && after.bytes_seen == before.bytes_seen,
        before.collects(block) ==> {
            let seen = before.bytes_seen.wrapping_add(block.data@.len() as u64);
            let key = before.bucket_key(before.inside_repo(block.dst_path@), seen);
            let waiting = before.state.pending(key);
            let now = after.state.pending(key);
            &&& r matches TargetStep::WriteBlob { bucket, files, .. } ==> bucket@ == key
                && files@.len() == waiting.len() + 1 && files@.drop_last() == waiting
                && files@.last().data@ == block.data@ && now.len() == 0 && total_bytes(files@)
                >= before.config.max_blob_size
            &&& r matches TargetStep::Collected(b) ==> now.len() == waiting.len() + 1
                && now.drop_last() == waiting && now.last().data@ == block.data@ && total_bytes(now)
                < before.config.max_blob_size && b.dst_offset == b.file_size
        },
        after.blobs == before.blobs,
{
    if before.collects(block) {
        let seen = before.bytes_seen.wrapping_add(block.data@.len() as u64);
        let key = before.bucket_key(before.inside_repo(block.dst_path@), seen);
        let waiting = before.state.pending(key);
        match r {
            TargetStep::WriteBlob { files, .. } => {
                assert(files@.drop_last() =~= waiting);
            },
            TargetStep::Collected(_) => {
                assert(after.state.pending(key).drop_last() =~= waiting);
            },
            _ => {},
        }
    }
}

/// A blob is written as a whole at its place behind the prefix of the repository; it holds its
/// files one behind the other, and tells where each of them lies.
pub proof fn law_remote_blobs_hold_their_files(
    this: AggregatingTarget,
    bucket: Seq<char>,
    files: Seq<PendingFile>,
    name: Seq<char>,
    plan: RemoteBlobPlan,
    i: int,
)
    requires
        plans_remote_blob(this, bucket, files, name, plan),
        0 <= i < files.len(),
        files.len() <= u32::MAX,
    ensures
        plan.meta.file_count == files.len() && plan.meta.files@.len() == files.len(),
        plan.meta.files@[i].relative_path@ == files[i].file_name@,
        plan.block.data@.subrange(
            plan.meta.files@[i].offset as int,
            plan.meta.files@[i].offset + plan.meta.files@[i].size,
        ) == files[i].data@,
        plan.meta.blob_size == total_bytes(files) && plan.block.data@.len() == total_bytes(files),
        plan.block.is_last && plan.block.dst_offset == 0 && plan.block.file_size
            == plan.block.data@.len(),
        !this.blob_target_path(bucket, name).contains('\\') ==> plan.block.dst_path@
            == this.blob_target_path(bucket, name),
{
    assert(crate::aggregate_engine::describes(
        plan.meta.files@[i],
        files[i],
        total_bytes(files.take(i)),
    ));
    crate::aggregate_engine::law_blob_gives_back_files(plan.meta.files@, files, i);
    lemma_blob_len(files);
    text::law_forward_slashes(this.blob_target_path(bucket, name));
}

/// A blob is taken note of exactly where it was written, and only then the block that filled it
/// is done.
pub proof fn law_written_blobs_are_noted(
    before: AggregatingTarget,
    block: CopyBlock,
    meta: AggregateBlobMeta,
    outcome: Result<(), String>,
    after: AggregatingTarget,
    r: Result<CopyBlock, (CopyBlock, String)>,
)
    requires
        notes_blob(before, block, meta, outcome, after, r),
    ensures
        r is Ok <==> outcome is Ok,
        outcome is Ok ==> after.blobs@.len() == before.blobs@.len() + 1 && after.blobs@.last()
            == meta && after.blobs@.drop_last() == before.blobs@,
        outcome is Err ==> after.blobs == before.blobs,
        r matches Ok(b) ==> b.is_written() && b.dst_path == block.dst_path,
        r matches Err(e) ==> e.0 == block,
        after.state == before.state,
{
    assert(before.blobs@.push(meta).drop_last() =~= before.blobs@);
}

/// Every blob stands in the table of the directory that its first file lies in, no directory has
/// two tables, and a table lists the blobs of its own directory and no others.
pub proof fn law_every_blob_is_listed_once(this: AggregatingTarget, out: Seq<DirIndexPlan>, i: int)
    requires
        this.are_dir_indexes(out),
        0 <= i < this.blobs@.len(),
    ensures
        exists|n: int|
            0 <= n < out.len() && (#[trigger] out[n]).key@ == blob_dir_key(this.blobs@[i])
                && out[n].blobs@.contains(this.blobs@[i]),
        forall|n: int, m: int|
            0 <= n < out.len() && 0 <= m < out.len() && (#[trigger] out[n]).key@ == (
            #[trigger] out[m]).key@ ==> n == m,
        forall|n: int, j: int|
            0 <= n < out.len() && 0 <= j < out[n].blobs@.len() ==> blob_dir_key(
                #[trigger] out[n].blobs@[j],
            ) == out[n].key@,
        forall|n: int|
            0 <= n < out.len() ==> (#[trigger] out[n]).path@ == this.dir_index_path(out[n].key@)
                && out[n].blobs@.len() > 0,
{
    let b = this.blobs@[i];
    assert(has_group(out, blob_dir_key(b)));
    let n = choose|n: int| 0 <= n < out.len() && (#[trigger] out[n]).key@ == blob_dir_key(b);
    let own = |x: AggregateBlobMeta| blob_dir_key(x) == out[n].key@;
    lemma_kept_in_filter(this.blobs@, own, i);
    assert(out[n].blobs@ == this.blobs@.filter(own));
    assert forall|m: int, j: int| 0 <= m < out.len() && 0 <= j < out[m].blobs@.len() implies
        blob_dir_key(#[trigger] out[m].blobs@[j]) == out[m].key@ by {
        let mine = |x: AggregateBlobMeta| blob_dir_key(x) == out[m].key@;
        assert(out[m].blobs@ == this.blobs@.filter(mine));
        lemma_filter_holds(this.blobs@, mine, j);
    }
}

proof fn lemma_kept_in_filter<A>(s: Seq<A>, own: spec_fn(A) -> bool, i: int)
    requires
        0 <= i < s.len(),
        own(s[i]),
    ensures
        s.filter(own).contains(s[i]),
    decreases s.len(),
{
    reveal(Seq::filter);
    let front = s.drop_last();
    let kept = s.filter(own);
    if i < front.len() {
        lemma_kept_in_filter(front, own, i);
        let k = choose|k: int| 0 <= k < front.filter(own).len() && front.filter(own)[k] == s[i];
        assert(kept[k] == s[i]);
    } else {
        assert(kept[kept.len() - 1] == s[i]);
    }
}

proof fn lemma_filter_holds<A>(s: Seq<A>, own: spec_fn(A) -> bool, j: int)
    requires
        0 <= j < s.filter(own).len(),
    ensures
        own(s.filter(own)[j]),
    decreases s.len(),
{
    reveal(Seq::filter);
    if s.len() > 0 {
        let front = s.drop_last();
        if j < front.filter(own).len() {
            lemma_filter_holds(front, own, j);
        }
    }
}

} // verus!
