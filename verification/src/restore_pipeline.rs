//! Restoring files: where the data of a file is found in a repository, and what is done
//! with each entry of a control file.
use std::sync::Arc;

use vstd::prelude::*;

use crate::aggregate::{AggregateLayout, AggregateRestoreInfo};
use crate::aggregate_dir_index::{
    info_of, read_dir_index, DirIndexRow, SQLITE_INDEX_FILE_NAME,
};
use crate::aggregate_engine::{
    aggregate_dir, aggregate_dir_for, blob_data, shard_index_path, shard_index_path_of, tiles,
};
use crate::aggregate_index::{
    open_error, read_map, readable, AggregateIndex, AggregateIndexError, InfoView,
};
use crate::aggregate_restore::{
    sliced, AggregateRestoreEngine, AggregateRestoreError, BlobRead,
};
use crate::backup::{RestorePolicy, RestoreStats};
use crate::copy_block::CopyBlock;
use crate::copy_plan::{CopyPlanEntry, FileCopyPlan};
use crate::executor::BlockOutcome;
use crate::metadata::FileMeta;
use crate::paths;
use crate::text;
use crate::transport::{
    accept_read, chunk_len, chunk_len_of, is_read_into, ReadRequest, DEFAULT_COPY_BUFFER_SIZE,
};

verus! {

// ---------------------------------------------------------------------------
// Where the data of a file is found
// ---------------------------------------------------------------------------

/// How the place of a file inside a blob is looked up.
#[derive(Debug)]
pub enum IndexLookup {
    /// In the binary index of the repository.
    Shard { index_path: String, relative_path: String },
    /// In the table of the file's directory.
    DirLevel { table_path: String, file_name: String, blob_dir: String },
    /// The path has no file name.
    Invalid(String),
}

/// The files of a repository on this machine.
pub struct LocalRepoRestoreSource {
    pub d_repo_base: String,
    pub layout: AggregateLayout,
    pub aggregate: AggregateRestoreEngine,
    /// The binary index, once it was loaded.
    pub index: Option<AggregateIndex>,
}

/// What stands between a path and the place of its file inside a blob.
#[derive(Debug)]
pub enum Locating {
    /// The binary index is to be loaded from this path, and handed to `index_loaded`.
    LoadIndex(String),
    /// The row of the file is to be looked up in the table, and handed to `row_found`.
    QueryTable { table_path: String, file_name: String, blob_dir: String },
    /// The place is known, or that the file lies in no blob, or that it cannot be told.
    Located(Result<Option<AggregateRestoreInfo>, String>),
}

/// What is done to read the next stretch of a file.
#[derive(Debug)]
pub enum RepoRead {
    Done(BlockOutcome),
    /// The blob is to be loaded from `path`, and handed to `blob_loaded`.
    LoadBlob { path: String, info: AggregateRestoreInfo, block: CopyBlock },
    /// The file lies in the repository on its own: this stretch of it is to be read, and
    /// handed to `file_read`.
    ReadFile { request: ReadRequest, block: CopyBlock },
}

/// A block whose read failed.
pub open spec fn read_failed(outcome: BlockOutcome, block: CopyBlock, detail: Seq<char>) -> bool {
    outcome matches BlockOutcome::Failed { block: b, detail: d, attempts } && b == block && d@
        == detail && attempts == 1
}

/// A block after a stretch of a blob was read for it, or could not be. `shown` is its
/// path as messages show it.
pub open spec fn blob_read(
    outcome: BlockOutcome,
    block: CopyBlock,
    out: Result<Vec<u8>, AggregateRestoreError>,
    shown: Seq<char>,
) -> bool {
    match out {
        Ok(data) => outcome matches BlockOutcome::Ready(b) && is_read_into(block, data@, b),
        Err(e) => read_failed(
            outcome,
            block,
            "read aggregated "@ + shown + ": "@ + e.text(),
        ),
    }
}

fn finish_blob_read(
    block: CopyBlock,
    out: Result<Vec<u8>, AggregateRestoreError>,
    shown: &str,
) -> (r: BlockOutcome)
    ensures
        blob_read(r, block, out, shown@),
{
    match out {
        Ok(data) => BlockOutcome::Ready(accept_read(block, data)),
        Err(e) => {
            let mut detail = text::concat("read aggregated ", shown);
            detail.append(": ");
            detail.append(e.message().as_str());
            BlockOutcome::Failed { block, detail, attempts: 1 }
        },
    }
}

/// Whether a request is for the next stretch of a file that lies in the repository on
/// its own.
pub open spec fn reads_file(r: ReadRequest, base: Seq<char>, block: CopyBlock) -> bool {
    &&& r.path@ == paths::join(base, block.src_path@)
    &&& r.offset == block.src_offset
    &&& r.len == chunk_len(block.src_offset, block.file_size, DEFAULT_COPY_BUFFER_SIZE)
}

/// The directory part of a path, empty where there is none.
pub open spec fn parent_or_empty(path: Seq<char>) -> Seq<char> {
    match paths::parent(path) {
        Some(p) => p,
        None => Seq::empty(),
    }
}

impl LocalRepoRestoreSource {
    /// Blobs are looked for in the repository, and the index is sound.
    pub open spec fn wf(&self) -> bool {
        &&& self.aggregate.base() == self.d_repo_base@
        &&& self.index matches Some(index) ==> index.wf()
    }

    pub fn new(d_repo_base: String, layout: AggregateLayout) -> (r: Result<Self, String>)
        ensures
            r is Ok,
            r->Ok_0.d_repo_base == d_repo_base,
            r->Ok_0.layout == layout,
            r->Ok_0.aggregate.base() == d_repo_base@,
            r->Ok_0.aggregate.cache() == Map::<Seq<char>, Seq<u8>>::empty(),
            r->Ok_0.index is None,
            r->Ok_0.wf(),
    {
        let base = d_repo_base.clone();
        match AggregateRestoreEngine::new(base) {
            Ok(aggregate) => Ok(
                LocalRepoRestoreSource { d_repo_base, layout, aggregate, index: None },
            ),
            Err(e) => Err(text::concat("init aggregate restore engine: ", e.message().as_str())),
        }
    }

    /// How the place of a file inside a blob is looked up.
    pub fn lookup(&self, src_path: &str) -> (r: IndexLookup)
        ensures
            looks_up(*self, src_path@, r),
    {
        let rel = text::to_forward_slashes(src_path);
        match self.layout {
            AggregateLayout::Shard => IndexLookup::Shard {
                index_path: shard_index_path_of(self.d_repo_base.as_str()),
                relative_path: rel,
            },
            AggregateLayout::DirLevel => {
                let parent = match paths::parent_of(rel.as_str()) {
                    Some(p) => p,
                    None => String::new(),
                };
                let blob_dir = aggregate_dir_for(parent.as_str());
                let dir = paths::join_path(self.d_repo_base.as_str(), blob_dir.as_str());
                let table_path = paths::join_path(dir.as_str(), SQLITE_INDEX_FILE_NAME);
                match paths::file_name_of(rel.as_str()) {
                    Some(file_name) => IndexLookup::DirLevel {
                        table_path,
                        file_name,
                        blob_dir: text::to_forward_slashes(blob_dir.as_str()),
                    },
                    None => IndexLookup::Invalid(
                        text::concat("invalid restore path ", rel.as_str()),
                    ),
                }
            },
        }
    }

    /// Looks for the place of a file. In the shard layout the index is asked, once it was
    /// loaded; otherwise a row is looked up.
    pub fn locate(&self, src_path: &str) -> (r: Locating)
        requires
            self.wf(),
        ensures
            locates(*self, src_path@, r),
    {
        match self.lookup(src_path) {
            IndexLookup::Shard { index_path, relative_path } => match &self.index {
                Some(index) => match index.query_file(relative_path.as_str()) {
                    Ok(found) => Locating::Located(Ok(found)),
                    Err(e) => Locating::Located(Err(e.message())),
                },
                None => Locating::LoadIndex(index_path),
            },
            IndexLookup::DirLevel { table_path, file_name, blob_dir } => Locating::QueryTable {
                table_path,
                file_name,
                blob_dir,
            },
            IndexLookup::Invalid(m) => Locating::Located(Err(m)),
        }
    }

    /// Takes the contents of the binary index, which is empty where there is none, or the
    /// message about a failure to read it. An index is loaded once; after a failure the
    /// next file tries again.
    pub fn index_loaded(&mut self, contents: Result<Option<Vec<u8>>, String>) -> (r: Result<
        (),
        String,
    >)
        requires
            old(self).wf(),
        ensures
            takes_index(*old(self), contents, *final(self), r),
    {
        let path = shard_index_path_of(self.d_repo_base.as_str());
        let opened = match contents {
            Err(m) => Err(AggregateIndexError::Io(m)),
            Ok(c) => AggregateIndex::open(path.as_str(), c),
        };
        match opened {
            Ok(index) => {
                self.index = Some(index);
                Ok(())
            },
            Err(e) => {
                let mut m = text::concat("open aggregate index ", path.as_str());
                m.append(": ");
                m.append(e.message().as_str());
                proof {
                    if contents is Err {
                        reveal_strlit(": ");
                        reveal_strlit("IO error: ");
                        reveal_strlit(": IO error: ");
                        assert(": "@ + "IO error: "@ =~= ": IO error: "@);
                        assert(m@ =~= "open aggregate index "@ + path@ + ": IO error: "@
                            + contents->Err_0@);
                    }
                }
                Err(m)
            },
        }
    }

    /// What a row says of the place of a file, or the message about a table that could
    /// not be asked.
    pub fn row_found(
        table_path: &str,
        blob_dir: &str,
        row: Result<Option<DirIndexRow>, String>,
    ) -> (r: Result<Option<AggregateRestoreInfo>, String>)
        ensures
            takes_row(table_path@, blob_dir@, row, r),
    {
        match row {
            Err(m) => {
                let mut e = text::concat("query dir aggregate index ", table_path);
                e.append(": ");
                e.append(m.as_str());
                Err(e)
            },
            Ok(found) => Ok(read_dir_index(found, blob_dir)),
        }
    }

    /// Reads the next stretch for a block once the place of its file was looked for: all
    /// of it out of a blob, or from the file of its own where it lies in none.
    pub fn read_block(
        &mut self,
        block: CopyBlock,
        located: Result<Option<AggregateRestoreInfo>, String>,
        shown: &str,
    ) -> (r: RepoRead)
        requires
            old(self).wf(),
            located matches Ok(Some(info)) ==> info.offset + info.size <= u64::MAX,
            old(self).aggregate.counters().cache_hits < u64::MAX,
        ensures
            reads_block(*old(self), block, located, shown@, *final(self), r),
    {
        match located {
            Err(m) => {
                let mut detail = text::concat("lookup aggregated ", shown);
                detail.append(": ");
                detail.append(m.as_str());
                RepoRead::Done(BlockOutcome::Failed { block, detail, attempts: 1 })
            },
            Ok(None) => {
                let request = self.request(&block);
                RepoRead::ReadFile { request, block }
            },
            Ok(Some(info)) => match self.aggregate.read_from_blob(
                info.blob_path.as_str(),
                info.offset,
                info.size,
            ) {
                BlobRead::Ready(out) => RepoRead::Done(finish_blob_read(block, out, shown)),
                BlobRead::Load(path) => RepoRead::LoadBlob { path, info, block },
            },
        }
    }

    /// Goes on with a read once the blob was loaded, or could not be. A blob that was
    /// loaded is kept.
    pub fn blob_loaded(
        &mut self,
        block: CopyBlock,
        info: AggregateRestoreInfo,
        loaded: Result<Vec<u8>, String>,
        shown: &str,
    ) -> (r: BlockOutcome)
        requires
            old(self).wf(),
            info.offset + info.size <= u64::MAX,
            old(self).aggregate.counters().cache_misses < u64::MAX,
            old(self).aggregate.counters().blobs_read < u64::MAX,
        ensures
            takes_blob(*old(self), block, info, loaded, shown@, *final(self), r),
    {
        let out = match loaded {
            Err(m) => Err(AggregateRestoreError::Io(m)),
            Ok(data) => self.aggregate.complete_read(
                info.blob_path.as_str(),
                data,
                info.offset,
                info.size,
            ),
        };
        finish_blob_read(block, out, shown)
    }

    /// Goes on with a read once a stretch of the file was read, or could not be.
    pub fn file_read(block: CopyBlock, read: Result<Vec<u8>, String>) -> (r: BlockOutcome)
        ensures
            takes_stretch(block, read, r),
    {
        match read {
            Ok(data) => BlockOutcome::Ready(accept_read(block, data)),
            Err(detail) => BlockOutcome::Failed { block, detail, attempts: 1 },
        }
    }

    /// What is read for a file that lies in the repository on its own.
    pub fn request(&self, block: &CopyBlock) -> (r: ReadRequest)
        ensures
            reads_file(r, self.d_repo_base@, *block),
    {
        ReadRequest {
            path: paths::join_path(self.d_repo_base.as_str(), block.src_path.as_str()),
            offset: block.src_offset,
            len: chunk_len_of(block.src_offset, block.file_size, DEFAULT_COPY_BUFFER_SIZE),
        }
    }
}

/// A file that went into a blob comes back out of it: the index names the blob and the
/// place, and the blob holds the data there.
pub proof fn law_aggregated_file_is_restored(
    m: Map<Seq<char>, InfoView>,
    blob_path: Seq<char>,
    entries: Seq<crate::aggregate::AggregateFileEntry>,
    files: Seq<crate::aggregate::PendingFile>,
    i: int,
    out: Result<Vec<u8>, AggregateRestoreError>,
)
    requires
        tiles(entries, files),
        0 <= i < files.len(),
        forall|j: int| i < j < files.len() ==> (#[trigger] files[j]).file_name@
            != files[i].file_name@,
        sliced(
            blob_data(files),
            crate::aggregate_index::with_files(m, blob_path, entries)[files[i].file_name@].offset,
            crate::aggregate_index::with_files(m, blob_path, entries)[files[i].file_name@].size,
            out,
        ),
    ensures
        crate::aggregate_index::with_files(m, blob_path, entries).contains_key(files[i].file_name@),
        crate::aggregate_index::with_files(m, blob_path, entries)[files[i].file_name@].blob_path
            == blob_path,
        out matches Ok(data) && data@ == files[i].data@,
{
    let total = |n: int| crate::aggregate::total_bytes(files.take(n));
    assert(crate::aggregate_engine::describes(entries[i], files[i], total(i)));
    assert forall|j: int| i < j < entries.len() implies (#[trigger] entries[j]).relative_path@
        != entries[i].relative_path@ by {
        assert(crate::aggregate_engine::describes(entries[j], files[j], total(j)));
        assert(files[j].file_name@ != files[i].file_name@);
    }
    crate::aggregate_index::law_added_file_is_found(m, blob_path, entries, i);
    crate::aggregate_engine::law_blob_gives_back_files(entries, files, i);
}

/// A block that reads an aggregated file gets all of it at once: with the place that the
/// index names, out of the blob that it names.
pub proof fn law_aggregated_block_is_read(
    m: Map<Seq<char>, InfoView>,
    blob_path: Seq<char>,
    entries: Seq<crate::aggregate::AggregateFileEntry>,
    files: Seq<crate::aggregate::PendingFile>,
    i: int,
    info: AggregateRestoreInfo,
    out: Result<Vec<u8>, AggregateRestoreError>,
    block: CopyBlock,
    shown: Seq<char>,
    outcome: BlockOutcome,
)
    requires
        tiles(entries, files),
        0 <= i < files.len(),
        forall|j: int| i < j < files.len() ==> (#[trigger] files[j]).file_name@
            != files[i].file_name@,
        info@ == crate::aggregate_index::with_files(m, blob_path, entries)[files[i].file_name@],
        sliced(blob_data(files), info.offset, info.size, out),
        blob_read(outcome, block, out, shown),
        block.src_offset == 0,
        block.file_size == files[i].data@.len(),
    ensures
        info.blob_path@ == blob_path,
        outcome matches BlockOutcome::Ready(b) && b.data@ == files[i].data@ && b.is_read()
            && b.is_last,
{
    law_aggregated_file_is_restored(m, blob_path, entries, files, i, out);
}

proof fn lemma_joined_keeps_out(a: Seq<char>, b: Seq<char>, c: char)
    requires
        !a.contains(c),
        !b.contains(c),
        c != '/',
    ensures
        !paths::join(a, b).contains(c),
{
    let whole = paths::join(a, b);
    assert forall|k: int| 0 <= k < whole.len() implies whole[k] != c by {
        if k < a.len() && whole.len() > b.len() {
            assert(a.contains(a[k]));
        } else if whole.len() - b.len() <= k {
            assert(b.contains(b[k - (whole.len() - b.len())]));
        }
    }
}

/// In the layout by directories a file is found where it was put: the row of the file,
/// asked for below the directory that a restore looks in, names the blob that the backup
/// wrote, and the place in it.
pub proof fn law_dir_level_file_is_found(
    rel: Seq<char>,
    blob_name: Seq<char>,
    e: crate::aggregate::AggregateFileEntry,
)
    requires
        !rel.contains('\\'),
        paths::is_name(blob_name),
        !blob_name.contains('\\'),
        e.relative_path@ == rel,
    ensures
        ({
            let written = text::forward_slashes(
                paths::join(
                    aggregate_dir(crate::aggregate_engine::parent_dir(rel)),
                    blob_name,
                ),
            );
            let row = crate::aggregate_dir_index::row_of(written, e);
            let found = info_of(
                row,
                text::forward_slashes(aggregate_dir(parent_or_empty(rel))),
            );
            &&& paths::file_name(rel) is Some ==> paths::file_name(rel) == Some(row.file_name)
            &&& found.blob_path == written
            &&& found.offset == e.offset
            &&& found.size == e.size
        }),
{
    let p = parent_or_empty(rel);
    paths::lemma_parent_keeps_out(rel, '\\');
    assert(!p.contains('\\'));
    text::lemma_forward_slashes_id(p);
    assert(crate::aggregate_engine::parent_dir(rel) =~= p);
    let name = crate::aggregate::AGGREGATE_DIR_NAME@;
    assert(!name.contains('\\')) by {
        reveal_strlit(".AGGR");
    }
    let dir = aggregate_dir(p);
    lemma_joined_keeps_out(p, name, '\\');
    assert(!dir.contains('\\'));
    text::lemma_forward_slashes_id(dir);
    lemma_joined_keeps_out(dir, blob_name, '\\');
    text::lemma_forward_slashes_id(paths::join(dir, blob_name));
    paths::law_joined_name_is_last(dir, blob_name);
    crate::aggregate_dir_index::law_row_keeps_entry(paths::join(dir, blob_name), e, dir);
}

// ---------------------------------------------------------------------------
// What is done with each entry
// ---------------------------------------------------------------------------

/// A symbolic link that is to be made.
#[derive(Debug)]
pub struct SymlinkJob {
    pub link_path: String,
    /// Directory that has to exist.
    pub parent: Option<String>,
    pub target: String,
    pub meta: FileMeta,
}

/// A file that is to be restored.
#[derive(Debug)]
pub struct RestoreJob {
    pub meta: FileMeta,
    pub src_path: String,
    pub dst_path: String,
    /// Path of the file on a local target.
    pub full_path: String,
}

#[derive(Debug)]
pub enum RestoreStep {
    MakeDir(String),
    MakeSymlink(SymlinkJob),
    RestoreFile(RestoreJob),
    /// The entry cannot be restored.
    Failed,
}

/// A path on the target: below the directory of a local target, as it is otherwise.
pub open spec fn on_target(local_base: Option<String>, path: Seq<char>) -> Seq<char> {
    match local_base {
        Some(base) => paths::join(base@, path),
        None => path,
    }
}

fn on_target_path(local_base: &Option<String>, path: &str) -> (s: String)
    ensures
        s@ == on_target(*local_base, path@),
{
    match local_base {
        Some(base) => paths::join_path(base.as_str(), path),
        None => path.to_owned(),
    }
}

/// Whether the counters have room for one more file of the given size.
pub open spec fn restore_room(stats: RestoreStats, size: u64) -> bool {
    &&& stats.files_restored < u64::MAX
    &&& stats.files_skipped < u64::MAX
    &&& stats.files_failed < u64::MAX
    &&& stats.dirs_created < u64::MAX
    &&& stats.bytes_restored + size <= u64::MAX
    &&& stats.bytes_skipped + size <= u64::MAX
}

/// What is done with an entry. A file that the plan says is aggregated cannot be restored
/// this way and counts as failed.
pub fn begin_restore(entry: CopyPlanEntry, local_base: &Option<String>, stats: &mut RestoreStats) -> (r:
    RestoreStep)
    requires
        old(stats).files_failed < u64::MAX,
    ensures
        begins_restore(entry, *local_base, *old(stats), *final(stats), r),
{
    match entry {
        CopyPlanEntry::Directory { meta: _, dst_path } => RestoreStep::MakeDir(dst_path),
        CopyPlanEntry::File(FileCopyPlan::Aggregate { .. }) => {
            stats.files_failed = stats.files_failed + 1;
            RestoreStep::Failed
        },
        CopyPlanEntry::File(FileCopyPlan::Direct { meta, src_path, dst_path }) => {
            let full_path = on_target_path(local_base, dst_path.as_str());
            let target = crate::metadata::clone_text(&meta.common.symlink_target_path);
            match target {
                Some(target) => {
                    let parent = paths::parent_of(full_path.as_str());
                    RestoreStep::MakeSymlink(
                        SymlinkJob { link_path: full_path, parent, target, meta },
                    )
                },
                None => RestoreStep::RestoreFile(RestoreJob { meta, src_path, dst_path, full_path }),
            }
        },
    }
}

/// The counters with one more file that failed.
pub open spec fn file_failed(stats: RestoreStats) -> RestoreStats {
    RestoreStats { files_failed: (stats.files_failed + 1) as u64, ..stats }
}

/// The counters once a directory was to be made.
pub open spec fn dir_counted(stats: RestoreStats, ok: bool) -> RestoreStats {
    if ok {
        RestoreStats { dirs_created: (stats.dirs_created + 1) as u64, ..stats }
    } else {
        stats
    }
}

/// The counters once a symbolic link was to be made.
pub open spec fn symlink_counted(stats: RestoreStats, ok: bool) -> RestoreStats {
    if ok {
        RestoreStats { files_restored: (stats.files_restored + 1) as u64, ..stats }
    } else {
        file_failed(stats)
    }
}

/// The counters once a file of the given size was left out.
pub open spec fn skip_counted(stats: RestoreStats, size: u64) -> RestoreStats {
    RestoreStats {
        files_skipped: (stats.files_skipped + 1) as u64,
        bytes_skipped: (stats.bytes_skipped + size) as u64,
        ..stats
    }
}

/// Counts a directory that was created; one that was not is only reported.
pub fn restored_dir(ok: bool, stats: &mut RestoreStats)
    requires
        old(stats).dirs_created < u64::MAX,
    ensures
        *final(stats) == dir_counted(*old(stats), ok),
{
    if ok {
        stats.dirs_created = stats.dirs_created + 1;
    }
}

/// Counts a symbolic link that was made, or failed to be.
pub fn restored_symlink(ok: bool, stats: &mut RestoreStats)
    requires
        old(stats).files_restored < u64::MAX,
        old(stats).files_failed < u64::MAX,
    ensures
        *final(stats) == symlink_counted(*old(stats), ok),
{
    if ok {
        stats.files_restored = stats.files_restored + 1;
    } else {
        stats.files_failed = stats.files_failed + 1;
    }
}

/// What is known of the file that is already on a local target.
#[derive(Debug, Clone, Copy, PartialEq, Eq, Structural)]
pub struct TargetFile {
    pub exists: bool,
    /// Nanoseconds since the Unix epoch.
    pub mtime: Option<i128>,
}

/// Whether a file is left out: only local targets are looked up.
pub open spec fn skips(mtime_secs: i64, local_file: Option<TargetFile>, policy: RestorePolicy) -> bool {
    match local_file {
        None => false,
        Some(f) => !policy.restores(
            Some((mtime_secs * 1_000_000_000) as i128),
            f.exists,
            f.mtime,
        ),
    }
}

/// Decides whether a file is left out, and counts it if so.
pub fn should_skip_restore(
    meta: &FileMeta,
    local_file: Option<TargetFile>,
    policy: RestorePolicy,
    stats: &mut RestoreStats,
) -> (r: bool)
    requires
        local_file is Some ==> meta.common.mtime >= 0,
        restore_room(*old(stats), meta.size),
    ensures
        r == skips(meta.common.mtime, local_file, policy),
        *final(stats) == (if r {
            skip_counted(*old(stats), meta.size)
        } else {
            *old(stats)
        }),
{
    match local_file {
        None => false,
        Some(f) => {
            let nanos: i128 = (meta.common.mtime as i128) * 1_000_000_000;
            if policy.should_restore(Some(nanos), f.exists, f.mtime) {
                false
            } else {
                stats.files_skipped = stats.files_skipped + 1;
                stats.bytes_skipped = stats.bytes_skipped + meta.size;
                true
            }
        },
    }
}

/// The first block of a file that is restored.
pub fn first_block(job: RestoreJob) -> (b: CopyBlock)
    ensures
        is_first_block(job, b),
{
    let file_size: u64 = job.meta.size;
    CopyBlock {
        meta: Arc::new(job.meta),
        src_path: job.src_path,
        dst_path: job.dst_path,
        src_offset: 0,
        dst_offset: 0,
        file_size,
        data: Vec::new(),
        is_last: file_size == 0,
    }
}

/// What is done next with a block.
#[derive(Debug)]
pub enum RestoreBlockStep {
    Read(CopyBlock),
    Write(CopyBlock),
    /// The file is complete; its metadata is restored now.
    Restored(CopyBlock),
    Failed,
}

/// Whether a read ends the restore of a file: it failed, or brought nothing before the end.
pub open spec fn read_fails(outcome: BlockOutcome) -> bool {
    match outcome {
        BlockOutcome::Failed { .. } => true,
        BlockOutcome::Ready(b) => b.data@.len() == 0 && !b.is_read(),
    }
}

/// The counters after a read.
pub open spec fn read_counted(stats: RestoreStats, outcome: BlockOutcome) -> RestoreStats {
    if read_fails(outcome) {
        file_failed(stats)
    } else {
        stats
    }
}

/// Whether a file is complete after a write: it is read and written to its end.
pub open spec fn write_completes(outcome: BlockOutcome) -> bool {
    outcome matches BlockOutcome::Ready(b) && b.is_read() && b.is_written()
}

/// The counters after a write.
pub open spec fn write_counted(stats: RestoreStats, outcome: BlockOutcome) -> RestoreStats {
    match outcome {
        BlockOutcome::Failed { .. } => file_failed(stats),
        BlockOutcome::Ready(b) => if write_completes(outcome) {
            RestoreStats {
                files_restored: (stats.files_restored + 1) as u64,
                bytes_restored: (stats.bytes_restored + b.file_size) as u64,
                ..stats
            }
        } else {
            stats
        },
    }
}

/// Goes on after a read. A read that brings nothing before the end of the file is a
/// failure.
pub fn restore_after_read(outcome: BlockOutcome, stats: &mut RestoreStats) -> (r: RestoreBlockStep)
    requires
        old(stats).files_failed < u64::MAX,
    ensures
        follows_restored_read(outcome, *old(stats), *final(stats), r),
{
    match outcome {
        BlockOutcome::Failed { .. } => {
            stats.files_failed = stats.files_failed + 1;
            RestoreBlockStep::Failed
        },
        BlockOutcome::Ready(b) => {
            if b.data_len() == 0 && !b.read_complete() {
                stats.files_failed = stats.files_failed + 1;
                return RestoreBlockStep::Failed;
            }
            RestoreBlockStep::Write(b)
        },
    }
}

/// Goes on after a write: the file is complete once it is read and written to its end.
pub fn restore_after_write(outcome: BlockOutcome, stats: &mut RestoreStats) -> (r:
    RestoreBlockStep)
    requires
        outcome matches BlockOutcome::Ready(b) ==> restore_room(*old(stats), b.file_size),
        old(stats).files_failed < u64::MAX,
    ensures
        follows_restored_write(outcome, *old(stats), *final(stats), r),
{
    match outcome {
        BlockOutcome::Failed { .. } => {
            stats.files_failed = stats.files_failed + 1;
            RestoreBlockStep::Failed
        },
        BlockOutcome::Ready(b) => {
            if b.read_complete() && b.write_complete() {
                stats.files_restored = stats.files_restored + 1;
                stats.bytes_restored = stats.bytes_restored + b.file_size;
                return RestoreBlockStep::Restored(b);
            }
            let mut next = b;
            next.clear_data();
            RestoreBlockStep::Read(next)
        },
    }
}

// ---------------------------------------------------------------------------
// The whole pipeline
// ---------------------------------------------------------------------------

/// How the restore of an entry ended.
#[derive(Debug, Clone, Copy, PartialEq, Eq, Structural)]
pub enum RestoreEnd {
    Restored,
    /// The policy keeps the file that is there.
    Skipped,
    Failed,
}

/// The size of the file of an entry that is copied; links and directories have none.
pub open spec fn entry_size(entry: CopyPlanEntry) -> nat {
    match entry {
        CopyPlanEntry::File(FileCopyPlan::Direct { meta, .. }) =>
            if meta.common.symlink_target_path is None {
                meta.size as nat
            } else {
                0
            },
        _ => 0,
    }
}

/// The counters once an entry was dealt with. Only files are left out by a policy, and a
/// directory that could not be made is not counted.
pub open spec fn entry_counted(
    stats: RestoreStats,
    entry: CopyPlanEntry,
    end: RestoreEnd,
) -> RestoreStats {
    let failed = RestoreStats { files_failed: (stats.files_failed + 1) as u64, ..stats };
    match entry {
        CopyPlanEntry::Directory { .. } => if end == RestoreEnd::Restored {
            RestoreStats { dirs_created: (stats.dirs_created + 1) as u64, ..stats }
        } else {
            stats
        },
        CopyPlanEntry::File(FileCopyPlan::Aggregate { .. }) => failed,
        CopyPlanEntry::File(FileCopyPlan::Direct { meta, .. }) =>
            if meta.common.symlink_target_path is Some {
                if end == RestoreEnd::Restored {
                    RestoreStats { files_restored: (stats.files_restored + 1) as u64, ..stats }
                } else {
                    failed
                }
            } else {
                match end {
                    RestoreEnd::Restored => RestoreStats {
                        files_restored: (stats.files_restored + 1) as u64,
                        bytes_restored: (stats.bytes_restored + meta.size) as u64,
                        ..stats
                    },
                    RestoreEnd::Skipped => RestoreStats {
                        files_skipped: (stats.files_skipped + 1) as u64,
                        bytes_skipped: (stats.bytes_skipped + meta.size) as u64,
                        ..stats
                    },
                    RestoreEnd::Failed => failed,
                }
            },
    }
}

/// The counters of a restore once all entries were dealt with.
pub open spec fn restore_counted(entries: Seq<CopyPlanEntry>, ends: Seq<RestoreEnd>) -> RestoreStats
    decreases entries.len(),
{
    if entries.len() == 0 {
        crate::backup::no_restore_counts()
    } else {
        entry_counted(
            restore_counted(entries.drop_last(), ends),
            entries.last(),
            ends[entries.len() - 1],
        )
    }
}

/// The sizes of all files together.
pub open spec fn total_entry_size(entries: Seq<CopyPlanEntry>) -> nat
    decreases entries.len(),
{
    if entries.len() == 0 {
        0
    } else {
        total_entry_size(entries.drop_last()) + entry_size(entries.last())
    }
}

/// How many entries are files.
pub open spec fn file_entries(entries: Seq<CopyPlanEntry>) -> nat
    decreases entries.len(),
{
    if entries.len() == 0 {
        0
    } else {
        file_entries(entries.drop_last()) + (if entries.last() is File {
            1nat
        } else {
            0nat
        })
    }
}

/// A restore counts every file exactly once, as restored, left out or failed; and the
/// bytes that it counts are bytes of the files.
pub proof fn law_every_file_is_accounted_for(entries: Seq<CopyPlanEntry>, ends: Seq<RestoreEnd>)
    requires
        ends.len() >= entries.len(),
        entries.len() <= u64::MAX,
        total_entry_size(entries) <= u64::MAX,
    ensures
        ({
            let s = restore_counted(entries, ends);
            &&& s.files_restored + s.files_skipped + s.files_failed == file_entries(entries)
            &&& s.dirs_created + file_entries(entries) <= entries.len()
            &&& s.bytes_restored + s.bytes_skipped <= total_entry_size(entries)
        }),
    decreases entries.len(),
{
    if entries.len() > 0 {
        law_every_file_is_accounted_for(entries.drop_last(), ends);
    }
}

proof fn lemma_sizes_grow(entries: Seq<CopyPlanEntry>, n: int)
    requires
        0 <= n <= entries.len(),
    ensures
        total_entry_size(entries.take(n)) <= total_entry_size(entries),
    decreases entries.len(),
{
    if n == entries.len() {
        assert(entries.take(n) =~= entries);
    } else {
        lemma_sizes_grow(entries.drop_last(), n);
        assert(entries.drop_last().take(n) =~= entries.take(n));
    }
}

/// One round of a file: the outcome of a read and, where that did not end the restore, of
/// the write behind it.
pub struct BlockRound {
    pub read: BlockOutcome,
    pub write: Option<BlockOutcome>,
}

/// The steps that were taken for an entry, with their outcomes.
pub enum EntrySteps {
    /// The directory was made, or not.
    Dir(bool),
    /// The entry cannot be restored.
    Refused,
    /// The link was made, or not.
    Symlink(bool),
    /// The policy left the file out.
    Skip,
    /// The file was read and written.
    Blocks(Seq<BlockRound>),
}

/// Whether a round leads to another one.
pub open spec fn round_goes_on(round: BlockRound) -> bool {
    &&& !read_fails(round.read)
    &&& round.write matches Some(BlockOutcome::Ready(_))
    &&& !write_completes(round.write->0)
}

/// Whether a round is one of a file of the given size: a write follows a read that did not
/// fail, and what comes back of a block has the size of its file.
pub open spec fn round_of(round: BlockRound, size: u64) -> bool {
    &&& round.write is Some <==> !read_fails(round.read)
    &&& round.write matches Some(BlockOutcome::Ready(b)) ==> b.file_size == size
}

/// Whether the steps are those of an entry, from its beginning to its end.
pub open spec fn steps_of(steps: EntrySteps, entry: CopyPlanEntry) -> bool {
    match entry {
        CopyPlanEntry::Directory { .. } => steps is Dir,
        CopyPlanEntry::File(FileCopyPlan::Aggregate { .. }) => steps is Refused,
        CopyPlanEntry::File(FileCopyPlan::Direct { meta, .. }) =>
            if meta.common.symlink_target_path is Some {
                steps is Symlink
            } else {
                match steps {
                    EntrySteps::Skip => true,
                    EntrySteps::Blocks(rounds) => {
                        &&& rounds.len() > 0
                        &&& !round_goes_on(rounds.last())
                        &&& forall|i: int|
                            0 <= i < rounds.len() - 1 ==> round_goes_on(#[trigger] rounds[i])
                        &&& forall|i: int|
                            0 <= i < rounds.len() ==> round_of(#[trigger] rounds[i], meta.size)
                    },
                    _ => false,
                }
            },
    }
}

/// The counters after the rounds of a file.
pub open spec fn rounds_counted(stats: RestoreStats, rounds: Seq<BlockRound>) -> RestoreStats
    decreases rounds.len(),
{
    if rounds.len() == 0 {
        stats
    } else {
        let read = read_counted(rounds_counted(stats, rounds.drop_last()), rounds.last().read);
        match rounds.last().write {
            Some(outcome) => write_counted(read, outcome),
            None => read,
        }
    }
}

/// The counters after the steps of an entry, as each step moves them.
pub open spec fn steps_counted(
    stats: RestoreStats,
    entry: CopyPlanEntry,
    steps: EntrySteps,
) -> RestoreStats {
    match steps {
        EntrySteps::Dir(ok) => dir_counted(stats, ok),
        EntrySteps::Refused => file_failed(stats),
        EntrySteps::Symlink(ok) => symlink_counted(stats, ok),
        EntrySteps::Skip => skip_counted(stats, entry_size(entry) as u64),
        EntrySteps::Blocks(rounds) => rounds_counted(stats, rounds),
    }
}

/// How an entry ended whose steps these are.
pub open spec fn steps_end(steps: EntrySteps) -> RestoreEnd {
    match steps {
        EntrySteps::Dir(ok) | EntrySteps::Symlink(ok) => if ok {
            RestoreEnd::Restored
        } else {
            RestoreEnd::Failed
        },
        EntrySteps::Refused => RestoreEnd::Failed,
        EntrySteps::Skip => RestoreEnd::Skipped,
        EntrySteps::Blocks(rounds) => if rounds.last().write is Some && write_completes(
            rounds.last().write->0,
        ) {
            RestoreEnd::Restored
        } else {
            RestoreEnd::Failed
        },
    }
}

proof fn lemma_rounds_that_go_on(stats: RestoreStats, rounds: Seq<BlockRound>)
    requires
        forall|i: int| 0 <= i < rounds.len() ==> round_goes_on(#[trigger] rounds[i]),
    ensures
        rounds_counted(stats, rounds) == stats,
    decreases rounds.len(),
{
    if rounds.len() > 0 {
        let front = rounds.drop_last();
        assert forall|i: int| 0 <= i < front.len() implies round_goes_on(#[trigger] front[i]) by {
            assert(front[i] == rounds[i]);
        }
        lemma_rounds_that_go_on(stats, front);
        assert(round_goes_on(rounds[rounds.len() - 1]));
    }
}

/// The steps of an entry move the counters as its end says, however many blocks were read
/// and written on the way.
pub proof fn law_steps_count_as_their_end(
    stats: RestoreStats,
    entry: CopyPlanEntry,
    steps: EntrySteps,
)
    requires
        steps_of(steps, entry),
    ensures
        steps_counted(stats, entry, steps) == entry_counted(stats, entry, steps_end(steps)),
{
    match steps {
        EntrySteps::Blocks(rounds) => {
            let front = rounds.drop_last();
            assert forall|i: int| 0 <= i < front.len() implies round_goes_on(
                #[trigger] front[i],
            ) by {
                assert(front[i] == rounds[i]);
            }
            lemma_rounds_that_go_on(stats, front);
            assert(rounds[rounds.len() - 1] == rounds.last());
        },
        _ => {},
    }
}

/// The counters of a restore after the steps of all its entries.
pub open spec fn all_steps_counted(
    entries: Seq<CopyPlanEntry>,
    steps: Seq<EntrySteps>,
) -> RestoreStats
    decreases entries.len(),
{
    if entries.len() == 0 {
        crate::backup::no_restore_counts()
    } else {
        steps_counted(
            all_steps_counted(entries.drop_last(), steps),
            entries.last(),
            steps[entries.len() - 1],
        )
    }
}

/// A restore whose entries were taken through their steps has the counters that the tally of
/// their ends gives.
pub proof fn law_restore_tallies_its_steps(
    entries: Seq<CopyPlanEntry>,
    steps: Seq<EntrySteps>,
    ends: Seq<RestoreEnd>,
)
    requires
        steps.len() >= entries.len(),
        ends.len() == steps.len(),
        forall|i: int| 0 <= i < entries.len() ==> steps_of(#[trigger] steps[i], entries[i]),
        forall|i: int| 0 <= i < entries.len() ==> #[trigger] ends[i] == steps_end(steps[i]),
    ensures
        all_steps_counted(entries, steps) == restore_counted(entries, ends),
    decreases entries.len(),
{
    if entries.len() > 0 {
        let front = entries.drop_last();
        let n = entries.len() - 1;
        assert forall|i: int| 0 <= i < front.len() implies steps_of(
            #[trigger] steps[i],
            front[i],
        ) by {
            assert(front[i] == entries[i]);
        }
        law_restore_tallies_its_steps(front, steps, ends);
        assert(steps_of(steps[n], entries[n]));
        assert(ends[n] == steps_end(steps[n]));
        law_steps_count_as_their_end(
            all_steps_counted(front, steps),
            entries.last(),
            steps[n],
        );
    }
}

/// The counters of a restore, given how each entry ended.
pub fn run_restore_copy_pipeline(entries: &Vec<CopyPlanEntry>, ends: &Vec<RestoreEnd>) -> (stats:
    RestoreStats)
    requires
        ends@.len() == entries@.len(),
        total_entry_size(entries@) <= u64::MAX,
    ensures
        stats == restore_counted(entries@, ends@),
{
    let mut stats = RestoreStats::default();
    let mut i: usize = 0;
    assert(entries@.take(0) =~= Seq::empty());
    while i < entries.len()
        invariant
            i <= entries@.len(),
            ends@.len() == entries@.len(),
            total_entry_size(entries@) <= u64::MAX,
            stats == restore_counted(entries@.take(i as int), ends@),
        decreases entries@.len() - i,
    {
        proof {
            assert(entries@.take(i + 1).drop_last() =~= entries@.take(i as int));
            assert(entries@.take(i + 1).last() == entries@[i as int]);
            lemma_sizes_grow(entries@, i as int);
            lemma_sizes_grow(entries@, i + 1);
            law_every_file_is_accounted_for(entries@.take(i as int), ends@);
            law_every_file_is_accounted_for(entries@.take(i + 1), ends@);
        }
        let end = ends[i];
        match &entries[i] {
            CopyPlanEntry::Directory { .. } => {
                restored_dir(end == RestoreEnd::Restored, &mut stats);
            },
            CopyPlanEntry::File(FileCopyPlan::Aggregate { .. }) => {
                stats.files_failed = stats.files_failed + 1;
            },
            CopyPlanEntry::File(FileCopyPlan::Direct { meta, .. }) => {
                if meta.common.symlink_target_path.is_some() {
                    restored_symlink(end == RestoreEnd::Restored, &mut stats);
                } else {
                    match end {
                        RestoreEnd::Restored => {
                            stats.files_restored = stats.files_restored + 1;
                            stats.bytes_restored = stats.bytes_restored + meta.size;
                        },
                        RestoreEnd::Skipped => {
                            stats.files_skipped = stats.files_skipped + 1;
                            stats.bytes_skipped = stats.bytes_skipped + meta.size;
                        },
                        RestoreEnd::Failed => {
                            stats.files_failed = stats.files_failed + 1;
                        },
                    }
                }
            },
        }
        i += 1;
    }
    assert(entries@.take(i as int) =~= entries@);
    stats
}

/// The file that is newer survives a restore that keeps newer files, and where both are as
/// new it is the present one. A file that is not there is restored under every policy, and so
/// is every file of a target that is not looked up.
pub proof fn law_present_files_survive_by_policy(
    secs: i64,
    file: TargetFile,
    t: i128,
    policy: RestorePolicy,
)
    ensures
        !skips(secs, None, policy),
        !file.exists ==> !skips(secs, Some(file), policy),
        !skips(secs, Some(file), RestorePolicy::Replace),
        file.exists ==> skips(secs, Some(file), RestorePolicy::Skip),
        file.exists && file.mtime == Some(t) ==> (skips(
            secs,
            Some(file),
            RestorePolicy::KeepNewer,
        ) <==> t >= secs * 1_000_000_000),
        file.exists && file.mtime is None ==> !skips(secs, Some(file), RestorePolicy::KeepNewer),
{
}

/// A file that is read from the repository is read where it lies there, from the place on
/// where the block stands, and never beyond its end.
pub proof fn law_files_are_read_in_the_repository(
    r: ReadRequest,
    base: Seq<char>,
    block: CopyBlock,
)
    requires
        reads_file(r, base, block),
        base.len() > 0,
        paths::is_clean(block.src_path@),
    ensures
        paths::strip_prefix(r.path@, base) == Some(block.src_path@),
        r.offset == block.src_offset,
        block.src_offset <= block.file_size ==> r.offset + r.len <= block.file_size,
        block.src_offset < block.file_size ==> r.len > 0,
{
    paths::law_strip_undoes_join(base, block.src_path@);
}

/// A restored path lies below a local target, and is kept on any other.
pub proof fn law_restored_paths_lie_on_the_target(base: String, path: Seq<char>)
    requires
        base@.len() > 0,
        paths::is_clean(path),
    ensures
        paths::strip_prefix(on_target(Some(base), path), base@) == Some(path),
        on_target(None, path) == path,
{
    paths::law_strip_undoes_join(base@, path);
}

/// An entry that is dealt with moves the counter of its own end by one and no other: a
/// directory that was made, a link or a file that was restored, a file that was left out, or
/// one that failed. The bytes of a file go with it.
pub proof fn law_entries_move_the_counter_of_their_end(
    s: RestoreStats,
    entry: CopyPlanEntry,
    end: RestoreEnd,
)
    requires
        restore_room(s, entry_size(entry) as u64),
        end == RestoreEnd::Skipped ==> (entry matches CopyPlanEntry::File(
            FileCopyPlan::Direct { meta, .. },
        ) && meta.common.symlink_target_path is None),
        entry matches CopyPlanEntry::File(FileCopyPlan::Aggregate { .. }) ==> end
            == RestoreEnd::Failed,
    ensures
        ({
            let r = entry_counted(s, entry, end);
            let one = |b: bool| if b { 1int } else { 0int };
            let size = |b: bool| if b { entry_size(entry) as int } else { 0int };
            &&& r.dirs_created - s.dirs_created == one(
                entry is Directory && end == RestoreEnd::Restored,
            )
            &&& r.files_restored - s.files_restored == one(
                entry is File && end == RestoreEnd::Restored,
            )
            &&& r.files_skipped - s.files_skipped == one(
                entry is File && end == RestoreEnd::Skipped,
            )
            &&& r.files_failed - s.files_failed == one(entry is File && end == RestoreEnd::Failed)
            &&& r.bytes_restored - s.bytes_restored == size(end == RestoreEnd::Restored)
            &&& r.bytes_skipped - s.bytes_skipped == size(end == RestoreEnd::Skipped)
        }),
{
}

/// The steps of a restore move the same counters as the end that they come to.
pub proof fn law_steps_move_the_same_counters(s: RestoreStats, size: u64, meta_size: u64)
    requires
        restore_room(s, size),
    ensures
        file_failed(s).files_failed == s.files_failed + 1,
        file_failed(s) == (RestoreStats { files_failed: file_failed(s).files_failed, ..s }),
        dir_counted(s, true).dirs_created == s.dirs_created + 1,
        dir_counted(s, false) == s,
        symlink_counted(s, true).files_restored == s.files_restored + 1,
        symlink_counted(s, true).bytes_restored == s.bytes_restored,
        symlink_counted(s, false) == file_failed(s),
        skip_counted(s, size).files_skipped == s.files_skipped + 1,
        skip_counted(s, size).bytes_skipped == s.bytes_skipped + size,
        skip_counted(s, size).files_restored == s.files_restored,
{
}

/// A read or a write that failed ends its file as a failure, and a file is complete exactly
/// once both sides have reached its size. Nothing more is counted in between.
pub proof fn law_files_end_once(s: RestoreStats, outcome: BlockOutcome)
    requires
        outcome matches BlockOutcome::Ready(b) ==> restore_room(s, b.file_size),
        restore_room(s, 0),
    ensures
        outcome is Failed ==> read_fails(outcome) && !write_completes(outcome) && read_counted(
            s,
            outcome,
        ) == file_failed(s) && write_counted(s, outcome) == file_failed(s),
        outcome matches BlockOutcome::Ready(b) ==> {
            &&& read_fails(outcome) <==> b.data@.len() == 0 && b.src_offset < b.file_size
            &&& write_completes(outcome) <==> b.src_offset >= b.file_size && b.dst_offset
                >= b.file_size
            &&& !write_completes(outcome) ==> write_counted(s, outcome) == s
            &&& write_completes(outcome) ==> write_counted(s, outcome).files_restored
                == s.files_restored + 1 && write_counted(s, outcome).bytes_restored
                == s.bytes_restored + b.file_size && write_counted(s, outcome).files_failed
                == s.files_failed
        },
{
}

/// A stretch of a blob becomes the data of its block, and a blob that cannot be read is told
/// of under the path that messages show.
pub proof fn law_blobs_feed_their_blocks(
    outcome: BlockOutcome,
    block: CopyBlock,
    out: Result<Vec<u8>, AggregateRestoreError>,
    shown: Seq<char>,
)
    requires
        blob_read(outcome, block, out, shown),
    ensures
        outcome is Ready <==> out is Ok,
        out matches Ok(data) ==> (outcome matches BlockOutcome::Ready(b) && b.data@ == data@
            && b.dst_offset == block.dst_offset && b.dst_path == block.dst_path && b.file_size
            == block.file_size && (block.src_offset + data@.len() <= u64::MAX ==> b.src_offset
            == block.src_offset + data@.len())),
        out is Err ==> (outcome matches BlockOutcome::Failed { block: b, detail, .. } && b == block
            && "read aggregated "@.is_prefix_of(detail@)),
{
}

/// Whether `r` is how the place of a file is looked up.
pub open spec fn looks_up(
    this: LocalRepoRestoreSource,
    src_path: Seq<char>,
    r: IndexLookup,
) -> bool {
    ({
        let rel = text::forward_slashes(src_path);
        let blob_dir = aggregate_dir(parent_or_empty(rel));
        match this.layout {
            AggregateLayout::Shard => r matches IndexLookup::Shard {
                index_path,
                relative_path,
            } && index_path@ == shard_index_path(this.d_repo_base@) && relative_path@
                == rel,
            AggregateLayout::DirLevel => match paths::file_name(rel) {
                Some(name) => r matches IndexLookup::DirLevel {
                    table_path,
                    file_name,
                    blob_dir: dir,
                } && table_path@ == paths::join(
                    paths::join(this.d_repo_base@, blob_dir),
                    SQLITE_INDEX_FILE_NAME@,
                ) && file_name@ == name && dir@ == text::forward_slashes(blob_dir),
                None => r matches IndexLookup::Invalid(m) && m@
                    == "invalid restore path "@ + rel,
            },
        }
    })
}

/// Whether `r` is the next step to the place of a file.
pub open spec fn locates(
    this: LocalRepoRestoreSource,
    src_path: Seq<char>,
    r: Locating,
) -> bool {
    ({
        let rel = text::forward_slashes(src_path);
        let blob_dir = aggregate_dir(parent_or_empty(rel));
        match this.layout {
            AggregateLayout::Shard => match this.index {
                Some(index) => r matches Locating::Located(Ok(found)) && match found {
                    Some(info) => index@.contains_key(rel) && info@ == index@[rel],
                    None => !index@.contains_key(rel),
                },
                None => r matches Locating::LoadIndex(p) && p@ == shard_index_path(
                    this.d_repo_base@,
                ),
            },
            AggregateLayout::DirLevel => match paths::file_name(rel) {
                Some(name) => r matches Locating::QueryTable {
                    table_path,
                    file_name,
                    blob_dir: dir,
                } && table_path@ == paths::join(
                    paths::join(this.d_repo_base@, blob_dir),
                    SQLITE_INDEX_FILE_NAME@,
                ) && file_name@ == name && dir@ == text::forward_slashes(blob_dir),
                None => r matches Locating::Located(Err(m)) && m@
                    == "invalid restore path "@ + rel,
            },
        }
    })
}

/// Whether `r` is the next step of a block whose file was looked for.
pub open spec fn reads_block(
    before: LocalRepoRestoreSource,
    block: CopyBlock,
    located: Result<Option<AggregateRestoreInfo>, String>,
    shown: Seq<char>,
    after: LocalRepoRestoreSource,
    r: RepoRead,
) -> bool {
    &&& after.wf()
    &&& after.d_repo_base == before.d_repo_base
    &&& after.layout == before.layout
    &&& after.index == before.index
    &&& after.aggregate.cache() == before.aggregate.cache()
    &&& match located {
        Err(m) => r matches RepoRead::Done(o) && read_failed(
            o,
            block,
            "lookup aggregated "@ + shown + ": "@ + m@,
        ),
        Ok(None) => r matches RepoRead::ReadFile { request, block: b } && b == block
            && reads_file(request, before.d_repo_base@, block),
        Ok(Some(info)) => {
            let path = paths::join(before.d_repo_base@, info.blob_path@);
            if before.aggregate.cache().contains_key(path) {
                exists|out: Result<Vec<u8>, AggregateRestoreError>| #[trigger]
                    sliced(
                        before.aggregate.cache()[path],
                        info.offset,
                        info.size,
                        out,
                    ) && (r matches RepoRead::Done(o) && blob_read(o, block, out, shown))
            } else {
                r matches RepoRead::LoadBlob { path: p, info: i, block: b } && p@ == path
                    && i == info && b == block
            }
        },
    }
}

/// Whether `r` is what becomes of a block once the blob of its file was loaded, or could not
/// be.
pub open spec fn takes_blob(
    before: LocalRepoRestoreSource,
    block: CopyBlock,
    info: AggregateRestoreInfo,
    loaded: Result<Vec<u8>, String>,
    shown: Seq<char>,
    after: LocalRepoRestoreSource,
    r: BlockOutcome,
) -> bool {
    &&& after.wf()
    &&& after.d_repo_base == before.d_repo_base
    &&& after.layout == before.layout
    &&& after.index == before.index
    &&& match loaded {
        Err(m) => {
            &&& after.aggregate == before.aggregate
            &&& read_failed(
                r,
                block,
                "read aggregated "@ + shown + ": "@ + ("IO error: "@ + m@),
            )
        },
        Ok(data) => {
            &&& after.aggregate.cache() == before.aggregate.cache().insert(
                paths::join(before.d_repo_base@, info.blob_path@),
                data@,
            )
            &&& exists|out: Result<Vec<u8>, AggregateRestoreError>| #[trigger]
                sliced(data@, info.offset, info.size, out) && blob_read(
                    r,
                    block,
                    out,
                    shown,
                )
        },
    }
}

/// Whether the contents of the index are taken in, or refused.
pub open spec fn takes_index(
    before: LocalRepoRestoreSource,
    contents: Result<Option<Vec<u8>>, String>,
    after: LocalRepoRestoreSource,
    r: Result<(), String>,
) -> bool {
    &&& after.wf()
    &&& after.d_repo_base == before.d_repo_base
    &&& after.layout == before.layout
    &&& after.aggregate == before.aggregate
    &&& ({
        let path = shard_index_path(before.d_repo_base@);
        match contents {
            Err(m) => {
                &&& after.index == before.index
                &&& r matches Err(e) && e@ == "open aggregate index "@ + path
                    + ": IO error: "@ + m@
            },
            Ok(c) => if readable(c) {
                &&& r is Ok
                &&& after.index matches Some(index) && index@ == read_map(c)
            } else {
                &&& after.index == before.index
                &&& exists|ie: AggregateIndexError| #[trigger]
                    open_error(c->0@, path, ie) && (r matches Err(e) && e@
                        == "open aggregate index "@ + path + ": "@ + ie.text())
            },
        }
    })
}

/// Whether `r` is what is done with an entry, and `after` what becomes of the counters.
pub open spec fn begins_restore(
    entry: CopyPlanEntry,
    local_base: Option<String>,
    before: RestoreStats,
    after: RestoreStats,
    r: RestoreStep,
) -> bool {
    match entry {
        CopyPlanEntry::Directory { dst_path, .. } => {
            &&& after == before
            &&& r == RestoreStep::MakeDir(dst_path)
        },
        CopyPlanEntry::File(FileCopyPlan::Aggregate { .. }) => {
            &&& after == file_failed(before)
            &&& r is Failed
        },
        CopyPlanEntry::File(FileCopyPlan::Direct { meta, src_path, dst_path }) => {
            &&& after == before
            &&& match meta.common.symlink_target_path {
                Some(t) => r matches RestoreStep::MakeSymlink(job) && job.link_path@ == on_target(
                    local_base,
                    dst_path@,
                ) && job.target == t && job.meta == meta && match job.parent {
                    Some(p) => paths::parent(job.link_path@) == Some(p@),
                    None => paths::parent(job.link_path@) is None,
                },
                None => r matches RestoreStep::RestoreFile(job) && job.meta == meta
                    && job.src_path == src_path && job.dst_path == dst_path && job.full_path@
                    == on_target(local_base, dst_path@),
            }
        },
    }
}

/// Whether `r` is the step behind a write, and `after` what becomes of the counters.
pub open spec fn follows_restored_write(
    outcome: BlockOutcome,
    before: RestoreStats,
    after: RestoreStats,
    r: RestoreBlockStep,
) -> bool {
    &&& after == write_counted(before, outcome)
    &&& match outcome {
        BlockOutcome::Failed { .. } => r is Failed,
        BlockOutcome::Ready(b) => if write_completes(outcome) {
            r == RestoreBlockStep::Restored(b)
        } else {
            r matches RestoreBlockStep::Read(n) && n.data@.len() == 0 && n.meta == b.meta
                && n.src_path == b.src_path && n.dst_path == b.dst_path && n.src_offset
                == b.src_offset && n.dst_offset == b.dst_offset && n.file_size == b.file_size
                && n.is_last == b.is_last
        },
    }
}

/// A restore looks where a backup into the same directory has written: at the index of all
/// shards, or at the table of the directory that the file lies in, under the path and the name
/// that the file has.
pub proof fn law_restores_look_where_backups_write(
    this: LocalRepoRestoreSource,
    engine: crate::aggregate_engine::AggregateBackupEngine,
    src: Seq<char>,
    r: IndexLookup,
)
    requires
        looks_up(this, src, r),
        engine.target() == this.d_repo_base@,
        !src.contains('\\'),
    ensures
        this.layout == AggregateLayout::Shard ==> (r matches IndexLookup::Shard {
            index_path,
            relative_path,
        } && index_path@ == shard_index_path(engine.target()) && relative_path@ == src),
        r matches IndexLookup::DirLevel { table_path, file_name, .. } ==> table_path@
            == engine.dir_index_path(crate::aggregate_engine::parent_dir(src)) && paths::file_name(
            src,
        ) == Some(file_name@),
        this.layout == AggregateLayout::DirLevel ==> (r is Invalid <==> paths::file_name(src)
            is None),
{
    text::lemma_forward_slashes_id(src);
    let p = parent_or_empty(src);
    paths::lemma_parent_keeps_out(src, '\\');
    assert(!p.contains('\\'));
    text::lemma_forward_slashes_id(p);
    assert(crate::aggregate_engine::parent_dir(src) =~= p);
}

/// Once the index is there, it alone says where a file lies: in the blob that it names, or in
/// none where it does not know the file. Before, it is loaded from where it is written.
pub proof fn law_the_index_says_where_files_lie(
    this: LocalRepoRestoreSource,
    src: Seq<char>,
    r: Locating,
)
    requires
        locates(this, src, r),
        this.layout == AggregateLayout::Shard,
        !src.contains('\\'),
    ensures
        this.index is None ==> (r matches Locating::LoadIndex(p) && p@ == shard_index_path(
            this.d_repo_base@,
        )),
        this.index matches Some(index) ==> {
            &&& index@.contains_key(src) ==> (r matches Locating::Located(Ok(Some(info))) && info@
                == index@[src])
            &&& !index@.contains_key(src) ==> r == Locating::Located(Ok(None))
        },
{
    text::lemma_forward_slashes_id(src);
}

/// A file that lies in a blob is read out of that blob, one that lies in none is read on its
/// own, and one whose place cannot be told has failed.
pub proof fn law_files_are_read_where_they_lie(
    before: LocalRepoRestoreSource,
    block: CopyBlock,
    located: Result<Option<AggregateRestoreInfo>, String>,
    shown: Seq<char>,
    after: LocalRepoRestoreSource,
    r: RepoRead,
)
    requires
        reads_block(before, block, located, shown, after, r),
    ensures
        located is Err ==> (r matches RepoRead::Done(o) && o is Failed),
        r is ReadFile <==> located == Ok::<Option<AggregateRestoreInfo>, String>(None),
        r matches RepoRead::ReadFile { request, block: b } ==> b == block && request.offset
            == block.src_offset,
        r matches RepoRead::LoadBlob { path, info, block: b } ==> b == block && located == Ok::<
            Option<AggregateRestoreInfo>,
            String,
        >(Some(info)) && path@ == paths::join(before.d_repo_base@, info.blob_path@)
            && !before.aggregate.cache().contains_key(path@),
        after.index == before.index && after.d_repo_base == before.d_repo_base,
{
}

/// Out of a blob comes the file that it holds at the place that is asked for, and a blob that
/// was loaded need not be loaded again.
pub proof fn law_loaded_blobs_give_the_file(
    before: LocalRepoRestoreSource,
    block: CopyBlock,
    info: AggregateRestoreInfo,
    loaded: Result<Vec<u8>, String>,
    shown: Seq<char>,
    after: LocalRepoRestoreSource,
    r: BlockOutcome,
    front: Seq<u8>,
    file: Seq<u8>,
    back: Seq<u8>,
)
    requires
        takes_blob(before, block, info, loaded, shown, after, r),
    ensures
        loaded is Err ==> r is Failed && after.aggregate == before.aggregate,
        loaded matches Ok(data) ==> {
            &&& after.aggregate.cache().contains_key(
                paths::join(before.d_repo_base@, info.blob_path@),
            )
            &&& data@ == front + file + back && info.offset == front.len() && info.size
                == file.len() ==> (r matches BlockOutcome::Ready(b) && b.data@ == file)
            &&& info.offset + info.size > data@.len() ==> r is Failed
        },
{
    match loaded {
        Ok(data) => {
            let out = choose|out: Result<Vec<u8>, AggregateRestoreError>| #[trigger]
                sliced(data@, info.offset, info.size, out) && blob_read(r, block, out, shown);
            if data@ == front + file + back {
                crate::aggregate_restore::law_stretches_are_read_as_a_whole(
                    front,
                    file,
                    back,
                    info.offset,
                    info.size,
                    out,
                );
            }
        },
        Err(_) => {},
    }
}

/// An index is taken in as a whole or not at all.
pub proof fn law_indexes_are_taken_in_whole(
    before: LocalRepoRestoreSource,
    contents: Result<Option<Vec<u8>>, String>,
    after: LocalRepoRestoreSource,
    r: Result<(), String>,
)
    requires
        takes_index(before, contents, after, r),
    ensures
        r is Ok <==> (contents matches Ok(c) && readable(c)),
        r is Err ==> after.index == before.index,
        after.aggregate == before.aggregate && after.d_repo_base == before.d_repo_base,
        r is Ok ==> (after.index matches Some(index) && index@ == read_map(contents->Ok_0)),
        contents == Ok::<Option<Vec<u8>>, String>(None) ==> r is Ok && (
        after.index matches Some(index) && index@.dom() =~= Set::empty()),
{
}

/// A directory is made where it was recorded, a link is made where its file would lie, with
/// the end that was recorded, and a file is restored from its place in the repository to its
/// place on the target. Only an entry that cannot be restored this way is counted.
pub proof fn law_restores_begin_as_recorded(
    entry: CopyPlanEntry,
    local_base: Option<String>,
    before: RestoreStats,
    after: RestoreStats,
    r: RestoreStep,
)
    requires
        begins_restore(entry, local_base, before, after, r),
        before.files_failed < u64::MAX,
    ensures
        r is MakeDir <==> entry is Directory,
        r is Failed <==> (entry matches CopyPlanEntry::File(f) && f is Aggregate),
        r is Failed <==> after.files_failed == before.files_failed + 1,
        !(r is Failed) ==> after == before,
        r is MakeSymlink <==> (entry matches CopyPlanEntry::File(
            FileCopyPlan::Direct { meta, .. },
        ) && meta.common.symlink_target_path is Some),
        r matches RestoreStep::MakeSymlink(job) ==> (entry matches CopyPlanEntry::File(
            FileCopyPlan::Direct { meta, src_path, dst_path },
        ) && meta.common.symlink_target_path == Some(job.target) && job.link_path@ == on_target(
            local_base,
            dst_path@,
        )),
        r matches RestoreStep::RestoreFile(job) ==> (entry matches CopyPlanEntry::File(
            FileCopyPlan::Direct { meta, src_path, dst_path },
        ) && job.src_path == src_path && job.dst_path == dst_path && job.full_path@ == on_target(
            local_base,
            dst_path@,
        )),
{
}

/// A file is restored once it is read and written to its end, and is read on from where it
/// stands until then.
pub proof fn law_restores_go_on_to_the_end(
    outcome: BlockOutcome,
    before: RestoreStats,
    after: RestoreStats,
    r: RestoreBlockStep,
)
    requires
        follows_restored_write(outcome, before, after, r),
        outcome matches BlockOutcome::Ready(b) ==> restore_room(before, b.file_size),
    ensures
        r is Failed <==> outcome is Failed,
        r is Restored <==> (outcome matches BlockOutcome::Ready(b) && b.src_offset >= b.file_size
            && b.dst_offset >= b.file_size),
        r is Restored ==> after.files_restored == before.files_restored + 1,
        r is Read ==> after == before,
        r matches RestoreBlockStep::Read(n) ==> (outcome matches BlockOutcome::Ready(b)
            && n.data@.len() == 0 && n.src_offset == b.src_offset && n.dst_offset == b.dst_offset
            && n.file_size == b.file_size && (n.src_path, n.dst_path) == (b.src_path, b.dst_path)
            && n.meta == b.meta),
        !(r is Write),
{
}

/// Whether `r` is what becomes of a block once a stretch of its file was read, or could not
/// be.
pub open spec fn takes_stretch(
    block: CopyBlock,
    read: Result<Vec<u8>, String>,
    r: BlockOutcome,
) -> bool {
    match read {
        Ok(data) => r matches BlockOutcome::Ready(b) && is_read_into(block, data@, b),
        Err(m) => read_failed(r, block, m@),
    }
}

/// Whether `r` is what a row says of the place of a file.
pub open spec fn takes_row(
    table_path: Seq<char>,
    blob_dir: Seq<char>,
    row: Result<Option<DirIndexRow>, String>,
    r: Result<Option<AggregateRestoreInfo>, String>,
) -> bool {
    match row {
        Err(m) => r matches Err(e) && e@ == "query dir aggregate index "@ + table_path
            + ": "@ + m@,
        Ok(None) => r matches Ok(None),
        Ok(Some(found)) => r matches Ok(Some(info)) && info@ == info_of(found@, blob_dir),
    }
}

/// Whether `r` is the step behind a read, and `after` what becomes of the counters.
pub open spec fn follows_restored_read(
    outcome: BlockOutcome,
    before: RestoreStats,
    after: RestoreStats,
    r: RestoreBlockStep,
) -> bool {
    &&& after == read_counted(before, outcome)
    &&& read_fails(outcome) ==> r is Failed
    &&& !read_fails(outcome) ==> (outcome matches BlockOutcome::Ready(b) && r
        == RestoreBlockStep::Write(b))
}

/// Whether a block is the first one of a file that is restored.
pub open spec fn is_first_block(
    job: RestoreJob,
    b: CopyBlock,
) -> bool {
    &&& *b.meta == job.meta
    &&& b.src_path == job.src_path
    &&& b.dst_path == job.dst_path
    &&& b.src_offset == 0
    &&& b.dst_offset == 0
    &&& b.file_size == job.meta.size
    &&& b.data@.len() == 0
    &&& b.is_last == (job.meta.size == 0)
}

/// A stretch that was read becomes the data of its block, which moves on by as much; one that
/// could not be read fails the block.
pub proof fn law_stretches_move_their_block_on(
    block: CopyBlock,
    read: Result<Vec<u8>, String>,
    r: BlockOutcome,
)
    requires
        takes_stretch(block, read, r),
    ensures
        r is Ready <==> read is Ok,
        r matches BlockOutcome::Ready(b) ==> b.data@ == read->Ok_0@ && b.dst_offset
            == block.dst_offset && b.file_size == block.file_size && (block.src_offset
            + b.data@.len() <= u64::MAX ==> b.src_offset == block.src_offset + b.data@.len()),
        r matches BlockOutcome::Failed { block: b, .. } ==> b == block,
{
}

/// A row names the place of a file, no row means that the file lies in no blob, and a table that
/// could not be asked is an error.
pub proof fn law_rows_name_the_place(
    table: Seq<char>,
    dir: Seq<char>,
    row: Result<Option<DirIndexRow>, String>,
    r: Result<Option<AggregateRestoreInfo>, String>,
)
    requires
        takes_row(table, dir, row, r),
    ensures
        r is Err <==> row is Err,
        r matches Ok(found) ==> (found is Some <==> row->Ok_0 is Some),
        row matches Ok(Some(x)) ==> (r matches Ok(Some(info)) && info.offset == x.offset as u64
            && info.size == x.size as u64 && info.mtime == x.mtime as u64),
{
}

/// What was read is written, unless the read failed or brought nothing before the end: then the
/// file has failed and is counted once.
pub proof fn law_restored_stretches_are_written(
    outcome: BlockOutcome,
    before: RestoreStats,
    after: RestoreStats,
    r: RestoreBlockStep,
)
    requires
        follows_restored_read(outcome, before, after, r),
        before.files_failed < u64::MAX,
    ensures
        r is Write <==> (outcome matches BlockOutcome::Ready(b) && (b.data@.len() > 0
            || b.src_offset >= b.file_size)),
        r is Write ==> after == before && outcome == BlockOutcome::Ready(r->Write_0),
        !(r is Write) ==> r is Failed && after.files_failed == before.files_failed + 1,
{
}

/// A file is restored from its beginning, from where it lies in the repository to where it lay
/// when it was backed up; an empty one is complete at once.
pub proof fn law_restores_start_at_the_beginning(job: RestoreJob, b: CopyBlock)
    requires
        is_first_block(job, b),
    ensures
        (b.src_path, b.dst_path) == (job.src_path, job.dst_path),
        b.src_offset == 0 && b.dst_offset == 0 && b.data@.len() == 0,
        b.file_size == job.meta.size && *b.meta == job.meta,
        b.is_last <==> b.src_offset >= b.file_size,
{
}

/// In the layout by directories a file is asked for in the table that it is looked up in.
pub proof fn law_tables_are_asked_as_looked_up(
    this: LocalRepoRestoreSource,
    src: Seq<char>,
    how: IndexLookup,
    r: Locating,
)
    requires
        looks_up(this, src, how),
        locates(this, src, r),
        this.layout == AggregateLayout::DirLevel,
    ensures
        r is QueryTable <==> how is DirLevel,
        how matches IndexLookup::DirLevel { table_path: t, file_name: n, blob_dir: d } ==> (
        r matches Locating::QueryTable { table_path, file_name, blob_dir } && table_path@ == t@
            && file_name@ == n@ && blob_dir@ == d@),
        how is Invalid ==> (r matches Locating::Located(l) && l is Err),
{
}

} // verus!
