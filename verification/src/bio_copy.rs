//! The blocking copy engine: which operation a file waits for, where a result goes, and
//! what is counted.
use vstd::prelude::*;

use crate::aggregate::{should_aggregate, total_bytes, AggregateConfig, PendingFile};
use crate::aggregate_engine::{fcb_to_pending_file, AggregateBackupState};
use crate::fcb::{
    ControlBlockVarient, DirControlBlock, FileControlBlock, SourceHandleState, TargetHandleState,
    MAX_FILE_BUFFER_SIZE,
};
use crate::metadata::{DirMeta, FileMeta};
use crate::paths;
use crate::stats::BackupStats;
use crate::text;

verus! {

// ---------------------------------------------------------------------------
// Tasks and results
// ---------------------------------------------------------------------------

/// An operation on the source of a file.
#[derive(Debug)]
pub enum ReaderBioTask {
    OpenSource(FileControlBlock),
    ReadSource(FileControlBlock),
    CloseSource(FileControlBlock),
}

/// An operation on the target of a file.
#[derive(Debug)]
pub enum WriterBioTask {
    OpenTarget(FileControlBlock),
    WriteTarget(FileControlBlock),
    CloseTarget(FileControlBlock),
}

/// An error of an operation, with its text.
#[derive(Debug)]
pub enum BioError {
    InsufficientSpace(String),
    Unknown(String),
}

/// The result of an operation on a source.
#[derive(Debug)]
pub enum ReaderBioResult {
    OpenSource(Result<FileControlBlock, BioError>),
    ReadSource(Result<FileControlBlock, BioError>),
    CloseSource(Result<FileControlBlock, BioError>),
}

/// The result of an operation on a target.
#[derive(Debug)]
pub enum WriterBioResult {
    OpenTarget(Result<FileControlBlock, BioError>),
    WriteTarget(Result<FileControlBlock, BioError>),
    CloseTarget(Result<FileControlBlock, BioError>),
}

/// What the threads of a pipeline know of each other.
#[derive(Debug, Clone, Copy, PartialEq, Eq, Structural)]
pub struct SharedState {
    pub entry_produce_done: bool,
    pub reader_done: bool,
    pub writer_done: bool,
    pub active_reader_io_workers: u32,
    pub active_writer_io_workers: u32,
}

impl Default for SharedState {
    fn default() -> (r: Self)
        ensures
            r == (SharedState {
                entry_produce_done: false,
                reader_done: false,
                writer_done: false,
                active_reader_io_workers: 0,
                active_writer_io_workers: 0,
            }),
    {
        SharedState {
            entry_produce_done: false,
            reader_done: false,
            writer_done: false,
            active_reader_io_workers: 0,
            active_writer_io_workers: 0,
        }
    }
}

impl SharedState {
    /// A worker of the reader takes up a task.
    pub fn reader_task_begins(&mut self)
        ensures
            *final(self) == (SharedState {
                active_reader_io_workers: old(self).active_reader_io_workers.wrapping_add(1),
                ..*old(self)
            }),
    {
        self.active_reader_io_workers = self.active_reader_io_workers.wrapping_add(1);
    }

    /// A worker of the reader has sent the result of its task.
    pub fn reader_task_ends(&mut self)
        ensures
            *final(self) == (SharedState {
                active_reader_io_workers: old(self).active_reader_io_workers.wrapping_sub(1),
                ..*old(self)
            }),
    {
        self.active_reader_io_workers = self.active_reader_io_workers.wrapping_sub(1);
    }

    /// A worker of the writer takes up a task.
    pub fn writer_task_begins(&mut self)
        ensures
            *final(self) == (SharedState {
                active_writer_io_workers: old(self).active_writer_io_workers.wrapping_add(1),
                ..*old(self)
            }),
    {
        self.active_writer_io_workers = self.active_writer_io_workers.wrapping_add(1);
    }

    /// A worker of the writer is done with its task, and sends the result next.
    pub fn writer_task_ends(&mut self)
        ensures
            *final(self) == (SharedState {
                active_writer_io_workers: old(self).active_writer_io_workers.wrapping_sub(1),
                ..*old(self)
            }),
    {
        self.active_writer_io_workers = self.active_writer_io_workers.wrapping_sub(1);
    }

    /// Whether the reader has nothing left to do: all entries are produced and no worker of
    /// the reader is busy.
    pub open spec fn nothing_to_read(&self) -> bool {
        self.entry_produce_done && self.active_reader_io_workers == 0
    }

    /// Asked when nothing waits for the reader: says whether it is done.
    pub fn reader_idles(&mut self) -> (done: bool)
        ensures
            done == old(self).nothing_to_read(),
            *final(self) == (SharedState {
                reader_done: old(self).reader_done || done,
                ..*old(self)
            }),
    {
        let done = self.entry_produce_done && self.active_reader_io_workers == 0;
        if done {
            self.reader_done = true;
        }
        done
    }

    /// Asked when nothing waits for the writer: it is done once the reader is and no
    /// worker is busy.
    pub fn writer_idles(&mut self) -> (done: bool)
        ensures
            done == (old(self).reader_done && old(self).active_writer_io_workers == 0),
            *final(self) == (SharedState {
                writer_done: old(self).writer_done || done,
                ..*old(self)
            }),
    {
        let done = self.reader_done && self.active_writer_io_workers == 0;
        if done {
            self.writer_done = true;
        }
        done
    }
}

// ---------------------------------------------------------------------------
// Paths
// ---------------------------------------------------------------------------

/// Where a control path lies on the source: as it is where it lies below the root;
/// otherwise below the root, without the logical root or, failing that, without its
/// leading slash.
pub open spec fn source_path(
    source_root: Seq<char>,
    logical_root: Seq<char>,
    control_path: Seq<char>,
) -> Seq<char> {
    if paths::starts_with(control_path, source_root) {
        control_path
    } else {
        paths::join(
            source_root,
            match paths::strip_prefix(control_path, logical_root) {
                Some(rest) => rest,
                None => without_root(control_path),
            },
        )
    }
}

/// A path without its leading slash.
pub open spec fn without_root(path: Seq<char>) -> Seq<char> {
    match paths::strip_prefix(path, "/"@) {
        Some(rest) => rest,
        None => path,
    }
}

fn strip_root(path: &str) -> (s: String)
    ensures
        s@ == without_root(path@),
{
    match paths::strip_base(path, "/") {
        Some(rest) => rest,
        None => path.to_owned(),
    }
}

pub fn resolve_local_source_path(
    source_root: &str,
    logical_source_root: &str,
    control_path: &str,
) -> (s: String)
    ensures
        s@ == source_path(source_root@, logical_source_root@, control_path@),
{
    if paths::path_starts_with(control_path, source_root) {
        return control_path.to_owned();
    }
    let rel = match paths::strip_base(control_path, logical_source_root) {
        Some(rest) => rest,
        None => strip_root(control_path),
    };
    paths::join_path(source_root, rel.as_str())
}

/// Where a control path lies on the target.
pub fn logical_target_path(target_root: &str, control_path: &str) -> (s: String)
    ensures
        s@ == paths::join(target_root@, without_root(control_path@)),
{
    let rel = strip_root(control_path);
    paths::join_path(target_root, rel.as_str())
}

/// Turns the entries of a control file into control blocks. A file lies in the directory
/// that was named last.
#[derive(Debug)]
pub struct LocalEntryProducer {
    pub source_root: String,
    pub logical_root: String,
    pub target_root: String,
    pub dir: String,
}

impl LocalEntryProducer {
    pub fn new(source_root: String, logical_root: String, target_root: String) -> (r: Self)
        ensures
            r.source_root == source_root,
            r.logical_root == logical_root,
            r.target_root == target_root,
            r.dir@.len() == 0,
    {
        LocalEntryProducer { source_root, logical_root, target_root, dir: String::new() }
    }

    /// The block of a directory, which the files that follow lie in.
    pub fn directory(&mut self, path: &str, meta: DirMeta) -> (r: DirControlBlock)
        ensures
            *r.meta == meta,
            r.src_path@ == source_path(old(self).source_root@, old(self).logical_root@, path@),
            r.dst_path@ == paths::join(old(self).target_root@, without_root(path@)),
            final(self).dir@ == path@,
            *final(self) == (LocalEntryProducer { dir: final(self).dir, ..*old(self) }),
    {
        self.dir = path.to_owned();
        DirControlBlock {
            meta: Box::new(meta),
            src_path: resolve_local_source_path(
                self.source_root.as_str(),
                self.logical_root.as_str(),
                path,
            ),
            dst_path: logical_target_path(self.target_root.as_str(), path),
        }
    }

    /// The block of a file in the directory that was named last.
    pub fn file(&self, name: &str, meta: FileMeta) -> (r: FileControlBlock)
        ensures
            *r.meta == meta,
            r.wf(),
            r.buffer@.len() == 0,
            r.src_state == SourceHandleState::Inited,
            r.dst_state == TargetHandleState::Inited,
            r.src_offset == 0,
            r.dst_offset == 0,
            r.src_path@ == paths::join(
                source_path(self.source_root@, self.logical_root@, self.dir@),
                name@,
            ),
            r.dst_path@ == paths::join(
                paths::join(self.target_root@, without_root(self.dir@)),
                name@,
            ),
    {
        let mut fcb = FileControlBlock::from(meta);
        let src_dir = resolve_local_source_path(
            self.source_root.as_str(),
            self.logical_root.as_str(),
            self.dir.as_str(),
        );
        let dst_dir = logical_target_path(self.target_root.as_str(), self.dir.as_str());
        fcb.src_path = paths::join_path(src_dir.as_str(), name);
        fcb.dst_path = paths::join_path(dst_dir.as_str(), name);
        fcb
    }
}

/// An entry of a control file with its metadata.
#[derive(Debug)]
pub enum LocalEntry {
    Dir { path: String, dir_meta: DirMeta },
    File { name: String, file_meta: FileMeta },
}

/// The directory that was named last among the entries; none before the first one.
pub open spec fn dir_of(entries: Seq<LocalEntry>) -> Seq<char>
    decreases entries.len(),
{
    if entries.len() == 0 {
        Seq::empty()
    } else {
        match entries.last() {
            LocalEntry::Dir { path, .. } => path@,
            LocalEntry::File { .. } => dir_of(entries.drop_last()),
        }
    }
}

/// Whether a control block stands for an entry. A file lies in `dir`.
pub open spec fn is_block_of(
    block: ControlBlockVarient,
    entry: LocalEntry,
    dir: Seq<char>,
    source_root: Seq<char>,
    logical_root: Seq<char>,
    target_root: Seq<char>,
) -> bool {
    match entry {
        LocalEntry::Dir { path, dir_meta } => block matches ControlBlockVarient::DirControlBlock(d)
            && *d.meta == dir_meta && d.src_path@ == source_path(source_root, logical_root, path@)
            && d.dst_path@ == paths::join(target_root, without_root(path@)),
        LocalEntry::File { name, file_meta } => block matches ControlBlockVarient::FileControlBlock(
            f,
        ) && *f.meta == file_meta && f.wf() && f.buffer@.len() == 0 && f.src_state
            == SourceHandleState::Inited && f.dst_state == TargetHandleState::Inited && f.src_offset
            == 0 && f.dst_offset == 0 && f.src_path@ == paths::join(
            source_path(source_root, logical_root, dir),
            name@,
        ) && f.dst_path@ == paths::join(paths::join(target_root, without_root(dir)), name@),
    }
}

/// Turns the entries of a control file into control blocks, one for each, in order.
pub fn spawn_file_entry_producer(
    entries: Vec<LocalEntry>,
    source_root: String,
    logical_root: String,
    target_root: String,
) -> (blocks: Vec<ControlBlockVarient>)
    ensures
        blocks@.len() == entries@.len(),
        forall|i: int|
            0 <= i < blocks@.len() ==> is_block_of(
                #[trigger] blocks@[i],
                entries@[i],
                dir_of(entries@.take(i)),
                source_root@,
                logical_root@,
                target_root@,
            ),
{
    let ghost all = entries@;
    let ghost (src, log, dst) = (source_root@, logical_root@, target_root@);
    let mut producer = LocalEntryProducer::new(source_root, logical_root, target_root);
    let mut blocks: Vec<ControlBlockVarient> = Vec::new();
    assert(all.take(0) =~= Seq::empty());
    assert(producer.dir@ =~= dir_of(all.take(0)));
    for entry in it: entries
        invariant
            it.seq() == all,
            it.index() <= all.len(),
            blocks@.len() == it.index(),
            producer.source_root@ == src,
            producer.logical_root@ == log,
            producer.target_root@ == dst,
            producer.dir@ == dir_of(all.take(it.index() as int)),
            forall|i: int|
                0 <= i < blocks@.len() ==> is_block_of(
                    #[trigger] blocks@[i],
                    all[i],
                    dir_of(all.take(i)),
                    src,
                    log,
                    dst,
                ),
    {
        let ghost n = it.index() as int;
        assert(all.take(n + 1).drop_last() =~= all.take(n));
        assert(all.take(n + 1).last() == entry);
        match entry {
            LocalEntry::Dir { path, dir_meta } => {
                let block = producer.directory(path.as_str(), dir_meta);
                blocks.push(ControlBlockVarient::DirControlBlock(block));
            },
            LocalEntry::File { name, file_meta } => {
                let block = producer.file(name.as_str(), file_meta);
                blocks.push(ControlBlockVarient::FileControlBlock(block));
            },
        }
    }
    blocks
}

// ---------------------------------------------------------------------------
// The reader
// ---------------------------------------------------------------------------

/// What the reader does with a control block.
#[derive(Debug)]
pub enum ReaderRoute {
    ToWriter(ControlBlockVarient),
    Task(ReaderBioTask),
    /// The block needs nothing more from the reader.
    Nothing,
}

/// Directories and symbolic links have no content, so they go to the writer at once. A
/// file is opened and then its first buffer is read; what is left of a larger one is read
/// on by the worker that writes it.
pub open spec fn reader_route(item: ControlBlockVarient) -> ReaderRoute {
    match item {
        ControlBlockVarient::DirControlBlock(_) => ReaderRoute::ToWriter(item),
        ControlBlockVarient::FileControlBlock(f) => if f.meta.common.symlink_target_path is Some {
            ReaderRoute::ToWriter(item)
        } else if f.src_state == SourceHandleState::Inited {
            ReaderRoute::Task(ReaderBioTask::OpenSource(f))
        } else if f.src_state == SourceHandleState::Opened {
            ReaderRoute::Task(ReaderBioTask::ReadSource(f))
        } else {
            ReaderRoute::Nothing
        },
    }
}

/// What the reader does with a control block.
pub fn spawn_reader(item: ControlBlockVarient) -> (r: ReaderRoute)
    ensures
        r == reader_route(item),
{
    match item {
        ControlBlockVarient::DirControlBlock(d) => ReaderRoute::ToWriter(
            ControlBlockVarient::DirControlBlock(d),
        ),
        ControlBlockVarient::FileControlBlock(f) => {
            if f.meta.common.symlink_target_path.is_some() {
                return ReaderRoute::ToWriter(ControlBlockVarient::FileControlBlock(f));
            }
            match f.src_state {
                SourceHandleState::Inited => ReaderRoute::Task(ReaderBioTask::OpenSource(f)),
                SourceHandleState::Opened => ReaderRoute::Task(ReaderBioTask::ReadSource(f)),
                _ => ReaderRoute::Nothing,
            }
        },
    }
}

/// What the reader does with a control block while it collects small files.
#[derive(Debug)]
pub enum AggregatingRoute {
    Route(ReaderRoute),
    /// The file waits in its bucket; it counts once its blob is written.
    Buffered,
    /// The bucket is full: its files go into a blob.
    Blob { bucket_key: String, files: Vec<PendingFile> },
}

/// Whether a control block is a small file that was read and now goes into a bucket.
pub open spec fn is_collected(item: ControlBlockVarient, config: AggregateConfig) -> bool {
    item matches ControlBlockVarient::FileControlBlock(f) && f.meta.common.symlink_target_path
        is None && crate::aggregate::aggregates(f.meta.size, config) && f.src_state
        == SourceHandleState::Read
}

/// The bucket of a small file that was read.
pub open spec fn bucket_of(state: AggregateBackupState, f: FileControlBlock) -> Seq<char> {
    state.engine.bucket_key(text::forward_slashes(f.dst_path@), f.buffer_len as u64)
}

/// Whether a pending file stands for a control block.
pub open spec fn pends(p: PendingFile, f: FileControlBlock) -> bool {
    &&& p.file_name@ == text::forward_slashes(f.dst_path@)
    &&& p.data@ == f.buffer@.take(f.buffer_len as int)
    &&& p.ctime == f.meta.common.ctime as u64
    &&& p.mtime == f.meta.common.mtime as u64
    &&& p.mode == f.meta.common.mode
    &&& p.xattrs == f.meta.common.xattributes
    &&& p.acl == f.meta.common.posix_access_acl
}

/// What the reader does with a control block while it collects small files: a small file
/// that was read goes into its bucket, and everything else goes its usual way.
pub fn spawn_reader_with_aggregation(state: &mut AggregateBackupState, item: ControlBlockVarient)
    -> (r: AggregatingRoute)
    requires
        old(state).buffers.wf(),
        is_collected(item, old(state).engine.config) ==> ({
            let f = item->FileControlBlock_0;
            f.wf() && crate::aggregate::total_bytes(
                old(state).buffers.pending(bucket_of(*old(state), f)),
            ) + f.buffer_len <= u64::MAX
        }),
    ensures
        final(state).buffers.wf(),
        final(state).engine == old(state).engine,
        final(state).normal_files == old(state).normal_files,
        !is_collected(item, old(state).engine.config) ==> {
            &&& r == AggregatingRoute::Route(reader_route(item))
            &&& final(state).buffers == old(state).buffers
        },
        is_collected(item, old(state).engine.config) ==> ({
            let f = item->FileControlBlock_0;
            let key = bucket_of(*old(state), f);
            let earlier = old(state).buffers.pending(key);
            exists|p: PendingFile| #[trigger]
                pends(p, f) && if crate::aggregate::total_bytes(earlier.push(p)) >= old(
                    state,
                ).engine.config.max_blob_size {
                    &&& r matches AggregatingRoute::Blob { bucket_key, files } && bucket_key@
                        == key && files@ == earlier.push(p)
                    &&& final(state).buffers@ == old(state).buffers@.insert(key, Seq::empty())
                } else {
                    &&& r is Buffered
                    &&& final(state).buffers@ == old(state).buffers@.insert(key, earlier.push(p))
                }
        }),
{
    let collect = match &item {
        ControlBlockVarient::DirControlBlock(_) => false,
        ControlBlockVarient::FileControlBlock(f) => f.meta.common.symlink_target_path.is_none()
            && should_aggregate(f.meta.size, &state.engine.config) && f.src_state
            == SourceHandleState::Read,
    };
    if !collect {
        return AggregatingRoute::Route(spawn_reader(item));
    }
    match item {
        ControlBlockVarient::DirControlBlock(d) => AggregatingRoute::Route(
            spawn_reader(ControlBlockVarient::DirControlBlock(d)),
        ),
        ControlBlockVarient::FileControlBlock(f) => {
            let pending = fcb_to_pending_file(&f);
            let ghost p = pending;
            assert(pends(p, f));
            let relative_path = text::to_forward_slashes(f.dst_path.as_str());
            match state.add_file(relative_path.as_str(), pending) {
                Some((bucket_key, files)) => AggregatingRoute::Blob { bucket_key, files },
                None => AggregatingRoute::Buffered,
            }
        },
    }
}

/// Asked when nothing waits for a reader that collects small files: once it is done, every
/// bucket that still has files is handed out, to be written as a blob before the indexes.
pub fn aggregating_reader_idles(shared: &mut SharedState, state: &mut AggregateBackupState) -> (r:
    Option<Vec<(String, Vec<PendingFile>)>>)
    requires
        old(state).buffers.wf(),
    ensures
        final(state).buffers.wf(),
        final(state).engine == old(state).engine,
        final(state).normal_files == old(state).normal_files,
        r is Some <==> old(shared).nothing_to_read(),
        *final(shared) == (SharedState {
            reader_done: old(shared).reader_done || r is Some,
            ..*old(shared)
        }),
        match r {
            None => final(state).buffers == old(state).buffers,
            Some(rest) => crate::buckets::drained(
                old(state).buffers@,
                rest@,
                final(state).buffers@,
            ),
        },
{
    if shared.reader_idles() {
        Some(state.flush_all())
    } else {
        None
    }
}

/// Counts the files of a blob that was created, or failed to be.
pub fn blob_was_created(ok: bool, files: &Vec<PendingFile>, stats: &mut BackupStats)
    requires
        total_bytes(files@) <= u64::MAX,
    ensures
        counts_created_blob(ok, files@, *old(stats), *final(stats)),
{
    let mut bytes: u64 = 0;
    let mut i: usize = 0;
    assert(files@.take(0) =~= Seq::empty());
    while i < files.len()
        invariant
            i <= files@.len(),
            total_bytes(files@) <= u64::MAX,
            bytes == total_bytes(files@.take(i as int)),
        decreases files@.len() - i,
    {
        proof {
            assert(files@.take(i + 1).drop_last() =~= files@.take(i as int));
            crate::aggregate_engine::lemma_total_grows(files@, i + 1);
        }
        bytes = bytes + files[i].data.len() as u64;
        i += 1;
    }
    assert(files@.take(i as int) =~= files@);
    if ok {
        stats.add_files_copied(files.len() as u64);
        stats.add_bytes_copied(bytes);
    } else {
        stats.add_files_failed(files.len() as u64);
    }
}

// ---------------------------------------------------------------------------
// Results of the source
// ---------------------------------------------------------------------------

/// Where a result is sent.
#[derive(Debug)]
pub enum ResultRoute {
    ToReader(FileControlBlock),
    ToWriter(FileControlBlock),
    Nothing,
}

/// Counts a result of a source and says where the file goes. A file that was opened goes
/// back to the reader; so does a small file that was read as a whole, where small files
/// are collected. All others go to the writer.
pub fn spawn_reader_io_result_poll(
    result: ReaderBioResult,
    aggregate: Option<&AggregateConfig>,
    stats: &mut BackupStats,
) -> (r: ResultRoute)
    ensures
        follows_reader(result, aggregate, *old(stats), *final(stats), r),
{
    match result {
        ReaderBioResult::OpenSource(Ok(f)) => {
            stats.inc_src_opened();
            ResultRoute::ToReader(f)
        },
        ReaderBioResult::ReadSource(Ok(f)) => {
            let collect = match aggregate {
                Some(config) => should_aggregate(f.meta.size, config) && f.src_state
                    == SourceHandleState::Read,
                None => false,
            };
            if collect {
                ResultRoute::ToReader(f)
            } else {
                ResultRoute::ToWriter(f)
            }
        },
        ReaderBioResult::CloseSource(Ok(f)) => {
            stats.inc_src_closed();
            ResultRoute::ToWriter(f)
        },
        ReaderBioResult::OpenSource(Err(_)) | ReaderBioResult::ReadSource(Err(_))
        | ReaderBioResult::CloseSource(Err(_)) => {
            stats.inc_files_failed();
            ResultRoute::Nothing
        },
    }
}

/// A file whose source was opened. Block devices are not opened.
pub fn open_source(fcb: FileControlBlock, is_block_device: bool, opened: Result<(), String>) -> (r:
    ReaderBioResult)
    ensures
        opens_source(fcb, is_block_device, opened, r),
{
    if is_block_device {
        return ReaderBioResult::OpenSource(
            Err(BioError::Unknown(text::copy_of("Block device skipped"))),
        );
    }
    match opened {
        Ok(_) => {
            let mut fcb = fcb;
            fcb.src_state = SourceHandleState::Opened;
            ReaderBioResult::OpenSource(Ok(fcb))
        },
        Err(e) => ReaderBioResult::OpenSource(Err(BioError::Unknown(e))),
    }
}

/// How many bytes are read next: what is left of the file, but no more than the buffer
/// holds.
pub open spec fn request_len(fcb: FileControlBlock) -> nat {
    let left = if fcb.meta.size > fcb.src_offset {
        (fcb.meta.size - fcb.src_offset) as nat
    } else {
        0
    };
    if left < MAX_FILE_BUFFER_SIZE {
        left
    } else {
        MAX_FILE_BUFFER_SIZE as nat
    }
}

/// Where the next read of a file begins, and how many bytes it asks for.
pub fn read_request(fcb: &FileControlBlock) -> (r: (u64, usize))
    ensures
        r.0 == fcb.src_offset,
        r.1 == request_len(*fcb),
{
    let left: u64 = fcb.meta.size.saturating_sub(fcb.src_offset);
    let len: usize = if left < MAX_FILE_BUFFER_SIZE as u64 {
        left as usize
    } else {
        MAX_FILE_BUFFER_SIZE
    };
    (fcb.src_offset, len)
}

/// A file after a read brought the given bytes.
pub open spec fn has_read(before: FileControlBlock, data: Seq<u8>, after: FileControlBlock) -> bool {
    &&& after.buffer@ == data
    &&& after.buffer_len == data.len()
    &&& after.src_offset == before.src_offset + data.len()
    &&& after.src_state == (if after.src_offset >= before.meta.size {
        SourceHandleState::Read
    } else {
        SourceHandleState::PartialRead
    })
    &&& after == (FileControlBlock {
        buffer: after.buffer,
        buffer_len: after.buffer_len,
        src_offset: after.src_offset,
        src_state: after.src_state,
        ..before
    })
}

/// A file whose source was read.
pub fn read_source(fcb: FileControlBlock, outcome: Result<Vec<u8>, String>) -> (r: ReaderBioResult)
    requires
        outcome matches Ok(data) ==> data@.len() <= request_len(fcb),
    ensures
        match outcome {
            Ok(data) => r matches ReaderBioResult::ReadSource(Ok(f)) && f.wf() && has_read(
                fcb,
                data@,
                f,
            ),
            Err(e) => r == ReaderBioResult::ReadSource(Err(BioError::Unknown(e))),
        },
{
    match outcome {
        Ok(data) => {
            let mut fcb = fcb;
            fcb.buffer_len = data.len();
            fcb.src_offset = fcb.src_offset + data.len() as u64;
            fcb.buffer = data;
            fcb.src_state =
            if fcb.src_offset >= fcb.meta.size {
                SourceHandleState::Read
            } else {
                SourceHandleState::PartialRead
            };
            ReaderBioResult::ReadSource(Ok(fcb))
        },
        Err(e) => ReaderBioResult::ReadSource(Err(BioError::Unknown(e))),
    }
}

/// A file whose source was closed.
pub fn close_source(fcb: FileControlBlock) -> (r: ReaderBioResult)
    ensures
        r == ReaderBioResult::CloseSource(
            Ok(FileControlBlock { src_state: SourceHandleState::Closed, ..fcb }),
        ),
{
    let mut fcb = fcb;
    fcb.src_state = SourceHandleState::Closed;
    ReaderBioResult::CloseSource(Ok(fcb))
}

// ---------------------------------------------------------------------------
// The writer
// ---------------------------------------------------------------------------

/// What the writer does with a control block.
#[derive(Debug)]
pub enum WriterRoute {
    CreateDir(String),
    Task(WriterBioTask),
    Nothing,
}

/// What the writer does with a control block: a directory is created at once, and a file
/// is created and then written.
pub open spec fn writer_route(item: ControlBlockVarient) -> WriterRoute {
    match item {
        ControlBlockVarient::DirControlBlock(d) => WriterRoute::CreateDir(d.dst_path),
        ControlBlockVarient::FileControlBlock(f) => if f.dst_state == TargetHandleState::Inited {
            WriterRoute::Task(WriterBioTask::OpenTarget(f))
        } else if f.dst_state == TargetHandleState::Opened {
            WriterRoute::Task(WriterBioTask::WriteTarget(f))
        } else {
            WriterRoute::Nothing
        },
    }
}

/// What the writer does with a control block.
pub fn spawn_writer(item: ControlBlockVarient) -> (r: WriterRoute)
    ensures
        r == writer_route(item),
{
    match item {
        ControlBlockVarient::DirControlBlock(d) => WriterRoute::CreateDir(d.dst_path),
        ControlBlockVarient::FileControlBlock(f) => match f.dst_state {
            TargetHandleState::Inited => WriterRoute::Task(WriterBioTask::OpenTarget(f)),
            TargetHandleState::Opened => WriterRoute::Task(WriterBioTask::WriteTarget(f)),
            _ => WriterRoute::Nothing,
        },
    }
}

/// What is made when a target is opened: the parent directory first, where there is one,
/// and then a symbolic link or a file.
#[derive(Debug)]
pub struct OpenTargetPlan {
    pub parent: Option<String>,
    pub symlink_target: Option<String>,
}

pub fn open_target_plan(fcb: &FileControlBlock) -> (r: OpenTargetPlan)
    ensures
        match r.parent {
            Some(p) => paths::parent(fcb.dst_path@) == Some(p@),
            None => paths::parent(fcb.dst_path@) is None,
        },
        r.symlink_target == fcb.meta.common.symlink_target_path,
{
    OpenTargetPlan {
        parent: paths::parent_of(fcb.dst_path.as_str()),
        symlink_target: crate::metadata::clone_text(&fcb.meta.common.symlink_target_path),
    }
}

/// A file whose target was opened. A symbolic link is written as soon as it is made.
pub fn open_target(fcb: FileControlBlock, made: Result<(), String>) -> (r: WriterBioResult)
    ensures
        opens_target(fcb, made, r),
{
    match made {
        Ok(_) => {
            let mut fcb = fcb;
            fcb.dst_state =
            if fcb.meta.common.symlink_target_path.is_some() {
                TargetHandleState::Written
            } else {
                TargetHandleState::Opened
            };
            WriterBioResult::OpenTarget(Ok(fcb))
        },
        Err(e) => WriterBioResult::OpenTarget(Err(BioError::Unknown(e))),
    }
}

/// A file after its buffer was written.
pub open spec fn has_written(before: FileControlBlock, after: FileControlBlock) -> bool {
    &&& after.dst_offset == before.dst_offset + before.buffer@.len()
    &&& after.dst_state == (if after.dst_offset >= before.meta.size {
        TargetHandleState::Written
    } else {
        TargetHandleState::PartialWritten
    })
    &&& after == (FileControlBlock {
        dst_offset: after.dst_offset,
        dst_state: after.dst_state,
        ..before
    })
}

/// A file whose whole buffer was written to its target.
pub fn write_target(fcb: FileControlBlock, outcome: Result<(), String>) -> (r: WriterBioResult)
    requires
        fcb.dst_offset + fcb.buffer@.len() <= u64::MAX,
    ensures
        match outcome {
            Ok(_) => r matches WriterBioResult::WriteTarget(Ok(f)) && has_written(fcb, f),
            Err(e) => r == WriterBioResult::WriteTarget(Err(BioError::Unknown(e))),
        },
{
    match outcome {
        Ok(_) => {
            let mut fcb = fcb;
            fcb.dst_offset = fcb.dst_offset + fcb.buffer.len() as u64;
            fcb.dst_state =
            if fcb.dst_offset >= fcb.meta.size {
                TargetHandleState::Written
            } else {
                TargetHandleState::PartialWritten
            };
            WriterBioResult::WriteTarget(Ok(fcb))
        },
        Err(e) => WriterBioResult::WriteTarget(Err(BioError::Unknown(e))),
    }
}

/// A file whose target was closed.
pub fn close_target(fcb: FileControlBlock) -> (r: WriterBioResult)
    ensures
        r == WriterBioResult::CloseTarget(
            Ok(FileControlBlock { dst_state: TargetHandleState::Closed, ..fcb }),
        ),
{
    let mut fcb = fcb;
    fcb.dst_state = TargetHandleState::Closed;
    WriterBioResult::CloseTarget(Ok(fcb))
}

/// What a worker of the writer does next with a file.
#[derive(Debug)]
pub enum WriterStep {
    /// The next part of the source is read.
    ReadOn(FileControlBlock),
    /// The buffer is written.
    Write(FileControlBlock),
    /// The task is over.
    Send(WriterBioResult),
}

/// Whether a file is read on after its buffer was written: neither side is at its end, and
/// the last read brought something.
pub open spec fn reads_on(f: FileControlBlock) -> bool {
    f.src_state == SourceHandleState::PartialRead && f.dst_state
        == TargetHandleState::PartialWritten && f.buffer@.len() > 0
}

/// What a worker does once a buffer was written: it reads on until the source is at its end
/// or brings nothing more. A file stays with one worker for all of its parts.
pub fn buffer_was_written(result: WriterBioResult) -> (r: WriterStep)
    ensures
        r == (match result {
            WriterBioResult::WriteTarget(Ok(f)) => if reads_on(f) {
                WriterStep::ReadOn(f)
            } else {
                WriterStep::Send(result)
            },
            _ => WriterStep::Send(result),
        }),
{
    match result {
        WriterBioResult::WriteTarget(Ok(f)) => {
            if f.src_state == SourceHandleState::PartialRead && f.dst_state
                == TargetHandleState::PartialWritten && f.buffer.len() > 0 {
                WriterStep::ReadOn(f)
            } else {
                WriterStep::Send(WriterBioResult::WriteTarget(Ok(f)))
            }
        },
        other => WriterStep::Send(other),
    }
}

/// What a worker does once it read on: it writes what came, and a read that failed ends the
/// task with its error.
pub fn part_was_read(fcb: FileControlBlock, outcome: Result<Vec<u8>, String>) -> (r: WriterStep)
    requires
        outcome matches Ok(data) ==> data@.len() <= request_len(fcb),
    ensures
        match outcome {
            Ok(data) => r matches WriterStep::Write(f) && f.wf() && has_read(fcb, data@, f),
            Err(e) => r == WriterStep::Send(WriterBioResult::WriteTarget(Err(BioError::Unknown(e)))),
        },
{
    match read_source(fcb, outcome) {
        ReaderBioResult::ReadSource(Ok(f)) => WriterStep::Write(f),
        ReaderBioResult::ReadSource(Err(e)) => WriterStep::Send(
            WriterBioResult::WriteTarget(Err(e)),
        ),
        _ => vstd::pervasive::unreached(),
    }
}

/// Counts a result of a target. A file that is written to its end counts as copied, with
/// the size that the scan recorded. One that was created, or did not come to its recorded
/// end, goes back to the writer.
pub fn spawn_writer_io_result_poll(result: WriterBioResult, stats: &mut BackupStats) -> (r:
    Option<FileControlBlock>)
    ensures
        follows_writer(result, *old(stats), *final(stats), r),
{
    match result {
        WriterBioResult::OpenTarget(Ok(f)) => {
            stats.inc_dst_opened();
            if f.dst_state == TargetHandleState::Written {
                stats.inc_files_copied();
                stats.add_bytes_copied(f.meta.size);
                None
            } else {
                Some(f)
            }
        },
        WriterBioResult::WriteTarget(Ok(f)) => {
            if f.dst_offset >= f.meta.size {
                stats.inc_files_copied();
                stats.add_bytes_copied(f.meta.size);
                None
            } else {
                Some(f)
            }
        },
        WriterBioResult::CloseTarget(Ok(_)) => {
            stats.inc_dst_closed();
            None
        },
        WriterBioResult::OpenTarget(Err(_)) | WriterBioResult::WriteTarget(Err(_))
        | WriterBioResult::CloseTarget(Err(_)) => {
            stats.inc_files_failed();
            None
        },
    }
}

// ---------------------------------------------------------------------------
// Laws
// ---------------------------------------------------------------------------

/// A file that fits into the buffer is copied by one read and one write: it is asked for
/// as a whole, and once that much was read and written, both sides are at their end with
/// the same bytes.
pub proof fn law_small_file_is_copied_at_once(
    start: FileControlBlock,
    data: Seq<u8>,
    read: FileControlBlock,
    written: FileControlBlock,
)
    requires
        start.src_offset == 0,
        start.dst_offset == 0,
        start.meta.size <= MAX_FILE_BUFFER_SIZE,
        data.len() == request_len(start),
        has_read(start, data, read),
        has_written(read, written),
    ensures
        data.len() == start.meta.size,
        read.src_state == SourceHandleState::Read,
        written.dst_state == TargetHandleState::Written,
        written.dst_offset == start.meta.size,
        written.buffer@ == data,
{
}

/// A regular file is opened once and its first buffer is read once: a fresh one is opened,
/// one that was opened is read, and any other needs nothing more from the reader.
pub proof fn law_reader_opens_and_reads(f: FileControlBlock)
    requires
        f.meta.common.symlink_target_path is None,
    ensures
        f.src_state == SourceHandleState::Inited ==> reader_route(
            ControlBlockVarient::FileControlBlock(f),
        ) == ReaderRoute::Task(ReaderBioTask::OpenSource(f)),
        f.src_state == SourceHandleState::Opened ==> reader_route(
            ControlBlockVarient::FileControlBlock(f),
        ) == ReaderRoute::Task(ReaderBioTask::ReadSource(f)),
        f.src_state != SourceHandleState::Inited && f.src_state != SourceHandleState::Opened
            ==> reader_route(ControlBlockVarient::FileControlBlock(f)) is Nothing,
{
}

/// One round of a file whose target is open: a buffer that is read and written. Both sides
/// move on by the same bytes. The file is read on exactly where it is not at its recorded
/// end and the read brought something.
pub proof fn law_part_follows_part(
    f: FileControlBlock,
    data: Seq<u8>,
    read: FileControlBlock,
    written: FileControlBlock,
)
    requires
        f.src_offset == f.dst_offset,
        has_read(f, data, read),
        has_written(read, written),
    ensures
        written.src_offset == written.dst_offset,
        written.dst_offset == f.dst_offset + data.len(),
        reads_on(written) <==> written.dst_offset < f.meta.size && data.len() > 0,
        written.dst_offset >= f.meta.size ==> written.src_state == SourceHandleState::Read
            && written.dst_state == TargetHandleState::Written,
{
}

/// One round of a file: what was read, the file with it in its buffer, and the file once
/// that was written.
pub struct Round {
    pub data: Seq<u8>,
    pub read: FileControlBlock,
    pub written: FileControlBlock,
}

/// The file after some rounds.
pub open spec fn after_rounds(start: FileControlBlock, rounds: Seq<Round>) -> FileControlBlock {
    if rounds.len() == 0 {
        start
    } else {
        rounds.last().written
    }
}

/// Whether the rounds of a file follow each other, and each reads the bytes of `content`
/// at the place where the source stands.
pub open spec fn rounds_of(
    start: FileControlBlock,
    rounds: Seq<Round>,
    content: Seq<u8>,
) -> bool
    decreases rounds.len(),
{
    if rounds.len() == 0 {
        true
    } else {
        let before = after_rounds(start, rounds.drop_last());
        let round = rounds.last();
        &&& rounds_of(start, rounds.drop_last(), content)
        &&& has_read(before, round.data, round.read)
        &&& has_written(round.read, round.written)
        &&& before.src_offset + round.data.len() <= content.len()
        &&& round.data == content.subrange(
            before.src_offset as int,
            before.src_offset + round.data.len(),
        )
    }
}

/// What the rounds have written, each at the place where the target stood: the file that
/// they leave behind.
pub open spec fn left_behind(start: FileControlBlock, rounds: Seq<Round>) -> Seq<u8>
    decreases rounds.len(),
{
    if rounds.len() == 0 {
        Seq::empty()
    } else {
        let earlier = left_behind(start, rounds.drop_last());
        let at = after_rounds(start, rounds.drop_last()).dst_offset as int;
        earlier.take(at) + rounds.last().read.buffer@
    }
}

/// However many rounds a file takes, the target holds the beginning of the source; once
/// the source was read to its end, it holds all of it.
pub proof fn law_parts_make_up_the_file(
    start: FileControlBlock,
    rounds: Seq<Round>,
    content: Seq<u8>,
)
    requires
        start.src_offset == 0,
        start.dst_offset == 0,
        rounds_of(start, rounds, content),
    ensures
        after_rounds(start, rounds).src_offset == after_rounds(start, rounds).dst_offset,
        after_rounds(start, rounds).dst_offset <= content.len(),
        left_behind(start, rounds) == content.take(after_rounds(start, rounds).dst_offset as int),
        after_rounds(start, rounds).dst_offset == content.len() ==> left_behind(start, rounds)
            == content,
    decreases rounds.len(),
{
    if rounds.len() > 0 {
        let front = rounds.drop_last();
        law_parts_make_up_the_file(start, front, content);
        let before = after_rounds(start, front);
        let round = rounds.last();
        let at = before.dst_offset as int;
        let end = at + round.data.len();
        assert(left_behind(start, front).take(at) =~= content.take(at));
        assert(content.take(at) + round.data =~= content.take(end));
    } else {
        assert(content.take(0) =~= Seq::empty());
    }
    let whole = after_rounds(start, rounds).dst_offset as int;
    if whole == content.len() {
        assert(content.take(whole) =~= content);
    }
}

/// A recorded path is read below the root of its source: what lies below the logical root is
/// found at the same place below the root, and any other path as a whole.
pub proof fn law_sources_are_read_below_their_root(
    root: Seq<char>,
    logical: Seq<char>,
    rel: Seq<char>,
)
    requires
        root.len() > 0,
        logical.len() > 0,
        paths::is_clean(rel),
    ensures
        source_path(root, logical, paths::join(root, rel)) == paths::join(root, rel),
        !paths::starts_with(paths::join(logical, rel), root) ==> source_path(
            root,
            logical,
            paths::join(logical, rel),
        ) == paths::join(root, rel),
        !paths::starts_with(seq!['/'] + rel, root) && !paths::starts_with(
            seq!['/'] + rel,
            logical,
        ) ==> source_path(root, logical, seq!['/'] + rel) == paths::join(root, rel),
{
    reveal_strlit("/");
    assert("/"@ =~= seq!['/']);
    paths::law_strip_undoes_join(root, rel);
    paths::law_strip_undoes_join(logical, rel);
    paths::law_leading_slash_is_stripped(rel);
}

/// The copy of a recorded path lies below the target at its whole path: what stands behind
/// the target is the path without its leading slash.
pub proof fn law_copies_keep_their_whole_path(target: Seq<char>, rel: Seq<char>)
    requires
        target.len() > 0,
        paths::is_clean(rel),
    ensures
        paths::strip_prefix(paths::join(target, without_root(seq!['/'] + rel)), target) == Some(
            rel,
        ),
        without_root(seq!['/'] + rel) == rel,
        !paths::is_absolute(rel) ==> without_root(rel) == rel,
{
    reveal_strlit("/");
    assert("/"@ =~= seq!['/']);
    paths::law_leading_slash_is_stripped(rel);
    paths::law_strip_undoes_join(target, rel);
    if !paths::is_absolute(rel) {
        paths::law_relative_path_has_no_root(rel);
    }
}

/// Files belong to the directory that was named last before them.
pub proof fn law_files_belong_to_the_directory_before(
    a: Seq<LocalEntry>,
    b: Seq<LocalEntry>,
    entry: LocalEntry,
)
    ensures
        entry matches LocalEntry::Dir { path, .. } ==> dir_of(a.push(entry)) == path@,
        entry is File ==> dir_of(a.push(entry)) == dir_of(a),
        (forall|i: int| 0 <= i < b.len() ==> (#[trigger] b[i]) is File) ==> dir_of(a + b)
            == dir_of(a),
    decreases b.len(),
{
    assert(a.push(entry).drop_last() =~= a);
    if b.len() == 0 {
        assert(a + b =~= a);
    } else if forall|i: int| 0 <= i < b.len() ==> (#[trigger] b[i]) is File {
        let front = b.drop_last();
        assert forall|i: int| 0 <= i < front.len() implies (#[trigger] front[i]) is File by {
            assert(b[i] is File);
        }
        law_files_belong_to_the_directory_before(a, front, entry);
        assert((a + b).drop_last() =~= a + front);
        assert((a + b).last() == b[b.len() - 1]);
    }
}

/// What has no content goes to the writer without being opened or read.
pub proof fn law_entries_without_content_are_handed_on(item: ControlBlockVarient)
    ensures
        reader_route(item) is ToWriter <==> match item {
            ControlBlockVarient::DirControlBlock(_) => true,
            ControlBlockVarient::FileControlBlock(f) => f.meta.common.symlink_target_path is Some,
        },
        reader_route(item) matches ReaderRoute::ToWriter(i) ==> i == item,
{
}

/// A target is created once, and only then written.
pub proof fn law_writer_creates_and_writes(item: ControlBlockVarient)
    ensures
        item matches ControlBlockVarient::DirControlBlock(d) ==> writer_route(item)
            == WriterRoute::CreateDir(d.dst_path),
        item matches ControlBlockVarient::FileControlBlock(f) ==> {
            &&& writer_route(item) == WriterRoute::Task(WriterBioTask::OpenTarget(f))
                <==> f.dst_state == TargetHandleState::Inited
            &&& writer_route(item) == WriterRoute::Task(WriterBioTask::WriteTarget(f))
                <==> f.dst_state == TargetHandleState::Opened
            &&& writer_route(item) is Nothing <==> f.dst_state != TargetHandleState::Inited
                && f.dst_state != TargetHandleState::Opened
        },
{
}

/// No more is asked for than is left of a file, nor than the buffer holds; and as much of it
/// as that allows.
pub proof fn law_requests_stay_in_the_file(f: FileControlBlock)
    ensures
        request_len(f) <= MAX_FILE_BUFFER_SIZE,
        f.src_offset <= f.meta.size ==> f.src_offset + request_len(f) <= f.meta.size,
        f.src_offset >= f.meta.size ==> request_len(f) == 0,
        f.src_offset < f.meta.size ==> request_len(f) == MAX_FILE_BUFFER_SIZE || f.src_offset
            + request_len(f) == f.meta.size,
{
}

/// A small file is collected once it was read, and a link, a directory, an empty file or one
/// over the threshold never is.
pub proof fn law_small_files_are_collected_once_read(
    item: ControlBlockVarient,
    config: AggregateConfig,
)
    ensures
        is_collected(item, config) <==> match item {
            ControlBlockVarient::DirControlBlock(_) => false,
            ControlBlockVarient::FileControlBlock(f) => config.enabled && f.meta.size > 0
                && f.meta.size < config.file_threshold && f.meta.common.symlink_target_path is None
                && f.src_state == SourceHandleState::Read,
        },
{
}

/// Whether `r` is the file that goes back to the writer, and `after` what becomes of the
/// counters.
pub open spec fn follows_writer(
    result: WriterBioResult,
    before: BackupStats,
    after: BackupStats,
    r: Option<FileControlBlock>,
) -> bool {
    match result {
        WriterBioResult::OpenTarget(Ok(f)) => {
            let opened = BackupStats {
                dst_opened: before.dst_opened.wrapping_add(1),
                ..before
            };
            if f.dst_state == TargetHandleState::Written {
                &&& r is None
                &&& after == crate::executor::one_copied(opened, f.meta.size)
            } else {
                &&& r == Some(f)
                &&& after == opened
            }
        },
        WriterBioResult::WriteTarget(Ok(f)) => if f.dst_offset >= f.meta.size {
            &&& r is None
            &&& after == crate::executor::one_copied(before, f.meta.size)
        } else {
            &&& r == Some(f)
            &&& after == before
        },
        WriterBioResult::CloseTarget(Ok(_)) => {
            &&& r is None
            &&& after == (BackupStats {
                dst_closed: before.dst_closed.wrapping_add(1),
                ..before
            })
        },
        _ => {
            &&& r is None
            &&& after == crate::executor::one_failed(before)
        },
    }
}

/// Whether `r` is where a file goes from the reader, and `after` what becomes of the counters.
pub open spec fn follows_reader(
    result: ReaderBioResult,
    aggregate: Option<&AggregateConfig>,
    before: BackupStats,
    after: BackupStats,
    r: ResultRoute,
) -> bool {
    match result {
        ReaderBioResult::OpenSource(Ok(f)) => {
            &&& r == ResultRoute::ToReader(f)
            &&& after == (BackupStats {
                src_opened: before.src_opened.wrapping_add(1),
                ..before
            })
        },
        ReaderBioResult::ReadSource(Ok(f)) => {
            &&& r == (if aggregate is Some && crate::aggregate::aggregates(
                f.meta.size,
                *aggregate->Some_0,
            ) && f.src_state == SourceHandleState::Read {
                ResultRoute::ToReader(f)
            } else {
                ResultRoute::ToWriter(f)
            })
            &&& after == before
        },
        ReaderBioResult::CloseSource(Ok(f)) => {
            &&& r == ResultRoute::ToWriter(f)
            &&& after == (BackupStats {
                src_closed: before.src_closed.wrapping_add(1),
                ..before
            })
        },
        _ => {
            &&& r is Nothing
            &&& after == crate::executor::one_failed(before)
        },
    }
}

/// Whether `r` is a file whose target was opened, or the failure to open it.
pub open spec fn opens_target(
    fcb: FileControlBlock,
    made: Result<(), String>,
    r: WriterBioResult,
) -> bool {
    match made {
        Ok(_) => r == WriterBioResult::OpenTarget(
            Ok(
                FileControlBlock {
                    dst_state: (if fcb.meta.common.symlink_target_path is Some {
                        TargetHandleState::Written
                    } else {
                        TargetHandleState::Opened
                    }),
                    ..fcb
                },
            ),
        ),
        Err(e) => r == WriterBioResult::OpenTarget(Err(BioError::Unknown(e))),
    }
}

/// Whether `r` is a file whose source was opened, or the failure to open it.
pub open spec fn opens_source(
    fcb: FileControlBlock,
    is_block_device: bool,
    opened: Result<(), String>,
    r: ReaderBioResult,
) -> bool {
    &&& is_block_device ==> (r matches ReaderBioResult::OpenSource(Err(BioError::Unknown(e)))
        && e@ == "Block device skipped"@)
    &&& !is_block_device ==> match opened {
        Ok(_) => r == ReaderBioResult::OpenSource(
            Ok(FileControlBlock { src_state: SourceHandleState::Opened, ..fcb }),
        ),
        Err(e) => r == ReaderBioResult::OpenSource(Err(BioError::Unknown(e))),
    }
}

/// Whether `after` are the counters once a blob was created, or failed to be.
pub open spec fn counts_created_blob(
    ok: bool,
    files: Seq<PendingFile>,
    before: BackupStats,
    after: BackupStats,
) -> bool {
    after == (if ok {
        BackupStats {
            files_copied: before.files_copied.wrapping_add(files.len() as u64),
            bytes_copied: before.bytes_copied.wrapping_add(total_bytes(files) as u64),
            ..before
        }
    } else {
        BackupStats {
            files_failed: before.files_failed.wrapping_add(files.len() as u64),
            ..before
        }
    })
}

/// A file counts as copied once, when its target holds all of it or its link was made, and any
/// failure on the target counts as one failed file. Everything else goes back to the writer.
pub proof fn law_written_files_count_once(
    result: WriterBioResult,
    before: BackupStats,
    after: BackupStats,
    r: Option<FileControlBlock>,
)
    requires
        follows_writer(result, before, after, r),
        before.files_copied < u64::MAX,
        before.files_failed < u64::MAX,
    ensures
        ({
            let failed = match result {
                WriterBioResult::OpenTarget(o) => o is Err,
                WriterBioResult::WriteTarget(o) => o is Err,
                WriterBioResult::CloseTarget(o) => o is Err,
            };
            let copied = match result {
                WriterBioResult::OpenTarget(Ok(f)) => f.dst_state == TargetHandleState::Written,
                WriterBioResult::WriteTarget(Ok(f)) => f.dst_offset >= f.meta.size,
                _ => false,
            };
            &&& failed <==> after.files_failed == before.files_failed + 1
            &&& !failed ==> after.files_failed == before.files_failed
            &&& copied <==> after.files_copied == before.files_copied + 1
            &&& !copied ==> after.files_copied == before.files_copied && after.bytes_copied
                == before.bytes_copied
            &&& failed || copied ==> r is None
            &&& r matches Some(f) ==> result == WriterBioResult::OpenTarget(Ok(f)) || result
                == WriterBioResult::WriteTarget(Ok(f))
            &&& before.dst_opened < u64::MAX ==> after.dst_opened - before.dst_opened == (
            if result is OpenTarget && !failed {
                1int
            } else {
                0int
            })
            &&& before.dst_closed < u64::MAX ==> after.dst_closed - before.dst_closed == (
            if result is CloseTarget && !failed {
                1int
            } else {
                0int
            })
            &&& copied && (result matches WriterBioResult::WriteTarget(Ok(f)) && before.bytes_copied
                + f.meta.size <= u64::MAX) ==> after.bytes_copied == before.bytes_copied
                + result->WriteTarget_0->Ok_0.meta.size
            &&& (result matches WriterBioResult::WriteTarget(Ok(f)) && f.dst_offset < f.meta.size)
                ==> r is Some
        }),
{
}

/// A file that was opened goes back to the reader. One that was read goes to the writer,
/// unless it is a small one that is collected and was read as a whole. A failure on the source
/// counts as one failed file and goes nowhere.
pub proof fn law_read_files_go_on(
    result: ReaderBioResult,
    aggregate: Option<&AggregateConfig>,
    before: BackupStats,
    after: BackupStats,
    r: ResultRoute,
)
    requires
        follows_reader(result, aggregate, before, after, r),
        before.files_failed < u64::MAX,
    ensures
        r is Nothing <==> after.files_failed == before.files_failed + 1,
        r is Nothing <==> match result {
            ReaderBioResult::OpenSource(o) => o is Err,
            ReaderBioResult::ReadSource(o) => o is Err,
            ReaderBioResult::CloseSource(o) => o is Err,
        },
        result matches ReaderBioResult::OpenSource(Ok(f)) ==> r == ResultRoute::ToReader(f),
        result matches ReaderBioResult::ReadSource(Ok(f)) ==> {
            &&& aggregate is None ==> r == ResultRoute::ToWriter(f)
            &&& f.src_state != SourceHandleState::Read ==> r == ResultRoute::ToWriter(f)
            &&& (aggregate matches Some(c) && c.enabled && 0 < f.meta.size < c.file_threshold
                && f.src_state == SourceHandleState::Read) ==> r == ResultRoute::ToReader(f)
            &&& (aggregate matches Some(c) && f.meta.size >= c.file_threshold) ==> r
                == ResultRoute::ToWriter(f)
        },
        after.files_copied == before.files_copied && after.bytes_copied == before.bytes_copied,
        before.src_opened < u64::MAX ==> after.src_opened - before.src_opened == (if result
            is OpenSource && !(r is Nothing) {
            1int
        } else {
            0int
        }),
        before.src_closed < u64::MAX ==> after.src_closed - before.src_closed == (if result
            is CloseSource && !(r is Nothing) {
            1int
        } else {
            0int
        }),
{
}

/// A target that was opened is written next, and a link is complete with that; the file itself
/// does not change. Block devices are never opened.
pub proof fn law_opened_files_are_read_and_written(
    f: FileControlBlock,
    device: bool,
    made: Result<(), String>,
    opened: Result<(), String>,
    w: WriterBioResult,
    r: ReaderBioResult,
)
    requires
        opens_target(f, made, w),
        opens_source(f, device, opened, r),
    ensures
        w matches WriterBioResult::OpenTarget(o) && (o is Ok <==> made is Ok),
        w matches WriterBioResult::OpenTarget(Ok(g)) ==> {
            &&& g.dst_state == TargetHandleState::Written
                <==> f.meta.common.symlink_target_path is Some
            &&& g.dst_state == TargetHandleState::Opened
                <==> f.meta.common.symlink_target_path is None
            &&& (g.src_path, g.dst_path, g.buffer, g.src_offset, g.dst_offset) == (
                f.src_path,
                f.dst_path,
                f.buffer,
                f.src_offset,
                f.dst_offset,
            )
        },
        r matches ReaderBioResult::OpenSource(o) && (o is Ok <==> opened is Ok && !device),
        r matches ReaderBioResult::OpenSource(Ok(g)) ==> g.src_state == SourceHandleState::Opened
            && (g.src_path, g.dst_path, g.src_offset, g.dst_offset) == (
            f.src_path,
            f.dst_path,
            f.src_offset,
            f.dst_offset,
        ),
{
}

/// The files of a blob count together, as copied with all their bytes or as failed.
pub proof fn law_created_blobs_count_their_files(
    ok: bool,
    files: Seq<PendingFile>,
    before: BackupStats,
    after: BackupStats,
)
    requires
        counts_created_blob(ok, files, before, after),
        before.files_copied + files.len() <= u64::MAX,
        before.files_failed + files.len() <= u64::MAX,
        before.bytes_copied + total_bytes(files) <= u64::MAX,
    ensures
        ok ==> after.files_copied == before.files_copied + files.len() && after.bytes_copied
            == before.bytes_copied + total_bytes(files) && after.files_failed
            == before.files_failed,
        !ok ==> after.files_failed == before.files_failed + files.len() && after.files_copied
            == before.files_copied && after.bytes_copied == before.bytes_copied,
{
}

/// A directory is created at its recorded path below the target, and a file is written in the
/// directory that it was recorded in, under its own name; both keep what was recorded of them.
pub proof fn law_entries_are_copied_to_their_recorded_path(
    block: ControlBlockVarient,
    entry: LocalEntry,
    dir: Seq<char>,
    source_root: Seq<char>,
    logical_root: Seq<char>,
    target_root: Seq<char>,
    rel: Seq<char>,
)
    requires
        is_block_of(block, entry, dir, source_root, logical_root, target_root),
        target_root.len() > 0,
        paths::is_clean(rel),
    ensures
        entry matches LocalEntry::Dir { path, dir_meta } ==> (
        block matches ControlBlockVarient::DirControlBlock(d) && *d.meta == dir_meta && (path@
            == seq!['/'] + rel ==> paths::strip_prefix(d.dst_path@, target_root) == Some(rel))),
        entry matches LocalEntry::File { name, file_meta } ==> (
        block matches ControlBlockVarient::FileControlBlock(f) && *f.meta == file_meta && (
        paths::is_name(name@) ==> paths::file_name(f.dst_path@) == Some(name@) && paths::file_name(
            f.src_path@,
        ) == Some(name@)) && f.src_offset == 0 && f.dst_offset == 0),
        (entry matches LocalEntry::File { name, .. } && paths::is_name(name@) && dir == seq!['/']
            + rel && paths::is_clean(paths::join(target_root, rel))) ==> (
        block matches ControlBlockVarient::FileControlBlock(f) && paths::parent(f.dst_path@) == Some(
            paths::join(target_root, rel),
        )),
{
    law_copies_keep_their_whole_path(target_root, rel);
    match entry {
        LocalEntry::File { name, .. } => {
            if paths::is_name(name@) {
                paths::law_joined_name_is_last(
                    source_path(source_root, logical_root, dir),
                    name@,
                );
                paths::law_joined_name_is_last(
                    paths::join(target_root, without_root(dir)),
                    name@,
                );
                if paths::is_clean(paths::join(target_root, rel)) {
                    paths::law_joined_name_lies_in_its_directory(
                        paths::join(target_root, rel),
                        name@,
                    );
                }
            }
        },
        _ => {},
    }
}

} // verus!
