//! Local files that wait to be aggregated: known by their path, read when their blob is written.
use vstd::prelude::*;

use crate::aggregate::{total_bytes, Payload};
use crate::aggregate_engine::AggregateBackupEngine;
use crate::buckets::{
    added, bucket_files, drained, files_in, group_of, handed_groups, law_every_file_comes_out_once,
    waiting, BucketMap,
};
use crate::metadata::{clone_text, FileMeta};

verus! {

/// A local file that waits to be put into a blob.
#[derive(Debug)]
pub struct PendingLocalFile {
    pub relative_path: String,
    pub source_path: String,
    pub size: u64,
    pub ctime: u64,
    pub mtime: u64,
    pub mode: u32,
    pub xattrs: Option<String>,
    pub acl: Option<String>,
}

impl Payload for PendingLocalFile {
    open spec fn bytes(&self) -> nat {
        self.size as nat
    }

    fn byte_len(&self) -> (n: u64) {
        self.size
    }
}

/// The engine together with the local files that wait in its buckets.
pub struct LocalAggregateState {
    pub buffers: BucketMap<PendingLocalFile>,
    pub engine: AggregateBackupEngine,
}

impl LocalAggregateState {
    pub fn new(engine: AggregateBackupEngine) -> (r: Self)
        ensures
            r.engine == engine,
            r.buffers.wf(),
            r.buffers@ == Map::<Seq<char>, Seq<PendingLocalFile>>::empty(),
    {
        LocalAggregateState { buffers: BucketMap::new(), engine }
    }

    /// The pending file for a source file with the given metadata.
    pub fn pending_file_for_source(
        &self,
        relative_path: String,
        source_path: String,
        meta: &FileMeta,
    ) -> (r: PendingLocalFile)
        ensures
            r.relative_path == relative_path,
            r.source_path == source_path,
            r.size == meta.size,
            r.ctime == meta.common.ctime as u64,
            r.mtime == meta.common.mtime as u64,
            r.mode == meta.common.mode,
            r.xattrs == meta.common.xattributes,
            r.acl == meta.common.posix_access_acl,
    {
        PendingLocalFile {
            relative_path,
            source_path,
            size: meta.size,
            ctime: meta.common.ctime as u64,
            mtime: meta.common.mtime as u64,
            mode: meta.common.mode,
            xattrs: clone_text(&meta.common.xattributes),
            acl: clone_text(&meta.common.posix_access_acl),
        }
    }

    /// Adds a file to its bucket. Once the bucket holds `max_blob_size` bytes, it is
    /// handed out with all its files and is empty again.
    pub fn add_file(&mut self, relative_path: &str, file: PendingLocalFile) -> (r: Option<
        (String, Vec<PendingLocalFile>),
    >)
        requires
            old(self).buffers.wf(),
            total_bytes(
                old(self).buffers.pending(old(self).engine.bucket_key(relative_path@, file.size)),
            ) + file.size <= u64::MAX,
        ensures
            final(self).buffers.wf(),
            final(self).engine == old(self).engine,
            added(
                old(self).buffers@,
                old(self).engine.bucket_key(relative_path@, file.size),
                file,
                old(self).engine.config.max_blob_size,
                group_of(r),
                final(self).buffers@,
            ),
            r matches Some((key, _)) ==> key@ == old(self).engine.bucket_key(
                relative_path@,
                file.size,
            ),
    {
        let key = self.engine.bucket_key_for_relative_path(relative_path, file.size);
        let max_size: u64 = self.engine.config.max_blob_size;
        match self.buffers.add(key.as_str(), file, max_size) {
            Some(files) => Some((key, files)),
            None => None,
        }
    }

    /// Hands out every bucket that still has files.
    pub fn flush_all(&mut self) -> (out: Vec<(String, Vec<PendingLocalFile>)>)
        requires
            old(self).buffers.wf(),
        ensures
            final(self).buffers.wf(),
            final(self).engine == old(self).engine,
            drained(old(self).buffers@, out@, final(self).buffers@),
    {
        self.buffers.drain_all()
    }
}

/// Over a whole run every file comes out exactly once. `states` are the states before each
/// file is added and before the buckets are flushed; the engine may change in between. What the
/// calls of `add_file` and `flush_all` handed out holds each file that was added as often as
/// it was added, and no other; no group is empty, and nothing stays in a bucket.
pub proof fn law_every_local_file_comes_out_once(
    states: Seq<LocalAggregateState>,
    paths: Seq<Seq<char>>,
    files: Seq<PendingLocalFile>,
    outs: Seq<Option<(String, Vec<PendingLocalFile>)>>,
    rest: Seq<(String, Vec<PendingLocalFile>)>,
    end: LocalAggregateState,
)
    requires
        states.len() == files.len() + 1,
        paths.len() == files.len(),
        outs.len() == files.len(),
        states[0].buffers@ == Map::<Seq<char>, Seq<PendingLocalFile>>::empty(),
        forall|i: int|
            0 <= i < files.len() ==> added(
                states[i].buffers@,
                states[i].engine.bucket_key(paths[i], files[i].size),
                #[trigger] files[i],
                states[i].engine.config.max_blob_size,
                group_of(outs[i]),
                states[i + 1].buffers@,
            ),
        drained(states.last().buffers@, rest, end.buffers@),
    ensures
        files_in(handed_groups(outs)).add(files_in(bucket_files(rest))) == files.to_multiset(),
        forall|i: int|
            0 <= i < outs.len() ==> (#[trigger] outs[i] matches Some((_, group)) ==> group@.len()
                > 0),
        forall|n: int| 0 <= n < rest.len() ==> (#[trigger] rest[n]).1@.len() > 0,
        forall|k: Seq<char>| (#[trigger] waiting(end.buffers@, k)).len() == 0,
{
    let n = files.len();
    let buckets = Seq::new(n + 1, |i: int| states[i].buffers@);
    let keys = Seq::new(n, |i: int| states[i].engine.bucket_key(paths[i], files[i].size));
    let sizes = Seq::new(n, |i: int| states[i].engine.config.max_blob_size);
    let groups = Seq::new(n, |i: int| group_of(outs[i]));
    assert(groups =~= Seq::new(outs.len(), |i: int| group_of(outs[i])));
    assert forall|i: int| 0 <= i < n implies #[trigger] added(
        buckets[i],
        keys[i],
        files[i],
        sizes[i],
        groups[i],
        buckets[i + 1],
    ) by {
        assert(files[i] == files[i]);
    }
    law_every_file_comes_out_once(buckets, keys, files, sizes, groups, rest, end.buffers@);
    assert forall|i: int| 0 <= i < outs.len() implies (#[trigger] outs[i] matches Some((_, group))
        ==> group@.len() > 0) by {
        assert(added(buckets[i], keys[i], files[i], sizes[i], groups[i], buckets[i + 1]));
    }
}

} // verus!
