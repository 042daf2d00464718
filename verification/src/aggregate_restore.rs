//! Reading files back out of blobs, with the blobs kept in memory once they were read.
use vstd::prelude::*;
use vstd::hash_map::StringHashMap;

use crate::paths;
use crate::text;

verus! {

#[derive(Debug)]
pub enum AggregateRestoreError {
    Io(String),
    Other(String),
}

impl AggregateRestoreError {
    pub open spec fn text(self) -> Seq<char> {
        match self {
            AggregateRestoreError::Io(e) => "IO error: "@ + e@,
            AggregateRestoreError::Other(e) => e@,
        }
    }

    /// The message shown to users.
    pub fn message(&self) -> (s: String)
        ensures
            s@ == self.text(),
    {
        match self {
            AggregateRestoreError::Io(e) => text::concat("IO error: ", e.as_str()),
            AggregateRestoreError::Other(e) => e.clone(),
        }
    }
}

#[derive(Debug, Clone, Copy, PartialEq, Eq, Structural)]
pub struct AggregateRestoreStats {
    pub blobs_read: u64,
    pub cache_hits: u64,
    pub cache_misses: u64,
}

impl Default for AggregateRestoreStats {
    fn default() -> (r: Self)
        ensures
            r == (AggregateRestoreStats { blobs_read: 0, cache_hits: 0, cache_misses: 0 }),
    {
        AggregateRestoreStats { blobs_read: 0, cache_hits: 0, cache_misses: 0 }
    }
}

/// The message for a stretch that does not lie inside its blob.
pub open spec fn out_of_blob(offset: u64, size: u64, len: nat) -> Seq<char> {
    "offset "@ + text::decimal(offset as nat) + " + size "@ + text::decimal(size as nat)
        + " exceeds blob size "@ + text::decimal(len)
}

/// What reading a stretch of a blob returns.
pub open spec fn sliced(
    data: Seq<u8>,
    offset: u64,
    size: u64,
    r: Result<Vec<u8>, AggregateRestoreError>,
) -> bool {
    if offset + size <= data.len() {
        r matches Ok(v) && v@ == data.subrange(offset as int, offset + size)
    } else {
        r matches Err(AggregateRestoreError::Other(m)) && m@ == out_of_blob(
            offset,
            size,
            data.len(),
        )
    }
}

/// The stretch of a blob that starts at `offset` and is `size` bytes long.
pub fn slice_blob(blob_data: &[u8], offset: u64, size: u64) -> (r: Result<
    Vec<u8>,
    AggregateRestoreError,
>)
    requires
        offset + size <= u64::MAX,
    ensures
        sliced(blob_data@, offset, size, r),
{
    let end: u64 = offset + size;
    let len: u64 = blob_data.len() as u64;
    if end <= len {
        let part = vstd::slice::slice_subrange(blob_data, offset as usize, end as usize);
        Ok(vstd::slice::slice_to_vec(part))
    } else {
        let mut m = text::copy_of("offset ");
        m.append(text::decimal_string(offset).as_str());
        m.append(" + size ");
        m.append(text::decimal_string(size).as_str());
        m.append(" exceeds blob size ");
        m.append(text::decimal_string(len).as_str());
        Err(AggregateRestoreError::Other(m))
    }
}

/// What a read of a blob comes to before the blob is loaded.
#[derive(Debug)]
pub enum BlobRead {
    /// The blob was in memory.
    Ready(Result<Vec<u8>, AggregateRestoreError>),
    /// The blob is to be loaded from this path, and then handed to `complete_read`.
    Load(String),
}

/// Reads from the blobs below one directory.
pub struct AggregateRestoreEngine {
    source_base: String,
    blob_cache: StringHashMap<Vec<u8>>,
    stats: AggregateRestoreStats,
}

impl AggregateRestoreEngine {
    pub closed spec fn base(&self) -> Seq<char> {
        self.source_base@
    }

    pub closed spec fn counters(&self) -> AggregateRestoreStats {
        self.stats
    }

    /// The blobs in memory by their path.
    pub closed spec fn cache(&self) -> Map<Seq<char>, Seq<u8>> {
        Map::new(|k: Seq<char>| self.blob_cache@.contains_key(k), |k: Seq<char>| self.blob_cache@[k]@)
    }

    pub fn new(source_base: String) -> (r: Result<Self, AggregateRestoreError>)
        ensures
            r is Ok,
            r->Ok_0.base() == source_base@,
            r->Ok_0.cache() == Map::<Seq<char>, Seq<u8>>::empty(),
            r->Ok_0.counters() == (AggregateRestoreStats {
                blobs_read: 0,
                cache_hits: 0,
                cache_misses: 0,
            }),
    {
        let r = AggregateRestoreEngine {
            source_base,
            blob_cache: StringHashMap::new(),
            stats: AggregateRestoreStats::default(),
        };
        assert(r.cache() =~= Map::<Seq<char>, Seq<u8>>::empty());
        Ok(r)
    }

    /// Reads a stretch of a blob that is in memory, or tells where to load it from.
    pub fn read_from_blob(&mut self, blob_rel_path: &str, offset: u64, size: u64) -> (r: BlobRead)
        requires
            offset + size <= u64::MAX,
            old(self).counters().cache_hits < u64::MAX,
        ensures
            final(self).base() == old(self).base(),
            final(self).cache() == old(self).cache(),
            ({
                let path = paths::join(old(self).base(), blob_rel_path@);
                match r {
                    BlobRead::Ready(out) => {
                        &&& old(self).cache().contains_key(path)
                        &&& sliced(old(self).cache()[path], offset, size, out)
                        &&& final(self).counters() == (AggregateRestoreStats {
                            cache_hits: (old(self).counters().cache_hits + 1) as u64,
                            ..old(self).counters()
                        })
                    },
                    BlobRead::Load(p) => {
                        &&& !old(self).cache().contains_key(path)
                        &&& p@ == path
                        &&& final(self).counters() == old(self).counters()
                    },
                }
            }),
    {
        let key = paths::join_path(self.source_base.as_str(), blob_rel_path);
        match self.blob_cache.get(key.as_str()) {
            Some(data) => {
                let out = slice_blob(data.as_slice(), offset, size);
                self.stats.cache_hits = self.stats.cache_hits + 1;
                assert(self.cache() =~= old(self).cache());
                BlobRead::Ready(out)
            },
            None => BlobRead::Load(key),
        }
    }

    /// Takes a blob that was loaded and reads the stretch that was asked for.
    pub fn complete_read(
        &mut self,
        blob_rel_path: &str,
        blob_data: Vec<u8>,
        offset: u64,
        size: u64,
    ) -> (r: Result<Vec<u8>, AggregateRestoreError>)
        requires
            offset + size <= u64::MAX,
            old(self).counters().cache_misses < u64::MAX,
            old(self).counters().blobs_read < u64::MAX,
        ensures
            final(self).base() == old(self).base(),
            final(self).cache() == old(self).cache().insert(
                paths::join(old(self).base(), blob_rel_path@),
                blob_data@,
            ),
            final(self).counters() == (AggregateRestoreStats {
                blobs_read: (old(self).counters().blobs_read + 1) as u64,
                cache_misses: (old(self).counters().cache_misses + 1) as u64,
                ..old(self).counters()
            }),
            sliced(blob_data@, offset, size, r),
    {
        let key = paths::join_path(self.source_base.as_str(), blob_rel_path);
        let out = slice_blob(blob_data.as_slice(), offset, size);
        self.blob_cache.insert(key, blob_data);
        self.stats.cache_misses = self.stats.cache_misses + 1;
        self.stats.blobs_read = self.stats.blobs_read + 1;
        assert(self.cache() =~= old(self).cache().insert(
            paths::join(old(self).base(), blob_rel_path@),
            blob_data@,
        ));
        out
    }

    pub fn stats(&self) -> (r: AggregateRestoreStats)
        ensures
            r == self.counters(),
    {
        self.stats
    }
}

/// A stretch that lies inside its blob is read as a whole, and no other is read at all.
pub proof fn law_stretches_are_read_as_a_whole(
    front: Seq<u8>,
    file: Seq<u8>,
    back: Seq<u8>,
    offset: u64,
    size: u64,
    r: Result<Vec<u8>, AggregateRestoreError>,
)
    requires
        sliced(front + file + back, offset, size, r),
    ensures
        offset == front.len() && size == file.len() ==> (r matches Ok(v) && v@ == file),
        r is Ok <==> offset + size <= front.len() + file.len() + back.len(),
        r matches Ok(v) ==> v@.len() == size,
        r matches Err(e) ==> e is Other && e.text() == out_of_blob(
            offset,
            size,
            front.len() + file.len() + back.len(),
        ),
{
    let data = front + file + back;
    if offset == front.len() && size == file.len() {
        assert(data.subrange(offset as int, offset + size) =~= file);
    }
}

} // verus!
