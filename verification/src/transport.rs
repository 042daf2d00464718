//! Reading and writing files block by block: what is asked of a file, and what a block
//! looks like afterwards.
use vstd::prelude::*;

use crate::copy_block::CopyBlock;
use crate::paths;

verus! {

/// 1 MiB.
pub const DEFAULT_COPY_BUFFER_SIZE: usize = 1_048_576;

/// 256 KiB.
pub const MIN_COPY_BUFFER_SIZE: usize = 262_144;

/// 4 MiB.
pub const MAX_COPY_BUFFER_SIZE: usize = 4_194_304;

pub open spec fn clamped_buffer_size(size: usize) -> usize {
    if size < MIN_COPY_BUFFER_SIZE {
        MIN_COPY_BUFFER_SIZE
    } else if size > MAX_COPY_BUFFER_SIZE {
        MAX_COPY_BUFFER_SIZE
    } else {
        size
    }
}

/// A buffer size within the accepted range.
pub fn clamp_copy_buffer_size(size: usize) -> (r: usize)
    ensures
        r == clamped_buffer_size(size),
{
    if size < MIN_COPY_BUFFER_SIZE {
        MIN_COPY_BUFFER_SIZE
    } else if size > MAX_COPY_BUFFER_SIZE {
        MAX_COPY_BUFFER_SIZE
    } else {
        size
    }
}

/// How many bytes are asked for at `offset` of a file of the given size: what is left of
/// it, but no more than `max_len` and, where something is left, at least one.
pub open spec fn chunk_len(offset: u64, expected_size: u64, max_len: usize) -> nat {
    let remaining = if expected_size > offset {
        (expected_size - offset) as nat
    } else {
        0
    };
    let most: nat = if max_len == 0 {
        1
    } else {
        max_len as nat
    };
    if remaining < most {
        remaining
    } else {
        most
    }
}

pub fn chunk_len_of(offset: u64, expected_size: u64, max_len: usize) -> (n: usize)
    ensures
        n == chunk_len(offset, expected_size, max_len),
{
    let remaining: u64 = expected_size.saturating_sub(offset);
    let most: usize = if max_len == 0 {
        1
    } else {
        max_len
    };
    if remaining < most as u64 {
        remaining as usize
    } else {
        most
    }
}

/// `offset` moved on by `n` bytes; it stays at the largest number beyond that.
pub open spec fn advanced(offset: u64, n: nat) -> u64 {
    if offset + n > u64::MAX {
        u64::MAX
    } else {
        (offset + n) as u64
    }
}

/// A block after `data` was read for it.
pub open spec fn is_read_into(before: CopyBlock, data: Seq<u8>, after: CopyBlock) -> bool {
    &&& after.src_offset == advanced(before.src_offset, data.len())
    &&& after.is_last == (after.src_offset >= before.file_size)
    &&& after.data@ == data
    &&& after.meta == before.meta
    &&& after.src_path == before.src_path
    &&& after.dst_path == before.dst_path
    &&& after.dst_offset == before.dst_offset
    &&& after.file_size == before.file_size
}

/// A block after its data was written.
pub open spec fn is_written_from(before: CopyBlock, after: CopyBlock) -> bool {
    &&& after.dst_offset == advanced(before.dst_offset, before.data@.len())
    &&& after.meta == before.meta
    &&& after.src_path == before.src_path
    &&& after.dst_path == before.dst_path
    &&& after.src_offset == before.src_offset
    &&& after.file_size == before.file_size
    &&& after.data == before.data
    &&& after.is_last == before.is_last
}

/// Takes the data that was read for a block.
pub fn accept_read(block: CopyBlock, data: Vec<u8>) -> (r: CopyBlock)
    ensures
        is_read_into(block, data@, r),
{
    let mut out = block;
    out.src_offset = out.src_offset.saturating_add(data.len() as u64);
    out.is_last = out.src_offset >= out.file_size;
    out.data = data;
    out
}

/// Takes note that the data of a block was written.
pub fn accept_write(block: CopyBlock) -> (r: CopyBlock)
    ensures
        is_written_from(block, r),
{
    let mut out = block;
    let n: u64 = out.data.len() as u64;
    out.dst_offset = out.dst_offset.saturating_add(n);
    out
}

/// A stretch of a file that is to be read.
#[derive(Debug)]
pub struct ReadRequest {
    pub path: String,
    pub offset: u64,
    pub len: usize,
}

/// A stretch of a file that is to be written.
#[derive(Debug)]
pub struct WriteRequest {
    pub path: String,
    pub offset: u64,
    /// The file starts anew.
    pub truncate: bool,
    /// The file has a range without data.
    pub mark_sparse: bool,
}

/// Files of this machine as a source.
#[derive(Debug, Clone, Copy)]
pub struct LocalSource {
    pub buffer_size: usize,
}

impl LocalSource {
    /// What is to be read next for a block.
    pub fn request(&self, block: &CopyBlock) -> (r: ReadRequest)
        ensures
            r.path == block.src_path,
            r.offset == block.src_offset,
            r.len == chunk_len(
                block.src_offset,
                block.file_size,
                clamped_buffer_size(self.buffer_size),
            ),
    {
        let max_len: usize = clamp_copy_buffer_size(self.buffer_size);
        ReadRequest {
            path: block.src_path.clone(),
            offset: block.src_offset,
            len: chunk_len_of(block.src_offset, block.file_size, max_len),
        }
    }
}

/// Files of this machine as a target.
#[derive(Debug)]
pub struct LocalTarget {
    pub base: String,
}

impl LocalTarget {
    /// Where a directory is created.
    pub fn dir_path(&self, path: &str) -> (s: String)
        ensures
            s@ == paths::join(self.base@, path@),
    {
        paths::join_path(self.base.as_str(), path)
    }

    /// What is to be written for a block. The first block of a file replaces what was
    /// there.
    pub fn request(&self, block: &CopyBlock) -> (r: WriteRequest)
        ensures
            r.path@ == paths::join(self.base@, block.dst_path@),
            r.offset == block.dst_offset,
            r.truncate == (block.dst_offset == 0),
            r.mark_sparse == (block.meta.sparse_range is Some && block.dst_offset == 0),
    {
        WriteRequest {
            path: paths::join_path(self.base.as_str(), block.dst_path.as_str()),
            offset: block.dst_offset,
            truncate: block.dst_offset == 0,
            mark_sparse: block.meta.sparse_range.is_some() && block.dst_offset == 0,
        }
    }
}

/// Whether a block has moved the first bytes of `content`, and nothing else, into
/// `written`.
pub open spec fn moved_prefix(block: CopyBlock, content: Seq<u8>, written: Seq<u8>) -> bool {
    &&& block.file_size == content.len()
    &&& block.src_offset == block.dst_offset
    &&& block.src_offset <= content.len()
    &&& written == content.take(block.src_offset as int)
}

/// Moving the next stretch of a file keeps its target a prefix of it; once the block is
/// read and written to the end, the target is the whole file.
pub proof fn law_copy_moves_the_file(
    start: CopyBlock,
    read: CopyBlock,
    done: CopyBlock,
    content: Seq<u8>,
    written: Seq<u8>,
    n: nat,
)
    requires
        moved_prefix(start, content, written),
        start.src_offset + n <= content.len(),
        is_read_into(start, content.subrange(start.src_offset as int, start.src_offset + n), read),
        is_written_from(read, done),
    ensures
        moved_prefix(done, content, written + read.data@),
        done.is_read() && done.is_written() ==> written + read.data@ == content,
        n > 0 ==> done.src_offset > start.src_offset,
{
    assert(content.take(start.src_offset + n) =~= content.take(start.src_offset as int)
        + content.subrange(start.src_offset as int, start.src_offset + n));
    assert(content.take(content.len() as int) =~= content);
}

/// Buffers lie between a quarter of a MiB and four of them; sizes within are kept, and a
/// larger size never yields a smaller buffer.
pub proof fn law_buffers_stay_within_bounds(a: usize, b: usize)
    ensures
        262_144 <= clamped_buffer_size(a) <= 4_194_304,
        262_144 <= a <= 4_194_304 ==> clamped_buffer_size(a) == a,
        a < 262_144 ==> clamped_buffer_size(a) == 262_144,
        a > 4_194_304 ==> clamped_buffer_size(a) == 4_194_304,
        a <= b ==> clamped_buffer_size(a) <= clamped_buffer_size(b),
{
}

/// A read never goes beyond the end of the file nor beyond what it may bring; it brings
/// something as long as something is left, and all that is left where that fits.
pub proof fn law_chunks_stay_in_the_file(offset: u64, size: u64, max_len: usize)
    ensures
        chunk_len(offset, size, max_len) == 0 <==> offset >= size,
        offset < size ==> offset + chunk_len(offset, size, max_len) <= size,
        max_len > 0 ==> chunk_len(offset, size, max_len) <= max_len,
        max_len == 0 ==> chunk_len(offset, size, max_len) <= 1,
        offset < size && size - offset <= max_len ==> chunk_len(offset, size, max_len) == size
            - offset,
        offset < size && size - offset > max_len && max_len > 0 ==> chunk_len(
            offset,
            size,
            max_len,
        ) == max_len,
{
}

/// A block moves on by exactly what was read for it and written from it, and nothing else of
/// it changes.
pub proof fn law_blocks_move_on(
    before: CopyBlock,
    data: Seq<u8>,
    read: CopyBlock,
    written: CopyBlock,
)
    requires
        is_read_into(before, data, read),
        is_written_from(read, written),
        before.src_offset + data.len() <= u64::MAX,
        before.dst_offset + data.len() <= u64::MAX,
    ensures
        read.data@ == data,
        read.src_offset == before.src_offset + data.len(),
        read.dst_offset == before.dst_offset,
        written.dst_offset == before.dst_offset + data.len(),
        written.src_offset == read.src_offset,
        read.is_last <==> before.src_offset + data.len() >= before.file_size,
        (written.src_path, written.dst_path, written.file_size, written.meta) == (
            before.src_path,
            before.dst_path,
            before.file_size,
            before.meta,
        ),
{
}

} // verus!
