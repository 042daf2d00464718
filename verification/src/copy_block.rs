//! The unit of transfer between a source and a target: a stretch of a file with its data.
use std::sync::Arc;

use vstd::prelude::*;

use crate::fcb::{FileControlBlock, SourceHandleState, TargetHandleState};
use crate::metadata::FileMeta;

verus! {

#[derive(Debug)]
pub struct CopyBlock {
    pub meta: Arc<FileMeta>,
    pub src_path: String,
    pub dst_path: String,
    /// Bytes of the file that were read so far.
    pub src_offset: u64,
    /// Bytes of the file that were written so far.
    pub dst_offset: u64,
    pub file_size: u64,
    pub data: Vec<u8>,
    pub is_last: bool,
}

impl CopyBlock {
    pub open spec fn is_read(&self) -> bool {
        self.src_offset >= self.file_size
    }

    pub open spec fn is_written(&self) -> bool {
        self.dst_offset >= self.file_size
    }

    /// The block that stands for a control block; the file size is that of its metadata.
    pub fn from_fcb(fcb: FileControlBlock) -> (r: Self)
        ensures
            *r.meta == *fcb.meta,
            r.src_path == fcb.src_path,
            r.dst_path == fcb.dst_path,
            r.src_offset == fcb.src_offset,
            r.dst_offset == fcb.dst_offset,
            r.file_size == fcb.meta.size,
            r.data == fcb.buffer,
            r.is_last == (fcb.src_offset >= fcb.meta.size),
    {
        let meta = Arc::new((*fcb.meta).clone());
        let file_size: u64 = meta.size;
        CopyBlock {
            meta,
            src_path: fcb.src_path,
            dst_path: fcb.dst_path,
            src_offset: fcb.src_offset,
            dst_offset: fcb.dst_offset,
            file_size,
            data: fcb.buffer,
            is_last: fcb.src_offset >= file_size,
        }
    }

    /// The control block that stands for a block; all of its buffer is data.
    pub fn into_fcb(self) -> (r: FileControlBlock)
        ensures
            *r.meta == *self.meta,
            r.src_path == self.src_path,
            r.dst_path == self.dst_path,
            r.src_offset == self.src_offset,
            r.dst_offset == self.dst_offset,
            r.buffer == self.data,
            r.buffer_len == self.data@.len(),
            r.wf(),
            r.src_state == (if self.is_read() {
                SourceHandleState::Read
            } else {
                SourceHandleState::PartialRead
            }),
            r.dst_state == (if self.is_written() {
                TargetHandleState::Written
            } else {
                TargetHandleState::PartialWritten
            }),
    {
        let mut fcb = FileControlBlock::from((*self.meta).clone());
        let buffer_len: usize = self.data.len();
        fcb.src_path = self.src_path;
        fcb.dst_path = self.dst_path;
        fcb.src_offset = self.src_offset;
        fcb.dst_offset = self.dst_offset;
        fcb.buffer_len = buffer_len;
        fcb.buffer = self.data;
        fcb.src_state =
        if self.src_offset >= self.file_size {
            SourceHandleState::Read
        } else {
            SourceHandleState::PartialRead
        };
        fcb.dst_state =
        if self.dst_offset >= self.file_size {
            TargetHandleState::Written
        } else {
            TargetHandleState::PartialWritten
        };
        fcb
    }

    pub fn data_len(&self) -> (n: usize)
        ensures
            n == self.data@.len(),
    {
        self.data.len()
    }

    /// Drops the data and keeps everything else.
    pub fn clear_data(&mut self)
        ensures
            final(self).data@.len() == 0,
            final(self).meta == old(self).meta,
            final(self).src_path == old(self).src_path,
            final(self).dst_path == old(self).dst_path,
            final(self).src_offset == old(self).src_offset,
            final(self).dst_offset == old(self).dst_offset,
            final(self).file_size == old(self).file_size,
            final(self).is_last == old(self).is_last,
    {
        self.data.clear();
    }

    pub fn read_complete(&self) -> (r: bool)
        ensures
            r == self.is_read(),
    {
        self.src_offset >= self.file_size
    }

    pub fn write_complete(&self) -> (r: bool)
        ensures
            r == self.is_written(),
    {
        self.dst_offset >= self.file_size
    }
}

} // verus!
