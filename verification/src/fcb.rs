//! Control blocks: the state of one file or directory on its way through a pipeline.
use vstd::prelude::*;

use crate::metadata::{DirMeta, FileMeta};

verus! {

/// Most bytes of a file that are held at once (4 MiB). A larger file is read and written in
/// parts.
pub const MAX_FILE_BUFFER_SIZE: usize = 4_194_304;

/// How far the source of a file has been read.
#[derive(Debug, Clone, Copy, PartialEq, Eq, Structural)]
pub enum SourceHandleState {
    /// Not opened yet.
    Inited,
    /// Opened, nothing read yet.
    Opened,
    /// Read to its end.
    Read,
    /// Read in part.
    PartialRead,
    Closed,
}

/// How far the target of a file has been written.
#[derive(Debug, Clone, Copy, PartialEq, Eq, Structural)]
pub enum TargetHandleState {
    /// Not created yet.
    Inited,
    /// Created, nothing written yet.
    Opened,
    /// Written in part.
    PartialWritten,
    /// Written to its end.
    Written,
    Closed,
}

/// One file on its way from source to target.
#[derive(Debug)]
pub struct FileControlBlock {
    pub meta: Box<FileMeta>,
    pub buffer: Vec<u8>,
    /// How many bytes of `buffer` are data.
    pub buffer_len: usize,
    pub src_state: SourceHandleState,
    pub dst_state: TargetHandleState,
    pub src_path: String,
    pub dst_path: String,
    /// Bytes read so far.
    pub src_offset: u64,
    /// Bytes written so far.
    pub dst_offset: u64,
}

/// One directory that is to be created.
#[derive(Debug)]
pub struct DirControlBlock {
    pub meta: Box<DirMeta>,
    pub src_path: String,
    pub dst_path: String,
}

#[derive(Debug)]
pub enum ControlBlockVarient {
    FileControlBlock(FileControlBlock),
    DirControlBlock(DirControlBlock),
}

impl FileControlBlock {
    /// The data lies inside the buffer.
    pub open spec fn wf(&self) -> bool {
        self.buffer_len <= self.buffer@.len()
    }
}

impl From<FileMeta> for FileControlBlock {
    /// A block at the very start: no data, nothing read or written, no paths yet.
    fn from(fmeta: FileMeta) -> (r: Self)
        ensures
            *r.meta == fmeta,
            r.wf(),
            r.buffer@.len() == 0,
            r.buffer_len == 0,
            r.src_state == SourceHandleState::Inited,
            r.dst_state == TargetHandleState::Inited,
            r.src_path@.len() == 0,
            r.dst_path@.len() == 0,
            r.src_offset == 0,
            r.dst_offset == 0,
    {
        FileControlBlock {
            meta: Box::new(fmeta),
            buffer: Vec::new(),
            buffer_len: 0,
            src_state: SourceHandleState::Inited,
            dst_state: TargetHandleState::Inited,
            src_path: String::new(),
            dst_path: String::new(),
            src_offset: 0,
            dst_offset: 0,
        }
    }
}

impl vstd::std_specs::convert::FromSpecImpl<FileMeta> for FileControlBlock {
    open spec fn obeys_from_spec() -> bool {
        false
    }

    open spec fn from_spec(v: FileMeta) -> Self {
        arbitrary()
    }
}

impl From<DirMeta> for DirControlBlock {
    /// A block without paths.
    fn from(dmeta: DirMeta) -> (r: Self)
        ensures
            *r.meta == dmeta,
            r.src_path@.len() == 0,
            r.dst_path@.len() == 0,
    {
        DirControlBlock {
            meta: Box::new(dmeta),
            src_path: String::new(),
            dst_path: String::new(),
        }
    }
}

impl vstd::std_specs::convert::FromSpecImpl<DirMeta> for DirControlBlock {
    open spec fn obeys_from_spec() -> bool {
        false
    }

    open spec fn from_spec(v: DirMeta) -> Self {
        arbitrary()
    }
}

} // verus!
