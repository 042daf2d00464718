//! What a scan records of files and directories, and the entries of control files.
use vstd::prelude::*;

verus! {

/// A copy of an optional string.
pub fn clone_text(s: &Option<String>) -> (r: Option<String>)
    ensures
        r == *s,
{
    match s {
        Some(t) => Some(t.clone()),
        None => None,
    }
}

/// Metadata that files and directories share. Times are seconds since the Unix epoch.
#[derive(Debug)]
pub struct MetaCommon {
    pub name: String,
    pub id: u64,
    pub devno: u64,
    pub mode: u32,
    pub atime: i64,
    pub mtime: i64,
    pub ctime: i64,
    pub xattributes: Option<String>,
    pub posix_access_acl: Option<String>,
    pub posix_default_acl: Option<String>,
    pub symlink_target_path: Option<String>,
}

impl Clone for MetaCommon {
    fn clone(&self) -> (r: Self)
        ensures
            r == *self,
    {
        MetaCommon {
            name: self.name.clone(),
            id: self.id,
            devno: self.devno,
            mode: self.mode,
            atime: self.atime,
            mtime: self.mtime,
            ctime: self.ctime,
            xattributes: clone_text(&self.xattributes),
            posix_access_acl: clone_text(&self.posix_access_acl),
            posix_default_acl: clone_text(&self.posix_default_acl),
            symlink_target_path: clone_text(&self.symlink_target_path),
        }
    }
}

impl Default for MetaCommon {
    fn default() -> (r: Self)
        ensures
            r.name@.len() == 0,
            r.id == 0 && r.devno == 0 && r.mode == 0,
            r.atime == 0 && r.mtime == 0 && r.ctime == 0,
            r.xattributes is None,
            r.posix_access_acl is None,
            r.posix_default_acl is None,
            r.symlink_target_path is None,
    {
        MetaCommon {
            name: String::new(),
            id: 0,
            devno: 0,
            mode: 0,
            atime: 0,
            mtime: 0,
            ctime: 0,
            xattributes: None,
            posix_access_acl: None,
            posix_default_acl: None,
            symlink_target_path: None,
        }
    }
}

/// Metadata of a file.
#[derive(Debug)]
pub struct FileMeta {
    pub common: MetaCommon,
    pub size: u64,
    pub links: u64,
    /// Offset and length of a range without data.
    pub sparse_range: Option<(u64, u64)>,
}

impl Clone for FileMeta {
    fn clone(&self) -> (r: Self)
        ensures
            r == *self,
    {
        FileMeta {
            common: self.common.clone(),
            size: self.size,
            links: self.links,
            sparse_range: self.sparse_range,
        }
    }
}

impl Default for FileMeta {
    fn default() -> (r: Self)
        ensures
            r.common.name@.len() == 0,
            r.common.id == 0 && r.common.devno == 0 && r.common.mode == 0,
            r.common.atime == 0 && r.common.mtime == 0 && r.common.ctime == 0,
            r.common.xattributes is None,
            r.common.posix_access_acl is None,
            r.common.posix_default_acl is None,
            r.common.symlink_target_path is None,
            r.size == 0 && r.links == 0,
            r.sparse_range is None,
    {
        FileMeta { common: MetaCommon::default(), size: 0, links: 0, sparse_range: None }
    }
}

/// Metadata of a directory.
#[derive(Debug)]
pub struct DirMeta {
    pub common: MetaCommon,
    pub path: String,
}

impl Clone for DirMeta {
    fn clone(&self) -> (r: Self)
        ensures
            r == *self,
    {
        DirMeta { common: self.common.clone(), path: self.path.clone() }
    }
}

/// How an entry differs from the previous scan.
#[derive(Debug, Clone, Copy, PartialEq, Eq, Structural)]
pub enum EntryDiff {
    New,
    Modified,
    Unchanged,
}

/// A directory line of a copy control file.
#[derive(Debug)]
pub struct DirEntry {
    pub path: String,
    pub diff: EntryDiff,
    pub meta_fid: u32,
    pub meta_offset: u32,
    pub files_count: u32,
}

/// A file line of a copy control file; the file lies in the directory named before it.
#[derive(Debug)]
pub struct FileEntry {
    pub name: String,
    pub diff: EntryDiff,
    pub meta_fid: u32,
    pub meta_offset: u32,
}

#[derive(Debug)]
pub enum ControlEntry {
    Dir(DirEntry),
    File(FileEntry),
}

} // verus!
