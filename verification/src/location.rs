//! Where data lies: on this machine, on an NFS server or on an SMB share.
use vstd::prelude::*;

verus! {

/// The kind of a location.
#[derive(Debug, Clone, Copy, PartialEq, Eq, Structural)]
pub enum LocationKind {
    Local,
    Nfs,
    Smb,
}

/// A location on a server.
#[derive(Debug)]
pub struct RemoteLocation {
    pub url: String,
    /// Path on the server below which the data lies.
    pub root: String,
    pub uid: u32,
    pub gid: u32,
    pub connection_count: usize,
}

impl Clone for RemoteLocation {
    fn clone(&self) -> (r: Self)
        ensures
            r == *self,
    {
        RemoteLocation {
            url: self.url.clone(),
            root: self.root.clone(),
            uid: self.uid,
            gid: self.gid,
            connection_count: self.connection_count,
        }
    }
}

#[derive(Debug)]
pub enum DataLocation {
    Local(String),
    Nfs(RemoteLocation),
    Smb(RemoteLocation),
}

impl Clone for DataLocation {
    fn clone(&self) -> (r: Self)
        ensures
            r == *self,
    {
        match self {
            DataLocation::Local(p) => DataLocation::Local(p.clone()),
            DataLocation::Nfs(l) => DataLocation::Nfs(l.clone()),
            DataLocation::Smb(l) => DataLocation::Smb(l.clone()),
        }
    }
}

impl DataLocation {
    pub open spec fn spec_kind(&self) -> LocationKind {
        match self {
            DataLocation::Local(_) => LocationKind::Local,
            DataLocation::Nfs(_) => LocationKind::Nfs,
            DataLocation::Smb(_) => LocationKind::Smb,
        }
    }

    pub fn kind(&self) -> (k: LocationKind)
        ensures
            k == self.spec_kind(),
    {
        match self {
            DataLocation::Local(_) => LocationKind::Local,
            DataLocation::Nfs(_) => LocationKind::Nfs,
            DataLocation::Smb(_) => LocationKind::Smb,
        }
    }

    pub open spec fn base(&self) -> String {
        match *self {
            DataLocation::Local(p) => p,
            DataLocation::Nfs(l) => l.root,
            DataLocation::Smb(l) => l.root,
        }
    }

    /// The path below which the data lies.
    pub fn base_path(&self) -> (p: String)
        ensures
            p == self.base(),
    {
        match self {
            DataLocation::Local(p) => p.clone(),
            DataLocation::Nfs(l) => l.root.clone(),
            DataLocation::Smb(l) => l.root.clone(),
        }
    }
}

/// The base of a location is the path that it stands for: the local one, or the one on the
/// server.
pub proof fn law_base_is_the_path(p: String, l: RemoteLocation)
    ensures
        DataLocation::Local(p).base() == p,
        DataLocation::Nfs(l).base() == l.root,
        DataLocation::Smb(l).base() == l.root,
        DataLocation::Local(p).spec_kind() != DataLocation::Nfs(l).spec_kind(),
        DataLocation::Nfs(l).spec_kind() != DataLocation::Smb(l).spec_kind(),
        DataLocation::Smb(l).spec_kind() != DataLocation::Local(p).spec_kind(),
{
}

} // verus!
