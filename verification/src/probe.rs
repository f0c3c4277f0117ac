//! The uniform metadata record of a tree node.
use vstd::prelude::*;

verus! {

/// What a tree node is, as seen without following a terminal symbolic link.
#[derive(Clone, Copy, Debug, PartialEq, Eq, Structural)]
pub enum FileKind {
    Regular,
    Directory,
    Symlink,
    Other,
}

/// The bits of a mode that say what a node is.
pub const KIND_MASK: u32 = 0o170000;

/// The kind bits of a regular file.
pub const KIND_REGULAR: u32 = 0o100000;

/// The kind bits of a directory.
pub const KIND_DIRECTORY: u32 = 0o040000;

/// The kind bits of a symbolic link.
pub const KIND_SYMLINK: u32 = 0o120000;

/// What the mode of a node says that the node is.
pub open spec fn kind_of(mode: u32) -> FileKind {
    if mode & KIND_MASK == KIND_REGULAR {
        FileKind::Regular
    } else if mode & KIND_MASK == KIND_DIRECTORY {
        FileKind::Directory
    } else if mode & KIND_MASK == KIND_SYMLINK {
        FileKind::Symlink
    } else {
        FileKind::Other
    }
}

impl FileKind {
    /// Reads the kind of a node from its mode.
    pub fn from_mode(mode: u32) -> (kind: FileKind)
        ensures
            kind == kind_of(mode),
    {
        let bits = mode & KIND_MASK;
        if bits == KIND_REGULAR {
            FileKind::Regular
        } else if bits == KIND_DIRECTORY {
            FileKind::Directory
        } else if bits == KIND_SYMLINK {
            FileKind::Symlink
        } else {
            FileKind::Other
        }
    }
}

/// The metadata of one tree node.
///
/// `kind` describes the node itself: a symbolic link stays a symbolic link
/// here, whatever it points to.
#[derive(Clone, Copy, Debug, PartialEq, Eq, Structural)]
pub struct MetadataRecord {
    pub device_id: u64,
    pub inode: u64,
    pub size: u64,
    pub kind: FileKind,
    pub mode: u32,
    pub uid: u32,
    pub gid: u32,
}

impl MetadataRecord {
    /// The pair that identifies the underlying file on this machine.
    pub open spec fn identity(self) -> (u64, u64) {
        (self.device_id, self.inode)
    }

    /// Whether two records describe the same underlying file.
    pub fn same_file(&self, other: &MetadataRecord) -> (same: bool)
        ensures
            same == (self.identity() == other.identity()),
    {
        self.device_id == other.device_id && self.inode == other.inode
    }
}

} // verus!
