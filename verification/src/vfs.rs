//! What the file system tells about files, and the handles of open files.

use vstd::prelude::*;

use crate::flags::OpenOptions;

verus! {

/// What kind of thing an inode is.
#[derive(Clone, Copy, Debug, PartialEq, Eq, Structural)]
pub enum FileType {
    File,
    Dir,
    SymLink,
    CharDevice,
    BlockDevice,
    NamedPipe,
    Socket,
    /// Anything the other kinds do not describe
    Unknown,
}

/// A point in time.
#[derive(Clone, Copy, Debug, PartialEq, Eq, Structural)]
pub struct Timespec {
    /// seconds since the epoch
    pub sec: i64,
    /// nanoseconds within the second
    pub nsec: i32,
}

/// What the file system knows of an inode.
#[derive(Clone, Copy, Debug, PartialEq, Eq, Structural)]
pub struct Metadata {
    /// device
    pub dev: usize,
    /// inode number
    pub inode: usize,
    /// size in bytes, or number of entries of a directory
    pub size: usize,
    /// size of a block
    pub blk_size: usize,
    /// number of blocks
    pub blocks: usize,
    /// last access
    pub atime: Timespec,
    /// last modification
    pub mtime: Timespec,
    /// last status change
    pub ctime: Timespec,
    /// kind of inode
    pub type_: FileType,
    /// permission bits
    pub mode: u32,
    /// number of hard links
    pub nlinks: usize,
    /// owner
    pub uid: usize,
    /// group
    pub gid: usize,
}

/// A position in a file, relative to one of its marks.
#[derive(Clone, Copy, Debug, PartialEq, Eq, Structural)]
pub enum SeekFrom {
    /// so many bytes from the start
    Start(u64),
    /// so many bytes from the end
    End(i64),
    /// so many bytes from the current position
    Current(i64),
}

/// An open file: the inode behind it, what it may be used for, and the position in it.
#[derive(Debug)]
pub struct FileHandle<N> {
    pub inode: N,
    pub options: OpenOptions,
    pub offset: u64,
}

impl<N> FileHandle<N> {
    /// The handle of a file just opened.
    pub open spec fn opened(inode: N, options: OpenOptions) -> FileHandle<N> {
        FileHandle { inode, options, offset: 0 }
    }

    /// Opens `inode` at its start.
    pub fn new(inode: N, options: OpenOptions) -> (handle: FileHandle<N>)
        ensures
            handle == FileHandle::opened(inode, options),
    {
        FileHandle { inode, options, offset: 0 }
    }
}

impl<N: Clone> Clone for FileHandle<N> {
    fn clone(&self) -> (copy: Self)
        ensures
            cloned(self.inode, copy.inode),
            copy.options == self.options,
            copy.offset == self.offset,
    {
        FileHandle { inode: self.inode.clone(), options: self.options, offset: self.offset }
    }
}

/// A file just opened stands at its start, and may be used as its options say; a copy of a handle
/// stands where the handle stands.
pub proof fn law_handles<N: Clone>(
    inode: N,
    options: OpenOptions,
    handle: FileHandle<N>,
    copy: FileHandle<N>,
)
    requires
        call_ensures(FileHandle::<N>::new, (inode, options), handle),
        call_ensures(<FileHandle<N> as Clone>::clone, (&handle,), copy),
    ensures
        handle.inode == inode,
        handle.options == options,
        handle.offset == 0,
        cloned(inode, copy.inode),
        copy.options == options,
        copy.offset == 0,
{
}

} // verus!
