//! The file system calls of a small kernel: what `read`, `write`, `open`, `stat` and their
//! relatives check, decide and leave behind, over the memory and the open files of a process.
//!
//! The file system itself lies outside. A call that needs it returns a value that says what is
//! to be done, and that value takes the outcome to its end.

pub mod dirent;
pub mod endian;
pub mod error;
pub mod flags;
pub mod iovec;
pub mod memory;
pub mod path;
pub mod process;
pub mod stat;
pub mod syscall;
pub mod vfs;

pub use crate::dirent::DirEntry;
pub use crate::error::{FsError, SysError, SysResult};
pub use crate::flags::{OpenFlags, OpenOptions};
pub use crate::iovec::{IoVec, IoVecs};
pub use crate::memory::MemorySet;
pub use crate::process::{get_file, Process};
pub use crate::stat::{Stat, StatMode};
pub use crate::syscall::descriptor::{sys_close, sys_dup2};
pub use crate::syscall::directory::{sys_getdirentry, DirEntryCall, EntryNameCall};
pub use crate::syscall::open::{install_file, sys_open, OpenCall, OpenProgress};
pub use crate::syscall::seek::{sys_lseek, SeekCall};
pub use crate::syscall::status::{sys_fstat, sys_stat, FstatCall, InodeStatCall, StatCall};
pub use crate::syscall::transfer::{sys_read, sys_write, ReadCall, WriteCall};
pub use crate::syscall::vectored::{sys_readv, sys_writev, ReadvCall, WritevCall};
pub use crate::vfs::{FileHandle, FileType, Metadata, SeekFrom, Timespec};
