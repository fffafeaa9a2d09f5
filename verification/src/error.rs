//! Error codes of system calls, and the errors of the file system below them.

use vstd::prelude::*;

verus! {

/// What a system call hands back: a number, or an error.
pub type SysResult = Result<isize, SysError>;

/// Why a system call failed.
#[derive(Clone, Copy, Debug, PartialEq, Eq, Structural)]
pub enum SysError {
    /// Invalid argument
    Inval,
    /// The file exists
    Exists,
    /// Not implemented
    Unimp,
    /// Is a directory
    Isdir,
    /// Not a directory
    Notdir,
    /// No such entry
    Noent,
    /// Cross-device link
    Xdev,
    /// Out of memory
    Nomem,
    /// The directory is not empty
    Notempty,
    /// Input/output error
    Io,
}

/// Why a file system operation failed.
#[derive(Clone, Copy, Debug, PartialEq, Eq, Structural)]
pub enum FsError {
    NotSupported,
    NotFile,
    IsDir,
    NotDir,
    EntryNotFound,
    EntryExist,
    NotSameFs,
    InvalidParam,
    NoDeviceSpace,
    DirRemoved,
    DirNotEmpty,
    WrongFs,
    DeviceError,
}

/// The system call error that reports the file system error `error`.
pub open spec fn sys_error(error: FsError) -> SysError {
    match error {
        FsError::NotSupported => SysError::Unimp,
        FsError::NotFile | FsError::IsDir => SysError::Isdir,
        FsError::NotDir => SysError::Notdir,
        FsError::EntryNotFound | FsError::DirRemoved => SysError::Noent,
        FsError::EntryExist => SysError::Exists,
        FsError::NotSameFs => SysError::Xdev,
        FsError::InvalidParam | FsError::WrongFs => SysError::Inval,
        FsError::NoDeviceSpace => SysError::Nomem,
        FsError::DirNotEmpty => SysError::Notempty,
        FsError::DeviceError => SysError::Io,
    }
}

impl From<FsError> for SysError {
    fn from(error: FsError) -> (ret: Self) {
        match error {
            FsError::NotSupported => SysError::Unimp,
            FsError::NotFile => SysError::Isdir,
            FsError::IsDir => SysError::Isdir,
            FsError::NotDir => SysError::Notdir,
            FsError::EntryNotFound => SysError::Noent,
            FsError::EntryExist => SysError::Exists,
            FsError::NotSameFs => SysError::Xdev,
            FsError::InvalidParam => SysError::Inval,
            FsError::NoDeviceSpace => SysError::Nomem,
            FsError::DirRemoved => SysError::Noent,
            FsError::DirNotEmpty => SysError::Notempty,
            FsError::WrongFs => SysError::Inval,
            FsError::DeviceError => SysError::Io,
        }
    }
}

impl vstd::std_specs::convert::FromSpecImpl<FsError> for SysError {
    open spec fn obeys_from_spec() -> bool {
        true
    }

    open spec fn from_spec(error: FsError) -> Self {
        sys_error(error)
    }
}

/// Which errors of the file system are reported as each error of a call; none is reported in any
/// other way.
pub proof fn law_error_reported(error: FsError, ret: SysError)
    requires
        call_ensures(<SysError as From<FsError>>::from, (error,), ret),
    ensures
        ret == sys_error(error),
        ret == SysError::Unimp <==> error == FsError::NotSupported,
        ret == SysError::Isdir <==> error == FsError::NotFile || error == FsError::IsDir,
        ret == SysError::Notdir <==> error == FsError::NotDir,
        ret == SysError::Noent <==> error == FsError::EntryNotFound || error == FsError::DirRemoved,
        ret == SysError::Exists <==> error == FsError::EntryExist,
        ret == SysError::Xdev <==> error == FsError::NotSameFs,
        ret == SysError::Inval <==> error == FsError::InvalidParam || error == FsError::WrongFs,
        ret == SysError::Nomem <==> error == FsError::NoDeviceSpace,
        ret == SysError::Notempty <==> error == FsError::DirNotEmpty,
        ret == SysError::Io <==> error == FsError::DeviceError,
{
}

} // verus!
