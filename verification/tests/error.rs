use fs_syscall::{FsError, SysError};

#[test]
fn file_system_errors_have_system_call_errors() {
    let pairs = [
        (FsError::NotSupported, SysError::Unimp),
        (FsError::NotFile, SysError::Isdir),
        (FsError::IsDir, SysError::Isdir),
        (FsError::NotDir, SysError::Notdir),
        (FsError::EntryNotFound, SysError::Noent),
        (FsError::EntryExist, SysError::Exists),
        (FsError::NotSameFs, SysError::Xdev),
        (FsError::InvalidParam, SysError::Inval),
        (FsError::NoDeviceSpace, SysError::Nomem),
        (FsError::DirRemoved, SysError::Noent),
        (FsError::DirNotEmpty, SysError::Notempty),
        (FsError::WrongFs, SysError::Inval),
        (FsError::DeviceError, SysError::Io),
    ];
    for (fs, sys) in pairs {
        assert_eq!(SysError::from(fs), sys);
    }
}
