use fs_syscall::dirent::DIR_ENTRY_SIZE;
use fs_syscall::stat::STAT_SIZE;
use fs_syscall::{
    get_file, install_file, sys_close, sys_dup2, sys_fstat, sys_getdirentry, sys_lseek, sys_open,
    sys_read, sys_readv, sys_stat, sys_write, sys_writev, FileHandle, FileType, FsError, MemorySet,
    Metadata, OpenCall, OpenFlags, OpenOptions, OpenProgress, Process, SeekFrom, Stat, SysError,
    Timespec,
};

const READ_ONLY: OpenOptions = OpenOptions { read: true, write: false, append: false };

fn process() -> Process<u32> {
    let mut memory = MemorySet::new();
    assert!(memory.push(100, vec![1, 2, 3, 4], true));
    assert!(memory.push(200, b"a/b\0stdin:\0stdout:\0\xff\0".to_vec(), false));
    assert!(memory.push(1000, vec![0xaa; STAT_SIZE], true));
    assert!(memory.push(2000, vec![0; DIR_ENTRY_SIZE], true));
    let mut proc = Process::new(memory);
    assert_eq!(install_file(&mut proc, FileHandle::new(70, READ_ONLY)), Ok(3));
    proc
}

fn info(type_: FileType, size: usize) -> Metadata {
    let time = Timespec { sec: 1, nsec: 2 };
    Metadata {
        dev: 1,
        inode: 2,
        size,
        blk_size: 512,
        blocks: 1,
        atime: time,
        mtime: time,
        ctime: time,
        type_,
        mode: 0o644,
        nlinks: 1,
        uid: 0,
        gid: 0,
    }
}

#[test]
fn read_moves_bytes_to_memory() {
    let mut proc = process();
    let mut call = sys_read(&proc, 3, 100, 3).unwrap();
    assert_eq!((call.fd, call.base), (3, 100));
    assert_eq!(call.buf, vec![1, 2, 3]);
    call.buf[0] = 9;
    assert_eq!(call.complete(&mut proc, Ok(1)), Ok(1));
    assert_eq!(proc.memory_set.read(100, 4), vec![9, 2, 3, 4]);
}

#[test]
fn read_delivers_the_buffer_also_on_failure() {
    let mut proc = process();
    let mut call = sys_read(&proc, 3, 101, 2).unwrap();
    call.buf[1] = 8;
    assert_eq!(call.complete(&mut proc, Err(FsError::DeviceError)), Err(SysError::Io));
    assert_eq!(proc.memory_set.read(100, 4), vec![1, 2, 8, 4]);
}

#[test]
fn read_refuses_bad_arguments() {
    let proc = process();
    assert_eq!(sys_read(&proc, 3, 200, 1).err(), Some(SysError::Inval));
    assert_eq!(sys_read(&proc, 3, 102, 3).err(), Some(SysError::Inval));
    assert_eq!(sys_read(&proc, 4, 100, 1).err(), Some(SysError::Inval));
    assert!(sys_read(&proc, 3, 100, 0).is_ok());
}

#[test]
fn write_hands_out_bytes() {
    let proc = process();
    let call = sys_write(&proc, 3, 201, 2).unwrap();
    assert_eq!(call.fd, 3);
    assert_eq!(call.buf, b"/b".to_vec());
    assert_eq!(call.complete(Ok(2)), Ok(2));
    let call = sys_write(&proc, 3, 200, 1).unwrap();
    assert_eq!(call.complete(Err(FsError::NoDeviceSpace)), Err(SysError::Nomem));
    assert_eq!(sys_write(&proc, 3, 0, 1).err(), Some(SysError::Inval));
    assert_eq!(sys_write(&proc, 9, 100, 1).err(), Some(SysError::Inval));
}

#[test]
fn write_after_read_hands_out_what_was_read() {
    let mut proc = process();
    let mut call = sys_read(&proc, 3, 100, 4).unwrap();
    call.buf.copy_from_slice(&[4, 3, 2, 1]);
    assert_eq!(call.complete(&mut proc, Ok(4)), Ok(4));
    assert_eq!(sys_write(&proc, 3, 100, 4).unwrap().buf, vec![4, 3, 2, 1]);
}

fn with_iovs(proc: &mut Process<u32>, iovs: &[(u64, u64)]) {
    let mut table = Vec::new();
    for (base, len) in iovs {
        table.extend_from_slice(&base.to_le_bytes());
        table.extend_from_slice(&len.to_le_bytes());
    }
    assert!(proc.memory_set.push(5000, table, false));
}

#[test]
fn readv_fills_the_buffers() {
    let mut proc = process();
    with_iovs(&mut proc, &[(102, 2), (100, 1)]);
    let mut call = sys_readv(&proc, 3, 5000, 2).unwrap();
    assert_eq!(call.fd, 3);
    assert_eq!(call.buf.len(), 3);
    call.buf.copy_from_slice(&[7, 8, 9]);
    assert_eq!(call.complete(&mut proc, Ok(3)), Ok(3));
    assert_eq!(proc.memory_set.read(100, 4), vec![9, 2, 7, 8]);
    assert_eq!(sys_writev(&proc, 3, 5000, 2).unwrap().buf, vec![7, 8, 9]);
}

#[test]
fn readv_leaves_memory_alone_on_failure() {
    let mut proc = process();
    with_iovs(&mut proc, &[(100, 4)]);
    let mut call = sys_readv(&proc, 3, 5000, 1).unwrap();
    call.buf[0] = 99;
    assert_eq!(call.complete(&mut proc, Err(FsError::NotFile)), Err(SysError::Isdir));
    assert_eq!(proc.memory_set.read(100, 4), vec![1, 2, 3, 4]);
}

#[test]
fn readv_refuses_bad_arguments() {
    let mut proc = process();
    with_iovs(&mut proc, &[(200, 1)]);
    assert_eq!(sys_readv(&proc, 3, 5000, 1).err(), Some(SysError::Inval));
    assert_eq!(sys_readv(&proc, 3, 5000, 2).err(), Some(SysError::Inval));
    assert_eq!(sys_readv(&proc, 8, 5000, 0).err(), Some(SysError::Inval));
}

#[test]
fn writev_gathers_the_buffers() {
    let mut proc = process();
    with_iovs(&mut proc, &[(200, 3), (100, 2)]);
    let call = sys_writev(&proc, 3, 5000, 2).unwrap();
    assert_eq!(call.fd, 3);
    assert_eq!(call.buf, vec![b'a', b'/', b'b', 1, 2]);
    assert_eq!(call.complete(Ok(4)), Ok(4));
    assert_eq!(sys_writev(&proc, 4, 5000, 2).err(), Some(SysError::Inval));
    assert_eq!(sys_writev(&proc, 3, 5001, 2).err(), Some(SysError::Inval));
}

#[test]
fn lseek_names_the_position() {
    let proc = process();
    let cases = [
        (5, 1, SeekFrom::Start(5)),
        (-1, 1, SeekFrom::Start(u64::MAX)),
        (-5, 2, SeekFrom::Current(-5)),
        (-7, 4, SeekFrom::End(-7)),
    ];
    for (offset, whence, pos) in cases {
        let call = sys_lseek(&proc, 3, offset, whence).unwrap();
        assert_eq!((call.fd, call.pos), (3, pos));
        assert_eq!(call.complete(Ok(12)), Ok(12));
    }
    for whence in [0, 3, 5, 255] {
        assert_eq!(sys_lseek(&proc, 3, 0, whence).err(), Some(SysError::Inval));
    }
    assert_eq!(sys_lseek(&proc, 0, 0, 1).err(), Some(SysError::Inval));
    let call = sys_lseek(&proc, 3, 0, 1).unwrap();
    assert_eq!(call.complete(Err(FsError::InvalidParam)), Err(SysError::Inval));
}

#[test]
fn close_removes_the_file() {
    let mut proc = process();
    assert_eq!(sys_close(&mut proc, 3), Ok(0));
    assert!(!proc.has_file(3));
    assert_eq!(sys_close(&mut proc, 3), Err(SysError::Inval));
}

#[test]
fn dup2_copies_the_handle() {
    let mut proc = process();
    get_file(&mut proc, 3).unwrap().offset = 11;
    assert_eq!(sys_dup2(&mut proc, 3, 1), Ok(0));
    let copy = get_file(&mut proc, 1).unwrap();
    assert_eq!((copy.inode, copy.options, copy.offset), (70, READ_ONLY, 11));
    copy.offset = 12;
    assert_eq!(get_file(&mut proc, 3).unwrap().offset, 11);
    assert_eq!(sys_dup2(&mut proc, 3, 1), Err(SysError::Inval));
    assert_eq!(sys_dup2(&mut proc, 3, 3), Err(SysError::Inval));
    assert_eq!(sys_dup2(&mut proc, 9, 8), Err(SysError::Inval));
    assert!(!proc.has_file(8));
    assert_eq!(sys_close(&mut proc, 1), Ok(0));
    assert!(proc.has_file(3));
}

#[test]
fn get_file_finds_open_files() {
    let mut proc = process();
    assert_eq!(get_file(&mut proc, 3).unwrap().inode, 70);
    assert_eq!(get_file(&mut proc, 2).err(), Some(SysError::Inval));
}

#[test]
fn new_files_get_the_lowest_free_descriptor() {
    let mut proc = process();
    assert_eq!(install_file(&mut proc, FileHandle::new(71, READ_ONLY)), Ok(4));
    assert_eq!(install_file(&mut proc, FileHandle::new(72, READ_ONLY)), Ok(5));
    assert_eq!(sys_close(&mut proc, 4), Ok(0));
    assert_eq!(proc.free_fd(), Some(4));
    assert_eq!(install_file(&mut proc, FileHandle::new(73, READ_ONLY)), Ok(4));
    assert_eq!(get_file(&mut proc, 4).unwrap().inode, 73);
    assert_eq!(get_file(&mut proc, 5).unwrap().inode, 72);
    assert!(!proc.has_file(0));
}

fn ready(progress: Result<OpenProgress<u32>, SysError>) -> FileHandle<u32> {
    match progress {
        Ok(OpenProgress::Ready(file)) => file,
        _ => panic!("not ready"),
    }
}

fn ask(progress: Result<OpenProgress<u32>, SysError>) -> OpenCall<u32> {
    match progress {
        Ok(OpenProgress::Ask(call)) => call,
        _ => panic!("asks nothing"),
    }
}

#[test]
fn open_looks_up_a_path() {
    let proc = process();
    let call = sys_open(&proc, 200, OpenFlags::RDWR, 0).unwrap();
    match &call {
        OpenCall::Lookup { path, flags } => {
            assert_eq!(path, "a/b");
            assert_eq!(flags.bits, 2);
        }
        _ => panic!("other request"),
    }
    let file = ready(call.resume(Ok(5)));
    assert_eq!((file.inode, file.offset), (5, 0));
    assert_eq!(file.options, OpenOptions { read: true, write: true, append: false });
    let call = sys_open(&proc, 200, 0, 0).unwrap();
    assert_eq!(call.resume(Err(FsError::EntryNotFound)).err(), Some(SysError::Noent));
}

#[test]
fn open_knows_the_standard_streams() {
    let proc = process();
    let stdin = sys_open(&proc, 204, 0, 0).unwrap();
    assert!(matches!(stdin, OpenCall::Stdin { .. }));
    assert_eq!(ready(stdin.resume(Ok(90))).inode, 90);
    let stdout = sys_open(&proc, 211, 1, 0).unwrap();
    assert!(matches!(stdout, OpenCall::Stdout { .. }));
    assert!(ready(stdout.resume(Ok(91))).options.write);
    let create = sys_open(&proc, 204, OpenFlags::CREATE, 0).unwrap();
    assert!(matches!(create, OpenCall::LookupDir { .. }));
}

#[test]
fn open_creates_a_missing_file() {
    let mut proc = process();
    let flags = OpenFlags::CREATE | OpenFlags::EXCLUSIVE | OpenFlags::WRONLY | OpenFlags::APPEND;
    let call = sys_open(&proc, 200, flags, 0o644).unwrap();
    match &call {
        OpenCall::LookupDir { dir_path, file_name, mode, .. } => {
            assert_eq!((dir_path.as_str(), file_name.as_str(), *mode), ("a", "b", 0o644));
        }
        _ => panic!("other request"),
    }
    let call = ask(call.resume(Ok(1)));
    match &call {
        OpenCall::Find { dir, file_name, .. } => {
            assert_eq!((*dir, file_name.as_str()), (1, "b"));
        }
        _ => panic!("other request"),
    }
    let call = ask(call.resume(Err(FsError::EntryNotFound)));
    match &call {
        OpenCall::Create { dir, file_name, type_, mode, .. } => {
            assert_eq!((*dir, file_name.as_str(), *type_, *mode), (1, "b", FileType::File, 0o644));
        }
        _ => panic!("other request"),
    }
    let file = ready(call.resume(Ok(2)));
    assert_eq!(file.inode, 2);
    assert_eq!(file.options, OpenOptions { read: false, write: true, append: true });
    assert_eq!(install_file(&mut proc, file), Ok(4));
}

#[test]
fn open_refuses_an_existing_file_to_exclusive_calls() {
    let proc = process();
    let call = sys_open(&proc, 200, OpenFlags::CREATE | OpenFlags::EXCLUSIVE, 0).unwrap();
    let call = ask(call.resume(Ok(1)));
    assert_eq!(call.resume(Ok(2)).err(), Some(SysError::Exists));
    let call = sys_open(&proc, 200, OpenFlags::CREATE, 0).unwrap();
    let call = ask(call.resume(Ok(1)));
    assert_eq!(ready(call.resume(Ok(2))).inode, 2);
}

fn truncates(call: &OpenCall<u32>, file: u32) -> bool {
    matches!(call, OpenCall::Truncate { inode, .. } if *inode == file)
}

#[test]
fn open_empties_an_existing_file_before_it_is_ready() {
    let mut proc = process();
    let flags = OpenFlags::WRONLY | OpenFlags::TRUNCATE;
    let call = ask(sys_open(&proc, 200, flags, 0).unwrap().resume(Ok(5)));
    assert!(truncates(&call, 5));
    let file = ready(call.resume(Ok(5)));
    assert_eq!((file.inode, file.offset), (5, 0));
    assert_eq!(file.options, OpenOptions { read: false, write: true, append: false });
    assert_eq!(install_file(&mut proc, file), Ok(4));
}

#[test]
fn open_empties_an_existing_file_found_in_its_directory() {
    let proc = process();
    let flags = OpenFlags::CREATE | OpenFlags::TRUNCATE | OpenFlags::RDWR;
    let call = ask(sys_open(&proc, 200, flags, 0).unwrap().resume(Ok(1)));
    let call = ask(call.resume(Ok(2)));
    assert!(truncates(&call, 2));
    assert_eq!(ready(call.resume(Ok(2))).inode, 2);
}

#[test]
fn open_fails_where_a_file_cannot_be_emptied() {
    let proc = process();
    let flags = OpenFlags::WRONLY | OpenFlags::TRUNCATE;
    let call = ask(sys_open(&proc, 200, flags, 0).unwrap().resume(Ok(5)));
    assert_eq!(call.resume(Err(FsError::IsDir)).err(), Some(SysError::Isdir));
    let call = ask(sys_open(&proc, 200, flags, 0).unwrap().resume(Ok(5)));
    assert_eq!(call.resume(Err(FsError::EntryNotFound)).err(), Some(SysError::Noent));
}

#[test]
fn open_empties_a_file_in_every_access_mode() {
    let proc = process();
    for mode in 0..4 {
        let call = sys_open(&proc, 200, OpenFlags::TRUNCATE | mode, 0).unwrap();
        let call = ask(call.resume(Ok(5)));
        assert!(truncates(&call, 5));
        let file = ready(call.resume(Ok(5)));
        assert_eq!(file.options.read, mode == 0 || mode == 2);
        assert_eq!(file.options.write, mode == 1 || mode == 2);
    }
}

#[test]
fn open_empties_nothing_unasked() {
    let proc = process();
    for mode in 0..4 {
        let call = sys_open(&proc, 200, mode, 0).unwrap();
        assert_eq!(ready(call.resume(Ok(5))).inode, 5);
    }
    let flags = OpenFlags::CREATE | OpenFlags::TRUNCATE | OpenFlags::WRONLY;
    let call = ask(sys_open(&proc, 200, flags, 0).unwrap().resume(Ok(1)));
    let call = ask(call.resume(Err(FsError::EntryNotFound)));
    assert!(matches!(call, OpenCall::Create { .. }));
    assert_eq!(ready(call.resume(Ok(2))).inode, 2);
    let flags = OpenFlags::CREATE | OpenFlags::EXCLUSIVE | OpenFlags::TRUNCATE | OpenFlags::WRONLY;
    let call = ask(sys_open(&proc, 200, flags, 0).unwrap().resume(Ok(1)));
    assert_eq!(call.resume(Ok(2)).err(), Some(SysError::Exists));
    let call = sys_open(&proc, 211, OpenFlags::WRONLY | OpenFlags::TRUNCATE, 0).unwrap();
    assert_eq!(ready(call.resume(Ok(91))).inode, 91);
}

#[test]
fn open_reports_errors_of_the_file_system() {
    let proc = process();
    let call = sys_open(&proc, 200, OpenFlags::CREATE, 0).unwrap();
    assert_eq!(call.resume(Err(FsError::EntryNotFound)).err(), Some(SysError::Noent));
    let call = ask(sys_open(&proc, 200, OpenFlags::CREATE, 0).unwrap().resume(Ok(1)));
    assert_eq!(call.resume(Err(FsError::NotDir)).err(), Some(SysError::Notdir));
    let call = ask(sys_open(&proc, 200, OpenFlags::CREATE, 0).unwrap().resume(Ok(1)));
    let call = ask(call.resume(Err(FsError::EntryNotFound)));
    assert_eq!(call.resume(Err(FsError::EntryNotFound)).err(), Some(SysError::Noent));
}

#[test]
fn open_refuses_bad_paths() {
    let proc = process();
    assert_eq!(sys_open(&proc, 0, 0, 0).err(), Some(SysError::Inval));
    assert_eq!(sys_open(&proc, 100, 0, 0).err(), Some(SysError::Inval));
    assert_eq!(sys_open(&proc, 219, 0, 0).err(), Some(SysError::Inval));
}

#[test]
fn stat_stores_the_status() {
    let mut proc = process();
    let call = sys_stat(&proc, 200, 1000).unwrap();
    assert_eq!(call.path, "a/b");
    let call = call.found(Ok(6u32)).unwrap();
    assert_eq!(call.inode, 6);
    let info = info(FileType::Dir, 3);
    assert_eq!(call.complete(&mut proc, Ok(info)), Ok(0));
    assert_eq!(proc.memory_set.read(1000, STAT_SIZE), Stat::from(info).to_bytes());
}

#[test]
fn stat_reports_errors() {
    let mut proc = process();
    assert_eq!(sys_stat(&proc, 200, 1001).err(), Some(SysError::Inval));
    assert_eq!(sys_stat(&proc, 200, 200).err(), Some(SysError::Inval));
    assert_eq!(sys_stat(&proc, 100, 1000).err(), Some(SysError::Inval));
    let call = sys_stat(&proc, 200, 1000).unwrap();
    assert_eq!(call.found::<u32>(Err(FsError::EntryNotFound)).err(), Some(SysError::Noent));
    let call = sys_stat(&proc, 200, 1000).unwrap().found(Ok(6u32)).unwrap();
    assert_eq!(call.complete(&mut proc, Err(FsError::DirRemoved)), Err(SysError::Noent));
    assert_eq!(proc.memory_set.read(1000, STAT_SIZE), vec![0xaa; STAT_SIZE]);
}

#[test]
fn fstat_stores_the_status() {
    let mut proc = process();
    let call = sys_fstat(&proc, 3, 1000).unwrap();
    assert_eq!(call.fd, 3);
    let info = info(FileType::File, 77);
    assert_eq!(call.complete(&mut proc, Ok(info)), Ok(0));
    assert_eq!(proc.memory_set.read(1048, 8), 77u64.to_le_bytes().to_vec());
    assert_eq!(proc.memory_set.read(100, 4), vec![1, 2, 3, 4]);
    assert_eq!(sys_fstat(&proc, 4, 1000).err(), Some(SysError::Inval));
    assert_eq!(sys_fstat(&proc, 3, 100).err(), Some(SysError::Inval));
    let call = sys_fstat(&proc, 3, 1000).unwrap();
    assert_eq!(call.complete(&mut proc, Err(FsError::NotSupported)), Err(SysError::Unimp));
}

#[test]
fn getdirentry_walks_a_directory() {
    let mut proc = process();
    for (id, name) in ["x", "yy"].iter().enumerate() {
        let call = sys_getdirentry(&proc, 3, 2000).unwrap();
        let call = call.examined(Ok(info(FileType::Dir, 2))).unwrap();
        assert_eq!((call.fd, call.entry_id), (3, id));
        assert_eq!(call.complete(&mut proc, Ok(name.to_string())), Ok(0));
    }
    assert_eq!(proc.memory_set.read(2000, 8), vec![0, 2, 0, 0, b'y', b'y', 0, 0]);
    let call = sys_getdirentry(&proc, 3, 2000).unwrap();
    assert_eq!(call.examined(Ok(info(FileType::Dir, 2))).err(), Some(SysError::Inval));
}

#[test]
fn getdirentry_refuses_bad_arguments() {
    let mut proc = process();
    assert_eq!(sys_getdirentry(&proc, 3, 2001).err(), Some(SysError::Inval));
    assert_eq!(sys_getdirentry(&proc, 4, 2000).err(), Some(SysError::Inval));
    let call = sys_getdirentry(&proc, 3, 2000).unwrap();
    assert_eq!(call.examined(Ok(info(FileType::File, 2))).err(), Some(SysError::Inval));
    let call = sys_getdirentry(&proc, 3, 2000).unwrap();
    assert_eq!(call.examined(Err(FsError::DeviceError)).err(), Some(SysError::Io));
    let call = sys_getdirentry(&proc, 3, 2000).unwrap();
    let call = call.examined(Ok(info(FileType::Dir, 1))).unwrap();
    assert_eq!(call.complete(&mut proc, Err(FsError::EntryNotFound)), Err(SysError::Noent));
    assert_eq!(proc.memory_set.read(2000, 8), vec![0; 8]);
    proc.memory_set.write(2000, &[1]);
    assert_eq!(sys_getdirentry(&proc, 3, 2000).err(), Some(SysError::Inval));
}
