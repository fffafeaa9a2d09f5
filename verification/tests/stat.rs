use fs_syscall::stat::STAT_SIZE;
use fs_syscall::{FileType, Metadata, Stat, StatMode, Timespec};

fn info() -> Metadata {
    Metadata {
        dev: 1,
        inode: 2,
        size: 0x0102,
        blk_size: 4096,
        blocks: 3,
        atime: Timespec { sec: 10, nsec: 11 },
        mtime: Timespec { sec: -1, nsec: -2 },
        ctime: Timespec { sec: 30, nsec: 31 },
        type_: FileType::File,
        mode: 0o644,
        nlinks: 5,
        uid: 6,
        gid: 7,
    }
}

#[test]
fn types_have_their_bits() {
    let cases = [
        (FileType::File, StatMode::FILE),
        (FileType::Dir, StatMode::DIR),
        (FileType::SymLink, StatMode::LINK),
        (FileType::CharDevice, StatMode::CHAR),
        (FileType::BlockDevice, StatMode::BLOCK),
        (FileType::Socket, StatMode::SOCKET),
        (FileType::NamedPipe, StatMode::FIFO),
        (FileType::Unknown, StatMode::NULL),
    ];
    for (type_, bits) in cases {
        assert_eq!(StatMode::from_type_mode(type_, 0).bits, bits);
        assert_eq!(StatMode::from_type_mode(type_, 0o755).bits, bits | 0o755);
    }
}

#[test]
fn permission_bits_are_kept_but_for_the_sticky_one() {
    assert_eq!(StatMode::from_type_mode(FileType::Unknown, 0o7777).bits, 0o6777);
    assert_eq!(StatMode::from_type_mode(FileType::Unknown, 0xffff).bits, 0o176777);
    assert_eq!(StatMode::from_bits_truncate(u32::MAX).bits, StatMode::ALL);
    let full = StatMode::from_type_mode(FileType::File, 0o7777);
    assert_eq!(full.bits & StatMode::TYPE_MASK, StatMode::FILE);
}

#[test]
fn status_reports_the_metadata() {
    let stat = Stat::from(info());
    assert_eq!(stat.dev, 1);
    assert_eq!(stat.ino, 2);
    assert_eq!(stat.nlink, 5);
    assert_eq!(stat.mode.bits, 0o100644);
    assert_eq!(stat.uid, 6);
    assert_eq!(stat.gid, 7);
    assert_eq!(stat._pad0, 0);
    assert_eq!(stat.rdev, 0);
    assert_eq!(stat.size, 0x0102);
    assert_eq!(stat.blksize, 4096);
    assert_eq!(stat.blocks, 3);
    assert_eq!(stat.atime, Timespec { sec: 10, nsec: 11 });
    assert_eq!(stat.mtime, Timespec { sec: -1, nsec: -2 });
    assert_eq!(stat.ctime, Timespec { sec: 30, nsec: 31 });
}

#[test]
fn wide_mode_keeps_its_low_bits() {
    let stat = Stat::from(Metadata { mode: 0x1_0000 | 0o600, ..info() });
    assert_eq!(stat.mode.bits, 0o100600);
}

#[test]
fn record_has_each_field_at_its_place() {
    let bytes = Stat::from(info()).to_bytes();
    assert_eq!(bytes.len(), STAT_SIZE);
    assert_eq!(&bytes[0..8], &1u64.to_le_bytes());
    assert_eq!(&bytes[8..16], &2u64.to_le_bytes());
    assert_eq!(&bytes[16..24], &5u64.to_le_bytes());
    assert_eq!(&bytes[24..28], &0o100644u32.to_le_bytes());
    assert_eq!(&bytes[28..32], &6u32.to_le_bytes());
    assert_eq!(&bytes[32..36], &7u32.to_le_bytes());
    assert_eq!(&bytes[36..40], &[0; 4]);
    assert_eq!(&bytes[40..48], &[0; 8]);
    assert_eq!(&bytes[48..56], &0x0102u64.to_le_bytes());
    assert_eq!(&bytes[56..64], &4096u64.to_le_bytes());
    assert_eq!(&bytes[64..72], &3u64.to_le_bytes());
    assert_eq!(&bytes[72..80], &10i64.to_le_bytes());
    assert_eq!(&bytes[80..84], &11i32.to_le_bytes());
    assert_eq!(&bytes[88..96], &(-1i64).to_le_bytes());
    assert_eq!(&bytes[96..100], &(-2i32).to_le_bytes());
    assert_eq!(&bytes[104..112], &30i64.to_le_bytes());
    assert_eq!(&bytes[112..116], &31i32.to_le_bytes());
}
