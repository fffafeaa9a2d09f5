//! The status record that `stat` and `fstat` leave in user memory.

use vstd::prelude::*;

use crate::endian;
use crate::vfs::{FileType, Metadata, Timespec};

verus! {

/// File type and mode
#[derive(Clone, Copy, Debug, PartialEq, Eq, Structural)]
pub struct StatMode {
    pub bits: u32,
}

impl StatMode {
    pub const NULL: u32 = 0;
    /// Type
    pub const TYPE_MASK: u32 = 0o170000;
    /// FIFO
    pub const FIFO: u32 = 0o010000;
    /// character device
    pub const CHAR: u32 = 0o020000;
    /// directory
    pub const DIR: u32 = 0o040000;
    /// block device
    pub const BLOCK: u32 = 0o060000;
    /// ordinary regular file
    pub const FILE: u32 = 0o100000;
    /// symbolic link
    pub const LINK: u32 = 0o120000;
    /// socket
    pub const SOCKET: u32 = 0o140000;
    /// Set-user-ID on execution.
    pub const SET_UID: u32 = 0o4000;
    /// Set-group-ID on execution.
    pub const SET_GID: u32 = 0o2000;
    /// Read, write, execute/search by owner.
    pub const OWNER_MASK: u32 = 0o700;
    /// Read permission, owner.
    pub const OWNER_READ: u32 = 0o400;
    /// Write permission, owner.
    pub const OWNER_WRITE: u32 = 0o200;
    /// Execute/search permission, owner.
    pub const OWNER_EXEC: u32 = 0o100;
    /// Read, write, execute/search by group.
    pub const GROUP_MASK: u32 = 0o70;
    /// Read permission, group.
    pub const GROUP_READ: u32 = 0o40;
    /// Write permission, group.
    pub const GROUP_WRITE: u32 = 0o20;
    /// Execute/search permission, group.
    pub const GROUP_EXEC: u32 = 0o10;
    /// Read, write, execute/search by others.
    pub const OTHER_MASK: u32 = 0o7;
    /// Read permission, others.
    pub const OTHER_READ: u32 = 0o4;
    /// Write permission, others.
    pub const OTHER_WRITE: u32 = 0o2;
    /// Execute/search permission, others.
    pub const OTHER_EXEC: u32 = 0o1;
    /// Every bit that has a meaning
    pub const ALL: u32 = 0o176777;

    /// The type bits of a kind of file.
    pub open spec fn type_bits(type_: FileType) -> u32 {
        match type_ {
            FileType::File => StatMode::FILE,
            FileType::Dir => StatMode::DIR,
            FileType::SymLink => StatMode::LINK,
            FileType::CharDevice => StatMode::CHAR,
            FileType::BlockDevice => StatMode::BLOCK,
            FileType::Socket => StatMode::SOCKET,
            FileType::NamedPipe => StatMode::FIFO,
            FileType::Unknown => StatMode::NULL,
        }
    }

    /// The mode of a file of the given type and permission bits.
    pub open spec fn of_type_mode(type_: FileType, mode: u16) -> StatMode {
        StatMode { bits: StatMode::type_bits(type_) | (mode as u32 & StatMode::ALL) }
    }

    /// The mode that `bits` stands for; bits without a meaning are dropped.
    pub fn from_bits_truncate(bits: u32) -> (mode: StatMode)
        ensures
            mode.bits == bits & StatMode::ALL,
    {
        StatMode { bits: bits & StatMode::ALL }
    }

    /// The mode of a file of the given type and permission bits.
    pub fn from_type_mode(type_: FileType, mode: u16) -> (full: StatMode)
        ensures
            full == StatMode::of_type_mode(type_, mode),
    {
        let kind: u32 = match type_ {
            FileType::File => StatMode::FILE,
            FileType::Dir => StatMode::DIR,
            FileType::SymLink => StatMode::LINK,
            FileType::CharDevice => StatMode::CHAR,
            FileType::BlockDevice => StatMode::BLOCK,
            FileType::Socket => StatMode::SOCKET,
            FileType::NamedPipe => StatMode::FIFO,
            FileType::Unknown => StatMode::NULL,
        };
        let permissions = StatMode::from_bits_truncate(mode as u32);
        StatMode { bits: kind | permissions.bits }
    }
}

/// The mask keeps exactly the bits of the named modes.
pub proof fn law_all_modes()
    ensures
        StatMode::ALL == StatMode::NULL | StatMode::TYPE_MASK | StatMode::FIFO | StatMode::CHAR
            | StatMode::DIR | StatMode::BLOCK | StatMode::FILE | StatMode::LINK | StatMode::SOCKET
            | StatMode::SET_UID | StatMode::SET_GID | StatMode::OWNER_MASK | StatMode::OWNER_READ
            | StatMode::OWNER_WRITE | StatMode::OWNER_EXEC | StatMode::GROUP_MASK
            | StatMode::GROUP_READ | StatMode::GROUP_WRITE | StatMode::GROUP_EXEC
            | StatMode::OTHER_MASK | StatMode::OTHER_READ | StatMode::OTHER_WRITE
            | StatMode::OTHER_EXEC,
{
    assert(0o176777u32 == 0u32 | 0o170000 | 0o010000 | 0o020000 | 0o040000 | 0o060000 | 0o100000
        | 0o120000 | 0o140000 | 0o4000 | 0o2000 | 0o700 | 0o400 | 0o200 | 0o100 | 0o70 | 0o40 | 0o20
        | 0o10 | 0o7 | 0o4 | 0o2 | 0o1) by (bit_vector);
}

/// Permission bits that name no type leave the type to the kind of the file, and all of them
/// but the one between the set-ID bits and the owner's are kept.
pub proof fn law_type_and_permissions(type_: FileType, mode: u16)
    requires
        mode < 0o10000,
    ensures
        StatMode::of_type_mode(type_, mode).bits & StatMode::TYPE_MASK == StatMode::type_bits(
            type_,
        ),
        StatMode::of_type_mode(type_, mode).bits & 0o7777 == (mode & 0o6777) as u32,
{
    let kind = StatMode::type_bits(type_);
    assert(kind & 0o170000 == kind) by {
        assert(0u32 & 0o170000 == 0 && 0o010000u32 & 0o170000 == 0o010000 && 0o020000u32 & 0o170000
            == 0o020000 && 0o040000u32 & 0o170000 == 0o040000 && 0o060000u32 & 0o170000 == 0o060000
            && 0o100000u32 & 0o170000 == 0o100000 && 0o120000u32 & 0o170000 == 0o120000
            && 0o140000u32 & 0o170000 == 0o140000) by (bit_vector);
    }
    assert((kind | (mode as u32 & 0o176777)) & 0o170000 == kind && (kind | (mode as u32 & 0o176777))
        & 0o7777 == (mode & 0o6777) as u32) by (bit_vector)
        requires
            kind & 0o170000 == kind,
            mode < 0o10000,
    ;
}

/// The status of a file.
#[derive(Clone, Copy, Debug, PartialEq, Eq, Structural)]
pub struct Stat {
    /// ID of device containing file
    pub dev: u64,
    /// inode number
    pub ino: u64,
    /// number of hard links
    pub nlink: u64,
    /// file type and mode
    pub mode: StatMode,
    /// user ID of owner
    pub uid: u32,
    /// group ID of owner
    pub gid: u32,
    /// padding
    pub _pad0: u32,
    /// device ID (if special file)
    pub rdev: u64,
    /// total size, in bytes
    pub size: u64,
    /// blocksize for filesystem I/O
    pub blksize: u64,
    /// number of 512B blocks allocated
    pub blocks: u64,
    /// last access time
    pub atime: Timespec,
    /// last modification time
    pub mtime: Timespec,
    /// last status change time
    pub ctime: Timespec,
}

/// The status that reports the metadata `info`. Owner, group and mode keep their low bits.
pub open spec fn stat_of(info: Metadata) -> Stat {
    Stat {
        dev: info.dev as u64,
        ino: info.inode as u64,
        nlink: info.nlinks as u64,
        mode: StatMode::of_type_mode(info.type_, info.mode as u16),
        uid: info.uid as u32,
        gid: info.gid as u32,
        _pad0: 0,
        rdev: 0,
        size: info.size as u64,
        blksize: info.blk_size as u64,
        blocks: info.blocks as u64,
        atime: info.atime,
        mtime: info.mtime,
        ctime: info.ctime,
    }
}

impl From<Metadata> for Stat {
    fn from(info: Metadata) -> (ret: Self) {
        Stat {
            dev: info.dev as u64,
            ino: info.inode as u64,
            mode: StatMode::from_type_mode(info.type_, info.mode as u16),
            nlink: info.nlinks as u64,
            uid: info.uid as u32,
            gid: info.gid as u32,
            rdev: 0,
            size: info.size as u64,
            blksize: info.blk_size as u64,
            blocks: info.blocks as u64,
            atime: info.atime,
            mtime: info.mtime,
            ctime: info.ctime,
            _pad0: 0,
        }
    }
}

impl vstd::std_specs::convert::FromSpecImpl<Metadata> for Stat {
    open spec fn obeys_from_spec() -> bool {
        true
    }

    open spec fn from_spec(info: Metadata) -> Self {
        stat_of(info)
    }
}

/// Number of bytes of a status record in user memory.
pub const STAT_SIZE: usize = 120;

impl Stat {
    /// The record in user memory: the fields in order, each little-endian and at an offset
    /// that is a multiple of its width; a time is eight bytes of seconds, four of nanoseconds
    /// and four of padding.
    pub open spec fn encoded(self) -> Seq<u8> {
        endian::le_bytes(self.dev as nat, 8)
            + endian::le_bytes(self.ino as nat, 8)
            + endian::le_bytes(self.nlink as nat, 8)
            + endian::le_bytes(self.mode.bits as nat, 4)
            + endian::le_bytes(self.uid as nat, 4)
            + endian::le_bytes(self.gid as nat, 4)
            + endian::le_bytes(self._pad0 as nat, 4)
            + endian::le_bytes(self.rdev as nat, 8)
            + endian::le_bytes(self.size as nat, 8)
            + endian::le_bytes(self.blksize as nat, 8)
            + endian::le_bytes(self.blocks as nat, 8)
            + endian::le_bytes(self.atime.sec as u64 as nat, 8)
            + endian::le_bytes(self.atime.nsec as u32 as nat, 4)
            + endian::le_bytes(0, 4)
            + endian::le_bytes(self.mtime.sec as u64 as nat, 8)
            + endian::le_bytes(self.mtime.nsec as u32 as nat, 4)
            + endian::le_bytes(0, 4)
            + endian::le_bytes(self.ctime.sec as u64 as nat, 8)
            + endian::le_bytes(self.ctime.nsec as u32 as nat, 4)
            + endian::le_bytes(0, 4)
    }

    /// The record in user memory.
    pub fn to_bytes(&self) -> (bytes: Vec<u8>)
        ensures
            bytes@ == self.encoded(),
            bytes@.len() == STAT_SIZE,
    {
        let mut bytes: Vec<u8> = Vec::new();
        endian::append_le(&mut bytes, self.dev, 8);
        endian::append_le(&mut bytes, self.ino, 8);
        endian::append_le(&mut bytes, self.nlink, 8);
        endian::append_le(&mut bytes, self.mode.bits as u64, 4);
        endian::append_le(&mut bytes, self.uid as u64, 4);
        endian::append_le(&mut bytes, self.gid as u64, 4);
        endian::append_le(&mut bytes, self._pad0 as u64, 4);
        endian::append_le(&mut bytes, self.rdev, 8);
        endian::append_le(&mut bytes, self.size, 8);
        endian::append_le(&mut bytes, self.blksize, 8);
        endian::append_le(&mut bytes, self.blocks, 8);
        endian::append_le(&mut bytes, self.atime.sec as u64, 8);
        endian::append_le(&mut bytes, self.atime.nsec as u32 as u64, 4);
        endian::append_le(&mut bytes, 0u64, 4);
        endian::append_le(&mut bytes, self.mtime.sec as u64, 8);
        endian::append_le(&mut bytes, self.mtime.nsec as u32 as u64, 4);
        endian::append_le(&mut bytes, 0u64, 4);
        endian::append_le(&mut bytes, self.ctime.sec as u64, 8);
        endian::append_le(&mut bytes, self.ctime.nsec as u32 as u64, 4);
        endian::append_le(&mut bytes, 0u64, 4);
        proof {
            lemma_encoded_len(*self);
        }
        bytes
    }
}

proof fn lemma_encoded_len(stat: Stat)
    ensures
        stat.encoded().len() == STAT_SIZE,
{
    broadcast use endian::lemma_le_bytes_len;

}

/// Each field of a status can be read back from the record at its place.
pub proof fn law_stat_record(stat: Stat)
    ensures
        stat.encoded().len() == STAT_SIZE,
        endian::le_value(stat.encoded().subrange(0, 8)) == stat.dev,
        endian::le_value(stat.encoded().subrange(8, 16)) == stat.ino,
        endian::le_value(stat.encoded().subrange(16, 24)) == stat.nlink,
        endian::le_value(stat.encoded().subrange(24, 28)) == stat.mode.bits,
        endian::le_value(stat.encoded().subrange(28, 32)) == stat.uid,
        endian::le_value(stat.encoded().subrange(32, 36)) == stat.gid,
        endian::le_value(stat.encoded().subrange(36, 40)) == stat._pad0,
        endian::le_value(stat.encoded().subrange(40, 48)) == stat.rdev,
        endian::le_value(stat.encoded().subrange(48, 56)) == stat.size,
        endian::le_value(stat.encoded().subrange(56, 64)) == stat.blksize,
        endian::le_value(stat.encoded().subrange(64, 72)) == stat.blocks,
        endian::le_value(stat.encoded().subrange(72, 80)) == stat.atime.sec as u64,
        endian::le_value(stat.encoded().subrange(80, 84)) == stat.atime.nsec as u32,
        endian::le_value(stat.encoded().subrange(88, 96)) == stat.mtime.sec as u64,
        endian::le_value(stat.encoded().subrange(96, 100)) == stat.mtime.nsec as u32,
        endian::le_value(stat.encoded().subrange(104, 112)) == stat.ctime.sec as u64,
        endian::le_value(stat.encoded().subrange(112, 116)) == stat.ctime.nsec as u32,
{
    broadcast use endian::lemma_le_bytes_len;

    lemma_encoded_len(stat);
    reveal_with_fuel(endian::le_bound, 9);
    assert(stat.encoded().subrange(0, 8) =~= endian::le_bytes(stat.dev as nat, 8));
    endian::law_le_round_trip(stat.dev as nat, 8);
    assert(stat.encoded().subrange(8, 16) =~= endian::le_bytes(stat.ino as nat, 8));
    endian::law_le_round_trip(stat.ino as nat, 8);
    assert(stat.encoded().subrange(16, 24) =~= endian::le_bytes(stat.nlink as nat, 8));
    endian::law_le_round_trip(stat.nlink as nat, 8);
    assert(stat.encoded().subrange(24, 28) =~= endian::le_bytes(stat.mode.bits as nat, 4));
    endian::law_le_round_trip(stat.mode.bits as nat, 4);
    assert(stat.encoded().subrange(28, 32) =~= endian::le_bytes(stat.uid as nat, 4));
    endian::law_le_round_trip(stat.uid as nat, 4);
    assert(stat.encoded().subrange(32, 36) =~= endian::le_bytes(stat.gid as nat, 4));
    endian::law_le_round_trip(stat.gid as nat, 4);
    assert(stat.encoded().subrange(36, 40) =~= endian::le_bytes(stat._pad0 as nat, 4));
    endian::law_le_round_trip(stat._pad0 as nat, 4);
    assert(stat.encoded().subrange(40, 48) =~= endian::le_bytes(stat.rdev as nat, 8));
    endian::law_le_round_trip(stat.rdev as nat, 8);
    assert(stat.encoded().subrange(48, 56) =~= endian::le_bytes(stat.size as nat, 8));
    endian::law_le_round_trip(stat.size as nat, 8);
    assert(stat.encoded().subrange(56, 64) =~= endian::le_bytes(stat.blksize as nat, 8));
    endian::law_le_round_trip(stat.blksize as nat, 8);
    assert(stat.encoded().subrange(64, 72) =~= endian::le_bytes(stat.blocks as nat, 8));
    endian::law_le_round_trip(stat.blocks as nat, 8);
    assert(stat.encoded().subrange(72, 80) =~= endian::le_bytes(stat.atime.sec as u64 as nat, 8));
    endian::law_le_round_trip(stat.atime.sec as u64 as nat, 8);
    assert(stat.encoded().subrange(80, 84) =~= endian::le_bytes(stat.atime.nsec as u32 as nat, 4));
    endian::law_le_round_trip(stat.atime.nsec as u32 as nat, 4);
    assert(stat.encoded().subrange(88, 96) =~= endian::le_bytes(stat.mtime.sec as u64 as nat, 8));
    endian::law_le_round_trip(stat.mtime.sec as u64 as nat, 8);
    assert(stat.encoded().subrange(96, 100) =~= endian::le_bytes(stat.mtime.nsec as u32 as nat, 4));
    endian::law_le_round_trip(stat.mtime.nsec as u32 as nat, 4);
    assert(stat.encoded().subrange(104, 112) =~= endian::le_bytes(stat.ctime.sec as u64 as nat, 8));
    endian::law_le_round_trip(stat.ctime.sec as u64 as nat, 8);
    assert(stat.encoded().subrange(112, 116) =~= endian::le_bytes(stat.ctime.nsec as u32 as nat, 4));
    endian::law_le_round_trip(stat.ctime.nsec as u32 as nat, 4);
}

/// The number that stands for a kind of file in the digits of a mode above the lowest four
/// octal ones.
pub open spec fn kind_number(type_: FileType) -> int {
    match type_ {
        FileType::NamedPipe => 0o1,
        FileType::CharDevice => 0o2,
        FileType::Dir => 0o4,
        FileType::BlockDevice => 0o6,
        FileType::File => 0o10,
        FileType::SymLink => 0o12,
        FileType::Socket => 0o14,
        FileType::Unknown => 0,
    }
}

/// A mode has the number of the kind of file above the permissions, and the permissions but for
/// their bit 0o1000, which is clear; type bits among the permissions are added.
pub proof fn law_mode_digits(type_: FileType, mode: u16)
    ensures
        ({
            let bits = StatMode::of_type_mode(type_, mode).bits;
            &&& bits % 0o10000 == mode % 0o1000 + 0o2000 * (mode / 0o2000 % 4)
            &&& mode < 0o10000 ==> bits as int / 0o10000 == kind_number(type_)
            &&& bits < 0o200000
            &&& bits | 0o1000 == (kind_number(type_) * 0o10000) as u32 | mode as u32 | 0o1000
        }),
{
    let kind = StatMode::type_bits(type_);
    assert(kind == kind_number(type_) * 0o10000);
    let bits = kind | (mode as u32 & 0o176777);
    assert(bits % 0o10000 == mode % 0o1000 + 0o2000 * (mode / 0o2000 % 4) && (mode < 0o10000 ==> bits
        / 0o10000 == kind / 0o10000) && bits < 0o200000 && bits | 0o1000 == kind | mode as u32
        | 0o1000) by (bit_vector)
        requires
            bits == kind | (mode as u32 & 0o176777),
            kind % 0o10000 == 0,
            kind < 0o200000,
    ;
}

/// What `from_type_mode` gives has the number of the kind of file above the permissions.
pub proof fn law_from_type_mode(type_: FileType, mode: u16, full: StatMode)
    requires
        call_ensures(StatMode::from_type_mode, (type_, mode), full),
    ensures
        full.bits % 0o10000 == mode % 0o1000 + 0o2000 * (mode / 0o2000 % 4),
        mode < 0o10000 ==> full.bits as int / 0o10000 == kind_number(type_),
{
    law_mode_digits(type_, mode);
}

/// The status of a file has the numbers of its metadata; owner and group modulo 2^32, the mode
/// modulo 2^16 and with the kind of file.
pub proof fn law_stat_of(info: Metadata)
    ensures
        ({
            let stat = stat_of(info);
            &&& stat.dev == info.dev
            &&& stat.ino == info.inode
            &&& stat.nlink == info.nlinks
            &&& stat.uid == info.uid as int % 0x1_0000_0000
            &&& stat.gid == info.gid as int % 0x1_0000_0000
            &&& stat._pad0 == 0
            &&& stat.rdev == 0
            &&& stat.size == info.size
            &&& stat.blksize == info.blk_size
            &&& stat.blocks == info.blocks
            &&& stat.atime == info.atime
            &&& stat.mtime == info.mtime
            &&& stat.ctime == info.ctime
            &&& stat.mode.bits % 0o10000 == info.mode % 0o1000 + 0o2000 * (info.mode / 0o2000 % 4)
            &&& info.mode < 0o10000 ==> stat.mode.bits as int / 0o10000 == kind_number(info.type_)
        }),
{
    let uid = info.uid;
    let gid = info.gid;
    let mode = info.mode;
    assert((uid as u32) as u64 == (uid as u64) % 0x1_0000_0000 && (gid as u32) as u64 == (gid as u64)
        % 0x1_0000_0000) by (bit_vector);
    assert((mode as u16) as u32 % 0o1000 == mode % 0o1000 && (mode as u16) as u32 / 0o2000 % 4
        == mode / 0o2000 % 4 && (mode < 0o10000 ==> (mode as u16) as u32 == mode)) by (bit_vector);
    law_mode_digits(info.type_, mode as u16);
}

/// What `Stat::from` gives has the numbers of the metadata.
pub proof fn law_stat_from(info: Metadata, stat: Stat)
    requires
        call_ensures(<Stat as From<Metadata>>::from, (info,), stat),
    ensures
        stat.dev == info.dev,
        stat.ino == info.inode,
        stat.nlink == info.nlinks,
        stat.uid == info.uid as int % 0x1_0000_0000,
        stat.gid == info.gid as int % 0x1_0000_0000,
        stat._pad0 == 0,
        stat.rdev == 0,
        stat.size == info.size,
        stat.blksize == info.blk_size,
        stat.blocks == info.blocks,
        stat.atime == info.atime,
        stat.mtime == info.mtime,
        stat.ctime == info.ctime,
        stat.mode.bits % 0o10000 == info.mode % 0o1000 + 0o2000 * (info.mode / 0o2000 % 4),
        info.mode < 0o10000 ==> stat.mode.bits as int / 0o10000 == kind_number(info.type_),
{
    law_stat_of(info);
}

/// A signed number as the unsigned one with the same bytes, where the bytes tell `values` numbers
/// apart.
pub open spec fn unsigned(value: int, values: int) -> int {
    if value >= 0 {
        value
    } else {
        value + values
    }
}

/// The bytes `record` tell the metadata `info`: each number stands at its place.
pub open spec fn tells(record: Seq<u8>, info: Metadata) -> bool {
    &&& record.len() == 120
    &&& endian::le_value(record.subrange(0, 8)) == info.dev
    &&& endian::le_value(record.subrange(8, 16)) == info.inode
    &&& endian::le_value(record.subrange(16, 24)) == info.nlinks
    &&& endian::le_value(record.subrange(24, 28)) % 0o10000 == info.mode % 0o1000 + 0o2000 * (
    info.mode / 0o2000 % 4)
    &&& info.mode < 0o10000 ==> endian::le_value(record.subrange(24, 28)) as int / 0o10000
        == kind_number(info.type_)
    &&& endian::le_value(record.subrange(28, 32)) == info.uid as int % 0x1_0000_0000
    &&& endian::le_value(record.subrange(32, 36)) == info.gid as int % 0x1_0000_0000
    &&& endian::le_value(record.subrange(36, 40)) == 0
    &&& endian::le_value(record.subrange(40, 48)) == 0
    &&& endian::le_value(record.subrange(48, 56)) == info.size
    &&& endian::le_value(record.subrange(56, 64)) == info.blk_size
    &&& endian::le_value(record.subrange(64, 72)) == info.blocks
    &&& endian::le_value(record.subrange(72, 80)) == unsigned(
        info.atime.sec as int,
        0x1_0000_0000_0000_0000,
    )
    &&& endian::le_value(record.subrange(80, 84)) == unsigned(
        info.atime.nsec as int,
        0x1_0000_0000,
    )
    &&& endian::le_value(record.subrange(88, 96)) == unsigned(
        info.mtime.sec as int,
        0x1_0000_0000_0000_0000,
    )
    &&& endian::le_value(record.subrange(96, 100)) == unsigned(
        info.mtime.nsec as int,
        0x1_0000_0000,
    )
    &&& endian::le_value(record.subrange(104, 112)) == unsigned(
        info.ctime.sec as int,
        0x1_0000_0000_0000_0000,
    )
    &&& endian::le_value(record.subrange(112, 116)) == unsigned(
        info.ctime.nsec as int,
        0x1_0000_0000,
    )
}

/// The record of the status that `Stat::from` makes of metadata tells the metadata.
pub proof fn law_record_tells(info: Metadata, stat: Stat, bytes: Vec<u8>)
    requires
        call_ensures(<Stat as From<Metadata>>::from, (info,), stat),
        call_ensures(Stat::to_bytes, (&stat,), bytes),
    ensures
        tells(bytes@, info),
{
    lemma_encoded_tells(info);
}

/// The record of the status of `info` tells `info`.
pub proof fn lemma_encoded_tells(info: Metadata)
    ensures
        tells(stat_of(info).encoded(), info),
{
    law_stat_record(stat_of(info));
    law_stat_of(info);
    lemma_unsigned(info.atime);
    lemma_unsigned(info.mtime);
    lemma_unsigned(info.ctime);
}

proof fn lemma_unsigned(time: Timespec)
    ensures
        time.sec as u64 == unsigned(time.sec as int, 0x1_0000_0000_0000_0000),
        time.nsec as u32 == unsigned(time.nsec as int, 0x1_0000_0000),
{
    let sec = time.sec;
    let nsec = time.nsec;
    assert(sec < 0 ==> (sec as u64) as int == sec + 0x1_0000_0000_0000_0000) by (bit_vector);
    assert(nsec < 0 ==> (nsec as u32) as int == nsec + 0x1_0000_0000) by (bit_vector);
}

} // verus!
