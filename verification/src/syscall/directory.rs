//! `getdirentry`.

use vstd::prelude::*;
use vstd::utf8::*;

use crate::dirent::{DirEntry, DIR_ENTRY_SIZE, NAME_SIZE};
use crate::endian;
use crate::error;
use crate::error::{FsError, SysError, SysResult};
use crate::memory;
use crate::process::Process;
use crate::vfs::{FileType, Metadata};

verus! {

/// The offset of the directory record at `dentry_ptr`.
pub open spec fn offset_at(memory: Map<int, u8>, dentry_ptr: usize) -> nat {
    endian::le_value(memory::bytes_at(memory, dentry_ptr as int, 4))
}

/// A directory record that stands for an entry may be written at `dentry_ptr`.
pub open spec fn has_entry_at<N>(proc: Process<N>, dentry_ptr: usize) -> bool {
    &&& proc.memory_set.writable(dentry_ptr as int, DIR_ENTRY_SIZE as int)
    &&& offset_at(proc.memory_set.bytes(), dentry_ptr) % 256 == 0
}

/// A `getdirentry` that waits for the metadata of the file `fd`.
pub struct DirEntryCall {
    /// the directory
    pub fd: usize,
    /// where the record stands in user memory
    pub dentry_ptr: usize,
    /// the record as it stands in user memory
    pub entry: DirEntry,
}

impl DirEntryCall {
    /// Goes on with the metadata of the file, which must be a directory that has the entry.
    pub fn examined(self, info: Result<Metadata, FsError>) -> (call: Result<
        EntryNameCall,
        SysError,
    >)
        ensures
            call == match info {
                Ok(info) => if info.type_ == FileType::Dir && self.entry.id() < info.size {
                    Ok(
                        EntryNameCall {
                            fd: self.fd,
                            dentry_ptr: self.dentry_ptr,
                            entry: self.entry,
                            entry_id: self.entry.id() as usize,
                        },
                    )
                } else {
                    Err(SysError::Inval)
                },
                Err(e) => Err(error::sys_error(e)),
            },
    {
        let info = match info {
            Ok(info) => info,
            Err(e) => return Err(SysError::from(e)),
        };
        if info.type_ != FileType::Dir || info.size <= self.entry.entry_id() {
            return Err(SysError::Inval);
        }
        Ok(
            EntryNameCall {
                fd: self.fd,
                dentry_ptr: self.dentry_ptr,
                entry: self.entry,
                entry_id: self.entry.entry_id(),
            },
        )
    }
}

/// A `getdirentry` that waits for the name of the entry `entry_id` of the directory `fd`.
pub struct EntryNameCall {
    /// the directory
    pub fd: usize,
    /// where the record stands in user memory
    pub dentry_ptr: usize,
    /// the record as it stands in user memory
    pub entry: DirEntry,
    /// the number of the entry
    pub entry_id: usize,
}

impl EntryNameCall {
    /// Goes on with the name of the entry, which must leave room for a zero byte: it is stored
    /// in the record, and the record moves on to the next entry.
    pub fn complete<N>(self, proc: &mut Process<N>, name: Result<String, FsError>) -> (ret:
        SysResult)
        requires
            old(proc).wf(),
            old(proc).memory_set.writable(self.dentry_ptr as int, DIR_ENTRY_SIZE as int),
            name matches Ok(name) ==> {
                &&& encode_utf8(name@).len() < NAME_SIZE
                &&& self.entry.offset + 256 <= u32::MAX
            },
        ensures
            ret == match name {
                Ok(_) => Ok(0isize),
                Err(e) => Err(error::sys_error(e)),
            },
            final(proc).wf(),
            final(proc).files == old(proc).files,
            final(proc).memory_set.layout() == old(proc).memory_set.layout(),
            final(proc).memory_set.bytes() == match name {
                Ok(name) => memory::overwrite(
                    old(proc).memory_set.bytes(),
                    self.dentry_ptr as int,
                    self.entry.reported(encode_utf8(name@)),
                ),
                Err(_) => old(proc).memory_set.bytes(),
            },
    {
        match name {
            Ok(name) => {
                let mut entry = self.entry;
                entry.set_name(name.as_str());
                let record = entry.to_bytes();
                proc.memory_set.write(self.dentry_ptr, record.as_slice());
                Ok(0)
            },
            Err(e) => Err(SysError::from(e)),
        }
    }
}

/// Starts to report the next entry of the directory `fd` in the record at `dentry_ptr`.
///
/// entry_id = dentry.offset / 256
/// dentry.name = entry_name
/// dentry.offset += 256
pub fn sys_getdirentry<N>(proc: &Process<N>, fd: usize, dentry_ptr: usize) -> (call: Result<
    DirEntryCall,
    SysError,
>)
    requires
        proc.wf(),
    ensures
        match call {
            Ok(call) => {
                &&& has_entry_at(*proc, dentry_ptr)
                &&& proc.files@.contains_key(fd)
                &&& call.fd == fd
                &&& call.dentry_ptr == dentry_ptr
                &&& call.entry.encoded() == proc.memory_set.range(
                    dentry_ptr as int,
                    DIR_ENTRY_SIZE as int,
                )
                &&& call.entry.offset == offset_at(proc.memory_set.bytes(), dentry_ptr)
            },
            Err(e) => {
                &&& !(has_entry_at(*proc, dentry_ptr) && proc.files@.contains_key(fd))
                &&& e == SysError::Inval
            },
        },
{
    if !proc.memory_set.check_mut_array(dentry_ptr, DIR_ENTRY_SIZE) {
        return Err(SysError::Inval);
    }
    if !proc.has_file(fd) {
        return Err(SysError::Inval);
    }
    proof {
        proc.memory_set.lemma_writable_readable(dentry_ptr as int, DIR_ENTRY_SIZE as int);
    }
    let bytes = proc.memory_set.read(dentry_ptr, DIR_ENTRY_SIZE);
    let entry = DirEntry::from_bytes(bytes.as_slice());
    proof {
        entry.lemma_offset();
        assert(entry.encoded().take(4) =~= memory::bytes_at(
            proc.memory_set.bytes(),
            dentry_ptr as int,
            4,
        ));
    }
    if !entry.check() {
        return Err(SysError::Inval);
    }
    Ok(DirEntryCall { fd, dentry_ptr, entry })
}

/// After an entry was reported, the record in user memory stands for the next entry and holds
/// the name with a zero byte behind it; no other byte has changed.
pub proof fn law_directory_walk(
    memory: Map<int, u8>,
    dentry_ptr: usize,
    entry: DirEntry,
    text: Seq<u8>,
    addr: int,
)
    requires
        entry.valid(),
        entry.encoded() == memory::bytes_at(memory, dentry_ptr as int, DIR_ENTRY_SIZE as int),
        entry.offset + 256 <= u32::MAX,
        text.len() < NAME_SIZE,
    ensures
        ({
            let after = memory::overwrite(memory, dentry_ptr as int, entry.reported(text));
            let end = dentry_ptr + 4 + text.len() + 1;
            &&& offset_at(after, dentry_ptr) == offset_at(memory, dentry_ptr) + 256
            &&& offset_at(after, dentry_ptr) % 256 == 0
            &&& offset_at(after, dentry_ptr) / 256 == entry.id() + 1
            &&& memory::bytes_at(after, dentry_ptr + 4, text.len() as int) == text
            &&& after[end - 1] == 0
            &&& !(dentry_ptr <= addr < end) && memory.contains_key(addr) ==> after[addr]
                == memory[addr]
        }),
{
    broadcast use endian::lemma_le_bytes_len;

    let after = memory::overwrite(memory, dentry_ptr as int, entry.reported(text));
    let next = (entry.offset + 256) as nat;
    reveal_with_fuel(endian::le_bound, 5);
    endian::law_le_round_trip(next, 4);
    entry.lemma_offset();
    assert(entry.encoded().take(4) =~= memory::bytes_at(memory, dentry_ptr as int, 4));
    assert(memory::bytes_at(after, dentry_ptr as int, 4) =~= endian::le_bytes(next, 4));
    assert(memory::bytes_at(after, dentry_ptr + 4, text.len() as int) =~= text);
    let k = addr - dentry_ptr;
    if 4 + text.len() + 1 <= k < DIR_ENTRY_SIZE {
        assert(entry.reported(text)[k] == entry.encoded()[k]);
        assert(entry.encoded()[k] == memory[dentry_ptr + k]);
    }
}

/// `getdirentry` takes the record as it stands in user memory: the offset that its first four bytes
/// tell, and the name behind. It is refused exactly where the 260 bytes may not be written, where
/// 256 does not divide the offset, or where the file is not open.
pub proof fn law_getdirentry_asks<N>(
    proc: &Process<N>,
    fd: usize,
    dentry_ptr: usize,
    offset: u32,
    call: Result<DirEntryCall, SysError>,
    k: int,
)
    requires
        proc.memory_set.range(dentry_ptr as int, 4) == endian::le_bytes(offset as nat, 4),
        call_ensures(sys_getdirentry::<N>, (proc, fd, dentry_ptr), call),
    ensures
        call is Ok <==> proc.memory_set.writable(dentry_ptr as int, 260) && proc.files@.contains_key(
            fd,
        ) && offset % 256 == 0,
        call matches Ok(call) ==> {
            &&& call.fd == fd
            &&& call.dentry_ptr == dentry_ptr
            &&& call.entry.offset == offset
            &&& 0 <= k < 256 ==> call.entry.name@[k] == proc.memory_set.bytes()[dentry_ptr + 4 + k]
        },
        call matches Err(e) ==> e == SysError::Inval,
{
    broadcast use endian::lemma_le_bytes_len;

    reveal_with_fuel(endian::le_bound, 5);
    endian::law_le_round_trip(offset as nat, 4);
    if let Ok(call) = call {
        if 0 <= k < 256 {
            assert(call.entry.encoded()[4 + k] == call.entry.name@[k]);
            assert(proc.memory_set.range(dentry_ptr as int, 260)[4 + k]
                == proc.memory_set.bytes()[dentry_ptr + 4 + k]);
        }
    }
}

/// A directory of `size` entries is asked for those whose offset is below 256 times `size`, by the
/// number that the offset is 256 times of; nothing but a directory is asked.
pub proof fn law_getdirentry_examines(
    call: DirEntryCall,
    info: Result<Metadata, FsError>,
    next: Result<EntryNameCall, SysError>,
)
    requires
        call.entry.offset % 256 == 0,
        call_ensures(DirEntryCall::examined, (call, info), next),
    ensures
        info matches Ok(info) ==> (next is Ok <==> info.type_ == FileType::Dir && call.entry.offset
            < 256 * info.size),
        info is Ok ==> (next matches Err(e) ==> e == SysError::Inval),
        info matches Err(e) ==> next == Err::<EntryNameCall, SysError>(error::sys_error(e)),
        next matches Ok(next) ==> {
            &&& next.fd == call.fd
            &&& next.dentry_ptr == call.dentry_ptr
            &&& next.entry == call.entry
            &&& 256 * next.entry_id == call.entry.offset
        },
{
}

/// Where `getdirentry` ends well, the record in user memory tells an offset 256 higher and holds the
/// name with a zero byte behind it; its other bytes, all other memory and the open files are as
/// they were. Where the name could not be had, all of it is.
pub proof fn law_getdirentry_completes<N>(
    call: EntryNameCall,
    proc: &mut Process<N>,
    name: Result<String, FsError>,
    ret: SysResult,
    addr: int,
)
    requires
        call.entry.encoded() == old(proc).memory_set.range(call.dentry_ptr as int, 260),
        call.entry.offset % 256 == 0,
        call.entry.offset + 256 <= u32::MAX,
        name matches Ok(name) ==> encode_utf8(name@).len() < 256,
        call_ensures(EntryNameCall::complete::<N>, (call, proc, name), ret),
    ensures
        name is Ok ==> ret == Ok::<isize, SysError>(0),
        name matches Err(e) ==> ret == Err::<isize, SysError>(error::sys_error(e)),
        name matches Ok(name) ==> {
            let after = final(proc).memory_set.bytes();
            let ptr = call.dentry_ptr as int;
            let text = encode_utf8(name@);
            &&& endian::le_value(memory::bytes_at(after, ptr, 4)) == call.entry.offset + 256
            &&& memory::bytes_at(after, ptr + 4, text.len() as int) == text
            &&& after[ptr + 4 + text.len()] == 0
            &&& !(ptr <= addr < ptr + 4 + text.len() + 1)
                && old(proc).memory_set.bytes().contains_key(addr) ==> after[addr]
                == old(proc).memory_set.bytes()[addr]
        },
        name is Err ==> final(proc).memory_set.bytes() == old(proc).memory_set.bytes(),
        final(proc).memory_set.layout() == old(proc).memory_set.layout(),
        final(proc).files@ == old(proc).files@,
{
    if let Ok(name) = name {
        law_directory_walk(
            old(proc).memory_set.bytes(),
            call.dentry_ptr,
            call.entry,
            encode_utf8(name@),
            addr,
        );
        call.entry.lemma_offset();
        assert(call.entry.encoded().take(4) =~= memory::bytes_at(
            old(proc).memory_set.bytes(),
            call.dentry_ptr as int,
            4,
        ));
    }
}

} // verus!
