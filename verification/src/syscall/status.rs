//! `stat` and `fstat`.

use vstd::prelude::*;

use crate::error;
use crate::error::{FsError, SysError, SysResult};
use crate::memory;
use crate::process::Process;
use crate::stat;
use crate::stat::{Stat, STAT_SIZE};
use crate::vfs::Metadata;

verus! {

/// A status record may be written at `stat_ptr`.
pub open spec fn can_store<N>(proc: Process<N>, stat_ptr: usize) -> bool {
    proc.memory_set.writable(stat_ptr as int, STAT_SIZE as int)
}

/// What a call returns that stores a status.
pub open spec fn stored(info: Result<Metadata, FsError>) -> SysResult {
    match info {
        Ok(_) => Ok(0),
        Err(e) => Err(error::sys_error(e)),
    }
}

/// The memory after the status of `info` was stored at `stat_ptr`.
pub open spec fn memory_with_stat(
    memory: Map<int, u8>,
    stat_ptr: usize,
    info: Result<Metadata, FsError>,
) -> Map<int, u8> {
    match info {
        Ok(info) => memory::overwrite(memory, stat_ptr as int, stat::stat_of(info).encoded()),
        Err(_) => memory,
    }
}

/// Stores the status that `info` gives at `stat_ptr`.
fn store_stat<N>(proc: &mut Process<N>, stat_ptr: usize, info: Result<Metadata, FsError>) -> (ret:
    SysResult)
    requires
        old(proc).wf(),
        can_store(*old(proc), stat_ptr),
    ensures
        ret == stored(info),
        final(proc).wf(),
        final(proc).files == old(proc).files,
        final(proc).memory_set.layout() == old(proc).memory_set.layout(),
        final(proc).memory_set.bytes() == memory_with_stat(
            old(proc).memory_set.bytes(),
            stat_ptr,
            info,
        ),
{
    match info {
        Ok(info) => {
            let record = Stat::from(info).to_bytes();
            proc.memory_set.write(stat_ptr, record.as_slice());
            Ok(0)
        },
        Err(e) => Err(SysError::from(e)),
    }
}

/// A `stat` that waits for `path` to be looked up from the root.
pub struct StatCall {
    /// the path to look up
    pub path: String,
    /// where the status goes in user memory
    pub stat_ptr: usize,
}

impl StatCall {
    /// Goes on after the path was looked up.
    pub fn found<N>(self, inode: Result<N, FsError>) -> (call: Result<InodeStatCall<N>, SysError>)
        ensures
            call == match inode {
                Ok(inode) => Ok(InodeStatCall { inode, stat_ptr: self.stat_ptr }),
                Err(e) => Err(error::sys_error(e)),
            },
    {
        match inode {
            Ok(inode) => Ok(InodeStatCall { inode, stat_ptr: self.stat_ptr }),
            Err(e) => Err(SysError::from(e)),
        }
    }
}

/// A `stat` that waits for the metadata of `inode`.
pub struct InodeStatCall<N> {
    /// the inode to ask
    pub inode: N,
    /// where the status goes in user memory
    pub stat_ptr: usize,
}

impl<N> InodeStatCall<N> {
    /// Goes on with the metadata of the inode: its status is stored in user memory.
    pub fn complete(self, proc: &mut Process<N>, info: Result<Metadata, FsError>) -> (ret:
        SysResult)
        requires
            old(proc).wf(),
            can_store(*old(proc), self.stat_ptr),
        ensures
            ret == stored(info),
            final(proc).wf(),
            final(proc).files == old(proc).files,
            final(proc).memory_set.layout() == old(proc).memory_set.layout(),
            final(proc).memory_set.bytes() == memory_with_stat(
                old(proc).memory_set.bytes(),
                self.stat_ptr,
                info,
            ),
    {
        store_stat(proc, self.stat_ptr, info)
    }
}

/// Starts to store the status of the file at the path that stands at the address `path`.
pub fn sys_stat<N>(proc: &Process<N>, path: usize, stat_ptr: usize) -> (call: Result<
    StatCall,
    SysError,
>)
    requires
        proc.wf(),
    ensures
        match call {
            Ok(call) => {
                &&& proc.memory_set.cstr_at(path as int) == Some(call.path@)
                &&& can_store(*proc, stat_ptr)
                &&& call.stat_ptr == stat_ptr
            },
            Err(e) => {
                &&& !(proc.memory_set.cstr_at(path as int) is Some && can_store(*proc, stat_ptr))
                &&& e == SysError::Inval
            },
        },
{
    let path = match proc.memory_set.check_and_clone_cstr(path) {
        Some(path) => path,
        None => return Err(SysError::Inval),
    };
    if !proc.memory_set.check_mut_array(stat_ptr, STAT_SIZE) {
        return Err(SysError::Inval);
    }
    Ok(StatCall { path, stat_ptr })
}

/// An `fstat` that waits for the metadata of the file `fd`.
pub struct FstatCall {
    /// the file to ask
    pub fd: usize,
    /// where the status goes in user memory
    pub stat_ptr: usize,
}

impl FstatCall {
    /// Goes on with the metadata of the file: its status is stored in user memory.
    pub fn complete<N>(self, proc: &mut Process<N>, info: Result<Metadata, FsError>) -> (ret:
        SysResult)
        requires
            old(proc).wf(),
            can_store(*old(proc), self.stat_ptr),
        ensures
            ret == stored(info),
            final(proc).wf(),
            final(proc).files == old(proc).files,
            final(proc).memory_set.layout() == old(proc).memory_set.layout(),
            final(proc).memory_set.bytes() == memory_with_stat(
                old(proc).memory_set.bytes(),
                self.stat_ptr,
                info,
            ),
    {
        store_stat(proc, self.stat_ptr, info)
    }
}

/// Starts to store the status of the open file `fd`.
pub fn sys_fstat<N>(proc: &Process<N>, fd: usize, stat_ptr: usize) -> (call: Result<
    FstatCall,
    SysError,
>)
    requires
        proc.wf(),
    ensures
        match call {
            Ok(call) => {
                &&& can_store(*proc, stat_ptr)
                &&& proc.files@.contains_key(fd)
                &&& call.fd == fd
                &&& call.stat_ptr == stat_ptr
            },
            Err(e) => {
                &&& !(can_store(*proc, stat_ptr) && proc.files@.contains_key(fd))
                &&& e == SysError::Inval
            },
        },
{
    if !proc.memory_set.check_mut_array(stat_ptr, STAT_SIZE) {
        return Err(SysError::Inval);
    }
    if !proc.has_file(fd) {
        return Err(SysError::Inval);
    }
    Ok(FstatCall { fd, stat_ptr })
}

/// Where a status was stored, the record that user memory holds is that of the metadata, and
/// no other byte has changed.
pub proof fn law_stat_stored(
    memory: Map<int, u8>,
    stat_ptr: usize,
    info: Metadata,
    addr: int,
)
    ensures
        ({
            let after = memory_with_stat(memory, stat_ptr, Ok(info));
            &&& memory::bytes_at(after, stat_ptr as int, STAT_SIZE as int) == stat::stat_of(
                info,
            ).encoded()
            &&& !(stat_ptr <= addr < stat_ptr + STAT_SIZE) && memory.contains_key(addr)
                ==> after[addr] == memory[addr]
        }),
{
    stat::law_stat_record(stat::stat_of(info));
    memory::law_read_back(memory, stat_ptr as int, stat::stat_of(info).encoded());
}

/// Where `stat` ends well, the record that stands in user memory tells the metadata of the inode,
/// and no other byte, no area and no open file has changed; where the metadata could not be had,
/// nothing has.
pub proof fn law_stat_tells<N>(
    call: InodeStatCall<N>,
    proc: &mut Process<N>,
    info: Result<Metadata, FsError>,
    ret: SysResult,
    addr: int,
)
    requires
        call_ensures(InodeStatCall::<N>::complete, (call, proc, info), ret),
    ensures
        info is Ok ==> ret == Ok::<isize, SysError>(0),
        info matches Err(e) ==> ret == Err::<isize, SysError>(error::sys_error(e)),
        info matches Ok(info) ==> stat::tells(
            memory::bytes_at(final(proc).memory_set.bytes(), call.stat_ptr as int, 120),
            info,
        ),
        old(proc).memory_set.bytes().contains_key(addr) && !(info is Ok && call.stat_ptr <= addr
            < call.stat_ptr + 120) ==> final(proc).memory_set.bytes()[addr]
            == old(proc).memory_set.bytes()[addr],
        final(proc).memory_set.layout() == old(proc).memory_set.layout(),
        final(proc).files@ == old(proc).files@,
{
    if let Ok(info) = info {
        stat::lemma_encoded_tells(info);
        law_stat_stored(old(proc).memory_set.bytes(), call.stat_ptr, info, addr);
    }
}

/// Where `fstat` ends well, the record that stands in user memory tells the metadata of the file,
/// and no other byte, no area and no open file has changed; where the metadata could not be had,
/// nothing has.
pub proof fn law_fstat_tells<N>(
    call: FstatCall,
    proc: &mut Process<N>,
    info: Result<Metadata, FsError>,
    ret: SysResult,
    addr: int,
)
    requires
        call_ensures(FstatCall::complete::<N>, (call, proc, info), ret),
    ensures
        info is Ok ==> ret == Ok::<isize, SysError>(0),
        info matches Err(e) ==> ret == Err::<isize, SysError>(error::sys_error(e)),
        info matches Ok(info) ==> stat::tells(
            memory::bytes_at(final(proc).memory_set.bytes(), call.stat_ptr as int, 120),
            info,
        ),
        old(proc).memory_set.bytes().contains_key(addr) && !(info is Ok && call.stat_ptr <= addr
            < call.stat_ptr + 120) ==> final(proc).memory_set.bytes()[addr]
            == old(proc).memory_set.bytes()[addr],
        final(proc).memory_set.layout() == old(proc).memory_set.layout(),
        final(proc).files@ == old(proc).files@,
{
    if let Ok(info) = info {
        stat::lemma_encoded_tells(info);
        law_stat_stored(old(proc).memory_set.bytes(), call.stat_ptr, info, addr);
    }
}

/// `stat` asks for the path that stands in user memory, and `fstat` for the file it was given;
/// both keep the place of the record, and are refused exactly where the record may not be
/// written there, or where there is no path or no open file.
pub proof fn law_stat_asks<N>(
    proc: &Process<N>,
    path: usize,
    fd: usize,
    stat_ptr: usize,
    stat: Result<StatCall, SysError>,
    fstat: Result<FstatCall, SysError>,
)
    requires
        call_ensures(sys_stat::<N>, (proc, path, stat_ptr), stat),
        call_ensures(sys_fstat::<N>, (proc, fd, stat_ptr), fstat),
    ensures
        stat is Ok <==> proc.memory_set.writable(stat_ptr as int, 120) && proc.memory_set.cstr_at(
            path as int,
        ) is Some,
        fstat is Ok <==> proc.memory_set.writable(stat_ptr as int, 120) && proc.files@.contains_key(
            fd,
        ),
        stat matches Ok(call) ==> call.stat_ptr == stat_ptr && proc.memory_set.cstr_at(path as int)
            == Some(call.path@),
        fstat matches Ok(call) ==> call.stat_ptr == stat_ptr && call.fd == fd,
        stat matches Err(e) ==> e == SysError::Inval,
        fstat matches Err(e) ==> e == SysError::Inval,
{
}

/// A path that was found is asked for its metadata, for the same place in user memory.
pub proof fn law_stat_found<N>(
    call: StatCall,
    inode: Result<N, FsError>,
    next: Result<InodeStatCall<N>, SysError>,
)
    requires
        call_ensures(StatCall::found::<N>, (call, inode), next),
    ensures
        inode matches Ok(inode) ==> next matches Ok(next) && next.inode == inode && next.stat_ptr
            == call.stat_ptr,
        inode matches Err(e) ==> next == Err::<InodeStatCall<N>, SysError>(error::sys_error(e)),
{
}

} // verus!
