//! `read` and `write`.

use vstd::prelude::*;

use crate::error;
use crate::error::{FsError, SysError, SysResult};
use crate::memory;
use crate::memory::MemorySet;
use crate::process::Process;

verus! {

/// What a call returns that moved some bytes: their number, or the error.
pub open spec fn transferred(result: Result<usize, FsError>) -> SysResult {
    match result {
        Ok(len) => Ok(len as isize),
        Err(e) => Err(error::sys_error(e)),
    }
}

/// What a call returns that moved some bytes.
pub fn transfer_result(result: Result<usize, FsError>) -> (ret: SysResult)
    ensures
        ret == transferred(result),
{
    match result {
        Ok(len) => Ok(len as isize),
        Err(e) => Err(SysError::from(e)),
    }
}

/// A `read` that waits for the file `fd` to be read into `buf`.
pub struct ReadCall {
    /// the file to read
    pub fd: usize,
    /// where the buffer stands in user memory
    pub base: usize,
    /// the buffer to read into, as it stands in user memory
    pub buf: Vec<u8>,
}

impl ReadCall {
    /// The buffer may be written in the memory of `proc`.
    pub open spec fn pending<N>(self, proc: Process<N>) -> bool {
        &&& proc.wf()
        &&& proc.memory_set.writable(self.base as int, self.buf@.len() as int)
    }

    /// Goes on after the file was read into `buf`: the buffer reaches user memory as the file
    /// left it, also where reading failed.
    pub fn complete<N>(self, proc: &mut Process<N>, result: Result<usize, FsError>) -> (ret:
        SysResult)
        requires
            self.pending(*old(proc)),
        ensures
            ret == transferred(result),
            final(proc).wf(),
            final(proc).files == old(proc).files,
            final(proc).memory_set.layout() == old(proc).memory_set.layout(),
            final(proc).memory_set.bytes() == memory::overwrite(
                old(proc).memory_set.bytes(),
                self.base as int,
                self.buf@,
            ),
    {
        proc.memory_set.write(self.base, self.buf.as_slice());
        transfer_result(result)
    }
}

/// Starts to read `len` bytes from `fd` to the address `base`.
pub fn sys_read<N>(proc: &Process<N>, fd: usize, base: usize, len: usize) -> (call: Result<
    ReadCall,
    SysError,
>)
    requires
        proc.wf(),
    ensures
        match call {
            Ok(call) => {
                &&& proc.memory_set.writable(base as int, len as int)
                &&& proc.files@.contains_key(fd)
                &&& call.fd == fd
                &&& call.base == base
                &&& call.buf@ == proc.memory_set.range(base as int, len as int)
                &&& call.pending(*proc)
            },
            Err(e) => {
                &&& !(proc.memory_set.writable(base as int, len as int)
                    && proc.files@.contains_key(fd))
                &&& e == SysError::Inval
            },
        },
{
    if !proc.memory_set.check_mut_array(base, len) {
        return Err(SysError::Inval);
    }
    if !proc.has_file(fd) {
        return Err(SysError::Inval);
    }
    proof {
        proc.memory_set.lemma_writable_readable(base as int, len as int);
    }
    Ok(ReadCall { fd, base, buf: proc.memory_set.read(base, len) })
}

/// A `write` that waits for `buf` to be written to the file `fd`.
pub struct WriteCall {
    /// the file to write
    pub fd: usize,
    /// the bytes to write
    pub buf: Vec<u8>,
}

impl WriteCall {
    /// Goes on after `buf` was written to the file.
    pub fn complete(self, result: Result<usize, FsError>) -> (ret: SysResult)
        ensures
            ret == transferred(result),
    {
        transfer_result(result)
    }
}

/// Starts to write the `len` bytes at the address `base` to `fd`.
pub fn sys_write<N>(proc: &Process<N>, fd: usize, base: usize, len: usize) -> (call: Result<
    WriteCall,
    SysError,
>)
    requires
        proc.wf(),
    ensures
        match call {
            Ok(call) => {
                &&& proc.memory_set.readable(base as int, len as int)
                &&& proc.files@.contains_key(fd)
                &&& call.fd == fd
                &&& call.buf@ == proc.memory_set.range(base as int, len as int)
            },
            Err(e) => {
                &&& !(proc.memory_set.readable(base as int, len as int)
                    && proc.files@.contains_key(fd))
                &&& e == SysError::Inval
            },
        },
{
    if !proc.memory_set.check_array(base, len) {
        return Err(SysError::Inval);
    }
    if !proc.has_file(fd) {
        return Err(SysError::Inval);
    }
    Ok(WriteCall { fd, buf: proc.memory_set.read(base, len) })
}

/// A finished `read` leaves in the user's buffer what the file put there, and a `write` of the
/// same range then hands on the same bytes; every other byte and the areas are as they were.
pub proof fn law_write_after_read(
    before: MemorySet,
    after: MemorySet,
    base: int,
    filled: Seq<u8>,
    addr: int,
)
    requires
        before.wf(),
        before.writable(base, filled.len() as int),
        after.layout() == before.layout(),
        after.bytes() == memory::overwrite(before.bytes(), base, filled),
    ensures
        after.readable(base, filled.len() as int),
        after.range(base, filled.len() as int) == filled,
        after.bytes().contains_key(addr) == before.bytes().contains_key(addr),
        !(base <= addr < base + filled.len()) && before.bytes().contains_key(addr)
            ==> after.bytes()[addr] == before.bytes()[addr],
{
    before.lemma_writable_readable(base, filled.len() as int);
    memory::law_read_back(before.bytes(), base, filled);
    memory::law_write_maps_nothing(before, base, filled);
    assert(after.bytes().dom().contains(addr) == before.bytes().dom().contains(addr));
}

/// A file that leaves the buffer alone leaves user memory alone: the buffer starts out as the
/// bytes that stand there.
pub proof fn law_untouched_buffer(memory: MemorySet, base: int, len: int)
    requires
        memory.wf(),
        0 <= len,
        memory.writable(base, len),
    ensures
        memory::overwrite(memory.bytes(), base, memory.range(base, len)) == memory.bytes(),
{
    memory.lemma_writable_readable(base, len);
    memory::law_write_same(memory, base, len);
}

/// A call that moved `n` bytes returns `n`: the number itself where it can be told as a signed
/// one, and in every case the value that is `n` again when it is taken as a size. A call that
/// failed returns the error.
pub proof fn law_count_returned(result: Result<usize, FsError>, ret: SysResult)
    requires
        call_ensures(transfer_result, (result,), ret),
    ensures
        result matches Ok(n) ==> {
            &&& ret matches Ok(value) && value as usize == n
            &&& n <= isize::MAX ==> ret->Ok_0 == n as int
        },
        result matches Err(e) ==> ret == Err::<isize, SysError>(error::sys_error(e)),
{
    lemma_transferred(result);
}

/// The count that a transfer returns is the number of bytes.
pub proof fn lemma_transferred(result: Result<usize, FsError>)
    ensures
        result matches Ok(n) ==> {
            &&& transferred(result) matches Ok(value) && value as usize == n
            &&& n <= isize::MAX ==> transferred(result)->Ok_0 == n as int
        },
        result matches Err(e) ==> transferred(result) == Err::<isize, SysError>(
            error::sys_error(e),
        ),
{
    if let Ok(n) = result {
        assert((n as isize) as usize == n) by (bit_vector);
    }
}

/// `read` returns how many bytes the file gave, leaves the buffer in user memory as the file left
/// it, byte by byte, and changes no other byte, no area and no open file.
pub proof fn law_read_completes<N>(
    call: ReadCall,
    proc: &mut Process<N>,
    result: Result<usize, FsError>,
    ret: SysResult,
    addr: int,
)
    requires
        call_ensures(ReadCall::complete::<N>, (call, proc, result), ret),
    ensures
        result matches Ok(n) ==> {
            &&& ret matches Ok(value) && value as usize == n
            &&& n <= isize::MAX ==> ret->Ok_0 == n as int
        },
        result matches Err(e) ==> ret == Err::<isize, SysError>(error::sys_error(e)),
        call.base <= addr < call.base + call.buf@.len() ==> final(proc).memory_set.bytes()[addr]
            == call.buf@[addr - call.base],
        !(call.base <= addr < call.base + call.buf@.len())
            && old(proc).memory_set.bytes().contains_key(addr)
            ==> final(proc).memory_set.bytes()[addr] == old(proc).memory_set.bytes()[addr],
        final(proc).memory_set.layout() == old(proc).memory_set.layout(),
        final(proc).files@ == old(proc).files@,
{
    lemma_transferred(result);
}

/// `write` returns how many bytes the file took.
pub proof fn law_write_completes(
    call: WriteCall,
    result: Result<usize, FsError>,
    ret: SysResult,
)
    requires
        call_ensures(WriteCall::complete, (call, result), ret),
    ensures
        result matches Ok(n) ==> {
            &&& ret matches Ok(value) && value as usize == n
            &&& n <= isize::MAX ==> ret->Ok_0 == n as int
        },
        result matches Err(e) ==> ret == Err::<isize, SysError>(error::sys_error(e)),
{
    lemma_transferred(result);
}

/// `read` and `write` hand out the file they were given and the bytes of user memory from `base`
/// on, as many as asked for; they are refused exactly where those may not be written, or read,
/// or where the file is not open.
pub proof fn law_transfer_asks<N>(
    proc: &Process<N>,
    fd: usize,
    base: usize,
    len: usize,
    read: Result<ReadCall, SysError>,
    write: Result<WriteCall, SysError>,
    k: int,
)
    requires
        call_ensures(sys_read::<N>, (proc, fd, base, len), read),
        call_ensures(sys_write::<N>, (proc, fd, base, len), write),
    ensures
        read is Ok <==> proc.memory_set.writable(base as int, len as int)
            && proc.files@.contains_key(fd),
        write is Ok <==> proc.memory_set.readable(base as int, len as int)
            && proc.files@.contains_key(fd),
        read matches Ok(call) ==> {
            &&& call.fd == fd
            &&& call.base == base
            &&& call.buf@.len() == len
            &&& 0 <= k < len ==> call.buf@[k] == proc.memory_set.bytes()[base + k]
        },
        write matches Ok(call) ==> {
            &&& call.fd == fd
            &&& call.buf@.len() == len
            &&& 0 <= k < len ==> call.buf@[k] == proc.memory_set.bytes()[base + k]
        },
        read matches Err(e) ==> e == SysError::Inval,
        write matches Err(e) ==> e == SysError::Inval,
{
}

} // verus!
