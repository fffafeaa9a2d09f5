//! `readv` and `writev`.

use vstd::prelude::*;

use crate::error;
use crate::error::{FsError, SysError, SysResult};
use crate::iovec;
use crate::iovec::{IoVec, IoVecs};
use crate::memory;
use crate::memory::MemorySet;
use crate::process::Process;
use crate::syscall::transfer;

verus! {

/// A `readv` that waits for the file `fd` to be read into `buf`.
pub struct ReadvCall {
    /// the file to read
    pub fd: usize,
    /// the buffers in user memory
    pub iovs: IoVecs,
    /// the buffer to read into, as long as those in user memory together
    pub buf: Vec<u8>,
}

impl ReadvCall {
    /// The buffers may be written in the memory of `proc`, and `buf` has their length.
    pub open spec fn pending<N>(self, proc: Process<N>) -> bool {
        &&& proc.wf()
        &&& iovec::valid_iovs(proc.memory_set, self.iovs@, true)
        &&& self.buf@.len() == iovec::total_len(self.iovs@)
    }

    /// Goes on after the file was read into `buf`, which a read that succeeds must have filled:
    /// the bytes are spread over the buffers in user memory.
    pub fn complete<N>(self, proc: &mut Process<N>, result: Result<usize, FsError>) -> (ret:
        SysResult)
        requires
            self.pending(*old(proc)),
            result matches Ok(len) ==> len == self.buf@.len(),
        ensures
            ret == transfer::transferred(result),
            final(proc).wf(),
            final(proc).files == old(proc).files,
            final(proc).memory_set.layout() == old(proc).memory_set.layout(),
            final(proc).memory_set.bytes() == if result is Ok {
                iovec::scatter(old(proc).memory_set.bytes(), self.iovs@, self.buf@)
            } else {
                old(proc).memory_set.bytes()
            },
    {
        if result.is_ok() {
            self.iovs.write_all_from_slice(&mut proc.memory_set, self.buf.as_slice());
        }
        transfer::transfer_result(result)
    }
}

/// Starts to read from `fd` into the `iov_count` buffers described at `iov_ptr`.
pub fn sys_readv<N>(proc: &Process<N>, fd: usize, iov_ptr: usize, iov_count: usize) -> (call:
    Result<ReadvCall, SysError>)
    requires
        proc.wf(),
        proc.files@.contains_key(fd) ==> iovec::buffer_fits(
            proc.memory_set,
            iov_ptr as int,
            iov_count as int,
            true,
        ),
    ensures
        match call {
            Ok(call) => {
                &&& iovec::valid_request(proc.memory_set, iov_ptr as int, iov_count as int, true)
                &&& proc.files@.contains_key(fd)
                &&& call.fd == fd
                &&& call.iovs@ == iovec::iovs_at(
                    proc.memory_set.bytes(),
                    iov_ptr as int,
                    iov_count as int,
                )
                &&& call.buf@ == Seq::new(iovec::total_len(call.iovs@), |i: int| 0u8)
                &&& call.pending(*proc)
            },
            Err(e) => {
                &&& !(iovec::valid_request(proc.memory_set, iov_ptr as int, iov_count as int, true)
                    && proc.files@.contains_key(fd))
                &&& e == SysError::Inval
            },
        },
{
    let iovs = match IoVecs::check_and_new(iov_ptr, iov_count, &proc.memory_set, true) {
        Ok(iovs) => iovs,
        Err(e) => return Err(e),
    };
    if !proc.has_file(fd) {
        return Err(SysError::Inval);
    }
    let buf = iovs.new_buf(true);
    Ok(ReadvCall { fd, iovs, buf })
}

/// A `writev` that waits for `buf` to be written to the file `fd`.
pub struct WritevCall {
    /// the file to write
    pub fd: usize,
    /// the bytes to write
    pub buf: Vec<u8>,
}

impl WritevCall {
    /// Goes on after `buf` was written to the file.
    pub fn complete(self, result: Result<usize, FsError>) -> (ret: SysResult)
        ensures
            ret == transfer::transferred(result),
    {
        transfer::transfer_result(result)
    }
}

/// Starts to write to `fd` what the `iov_count` buffers described at `iov_ptr` hold.
pub fn sys_writev<N>(proc: &Process<N>, fd: usize, iov_ptr: usize, iov_count: usize) -> (call:
    Result<WritevCall, SysError>)
    requires
        proc.wf(),
        proc.files@.contains_key(fd) ==> iovec::buffer_fits(
            proc.memory_set,
            iov_ptr as int,
            iov_count as int,
            false,
        ),
    ensures
        match call {
            Ok(call) => {
                &&& iovec::valid_request(proc.memory_set, iov_ptr as int, iov_count as int, false)
                &&& proc.files@.contains_key(fd)
                &&& call.fd == fd
                &&& call.buf@ == iovec::gather(
                    proc.memory_set.bytes(),
                    iovec::iovs_at(proc.memory_set.bytes(), iov_ptr as int, iov_count as int),
                )
            },
            Err(e) => {
                &&& !(iovec::valid_request(proc.memory_set, iov_ptr as int, iov_count as int, false)
                    && proc.files@.contains_key(fd))
                &&& e == SysError::Inval
            },
        },
{
    let iovs = match IoVecs::check_and_new(iov_ptr, iov_count, &proc.memory_set, false) {
        Ok(iovs) => iovs,
        Err(e) => return Err(e),
    };
    if !proc.has_file(fd) {
        return Err(SysError::Inval);
    }
    let buf = iovs.read_all_to_vec(&proc.memory_set);
    Ok(WritevCall { fd, buf })
}

/// Buffers that share no address with each other or with their descriptors give back to
/// `writev` what `readv` filled them with.
pub proof fn law_writev_after_readv(
    before: MemorySet,
    after: MemorySet,
    iov_ptr: int,
    iov_count: int,
    buf: Seq<u8>,
)
    requires
        before.wf(),
        0 <= iov_count,
        iovec::valid_request(before, iov_ptr, iov_count, true),
        ({
            let iovs = iovec::iovs_at(before.bytes(), iov_ptr, iov_count);
            &&& buf.len() == iovec::total_len(iovs)
            &&& iovec::all_apart(iovs)
            &&& forall|addr: int|
                iov_ptr <= addr < iov_ptr + iovec::IOVEC_SIZE * iov_count ==> !iovec::touches(
                    iovs,
                    addr,
                )
            &&& after.layout() == before.layout()
            &&& after.bytes() == iovec::scatter(before.bytes(), iovs, buf)
        }),
    ensures
        iovec::valid_request(after, iov_ptr, iov_count, false),
        iovec::gather(
            after.bytes(),
            iovec::iovs_at(after.bytes(), iov_ptr, iov_count),
        ) == buf,
{
    let iovs = iovec::iovs_at(before.bytes(), iov_ptr, iov_count);
    let size = iovec::IOVEC_SIZE as int;
    assert forall|addr: int| iov_ptr <= addr < iov_ptr + size * iov_count implies (
    #[trigger] after.bytes()[addr]) == before.bytes()[addr] by {
        before.lemma_readable_mapped(iov_ptr, size * iov_count, addr);
        iovec::law_scatter_frame(before.bytes(), iovs, buf, addr);
    }
    assert forall|k: int| 0 <= k < iov_count implies #[trigger] iovec::iovs_at(
        after.bytes(),
        iov_ptr,
        iov_count,
    )[k] == iovs[k] by {
        assert(memory::bytes_at(after.bytes(), iov_ptr + size * k, size) =~= memory::bytes_at(
            before.bytes(),
            iov_ptr + size * k,
            size,
        ));
    }
    assert(iovec::iovs_at(after.bytes(), iov_ptr, iov_count) =~= iovs);
    iovec::law_gather_after_scatter(before.bytes(), iovs, buf);
    assert(buf.take(buf.len() as int) =~= buf);
    assert forall|i: int| 0 <= i < iovs.len() implies after.readable(
        (#[trigger] iovs[i]).base as int,
        iovs[i].size() as int,
    ) by {
        before.lemma_writable_readable(iovs[i].base as int, iovs[i].size() as int);
    }
}

/// `writev` of one buffer hands the file the bytes of the buffer that the descriptor tells: those
/// from its address on, over its whole length. It is refused exactly where those may not be read,
/// or where the file is not open.
pub proof fn law_writev_one<N>(
    proc: &Process<N>,
    fd: usize,
    iov_ptr: usize,
    base: usize,
    len: usize,
    call: Result<WritevCall, SysError>,
    k: int,
)
    requires
        proc.memory_set.readable(iov_ptr as int, 16),
        proc.memory_set.range(iov_ptr as int, 16) == iovec::descriptor(base as nat, len as nat),
        call_ensures(sys_writev::<N>, (proc, fd, iov_ptr, 1usize), call),
    ensures
        call is Ok <==> proc.memory_set.readable(base as int, len as int)
            && proc.files@.contains_key(fd),
        call matches Ok(call) ==> {
            &&& call.fd == fd
            &&& call.buf@.len() == len
            &&& 0 <= k < len ==> call.buf@[k] == proc.memory_set.bytes()[base + k]
        },
        call matches Err(e) ==> e == SysError::Inval,
{
    let iov = IoVec { base, len: len as u64 };
    lemma_one_descriptor(proc.memory_set, iov_ptr as int, iov);
    iovec::law_gather_one(proc.memory_set.bytes(), iov, k);
}

/// `readv` into one buffer takes as many bytes from the file as the descriptor tells, and is
/// refused exactly where the buffer may not be written, or where the file is not open.
pub proof fn law_readv_one<N>(
    proc: &Process<N>,
    fd: usize,
    iov_ptr: usize,
    base: usize,
    len: usize,
    call: Result<ReadvCall, SysError>,
)
    requires
        proc.memory_set.readable(iov_ptr as int, 16),
        proc.memory_set.range(iov_ptr as int, 16) == iovec::descriptor(base as nat, len as nat),
        call_ensures(sys_readv::<N>, (proc, fd, iov_ptr, 1usize), call),
    ensures
        call is Ok <==> proc.memory_set.writable(base as int, len as int)
            && proc.files@.contains_key(fd),
        call matches Ok(call) ==> {
            &&& call.fd == fd
            &&& call.buf@.len() == len
            &&& call.iovs.0@ == seq![IoVec { base, len: len as u64 }]
        },
        call matches Err(e) ==> e == SysError::Inval,
{
    let iov = IoVec { base, len: len as u64 };
    lemma_one_descriptor(proc.memory_set, iov_ptr as int, iov);
    iovec::law_total_len(Seq::empty(), Seq::empty(), iov);
}

/// One descriptor in memory is a request for the one buffer it tells.
proof fn lemma_one_descriptor(vm: MemorySet, iov_ptr: int, iov: IoVec)
    requires
        iov.len <= usize::MAX,
        vm.readable(iov_ptr, 16),
        vm.range(iov_ptr, 16) == iovec::descriptor(iov.base as nat, iov.len as nat),
    ensures
        iovec::iovs_at(vm.bytes(), iov_ptr, 1) == seq![iov],
        iovec::valid_request(vm, iov_ptr, 1, true) <==> vm.writable(
            iov.base as int,
            iov.len as int,
        ),
        iovec::valid_request(vm, iov_ptr, 1, false) <==> vm.readable(
            iov.base as int,
            iov.len as int,
        ),
{
    let iovs = iovec::iovs_at(vm.bytes(), iov_ptr, 1);
    iovec::law_descriptors_in_memory(vm.bytes(), iov_ptr, 1, 0, iov.base, iov.len);
    assert(iovs[0] == iov);
    assert(iovs =~= seq![iov]);
    assert(iov.size() == iov.len);
}

/// A `writev` of several buffers hands the file what two that share the buffers between them hand
/// it one after the other.
pub proof fn law_writev_divides<N>(
    proc: &Process<N>,
    fd: usize,
    iov_ptr: usize,
    a: usize,
    b: usize,
    second: usize,
    both: usize,
    from_a: WritevCall,
    from_b: WritevCall,
    from_both: WritevCall,
)
    requires
        second == iov_ptr + 16 * a,
        both == a + b,
        call_ensures(sys_writev::<N>, (proc, fd, iov_ptr, a), Ok(from_a)),
        call_ensures(sys_writev::<N>, (proc, fd, second, b), Ok(from_b)),
        call_ensures(sys_writev::<N>, (proc, fd, iov_ptr, both), Ok(from_both)),
    ensures
        from_both.buf@ == from_a.buf@ + from_b.buf@,
{
    let memory = proc.memory_set.bytes();
    iovec::law_descriptors_concat(memory, iov_ptr as int, a as int, b as int);
    iovec::law_gather_concat(
        memory,
        iovec::iovs_at(memory, iov_ptr as int, a as int),
        iovec::iovs_at(memory, second as int, b as int),
    );
}

/// The buffer for a `readv` of several buffers is as long as those for two that share the buffers
/// between them.
pub proof fn law_readv_divides<N>(
    proc: &Process<N>,
    fd: usize,
    iov_ptr: usize,
    a: usize,
    b: usize,
    second: usize,
    both: usize,
    into_a: ReadvCall,
    into_b: ReadvCall,
    into_both: ReadvCall,
)
    requires
        second == iov_ptr + 16 * a,
        both == a + b,
        call_ensures(sys_readv::<N>, (proc, fd, iov_ptr, a), Ok(into_a)),
        call_ensures(sys_readv::<N>, (proc, fd, second, b), Ok(into_b)),
        call_ensures(sys_readv::<N>, (proc, fd, iov_ptr, both), Ok(into_both)),
    ensures
        into_both.buf@.len() == into_a.buf@.len() + into_b.buf@.len(),
        into_both.iovs.0@ == into_a.iovs.0@ + into_b.iovs.0@,
{
    let memory = proc.memory_set.bytes();
    iovec::law_descriptors_concat(memory, iov_ptr as int, a as int, b as int);
    iovec::law_total_len(
        into_a.iovs.0@,
        into_b.iovs.0@,
        IoVec { base: 0, len: 0 },
    );
}

/// `readv` returns how many bytes the file gave. Where it gave them, buffers that share no address
/// hold them one after the other; where it did not, no byte has changed. No byte outside the
/// buffers, no area and no open file changes.
pub proof fn law_readv_completes<N>(
    call: ReadvCall,
    proc: &mut Process<N>,
    result: Result<usize, FsError>,
    ret: SysResult,
    addr: int,
)
    requires
        call.buf@.len() == iovec::total_len(call.iovs.0@),
        call_ensures(ReadvCall::complete::<N>, (call, proc, result), ret),
    ensures
        result matches Ok(n) ==> {
            &&& ret matches Ok(value) && value as usize == n
            &&& n <= isize::MAX ==> ret->Ok_0 == n as int
        },
        result matches Err(e) ==> ret == Err::<isize, SysError>(error::sys_error(e)),
        result is Ok ==> final(proc).memory_set.bytes() == iovec::scatter(
            old(proc).memory_set.bytes(),
            call.iovs.0@,
            call.buf@,
        ),
        result is Ok && iovec::all_apart(call.iovs.0@) ==> iovec::gather(
            final(proc).memory_set.bytes(),
            call.iovs.0@,
        ) == call.buf@,
        result is Err ==> final(proc).memory_set.bytes() == old(proc).memory_set.bytes(),
        !iovec::touches(call.iovs.0@, addr) && old(proc).memory_set.bytes().contains_key(addr)
            ==> final(proc).memory_set.bytes()[addr] == old(proc).memory_set.bytes()[addr],
        final(proc).memory_set.layout() == old(proc).memory_set.layout(),
        final(proc).files@ == old(proc).files@,
{
    transfer::lemma_transferred(result);
    assert(call.buf@.take(call.buf@.len() as int) =~= call.buf@);
    if iovec::all_apart(call.iovs.0@) {
        iovec::law_gather_after_scatter(old(proc).memory_set.bytes(), call.iovs.0@, call.buf@);
    }
    if !iovec::touches(call.iovs.0@, addr) {
        iovec::law_scatter_frame(old(proc).memory_set.bytes(), call.iovs.0@, call.buf@, addr);
    }
}

/// `writev` returns how many bytes the file took.
pub proof fn law_writev_completes(
    call: WritevCall,
    result: Result<usize, FsError>,
    ret: SysResult,
)
    requires
        call_ensures(WritevCall::complete, (call, result), ret),
    ensures
        result matches Ok(n) ==> {
            &&& ret matches Ok(value) && value as usize == n
            &&& n <= isize::MAX ==> ret->Ok_0 == n as int
        },
        result matches Err(e) ==> ret == Err::<isize, SysError>(error::sys_error(e)),
{
    transfer::lemma_transferred(result);
}

/// `readv` and `writev` accept a request exactly where the buffers are accepted and the file is open,
/// however many buffers there are. They hand out the file they were given; `readv` a buffer as long
/// as the buffers together, and `writev` what is read from them.
pub proof fn law_vectored_asks<N>(
    proc: &Process<N>,
    fd: usize,
    iov_ptr: usize,
    iov_count: usize,
    to_fill: Result<IoVecs, SysError>,
    to_read: Result<IoVecs, SysError>,
    held: Vec<u8>,
    readv: Result<ReadvCall, SysError>,
    writev: Result<WritevCall, SysError>,
)
    requires
        call_ensures(
            IoVecs::check_and_new,
            (iov_ptr, iov_count, &proc.memory_set, true),
            to_fill,
        ),
        call_ensures(
            IoVecs::check_and_new,
            (iov_ptr, iov_count, &proc.memory_set, false),
            to_read,
        ),
        to_read matches Ok(iovs) ==> call_ensures(
            IoVecs::read_all_to_vec,
            (&iovs, &proc.memory_set),
            held,
        ),
        call_ensures(sys_readv::<N>, (proc, fd, iov_ptr, iov_count), readv),
        call_ensures(sys_writev::<N>, (proc, fd, iov_ptr, iov_count), writev),
    ensures
        readv is Ok <==> to_fill is Ok && proc.files@.contains_key(fd),
        writev is Ok <==> to_read is Ok && proc.files@.contains_key(fd),
        readv matches Ok(call) ==> {
            &&& call.fd == fd
            &&& call.iovs.0@ == to_fill->Ok_0.0@
            &&& call.buf@.len() == iovec::total_len(call.iovs.0@)
        },
        writev matches Ok(call) ==> call.fd == fd && call.buf@ == held@,
        readv matches Err(e) ==> e == SysError::Inval,
        writev matches Err(e) ==> e == SysError::Inval,
{
}

} // verus!
