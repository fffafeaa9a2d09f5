//! Scattered buffers in user memory, as `readv` and `writev` take them.

use vstd::prelude::*;

use crate::endian;
use crate::error::SysError;
use crate::memory;
use crate::memory::MemorySet;

verus! {

/// Number of bytes of a buffer descriptor in user memory.
pub const IOVEC_SIZE: usize = 16;

/// A buffer in user memory.
#[derive(Clone, Copy, Debug, PartialEq, Eq, Structural)]
pub struct IoVec {
    /// Starting address
    pub base: usize,
    /// Number of bytes to transfer
    pub len: u64,
}

impl IoVec {
    /// The number of bytes as a size of this machine.
    pub open spec fn size(self) -> usize {
        self.len as usize
    }

    /// The descriptor that sixteen bytes stand for: eight little-endian bytes of address, then
    /// eight of length.
    pub open spec fn decoded(bytes: Seq<u8>) -> IoVec {
        IoVec {
            base: endian::le_value(bytes.subrange(0, 8)) as u64 as usize,
            len: endian::le_value(bytes.subrange(8, 16)) as u64,
        }
    }

    /// The descriptor at `start` in `bytes`.
    pub fn from_bytes(bytes: &[u8], start: usize) -> (iov: IoVec)
        requires
            start + IOVEC_SIZE <= bytes@.len(),
        ensures
            iov == IoVec::decoded(bytes@.subrange(start as int, start + IOVEC_SIZE)),
    {
        let total: usize = bytes.len();
        let base: u64 = endian::decode(bytes, start, 8);
        let len: u64 = endian::decode(bytes, start + 8, 8);
        proof {
            let own = bytes@.subrange(start as int, start + IOVEC_SIZE);
            assert(own.subrange(0, 8) =~= bytes@.subrange(start as int, start + 8));
            assert(own.subrange(8, 16) =~= bytes@.subrange(start + 8, start + 16));
        }
        IoVec { base: base as usize, len }
    }
}

/// The `count` descriptors that stand in `memory` from `ptr` on.
pub open spec fn iovs_at(memory: Map<int, u8>, ptr: int, count: int) -> Seq<IoVec> {
    Seq::new(
        count as nat,
        |k: int| IoVec::decoded(memory::bytes_at(memory, ptr + IOVEC_SIZE * k, IOVEC_SIZE as int)),
    )
}

/// Each buffer lies in one area of `vm`: for `readv`, which fills the buffers, in one that
/// may be written.
pub open spec fn valid_iovs(vm: MemorySet, iovs: Seq<IoVec>, readv: bool) -> bool {
    forall|i: int|
        0 <= i < iovs.len() ==> if readv {
            vm.writable((#[trigger] iovs[i]).base as int, iovs[i].size() as int)
        } else {
            vm.readable(iovs[i].base as int, iovs[i].size() as int)
        }
}

/// The descriptors from `ptr` on may be read, and the buffers they describe are valid.
pub open spec fn valid_request(vm: MemorySet, ptr: int, count: int, readv: bool) -> bool {
    &&& vm.readable(ptr, IOVEC_SIZE * count)
    &&& valid_iovs(vm, iovs_at(vm.bytes(), ptr, count), readv)
}

/// The number of bytes in all buffers.
pub open spec fn total_len(iovs: Seq<IoVec>) -> nat
    decreases iovs.len(),
{
    if iovs.len() == 0 {
        0
    } else {
        total_len(iovs.drop_last()) + iovs.last().size() as nat
    }
}

/// One buffer can hold what the buffers described at `ptr` hold together.
pub open spec fn buffer_fits(vm: MemorySet, ptr: int, count: int, readv: bool) -> bool {
    valid_request(vm, ptr, count, readv) ==> total_len(iovs_at(vm.bytes(), ptr, count))
        <= isize::MAX
}

/// The contents of the buffers, one after the other.
pub open spec fn gather(memory: Map<int, u8>, iovs: Seq<IoVec>) -> Seq<u8>
    decreases iovs.len(),
{
    if iovs.len() == 0 {
        Seq::empty()
    } else {
        gather(memory, iovs.drop_last()) + memory::bytes_at(
            memory,
            iovs.last().base as int,
            iovs.last().size() as int,
        )
    }
}

/// The memory after the buffers were filled from `buf`, one after the other. Where two
/// buffers share an address, the later one counts.
pub open spec fn scatter(memory: Map<int, u8>, iovs: Seq<IoVec>, buf: Seq<u8>) -> Map<int, u8>
    decreases iovs.len(),
{
    if iovs.len() == 0 {
        memory
    } else {
        memory::overwrite(
            scatter(memory, iovs.drop_last(), buf),
            iovs.last().base as int,
            buf.subrange(total_len(iovs.drop_last()) as int, total_len(iovs) as int),
        )
    }
}

/// A longer list of buffers holds no fewer bytes.
proof fn lemma_total_len_monotonic(iovs: Seq<IoVec>, n: int)
    requires
        0 <= n <= iovs.len(),
    ensures
        total_len(iovs.take(n)) <= total_len(iovs),
    decreases iovs.len(),
{
    if n < iovs.len() {
        assert(iovs.drop_last().take(n) =~= iovs.take(n));
        lemma_total_len_monotonic(iovs.drop_last(), n);
    } else {
        assert(iovs.take(n) =~= iovs);
    }
}

/// A valid IoVecs request from user
#[derive(Debug)]
pub struct IoVecs(pub Vec<IoVec>);

impl IoVecs {
    /// The buffers.
    pub open spec fn view(&self) -> Seq<IoVec> {
        self.0@
    }

    /// Takes the `iov_count` descriptors at `iov_ptr`, if they and the buffers they describe
    /// are the process's own.
    pub fn check_and_new(
        iov_ptr: usize,
        iov_count: usize,
        vm: &MemorySet,
        readv: bool,
    ) -> (request: Result<IoVecs, SysError>)
        requires
            vm.wf(),
        ensures
            match request {
                Ok(iovs) => {
                    &&& valid_request(*vm, iov_ptr as int, iov_count as int, readv)
                    &&& iovs@ == iovs_at(vm.bytes(), iov_ptr as int, iov_count as int)
                },
                Err(e) => {
                    &&& !valid_request(*vm, iov_ptr as int, iov_count as int, readv)
                    &&& e == SysError::Inval
                },
            },
    {
        let size: usize = match iov_count.checked_mul(IOVEC_SIZE) {
            Some(size) => size,
            None => {
                proof {
                    if vm.readable(iov_ptr as int, IOVEC_SIZE * iov_count) {
                        vm.lemma_readable_bound(iov_ptr as int, IOVEC_SIZE * iov_count);
                    }
                }
                return Err(SysError::Inval);
            },
        };
        if !vm.check_array(iov_ptr, size) {
            return Err(SysError::Inval);
        }
        let ghost wanted = iovs_at(vm.bytes(), iov_ptr as int, iov_count as int);
        let bytes = vm.read(iov_ptr, size);
        let mut iovs: Vec<IoVec> = Vec::new();
        let mut i: usize = 0;
        while i < iov_count
            invariant
                vm.wf(),
                size == IOVEC_SIZE * iov_count,
                bytes@ == vm.range(iov_ptr as int, size as int),
                i <= iov_count,
                wanted == iovs_at(vm.bytes(), iov_ptr as int, iov_count as int),
                iovs@ == wanted.take(i as int),
                valid_iovs(*vm, iovs@, readv),
            decreases iov_count - i,
        {
            let start: usize = IOVEC_SIZE * i;
            let iov = IoVec::from_bytes(bytes.as_slice(), start);
            proof {
                assert(bytes@.subrange(start as int, start + IOVEC_SIZE) =~= memory::bytes_at(
                    vm.bytes(),
                    iov_ptr + IOVEC_SIZE * i,
                    IOVEC_SIZE as int,
                ));
                assert(iov == wanted[i as int]);
            }
            let len: usize = iov.len as usize;
            if readv && !vm.check_mut_array(iov.base, len) || !readv && !vm.check_array(
                iov.base,
                len,
            ) {
                return Err(SysError::Inval);
            }
            iovs.push(iov);
            i = i + 1;
            assert(iovs@ =~= wanted.take(i as int));
        }
        assert(iovs@ =~= wanted);
        Ok(IoVecs(iovs))
    }

    /// Whether one buffer can hold what the buffers described at `iov_ptr` hold together.
    pub fn fits(iov_ptr: usize, iov_count: usize, vm: &MemorySet, readv: bool) -> (fits: bool)
        requires
            vm.wf(),
        ensures
            fits == buffer_fits(*vm, iov_ptr as int, iov_count as int, readv),
    {
        match IoVecs::check_and_new(iov_ptr, iov_count, vm, readv) {
            Ok(iovs) => iovs.total_len().is_some(),
            Err(_) => true,
        }
    }

    /// The number of bytes in all buffers, if one buffer can hold as many.
    pub fn total_len(&self) -> (total: Option<usize>)
        ensures
            match total {
                Some(n) => n == total_len(self@) && n <= isize::MAX,
                None => total_len(self@) > isize::MAX,
            },
    {
        let limit: usize = isize::MAX as usize;
        let mut total: usize = 0;
        let mut i: usize = 0;
        while i < self.0.len()
            invariant
                limit == isize::MAX,
                i <= self@.len(),
                total == total_len(self@.take(i as int)),
                total <= limit,
            decreases self@.len() - i,
        {
            let len: usize = self.0[i].len as usize;
            proof {
                assert(self@.take(i + 1).drop_last() =~= self@.take(i as int));
                lemma_total_len_monotonic(self@, i + 1);
            }
            if len > limit - total {
                return None;
            }
            total = total + len;
            i = i + 1;
        }
        assert(self@.take(i as int) =~= self@);
        Some(total)
    }

    /// Create a new Vec buffer from IoVecs
    /// For readv:  `set_len` is true,  Vec.len = total_len.
    /// For writev: `set_len` is false, Vec.cap = total_len.
    pub fn new_buf(&self, set_len: bool) -> (buf: Vec<u8>)
        requires
            total_len(self@) <= isize::MAX,
        ensures
            buf@ == if set_len {
                Seq::new(total_len(self@), |i: int| 0u8)
            } else {
                Seq::empty()
            },
    {
        let total: usize = self.total_len().unwrap();
        let mut buf: Vec<u8> = Vec::with_capacity(total);
        if set_len {
            buf.resize(total, 0u8);
        }
        assert(set_len ==> buf@ =~= Seq::new(total_len(self@), |i: int| 0u8));
        buf
    }

    /// The contents of the buffers, one after the other.
    pub fn read_all_to_vec(&self, vm: &MemorySet) -> (buf: Vec<u8>)
        requires
            vm.wf(),
            valid_iovs(*vm, self@, false),
            total_len(self@) <= isize::MAX,
        ensures
            buf@ == gather(vm.bytes(), self@),
    {
        let mut buf = self.new_buf(false);
        let mut i: usize = 0;
        while i < self.0.len()
            invariant
                vm.wf(),
                valid_iovs(*vm, self@, false),
                i <= self@.len(),
                buf@ == gather(vm.bytes(), self@.take(i as int)),
            decreases self@.len() - i,
        {
            let iov = self.0[i];
            let mut slice = vm.read(iov.base, iov.len as usize);
            buf.append(&mut slice);
            i = i + 1;
            assert(self@.take(i as int).drop_last() =~= self@.take(i - 1));
        }
        assert(self@.take(i as int) =~= self@);
        buf
    }

    /// Fills the buffers from `buf`, one after the other.
    pub fn write_all_from_slice(&self, vm: &mut MemorySet, buf: &[u8])
        requires
            old(vm).wf(),
            valid_iovs(*old(vm), self@, true),
            total_len(self@) <= buf@.len(),
        ensures
            final(vm).wf(),
            final(vm).layout() == old(vm).layout(),
            final(vm).bytes() == scatter(old(vm).bytes(), self@, buf@),
    {
        let ghost before = *vm;
        let mut copied_len: usize = 0;
        let mut i: usize = 0;
        while i < self.0.len()
            invariant
                vm.wf(),
                vm.layout() == before.layout(),
                valid_iovs(before, self@, true),
                total_len(self@) <= buf@.len(),
                i <= self@.len(),
                copied_len == total_len(self@.take(i as int)),
                vm.bytes() == scatter(before.bytes(), self@.take(i as int), buf@),
            decreases self@.len() - i,
        {
            let iov = self.0[i];
            let len: usize = iov.len as usize;
            proof {
                assert(self@.take(i + 1).drop_last() =~= self@.take(i as int));
                lemma_total_len_monotonic(self@, i + 1);
                assert(buf@.len() == buf.len());
                assert(before.writable(self@[i as int].base as int, self@[i as int].size() as int));
            }
            let part = vstd::slice::slice_subrange(buf, copied_len, copied_len + len);
            vm.write(iov.base, part);
            copied_len = copied_len + len;
            i = i + 1;
        }
        assert(self@.take(i as int) =~= self@);
    }
}

/// The two buffers share no address.
pub open spec fn apart(a: IoVec, b: IoVec) -> bool {
    ||| a.size() == 0
    ||| b.size() == 0
    ||| a.base + a.size() <= b.base
    ||| b.base + b.size() <= a.base
}

/// No two of the buffers share an address.
pub open spec fn all_apart(iovs: Seq<IoVec>) -> bool {
    forall|i: int, j: int|
        0 <= i < j < iovs.len() ==> apart(#[trigger] iovs[i], #[trigger] iovs[j])
}

/// The address belongs to one of the buffers.
pub open spec fn touches(iovs: Seq<IoVec>, addr: int) -> bool {
    exists|i: int|
        0 <= i < iovs.len() && (#[trigger] iovs[i]).base <= addr < iovs[i].base + iovs[i].size()
}

/// Gathering looks at the bytes of the buffers only.
proof fn lemma_gather_frame(a: Map<int, u8>, b: Map<int, u8>, iovs: Seq<IoVec>)
    requires
        forall|addr: int| touches(iovs, addr) ==> a[addr] == b[addr],
    ensures
        gather(a, iovs) == gather(b, iovs),
    decreases iovs.len(),
{
    if iovs.len() > 0 {
        let last = iovs.last();
        assert forall|addr: int| touches(iovs.drop_last(), addr) implies a[addr] == b[addr] by {
            let i = choose|i: int|
                0 <= i < iovs.drop_last().len() && (#[trigger] iovs.drop_last()[i]).base <= addr
                    < iovs.drop_last()[i].base + iovs.drop_last()[i].size();
            assert(iovs[i] == iovs.drop_last()[i]);
            assert(touches(iovs, addr));
        }
        lemma_gather_frame(a, b, iovs.drop_last());
        let left = memory::bytes_at(a, last.base as int, last.size() as int);
        let right = memory::bytes_at(b, last.base as int, last.size() as int);
        assert forall|k: int| 0 <= k < left.len() implies left[k] == right[k] by {
            assert(iovs[iovs.len() - 1] == last);
            assert(touches(iovs, last.base + k));
        }
        assert(left =~= right);
    }
}

/// What is gathered from the buffers is as long as the buffers together.
pub proof fn law_gather_len(memory: Map<int, u8>, iovs: Seq<IoVec>)
    ensures
        gather(memory, iovs).len() == total_len(iovs),
    decreases iovs.len(),
{
    if iovs.len() > 0 {
        law_gather_len(memory, iovs.drop_last());
    }
}

/// Filling the buffers changes no byte outside them, and maps no new address but theirs.
pub proof fn law_scatter_frame(memory: Map<int, u8>, iovs: Seq<IoVec>, buf: Seq<u8>, addr: int)
    requires
        total_len(iovs) <= buf.len(),
        !touches(iovs, addr),
    ensures
        scatter(memory, iovs, buf).contains_key(addr) == memory.contains_key(addr),
        memory.contains_key(addr) ==> scatter(memory, iovs, buf)[addr] == memory[addr],
    decreases iovs.len(),
{
    if iovs.len() > 0 {
        let rest = iovs.drop_last();
        assert(!touches(rest, addr)) by {
            if touches(rest, addr) {
                let i = choose|i: int|
                    0 <= i < rest.len() && (#[trigger] rest[i]).base <= addr < rest[i].base
                        + rest[i].size();
                assert(iovs[i] == rest[i]);
            }
        }
        assert(iovs[iovs.len() - 1] == iovs.last());
        law_scatter_frame(memory, rest, buf, addr);
    }
}

/// Buffers that share no address hold, once filled, what they were filled from: gathering
/// them gives it back.
pub proof fn law_gather_after_scatter(memory: Map<int, u8>, iovs: Seq<IoVec>, buf: Seq<u8>)
    requires
        all_apart(iovs),
        total_len(iovs) <= buf.len(),
    ensures
        gather(scatter(memory, iovs, buf), iovs) == buf.take(total_len(iovs) as int),
    decreases iovs.len(),
{
    if iovs.len() > 0 {
        let rest = iovs.drop_last();
        let last = iovs.last();
        let part = buf.subrange(total_len(rest) as int, total_len(iovs) as int);
        let inner = scatter(memory, rest, buf);
        let outer = scatter(memory, iovs, buf);
        law_gather_after_scatter(memory, rest, buf);
        assert forall|addr: int| touches(rest, addr) implies outer[addr] == inner[addr] by {
            let i = choose|i: int|
                0 <= i < rest.len() && (#[trigger] rest[i]).base <= addr < rest[i].base
                    + rest[i].size();
            assert(apart(iovs[i], iovs[iovs.len() - 1]));
            lemma_scatter_maps(memory, rest, buf, addr);
        }
        lemma_gather_frame(outer, inner, rest);
        assert(memory::bytes_at(outer, last.base as int, last.size() as int) =~= part);
    }
    assert(gather(scatter(memory, iovs, buf), iovs) =~= buf.take(total_len(iovs) as int));
}

/// Filling the buffers with what they hold changes nothing, whether they share addresses or not.
pub proof fn law_scatter_of_gather(vm: MemorySet, iovs: Seq<IoVec>)
    requires
        vm.wf(),
        valid_iovs(vm, iovs, false),
    ensures
        scatter(vm.bytes(), iovs, gather(vm.bytes(), iovs)) == vm.bytes(),
{
    let held = gather(vm.bytes(), iovs);
    law_gather_len(vm.bytes(), iovs);
    assert(held.take(total_len(iovs) as int) =~= held);
    lemma_scatter_of_held(vm, iovs, held);
}

/// Filling the buffers from bytes that begin with what they hold changes nothing.
proof fn lemma_scatter_of_held(vm: MemorySet, iovs: Seq<IoVec>, buf: Seq<u8>)
    requires
        vm.wf(),
        valid_iovs(vm, iovs, false),
        total_len(iovs) <= buf.len(),
        buf.take(total_len(iovs) as int) == gather(vm.bytes(), iovs),
    ensures
        scatter(vm.bytes(), iovs, buf) == vm.bytes(),
    decreases iovs.len(),
{
    if iovs.len() > 0 {
        let rest = iovs.drop_last();
        let last = iovs.last();
        let own = vm.range(last.base as int, last.size() as int);
        let all = buf.take(total_len(iovs) as int);
        law_gather_len(vm.bytes(), rest);
        assert(all == gather(vm.bytes(), rest) + own);
        assert(buf.take(total_len(rest) as int) =~= all.take(total_len(rest) as int));
        assert(all.take(total_len(rest) as int) =~= gather(vm.bytes(), rest));
        assert forall|i: int| 0 <= i < rest.len() implies vm.readable(
            (#[trigger] rest[i]).base as int,
            rest[i].size() as int,
        ) by {
            assert(iovs[i] == rest[i]);
        }
        lemma_scatter_of_held(vm, rest, buf);
        let part = buf.subrange(total_len(rest) as int, total_len(iovs) as int);
        assert(part =~= own) by {
            assert(part =~= all.skip(total_len(rest) as int));
            assert((gather(vm.bytes(), rest) + own).skip(total_len(rest) as int) =~= own);
        }
        assert(iovs[iovs.len() - 1] == last);
        memory::law_write_same(vm, last.base as int, last.size() as int);
    }
}

/// Every address of a filled buffer holds a byte.
proof fn lemma_scatter_maps(memory: Map<int, u8>, iovs: Seq<IoVec>, buf: Seq<u8>, addr: int)
    requires
        total_len(iovs) <= buf.len(),
        touches(iovs, addr),
    ensures
        scatter(memory, iovs, buf).contains_key(addr),
    decreases iovs.len(),
{
    let i = choose|i: int|
        0 <= i < iovs.len() && (#[trigger] iovs[i]).base <= addr < iovs[i].base + iovs[i].size();
    if i < iovs.len() - 1 {
        assert(iovs.drop_last()[i] == iovs[i]);
        lemma_scatter_maps(memory, iovs.drop_last(), buf, addr);
    }
}

/// The sixteen bytes that describe the buffer of `len` bytes at `base`.
pub open spec fn descriptor(base: nat, len: nat) -> Seq<u8> {
    endian::le_bytes(base, 8) + endian::le_bytes(len, 8)
}

/// Every buffer is told by its descriptor: decoding the bytes of an address and a length gives the
/// buffer at that address and of that length.
pub proof fn law_descriptor(base: usize, len: u64)
    ensures
        descriptor(base as nat, len as nat).len() == 16,
        IoVec::decoded(descriptor(base as nat, len as nat)) == (IoVec { base, len }),
{
    broadcast use endian::lemma_le_bytes_len;

    let bytes = descriptor(base as nat, len as nat);
    reveal_with_fuel(endian::le_bound, 9);
    endian::law_le_round_trip(base as nat, 8);
    endian::law_le_round_trip(len as nat, 8);
    assert(bytes.subrange(0, 8) =~= endian::le_bytes(base as nat, 8));
    assert(bytes.subrange(8, 16) =~= endian::le_bytes(len as nat, 8));
}

/// `from_bytes` reads a descriptor back, wherever it stands.
pub proof fn law_from_bytes(bytes: &[u8], start: usize, base: usize, len: u64, iov: IoVec)
    requires
        start + 16 <= bytes@.len(),
        bytes@.subrange(start as int, start + 16) == descriptor(base as nat, len as nat),
        call_ensures(IoVec::from_bytes, (bytes, start), iov),
    ensures
        iov.base == base,
        iov.len == len,
{
    law_descriptor(base, len);
}

/// The number of bytes of a buffer is the length in its descriptor, where that is a size.
pub proof fn law_size(iov: IoVec)
    requires
        iov.len <= usize::MAX,
    ensures
        iov.size() == iov.len,
{
}

/// The descriptors in memory stand one after the other, sixteen bytes each.
pub proof fn law_descriptors_in_memory(
    memory: Map<int, u8>,
    ptr: int,
    count: int,
    k: int,
    base: usize,
    len: u64,
)
    requires
        0 <= k < count,
        memory::bytes_at(memory, ptr + 16 * k, 16) == descriptor(base as nat, len as nat),
    ensures
        iovs_at(memory, ptr, count).len() == count,
        iovs_at(memory, ptr, count)[k] == (IoVec { base, len }),
{
    law_descriptor(base, len);
}

/// The descriptors of two stretches of memory are those of the first and then those of the second.
pub proof fn law_descriptors_concat(memory: Map<int, u8>, ptr: int, a: int, b: int)
    requires
        0 <= a,
        0 <= b,
    ensures
        iovs_at(memory, ptr, a + b) == iovs_at(memory, ptr, a) + iovs_at(memory, ptr + 16 * a, b),
{
    let whole = iovs_at(memory, ptr, a + b);
    let parts = iovs_at(memory, ptr, a) + iovs_at(memory, ptr + 16 * a, b);
    assert forall|k: int| 0 <= k < whole.len() implies whole[k] == parts[k] by {
        if k >= a {
            assert(ptr + 16 * a + 16 * (k - a) == ptr + 16 * k);
        }
    }
    assert(whole =~= parts);
}

/// A request is accepted exactly where its descriptors, sixteen bytes each, may be read and each
/// buffer, over its whole length, may be read, or written for `readv`. What is accepted are the
/// buffers described.
pub proof fn law_request_accepted(
    iov_ptr: usize,
    iov_count: usize,
    vm: &MemorySet,
    readv: bool,
    request: Result<IoVecs, SysError>,
)
    requires
        call_ensures(IoVecs::check_and_new, (iov_ptr, iov_count, vm, readv), request),
        forall|k: int|
            0 <= k < iov_count ==> (#[trigger] iovs_at(
                vm.bytes(),
                iov_ptr as int,
                iov_count as int,
            )[k]).len <= usize::MAX,
    ensures
        request is Ok <==> {
            let iovs = iovs_at(vm.bytes(), iov_ptr as int, iov_count as int);
            &&& vm.readable(iov_ptr as int, 16 * iov_count as int)
            &&& readv ==> forall|k: int|
                0 <= k < iov_count ==> vm.writable(
                    (#[trigger] iovs[k]).base as int,
                    iovs[k].len as int,
                )
            &&& !readv ==> forall|k: int|
                0 <= k < iov_count ==> vm.readable(
                    (#[trigger] iovs[k]).base as int,
                    iovs[k].len as int,
                )
        },
        request matches Ok(accepted) ==> accepted.0@ == iovs_at(
            vm.bytes(),
            iov_ptr as int,
            iov_count as int,
        ),
        request matches Err(e) ==> e == SysError::Inval,
{
    let iovs = iovs_at(vm.bytes(), iov_ptr as int, iov_count as int);
    assert(IOVEC_SIZE * iov_count == 16 * iov_count);
    assert(forall|k: int| 0 <= k < iov_count ==> (#[trigger] iovs[k]).size() == iovs[k].len);
}

/// Two lists of buffers hold together what they hold one by one, and one buffer its own length.
pub proof fn law_total_len(a: Seq<IoVec>, b: Seq<IoVec>, iov: IoVec)
    ensures
        total_len(a + b) == total_len(a) + total_len(b),
        iov.len <= usize::MAX ==> total_len(seq![iov]) == iov.len,
        total_len(Seq::<IoVec>::empty()) == 0,
    decreases b.len(),
{
    assert(seq![iov].drop_last() =~= Seq::<IoVec>::empty());
    reveal_with_fuel(total_len, 2);
    if b.len() > 0 {
        law_total_len(a, b.drop_last(), iov);
        assert((a + b).drop_last() =~= a + b.drop_last());
    } else {
        assert(a + b =~= a);
    }
}

/// How a list of buffers is divided does not matter: what is gathered from two lists is what is
/// gathered from one, followed by what is gathered from the other.
pub proof fn law_gather_concat(memory: Map<int, u8>, a: Seq<IoVec>, b: Seq<IoVec>)
    ensures
        gather(memory, a + b) == gather(memory, a) + gather(memory, b),
    decreases b.len(),
{
    if b.len() > 0 {
        law_gather_concat(memory, a, b.drop_last());
        assert((a + b).drop_last() =~= a + b.drop_last());
        assert(gather(memory, a + b) =~= gather(memory, a) + gather(memory, b));
    } else {
        assert(a + b =~= a);
        assert(gather(memory, a) + gather(memory, b) =~= gather(memory, a));
    }
}

/// What is gathered from one buffer are the bytes of memory from its address on, over its length.
pub proof fn law_gather_one(memory: Map<int, u8>, iov: IoVec, k: int)
    requires
        iov.len <= usize::MAX,
    ensures
        gather(memory, seq![iov]).len() == iov.len,
        0 <= k < iov.len ==> gather(memory, seq![iov])[k] == memory[iov.base + k],
{
    reveal_with_fuel(gather, 2);
    assert(seq![iov].drop_last() =~= Seq::<IoVec>::empty());
    assert(gather(memory, seq![iov]) =~= memory::bytes_at(
        memory,
        iov.base as int,
        iov.size() as int,
    ));
}

/// Filling two lists of buffers is filling the one, and then the other from what is left.
pub proof fn law_scatter_concat(memory: Map<int, u8>, a: Seq<IoVec>, b: Seq<IoVec>, buf: Seq<u8>)
    requires
        total_len(a) + total_len(b) <= buf.len(),
    ensures
        scatter(memory, a + b, buf) == scatter(
            scatter(memory, a, buf),
            b,
            buf.skip(total_len(a) as int),
        ),
    decreases b.len(),
{
    let rest = buf.skip(total_len(a) as int);
    if b.len() > 0 {
        let iov = b.last();
        law_total_len(a, b, iov);
        law_total_len(a, b.drop_last(), iov);
        law_scatter_concat(memory, a, b.drop_last(), buf);
        assert((a + b).drop_last() =~= a + b.drop_last());
        assert((a + b).last() == iov);
        assert(buf.subrange(total_len(a + b.drop_last()) as int, total_len(a + b) as int)
            =~= rest.subrange(total_len(b.drop_last()) as int, total_len(b) as int));
    } else {
        assert(a + b =~= a);
    }
}

/// A buffer that is filled holds the first bytes of what it was filled from, over its whole length,
/// and no other byte changes.
pub proof fn law_scatter_one(memory: Map<int, u8>, iov: IoVec, buf: Seq<u8>, addr: int)
    requires
        iov.len <= buf.len(),
        iov.len <= usize::MAX,
    ensures
        iov.base <= addr < iov.base + iov.len ==> scatter(memory, seq![iov], buf)[addr] == buf[addr
            - iov.base],
        !(iov.base <= addr < iov.base + iov.len) && memory.contains_key(addr) ==> scatter(
            memory,
            seq![iov],
            buf,
        )[addr] == memory[addr],
{
    reveal_with_fuel(scatter, 2);
    reveal_with_fuel(total_len, 2);
    assert(seq![iov].drop_last() =~= Seq::<IoVec>::empty());
}

/// `read_all_to_vec` gathers: the buffers of two requests, in one request, give what the two give
/// one after the other, and one buffer gives its bytes.
pub proof fn law_read_all(
    vm: &MemorySet,
    a: IoVecs,
    b: IoVecs,
    both: IoVecs,
    from_a: Vec<u8>,
    from_b: Vec<u8>,
    from_both: Vec<u8>,
    k: int,
)
    requires
        both.0@ == a.0@ + b.0@,
        call_ensures(IoVecs::read_all_to_vec, (&a, vm), from_a),
        call_ensures(IoVecs::read_all_to_vec, (&b, vm), from_b),
        call_ensures(IoVecs::read_all_to_vec, (&both, vm), from_both),
    ensures
        from_both@ == from_a@ + from_b@,
        a.0@.len() == 1 && a.0@[0].len <= usize::MAX ==> {
            &&& from_a@.len() == a.0@[0].len
            &&& 0 <= k < a.0@[0].len ==> from_a@[k] == vm.bytes()[a.0@[0].base + k]
        },
{
    law_gather_concat(vm.bytes(), a.0@, b.0@);
    if a.0@.len() == 1 && a.0@[0].len <= usize::MAX {
        assert(a.0@ =~= seq![a.0@[0]]);
        law_gather_one(vm.bytes(), a.0@[0], k);
    }
}

/// `write_all_from_slice` fills buffers that share no address so that `read_all_to_vec` gives back
/// the bytes they were filled from, and changes no byte outside the buffers.
pub proof fn law_write_all(
    iovs: IoVecs,
    vm: &mut MemorySet,
    buf: &[u8],
    after: MemorySet,
    back: Vec<u8>,
    addr: int,
)
    requires
        all_apart(iovs.0@),
        total_len(iovs.0@) <= buf@.len(),
        call_ensures(IoVecs::write_all_from_slice, (&iovs, vm, buf), ()),
        after == *final(vm),
        call_ensures(IoVecs::read_all_to_vec, (&iovs, &after), back),
    ensures
        back@ == buf@.take(total_len(iovs.0@) as int),
        !touches(iovs.0@, addr) && old(vm).bytes().contains_key(addr) ==> final(vm).bytes()[addr]
            == old(vm).bytes()[addr],
        final(vm).layout() == old(vm).layout(),
{
    law_gather_after_scatter(old(vm).bytes(), iovs.0@, buf@);
    if !touches(iovs.0@, addr) {
        law_scatter_frame(old(vm).bytes(), iovs.0@, buf@, addr);
    }
}

/// `total_len` gives the number of bytes in all buffers, and nothing exactly where no buffer can be
/// so long; `new_buf` gives a buffer of that length, or an empty one.
pub proof fn law_buffer_len(
    iovs: &IoVecs,
    total: Option<usize>,
    filled: Vec<u8>,
    empty: Vec<u8>,
)
    requires
        call_ensures(IoVecs::total_len, (iovs,), total),
        call_ensures(IoVecs::new_buf, (iovs, true), filled),
        call_ensures(IoVecs::new_buf, (iovs, false), empty),
    ensures
        total is Some <==> total_len(iovs.0@) <= isize::MAX,
        total matches Some(n) ==> n == total_len(iovs.0@),
        filled@.len() == total_len(iovs.0@),
        empty@.len() == 0,
{
}

/// `fits` refuses a request exactly where it is valid and its buffers are together too long for one.
pub proof fn law_fits(
    iov_ptr: usize,
    iov_count: usize,
    vm: &MemorySet,
    readv: bool,
    fits: bool,
    request: Result<IoVecs, SysError>,
)
    requires
        call_ensures(IoVecs::fits, (iov_ptr, iov_count, vm, readv), fits),
        call_ensures(IoVecs::check_and_new, (iov_ptr, iov_count, vm, readv), request),
    ensures
        fits <==> (request matches Ok(iovs) ==> total_len(iovs.0@) <= isize::MAX),
{
}

} // verus!
