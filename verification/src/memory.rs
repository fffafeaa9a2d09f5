//! The memory of a user process: a set of areas, each a run of bytes at some
//! address that the process may read and perhaps write.

use vstd::prelude::*;
use vstd::utf8::*;

verus! {

/// Where an area lies and whether it may be written.
#[derive(Clone, Copy, Debug)]
pub struct Extent {
    /// Address of the first byte
    pub start: usize,
    /// Number of bytes
    pub len: usize,
    /// Whether the process may write to the area
    pub writable: bool,
}

impl Extent {
    /// The `len` bytes from `base` on lie inside the area. An empty range lies inside
    /// wherever its address is not outside.
    pub open spec fn covers(self, base: int, len: int) -> bool {
        self.start <= base && base + len <= self.start + self.len
    }

    /// The two areas share no address.
    pub open spec fn disjoint(self, other: Extent) -> bool {
        self.start + self.len <= other.start || other.start + other.len <= self.start
    }
}

struct MemoryArea {
    start: usize,
    data: Vec<u8>,
    writable: bool,
}

impl MemoryArea {
    spec fn extent(self) -> Extent {
        Extent { start: self.start, len: self.data@.len() as usize, writable: self.writable }
    }

    spec fn holds(self, addr: int) -> bool {
        self.start <= addr < self.start + self.data@.len()
    }
}

/// The memory areas of a process.
pub struct MemorySet {
    areas: Vec<MemoryArea>,
}

/// The bytes `memory` holds, with those from `base` on replaced by `data`.
pub open spec fn overwrite(memory: Map<int, u8>, base: int, data: Seq<u8>) -> Map<int, u8> {
    memory.union_prefer_right(
        Map::new(|addr: int| base <= addr < base + data.len(), |addr: int| data[addr - base]),
    )
}

/// The `len` bytes that `memory` holds from `base` on.
pub open spec fn bytes_at(memory: Map<int, u8>, base: int, len: int) -> Seq<u8> {
    Seq::new(len as nat, |k: int| memory[base + k])
}

impl MemorySet {
    /// The areas, in the order in which they were added.
    pub closed spec fn layout(self) -> Seq<Extent> {
        Seq::new(self.areas@.len(), |i: int| self.areas@[i].extent())
    }

    /// Every mapped address with the byte it holds.
    pub closed spec fn bytes(self) -> Map<int, u8> {
        Map::new(
            |addr: int| exists|i: int| 0 <= i < self.areas@.len() && self.areas@[i].holds(addr),
            |addr: int|
                {
                    let i = choose|i: int| 0 <= i < self.areas@.len() && self.areas@[i].holds(addr);
                    self.areas@[i].data@[addr - self.areas@[i].start]
                },
        )
    }

    /// No area reaches past the end of the address space, and no two share an address.
    pub closed spec fn wf(self) -> bool {
        &&& forall|i: int|
            0 <= i < self.areas@.len() ==> (#[trigger] self.areas@[i]).start
                + self.areas@[i].data@.len() <= usize::MAX
        &&& forall|i: int, j: int|
            0 <= i < j < self.areas@.len() ==> (#[trigger] self.areas@[i]).extent().disjoint(
                (#[trigger] self.areas@[j]).extent(),
            )
    }

    /// The `len` bytes from `base` on lie in one area.
    pub open spec fn readable(self, base: int, len: int) -> bool {
        exists|i: int|
            0 <= i < self.layout().len() && (#[trigger] self.layout()[i]).covers(base, len)
    }

    /// The `len` bytes from `base` on lie in one area that may be written.
    pub open spec fn writable(self, base: int, len: int) -> bool {
        exists|i: int|
            0 <= i < self.layout().len() && (#[trigger] self.layout()[i]).covers(base, len)
                && self.layout()[i].writable
    }

    /// The `len` bytes from `base` on.
    pub open spec fn range(self, base: int, len: int) -> Seq<u8> {
        bytes_at(self.bytes(), base, len)
    }

    proof fn lemma_byte(self, i: int, addr: int)
        requires
            self.wf(),
            0 <= i < self.areas@.len(),
            self.areas@[i].holds(addr),
        ensures
            self.bytes().contains_key(addr),
            self.bytes()[addr] == self.areas@[i].data@[addr - self.areas@[i].start],
    {
        let j = choose|j: int| 0 <= j < self.areas@.len() && self.areas@[j].holds(addr);
        assert(self.areas@[i].holds(addr));
        if i < j {
            assert(self.areas@[i].extent().disjoint(self.areas@[j].extent()));
        } else if j < i {
            assert(self.areas@[j].extent().disjoint(self.areas@[i].extent()));
        }
    }

    /// A range that lies in one area holds a byte at each of its addresses.
    pub proof fn lemma_readable_mapped(self, base: int, len: int, addr: int)
        requires
            self.wf(),
            self.readable(base, len),
            base <= addr < base + len,
        ensures
            self.bytes().contains_key(addr),
    {
        let i = choose|i: int|
            0 <= i < self.layout().len() && (#[trigger] self.layout()[i]).covers(base, len);
        self.lemma_byte(i, addr);
    }

    /// A range that lies in one area ends inside the address space.
    pub proof fn lemma_readable_bound(self, base: int, len: int)
        requires
            self.wf(),
            self.readable(base, len),
        ensures
            0 <= base,
            base + len <= usize::MAX,
    {
        let i = choose|i: int|
            0 <= i < self.layout().len() && (#[trigger] self.layout()[i]).covers(base, len);
        assert(self.layout()[i] == self.areas@[i].extent());
    }

    /// What may be written may be read.
    pub proof fn lemma_writable_readable(self, base: int, len: int)
        requires
            self.writable(base, len),
        ensures
            self.readable(base, len),
    {
    }

    /// A memory without any area.
    pub fn new() -> (memory: Self)
        ensures
            memory.wf(),
            memory.layout() == Seq::<Extent>::empty(),
            memory.bytes() == Map::<int, u8>::empty(),
    {
        let memory = MemorySet { areas: Vec::new() };
        assert(memory.layout() =~= Seq::<Extent>::empty());
        assert(memory.bytes() =~= Map::<int, u8>::empty());
        memory
    }

    /// The index of an area in which the `len` bytes from `base` on lie, one that may be
    /// written where `writing` asks for it.
    fn find(&self, base: usize, len: usize, writing: bool) -> (found: Option<usize>)
        requires
            self.wf(),
        ensures
            match found {
                Some(i) => i < self.areas@.len() && self.areas@[i as int].extent().covers(
                    base as int,
                    len as int,
                ) && (writing ==> self.areas@[i as int].writable),
                None => if writing {
                    !self.writable(base as int, len as int)
                } else {
                    !self.readable(base as int, len as int)
                },
            },
    {
        let mut i: usize = 0;
        while i < self.areas.len()
            invariant
                self.wf(),
                i <= self.areas@.len(),
                forall|j: int|
                    0 <= j < i ==> !((#[trigger] self.areas@[j]).extent().covers(
                        base as int,
                        len as int,
                    ) && (writing ==> self.areas@[j].writable)),
            decreases self.areas@.len() - i,
        {
            let area = &self.areas[i];
            let end: usize = area.start + area.data.len();
            let inside = area.start <= base && base <= end && len <= end - base;
            if inside && (!writing || area.writable) {
                return Some(i);
            }
            i = i + 1;
        }
        assert(forall|j: int|
            0 <= j < self.layout().len() ==> (#[trigger] self.layout()[j])
                == self.areas@[j].extent());
        None
    }

    /// Whether the `len` bytes from `base` on may be read.
    pub fn check_array(&self, base: usize, len: usize) -> (valid: bool)
        requires
            self.wf(),
        ensures
            valid == self.readable(base as int, len as int),
    {
        let found = self.find(base, len, false);
        proof {
            if let Some(i) = found {
                assert(self.layout()[i as int].covers(base as int, len as int));
            }
        }
        found.is_some()
    }

    /// Whether the `len` bytes from `base` on may be written.
    pub fn check_mut_array(&self, base: usize, len: usize) -> (valid: bool)
        requires
            self.wf(),
        ensures
            valid == self.writable(base as int, len as int),
    {
        let found = self.find(base, len, true);
        proof {
            if let Some(i) = found {
                assert(self.layout()[i as int].covers(base as int, len as int));
            }
        }
        found.is_some()
    }

    /// A copy of the `len` bytes from `base` on.
    pub fn read(&self, base: usize, len: usize) -> (data: Vec<u8>)
        requires
            self.wf(),
            self.readable(base as int, len as int),
        ensures
            data@ == self.range(base as int, len as int),
    {
        let mut data: Vec<u8> = Vec::new();
        if let Some(i) = self.find(base, len, false) {
            let area = &self.areas[i];
            let offset: usize = base - area.start;
            let mut done: usize = 0;
            while done < len
                invariant
                    self.wf(),
                    i < self.areas@.len(),
                    *area == self.areas@[i as int],
                    offset == base - area.start,
                    area.start <= base,
                    offset + len <= area.data@.len(),
                    done <= len,
                    data@ == self.range(base as int, done as int),
                decreases len - done,
            {
                proof {
                    assert(area.data@.len() == area.data.len());
                    self.lemma_byte(i as int, base + done);
                }
                data.push(area.data[offset + done]);
                done = done + 1;
                assert(data@ =~= self.range(base as int, done as int));
            }
        }
        data
    }

    /// Replaces the bytes from `base` on by `data`.
    pub fn write(&mut self, base: usize, data: &[u8])
        requires
            old(self).wf(),
            old(self).writable(base as int, data@.len() as int),
        ensures
            final(self).wf(),
            final(self).layout() == old(self).layout(),
            final(self).bytes() == overwrite(old(self).bytes(), base as int, data@),
    {
        let ghost before = *self;
        if let Some(i) = self.find(base, data.len(), true) {
            let offset: usize = base - self.areas[i].start;
            let mut done: usize = 0;
            while done < data.len()
                invariant
                    before.wf(),
                    i < before.areas@.len(),
                    before.areas@[i as int].start + offset == base,
                    offset + data@.len() <= before.areas@[i as int].data@.len(),
                    done <= data@.len(),
                    self.areas@.len() == before.areas@.len(),
                    forall|j: int|
                        0 <= j < before.areas@.len() && j != i ==> self.areas@[j]
                            == before.areas@[j],
                    self.areas@[i as int].start == before.areas@[i as int].start,
                    self.areas@[i as int].writable == before.areas@[i as int].writable,
                    self.areas@[i as int].data@.len() == before.areas@[i as int].data@.len(),
                    forall|k: int|
                        0 <= k < before.areas@[i as int].data@.len()
                            ==> #[trigger] self.areas@[i as int].data@[k] == if offset <= k
                            < offset + done {
                            data@[k - offset]
                        } else {
                            before.areas@[i as int].data@[k]
                        },
                decreases data@.len() - done,
            {
                let byte: u8 = data[done];
                proof {
                    assert(self.areas@[i as int].data.len() == self.areas@[i as int].data@.len());
                }
                self.areas[i].data[offset + done] = byte;
                done = done + 1;
            }
            proof {
                assert forall|j: int| 0 <= j < self.areas@.len() implies (
                #[trigger] self.areas@[j]).extent() == before.areas@[j].extent() by {
                    assert(self.areas@[j].data@.len() == before.areas@[j].data@.len());
                }
                assert(self.layout() =~= before.layout());
                assert forall|a: int, b: int| 0 <= a < b < self.areas@.len() implies (
                #[trigger] self.areas@[a]).extent().disjoint(
                    (#[trigger] self.areas@[b]).extent(),
                ) by {
                    assert(before.areas@[a].extent().disjoint(before.areas@[b].extent()));
                }
                assert(self.wf());
                self.lemma_written(before, i as int, base as int, data@);
            }
        }
    }

    proof fn lemma_written(self, before: Self, i: int, base: int, data: Seq<u8>)
        requires
            self.wf(),
            before.wf(),
            0 <= i < before.areas@.len() == self.areas@.len(),
            before.areas@[i].extent().covers(base, data.len() as int),
            forall|j: int|
                0 <= j < before.areas@.len() && j != i ==> self.areas@[j] == before.areas@[j],
            self.areas@[i].start == before.areas@[i].start,
            self.areas@[i].data@.len() == before.areas@[i].data@.len(),
            forall|k: int|
                0 <= k < before.areas@[i].data@.len() ==> #[trigger] self.areas@[i].data@[k] == if base
                    <= before.areas@[i].start + k < base + data.len() {
                    data[before.areas@[i].start + k - base]
                } else {
                    before.areas@[i].data@[k]
                },
        ensures
            self.bytes() == overwrite(before.bytes(), base, data),
    {
        let target = overwrite(before.bytes(), base, data);
        assert forall|addr: int| self.bytes().contains_key(addr) == target.contains_key(addr) && (
        self.bytes().contains_key(addr) ==> self.bytes()[addr] == target[addr]) by {
            if before.areas@[i].holds(addr) {
                before.lemma_byte(i, addr);
                self.lemma_byte(i, addr);
            } else if exists|j: int| 0 <= j < before.areas@.len() && before.areas@[j].holds(addr) {
                let j = choose|j: int| 0 <= j < before.areas@.len() && before.areas@[j].holds(addr);
                before.lemma_byte(j, addr);
                self.lemma_byte(j, addr);
            } else {
                assert forall|j: int| 0 <= j < self.areas@.len() implies !self.areas@[j].holds(addr) by {
                    assert(!before.areas@[j].holds(addr));
                }
            }
        }
        assert(self.bytes() =~= target);
    }

    /// An area of `len` bytes from `start` on can be added: it stays inside the
    /// address space and clear of the areas that are there.
    pub open spec fn fits(self, start: int, len: int) -> bool {
        &&& start + len <= usize::MAX
        &&& forall|i: int|
            0 <= i < self.layout().len() ==> ((#[trigger] self.layout()[i]).start
                + self.layout()[i].len <= start || start + len <= self.layout()[i].start)
    }

    /// Adds an area that holds `data` from `start` on, and says whether it could.
    pub fn push(&mut self, start: usize, data: Vec<u8>, writable: bool) -> (added: bool)
        requires
            old(self).wf(),
        ensures
            final(self).wf(),
            added == old(self).fits(start as int, data@.len() as int),
            added ==> final(self).layout() == old(self).layout().push(
                Extent { start, len: data@.len() as usize, writable },
            ),
            added ==> final(self).bytes() == overwrite(old(self).bytes(), start as int, data@),
            !added ==> *final(self) == *old(self),
    {
        let ghost before = *self;
        let len: usize = data.len();
        if len > usize::MAX - start {
            return false;
        }
        let mut i: usize = 0;
        while i < self.areas.len()
            invariant
                *self == before,
                before == *old(self),
                len == data@.len(),
                self.wf(),
                start + len <= usize::MAX,
                i <= self.areas@.len(),
                forall|j: int|
                    0 <= j < i ==> ((#[trigger] self.areas@[j]).start + self.areas@[j].data@.len()
                        <= start || start + len <= self.areas@[j].start),
            decreases self.areas@.len() - i,
        {
            let area = &self.areas[i];
            if !(area.start + area.data.len() <= start || start + len <= area.start) {
                proof {
                    assert(before.layout()[i as int] == area.extent());
                    assert(area.extent().len == area.data@.len());
                    assert(!before.fits(start as int, len as int));
                }
                return false;
            }
            i = i + 1;
        }
        let ghost content = data@;
        self.areas.push(MemoryArea { start, data, writable });
        proof {
            assert(forall|j: int|
                0 <= j < before.layout().len() ==> (#[trigger] before.layout()[j])
                    == before.areas@[j].extent());
            assert(forall|j: int| 0 <= j < before.areas@.len() ==> self.areas@[j] == before.areas@[j]);
            assert(self.layout() =~= before.layout().push(
                Extent { start, len, writable },
            ));
            assert(self.wf());
            let last = before.areas@.len() as int;
            let target = overwrite(before.bytes(), start as int, content);
            assert forall|addr: int| self.bytes().contains_key(addr) == target.contains_key(addr) && (
            self.bytes().contains_key(addr) ==> self.bytes()[addr] == target[addr]) by {
                if self.areas@[last].holds(addr) {
                    self.lemma_byte(last, addr);
                } else if exists|j: int| 0 <= j < before.areas@.len() && before.areas@[j].holds(addr) {
                    let j = choose|j: int|
                        0 <= j < before.areas@.len() && before.areas@[j].holds(addr);
                    before.lemma_byte(j, addr);
                    assert(self.areas@[j].holds(addr));
                    self.lemma_byte(j, addr);
                } else {
                    assert forall|j: int| 0 <= j < self.areas@.len() implies !self.areas@[j].holds(
                        addr,
                    ) by {
                        if j < last {
                            assert(!before.areas@[j].holds(addr));
                        }
                    }
                }
            }
            assert(self.bytes() =~= target);
        }
        true
    }

    /// The bytes `text`, none of them zero, stand from `ptr` on in one area, followed by a
    /// zero byte in the same area.
    pub open spec fn is_cstr(self, ptr: int, text: Seq<u8>) -> bool {
        &&& self.readable(ptr, (text.len() + 1) as int)
        &&& self.range(ptr, text.len() as int) == text
        &&& self.bytes()[ptr + text.len()] == 0
        &&& !text.contains(0)
    }

    /// The text of the zero-terminated string at `ptr`, where there is one and it is UTF-8.
    pub open spec fn cstr_at(self, ptr: int) -> Option<Seq<char>> {
        if exists|text: Seq<char>| self.is_cstr(ptr, #[trigger] encode_utf8(text)) {
            Some(choose|text: Seq<char>| self.is_cstr(ptr, #[trigger] encode_utf8(text)))
        } else {
            None
        }
    }

    /// Only one byte string can be the zero-terminated string at an address.
    pub proof fn lemma_cstr_unique(self, ptr: int, a: Seq<u8>, b: Seq<u8>)
        requires
            self.is_cstr(ptr, a),
            self.is_cstr(ptr, b),
        ensures
            a == b,
    {
        if a.len() < b.len() {
            assert(b[a.len() as int] == self.range(ptr, b.len() as int)[a.len() as int]);
            assert(b.contains(0));
        } else if b.len() < a.len() {
            assert(a[b.len() as int] == self.range(ptr, a.len() as int)[b.len() as int]);
            assert(a.contains(0));
        }
    }

    /// The text `text` at `ptr` is what `cstr_at` names.
    pub proof fn lemma_cstr_at(self, ptr: int, text: Seq<char>)
        requires
            self.is_cstr(ptr, encode_utf8(text)),
        ensures
            self.cstr_at(ptr) == Some(text),
    {
        let named = choose|t: Seq<char>| self.is_cstr(ptr, #[trigger] encode_utf8(t));
        self.lemma_cstr_unique(ptr, encode_utf8(text), encode_utf8(named));
        encode_utf8_decode_utf8(text);
        encode_utf8_decode_utf8(named);
    }

    /// A copy of the zero-terminated string at `ptr`, if `ptr` points into an area, a zero
    /// byte follows in that area, and what comes before it is UTF-8.
    pub fn check_and_clone_cstr(&self, ptr: usize) -> (text: Option<String>)
        requires
            self.wf(),
        ensures
            match text {
                Some(s) => self.cstr_at(ptr as int) == Some(s@),
                None => self.cstr_at(ptr as int) is None,
            },
    {
        let found = self.find(ptr, 1, false);
        if found.is_none() {
            proof {
                assert forall|text: Seq<char>| !self.is_cstr(
                    ptr as int,
                    #[trigger] encode_utf8(text),
                ) by {
                    let len = encode_utf8(text).len() as int;
                    if self.readable(ptr as int, len + 1) {
                        let i = choose|i: int|
                            0 <= i < self.layout().len() && (#[trigger] self.layout()[i]).covers(
                                ptr as int,
                                len + 1,
                            );
                        assert(self.layout()[i].covers(ptr as int, 1));
                    }
                }
            }
            return None;
        }
        let i: usize = found.unwrap();
        let area = &self.areas[i];
        let offset: usize = ptr - area.start;
        let mut bytes: Vec<u8> = Vec::new();
        let mut pos: usize = offset;
        while pos < area.data.len() && area.data[pos] != 0
            invariant
                self.wf(),
                i < self.areas@.len(),
                *area == self.areas@[i as int],
                area.start + offset == ptr,
                offset <= pos <= area.data@.len(),
                bytes@ == self.range(ptr as int, pos - offset),
                !bytes@.contains(0),
            decreases area.data@.len() - pos,
        {
            let ghost before = bytes@;
            proof {
                self.lemma_byte(i as int, area.start + pos);
            }
            bytes.push(area.data[pos]);
            pos = pos + 1;
            proof {
                assert(bytes@ =~= self.range(ptr as int, pos - offset));
                assert forall|k: int| 0 <= k < bytes@.len() implies bytes@[k] != 0 by {
                    if k < before.len() {
                        assert(before.contains(before[k]));
                    }
                }
            }
        }
        if pos == area.data.len() {
            proof {
                assert forall|text: Seq<char>| !self.is_cstr(
                    ptr as int,
                    #[trigger] encode_utf8(text),
                ) by {
                    let enc = encode_utf8(text);
                    if self.is_cstr(ptr as int, enc) {
                        let j = choose|j: int|
                            0 <= j < self.layout().len() && (#[trigger] self.layout()[j]).covers(
                                ptr as int,
                                (enc.len() + 1) as int,
                            );
                        if j < i {
                            assert(self.areas@[j].extent().disjoint(self.areas@[i as int].extent()));
                        } else if i < j {
                            assert(self.areas@[i as int].extent().disjoint(self.areas@[j].extent()));
                        }
                        assert(bytes@[enc.len() as int] == 0);
                    }
                }
            }
            return None;
        }
        let ghost content = bytes@;
        proof {
            self.lemma_byte(i as int, area.start + pos);
            assert(self.layout()[i as int].covers(ptr as int, (content.len() + 1) as int));
            assert(self.is_cstr(ptr as int, content));
        }
        let text = string_from_utf8(bytes);
        proof {
            match &text {
                Some(s) => {
                    self.lemma_cstr_at(ptr as int, s@);
                },
                None => {
                    assert forall|t: Seq<char>| !self.is_cstr(
                        ptr as int,
                        #[trigger] encode_utf8(t),
                    ) by {
                        if self.is_cstr(ptr as int, encode_utf8(t)) {
                            self.lemma_cstr_unique(ptr as int, content, encode_utf8(t));
                            encode_utf8_valid_utf8(t);
                        }
                    }
                },
            }
        }
        text
    }
}

/// The text whose UTF-8 form is `bytes`, by `String::from_utf8`. Trusted: the call succeeds
/// exactly on valid UTF-8, and the string it gives has `bytes` as its UTF-8 form.
#[verifier::external_body]
fn string_from_utf8(bytes: Vec<u8>) -> (text: Option<String>)
    ensures
        match text {
            Some(s) => encode_utf8(s@) == bytes@,
            None => !valid_utf8(bytes@),
        },
{
    String::from_utf8(bytes).ok()
}

/// What was written can be read back.
pub proof fn law_read_back(memory: Map<int, u8>, base: int, data: Seq<u8>)
    ensures
        bytes_at(overwrite(memory, base, data), base, data.len() as int) == data,
{
    assert(bytes_at(overwrite(memory, base, data), base, data.len() as int) =~= data);
}

/// Writing changes no byte outside the range that is written.
pub proof fn law_write_frame(memory: Map<int, u8>, base: int, data: Seq<u8>, addr: int)
    requires
        !(base <= addr < base + data.len()),
    ensures
        overwrite(memory, base, data).contains_key(addr) == memory.contains_key(addr),
        memory.contains_key(addr) ==> overwrite(memory, base, data)[addr] == memory[addr],
{
}

/// Writing inside an area maps no new address.
pub proof fn law_write_maps_nothing(memory: MemorySet, base: int, data: Seq<u8>)
    requires
        memory.wf(),
        memory.writable(base, data.len() as int),
    ensures
        overwrite(memory.bytes(), base, data).dom() == memory.bytes().dom(),
{
    memory.lemma_writable_readable(base, data.len() as int);
    assert forall|addr: int| base <= addr < base + data.len() implies memory.bytes().contains_key(
        addr,
    ) by {
        memory.lemma_readable_mapped(base, data.len() as int, addr);
    }
    assert(overwrite(memory.bytes(), base, data).dom() =~= memory.bytes().dom());
}

/// Writing back the bytes that stand in a range changes nothing.
pub proof fn law_write_same(memory: MemorySet, base: int, len: int)
    requires
        memory.wf(),
        0 <= len,
        memory.readable(base, len),
    ensures
        overwrite(memory.bytes(), base, memory.range(base, len)) == memory.bytes(),
{
    assert forall|addr: int| base <= addr < base + len implies memory.bytes().contains_key(
        addr,
    ) by {
        memory.lemma_readable_mapped(base, len, addr);
    }
    assert(overwrite(memory.bytes(), base, memory.range(base, len)) =~= memory.bytes());
}

/// The bytes of a range are those that memory holds at its addresses, in their order.
pub proof fn law_bytes_at(memory: Map<int, u8>, base: int, len: int, k: int)
    requires
        0 <= k < len,
    ensures
        bytes_at(memory, base, len).len() == len,
        bytes_at(memory, base, len)[k] == memory[base + k],
{
}

/// An address holds a byte exactly where it may be read.
pub proof fn law_mapped_readable(memory: MemorySet, addr: int)
    requires
        memory.wf(),
    ensures
        memory.bytes().contains_key(addr) <==> memory.readable(addr, 1),
{
    if memory.readable(addr, 1) {
        memory.lemma_readable_mapped(addr, 1, addr);
    }
    if memory.bytes().contains_key(addr) {
        let i = choose|i: int|
            0 <= i < memory.areas@.len() && memory.areas@[i].holds(addr);
        assert(memory.layout()[i] == memory.areas@[i].extent());
        assert(memory.layout()[i].covers(addr, 1));
    }
}

/// What lies inside a range that may be read, or written, may be read, or written.
pub proof fn law_inside(memory: MemorySet, base: int, len: int, start: int, part: int)
    requires
        base <= start,
        start + part <= base + len,
    ensures
        memory.readable(base, len) ==> memory.readable(start, part),
        memory.writable(base, len) ==> memory.writable(start, part),
{
    if memory.readable(base, len) {
        let i = choose|i: int|
            0 <= i < memory.layout().len() && (#[trigger] memory.layout()[i]).covers(base, len);
        assert(memory.layout()[i].covers(start, part));
    }
    if memory.writable(base, len) {
        let i = choose|i: int|
            0 <= i < memory.layout().len() && (#[trigger] memory.layout()[i]).covers(base, len)
                && memory.layout()[i].writable;
        assert(memory.layout()[i].covers(start, part));
    }
}

/// Two ranges that may be read and share an address may be read as one.
pub proof fn law_joined(memory: MemorySet, a: int, b: int, c: int, d: int)
    requires
        memory.wf(),
        a <= b < c <= d,
        memory.readable(a, c - a),
        memory.readable(b, d - b),
    ensures
        memory.readable(a, d - a),
{
    let i = choose|i: int|
        0 <= i < memory.layout().len() && (#[trigger] memory.layout()[i]).covers(a, c - a);
    let j = choose|j: int|
        0 <= j < memory.layout().len() && (#[trigger] memory.layout()[j]).covers(b, d - b);
    assert(memory.layout()[i] == memory.areas@[i].extent());
    assert(memory.layout()[j] == memory.areas@[j].extent());
    if i < j {
        assert(memory.areas@[i].extent().disjoint(memory.areas@[j].extent()));
    } else if j < i {
        assert(memory.areas@[j].extent().disjoint(memory.areas@[i].extent()));
    }
    assert(memory.layout()[i].covers(a, d - a));
}

/// Of an empty memory nothing may be read.
pub proof fn law_new(memory: MemorySet, base: int, len: int)
    requires
        call_ensures(MemorySet::new, (), memory),
    ensures
        !memory.readable(base, len),
        !memory.writable(base, len),
        !memory.bytes().contains_key(base),
{
}

/// Adding an area lets exactly the ranges inside it be read, and written where it may be, besides
/// those that could be before. It holds its data, and no other byte changes; an area that shares an
/// address with another, or reaches past the end, is not added, and then nothing changes.
pub proof fn law_push(
    memory: &mut MemorySet,
    start: usize,
    data: Vec<u8>,
    writable: bool,
    added: bool,
    base: int,
    len: int,
    addr: int,
)
    requires
        old(memory).wf(),
        data@.len() <= usize::MAX,
        call_ensures(MemorySet::push, (memory, start, data, writable), added),
    ensures
        added ==> start + data@.len() <= usize::MAX,
        added && start <= addr < start + data@.len() ==> !old(memory).bytes().contains_key(addr),
        added ==> (final(memory).readable(base, len) <==> old(memory).readable(base, len) || start
            <= base && base + len <= start + data@.len()),
        added ==> (final(memory).writable(base, len) <==> old(memory).writable(base, len) || writable
            && start <= base && base + len <= start + data@.len()),
        added && start <= addr < start + data@.len() ==> final(memory).bytes()[addr] == data@[addr
            - start],
        added && !(start <= addr < start + data@.len()) ==> (final(memory).bytes().contains_key(addr)
            <==> old(memory).bytes().contains_key(addr)),
        old(memory).bytes().contains_key(addr) ==> final(memory).bytes()[addr] == old(
            memory,
        ).bytes()[addr],
        !added ==> *final(memory) == *old(memory),
{
    let before = *old(memory);
    let after = *final(memory);
    if added {
        let extent = Extent { start, len: data@.len() as usize, writable };
        let last = before.layout().len() as int;
        assert(after.layout()[last] == extent);
        assert(forall|i: int| 0 <= i < last ==> after.layout()[i] == before.layout()[i]);
        if before.readable(base, len) {
            let i = choose|i: int|
                0 <= i < before.layout().len() && (#[trigger] before.layout()[i]).covers(base, len);
            assert(after.layout()[i].covers(base, len));
        }
        if before.writable(base, len) {
            let i = choose|i: int|
                0 <= i < before.layout().len() && (#[trigger] before.layout()[i]).covers(base, len)
                    && before.layout()[i].writable;
            assert(after.layout()[i].covers(base, len));
        }
        if after.readable(base, len) {
            let i = choose|i: int|
                0 <= i < after.layout().len() && (#[trigger] after.layout()[i]).covers(base, len);
            if i < last {
                assert(before.layout()[i].covers(base, len));
            }
        }
        if after.writable(base, len) {
            let i = choose|i: int|
                0 <= i < after.layout().len() && (#[trigger] after.layout()[i]).covers(base, len)
                    && after.layout()[i].writable;
            if i < last {
                assert(before.layout()[i].covers(base, len));
            }
        }
        if before.bytes().contains_key(addr) {
            law_mapped_readable(before, addr);
            let i = choose|i: int|
                0 <= i < before.layout().len() && (#[trigger] before.layout()[i]).covers(addr, 1);
            assert(before.layout()[i].start + before.layout()[i].len <= start || start + data@.len()
                <= before.layout()[i].start);
        }
    }
}

/// What the checks accept: a range at each of whose addresses there is a byte, and that may be
/// written for the second check; and with a range every part of it.
pub proof fn law_checks(
    memory: &MemorySet,
    base: usize,
    len: usize,
    readable: bool,
    writable: bool,
    start: usize,
    part: usize,
    part_readable: bool,
    part_writable: bool,
    addr: int,
)
    requires
        memory.wf(),
        base <= start,
        start + part <= base + len,
        call_ensures(MemorySet::check_array, (memory, base, len), readable),
        call_ensures(MemorySet::check_mut_array, (memory, base, len), writable),
        call_ensures(MemorySet::check_array, (memory, start, part), part_readable),
        call_ensures(MemorySet::check_mut_array, (memory, start, part), part_writable),
    ensures
        readable <==> memory.readable(base as int, len as int),
        writable <==> memory.writable(base as int, len as int),
        writable ==> readable,
        readable && base <= addr < base + len ==> memory.bytes().contains_key(addr),
        readable ==> part_readable,
        writable ==> part_writable,
        readable ==> base + len <= usize::MAX,
{
    law_inside(*memory, base as int, len as int, start as int, part as int);
    if readable {
        memory.lemma_readable_bound(base as int, len as int);
        if base <= addr < base + len {
            memory.lemma_readable_mapped(base as int, len as int, addr);
        }
    }
}

/// Reading a range gives the bytes at its addresses, in their order.
pub proof fn law_read(memory: &MemorySet, base: usize, len: usize, data: Vec<u8>, k: int)
    requires
        call_ensures(MemorySet::read, (memory, base, len), data),
    ensures
        data@.len() == len,
        0 <= k < len ==> data@[k] == memory.bytes()[base + k],
{
}

/// Reading what was written gives it back, and no other byte and no area has changed.
pub proof fn law_read_after_write(
    memory: &mut MemorySet,
    base: usize,
    data: &[u8],
    len: usize,
    after: MemorySet,
    back: Vec<u8>,
    addr: int,
)
    requires
        len == data@.len(),
        call_ensures(MemorySet::write, (memory, base, data), ()),
        after == *final(memory),
        call_ensures(MemorySet::read, (&after, base, len), back),
    ensures
        back@ == data@,
        !(base <= addr < base + len) && old(memory).bytes().contains_key(addr)
            ==> after.bytes()[addr] == old(memory).bytes()[addr],
        after.layout() == old(memory).layout(),
{
    law_read_back(old(memory).bytes(), base as int, data@);
}

/// A text is at an address exactly where its UTF-8 bytes, none of them zero, stand there in one
/// area with a zero byte behind them.
pub proof fn law_text_at(memory: MemorySet, ptr: int, text: Seq<char>)
    ensures
        memory.cstr_at(ptr) == Some(text) <==> {
            let bytes = encode_utf8(text);
            &&& memory.readable(ptr, bytes.len() as int + 1)
            &&& memory.bytes()[ptr + bytes.len()] == 0
            &&& forall|k: int|
                0 <= k < bytes.len() ==> #[trigger] bytes[k] == memory.bytes()[ptr + k] && bytes[k]
                    != 0
        },
{
    let bytes = encode_utf8(text);
    if memory.cstr_at(ptr) == Some(text) {
        assert(memory.is_cstr(ptr, bytes));
        assert forall|k: int| 0 <= k < bytes.len() implies #[trigger] bytes[k]
            == memory.bytes()[ptr + k] && bytes[k] != 0 by {
            assert(memory.range(ptr, bytes.len() as int)[k] == bytes[k]);
            assert(bytes.contains(bytes[k]));
        }
    }
    if memory.readable(ptr, bytes.len() as int + 1) && memory.bytes()[ptr + bytes.len()] == 0 && (
    forall|k: int|
        0 <= k < bytes.len() ==> #[trigger] bytes[k] == memory.bytes()[ptr + k] && bytes[k] != 0) {
        assert(memory.range(ptr, bytes.len() as int) =~= bytes);
        memory.lemma_cstr_at(ptr, text);
    }
}

/// `check_and_clone_cstr` gives a text exactly where it stands.
pub proof fn law_clone_cstr(
    memory: &MemorySet,
    ptr: usize,
    found: Option<String>,
    text: Seq<char>,
)
    requires
        call_ensures(MemorySet::check_and_clone_cstr, (memory, ptr), found),
    ensures
        (found is Some && found->0@ == text) <==> {
            let bytes = encode_utf8(text);
            &&& memory.readable(ptr as int, bytes.len() as int + 1)
            &&& memory.bytes()[ptr + bytes.len()] == 0
            &&& forall|k: int|
                0 <= k < bytes.len() ==> #[trigger] bytes[k] == memory.bytes()[ptr + k] && bytes[k]
                    != 0
        },
{
    law_text_at(*memory, ptr as int, text);
}

} // verus!
