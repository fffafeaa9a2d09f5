//! The record through which `getdirentry` reports the entries of a directory.

use vstd::prelude::*;
use vstd::utf8::*;

use crate::endian;

verus! {

/// Number of bytes for the name in a directory record.
pub const NAME_SIZE: usize = 256;

/// Number of bytes of a directory record in user memory.
pub const DIR_ENTRY_SIZE: usize = 260;

/// A directory record: how far the caller has got, and the name found there.
#[derive(Clone, Copy, Debug)]
pub struct DirEntry {
    /// 256 times the number of the entry to report next
    pub offset: u32,
    /// name of the entry, ended by a zero byte
    pub name: [u8; 256],
}

impl DirEntry {
    /// The record in user memory: four little-endian bytes of offset, then the name.
    pub open spec fn encoded(self) -> Seq<u8> {
        endian::le_bytes(self.offset as nat, 4) + self.name@
    }

    /// The record has an offset that stands for an entry.
    pub open spec fn valid(self) -> bool {
        self.offset % 256 == 0
    }

    /// The number of the entry that the offset stands for.
    pub open spec fn id(self) -> int {
        self.offset as int / 256
    }

    /// The name once `text` was reported: it holds `text` and a zero byte and keeps what was
    /// behind.
    pub open spec fn renamed(self, text: Seq<u8>) -> Seq<u8> {
        text + seq![0u8] + self.name@.skip((text.len() + 1) as int)
    }

    /// The record in user memory once `text` was reported and the offset has moved to the
    /// next entry.
    pub open spec fn reported(self, text: Seq<u8>) -> Seq<u8> {
        endian::le_bytes((self.offset + 256) as nat, 4) + self.renamed(text)
    }

    /// The name up to the first zero byte is `text`.
    pub open spec fn reads_as(self, text: Seq<u8>) -> bool {
        &&& text.len() < NAME_SIZE
        &&& self.name@.take(text.len() as int) == text
        &&& self.name@[text.len() as int] == 0
        &&& !text.contains(0)
    }

    /// The offset can be read back from the record.
    pub proof fn lemma_offset(self)
        ensures
            self.encoded().len() == DIR_ENTRY_SIZE,
            endian::le_value(self.encoded().take(4)) == self.offset,
    {
        broadcast use endian::lemma_le_bytes_len;

        reveal_with_fuel(endian::le_bound, 5);
        endian::law_le_round_trip(self.offset as nat, 4);
        assert(self.encoded().take(4) =~= endian::le_bytes(self.offset as nat, 4));
    }

    /// Whether the offset stands for an entry.
    pub fn check(&self) -> (valid: bool)
        ensures
            valid == self.valid(),
    {
        self.offset % 256 == 0
    }

    /// The number of the entry that the offset stands for.
    pub fn entry_id(&self) -> (id: usize)
        ensures
            id == self.id(),
    {
        (self.offset / 256) as usize
    }

    /// Reports `name` and moves on to the next entry.
    pub fn set_name(&mut self, name: &str)
        requires
            encode_utf8(name@).len() < NAME_SIZE,
            old(self).offset + 256 <= u32::MAX,
        ensures
            final(self).offset == old(self).offset + 256,
            final(self).name@ == old(self).renamed(encode_utf8(name@)),
    {
        let ghost before = *self;
        let text = name.as_bytes();
        let mut i: usize = 0;
        while i < text.len()
            invariant
                i <= text@.len() < NAME_SIZE,
                self.offset == before.offset,
                self.name@ == text@.take(i as int) + before.name@.skip(i as int),
            decreases text@.len() - i,
        {
            self.name[i] = text[i];
            i = i + 1;
            assert(self.name@ =~= text@.take(i as int) + before.name@.skip(i as int));
        }
        self.name[text.len()] = 0;
        self.offset = self.offset + 256;
        assert(self.name@ =~= before.renamed(text@));
    }

    /// The record that `bytes` hold.
    pub fn from_bytes(bytes: &[u8]) -> (entry: DirEntry)
        requires
            bytes@.len() == DIR_ENTRY_SIZE,
        ensures
            entry.encoded() == bytes@,
    {
        let mut name: [u8; 256] = [0u8; 256];
        let mut i: usize = 0;
        while i < 256
            invariant
                i <= 256,
                bytes@.len() == DIR_ENTRY_SIZE,
                forall|k: int| 0 <= k < i ==> name@[k] == bytes@[4 + k],
            decreases 256 - i,
        {
            name[i] = bytes[4 + i];
            i = i + 1;
        }
        let offset: u64 = endian::decode(bytes, 0, 4);
        let entry = DirEntry { offset: offset as u32, name };
        proof {
            endian::law_le_bytes_of_value(bytes@.subrange(0, 4));
            reveal_with_fuel(endian::le_bound, 5);
            assert(entry.encoded() =~= bytes@);
        }
        entry
    }

    /// The record in user memory.
    pub fn to_bytes(&self) -> (bytes: Vec<u8>)
        ensures
            bytes@ == self.encoded(),
            bytes@.len() == DIR_ENTRY_SIZE,
    {
        let mut bytes: Vec<u8> = Vec::new();
        endian::append_le(&mut bytes, self.offset as u64, 4);
        let mut i: usize = 0;
        while i < 256
            invariant
                i <= 256,
                bytes@ == endian::le_bytes(self.offset as nat, 4) + self.name@.take(i as int),
            decreases 256 - i,
        {
            bytes.push(self.name[i]);
            i = i + 1;
            assert(bytes@ =~= endian::le_bytes(self.offset as nat, 4) + self.name@.take(i as int));
        }
        proof {
            broadcast use endian::lemma_le_bytes_len;

            assert(self.name@.take(256) =~= self.name@);
        }
        bytes
    }
}

/// Two directory records with the same bytes are the same record.
pub proof fn law_dir_entry_record(a: DirEntry, b: DirEntry)
    requires
        a.encoded() == b.encoded(),
    ensures
        a.offset == b.offset,
        a.name@ == b.name@,
{
    broadcast use endian::lemma_le_bytes_len;

    a.lemma_offset();
    b.lemma_offset();
    assert(a.encoded().skip(4) =~= a.name@);
    assert(b.encoded().skip(4) =~= b.name@);
}

/// Reporting a name leaves a record that is valid again, stands for the next entry, and
/// reads as the name.
pub proof fn law_next_entry(before: DirEntry, after: DirEntry, text: Seq<u8>)
    requires
        before.valid(),
        after.offset == before.offset + 256,
        after.name@ == before.renamed(text),
        text.len() < NAME_SIZE,
        !text.contains(0),
    ensures
        after.valid(),
        after.id() == before.id() + 1,
        after.reads_as(text),
{
    assert(after.name@.take(text.len() as int) =~= text);
}

/// The number of the entry is how often 256 goes into the offset, and an offset is one of an entry
/// where nothing is left over.
pub proof fn law_entry_number(entry: &DirEntry, valid: bool, id: usize)
    requires
        call_ensures(DirEntry::check, (entry,), valid),
        call_ensures(DirEntry::entry_id, (entry,), id),
    ensures
        256 * id <= entry.offset < 256 * id + 256,
        valid <==> 256 * id == entry.offset,
{
}

/// `set_name` moves the offset on by 256, puts the name and a zero byte at the start of the record's
/// name, and leaves what is behind.
pub proof fn law_set_name(entry: &mut DirEntry, name: &str, k: int)
    requires
        encode_utf8(name@).len() < 256,
        call_ensures(DirEntry::set_name, (entry, name), ()),
    ensures
        final(entry).offset == old(entry).offset + 256,
        0 <= k < encode_utf8(name@).len() ==> final(entry).name@[k] == encode_utf8(name@)[k],
        final(entry).name@[encode_utf8(name@).len() as int] == 0,
        encode_utf8(name@).len() < k < 256 ==> final(entry).name@[k] == old(entry).name@[k],
{
}

/// A record has its offset, lowest byte first, in the first four bytes, and the name behind.
pub proof fn law_record(entry: &DirEntry, bytes: Vec<u8>, k: int)
    requires
        call_ensures(DirEntry::to_bytes, (entry,), bytes),
    ensures
        bytes@.len() == 260,
        endian::le_value(bytes@.take(4)) == entry.offset,
        0 <= k < 256 ==> bytes@[4 + k] == entry.name@[k],
{
    broadcast use endian::lemma_le_bytes_len;

    entry.lemma_offset();
}

/// A record that was read has the offset that the first four bytes tell, and the name behind.
pub proof fn law_from_record(bytes: &[u8], entry: DirEntry, k: int)
    requires
        bytes@.len() == 260,
        call_ensures(DirEntry::from_bytes, (bytes,), entry),
    ensures
        entry.offset == endian::le_value(bytes@.take(4)),
        0 <= k < 256 ==> entry.name@[k] == bytes@[4 + k],
{
    broadcast use endian::lemma_le_bytes_len;

    entry.lemma_offset();
}

} // verus!
