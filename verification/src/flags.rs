//! The flags of an `open` call.

use vstd::prelude::*;

verus! {

/// How a file is to be opened.
#[derive(Clone, Copy, Debug, PartialEq, Eq, Structural)]
pub struct OpenFlags {
    pub bits: usize,
}

/// What an open file may be used for.
#[derive(Clone, Copy, Debug, PartialEq, Eq, Structural)]
pub struct OpenOptions {
    /// The file may be read.
    pub read: bool,
    /// The file may be written.
    pub write: bool,
    /// Each write goes to the end of the file.
    pub append: bool,
}

impl OpenFlags {
    /// read only
    pub const RDONLY: usize = 0;
    /// write only
    pub const WRONLY: usize = 1;
    /// read write
    pub const RDWR: usize = 2;
    /// create file if it does not exist
    pub const CREATE: usize = 1 << 6;
    /// error if CREATE and the file exists
    pub const EXCLUSIVE: usize = 1 << 7;
    /// truncate file upon open
    pub const TRUNCATE: usize = 1 << 9;
    /// append on each write
    pub const APPEND: usize = 1 << 10;
    /// every bit that has a meaning
    pub const ALL: usize = 0x6c3;

    /// Every bit of `mask` is set.
    pub open spec fn has(self, mask: usize) -> bool {
        self.bits & mask == mask
    }

    /// The flags that `bits` stands for, with the bits that have no meaning left out.
    pub open spec fn truncated(bits: usize) -> OpenFlags {
        OpenFlags { bits: bits & OpenFlags::ALL }
    }

    /// The access mode, the number in the two lowest bits, is one for reading.
    pub open spec fn reads(self) -> bool {
        self.bits % 4 == OpenFlags::RDONLY || self.bits % 4 == OpenFlags::RDWR
    }

    /// The access mode, the number in the two lowest bits, is one for writing.
    pub open spec fn writes(self) -> bool {
        self.bits % 4 == OpenFlags::WRONLY || self.bits % 4 == OpenFlags::RDWR
    }

    /// What a file that is opened with these flags may be used for.
    pub open spec fn options(self) -> OpenOptions {
        OpenOptions {
            read: self.reads(),
            write: self.writes(),
            append: self.has(OpenFlags::APPEND),
        }
    }

    /// The flags that `bits` stands for; bits without a meaning are dropped.
    pub fn from_bits_truncate(bits: usize) -> (flags: OpenFlags)
        ensures
            flags == OpenFlags::truncated(bits),
    {
        OpenFlags { bits: bits & OpenFlags::ALL }
    }

    /// Whether every bit of `mask` is set.
    pub fn contains(&self, mask: usize) -> (all: bool)
        ensures
            all == self.has(mask),
    {
        self.bits & mask == mask
    }

    /// Whether the file may be read.
    pub fn readable(&self) -> (readable: bool)
        ensures
            readable == self.reads(),
    {
        let bits: usize = self.bits;
        let mode: usize = bits & 0b11;
        assert(bits & 0b11 == bits % 4) by (bit_vector);
        mode == OpenFlags::RDONLY || mode == OpenFlags::RDWR
    }

    /// Whether the file may be written.
    pub fn writable(&self) -> (writable: bool)
        ensures
            writable == self.writes(),
    {
        let bits: usize = self.bits;
        let mode: usize = bits & 0b11;
        assert(bits & 0b11 == bits % 4) by (bit_vector);
        mode == OpenFlags::WRONLY || mode == OpenFlags::RDWR
    }

    /// What the file may be used for.
    pub fn to_options(&self) -> (options: OpenOptions)
        ensures
            options == self.options(),
    {
        OpenOptions {
            read: self.readable(),
            write: self.writable(),
            append: self.contains(OpenFlags::APPEND),
        }
    }
}

/// Dropping the bits without a meaning changes nothing that the flags are asked for: the
/// access mode and each single flag are those of the raw bits.
pub proof fn law_truncation_keeps_meaning(bits: usize)
    ensures
        OpenFlags::truncated(bits).options() == (OpenFlags { bits }).options(),
        OpenFlags::truncated(bits).has(OpenFlags::CREATE) == (OpenFlags { bits }).has(
            OpenFlags::CREATE,
        ),
        OpenFlags::truncated(bits).has(OpenFlags::EXCLUSIVE) == (OpenFlags { bits }).has(
            OpenFlags::EXCLUSIVE,
        ),
        OpenFlags::truncated(bits).has(OpenFlags::TRUNCATE) == (OpenFlags { bits }).has(
            OpenFlags::TRUNCATE,
        ),
        OpenFlags::truncated(OpenFlags::truncated(bits).bits) == OpenFlags::truncated(bits),
{
    assert(1usize << 6 == 64 && 1usize << 7 == 128 && 1usize << 9 == 512 && 1usize << 10 == 1024)
        by (bit_vector);
    assert((bits & 0x6c3) % 4 == bits % 4) by (bit_vector);
    assert((bits & 0x6c3) & 0x6c3 == bits & 0x6c3) by (bit_vector);
    assert((bits & 0x6c3) & 64 == bits & 64) by (bit_vector);
    assert((bits & 0x6c3) & 128 == bits & 128) by (bit_vector);
    assert((bits & 0x6c3) & 512 == bits & 512) by (bit_vector);
    assert((bits & 0x6c3) & 1024 == bits & 1024) by (bit_vector);
}

/// The mask keeps exactly the bits of the named flags.
pub proof fn law_all_flags()
    ensures
        OpenFlags::ALL == OpenFlags::RDONLY | OpenFlags::WRONLY | OpenFlags::RDWR
            | OpenFlags::CREATE | OpenFlags::EXCLUSIVE | OpenFlags::TRUNCATE | OpenFlags::APPEND,
{
    assert(0x6c3usize == 0usize | 1 | 2 | (1usize << 6) | (1usize << 7) | (1usize << 9) | (1usize
        << 10)) by (bit_vector);
}

/// A file that may be neither read nor written comes only from the access mode that has
/// both low bits set.
pub proof fn law_access_modes(flags: OpenFlags)
    ensures
        flags.reads() || flags.writes() <==> flags.bits % 4 != 3,
        flags.reads() && flags.writes() <==> flags.bits % 4 == OpenFlags::RDWR,
{
}

/// What the raw bits of an `open` ask for: the two lowest are the access mode, and each other
/// flag is one binary digit.
pub proof fn law_raw_bits(bits: usize)
    ensures
        OpenFlags::truncated(bits).bits == bits % 4 + 64 * (bits / 64 % 4) + 512 * (bits / 512 % 4),
        OpenFlags::truncated(bits).has(OpenFlags::CREATE) <==> bits / 64 % 2 == 1,
        OpenFlags::truncated(bits).has(OpenFlags::EXCLUSIVE) <==> bits / 128 % 2 == 1,
        OpenFlags::truncated(bits).has(OpenFlags::TRUNCATE) <==> bits / 512 % 2 == 1,
        OpenFlags::truncated(bits).options().append <==> bits / 1024 % 2 == 1,
        OpenFlags::truncated(bits).options().read <==> bits % 4 == 0 || bits % 4 == 2,
        OpenFlags::truncated(bits).options().write <==> bits % 4 == 1 || bits % 4 == 2,
{
    law_truncation_keeps_meaning(bits);
    law_single_flags(OpenFlags { bits });
    assert(bits & 0x6c3 == bits % 4 + 64 * (bits / 64 % 4) + 512 * (bits / 512 % 4)) by (
    bit_vector);
}

/// Each flag is one binary digit of the bits, and what a file may be used for follows from the
/// digits.
pub proof fn law_single_flags(flags: OpenFlags)
    ensures
        flags.has(OpenFlags::CREATE) <==> flags.bits / 64 % 2 == 1,
        flags.has(OpenFlags::EXCLUSIVE) <==> flags.bits / 128 % 2 == 1,
        flags.has(OpenFlags::TRUNCATE) <==> flags.bits / 512 % 2 == 1,
        flags.options().append <==> flags.bits / 1024 % 2 == 1,
        flags.options().read <==> flags.bits % 4 == 0 || flags.bits % 4 == 2,
        flags.options().write <==> flags.bits % 4 == 1 || flags.bits % 4 == 2,
{
    let bits = flags.bits;
    assert(1usize << 6 == 64 && 1usize << 7 == 128 && 1usize << 9 == 512 && 1usize << 10 == 1024)
        by (bit_vector);
    assert((bits & 64 == 64) <==> bits / 64 % 2 == 1) by (bit_vector);
    assert((bits & 128 == 128) <==> bits / 128 % 2 == 1) by (bit_vector);
    assert((bits & 512 == 512) <==> bits / 512 % 2 == 1) by (bit_vector);
    assert((bits & 1024 == 1024) <==> bits / 1024 % 2 == 1) by (bit_vector);
}

/// What `from_bits_truncate` keeps: the access mode and four flags.
pub proof fn law_from_bits(bits: usize, flags: OpenFlags)
    requires
        call_ensures(OpenFlags::from_bits_truncate, (bits,), flags),
    ensures
        flags.bits == bits % 4 + 64 * (bits / 64 % 4) + 512 * (bits / 512 % 4),
{
    law_raw_bits(bits);
}

/// The flags contain a mask exactly where adding it changes nothing.
pub proof fn law_contains(flags: &OpenFlags, mask: usize, all: bool)
    requires
        call_ensures(OpenFlags::contains, (flags, mask), all),
    ensures
        all <==> flags.bits | mask == flags.bits,
{
    let bits = flags.bits;
    assert((bits & mask == mask) <==> (bits | mask == bits)) by (bit_vector);
}

/// What a file may be used for, by the digits of the flags.
pub proof fn law_to_options(flags: &OpenFlags, options: OpenOptions)
    requires
        call_ensures(OpenFlags::to_options, (flags,), options),
    ensures
        options.read <==> flags.bits % 4 == 0 || flags.bits % 4 == 2,
        options.write <==> flags.bits % 4 == 1 || flags.bits % 4 == 2,
        options.append <==> flags.bits / 1024 % 2 == 1,
{
    law_single_flags(*flags);
}

/// `readable` and `writable` say what the options say.
pub proof fn law_readable_writable(flags: &OpenFlags, readable: bool, writable: bool)
    requires
        call_ensures(OpenFlags::readable, (flags,), readable),
        call_ensures(OpenFlags::writable, (flags,), writable),
    ensures
        readable <==> flags.bits % 4 == 0 || flags.bits % 4 == 2,
        writable <==> flags.bits % 4 == 1 || flags.bits % 4 == 2,
{
}

} // verus!
