//! Little-endian byte strings, the form in which numbers cross into and out of
//! user memory.

use vstd::arithmetic::div_mod::*;
use vstd::arithmetic::power::*;
use vstd::prelude::*;

verus! {

/// The number that a little-endian byte string stands for.
pub open spec fn le_value(bytes: Seq<u8>) -> nat
    decreases bytes.len(),
{
    if bytes.len() == 0 {
        0
    } else {
        bytes[0] as nat + 256 * le_value(bytes.drop_first())
    }
}

/// The lowest `width` bytes of `value`, least significant byte first.
pub open spec fn le_bytes(value: nat, width: nat) -> Seq<u8>
    decreases width,
{
    if width == 0 {
        Seq::empty()
    } else {
        seq![(value % 256) as u8] + le_bytes(value / 256, (width - 1) as nat)
    }
}

/// How many values `width` bytes can tell apart.
pub open spec fn le_bound(width: nat) -> nat
    decreases width,
{
    if width == 0 {
        1
    } else {
        256 * le_bound((width - 1) as nat)
    }
}

/// A little-endian byte string is as long as asked for.
pub broadcast proof fn lemma_le_bytes_len(value: nat, width: nat)
    ensures
        (#[trigger] le_bytes(value, width)).len() == width,
    decreases width,
{
    if width > 0 {
        lemma_le_bytes_len(value / 256, (width - 1) as nat);
    }
}

/// Decoding gives back every number that fits into the width it was encoded in.
pub proof fn law_le_round_trip(value: nat, width: nat)
    requires
        value < le_bound(width),
    ensures
        le_value(le_bytes(value, width)) == value,
    decreases width,
{
    if width > 0 {
        let rest = le_bytes(value / 256, (width - 1) as nat);
        law_le_round_trip(value / 256, (width - 1) as nat);
        assert(le_bytes(value, width).drop_first() =~= rest);
    }
}

/// Encoding what a byte string stands for gives back the byte string.
pub proof fn law_le_bytes_of_value(bytes: Seq<u8>)
    ensures
        le_bytes(le_value(bytes), bytes.len()) == bytes,
        le_value(bytes) < le_bound(bytes.len()),
    decreases bytes.len(),
{
    if bytes.len() > 0 {
        let rest = bytes.drop_first();
        law_le_bytes_of_value(rest);
        assert(le_value(bytes) % 256 == bytes[0]);
        assert(le_value(bytes) / 256 == le_value(rest));
        assert(le_bytes(le_value(bytes), bytes.len()) =~= bytes);
    }
}

/// The lowest `width` bytes of `value`, least significant byte first.
pub fn encode(value: u64, width: usize) -> (bytes: Vec<u8>)
    ensures
        bytes@ == le_bytes(value as nat, width as nat),
{
    let mut bytes: Vec<u8> = Vec::new();
    let mut rest: u64 = value;
    let mut done: usize = 0;
    proof {
        assert(bytes@ + le_bytes(rest as nat, width as nat) =~= le_bytes(value as nat, width as nat));
    }
    while done < width
        invariant
            done <= width,
            bytes@ + le_bytes(rest as nat, (width - done) as nat) == le_bytes(
                value as nat,
                width as nat,
            ),
        decreases width - done,
    {
        let ghost before = bytes@;
        let low: u8 = (rest % 256) as u8;
        bytes.push(low);
        proof {
            assert(bytes@ + le_bytes((rest / 256) as nat, (width - done - 1) as nat) =~= before
                + le_bytes(rest as nat, (width - done) as nat));
        }
        rest = rest / 256;
        done = done + 1;
    }
    assert(bytes@ =~= bytes@ + le_bytes(rest as nat, 0));
    bytes
}

/// Appends the lowest `width` bytes of `value` to `bytes`, least significant byte first.
pub fn append_le(bytes: &mut Vec<u8>, value: u64, width: usize)
    ensures
        final(bytes)@ == old(bytes)@ + le_bytes(value as nat, width as nat),
{
    let mut field = encode(value, width);
    bytes.append(&mut field);
}

/// The number that the `width` bytes of `bytes` from `start` on stand for.
pub fn decode(bytes: &[u8], start: usize, width: usize) -> (value: u64)
    requires
        start + width <= bytes@.len(),
        width <= 8,
    ensures
        value == le_value(bytes@.subrange(start as int, start + width)),
{
    let ghost field = bytes@.subrange(start as int, start + width);
    let mut value: u64 = 0;
    let mut left: usize = width;
    let total: usize = bytes.len();
    assert(field.skip(width as int) =~= Seq::<u8>::empty());
    while left > 0
        invariant
            left <= width <= 8,
            start + width <= bytes@.len() == total,
            field == bytes@.subrange(start as int, start + width),
            value == le_value(field.skip(left as int)),
        decreases left,
    {
        proof {
            law_le_bytes_of_value(field.skip(left as int));
            lemma_le_bound_fits((width - left) as nat);
            assert(field.skip(left - 1).drop_first() =~= field.skip(left as int));
            assert(field.skip(left - 1)[0] == bytes@[start + left - 1]);
        }
        left = left - 1;
        value = 256 * value + bytes[start + left] as u64;
    }
    assert(field.skip(0) =~= field);
    value
}

/// Seven bytes and one more fit into sixty-four bits.
proof fn lemma_le_bound_fits(width: nat)
    requires
        width <= 7,
    ensures
        256 * le_bound(width) <= u64::MAX + 1,
{
    reveal_with_fuel(le_bound, 8);
}

/// The byte at `k` counts how often 256^k goes into the number, modulo 256.
pub proof fn law_le_digits(value: nat, width: nat, k: nat)
    requires
        k < width,
    ensures
        le_bytes(value, width)[k as int] == (value as int / pow(256, k)) % 256,
    decreases k,
{
    reveal(pow);
    if k > 0 {
        law_le_digits(value / 256, (width - 1) as nat, (k - 1) as nat);
        lemma_pow_positive(256, (k - 1) as nat);
        lemma_div_denominator(value as int, 256, pow(256, (k - 1) as nat));
        lemma_le_bytes_len(value / 256, (width - 1) as nat);
        assert(pow(256, k) == 256 * pow(256, (k - 1) as nat));
    }
}

/// Each byte of a byte string is the digit to base 256 of the number it stands for, the lowest
/// digit first.
pub proof fn law_le_value_digits(bytes: Seq<u8>, k: nat)
    requires
        k < bytes.len(),
    ensures
        (le_value(bytes) as int / pow(256, k)) % 256 == bytes[k as int],
{
    law_le_bytes_of_value(bytes);
    law_le_digits(le_value(bytes), bytes.len(), k);
}

/// What `encode` gives has the width asked for, and its bytes are the digits of the number.
pub proof fn law_encode_digits(value: u64, width: usize, bytes: Vec<u8>, k: nat)
    requires
        call_ensures(encode, (value, width), bytes),
    ensures
        bytes@.len() == width,
        k < width ==> bytes@[k as int] == (value as int / pow(256, k)) % 256,
{
    lemma_le_bytes_len(value as nat, width as nat);
    if k < width {
        law_le_digits(value as nat, width as nat, k);
    }
}

/// What `decode` gives has the bytes of the field as its digits, and no others.
pub proof fn law_decode_digits(bytes: &[u8], start: usize, width: usize, value: u64, k: nat)
    requires
        start + width <= bytes@.len(),
        call_ensures(decode, (bytes, start, width), value),
    ensures
        k < width ==> (value as int / pow(256, k)) % 256 == bytes@[start + k],
        value < le_bound(width as nat),
{
    let field = bytes@.subrange(start as int, start + width);
    law_le_bytes_of_value(field);
    if k < width {
        law_le_value_digits(field, k);
    }
}

/// The bound of a width is the power of 256 that it counts.
pub proof fn law_le_bound_power(width: nat)
    ensures
        le_bound(width) == pow(256, width),
    decreases width,
{
    reveal(pow);
    if width > 0 {
        law_le_bound_power((width - 1) as nat);
    }
}

/// Decoding a field in which `encode` put a number gives back the number.
pub proof fn law_decode_undoes_encode(
    value: u64,
    encoded: Vec<u8>,
    bytes: &[u8],
    start: usize,
    decoded: u64,
)
    requires
        call_ensures(encode, (value, 8usize), encoded),
        start + 8 <= bytes@.len(),
        bytes@.subrange(start as int, start + 8) == encoded@,
        call_ensures(decode, (bytes, start, 8usize), decoded),
    ensures
        decoded == value,
{
    reveal_with_fuel(le_bound, 9);
    law_le_round_trip(value as nat, 8);
}

} // verus!
