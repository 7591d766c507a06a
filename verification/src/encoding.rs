//! Little-endian encoding of unsigned integers, as byte sequences.
//!
//! An integer of `width` bytes is its `width` digits in base 256, least
//! significant digit first. Nothing here depends on the byte order of the
//! machine that runs the code.

use vstd::prelude::*;

verus! {

/// The `width` low digits of `value` in base 256, least significant first.
pub open spec fn le_bytes(value: nat, width: nat) -> Seq<u8>
    decreases width,
{
    if width == 0 {
        Seq::empty()
    } else {
        seq![(value % 256) as u8] + le_bytes(value / 256, (width - 1) as nat)
    }
}

/// The number whose base-256 digits, least significant first, are `bytes`.
pub open spec fn le_value(bytes: Seq<u8>) -> nat
    decreases bytes.len(),
{
    if bytes.len() == 0 {
        0
    } else {
        bytes[0] as nat + 256 * le_value(bytes.drop_first())
    }
}

/// The number of values that `width` bytes can hold: 256 to the power `width`.
pub open spec fn radix(width: nat) -> nat
    decreases width,
{
    if width == 0 {
        1
    } else {
        256 * radix((width - 1) as nat)
    }
}

/// An encoding has exactly as many bytes as were asked for.
pub proof fn lemma_le_bytes_len(value: nat, width: nat)
    ensures
        le_bytes(value, width).len() == width,
    decreases width,
{
    if width > 0 {
        lemma_le_bytes_len(value / 256, (width - 1) as nat);
    }
}

/// Decoding what was encoded gives the value back, for every value that the
/// width can hold.
pub proof fn lemma_le_round_trip(value: nat, width: nat)
    requires
        value < radix(width),
    ensures
        le_value(le_bytes(value, width)) == value,
    decreases width,
{
    if width > 0 {
        let rest = le_bytes(value / 256, (width - 1) as nat);
        let all = le_bytes(value, width);
        assert(all.drop_first() =~= rest);
        lemma_le_round_trip(value / 256, (width - 1) as nat);
    }
}

/// Encoding what was decoded gives the bytes back.
pub proof fn lemma_le_bytes_of_value(bytes: Seq<u8>)
    ensures
        le_value(bytes) < radix(bytes.len()),
        le_bytes(le_value(bytes), bytes.len()) == bytes,
    decreases bytes.len(),
{
    if bytes.len() > 0 {
        let rest = bytes.drop_first();
        lemma_le_bytes_of_value(rest);
        let value = le_value(bytes);
        assert(value / 256 == le_value(rest));
        assert(value % 256 == bytes[0] as nat);
        assert(le_bytes(value, bytes.len()) =~= bytes);
    }
}

/// A 16-bit value survives being written as two bytes and read back.
pub proof fn lemma_u16_round_trip(value: u16)
    ensures
        le_bytes(value as nat, 2).len() == 2,
        le_value(le_bytes(value as nat, 2)) == value,
{
    reveal_with_fuel(radix, 3);
    lemma_le_bytes_len(value as nat, 2);
    lemma_le_round_trip(value as nat, 2);
}

/// A 32-bit value survives being written as four bytes and read back.
pub proof fn lemma_u32_round_trip(value: u32)
    ensures
        le_bytes(value as nat, 4).len() == 4,
        le_value(le_bytes(value as nat, 4)) == value,
{
    reveal_with_fuel(radix, 5);
    lemma_le_bytes_len(value as nat, 4);
    lemma_le_round_trip(value as nat, 4);
}

/// A 64-bit value survives being written as eight bytes and read back.
pub proof fn lemma_u64_round_trip(value: u64)
    ensures
        le_bytes(value as nat, 8).len() == 8,
        le_value(le_bytes(value as nat, 8)) == value,
{
    reveal_with_fuel(radix, 9);
    lemma_le_bytes_len(value as nat, 8);
    lemma_le_round_trip(value as nat, 8);
}

/// Encodes the `width` low bytes of `value`, least significant first.
pub fn encode_le(value: u64, width: usize) -> (bytes: Vec<u8>)
    ensures
        bytes@ == le_bytes(value as nat, width as nat),
        bytes@.len() == width,
{
    let mut bytes: Vec<u8> = Vec::new();
    let mut rest: u64 = value;
    let mut done: usize = 0;
    while done < width
        invariant
            done <= width,
            bytes@.len() == done,
            bytes@ + le_bytes(rest as nat, (width - done) as nat) == le_bytes(
                value as nat,
                width as nat,
            ),
        decreases width - done,
    {
        let digit: u8 = (rest % 256) as u8;
        proof {
            let tail = le_bytes((rest / 256) as nat, (width - done - 1) as nat);
            assert(le_bytes(rest as nat, (width - done) as nat) == seq![digit] + tail);
            assert(bytes@.push(digit) + tail =~= bytes@ + (seq![digit] + tail));
        }
        bytes.push(digit);
        rest = rest / 256;
        done = done + 1;
    }
    proof {
        lemma_le_bytes_len(value as nat, width as nat);
        assert(bytes@ + Seq::<u8>::empty() =~= bytes@);
    }
    bytes
}

/// Reads `bytes` as an unsigned integer, least significant byte first.
pub fn decode_le(bytes: &[u8]) -> (value: u64)
    requires
        bytes@.len() <= 8,
    ensures
        value == le_value(bytes@),
{
    let mut value: u64 = 0;
    let mut left: usize = bytes.len();
    proof {
        assert(bytes@.subrange(left as int, bytes@.len() as int) =~= Seq::<u8>::empty());
    }
    while left > 0
        invariant
            left <= bytes@.len() <= 8,
            value == le_value(bytes@.subrange(left as int, bytes@.len() as int)),
            value < radix((bytes@.len() - left) as nat),
        decreases left,
    {
        let ghost tail = bytes@.subrange(left as int, bytes@.len() as int);
        left = left - 1;
        let ghost more = bytes@.subrange(left as int, bytes@.len() as int);
        proof {
            assert(more.drop_first() =~= tail);
            assert(more[0] == bytes@[left as int]);
            lemma_radix_bound((bytes@.len() - left - 1) as nat);
        }
        value = bytes[left] as u64 + 256 * value;
    }
    proof {
        assert(bytes@.subrange(0, bytes@.len() as int) =~= bytes@);
    }
    value
}

/// The number whose base-256 digits, most significant first, are `bytes`.
pub open spec fn be_value(bytes: Seq<u8>) -> nat {
    le_value(bytes.reverse())
}

/// Reads `bytes` as an unsigned integer, most significant byte first.
pub fn decode_be(bytes: &[u8]) -> (value: u64)
    requires
        bytes@.len() <= 8,
    ensures
        value == be_value(bytes@),
{
    let mut value: u64 = 0;
    let mut done: usize = 0;
    proof {
        assert(bytes@.take(0).reverse() =~= Seq::<u8>::empty());
    }
    while done < bytes.len()
        invariant
            done <= bytes@.len() <= 8,
            value == le_value(bytes@.take(done as int).reverse()),
            value < radix(done as nat),
        decreases bytes@.len() - done,
    {
        let ghost read = bytes@.take(done as int).reverse();
        let ghost more = bytes@.take(done + 1).reverse();
        proof {
            assert(more.drop_first() =~= read);
            assert(more[0] == bytes@[done as int]);
            lemma_radix_bound(done as nat);
        }
        value = bytes[done] as u64 + 256 * value;
        done = done + 1;
    }
    proof {
        assert(bytes@.take(done as int) =~= bytes@);
    }
    value
}

/// Up to seven bytes hold less than 2 to the power 56.
proof fn lemma_radix_bound(width: nat)
    requires
        width <= 7,
    ensures
        radix(width) <= 0x100_0000_0000_0000,
{
    reveal_with_fuel(radix, 8);
}

} // verus!
