//! Little-endian halfwords and words in byte memory.

use vstd::prelude::*;

use crate::bits::{lemma_half_bytes, lemma_word_halves};

verus! {

/// The little-endian halfword of two bytes.
pub open spec fn half_of(low: u8, high: u8) -> u16 {
    (low + high * 0x100) as u16
}

/// The little-endian word of two halfwords.
pub open spec fn word_of(low: u16, high: u16) -> u32 {
    (low + high * 0x1_0000) as u32
}

/// The little-endian halfword at `at`.
pub open spec fn half_at(bytes: Seq<u8>, at: int) -> u16 {
    half_of(bytes[at], bytes[at + 1])
}

/// The little-endian word at `at`.
pub open spec fn word_at(bytes: Seq<u8>, at: int) -> u32 {
    word_of(half_at(bytes, at), half_at(bytes, at + 2))
}

/// The low byte of a halfword.
pub open spec fn low_byte(value: u16) -> u8 {
    (value % 0x100) as u8
}

/// The high byte of a halfword.
pub open spec fn high_byte(value: u16) -> u8 {
    (value / 0x100) as u8
}

/// The low half of a word.
pub open spec fn low_half(value: u32) -> u16 {
    (value % 0x1_0000) as u16
}

/// The high half of a word.
pub open spec fn high_half(value: u32) -> u16 {
    (value / 0x1_0000) as u16
}

/// The bytes of a halfword.
pub open spec fn bytes16(value: u16) -> Seq<u8> {
    seq![low_byte(value), high_byte(value)]
}

/// The bytes of a word.
pub open spec fn bytes32(value: u32) -> Seq<u8> {
    seq![
        low_byte(low_half(value)),
        high_byte(low_half(value)),
        low_byte(high_half(value)),
        high_byte(high_half(value)),
    ]
}

/// `bytes` with the halfword at `at` replaced.
pub open spec fn with_half(bytes: Seq<u8>, at: int, value: u16) -> Seq<u8> {
    bytes.update(at, low_byte(value)).update(at + 1, high_byte(value))
}

/// `bytes` with the word at `at` replaced.
pub open spec fn with_word(bytes: Seq<u8>, at: int, value: u32) -> Seq<u8> {
    with_half(with_half(bytes, at, low_half(value)), at + 2, high_half(value))
}

/// `bytes` with those from `at` on replaced by `data`.
pub open spec fn with_bytes(bytes: Seq<u8>, at: int, data: Seq<u8>) -> Seq<u8> {
    Seq::new(
        bytes.len(),
        |i: int|
            if at <= i < at + data.len() {
                data[i - at]
            } else {
                bytes[i]
            },
    )
}

/// A halfword reads back as it was written, and other halfwords that share no
/// byte with it are unchanged.
pub proof fn law_half_round_trip(bytes: Seq<u8>, at: int, value: u16)
    requires
        0 <= at,
        at + 2 <= bytes.len(),
    ensures
        half_at(with_half(bytes, at, value), at) == value,
        with_half(bytes, at, value).len() == bytes.len(),
        forall|i: int|
            0 <= i < bytes.len() && i != at && i != at + 1 ==> #[trigger] with_half(
                bytes,
                at,
                value,
            )[i] == bytes[i],
{
}

/// A word reads back as it was written, and bytes around it are unchanged.
pub proof fn law_word_round_trip(bytes: Seq<u8>, at: int, value: u32)
    requires
        0 <= at,
        at + 4 <= bytes.len(),
    ensures
        word_at(with_word(bytes, at, value), at) == value,
        with_word(bytes, at, value).len() == bytes.len(),
        forall|i: int|
            0 <= i < bytes.len() && !(at <= i < at + 4) ==> #[trigger] with_word(
                bytes,
                at,
                value,
            )[i] == bytes[i],
{
    let once = with_half(bytes, at, low_half(value));
    law_half_round_trip(bytes, at, low_half(value));
    law_half_round_trip(once, at + 2, high_half(value));
}

/// Splits a word into its halves, low half first.
pub fn halves(value: u32) -> (result: (u16, u16))
    ensures
        result.0 == low_half(value),
        result.1 == high_half(value),
{
    proof {
        lemma_word_halves(value);
    }
    (value as u16, (value >> 16) as u16)
}

/// Splits a halfword into its bytes, low byte first.
pub fn half_bytes(value: u16) -> (result: (u8, u8))
    ensures
        result.0 == low_byte(value),
        result.1 == high_byte(value),
{
    proof {
        lemma_half_bytes(value);
    }
    (value as u8, (value >> 8) as u8)
}

/// Joins two halves into a word.
pub fn join_halves(low: u16, high: u16) -> (result: u32)
    ensures
        result == word_of(low, high),
{
    u32::from(low) + u32::from(high) * 0x1_0000
}

/// Joins two bytes into a halfword.
pub fn join_bytes(low: u8, high: u8) -> (result: u16)
    ensures
        result == half_of(low, high),
{
    u16::from(low) + u16::from(high) * 0x100
}

/// Reads the halfword at `at`.
pub fn read_half(bytes: &[u8], at: usize) -> (result: u16)
    requires
        at + 2 <= bytes@.len(),
    ensures
        result == half_at(bytes@, at as int),
{
    join_bytes(bytes[at], bytes[at + 1])
}

/// Reads the word at `at`.
pub fn read_word(bytes: &[u8], at: usize) -> (result: u32)
    requires
        at + 4 <= bytes@.len(),
    ensures
        result == word_at(bytes@, at as int),
{
    assert(bytes.len() == bytes@.len());
    join_halves(read_half(bytes, at), read_half(bytes, at + 2))
}

/// Replaces the halfword at `at`.
pub fn write_half(bytes: &mut Vec<u8>, at: usize, value: u16)
    requires
        at + 2 <= old(bytes)@.len(),
    ensures
        final(bytes)@ == with_half(old(bytes)@, at as int, value),
{
    assert(bytes.len() == bytes@.len());
    let (low, high) = half_bytes(value);
    bytes[at] = low;
    bytes[at + 1] = high;
}

/// Replaces the word at `at`.
pub fn write_word(bytes: &mut Vec<u8>, at: usize, value: u32)
    requires
        at + 4 <= old(bytes)@.len(),
    ensures
        final(bytes)@ == with_word(old(bytes)@, at as int, value),
{
    assert(bytes.len() == bytes@.len());
    let (low, high) = halves(value);
    write_half(bytes, at, low);
    write_half(bytes, at + 2, high);
}

/// Replaces the bytes from `at` on by `data`.
pub fn write_bytes(bytes: &mut Vec<u8>, at: usize, data: &[u8])
    requires
        at + data@.len() <= old(bytes)@.len(),
    ensures
        final(bytes)@ == with_bytes(old(bytes)@, at as int, data@),
{
    let mut index: usize = 0;
    while index < data.len()
        invariant
            index <= data@.len(),
            at + data@.len() <= bytes@.len(),
            bytes@.len() == old(bytes)@.len(),
            forall|i: int|
                0 <= i < bytes@.len() ==> bytes@[i] == if at <= i < at + index {
                    data@[i - at]
                } else {
                    old(bytes)@[i]
                },
        decreases data@.len() - index,
    {
        assert(bytes.len() == bytes@.len());
        bytes[at + index] = data[index];
        index += 1;
    }
    assert(bytes@ =~= with_bytes(old(bytes)@, at as int, data@));
}

/// A vector of `count` zero bytes.
pub fn zeroed(count: usize) -> (result: Vec<u8>)
    ensures
        result@ == Seq::new(count as nat, |i: int| 0u8),
{
    let result: Vec<u8> = vec![0u8;count];
    assert(result@ =~= Seq::new(count as nat, |i: int| 0u8));
    result
}

/// A word that is stored as two halves apart, the low one first.
pub proof fn law_word_in_two_places(bytes: Seq<u8>, at: int, next: int, value: u32, each: int)
    requires
        0 <= at,
        at + 1 < bytes.len(),
        0 <= next,
        next + 1 < bytes.len(),
        at + 1 < next || next + 1 < at,
        0 <= each < bytes.len(),
    ensures
        ({
            let stored = with_half(
                with_half(bytes, at, low_half(value)),
                next,
                high_half(value),
            );
            &&& stored.len() == bytes.len()
            &&& stored[each] == if each == at {
                value as int % 0x100
            } else if each == at + 1 {
                (value as int / 0x100) % 0x100
            } else if each == next {
                (value as int / 0x1_0000) % 0x100
            } else if each == next + 1 {
                value as int / 0x100_0000
            } else {
                bytes[each] as int
            }
        }),
        word_of(half_at(bytes, at), half_at(bytes, next)) == bytes[at] + 0x100 * bytes[at + 1]
            + 0x1_0000 * bytes[next] + 0x100_0000 * bytes[next + 1],
{
    let whole = value as int;
    assert((whole % 0x1_0000) % 0x100 == whole % 0x100);
    assert((whole % 0x1_0000) / 0x100 == (whole / 0x100) % 0x100);
    assert((whole / 0x1_0000) / 0x100 == whole / 0x100_0000);
}

} // verus!
