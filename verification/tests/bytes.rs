//! Byte order and two's complement.

use upse_hw::bits::{from_i16, from_i32, to_i16, to_i32};
use upse_hw::bytes::{
    half_bytes, halves, join_bytes, join_halves, read_half, read_word, write_bytes, write_half,
    write_word, zeroed,
};

#[test]
fn little_endian_values_round_trip() {
    let mut bytes = zeroed(8);
    write_word(&mut bytes, 1, 0x1234_5678);
    write_half(&mut bytes, 6, 0xabcd);
    assert_eq!(bytes, [0, 0x78, 0x56, 0x34, 0x12, 0, 0xcd, 0xab]);
    assert_eq!(read_word(&bytes, 1), 0x1234_5678);
    assert_eq!(read_half(&bytes, 6), 0xabcd);
    write_bytes(&mut bytes, 0, &[9, 8]);
    assert_eq!(read_half(&bytes, 0), 0x0809);
}

#[test]
fn halves_and_bytes_split_and_join() {
    let (low, high) = halves(0x1234_5678);
    assert_eq!((low, high), (0x5678, 0x1234));
    assert_eq!(join_halves(low, high), 0x1234_5678);
    let (low, high) = half_bytes(0x5678);
    assert_eq!(join_bytes(low, high), 0x5678);
}

#[test]
fn signed_values_keep_their_bits() {
    assert_eq!(to_i16(0x8000), i16::MIN);
    assert_eq!(from_i16(-1), 0xffff);
    assert_eq!(to_i32(0xffff_ffff), -1);
    assert_eq!(from_i32(i32::MIN), 0x8000_0000);
}
