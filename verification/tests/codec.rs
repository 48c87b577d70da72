use bridge_grandpa::codec::{
    append_bytes, append_compact, append_u16_le, append_u32_le, append_u64_le, read_compact,
    read_u32_le, read_u64_le,
};
use parity_scale_codec::{Compact, Encode};

fn compact(n: u64) -> Vec<u8> {
    let mut out = Vec::new();
    append_compact(&mut out, n);
    out
}

#[test]
fn compact_single_byte_mode() {
    assert_eq!(compact(0), vec![0x00]);
    assert_eq!(compact(1), vec![0x04]);
    assert_eq!(compact(42), vec![0xa8]);
    assert_eq!(compact(63), vec![0xfc]);
}

#[test]
fn compact_two_byte_mode() {
    assert_eq!(compact(64), vec![0x01, 0x01]);
    assert_eq!(compact(69), vec![0x15, 0x01]);
    assert_eq!(compact(16383), vec![0xfd, 0xff]);
}

#[test]
fn compact_four_byte_mode() {
    assert_eq!(compact(16384), vec![0x02, 0x00, 0x01, 0x00]);
    assert_eq!(compact(65535), vec![0xfe, 0xff, 0x03, 0x00]);
    assert_eq!(compact((1 << 30) - 1), vec![0xfe, 0xff, 0xff, 0xff]);
}

#[test]
fn compact_five_byte_mode() {
    assert_eq!(compact(1 << 30), vec![0x03, 0x00, 0x00, 0x00, 0x40]);
    assert_eq!(compact(u64::from(u32::MAX)), vec![0x03, 0xff, 0xff, 0xff, 0xff]);
}

#[test]
fn compact_beyond_32_bits() {
    assert_eq!(compact(1 << 32), vec![0x07, 0x00, 0x00, 0x00, 0x00, 0x01]);
    assert_eq!(compact((1 << 40) - 1), vec![0x07, 0xff, 0xff, 0xff, 0xff, 0xff]);
    assert_eq!(compact(1 << 40), vec![0x0b, 0, 0, 0, 0, 0, 1]);
    assert_eq!(compact(1 << 48), vec![0x0f, 0, 0, 0, 0, 0, 0, 1]);
    assert_eq!(compact(1 << 56), vec![0x13, 0, 0, 0, 0, 0, 0, 0, 1]);
    assert_eq!(compact(u64::MAX), vec![0x13, 0xff, 0xff, 0xff, 0xff, 0xff, 0xff, 0xff, 0xff]);
}

#[test]
fn compact_matches_the_chain_codec() {
    let samples: [u32; 14] = [
        0,
        1,
        63,
        64,
        255,
        256,
        16383,
        16384,
        65535,
        65536,
        (1 << 30) - 1,
        1 << 30,
        u32::MAX - 1,
        u32::MAX,
    ];
    for n in samples {
        assert_eq!(compact(u64::from(n)), Compact(n).encode(), "compact encoding of {}", n);
    }
    let wide: [u64; 12] = [
        (1 << 32) - 1,
        1 << 32,
        (1 << 40) - 1,
        1 << 40,
        (1 << 48) - 1,
        1 << 48,
        (1 << 56) - 1,
        1 << 56,
        0x0123_4567_89ab_cdef,
        0x0000_00ff_0000_0001,
        u64::MAX - 1,
        u64::MAX,
    ];
    for n in wide {
        assert_eq!(compact(n), Compact(n).encode(), "compact encoding of {}", n);
    }
}

#[test]
fn compact_appends_after_what_is_there() {
    let mut out = vec![9u8, 9];
    append_compact(&mut out, 64);
    assert_eq!(out, vec![9, 9, 0x01, 0x01]);
}

#[test]
fn compact_round_trip() {
    let samples: [u32; 10] =
        [0, 1, 63, 64, 16383, 16384, (1 << 30) - 1, 1 << 30, 123_456_789, u32::MAX];
    for n in samples {
        let mut data = vec![0xaau8];
        append_compact(&mut data, u64::from(n));
        let used = data.len() - 1;
        data.push(0x55);
        assert_eq!(read_compact(&data, 1), Some((n, used)), "round trip of {}", n);
    }
}

#[test]
fn compact_rejects_truncated_input() {
    assert_eq!(read_compact(&[], 0), None);
    assert_eq!(read_compact(&[0x04], 1), None);
    assert_eq!(read_compact(&[0x01], 0), None);
    assert_eq!(read_compact(&[0x02, 0x00, 0x01], 0), None);
    assert_eq!(read_compact(&[0x03, 0x00, 0x00, 0x00], 0), None);
}

#[test]
fn compact_rejects_overlong_encodings() {
    // 63 in two bytes, 16383 in four, 2^30 - 1 in five
    assert_eq!(read_compact(&[0xfd, 0x00], 0), None);
    assert_eq!(read_compact(&[0xfe, 0xff, 0x00, 0x00], 0), None);
    assert_eq!(read_compact(&[0x03, 0xff, 0xff, 0xff, 0x3f], 0), None);
    // zero in two bytes
    assert_eq!(read_compact(&[0x01, 0x00], 0), None);
}

#[test]
fn compact_rejects_numbers_beyond_32_bits() {
    assert_eq!(read_compact(&[0x07, 0x00, 0x00, 0x00, 0x00, 0x01], 0), None);
    assert_eq!(read_compact(&[0x0b, 0, 0, 0, 0, 0, 1], 0), None);
}

#[test]
fn little_endian_integers() {
    let mut out = Vec::new();
    append_u16_le(&mut out, 0x1234);
    assert_eq!(out, vec![0x34, 0x12]);

    let mut out = Vec::new();
    append_u32_le(&mut out, 0x1234_5678);
    assert_eq!(out, vec![0x78, 0x56, 0x34, 0x12]);
    assert_eq!(out, 0x1234_5678u32.encode());

    let mut out = Vec::new();
    append_u64_le(&mut out, 0x0102_0304_0506_0708);
    assert_eq!(out, vec![0x08, 0x07, 0x06, 0x05, 0x04, 0x03, 0x02, 0x01]);
    assert_eq!(out, 0x0102_0304_0506_0708u64.encode());

    let mut out = Vec::new();
    append_u64_le(&mut out, u64::MAX);
    assert_eq!(out, vec![0xff; 8]);
}

#[test]
fn little_endian_reads() {
    let data = [0xee, 0x78, 0x56, 0x34, 0x12, 0x08, 0x07, 0x06, 0x05, 0x04, 0x03, 0x02, 0x01];
    assert_eq!(read_u32_le(&data, 1), 0x1234_5678);
    assert_eq!(read_u64_le(&data, 5), 0x0102_0304_0506_0708);
    assert_eq!(read_u32_le(&[0xff; 4], 0), u32::MAX);
    assert_eq!(read_u64_le(&[0xff; 8], 0), u64::MAX);
}

#[test]
fn bytes_are_appended_in_order() {
    let mut out = vec![1u8];
    append_bytes(&mut out, &[2, 3]);
    append_bytes(&mut out, &[]);
    append_bytes(&mut out, &[4]);
    assert_eq!(out, vec![1, 2, 3, 4]);
}
