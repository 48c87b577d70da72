//! The byte encodings of the bridged chain: fixed-width little-endian
//! integers and the compact form used for lengths and block numbers.

use vstd::prelude::*;

verus! {

/// The two bytes of `x`, least significant first.
pub open spec fn u16_le_bytes(x: u16) -> Seq<u8> {
    seq![(x % 256) as u8, (x / 256) as u8]
}

/// The four bytes of `x`, least significant first.
pub open spec fn u32_le_bytes(x: u32) -> Seq<u8> {
    seq![
        (x % 256) as u8,
        (x / 256 % 256) as u8,
        (x / 65536 % 256) as u8,
        (x / 16777216) as u8,
    ]
}

/// The eight bytes of `x`, least significant first.
pub open spec fn u64_le_bytes(x: u64) -> Seq<u8> {
    u32_le_bytes((x % 4294967296) as u32) + u32_le_bytes((x / 4294967296) as u32)
}

/// The number whose little-endian bytes are the first two of `bytes`.
pub open spec fn u16_le_value(bytes: Seq<u8>) -> nat {
    bytes[0] as nat + 256 * (bytes[1] as nat)
}

/// The number whose little-endian bytes are the first four of `bytes`.
pub open spec fn u32_le_value(bytes: Seq<u8>) -> nat {
    bytes[0] as nat + 256 * (bytes[1] as nat) + 65536 * (bytes[2] as nat) + 16777216 * (
    bytes[3] as nat)
}

/// The number whose little-endian bytes are the first eight of `bytes`.
pub open spec fn u64_le_value(bytes: Seq<u8>) -> nat {
    u32_le_value(bytes) + 4294967296 * u32_le_value(bytes.skip(4))
}

/// How many bytes it takes to write a number of 2^30 or more: four to
/// eight.
pub open spec fn compact_width(n: u64) -> nat {
    if n < 0x1_0000_0000 {
        4
    } else if n < 0x100_0000_0000 {
        5
    } else if n < 0x1_0000_0000_0000 {
        6
    } else if n < 0x100_0000_0000_0000 {
        7
    } else {
        8
    }
}

/// The compact encoding of `n`. The two low bits of the first byte tell the
/// form: one byte, two or four that hold `n` in their upper bits, or a byte
/// that counts the bytes beyond four, followed by as many bytes as `n`
/// needs.
pub open spec fn compact_encoding(n: u64) -> Seq<u8> {
    if n < 64 {
        seq![(n * 4) as u8]
    } else if n < 16384 {
        u16_le_bytes((n * 4 + 1) as u16)
    } else if n < 1073741824 {
        u32_le_bytes((n * 4 + 2) as u32)
    } else {
        seq![(3 + 4 * (compact_width(n) - 4)) as u8] + u64_le_bytes(n).take(
            compact_width(n) as int,
        )
    }
}

/// What a compact-encoded 32-bit number at the start of `data` decodes to,
/// as a length prefix is read: the number and how many bytes it took. Only
/// the shortest encoding of a number is accepted, and no number beyond 32
/// bits.
pub open spec fn compact_decoding(data: Seq<u8>) -> Option<(u32, nat)> {
    if data.len() == 0 {
        None
    } else if data[0] % 4 == 0 {
        Some(((data[0] / 4) as u32, 1))
    } else if data[0] % 4 == 1 {
        if data.len() >= 2 && u16_le_value(data) / 4 > 63 {
            Some(((u16_le_value(data) / 4) as u32, 2))
        } else {
            None
        }
    } else if data[0] % 4 == 2 {
        if data.len() >= 4 && u32_le_value(data) / 4 > 16383 {
            Some(((u32_le_value(data) / 4) as u32, 4))
        } else {
            None
        }
    } else {
        if data[0] == 3 && data.len() >= 5 && u32_le_value(data.skip(1)) > 1073741823 {
            Some((u32_le_value(data.skip(1)) as u32, 5))
        } else {
            None
        }
    }
}

/// Appends `bytes` to `out`.
pub fn append_bytes(out: &mut Vec<u8>, bytes: &[u8])
    ensures
        final(out)@ == old(out)@ + bytes@,
{
    let mut i: usize = 0;
    while i < bytes.len()
        invariant
            i <= bytes.len(),
            out@ == old(out)@ + bytes@.take(i as int),
        decreases bytes.len() - i,
    {
        out.push(bytes[i]);
        i += 1;
        assert(out@ =~= old(out)@ + bytes@.take(i as int));
    }
    assert(bytes@.take(bytes.len() as int) =~= bytes@);
}

/// Appends the little-endian bytes of `x` to `out`.
pub fn append_u16_le(out: &mut Vec<u8>, x: u16)
    ensures
        final(out)@ == old(out)@ + u16_le_bytes(x),
{
    out.push((x % 256) as u8);
    out.push((x / 256) as u8);
    assert(out@ =~= old(out)@ + u16_le_bytes(x));
}

/// Appends the little-endian bytes of `x` to `out`.
pub fn append_u32_le(out: &mut Vec<u8>, x: u32)
    ensures
        final(out)@ == old(out)@ + u32_le_bytes(x),
{
    out.push((x % 256) as u8);
    out.push((x / 256 % 256) as u8);
    out.push((x / 65536 % 256) as u8);
    out.push((x / 16777216) as u8);
    assert(out@ =~= old(out)@ + u32_le_bytes(x));
}

/// Appends the little-endian bytes of `x` to `out`.
pub fn append_u64_le(out: &mut Vec<u8>, x: u64)
    ensures
        final(out)@ == old(out)@ + u64_le_bytes(x),
{
    append_u32_le(out, (x % 4294967296) as u32);
    append_u32_le(out, (x / 4294967296) as u32);
    assert(out@ =~= old(out)@ + u64_le_bytes(x));
}

/// Appends the compact encoding of `n` to `out`.
pub fn append_compact(out: &mut Vec<u8>, n: u64)
    ensures
        final(out)@ == old(out)@ + compact_encoding(n),
{
    if n < 64 {
        out.push((n * 4) as u8);
        assert(out@ =~= old(out)@ + compact_encoding(n));
    } else if n < 16384 {
        append_u16_le(out, (n * 4 + 1) as u16);
    } else if n < 1073741824 {
        append_u32_le(out, (n * 4 + 2) as u32);
    } else {
        let width: usize = if n < 0x1_0000_0000 {
            4
        } else if n < 0x100_0000_0000 {
            5
        } else if n < 0x1_0000_0000_0000 {
            6
        } else if n < 0x100_0000_0000_0000 {
            7
        } else {
            8
        };
        let mut bytes: Vec<u8> = Vec::new();
        append_u64_le(&mut bytes, n);
        assert(bytes@ =~= u64_le_bytes(n));
        out.push((3 + 4 * (width - 4)) as u8);
        let ghost head = out@;
        let mut i: usize = 0;
        while i < width
            invariant
                i <= width <= 8,
                bytes@.len() == 8,
                out@ == head + bytes@.take(i as int),
            decreases width - i,
        {
            out.push(bytes[i]);
            i += 1;
            assert(out@ =~= head + bytes@.take(i as int));
        }
        assert(out@ =~= old(out)@ + compact_encoding(n));
    }
}

/// Reads a little-endian `u32` at offset `at` of `data`.
pub fn read_u32_le(data: &[u8], at: usize) -> (x: u32)
    requires
        at + 4 <= data.len(),
    ensures
        x == u32_le_value(data@.skip(at as int)),
{
    let b0: u32 = data[at] as u32;
    let b1: u32 = data[at + 1] as u32;
    let b2: u32 = data[at + 2] as u32;
    let b3: u32 = data[at + 3] as u32;
    b0 + 256 * b1 + 65536 * b2 + 16777216 * b3
}

/// Reads a little-endian `u64` at offset `at` of `data`.
pub fn read_u64_le(data: &[u8], at: usize) -> (x: u64)
    requires
        at + 8 <= data.len(),
    ensures
        x == u64_le_value(data@.skip(at as int)),
{
    let low: u64 = read_u32_le(data, at) as u64;
    let high: u64 = read_u32_le(data, at + 4) as u64;
    assert(data@.skip(at as int).skip(4) =~= data@.skip(at + 4));
    low + 4294967296 * high
}

/// Decodes the compact-encoded number that starts at offset `at` of `data`.
/// Returns the number and how many bytes it took, or `None` where the bytes
/// there are no shortest compact encoding of a `u32`.
pub fn read_compact(data: &[u8], at: usize) -> (decoded: Option<(u32, usize)>)
    requires
        at <= data.len(),
    ensures
        match decoded {
            Some((n, used)) => compact_decoding(data@.skip(at as int)) == Some((n, used as nat))
                && at + used <= data@.len(),
            None => compact_decoding(data@.skip(at as int)) is None,
        },
{
    let ghost rest = data@.skip(at as int);
    if at >= data.len() {
        return None;
    }
    let left: usize = data.len() - at;
    let prefix: u8 = data[at];
    assert(rest[0] == prefix);
    if prefix % 4 == 0 {
        Some(((prefix / 4) as u32, 1))
    } else if prefix % 4 == 1 {
        if left < 2 {
            return None;
        }
        let x: u32 = (prefix as u32 + 256 * (data[at + 1] as u32)) / 4;
        assert(rest[1] == data@[at + 1]);
        if x > 63 {
            Some((x, 2))
        } else {
            None
        }
    } else if prefix % 4 == 2 {
        if left < 4 {
            return None;
        }
        let x: u32 = read_u32_le(data, at) / 4;
        if x > 16383 {
            Some((x, 4))
        } else {
            None
        }
    } else {
        if prefix != 3 || left < 5 {
            return None;
        }
        let x: u32 = read_u32_le(data, at + 1);
        assert(rest.skip(1) =~= data@.skip(at + 1));
        if x > 1073741823 {
            Some((x, 5))
        } else {
            None
        }
    }
}

/// Reading the little-endian bytes of a number gives the number back.
pub proof fn lemma_u16_le_round_trip(x: u16)
    ensures
        u16_le_value(u16_le_bytes(x)) == x,
        u16_le_bytes(x)[0] % 4 == x % 4,
{
}

/// Reading the little-endian bytes of a number gives the number back.
pub proof fn lemma_u32_le_round_trip(x: u32)
    ensures
        u32_le_value(u32_le_bytes(x)) == x,
        u32_le_bytes(x)[0] % 4 == x % 4,
{
}

/// Reading the little-endian bytes of a number gives the number back.
pub proof fn lemma_u64_le_round_trip(x: u64)
    ensures
        u64_le_value(u64_le_bytes(x)) == x,
{
    let low = (x % 4294967296) as u32;
    let high = (x / 4294967296) as u32;
    lemma_u32_le_round_trip(low);
    lemma_u32_le_round_trip(high);
    let bytes = u64_le_bytes(x);
    assert(bytes.skip(4) =~= u32_le_bytes(high));
    assert(u32_le_value(bytes) == u32_le_value(u32_le_bytes(low)));
}

/// Decoding undoes encoding, whatever follows the encoded number.
pub proof fn lemma_compact_round_trip(n: u32, rest: Seq<u8>)
    ensures
        compact_decoding(compact_encoding(n as u64) + rest) == Some(
            (n, compact_encoding(n as u64).len()),
        ),
{
    let data = compact_encoding(n as u64) + rest;
    if n < 64 {
        assert(data[0] == (n * 4) as u8);
    } else if n < 16384 {
        let x = (n * 4 + 1) as u16;
        lemma_u16_le_round_trip(x);
        assert(u16_le_value(data) == u16_le_value(u16_le_bytes(x)));
        assert(data[0] == u16_le_bytes(x)[0]);
    } else if n < 1073741824 {
        let x = (n * 4 + 2) as u32;
        lemma_u32_le_round_trip(x);
        assert(u32_le_value(data) == u32_le_value(u32_le_bytes(x)));
        assert(data[0] == u32_le_bytes(x)[0]);
    } else {
        lemma_u32_le_round_trip(n);
        assert(u64_le_bytes(n as u64).take(4) =~= u32_le_bytes(n));
        assert(data[0] == 3u8);
        assert(data.skip(1) =~= u32_le_bytes(n) + rest);
        assert(u32_le_value(data.skip(1)) == u32_le_value(u32_le_bytes(n)));
    }
}

} // verus!
