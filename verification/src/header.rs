//! The 44-byte canonical WAVE header: its fields, how they are laid out in
//! bytes, and how to read and write them.

use crate::le_bytes::{
    i16_at, i16_le_bytes, i16_to_le, i32_at, i32_le_bytes, i32_to_le, lemma_i16_le_bytes_roundtrip,
    lemma_i16_le_roundtrip, lemma_i32_le_bytes_roundtrip, lemma_i32_le_roundtrip, read_i16_le,
    read_i32_le,
};
use vstd::prelude::*;

verus! {

/// Length in bytes of the canonical WAVE header that precedes the samples.
pub const HEADER_LEN: usize = 44;

/// Why bytes could not be decoded as a WAVE file.
#[derive(Debug, PartialEq, Eq, Structural)]
pub enum WaveError {
    /// The bytes end before the header, or before the samples that the
    /// header announces.
    UnexpectedEof,
}

/// The fields of a canonical 44-byte RIFF/WAVE header, in file order.
/// Four-character tags are kept as signed bytes.
pub struct WaveHeader {
    pub riff_chunk_id: [i8; 4],
    pub riff_chunk_size: i32,
    pub file_format_type: [i8; 4],
    pub fmt_chunk_id: [i8; 4],
    pub fmt_chunk_size: i32,
    pub wave_format_type: i16,
    pub channel: i16,
    pub samples_per_sec: i32,
    pub bytes_per_sec: i32,
    pub block_size: i16,
    pub bits_per_sample: i16,
    pub data_chunk_id: [i8; 4],
    pub data_chunk_size: i32,
}

/// A byte read as a signed byte (two's complement).
pub open spec fn i8_of_byte(b: u8) -> i8 {
    if b >= 128 {
        (b - 256) as i8
    } else {
        b as i8
    }
}

/// The byte that holds a signed byte (two's complement).
pub open spec fn byte_of_i8(x: i8) -> u8 {
    if x < 0 {
        (x + 256) as u8
    } else {
        x as u8
    }
}

/// The four-character tag stored at `pos`.
pub open spec fn tag_at(b: Seq<u8>, pos: int) -> [i8; 4] {
    [i8_of_byte(b[pos]), i8_of_byte(b[pos + 1]), i8_of_byte(b[pos + 2]), i8_of_byte(b[pos + 3])]
}

/// The four bytes that hold a four-character tag.
pub open spec fn tag_bytes(t: [i8; 4]) -> Seq<u8> {
    seq![byte_of_i8(t@[0]), byte_of_i8(t@[1]), byte_of_i8(t@[2]), byte_of_i8(t@[3])]
}

/// The header that the first 44 bytes of `b` stand for.
pub open spec fn spec_parse_header(b: Seq<u8>) -> WaveHeader {
    WaveHeader {
        riff_chunk_id: tag_at(b, 0),
        riff_chunk_size: i32_at(b, 4) as i32,
        file_format_type: tag_at(b, 8),
        fmt_chunk_id: tag_at(b, 12),
        fmt_chunk_size: i32_at(b, 16) as i32,
        wave_format_type: i16_at(b, 20) as i16,
        channel: i16_at(b, 22) as i16,
        samples_per_sec: i32_at(b, 24) as i32,
        bytes_per_sec: i32_at(b, 28) as i32,
        block_size: i16_at(b, 32) as i16,
        bits_per_sample: i16_at(b, 34) as i16,
        data_chunk_id: tag_at(b, 36),
        data_chunk_size: i32_at(b, 40) as i32,
    }
}

/// The 44 bytes that hold header `h`.
pub open spec fn header_bytes(h: WaveHeader) -> Seq<u8> {
    tag_bytes(h.riff_chunk_id) + i32_le_bytes(h.riff_chunk_size as int) + tag_bytes(
        h.file_format_type,
    ) + tag_bytes(h.fmt_chunk_id) + i32_le_bytes(h.fmt_chunk_size as int) + i16_le_bytes(
        h.wave_format_type as int,
    ) + i16_le_bytes(h.channel as int) + i32_le_bytes(h.samples_per_sec as int) + i32_le_bytes(
        h.bytes_per_sec as int,
    ) + i16_le_bytes(h.block_size as int) + i16_le_bytes(h.bits_per_sample as int) + tag_bytes(
        h.data_chunk_id,
    ) + i32_le_bytes(h.data_chunk_size as int)
}

fn i8_from_byte(b: u8) -> (r: i8)
    ensures
        r == i8_of_byte(b),
{
    if b >= 128 {
        (b as i16 - 256) as i8
    } else {
        b as i8
    }
}

fn byte_from_i8(x: i8) -> (r: u8)
    ensures
        r == byte_of_i8(x),
{
    if x < 0 {
        (x as i16 + 256) as u8
    } else {
        x as u8
    }
}

/// The four-character tag at `pos`, each byte taken as a signed byte.
fn read_i8x4(bytes: &[u8], pos: usize) -> (r: [i8; 4])
    requires
        pos + 4 <= bytes@.len(),
    ensures
        r == tag_at(bytes@, pos as int),
{
    [
        i8_from_byte(bytes[pos]),
        i8_from_byte(bytes[pos + 1]),
        i8_from_byte(bytes[pos + 2]),
        i8_from_byte(bytes[pos + 3]),
    ]
}

/// Appends the four bytes of a four-character tag.
fn write_i8x4(out: &mut Vec<u8>, arr: [i8; 4])
    ensures
        final(out)@ == old(out)@ + tag_bytes(arr),
{
    out.push(byte_from_i8(arr[0]));
    out.push(byte_from_i8(arr[1]));
    out.push(byte_from_i8(arr[2]));
    out.push(byte_from_i8(arr[3]));
    assert(final(out)@ =~= old(out)@ + tag_bytes(arr));
}

fn push_i16(out: &mut Vec<u8>, n: i16)
    ensures
        final(out)@ == old(out)@ + i16_le_bytes(n as int),
{
    let b = i16_to_le(n);
    out.push(b[0]);
    out.push(b[1]);
    assert(final(out)@ =~= old(out)@ + i16_le_bytes(n as int));
}

fn push_i32(out: &mut Vec<u8>, n: i32)
    ensures
        final(out)@ == old(out)@ + i32_le_bytes(n as int),
{
    let b = i32_to_le(n);
    out.push(b[0]);
    out.push(b[1]);
    out.push(b[2]);
    out.push(b[3]);
    assert(final(out)@ =~= old(out)@ + i32_le_bytes(n as int));
}

/// Reads the canonical 44-byte header at the start of `bytes`. Fails with
/// `UnexpectedEof` exactly when fewer than 44 bytes are given.
pub fn read_header(bytes: &[u8]) -> (r: Result<WaveHeader, WaveError>)
    ensures
        r == (if bytes@.len() < HEADER_LEN {
            Err(WaveError::UnexpectedEof)
        } else {
            Ok(spec_parse_header(bytes@))
        }),
{
    if bytes.len() < HEADER_LEN {
        return Err(WaveError::UnexpectedEof);
    }
    let riff_chunk_id = read_i8x4(bytes, 0);
    let riff_chunk_size: i32 = read_i32_le(bytes, 4);
    let file_format_type = read_i8x4(bytes, 8);
    let fmt_chunk_id = read_i8x4(bytes, 12);
    let fmt_chunk_size: i32 = read_i32_le(bytes, 16);
    let wave_format_type: i16 = read_i16_le(bytes, 20);
    let channel: i16 = read_i16_le(bytes, 22);
    let samples_per_sec: i32 = read_i32_le(bytes, 24);
    let bytes_per_sec: i32 = read_i32_le(bytes, 28);
    let block_size: i16 = read_i16_le(bytes, 32);
    let bits_per_sample: i16 = read_i16_le(bytes, 34);
    let data_chunk_id = read_i8x4(bytes, 36);
    let data_chunk_size: i32 = read_i32_le(bytes, 40);
    Ok(
        WaveHeader {
            riff_chunk_id,
            riff_chunk_size,
            file_format_type,
            fmt_chunk_id,
            fmt_chunk_size,
            wave_format_type,
            channel,
            samples_per_sec,
            bytes_per_sec,
            block_size,
            bits_per_sample,
            data_chunk_id,
            data_chunk_size,
        },
    )
}

/// The 44 bytes of header `h`, fields in file order, integers little-endian.
pub fn encode_header(h: &WaveHeader) -> (out: Vec<u8>)
    ensures
        out@ == header_bytes(*h),
{
    let mut out: Vec<u8> = Vec::new();
    write_i8x4(&mut out, h.riff_chunk_id);
    push_i32(&mut out, h.riff_chunk_size);
    write_i8x4(&mut out, h.file_format_type);
    write_i8x4(&mut out, h.fmt_chunk_id);
    push_i32(&mut out, h.fmt_chunk_size);
    push_i16(&mut out, h.wave_format_type);
    push_i16(&mut out, h.channel);
    push_i32(&mut out, h.samples_per_sec);
    push_i32(&mut out, h.bytes_per_sec);
    push_i16(&mut out, h.block_size);
    push_i16(&mut out, h.bits_per_sample);
    write_i8x4(&mut out, h.data_chunk_id);
    push_i32(&mut out, h.data_chunk_size);
    assert(out@ =~= header_bytes(*h));
    out
}

/// Writing a header and reading the bytes back gives the same header.
pub proof fn lemma_header_roundtrip(h: WaveHeader)
    ensures
        header_bytes(h).len() == HEADER_LEN,
        spec_parse_header(header_bytes(h)) == h,
{
    broadcast use vstd::array::group_array_axioms;

    let b = header_bytes(h);
    lemma_i32_le_roundtrip(h.riff_chunk_size);
    lemma_i32_le_roundtrip(h.fmt_chunk_size);
    lemma_i16_le_roundtrip(h.wave_format_type);
    lemma_i16_le_roundtrip(h.channel);
    lemma_i32_le_roundtrip(h.samples_per_sec);
    lemma_i32_le_roundtrip(h.bytes_per_sec);
    lemma_i16_le_roundtrip(h.block_size);
    lemma_i16_le_roundtrip(h.bits_per_sample);
    lemma_i32_le_roundtrip(h.data_chunk_size);
    assert(tag_at(b, 0) =~= h.riff_chunk_id);
    assert(tag_at(b, 8) =~= h.file_format_type);
    assert(tag_at(b, 12) =~= h.fmt_chunk_id);
    assert(tag_at(b, 36) =~= h.data_chunk_id);
}

/// The header read from bytes depends only on their first 44 bytes.
pub proof fn lemma_parse_header_prefix(b: Seq<u8>, c: Seq<u8>)
    requires
        b.len() >= HEADER_LEN,
        c.len() >= HEADER_LEN,
        b.take(HEADER_LEN as int) == c.take(HEADER_LEN as int),
    ensures
        spec_parse_header(b) == spec_parse_header(c),
{
    broadcast use vstd::array::group_array_axioms;

    assert forall|k: int| 0 <= k < HEADER_LEN implies b[k] == c[k] by {
        assert(b[k] == b.take(HEADER_LEN as int)[k]);
        assert(c[k] == c.take(HEADER_LEN as int)[k]);
    }
    assert(tag_at(b, 0) =~= tag_at(c, 0));
    assert(tag_at(b, 8) =~= tag_at(c, 8));
    assert(tag_at(b, 12) =~= tag_at(c, 12));
    assert(tag_at(b, 36) =~= tag_at(c, 36));
}

/// Reading a header from bytes and writing it back gives the first 44 bytes
/// unchanged.
pub proof fn lemma_header_bytes_roundtrip(b: Seq<u8>)
    requires
        b.len() >= HEADER_LEN,
    ensures
        header_bytes(spec_parse_header(b)) == b.take(HEADER_LEN as int),
{
    broadcast use vstd::array::group_array_axioms;

    lemma_i32_le_bytes_roundtrip(b[4], b[5], b[6], b[7]);
    lemma_i32_le_bytes_roundtrip(b[16], b[17], b[18], b[19]);
    lemma_i16_le_bytes_roundtrip(b[20], b[21]);
    lemma_i16_le_bytes_roundtrip(b[22], b[23]);
    lemma_i32_le_bytes_roundtrip(b[24], b[25], b[26], b[27]);
    lemma_i32_le_bytes_roundtrip(b[28], b[29], b[30], b[31]);
    lemma_i16_le_bytes_roundtrip(b[32], b[33]);
    lemma_i16_le_bytes_roundtrip(b[34], b[35]);
    lemma_i32_le_bytes_roundtrip(b[40], b[41], b[42], b[43]);
    assert(header_bytes(spec_parse_header(b)) =~= b.take(HEADER_LEN as int));
}

} // verus!
