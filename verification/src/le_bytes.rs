//! Little-endian two's-complement integers inside byte strings.
//!
//! The byte-level reads and writes are done by the `byteorder` crate; the
//! spec functions here say which bytes stand for which integer.

use byteorder::{ByteOrder, LittleEndian};
use vstd::arithmetic::div_mod::lemma_fundamental_div_mod_converse;
use vstd::prelude::*;

verus! {

/// The integer that two bytes stand for, read as a little-endian
/// two's-complement `i16`.
pub open spec fn le_i16_value(b0: u8, b1: u8) -> int {
    let u: int = b0 + 256 * b1;
    if u >= 0x8000 {
        u - 0x1_0000
    } else {
        u
    }
}

/// The integer that four bytes stand for, read as a little-endian
/// two's-complement `i32`.
pub open spec fn le_i32_value(b0: u8, b1: u8, b2: u8, b3: u8) -> int {
    let u: int = b0 + 256 * b1 + 0x1_0000 * b2 + 0x100_0000 * b3;
    if u >= 0x8000_0000 {
        u - 0x1_0000_0000
    } else {
        u
    }
}

/// The `i16` stored little-endian at `pos` in `bytes`.
pub open spec fn i16_at(bytes: Seq<u8>, pos: int) -> int {
    le_i16_value(bytes[pos], bytes[pos + 1])
}

/// The `i32` stored little-endian at `pos` in `bytes`.
pub open spec fn i32_at(bytes: Seq<u8>, pos: int) -> int {
    le_i32_value(bytes[pos], bytes[pos + 1], bytes[pos + 2], bytes[pos + 3])
}

/// The two bytes of `n` (an `i16`) in little-endian two's complement.
pub open spec fn i16_le_bytes(n: int) -> Seq<u8> {
    let u: int = if n < 0 {
        n + 0x1_0000
    } else {
        n
    };
    seq![(u % 256) as u8, (u / 256) as u8]
}

/// The four bytes of `n` (an `i32`) in little-endian two's complement.
pub open spec fn i32_le_bytes(n: int) -> Seq<u8> {
    let u: int = if n < 0 {
        n + 0x1_0000_0000
    } else {
        n
    };
    seq![
        (u % 256) as u8,
        ((u / 256) % 256) as u8,
        ((u / 0x1_0000) % 256) as u8,
        (u / 0x100_0000) as u8,
    ]
}

/// Encoding an `i16` and reading the bytes back gives the same integer.
pub proof fn lemma_i16_le_roundtrip(n: i16)
    ensures
        i16_le_bytes(n as int).len() == 2,
        le_i16_value(i16_le_bytes(n as int)[0], i16_le_bytes(n as int)[1]) == n,
{
}

/// Reading two bytes as an `i16` and encoding the result gives the bytes back.
pub proof fn lemma_i16_le_bytes_roundtrip(b0: u8, b1: u8)
    ensures
        i16_le_bytes(le_i16_value(b0, b1)) == seq![b0, b1],
{
    assert(i16_le_bytes(le_i16_value(b0, b1)) =~= seq![b0, b1]);
}

/// Encoding an `i32` and reading the bytes back gives the same integer.
pub proof fn lemma_i32_le_roundtrip(n: i32)
    ensures
        i32_le_bytes(n as int).len() == 4,
        le_i32_value(
            i32_le_bytes(n as int)[0],
            i32_le_bytes(n as int)[1],
            i32_le_bytes(n as int)[2],
            i32_le_bytes(n as int)[3],
        ) == n,
{
}

/// Reading four bytes as an `i32` and encoding the result gives the bytes back.
pub proof fn lemma_i32_le_bytes_roundtrip(b0: u8, b1: u8, b2: u8, b3: u8)
    ensures
        i32_le_bytes(le_i32_value(b0, b1, b2, b3)) == seq![b0, b1, b2, b3],
{
    let u: int = b0 + 256 * b1 + 0x1_0000 * b2 + 0x100_0000 * b3;
    let q1: int = b1 + 256 * b2 + 0x1_0000 * b3;
    let q2: int = b2 + 256 * b3;
    lemma_fundamental_div_mod_converse(u, 256, q1, b0 as int);
    lemma_fundamental_div_mod_converse(q1, 256, q2, b1 as int);
    lemma_fundamental_div_mod_converse(u, 0x1_0000, q2, b0 + 256 * b1);
    lemma_fundamental_div_mod_converse(q2, 256, b3 as int, b2 as int);
    lemma_fundamental_div_mod_converse(u, 0x100_0000, b3 as int, b0 + 256 * b1 + 0x1_0000 * b2);
    assert(i32_le_bytes(le_i32_value(b0, b1, b2, b3)) =~= seq![b0, b1, b2, b3]);
}

/// A little-endian `i16` read from bytes lies in the `i16` range.
pub proof fn lemma_i16_at_range(bytes: Seq<u8>, pos: int)
    requires
        0 <= pos,
        pos + 2 <= bytes.len(),
    ensures
        i16::MIN <= i16_at(bytes, pos) <= i16::MAX,
{
}

/// A little-endian `i32` read from bytes lies in the `i32` range.
pub proof fn lemma_i32_at_range(bytes: Seq<u8>, pos: int)
    requires
        0 <= pos,
        pos + 4 <= bytes.len(),
    ensures
        i32::MIN <= i32_at(bytes, pos) <= i32::MAX,
{
}

/// Calls `<LittleEndian as ByteOrder>::read_i16` on `buf[pos..]`: the two
/// bytes at `pos`, taken as a little-endian two's-complement integer.
#[verifier::external_body]
pub(crate) fn read_i16_le(buf: &[u8], pos: usize) -> (r: i16)
    requires
        pos + 2 <= buf@.len(),
    ensures
        r as int == i16_at(buf@, pos as int),
{
    LittleEndian::read_i16(&buf[pos..])
}

/// Calls `<LittleEndian as ByteOrder>::read_i32` on `buf[pos..]`: the four
/// bytes at `pos`, taken as a little-endian two's-complement integer.
#[verifier::external_body]
pub(crate) fn read_i32_le(buf: &[u8], pos: usize) -> (r: i32)
    requires
        pos + 4 <= buf@.len(),
    ensures
        r as int == i32_at(buf@, pos as int),
{
    LittleEndian::read_i32(&buf[pos..])
}

/// Calls `<LittleEndian as ByteOrder>::write_i16` on a fresh two-byte
/// buffer: the result holds `n` in little-endian two's complement.
#[verifier::external_body]
pub(crate) fn i16_to_le(n: i16) -> (b: [u8; 2])
    ensures
        b@ == i16_le_bytes(n as int),
{
    let mut b = [0u8; 2];
    LittleEndian::write_i16(&mut b, n);
    b
}

/// Calls `<LittleEndian as ByteOrder>::write_i32` on a fresh four-byte
/// buffer: the result holds `n` in little-endian two's complement.
#[verifier::external_body]
pub(crate) fn i32_to_le(n: i32) -> (b: [u8; 4])
    ensures
        b@ == i32_le_bytes(n as int),
{
    let mut b = [0u8; 4];
    LittleEndian::write_i32(&mut b, n);
    b
}

} // verus!
