//! Little-endian integers, as every on-disk layout of the format stores them.

use byteorder::ByteOrder;
use byteorder::LittleEndian;
use vstd::prelude::*;

verus! {

/// The unsigned integer that the first `width` bytes of `bytes` spell,
/// least significant byte first.
pub open spec fn le_unsigned(bytes: Seq<u8>, width: nat) -> nat
    recommends
        width <= bytes.len(),
    decreases width,
{
    if width == 0 {
        0
    } else {
        (bytes[0] as nat) + 256 * le_unsigned(bytes.subrange(1, bytes.len() as int), (width - 1) as nat)
    }
}

/// Two to the power `8 * width`, for the widths the format uses.
pub open spec fn le_modulus(width: nat) -> int {
    if width == 1 {
        0x100
    } else if width == 2 {
        0x1_0000
    } else if width == 4 {
        0x1_0000_0000
    } else {
        0x1_0000_0000_0000_0000
    }
}

/// The two's-complement reading of the first `width` bytes of `bytes`,
/// for `width` 1, 2, 4 or 8.
pub open spec fn le_signed(bytes: Seq<u8>, width: nat) -> int {
    let raw = le_unsigned(bytes, width) as int;
    if 2 * raw >= le_modulus(width) {
        raw - le_modulus(width)
    } else {
        raw
    }
}

/// Unfolds `le_unsigned` for the four widths in use, and bounds it.
pub proof fn lemma_le_unsigned_unfold(bytes: Seq<u8>)
    ensures
        bytes.len() >= 1 ==> le_unsigned(bytes, 1) == bytes[0] as nat,
        bytes.len() >= 2 ==> le_unsigned(bytes, 2) == bytes[0] as nat + 0x100 * (bytes[1] as nat),
        bytes.len() >= 4 ==> le_unsigned(bytes, 4) == bytes[0] as nat + 0x100 * (bytes[1] as nat)
            + 0x1_0000 * (bytes[2] as nat) + 0x100_0000 * (bytes[3] as nat),
        bytes.len() >= 1 ==> le_unsigned(bytes, 1) < 0x100,
        bytes.len() >= 2 ==> le_unsigned(bytes, 2) < 0x1_0000,
        bytes.len() >= 4 ==> le_unsigned(bytes, 4) < 0x1_0000_0000,
{
    reveal_with_fuel(le_unsigned, 5);
    if bytes.len() >= 1 {
        let t1 = bytes.subrange(1, bytes.len() as int);
        if bytes.len() >= 2 {
            assert(t1[0] == bytes[1]);
            let t2 = t1.subrange(1, t1.len() as int);
            if bytes.len() >= 4 {
                assert(t2[0] == bytes[2]);
                let t3 = t2.subrange(1, t2.len() as int);
                assert(t3[0] == bytes[3]);
            }
        }
    }
}

/// `byteorder::LittleEndian::read_u16`: the first two bytes of `buf`, least
/// significant first. The outside function panics on a shorter slice.
#[verifier::external_body]
pub(crate) fn read_u16(buf: &[u8]) -> (value: u16)
    requires
        buf@.len() >= 2,
    ensures
        value as nat == le_unsigned(buf@, 2),
{
    LittleEndian::read_u16(buf)
}

/// `byteorder::LittleEndian::read_u32`: the first four bytes of `buf`, least
/// significant first. The outside function panics on a shorter slice.
#[verifier::external_body]
pub(crate) fn read_u32(buf: &[u8]) -> (value: u32)
    requires
        buf@.len() >= 4,
    ensures
        value as nat == le_unsigned(buf@, 4),
{
    LittleEndian::read_u32(buf)
}

/// `byteorder::LittleEndian::read_i16`: the first two bytes of `buf` as a
/// two's-complement number. The outside function panics on a shorter slice.
#[verifier::external_body]
pub(crate) fn read_i16(buf: &[u8]) -> (value: i16)
    requires
        buf@.len() >= 2,
    ensures
        value as int == le_signed(buf@, 2),
{
    LittleEndian::read_i16(buf)
}

/// `byteorder::LittleEndian::read_i32`: the first four bytes of `buf` as a
/// two's-complement number. The outside function panics on a shorter slice.
#[verifier::external_body]
pub(crate) fn read_i32(buf: &[u8]) -> (value: i32)
    requires
        buf@.len() >= 4,
    ensures
        value as int == le_signed(buf@, 4),
{
    LittleEndian::read_i32(buf)
}

/// `byteorder::LittleEndian::read_i64`: the first eight bytes of `buf` as a
/// two's-complement number. The outside function panics on a shorter slice.
#[verifier::external_body]
pub(crate) fn read_i64(buf: &[u8]) -> (value: i64)
    requires
        buf@.len() >= 8,
    ensures
        value as int == le_signed(buf@, 8),
{
    LittleEndian::read_i64(buf)
}

/// `byteorder::LittleEndian::read_u64`: the first eight bytes of `buf`, least
/// significant first. The outside function panics on a shorter slice.
#[verifier::external_body]
pub(crate) fn read_u64(buf: &[u8]) -> (value: u64)
    requires
        buf@.len() >= 8,
    ensures
        value as nat == le_unsigned(buf@, 8),
{
    LittleEndian::read_u64(buf)
}

} // verus!
