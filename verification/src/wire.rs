//! Little-endian integers inside a byte sequence.

use vstd::prelude::*;

verus! {

/// The unsigned 16-bit value stored little-endian at `at`.
pub open spec fn le_u16(s: Seq<u8>, at: int) -> int {
    s[at] as int + 256 * (s[at + 1] as int)
}

/// The unsigned 32-bit value stored little-endian at `at`.
pub open spec fn le_u32(s: Seq<u8>, at: int) -> int {
    le_u16(s, at) + 65536 * le_u16(s, at + 2)
}

/// The unsigned 64-bit value stored little-endian at `at`.
pub open spec fn le_u64(s: Seq<u8>, at: int) -> int {
    le_u32(s, at) + 4294967296 * le_u32(s, at + 4)
}

/// Whether `width` bytes starting at `at` lie inside a sequence of `len` bytes.
pub open spec fn fits(len: int, at: int, width: int) -> bool {
    0 <= at && at + width <= len
}

/// Reads a little-endian `u16`, or nothing when it would leave the slice.
pub fn read_u16(bytes: &[u8], at: usize) -> (v: Option<u16>)
    ensures
        v is Some <==> fits(bytes@.len() as int, at as int, 2),
        v is Some ==> v.unwrap() as int == le_u16(bytes@, at as int),
{
    if bytes.len() < 2 || at > bytes.len() - 2 {
        return None;
    }
    let lo: u16 = bytes[at] as u16;
    let hi: u16 = bytes[at + 1] as u16;
    Some(lo + 256 * hi)
}

/// Reads a little-endian `u32`, or nothing when it would leave the slice.
pub fn read_u32(bytes: &[u8], at: usize) -> (v: Option<u32>)
    ensures
        v is Some <==> fits(bytes@.len() as int, at as int, 4),
        v is Some ==> v.unwrap() as int == le_u32(bytes@, at as int),
{
    if bytes.len() < 4 || at > bytes.len() - 4 {
        return None;
    }
    let b0: u32 = bytes[at] as u32;
    let b1: u32 = bytes[at + 1] as u32;
    let b2: u32 = bytes[at + 2] as u32;
    let b3: u32 = bytes[at + 3] as u32;
    Some((b0 + 256 * b1) + 65536 * (b2 + 256 * b3))
}

/// Reads a little-endian `u64`, or nothing when it would leave the slice.
pub fn read_u64(bytes: &[u8], at: usize) -> (v: Option<u64>)
    ensures
        v is Some <==> fits(bytes@.len() as int, at as int, 8),
        v is Some ==> v.unwrap() as int == le_u64(bytes@, at as int),
{
    if bytes.len() < 8 || at > bytes.len() - 8 {
        return None;
    }
    let b0: u64 = bytes[at] as u64;
    let b1: u64 = bytes[at + 1] as u64;
    let b2: u64 = bytes[at + 2] as u64;
    let b3: u64 = bytes[at + 3] as u64;
    let b4: u64 = bytes[at + 4] as u64;
    let b5: u64 = bytes[at + 5] as u64;
    let b6: u64 = bytes[at + 6] as u64;
    let b7: u64 = bytes[at + 7] as u64;
    let lo: u64 = (b0 + 256 * b1) + 65536 * (b2 + 256 * b3);
    let hi: u64 = (b4 + 256 * b5) + 65536 * (b6 + 256 * b7);
    Some(lo + 4294967296 * hi)
}

/// Every little-endian value is within the range of its width.
pub proof fn lemma_le_ranges(s: Seq<u8>, at: int)
    ensures
        0 <= le_u16(s, at) <= u16::MAX,
        0 <= le_u32(s, at) <= u32::MAX,
        0 <= le_u64(s, at) <= u64::MAX,
{
}

} // verus!
