//! Bounds-checked little-endian reads over an immutable byte slice.

use vstd::prelude::*;

verus! {

/// The little-endian `u16` stored at `b[i..i + 2]`.
#[verifier::opaque]
pub open spec fn le_u16(b: Seq<u8>, i: int) -> int {
    b[i] + 256 * b[i + 1]
}

/// The little-endian `u32` stored at `b[i..i + 4]`.
#[verifier::opaque]
pub open spec fn le_u32(b: Seq<u8>, i: int) -> int {
    le_u16(b, i) + 65536 * le_u16(b, i + 2)
}

/// The little-endian `u64` stored at `b[i..i + 8]`.
#[verifier::opaque]
pub open spec fn le_u64(b: Seq<u8>, i: int) -> int {
    le_u32(b, i) + 4294967296 * le_u32(b, i + 4)
}

/// True when `n` bytes starting at `pos` lie inside `b`.
pub open spec fn fits(b: Seq<u8>, pos: int, n: int) -> bool {
    0 <= pos && pos + n <= b.len()
}

pub fn read_u8(b: &[u8], pos: usize) -> (r: Option<u8>)
    ensures
        fits(b@, pos as int, 1) ==> r == Some(b@[pos as int]),
        !fits(b@, pos as int, 1) ==> r is None,
{
    if pos < b.len() {
        Some(b[pos])
    } else {
        None
    }
}

pub fn read_u16(b: &[u8], pos: usize) -> (r: Option<u16>)
    ensures
        fits(b@, pos as int, 2) ==> r == Some(le_u16(b@, pos as int) as u16),
        fits(b@, pos as int, 2) ==> 0 <= le_u16(b@, pos as int) <= u16::MAX,
        !fits(b@, pos as int, 2) ==> r is None,
{
    reveal(le_u16);
    if pos < b.len() && b.len() - pos >= 2 {
        Some(b[pos] as u16 + 256 * (b[pos + 1] as u16))
    } else {
        None
    }
}

pub fn read_u32(b: &[u8], pos: usize) -> (r: Option<u32>)
    ensures
        fits(b@, pos as int, 4) ==> r == Some(le_u32(b@, pos as int) as u32),
        fits(b@, pos as int, 4) ==> 0 <= le_u32(b@, pos as int) <= u32::MAX,
        !fits(b@, pos as int, 4) ==> r is None,
{
    reveal(le_u16);
    reveal(le_u32);
    if pos < b.len() && b.len() - pos >= 4 {
        let lo = b[pos] as u32 + 256 * (b[pos + 1] as u32);
        let hi = b[pos + 2] as u32 + 256 * (b[pos + 3] as u32);
        Some(lo + 65536 * hi)
    } else {
        None
    }
}

pub fn read_u64(b: &[u8], pos: usize) -> (r: Option<u64>)
    ensures
        fits(b@, pos as int, 8) ==> r == Some(le_u64(b@, pos as int) as u64),
        fits(b@, pos as int, 8) ==> 0 <= le_u64(b@, pos as int) <= u64::MAX,
        !fits(b@, pos as int, 8) ==> r is None,
{
    reveal(le_u32);
    reveal(le_u64);
    if pos < b.len() && b.len() - pos >= 8 {
        let lo = read_u32(b, pos).unwrap();
        let hi = read_u32(b, pos + 4).unwrap();
        Some(lo as u64 + 4294967296 * (hi as u64))
    } else {
        None
    }
}

} // verus!
