//! Little-endian integer fields of a byte sequence.

use vstd::prelude::*;

verus! {

/// Unsigned little-endian value of the two bytes at `p`.
pub open spec fn u16_le(s: Seq<u8>, p: int) -> int {
    s[p] as int + 256 * (s[p + 1] as int)
}

/// Unsigned little-endian value of the three bytes at `p`.
pub open spec fn u24_le(s: Seq<u8>, p: int) -> int {
    u16_le(s, p) + 65536 * (s[p + 2] as int)
}

/// Unsigned little-endian value of the four bytes at `p`.
pub open spec fn u32_le(s: Seq<u8>, p: int) -> int {
    u24_le(s, p) + 16777216 * (s[p + 3] as int)
}

/// Unsigned little-endian value of the eight bytes at `p`.
pub open spec fn u64_le(s: Seq<u8>, p: int) -> int {
    u32_le(s, p) + 4294967296 * u32_le(s, p + 4)
}

/// Unsigned little-endian value of the `width` bytes at `p`, for the widths
/// that sample words and header fields use.
pub open spec fn uint_le(s: Seq<u8>, p: int, width: int) -> int {
    if width == 1 {
        s[p] as int
    } else if width == 2 {
        u16_le(s, p)
    } else if width == 3 {
        u24_le(s, p)
    } else if width == 4 {
        u32_le(s, p)
    } else {
        u64_le(s, p)
    }
}

pub fn read_u16_le(s: &Vec<u8>, p: usize) -> (r: u16)
    requires
        p + 2 <= s@.len(),
    ensures
        r as int == u16_le(s@, p as int),
{
    let n = s.len();
    assert(p + 1 < n);
    s[p] as u16 + 256 * (s[p + 1] as u16)
}

pub fn read_u24_le(s: &Vec<u8>, p: usize) -> (r: u32)
    requires
        p + 3 <= s@.len(),
    ensures
        r as int == u24_le(s@, p as int),
{
    let n = s.len();
    assert(p + 2 < n);
    read_u16_le(s, p) as u32 + 65536 * (s[p + 2] as u32)
}

pub fn read_u32_le(s: &Vec<u8>, p: usize) -> (r: u32)
    requires
        p + 4 <= s@.len(),
    ensures
        r as int == u32_le(s@, p as int),
{
    let n = s.len();
    assert(p + 3 < n);
    read_u24_le(s, p) + 16777216 * (s[p + 3] as u32)
}

pub fn read_u64_le(s: &Vec<u8>, p: usize) -> (r: u64)
    requires
        p + 8 <= s@.len(),
    ensures
        r as int == u64_le(s@, p as int),
{
    let n = s.len();
    assert(p + 4 < n);
    let lo = read_u32_le(s, p) as u64;
    let hi = read_u32_le(s, p + 4) as u64;
    lo + 4294967296 * hi
}

} // verus!
