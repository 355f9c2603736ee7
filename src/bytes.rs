//! Little-endian integer reads out of a byte buffer.
use vstd::prelude::*;

verus! {

/// The 16-bit little-endian value stored at `off`.
pub open spec fn le16_at(b: Seq<u8>, off: int) -> int {
    b[off] as int + 256 * b[off + 1] as int
}

/// The 32-bit little-endian value stored at `off`.
pub open spec fn le32_at(b: Seq<u8>, off: int) -> int {
    le16_at(b, off) + 65536 * le16_at(b, off + 2)
}

/// The 64-bit little-endian value stored at `off`.
pub open spec fn le64_at(b: Seq<u8>, off: int) -> int {
    le32_at(b, off) + 4294967296 * le32_at(b, off + 4)
}

pub fn read_u16(buf: &[u8], off: usize) -> (r: u16)
    requires
        off + 2 <= buf.len(),
    ensures
        r as int == le16_at(buf@, off as int),
{
    buf[off] as u16 + 256 * (buf[off + 1] as u16)
}

pub fn read_u32(buf: &[u8], off: usize) -> (r: u32)
    requires
        off + 4 <= buf.len(),
    ensures
        r as int == le32_at(buf@, off as int),
{
    let lo = read_u16(buf, off);
    let hi = read_u16(buf, off + 2);
    lo as u32 + 65536 * (hi as u32)
}

pub fn read_u64(buf: &[u8], off: usize) -> (r: u64)
    requires
        off + 8 <= buf.len(),
    ensures
        r as int == le64_at(buf@, off as int),
{
    let lo = read_u32(buf, off);
    let hi = read_u32(buf, off + 4);
    lo as u64 + 4294967296 * (hi as u64)
}

} // verus!
