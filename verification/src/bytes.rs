//! Big-endian integer readers over a byte buffer.
//!
//! The TZif layout stores all multi-byte integers big-endian. These readers
//! are verified against direct arithmetic definitions of the encoding.

use vstd::prelude::*;

verus! {

/// The unsigned 32-bit value stored big-endian at position `p` of `b`.
pub open spec fn be_u32_at(b: Seq<u8>, p: int) -> int {
    b[p] * 0x1000000 + b[p + 1] * 0x10000 + b[p + 2] * 0x100 + b[p + 3]
}

/// The unsigned 64-bit value stored big-endian at position `p` of `b`.
pub open spec fn be_u64_at(b: Seq<u8>, p: int) -> int {
    be_u32_at(b, p) * 0x100000000 + be_u32_at(b, p + 4)
}

/// Two's-complement reading of an unsigned 32-bit value.
pub open spec fn as_signed_32(u: int) -> int {
    if u < 0x80000000 {
        u
    } else {
        u - 0x100000000
    }
}

/// Two's-complement reading of an unsigned 64-bit value.
pub open spec fn as_signed_64(u: int) -> int {
    if u < 0x8000000000000000 {
        u
    } else {
        u - 0x10000000000000000
    }
}

/// The signed 32-bit value stored big-endian at position `p` of `b`.
pub open spec fn be_i32_at(b: Seq<u8>, p: int) -> int {
    as_signed_32(be_u32_at(b, p))
}

/// The signed 64-bit value stored big-endian at position `p` of `b`.
pub open spec fn be_i64_at(b: Seq<u8>, p: int) -> int {
    as_signed_64(be_u64_at(b, p))
}

/// Reads the big-endian unsigned 32-bit integer at position `p` of `buf`.
pub fn read_be_u32(buf: &Vec<u8>, p: usize) -> (r: u32)
    requires
        p + 4 <= buf.len(),
    ensures
        r == be_u32_at(buf@, p as int),
{
    (buf[p] as u32) * 0x1000000 + (buf[p + 1] as u32) * 0x10000 + (buf[p + 2] as u32) * 0x100
        + (buf[p + 3] as u32)
}

/// Reads the big-endian signed 32-bit integer at position `p` of `buf`.
pub fn read_be_i32(buf: &Vec<u8>, p: usize) -> (r: i32)
    requires
        p + 4 <= buf.len(),
    ensures
        r == be_i32_at(buf@, p as int),
{
    let u = read_be_u32(buf, p);
    if u >= 0x80000000 {
        -((u32::MAX - u) as i32) - 1
    } else {
        u as i32
    }
}

/// Reads the big-endian signed 64-bit integer at position `p` of `buf`.
pub fn read_be_i64(buf: &Vec<u8>, p: usize) -> (r: i64)
    requires
        p + 8 <= buf.len(),
    ensures
        r == be_i64_at(buf@, p as int),
{
    let hi = read_be_u32(buf, p);
    let lo = read_be_u32(buf, p + 4);
    let u = (hi as u64) * 0x100000000 + (lo as u64);
    if u >= 0x8000000000000000 {
        -((u64::MAX - u) as i64) - 1
    } else {
        u as i64
    }
}

} // verus!
