//! The typed raw-view layer: bounds-checked reads of fixed-width big-endian
//! fields out of an untrusted byte buffer.
//!
//! Every multi-byte field of the container format is stored big-endian. The
//! spec functions here give the mathematical value of such a field as a
//! function of the buffer's bytes; the executable readers return exactly that
//! value.

use vstd::prelude::*;

verus! {

broadcast use vstd::slice::group_slice_axioms;

/// Value of the big-endian 16-bit field whose first byte sits at `off`.
pub open spec fn be_u16(b: Seq<u8>, off: int) -> int {
    b[off] * 0x100 + b[off + 1]
}

/// Value of the big-endian 32-bit field whose first byte sits at `off`.
pub open spec fn be_u32(b: Seq<u8>, off: int) -> int {
    b[off] * 0x100_0000 + b[off + 1] * 0x1_0000 + b[off + 2] * 0x100 + b[off + 3]
}

/// Two's-complement value of the big-endian 32-bit field at `off`.
pub open spec fn be_i32(b: Seq<u8>, off: int) -> int {
    if be_u32(b, off) >= 0x8000_0000 {
        be_u32(b, off) - 0x1_0000_0000
    } else {
        be_u32(b, off)
    }
}

/// Read the byte at `off`.
pub fn read_u8(data: &[u8], off: usize) -> (r: u8)
    requires
        off < data.len(),
    ensures
        r == data@[off as int],
{
    *vstd::slice::slice_index_get(data, off)
}

/// Read the big-endian 16-bit field at `off`.
pub fn read_u16_be(data: &[u8], off: usize) -> (r: u16)
    requires
        off + 2 <= data.len(),
    ensures
        r == be_u16(data@, off as int),
{
    let b0 = *vstd::slice::slice_index_get(data, off);
    let b1 = *vstd::slice::slice_index_get(data, off + 1);
    (b0 as u16) * 0x100 + (b1 as u16)
}

/// Read the big-endian 32-bit field at `off`.
pub fn read_u32_be(data: &[u8], off: usize) -> (r: u32)
    requires
        off + 4 <= data.len(),
    ensures
        r == be_u32(data@, off as int),
{
    let b0 = *vstd::slice::slice_index_get(data, off);
    let b1 = *vstd::slice::slice_index_get(data, off + 1);
    let b2 = *vstd::slice::slice_index_get(data, off + 2);
    let b3 = *vstd::slice::slice_index_get(data, off + 3);
    (b0 as u32) * 0x100_0000 + (b1 as u32) * 0x1_0000 + (b2 as u32) * 0x100 + (b3 as u32)
}

/// Read the big-endian 32-bit field at `off` as a signed value.
pub fn read_i32_be(data: &[u8], off: usize) -> (r: i32)
    requires
        off + 4 <= data.len(),
    ensures
        r == be_i32(data@, off as int),
{
    let u = read_u32_be(data, off);
    if u >= 0x8000_0000 {
        let neg: i64 = (u as i64) - 0x1_0000_0000;
        neg as i32
    } else {
        u as i32
    }
}

/// Decide whether the `size` bytes starting at `off` lie within a buffer of
/// length `len`, without any risk of overflow in the test itself.
pub fn range_in_bounds(len: usize, off: u32, size: u32) -> (r: bool)
    ensures
        r == (off + size <= len),
{
    (off as u64) + (size as u64) <= (len as u64)
}

} // verus!
