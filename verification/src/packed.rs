//! Decoding of little-endian fields at given byte offsets of a record.
//!
//! The records of a container are packed: a field may start at any byte.
//! Every field is therefore read byte by byte, and no record is ever
//! reinterpreted in place.
use vstd::prelude::*;
use vstd::slice::slice_subrange;
use crate::errors::{CineError, CineResult};

verus! {

/// The unsigned 16-bit value stored, low byte first, at `at`.
pub open spec fn le_u16(bytes: Seq<u8>, at: int) -> u16 {
    (bytes[at] as int + 0x100 * (bytes[at + 1] as int)) as u16
}

/// The unsigned 32-bit value stored, low byte first, at `at`.
pub open spec fn le_u32(bytes: Seq<u8>, at: int) -> u32 {
    (bytes[at] as int + 0x100 * (bytes[at + 1] as int) + 0x1_0000 * (bytes[at + 2] as int)
        + 0x100_0000 * (bytes[at + 3] as int)) as u32
}

/// The unsigned 64-bit value stored, low byte first, at `at`.
pub open spec fn le_u64(bytes: Seq<u8>, at: int) -> u64 {
    (le_u32(bytes, at) as int + 0x1_0000_0000 * (le_u32(bytes, at + 4) as int)) as u64
}

/// The signed 64-bit value stored in two's complement, low byte first, at
/// `at`.
pub open spec fn le_i64(bytes: Seq<u8>, at: int) -> i64 {
    let unsigned = le_u64(bytes, at) as int;
    if unsigned < 0x8000_0000_0000_0000 {
        unsigned as i64
    } else {
        (unsigned - 0x1_0000_0000_0000_0000) as i64
    }
}

/// The `size` bytes of `bytes` that start at `offset`, where `bytes` holds
/// them all.
pub open spec fn slice_at(bytes: Seq<u8>, offset: int, size: int) -> Option<Seq<u8>> {
    if 0 <= offset && 0 <= size && offset + size <= bytes.len() {
        Some(bytes.subrange(offset, offset + size))
    } else {
        None
    }
}

/// The unsigned 16-bit field at `at`.
pub(crate) fn read_u16_le(bytes: &[u8], at: usize) -> (v: u16)
    requires
        at + 2 <= bytes@.len(),
    ensures
        v == le_u16(bytes@, at as int),
{
    bytes[at] as u16 + 0x100 * (bytes[at + 1] as u16)
}

/// The unsigned 32-bit field at `at`.
pub(crate) fn read_u32_le(bytes: &[u8], at: usize) -> (v: u32)
    requires
        at + 4 <= bytes@.len(),
    ensures
        v == le_u32(bytes@, at as int),
{
    bytes[at] as u32 + 0x100 * (bytes[at + 1] as u32) + 0x1_0000 * (bytes[at + 2] as u32)
        + 0x100_0000 * (bytes[at + 3] as u32)
}

/// The signed 64-bit field at `at`.
pub(crate) fn read_i64_le(bytes: &[u8], at: usize) -> (v: i64)
    requires
        at + 8 <= bytes@.len(),
    ensures
        v == le_i64(bytes@, at as int),
{
    assert(bytes.len() == bytes@.len());
    let low: u64 = read_u32_le(bytes, at) as u64;
    let high: u64 = read_u32_le(bytes, at + 4) as u64;
    let unsigned: u64 = low + 0x1_0000_0000 * high;
    if unsigned < 0x8000_0000_0000_0000 {
        unsigned as i64
    } else {
        let below: u64 = u64::MAX - unsigned;
        -(below as i64) - 1
    }
}

/// The `size` bytes of `bytes` that start at `offset`. Fails where `bytes`
/// ends before the last of them.
pub fn read_bytes(bytes: &[u8], offset: u64, size: usize) -> (r: CineResult<&[u8]>)
    ensures
        match slice_at(bytes@, offset as int, size as int) {
            Some(part) => r is Ok && r->Ok_0@ == part,
            None => r is Err && r->Err_0 is IoError,
        },
{
    let len: usize = bytes.len();
    if size > len || offset > (len - size) as u64 {
        return Err(CineError::io("unexpected end of file"));
    }
    let start: usize = offset as usize;
    Ok(slice_subrange(bytes, start, start + size))
}

} // verus!
