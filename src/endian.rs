//! Little-endian integers read from byte sequences.

use byteorder::{ByteOrder, LittleEndian};
use vstd::prelude::*;

verus! {

/// The unsigned integer whose little-endian encoding is `s`:
/// the first byte is the least significant one.
pub open spec fn le_value(s: Seq<u8>) -> nat
    decreases s.len(),
{
    if s.len() == 0 {
        0
    } else {
        s[0] as nat + 256 * le_value(s.drop_first())
    }
}

/// The little-endian value of the `width` bytes of `s` that start at `off`.
pub open spec fn le_at(s: Seq<u8>, off: int, width: int) -> nat {
    le_value(s.subrange(off, off + width))
}

/// Relies on byteorder's `LittleEndian::read_u16`: the first two bytes of
/// the slice, least significant first. It panics on a shorter slice.
#[verifier::external_body]
fn read_u16_raw(buf: &[u8]) -> (r: u16)
    requires
        buf@.len() >= 2,
    ensures
        r as nat == le_at(buf@, 0, 2),
{
    LittleEndian::read_u16(buf)
}

/// Relies on byteorder's `LittleEndian::read_u32`: the first four bytes of
/// the slice, least significant first. It panics on a shorter slice.
#[verifier::external_body]
fn read_u32_raw(buf: &[u8]) -> (r: u32)
    requires
        buf@.len() >= 4,
    ensures
        r as nat == le_at(buf@, 0, 4),
{
    LittleEndian::read_u32(buf)
}

/// Relies on byteorder's `LittleEndian::read_u64`: the first eight bytes of
/// the slice, least significant first. It panics on a shorter slice.
#[verifier::external_body]
fn read_u64_raw(buf: &[u8]) -> (r: u64)
    requires
        buf@.len() >= 8,
    ensures
        r as nat == le_at(buf@, 0, 8),
{
    LittleEndian::read_u64(buf)
}

/// Reads the 16-bit little-endian integer at `off`.
pub fn read_u16_at(buf: &[u8], off: usize) -> (r: u16)
    requires
        off + 2 <= buf@.len(),
    ensures
        r as nat == le_at(buf@, off as int, 2),
{
    let len = buf.len();
    assert(off + 2 <= len);
    let part = vstd::slice::slice_subrange(buf, off, off + 2);
    assert(part@.subrange(0, 2) =~= buf@.subrange(off as int, off + 2));
    read_u16_raw(part)
}

/// Reads the 32-bit little-endian integer at `off`.
pub fn read_u32_at(buf: &[u8], off: usize) -> (r: u32)
    requires
        off + 4 <= buf@.len(),
    ensures
        r as nat == le_at(buf@, off as int, 4),
{
    let len = buf.len();
    assert(off + 4 <= len);
    let part = vstd::slice::slice_subrange(buf, off, off + 4);
    assert(part@.subrange(0, 4) =~= buf@.subrange(off as int, off + 4));
    read_u32_raw(part)
}

/// Reads the 64-bit little-endian integer at `off`.
pub fn read_u64_at(buf: &[u8], off: usize) -> (r: u64)
    requires
        off + 8 <= buf@.len(),
    ensures
        r as nat == le_at(buf@, off as int, 8),
{
    let len = buf.len();
    assert(off + 8 <= len);
    let part = vstd::slice::slice_subrange(buf, off, off + 8);
    assert(part@.subrange(0, 8) =~= buf@.subrange(off as int, off + 8));
    read_u64_raw(part)
}

} // verus!
