//! Bounds-checked reads of fixed-size and counted fields from a byte buffer.
//!
//! The kernel writes its records in the machine's byte order, which on every
//! platform that offers the bulk call is little-endian.

use vstd::prelude::*;

verus! {

/// The unsigned 32-bit value that the four bytes of `s` from `at` spell,
/// least significant byte first.
pub open spec fn spec_u32_le(s: Seq<u8>, at: int) -> u32 {
    (s[at] + s[at + 1] * 0x100 + s[at + 2] * 0x1_0000 + s[at + 3] * 0x100_0000) as u32
}

/// The signed 32-bit value that the four bytes of `s` from `at` spell in two's
/// complement, least significant byte first.
pub open spec fn spec_i32_le(s: Seq<u8>, at: int) -> int {
    if spec_u32_le(s, at) >= 0x8000_0000 {
        spec_u32_le(s, at) - 0x1_0000_0000
    } else {
        spec_u32_le(s, at) as int
    }
}

/// The unsigned 64-bit value that the eight bytes of `s` from `at` spell,
/// least significant byte first.
pub open spec fn spec_u64_le(s: Seq<u8>, at: int) -> u64 {
    (spec_u32_le(s, at) + spec_u32_le(s, at + 4) * 0x1_0000_0000) as u64
}

/// Whether the `width` bytes from `at` lie inside a buffer of `len` bytes.
pub open spec fn field_fits(len: int, at: int, width: int) -> bool {
    0 <= at && 0 <= width && at + width <= len
}

/// Whether `width` bytes can be read from `buf` starting at `at`.
pub fn has_room(buf: &[u8], at: usize, width: usize) -> (fits: bool)
    ensures
        fits == field_fits(buf@.len() as int, at as int, width as int),
        buf@.len() <= usize::MAX,
{
    width <= buf.len() && at <= buf.len() - width
}

/// The little-endian `u32` whose four bytes start at `at`, all inside `buf`.
pub(crate) fn u32_le_at(buf: &[u8], at: usize) -> (value: u32)
    requires
        field_fits(buf@.len() as int, at as int, 4),
    ensures
        value == spec_u32_le(buf@, at as int),
{
    let b0: u32 = buf[at] as u32;
    let b1: u32 = buf[at + 1] as u32;
    let b2: u32 = buf[at + 2] as u32;
    let b3: u32 = buf[at + 3] as u32;
    b0 + b1 * 0x100 + b2 * 0x1_0000 + b3 * 0x100_0000
}

/// Reads a little-endian `u32` at `at`, or nothing where its four bytes do not
/// all lie inside `buf`.
pub fn read_u32_le(buf: &[u8], at: usize) -> (value: Option<u32>)
    ensures
        value == (if field_fits(buf@.len() as int, at as int, 4) {
            Some(spec_u32_le(buf@, at as int))
        } else {
            None
        }),
{
    if has_room(buf, at, 4) {
        Some(u32_le_at(buf, at))
    } else {
        None
    }
}

/// Reads a little-endian `u64` at `at`, or nothing where its eight bytes do
/// not all lie inside `buf`.
pub fn read_u64_le(buf: &[u8], at: usize) -> (value: Option<u64>)
    ensures
        value == (if field_fits(buf@.len() as int, at as int, 8) {
            Some(spec_u64_le(buf@, at as int))
        } else {
            None
        }),
{
    if has_room(buf, at, 8) {
        let low = u32_le_at(buf, at);
        let high = u32_le_at(buf, at + 4);
        Some(low as u64 + high as u64 * 0x1_0000_0000)
    } else {
        None
    }
}

/// Borrows the `len` bytes from `start`, or nothing where they do not all lie
/// inside `buf`.
pub fn read_bytes<'a>(buf: &'a [u8], start: usize, len: usize) -> (bytes: Option<&'a [u8]>)
    ensures
        match bytes {
            Some(b) => field_fits(buf@.len() as int, start as int, len as int) && b@
                == buf@.subrange(start as int, start + len),
            None => !field_fits(buf@.len() as int, start as int, len as int),
        },
{
    if has_room(buf, start, len) {
        Some(vstd::slice::slice_subrange(buf, start, start + len))
    } else {
        None
    }
}

} // verus!
