//! Little-endian integers inside byte buffers.

use byteorder::{ByteOrder, LittleEndian};
use vstd::prelude::*;

verus! {

/// The unsigned 16-bit value stored at `at`, least significant byte first.
pub open spec fn le_u16_at(s: Seq<u8>, at: int) -> int {
    s[at] as int + 0x100 * (s[at + 1] as int)
}

/// The unsigned 32-bit value stored at `at`, least significant byte first.
pub open spec fn le_u32_at(s: Seq<u8>, at: int) -> int {
    le_u16_at(s, at) + 0x1_0000 * le_u16_at(s, at + 2)
}

/// The unsigned 64-bit value stored at `at`, least significant byte first.
pub open spec fn le_u64_at(s: Seq<u8>, at: int) -> int {
    le_u32_at(s, at) + 0x1_0000_0000 * le_u32_at(s, at + 4)
}

/// The two's-complement reading of the 16-bit value stored at `at`.
pub open spec fn le_i16_at(s: Seq<u8>, at: int) -> int {
    if le_u16_at(s, at) >= 0x8000 {
        le_u16_at(s, at) - 0x1_0000
    } else {
        le_u16_at(s, at)
    }
}

/// The two's-complement reading of the 32-bit value stored at `at`.
pub open spec fn le_i32_at(s: Seq<u8>, at: int) -> int {
    if le_u32_at(s, at) >= 0x8000_0000 {
        le_u32_at(s, at) - 0x1_0000_0000
    } else {
        le_u32_at(s, at)
    }
}

/// Whether `width` bytes starting at `at` lie inside a buffer of `len` bytes.
pub open spec fn fits(len: nat, at: int, width: int) -> bool {
    0 <= at && 0 <= width && at + width <= len
}

/// `byteorder::LittleEndian::read_u16`: the first two bytes of `buf` read as a
/// little-endian `u16`. The outside function panics on a shorter buffer.
#[verifier::external_body]
fn le_read_u16(buf: &[u8]) -> (r: u16)
    requires
        buf@.len() >= 2,
    ensures
        r as int == le_u16_at(buf@, 0),
{
    LittleEndian::read_u16(buf)
}

/// `byteorder::LittleEndian::read_i16`: the first two bytes of `buf` read as a
/// little-endian two's-complement `i16`. The outside function panics on a
/// shorter buffer.
#[verifier::external_body]
fn le_read_i16(buf: &[u8]) -> (r: i16)
    requires
        buf@.len() >= 2,
    ensures
        r as int == le_i16_at(buf@, 0),
{
    LittleEndian::read_i16(buf)
}

/// `byteorder::LittleEndian::read_u32`: the first four bytes of `buf` read as
/// a little-endian `u32`. The outside function panics on a shorter buffer.
#[verifier::external_body]
fn le_read_u32(buf: &[u8]) -> (r: u32)
    requires
        buf@.len() >= 4,
    ensures
        r as int == le_u32_at(buf@, 0),
{
    LittleEndian::read_u32(buf)
}

/// `byteorder::LittleEndian::read_i32`: the first four bytes of `buf` read as
/// a little-endian two's-complement `i32`. The outside function panics on a
/// shorter buffer.
#[verifier::external_body]
fn le_read_i32(buf: &[u8]) -> (r: i32)
    requires
        buf@.len() >= 4,
    ensures
        r as int == le_i32_at(buf@, 0),
{
    LittleEndian::read_i32(buf)
}

/// `byteorder::LittleEndian::read_u64`: the first eight bytes of `buf` read as
/// a little-endian `u64`. The outside function panics on a shorter buffer.
#[verifier::external_body]
fn le_read_u64(buf: &[u8]) -> (r: u64)
    requires
        buf@.len() >= 8,
    ensures
        r as int == le_u64_at(buf@, 0),
{
    LittleEndian::read_u64(buf)
}

/// The `u16` stored at `at`.
pub fn u16_at(data: &[u8], at: usize) -> (r: u16)
    requires
        fits(data@.len(), at as int, 2),
    ensures
        r as int == le_u16_at(data@, at as int),
{
    assert(data@.len() == data.len());
    le_read_u16(&data[at..at + 2])
}

/// The two's-complement `i16` stored at `at`.
pub fn i16_at(data: &[u8], at: usize) -> (r: i16)
    requires
        fits(data@.len(), at as int, 2),
    ensures
        r as int == le_i16_at(data@, at as int),
{
    assert(data@.len() == data.len());
    le_read_i16(&data[at..at + 2])
}

/// The `u32` stored at `at`.
pub fn u32_at(data: &[u8], at: usize) -> (r: u32)
    requires
        fits(data@.len(), at as int, 4),
    ensures
        r as int == le_u32_at(data@, at as int),
{
    assert(data@.len() == data.len());
    le_read_u32(&data[at..at + 4])
}

/// The two's-complement `i32` stored at `at`.
pub fn i32_at(data: &[u8], at: usize) -> (r: i32)
    requires
        fits(data@.len(), at as int, 4),
    ensures
        r as int == le_i32_at(data@, at as int),
{
    assert(data@.len() == data.len());
    le_read_i32(&data[at..at + 4])
}

/// The `u64` stored at `at`.
pub fn u64_at(data: &[u8], at: usize) -> (r: u64)
    requires
        fits(data@.len(), at as int, 8),
    ensures
        r as int == le_u64_at(data@, at as int),
{
    assert(data@.len() == data.len());
    le_read_u64(&data[at..at + 8])
}

/// Whether `width` bytes starting at `at` lie inside `data`.
pub fn has_room(data: &[u8], at: usize, width: usize) -> (r: bool)
    ensures
        r == fits(data@.len(), at as int, width as int),
{
    width <= data.len() && at <= data.len() - width
}

/// Reads the `u32` stored at `at`, or nothing when it does not fit.
pub fn read_u32(data: &[u8], at: usize) -> (r: Option<u32>)
    ensures
        r is Some <==> fits(data@.len(), at as int, 4),
        r is Some ==> r.unwrap() as int == le_u32_at(data@, at as int),
{
    if has_room(data, at, 4) {
        Some(u32_at(data, at))
    } else {
        None
    }
}

/// Reads the two's-complement `i32` stored at `at`, or nothing when it does
/// not fit.
pub fn read_i32(data: &[u8], at: usize) -> (r: Option<i32>)
    ensures
        r is Some <==> fits(data@.len(), at as int, 4),
        r is Some ==> r.unwrap() as int == le_i32_at(data@, at as int),
{
    if has_room(data, at, 4) {
        Some(i32_at(data, at))
    } else {
        None
    }
}

/// Reads the `u64` stored at `at`, or nothing when it does not fit.
pub fn read_u64(data: &[u8], at: usize) -> (r: Option<u64>)
    ensures
        r is Some <==> fits(data@.len(), at as int, 8),
        r is Some ==> r.unwrap() as int == le_u64_at(data@, at as int),
{
    if has_room(data, at, 8) {
        Some(u64_at(data, at))
    } else {
        None
    }
}

} // verus!
