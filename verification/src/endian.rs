//! Fixed-width integers in either byte order.
//!
//! The conversions themselves are `byteorder`'s.

use byteorder::{BigEndian, ByteOrder, LittleEndian, NativeEndian};
use vstd::prelude::*;

verus! {

/// The order of the bytes of a number.
#[derive(Debug, Clone, Copy, PartialEq, Eq, Structural)]
pub enum Endian {
    /// Least significant byte first.
    Little,
    /// Most significant byte first.
    Big,
}

/// The bytes as a number, least significant byte first.
pub open spec fn le_value(bytes: Seq<u8>) -> int
    decreases bytes.len(),
{
    if bytes.len() == 0 {
        0
    } else {
        bytes[0] + 256 * le_value(bytes.drop_first())
    }
}

/// The bytes as a number, most significant byte first.
pub open spec fn be_value(bytes: Seq<u8>) -> int
    decreases bytes.len(),
{
    if bytes.len() == 0 {
        0
    } else {
        256 * be_value(bytes.drop_last()) + bytes.last()
    }
}

/// A number below 2^32 as a signed integer of 32 bits in two's complement.
pub open spec fn signed32(n: int) -> int {
    if n < 0x8000_0000 {
        n
    } else {
        n - 0x1_0000_0000
    }
}

/// Whether each of the bytes is 255.
pub open spec fn all_ones(bytes: Seq<u8>) -> bool {
    forall|i: int| 0 <= i < bytes.len() ==> bytes[i] == 255
}

/// Calls `byteorder::LittleEndian::read_u16`, which panics on a buffer of
/// fewer than two bytes and reads the first two.
///
/// Not proved: that the result is the little-endian value of these two bytes.
#[verifier::external_body]
fn le_read_u16(buf: &[u8]) -> (r: u16)
    requires
        buf@.len() >= 2,
    ensures
        r == le_value(buf@.subrange(0, 2)),
{
    LittleEndian::read_u16(buf)
}

/// Calls `byteorder::BigEndian::read_u16`, which panics on a buffer of fewer
/// than two bytes and reads the first two.
///
/// Not proved: that the result is the big-endian value of these two bytes.
#[verifier::external_body]
fn be_read_u16(buf: &[u8]) -> (r: u16)
    requires
        buf@.len() >= 2,
    ensures
        r == be_value(buf@.subrange(0, 2)),
{
    BigEndian::read_u16(buf)
}

/// Calls `byteorder::LittleEndian::read_u32`, which panics on a buffer of
/// fewer than four bytes and reads the first four.
///
/// Not proved: that the result is the little-endian value of these four bytes.
#[verifier::external_body]
fn le_read_u32(buf: &[u8]) -> (r: u32)
    requires
        buf@.len() >= 4,
    ensures
        r == le_value(buf@.subrange(0, 4)),
{
    LittleEndian::read_u32(buf)
}

/// Calls `byteorder::BigEndian::read_u32`, which panics on a buffer of fewer
/// than four bytes and reads the first four.
///
/// Not proved: that the result is the big-endian value of these four bytes.
#[verifier::external_body]
fn be_read_u32(buf: &[u8]) -> (r: u32)
    requires
        buf@.len() >= 4,
    ensures
        r == be_value(buf@.subrange(0, 4)),
{
    BigEndian::read_u32(buf)
}

/// Calls `byteorder::LittleEndian::read_i32`, which panics on a buffer of
/// fewer than four bytes and reads the first four.
///
/// Not proved: that the result is the little-endian value of these four bytes,
/// taken as a signed integer in two's complement.
#[verifier::external_body]
fn le_read_i32(buf: &[u8]) -> (r: i32)
    requires
        buf@.len() >= 4,
    ensures
        r == signed32(le_value(buf@.subrange(0, 4))),
{
    LittleEndian::read_i32(buf)
}

/// Calls `byteorder::BigEndian::read_i32`, which panics on a buffer of fewer
/// than four bytes and reads the first four.
///
/// Not proved: that the result is the big-endian value of these four bytes,
/// taken as a signed integer in two's complement.
#[verifier::external_body]
fn be_read_i32(buf: &[u8]) -> (r: i32)
    requires
        buf@.len() >= 4,
    ensures
        r == signed32(be_value(buf@.subrange(0, 4))),
{
    BigEndian::read_i32(buf)
}

/// Calls `byteorder::LittleEndian::read_u64`, which panics on a buffer of
/// fewer than eight bytes and reads the first eight.
///
/// Not proved: that the result is the little-endian value of these eight
/// bytes.
#[verifier::external_body]
fn le_read_u64(buf: &[u8]) -> (r: u64)
    requires
        buf@.len() >= 8,
    ensures
        r == le_value(buf@.subrange(0, 8)),
{
    LittleEndian::read_u64(buf)
}

/// Calls `byteorder::BigEndian::read_u64`, which panics on a buffer of fewer
/// than eight bytes and reads the first eight.
///
/// Not proved: that the result is the big-endian value of these eight bytes.
#[verifier::external_body]
fn be_read_u64(buf: &[u8]) -> (r: u64)
    requires
        buf@.len() >= 8,
    ensures
        r == be_value(buf@.subrange(0, 8)),
{
    BigEndian::read_u64(buf)
}

/// Calls `byteorder::NativeEndian::read_u16`, which panics on a buffer of
/// fewer than two bytes and reads the first two. `NativeEndian` is another
/// name of `LittleEndian` or of `BigEndian`; the target of the build decides
/// of which.
///
/// Not proved: that the result is the little-endian or the big-endian value
/// of these two bytes.
#[verifier::external_body]
fn native_read_u16(buf: &[u8]) -> (r: u16)
    requires
        buf@.len() >= 2,
    ensures
        r == le_value(buf@.subrange(0, 2)) || r == be_value(buf@.subrange(0, 2)),
{
    NativeEndian::read_u16(buf)
}

impl Endian {
    /// The bytes as a number in this order.
    pub open spec fn value(self, bytes: Seq<u8>) -> int {
        match self {
            Endian::Little => le_value(bytes),
            Endian::Big => be_value(bytes),
        }
    }

    /// The byte order in which the bytes 1 and 0 are the number `probe`:
    /// `Little` if that number is one, and else `Big`.
    pub fn from_probe(probe: u16) -> (order: Endian)
        ensures
            order == if probe == 1 {
                Endian::Little
            } else {
                Endian::Big
            },
    {
        if probe == 1 {
            Endian::Little
        } else {
            Endian::Big
        }
    }

    /// The byte order of the target that the crate is built for: the one in
    /// which `byteorder::NativeEndian` reads the bytes 1 and 0.
    pub fn native() -> Endian {
        let mut probe: Vec<u8> = Vec::new();
        probe.push(1);
        probe.push(0);
        Endian::from_probe(native_read_u16(probe.as_slice()))
    }

    /// The first two bytes of `buf` as an unsigned integer.
    pub fn read_u16(self, buf: &[u8]) -> (r: u16)
        requires
            buf@.len() >= 2,
        ensures
            r == self.value(buf@.subrange(0, 2)),
    {
        match self {
            Endian::Little => le_read_u16(buf),
            Endian::Big => be_read_u16(buf),
        }
    }

    /// The first four bytes of `buf` as an unsigned integer.
    pub fn read_u32(self, buf: &[u8]) -> (r: u32)
        requires
            buf@.len() >= 4,
        ensures
            r == self.value(buf@.subrange(0, 4)),
    {
        match self {
            Endian::Little => le_read_u32(buf),
            Endian::Big => be_read_u32(buf),
        }
    }

    /// The first four bytes of `buf` as a signed integer.
    pub fn read_i32(self, buf: &[u8]) -> (r: i32)
        requires
            buf@.len() >= 4,
        ensures
            r == signed32(self.value(buf@.subrange(0, 4))),
    {
        match self {
            Endian::Little => le_read_i32(buf),
            Endian::Big => be_read_i32(buf),
        }
    }

    /// The first eight bytes of `buf` as an unsigned integer.
    pub fn read_u64(self, buf: &[u8]) -> (r: u64)
        requires
            buf@.len() >= 8,
        ensures
            r == self.value(buf@.subrange(0, 8)),
    {
        match self {
            Endian::Little => le_read_u64(buf),
            Endian::Big => be_read_u64(buf),
        }
    }
}

/// In either byte order a number of two bytes is below 2^16, and zero if and
/// only if both bytes are.
pub proof fn lemma_pair_zero(order: Endian, bytes: Seq<u8>)
    requires
        bytes.len() == 2,
    ensures
        0 <= order.value(bytes) < 0x1_0000,
        order.value(bytes) == 0 <==> bytes[0] == 0 && bytes[1] == 0,
{
    reveal_with_fuel(le_value, 3);
    reveal_with_fuel(be_value, 3);
}

/// In either byte order, four bytes that are all 255 spell the largest
/// number of four bytes.
pub proof fn lemma_value_ones(order: Endian, bytes: Seq<u8>)
    requires
        bytes.len() == 4,
        all_ones(bytes),
    ensures
        order.value(bytes) == 0xffff_ffff,
{
    reveal_with_fuel(le_value, 5);
    reveal_with_fuel(be_value, 5);
}

} // verus!
