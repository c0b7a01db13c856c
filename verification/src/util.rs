//! A read position in a section, and the steps that move it.

use crate::endian::Endian;
use crate::errors::SMParserError;
use crate::format::{align8, i32_at, u16_at, u32_at, u64_at};
use crate::section::{find_section, stackmap_section, STACKMAP_SECTION_NAME};
use vstd::prelude::*;
use vstd::slice::slice_subrange;

verus! {

/// A position in the bytes of a section, and the byte order in which the
/// fields of the section are read.
///
/// The position may lie behind the last byte: a skip can take it there, and
/// the next read then fails.
#[derive(Clone, Copy)]
pub struct ByteCursor<'a> {
    data: &'a [u8],
    pos: u64,
    order: Endian,
}

impl<'a> ByteCursor<'a> {
    /// The bytes that the cursor reads from.
    pub closed spec fn bytes(&self) -> Seq<u8> {
        self.data@
    }

    /// The position of the cursor.
    pub closed spec fn spec_position(&self) -> u64 {
        self.pos
    }

    /// The byte order in which the cursor reads.
    pub closed spec fn spec_order(&self) -> Endian {
        self.order
    }

    /// Whether the next `n` bytes lie within the section.
    pub open spec fn has(&self, n: int) -> bool {
        self.position() + n <= self.bytes().len()
    }

    /// Whether `later` is this cursor but for its position.
    pub open spec fn moved_to(&self, later: Self) -> bool {
        later.bytes() == self.bytes() && later.order() == self.order()
    }

    /// A section is no longer than a position can say.
    pub proof fn lemma_len_fits(&self)
        ensures
            self.bytes().len() <= usize::MAX <= u64::MAX,
    {
        assert(self.data@.len() == self.data.len());
    }

    /// A cursor on `data` at position `pos` that reads in the byte order
    /// `order`.
    pub fn new(data: &'a [u8], pos: u64, order: Endian) -> (c: Self)
        ensures
            c.bytes() == data@,
            c.position() == pos,
            c.order() == order,
    {
        ByteCursor { data, pos, order }
    }

    /// The position of the cursor.
    #[verifier::when_used_as_spec(spec_position)]
    pub fn position(&self) -> (p: u64)
        ensures
            p == self.position(),
    {
        self.pos
    }

    /// The byte order in which the cursor reads.
    #[verifier::when_used_as_spec(spec_order)]
    pub fn order(&self) -> (order: Endian)
        ensures
            order == self.order(),
    {
        self.order
    }

    /// The next `n` bytes, if they lie within the section.
    fn take(&mut self, n: usize) -> (r: Option<&'a [u8]>)
        requires
            n <= 8,
        ensures
            old(self).moved_to(*final(self)),
            match r {
                Some(out) => old(self).has(n as int) && out@ == old(self).bytes().subrange(
                    old(self).position() as int,
                    old(self).position() + n,
                ) && final(self).position() == old(self).position() + n,
                None => !old(self).has(n as int) && final(self).position() == old(self).position(),
            },
    {
        let len = self.data.len();
        if self.pos > len as u64 {
            return None;
        }
        let start = self.pos as usize;
        if len - start < n {
            return None;
        }
        let out = slice_subrange(self.data, start, start + n);
        self.pos = self.pos + n as u64;
        Some(out)
    }

    /// Reads one byte.
    pub fn read_u8(&mut self) -> (r: Result<u8, SMParserError>)
        ensures
            old(self).moved_to(*final(self)),
            old(self).has(1) ==> r == Ok::<u8, SMParserError>(
                old(self).bytes()[old(self).position() as int],
            ) && final(self).position() == old(self).position() + 1,
            !old(self).has(1) ==> r == Err::<u8, SMParserError>(SMParserError::Truncated)
                && final(self).position() == old(self).position(),
    {
        match self.take(1) {
            Some(buf) => Ok(buf[0]),
            None => Err(SMParserError::Truncated),
        }
    }

    /// Reads an unsigned integer of two bytes.
    pub fn read_u16(&mut self) -> (r: Result<u16, SMParserError>)
        ensures
            old(self).moved_to(*final(self)),
            old(self).has(2) ==> r == Ok::<u16, SMParserError>(
                u16_at(old(self).order(), old(self).bytes(), old(self).position() as int),
            ) && final(self).position() == old(self).position() + 2,
            !old(self).has(2) ==> r == Err::<u16, SMParserError>(SMParserError::Truncated)
                && final(self).position() == old(self).position(),
    {
        match self.take(2) {
            Some(buf) => {
                assert(buf@.subrange(0, 2) =~= buf@);
                Ok(self.order.read_u16(buf))
            },
            None => Err(SMParserError::Truncated),
        }
    }

    /// Reads an unsigned integer of four bytes.
    pub fn read_u32(&mut self) -> (r: Result<u32, SMParserError>)
        ensures
            old(self).moved_to(*final(self)),
            old(self).has(4) ==> r == Ok::<u32, SMParserError>(
                u32_at(old(self).order(), old(self).bytes(), old(self).position() as int),
            ) && final(self).position() == old(self).position() + 4,
            !old(self).has(4) ==> r == Err::<u32, SMParserError>(SMParserError::Truncated)
                && final(self).position() == old(self).position(),
    {
        match self.take(4) {
            Some(buf) => {
                assert(buf@.subrange(0, 4) =~= buf@);
                Ok(self.order.read_u32(buf))
            },
            None => Err(SMParserError::Truncated),
        }
    }

    /// Reads a signed integer of four bytes.
    pub fn read_i32(&mut self) -> (r: Result<i32, SMParserError>)
        ensures
            old(self).moved_to(*final(self)),
            old(self).has(4) ==> r == Ok::<i32, SMParserError>(
                i32_at(old(self).order(), old(self).bytes(), old(self).position() as int),
            ) && final(self).position() == old(self).position() + 4,
            !old(self).has(4) ==> r == Err::<i32, SMParserError>(SMParserError::Truncated)
                && final(self).position() == old(self).position(),
    {
        match self.take(4) {
            Some(buf) => {
                assert(buf@.subrange(0, 4) =~= buf@);
                Ok(self.order.read_i32(buf))
            },
            None => Err(SMParserError::Truncated),
        }
    }

    /// Reads an unsigned integer of eight bytes.
    pub fn read_u64(&mut self) -> (r: Result<u64, SMParserError>)
        ensures
            old(self).moved_to(*final(self)),
            old(self).has(8) ==> r == Ok::<u64, SMParserError>(
                u64_at(old(self).order(), old(self).bytes(), old(self).position() as int),
            ) && final(self).position() == old(self).position() + 8,
            !old(self).has(8) ==> r == Err::<u64, SMParserError>(SMParserError::Truncated)
                && final(self).position() == old(self).position(),
    {
        match self.take(8) {
            Some(buf) => {
                assert(buf@.subrange(0, 8) =~= buf@);
                Ok(self.order.read_u64(buf))
            },
            None => Err(SMParserError::Truncated),
        }
    }
}

/// A cursor at `start_pos` in the stack map section of `elf_file` that reads
/// in the byte order `order`.
pub fn cursor_from_elf<'a>(elf_file: &'a elf::File, start_pos: u64, order: Endian) -> (r: Result<
    ByteCursor<'a>,
    SMParserError,
>)
    ensures
        match r {
            Ok(cursor) => stackmap_section(*elf_file) == Some(cursor.bytes())
                && cursor.position() == start_pos && cursor.order() == order,
            Err(e) => stackmap_section(*elf_file) is None && e == SMParserError::SectionNotFound,
        },
{
    match find_section(elf_file, STACKMAP_SECTION_NAME) {
        Some(data) => Ok(ByteCursor::new(data.as_slice(), start_pos, order)),
        None => Err(SMParserError::SectionNotFound),
    }
}

/// Where a cursor at `pos` stands after a skip of `bytes`, if it can stand
/// there: not before the start, and not behind what a position can hold.
pub open spec fn skip_target(pos: u64, bytes: i64) -> Option<u64> {
    if 0 <= pos + bytes <= u64::MAX {
        Some((pos + bytes) as u64)
    } else {
        None
    }
}

/// Moves the cursor by `bytes`, backwards if `bytes` is negative, and
/// returns the new position. The end of the section is no limit.
pub fn cursor_skip(cursor: &mut ByteCursor, bytes: i64) -> (r: Result<u64, SMParserError>)
    ensures
        old(cursor).moved_to(*final(cursor)),
        match skip_target(old(cursor).position(), bytes) {
            Some(target) => r == Ok::<u64, SMParserError>(target) && final(cursor).position()
                == target,
            None => r == Err::<u64, SMParserError>(SMParserError::Truncated)
                && final(cursor).position() == old(cursor).position(),
        },
{
    if bytes >= 0 {
        let forward = bytes as u64;
        if forward > u64::MAX - cursor.pos {
            return Err(SMParserError::Truncated);
        }
        cursor.pos = cursor.pos + forward;
    } else {
        let back = (-(bytes + 1)) as u64 + 1;
        if back > cursor.pos {
            return Err(SMParserError::Truncated);
        }
        cursor.pos = cursor.pos - back;
    }
    Ok(cursor.pos)
}

/// Moves the cursor to the next multiple of eight, if it is not at one, and
/// returns the new position.
pub fn cursor_align8(cursor: &mut ByteCursor) -> (r: Result<u64, SMParserError>)
    ensures
        old(cursor).moved_to(*final(cursor)),
        align8(old(cursor).position() as int) <= u64::MAX ==> r == Ok::<u64, SMParserError>(
            align8(old(cursor).position() as int) as u64,
        ) && final(cursor).position() == align8(old(cursor).position() as int),
        align8(old(cursor).position() as int) > u64::MAX ==> r == Err::<u64, SMParserError>(
            SMParserError::Truncated,
        ) && final(cursor).position() == old(cursor).position(),
{
    let pad = (8 - (cursor.pos % 8)) % 8;
    cursor_skip(cursor, pad as i64)
}

} // verus!
