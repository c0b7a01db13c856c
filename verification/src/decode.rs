//! Decoders for locations, function entries and stack map records.
//!
//! Each takes a cursor at the start of an entry. On success the cursor
//! stands behind the entry; on failure it stands where it stood.

use crate::endian::lemma_pair_zero;
use crate::errors::SMParserError;
use crate::format::{
    lemma_locs_fail_on, spec_func, spec_loc, spec_locs, spec_rec, u16_at, SIZE_LIVEOUT_ENTRY,
    SIZE_LOC_ENTRY,
};
use crate::laws::lemma_rec_locations;
use crate::records::{LocKind, LocOffset, SMFunc, SMLoc, SMRec};
use crate::util::{cursor_align8, cursor_skip, ByteCursor};
use vstd::prelude::*;

verus! {

/// Decodes one location.
///
/// The offset of a `Constant` is read as an unsigned integer and every other
/// as a signed one.
pub fn decode_location(cursor: &mut ByteCursor) -> (r: Result<SMLoc, SMParserError>)
    ensures
        old(cursor).moved_to(*final(cursor)),
        r == spec_loc(old(cursor).order(), old(cursor).bytes(), old(cursor).position() as int),
        r is Ok ==> final(cursor).position() == old(cursor).position() + SIZE_LOC_ENTRY,
        r is Err ==> final(cursor).position() == old(cursor).position(),
{
    let ghost s = cursor.bytes();
    let ghost p = cursor.position() as int;
    let mut c = *cursor;
    let kind = LocKind::from_hex(c.read_u8()?)?;
    let reserved = c.read_u8()?;
    if reserved != 0 {
        return Err(SMParserError::MalformedLocation);
    }
    let size = c.read_u16()?;
    let dwarf_reg = c.read_u16()?;
    let reserved = c.read_u16()?;
    proof {
        lemma_pair_zero(c.order(), s.subrange(p + 6, p + 8));
    }
    if reserved != 0 {
        return Err(SMParserError::MalformedLocation);
    }
    let offset = match kind {
        LocKind::Constant => LocOffset::U32(c.read_u32()?),
        _ => LocOffset::I32(c.read_i32()?),
    };
    *cursor = c;
    Ok(SMLoc { kind, size, dwarf_reg, offset })
}

/// Decodes one entry of the function table.
pub fn decode_function(cursor: &mut ByteCursor) -> (r: Result<SMFunc, SMParserError>)
    ensures
        old(cursor).moved_to(*final(cursor)),
        match spec_func(old(cursor).order(), old(cursor).bytes(), old(cursor).position() as int) {
            Ok((func, next)) => r == Ok::<SMFunc, SMParserError>(func)
                && final(cursor).position() == next,
            Err(e) => r == Err::<SMFunc, SMParserError>(e)
                && final(cursor).position() == old(cursor).position(),
        },
{
    let mut c = *cursor;
    // uint64: Function Address
    let addr = c.read_u64()?;
    // uint64: Stack Size
    let stack_size = c.read_u64()?;
    // uint64: Record Count
    cursor_skip(&mut c, 8)?;
    *cursor = c;
    Ok(SMFunc { addr, stack_size })
}

/// Decodes one stack map record.
///
/// The record holds as many locations as the count in its bytes says.
pub fn decode_record(cursor: &mut ByteCursor) -> (r: Result<SMRec, SMParserError>)
    ensures
        old(cursor).moved_to(*final(cursor)),
        match spec_rec(old(cursor).order(), old(cursor).bytes(), old(cursor).position() as int) {
            Ok((rec, next)) => r matches Ok(got) && got@ == rec && got@.locs.len() == u16_at(
                old(cursor).order(),
                old(cursor).bytes(),
                old(cursor).position() + 14,
            ) && final(cursor).position() == next,
            Err(e) => r == Err::<SMRec, SMParserError>(e)
                && final(cursor).position() == old(cursor).position(),
        },
{
    let ghost order = cursor.order();
    let ghost s = cursor.bytes();
    let ghost p = cursor.position() as int;
    let mut c = *cursor;
    proof {
        reveal(spec_rec);
        c.lemma_len_fits();
    }
    // uint64: PatchPoint ID
    let id = c.read_u64()?;
    // uint32: Instruction Offset
    let offset = c.read_u32()?;
    // uint16: Reserved (record flags)
    cursor_skip(&mut c, 2)?;
    // uint16: NumLocations
    let num_locs = c.read_u16()?;
    // Location[NumLocations]
    let mut locs: Vec<SMLoc> = Vec::with_capacity(num_locs as usize);
    let mut i: u16 = 0;
    while i < num_locs
        invariant
            i <= num_locs,
            cursor.bytes() == s,
            cursor.position() == p,
            cursor.order() == order,
            p + 16 <= s.len(),
            num_locs == u16_at(order, s, p + 14),
            c.bytes() == s,
            c.order() == order,
            c.position() == p + 16 + SIZE_LOC_ENTRY * i,
            spec_locs(order, s, p + 16, i as nat) == Ok::<Seq<SMLoc>, SMParserError>(locs@),
        decreases num_locs - i,
    {
        match decode_location(&mut c) {
            Ok(loc) => locs.push(loc),
            Err(e) => {
                proof {
                    reveal(spec_rec);
                    lemma_locs_fail_on(order, s, p + 16, i as nat, num_locs as nat);
                }
                return Err(e);
            },
        }
        i = i + 1;
    }
    // uint32: Padding (only if required to align to 8 byte)
    cursor_align8(&mut c)?;
    // uint16: Padding
    cursor_skip(&mut c, 2)?;
    // uint16: NumLiveOuts
    let num_liveouts = c.read_u16()?;
    // LiveOuts[NumLiveOuts]
    cursor_skip(&mut c, num_liveouts as i64 * SIZE_LIVEOUT_ENTRY as i64)?;
    // uint32: Padding (only if required to align to 8 byte)
    cursor_align8(&mut c)?;
    proof {
        lemma_rec_locations(order, s, p);
    }
    *cursor = c;
    Ok(SMRec::new(id, offset, locs))
}

} // verus!
