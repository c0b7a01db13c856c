//! The layout of the stack map section, as functions on its bytes.
//!
//! A position is an offset from the start of the section. Every function
//! here that takes a position expects it not to be negative. The byte order
//! of the fields wider than a byte is the first parameter of each function
//! that reads one.

use crate::endian::{signed32, Endian};
use crate::errors::SMParserError;
use crate::records::{LocKind, LocOffset, SMFunc, SMLoc, SMRecView};
use vstd::prelude::*;

verus! {

/// The one version of the format that is decoded.
pub const STACKMAP_VERSION: u8 = 3;

/// Bytes in an entry of the function table.
pub const SIZE_STACK_SIZE_ENTRY: u8 = 24;

/// Bytes in an entry of the constant pool.
pub const SIZE_CONSTANT_ENTRY: u8 = 8;

/// Bytes in a location.
pub const SIZE_LOC_ENTRY: u8 = 12;

/// Bytes in a live-out entry.
pub const SIZE_LIVEOUT_ENTRY: u8 = 4;

/// Where the function table starts: right behind the header.
pub const OFFS_STACK_SIZE_ENTRIES: u64 = 16;

/// The three table sizes of the header.
pub struct Header {
    /// The number of entries in the function table.
    pub num_funcs: u32,
    /// The number of entries in the constant pool.
    pub num_consts: u32,
    /// The number of stack map records.
    pub num_stackmaps: u32,
}

/// The two bytes at `p` as an unsigned integer.
pub open spec fn u16_at(order: Endian, s: Seq<u8>, p: int) -> u16 {
    order.value(s.subrange(p, p + 2)) as u16
}

/// The four bytes at `p` as an unsigned integer.
pub open spec fn u32_at(order: Endian, s: Seq<u8>, p: int) -> u32 {
    order.value(s.subrange(p, p + 4)) as u32
}

/// The four bytes at `p` as a signed integer.
pub open spec fn i32_at(order: Endian, s: Seq<u8>, p: int) -> i32 {
    signed32(order.value(s.subrange(p, p + 4))) as i32
}

/// The eight bytes at `p` as an unsigned integer.
pub open spec fn u64_at(order: Endian, s: Seq<u8>, p: int) -> u64 {
    order.value(s.subrange(p, p + 8)) as u64
}

/// The first multiple of eight that is not below `p`.
pub open spec fn align8(p: int) -> int {
    p + (8 - p % 8) % 8
}

/// What the first four bytes of a section say of it: nothing, if the version
/// is the supported one and the three reserved bytes are zero; else what is
/// wrong with the first byte that is wrong or missing.
pub open spec fn spec_check_header(order: Endian, s: Seq<u8>) -> Result<(), SMParserError> {
    if s.len() < 1 {
        Err(SMParserError::Truncated)
    } else if s[0] != STACKMAP_VERSION {
        Err(SMParserError::UnsupportedVersion { expected: STACKMAP_VERSION, found: s[0] })
    } else if s.len() < 2 {
        Err(SMParserError::Truncated)
    } else if s[1] != 0 {
        Err(SMParserError::MalformedHeader { value: s[1] as u16 })
    } else if s.len() < 4 {
        Err(SMParserError::Truncated)
    } else if s[2] != 0 || s[3] != 0 {
        Err(SMParserError::MalformedHeader { value: u16_at(order, s, 2) })
    } else {
        Ok(())
    }
}

/// The header of a section: its first sixteen bytes.
pub open spec fn spec_header(order: Endian, s: Seq<u8>) -> Result<Header, SMParserError> {
    match spec_check_header(order, s) {
        Err(e) => Err(e),
        Ok(_) => if s.len() < 16 {
            Err(SMParserError::Truncated)
        } else {
            Ok(
                Header {
                    num_funcs: u32_at(order, s, 4),
                    num_consts: u32_at(order, s, 8),
                    num_stackmaps: u32_at(order, s, 12),
                },
            )
        },
    }
}

/// Where the stack map records start: behind the function table and the
/// constant pool.
pub open spec fn stackmaps_start(num_funcs: u32, num_consts: u32) -> int {
    OFFS_STACK_SIZE_ENTRIES + num_funcs * SIZE_STACK_SIZE_ENTRY + num_consts * SIZE_CONSTANT_ENTRY
}

/// The function entry at `p`, and where the next one starts.
///
/// The last eight of its 24 bytes, a record count, are passed over unread,
/// so they may lie behind the end of the section; an entry that would end
/// behind the largest position does not decode.
pub open spec fn spec_func(order: Endian, s: Seq<u8>, p: int) -> Result<
    (SMFunc, int),
    SMParserError,
> {
    if p + 16 > s.len() || p + SIZE_STACK_SIZE_ENTRY > u64::MAX {
        Err(SMParserError::Truncated)
    } else {
        Ok(
            (
                SMFunc { addr: u64_at(order, s, p), stack_size: u64_at(order, s, p + 8) },
                p + SIZE_STACK_SIZE_ENTRY,
            ),
        )
    }
}

/// The location in the twelve bytes at `p`: a kind byte, a reserved byte, the
/// size, the register, two reserved bytes and the offset.
pub open spec fn spec_loc(order: Endian, s: Seq<u8>, p: int) -> Result<SMLoc, SMParserError> {
    if p + 1 > s.len() {
        Err(SMParserError::Truncated)
    } else if LocKind::spec_from_hex(s[p]) is None {
        Err(SMParserError::UnknownLocationKind(s[p]))
    } else if p + 2 > s.len() {
        Err(SMParserError::Truncated)
    } else if s[p + 1] != 0 {
        Err(SMParserError::MalformedLocation)
    } else if p + 8 > s.len() {
        Err(SMParserError::Truncated)
    } else if s[p + 6] != 0 || s[p + 7] != 0 {
        Err(SMParserError::MalformedLocation)
    } else if p + 12 > s.len() {
        Err(SMParserError::Truncated)
    } else {
        let kind = LocKind::spec_from_hex(s[p])->0;
        Ok(
            SMLoc {
                kind,
                size: u16_at(order, s, p + 2),
                dwarf_reg: u16_at(order, s, p + 4),
                offset: if kind == LocKind::Constant {
                    LocOffset::U32(u32_at(order, s, p + 8))
                } else {
                    LocOffset::I32(i32_at(order, s, p + 8))
                },
            },
        )
    }
}

/// The `n` locations that start at `p`, or what is wrong with the first of
/// them that is not well-formed.
pub open spec fn spec_locs(order: Endian, s: Seq<u8>, p: int, n: nat) -> Result<
    Seq<SMLoc>,
    SMParserError,
>
    decreases n,
{
    if n == 0 {
        Ok(Seq::empty())
    } else {
        match spec_locs(order, s, p, (n - 1) as nat) {
            Err(e) => Err(e),
            Ok(locs) => match spec_loc(order, s, p + SIZE_LOC_ENTRY * (n - 1)) {
                Err(e) => Err(e),
                Ok(loc) => Ok(locs.push(loc)),
            },
        }
    }
}

/// Where the live-out count of a record stands that starts at `p` and holds
/// `num_locs` locations: behind the sixteen bytes of identifier, instruction
/// offset, flags and location count, the locations, padding to the next
/// multiple of eight, and two more bytes of padding.
pub open spec fn liveouts_pos(p: int, num_locs: u16) -> int {
    align8(p + 16 + SIZE_LOC_ENTRY * num_locs) + 2
}

/// Where a record ends whose live-out count stands at `q` and says
/// `num_liveouts`: behind the count, the live-outs, and padding to the next
/// multiple of eight.
pub open spec fn record_end(q: int, num_liveouts: u16) -> int {
    align8(q + 2 + SIZE_LIVEOUT_ENTRY * num_liveouts)
}

/// The stack map record at `p`, and where the next one starts.
///
/// Flags, padding and live-outs are passed over unread, so the live-outs and
/// the padding behind them may lie behind the end of the section; a record
/// that would end behind the largest position does not decode.
#[verifier::opaque]
pub open spec fn spec_rec(order: Endian, s: Seq<u8>, p: int) -> Result<
    (SMRecView, int),
    SMParserError,
> {
    if p + 16 > s.len() {
        Err(SMParserError::Truncated)
    } else {
        let num_locs = u16_at(order, s, p + 14);
        let q = liveouts_pos(p, num_locs);
        match spec_locs(order, s, p + 16, num_locs as nat) {
            Err(e) => Err(e),
            Ok(locs) => if q + 2 > s.len() || record_end(q, u16_at(order, s, q)) > u64::MAX {
                Err(SMParserError::Truncated)
            } else {
                Ok(
                    (
                        SMRecView {
                            id: u64_at(order, s, p),
                            offset: u32_at(order, s, p + 8),
                            locs,
                        },
                        record_end(q, u16_at(order, s, q)),
                    ),
                )
            },
        }
    }
}

/// What an iterator over `n` function entries from `p` on hands out: the
/// entries as they follow each other in the table, up to and with the first
/// failure.
pub open spec fn func_items(order: Endian, s: Seq<u8>, p: int, n: nat) -> Seq<
    Result<SMFunc, SMParserError>,
>
    decreases n,
{
    if n == 0 {
        Seq::empty()
    } else {
        match spec_func(order, s, p) {
            Err(e) => seq![Err(e)],
            Ok((func, next)) => seq![Ok(func)] + func_items(order, s, next, (n - 1) as nat),
        }
    }
}

/// What an iterator over `n` stack map records from `p` on hands out: the
/// records as they follow each other in the table, up to and with the first
/// failure.
pub open spec fn rec_items(order: Endian, s: Seq<u8>, p: int, n: nat) -> Seq<
    Result<SMRecView, SMParserError>,
>
    decreases n,
{
    if n == 0 {
        Seq::empty()
    } else {
        match spec_rec(order, s, p) {
            Err(e) => seq![Err(e)],
            Ok((rec, next)) => seq![Ok(rec)] + rec_items(order, s, next, (n - 1) as nat),
        }
    }
}

/// Once a location of a table is not well-formed, no longer table from the
/// same start is.
pub proof fn lemma_locs_fail_on(order: Endian, s: Seq<u8>, p: int, i: nat, n: nat)
    requires
        i < n,
        spec_locs(order, s, p, i) is Ok,
        spec_loc(order, s, p + SIZE_LOC_ENTRY * i) is Err,
    ensures
        spec_locs(order, s, p, n) == Err::<Seq<SMLoc>, SMParserError>(
            spec_loc(order, s, p + SIZE_LOC_ENTRY * i)->Err_0,
        ),
    decreases n,
{
    if n > i + 1 {
        lemma_locs_fail_on(order, s, p, i, (n - 1) as nat);
    }
}

/// Alignment moves a position forward by fewer than eight bytes, to a
/// multiple of eight, and leaves a multiple of eight where it is.
pub proof fn lemma_align8(p: int)
    ensures
        p <= align8(p) < p + 8,
        align8(p) % 8 == 0,
        p % 8 == 0 ==> align8(p) == p,
{
}

/// A stack map record ends at a multiple of eight, behind its start: behind
/// every record that an iterator hands out, it stands at such a position.
pub proof fn lemma_rec_end_aligned(order: Endian, s: Seq<u8>, p: int)
    requires
        0 <= p,
    ensures
        spec_rec(order, s, p) matches Ok((_, next)) ==> next % 8 == 0 && p + 24 <= next
            <= u64::MAX,
{
    reveal(spec_rec);
    if p + 16 <= s.len() {
        let num_locs = u16_at(order, s, p + 14);
        let q = liveouts_pos(p, num_locs);
        lemma_align8(p + 16 + SIZE_LOC_ENTRY * num_locs);
        lemma_align8(q + 2 + SIZE_LIVEOUT_ENTRY * u16_at(order, s, q));
    }
}

/// The first thing that an iterator over function entries hands out is the
/// entry at its position, and the rest is what an iterator behind that entry
/// hands out.
pub proof fn lemma_func_items_step(order: Endian, s: Seq<u8>, p: int, n: nat)
    requires
        n > 0,
    ensures
        func_items(order, s, p, n).len() > 0,
        match spec_func(order, s, p) {
            Ok((func, next)) => {
                &&& func_items(order, s, p, n)[0] == Ok::<SMFunc, SMParserError>(func)
                &&& func_items(order, s, p, n).drop_first() == func_items(
                    order,
                    s,
                    next,
                    (n - 1) as nat,
                )
            },
            Err(e) => func_items(order, s, p, n) == seq![Err::<SMFunc, SMParserError>(e)],
        },
{
}

/// The first thing that an iterator over stack map records hands out is the
/// record at its position, and the rest is what an iterator behind that
/// record hands out.
pub proof fn lemma_rec_items_step(order: Endian, s: Seq<u8>, p: int, n: nat)
    requires
        n > 0,
    ensures
        rec_items(order, s, p, n).len() > 0,
        match spec_rec(order, s, p) {
            Ok((rec, next)) => {
                &&& rec_items(order, s, p, n)[0] == Ok::<SMRecView, SMParserError>(rec)
                &&& rec_items(order, s, p, n).drop_first() == rec_items(
                    order,
                    s,
                    next,
                    (n - 1) as nat,
                )
            },
            Err(e) => rec_items(order, s, p, n) == seq![Err::<SMRecView, SMParserError>(e)],
        },
{
}

} // verus!
