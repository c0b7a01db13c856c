//! The records that the decoder hands out.

use crate::errors::SMParserError;
use vstd::prelude::*;

verus! {

/// Where a live value is kept at a safepoint.
#[derive(Debug, Clone, Copy, PartialEq, Eq, Structural)]
pub enum LocKind {
    /// In a register.
    Register,
    /// At an address that is a register plus an offset; the address itself
    /// is the value.
    Direct,
    /// In memory, at a register plus an offset.
    Indirect,
    /// A constant that fits the offset field.
    Constant,
    /// A constant in the constant pool of the section.
    ConstIndex,
}

/// The offset field of a location.
///
/// It is unsigned if and only if the location is a `Constant`: LLVM emits
/// constants there that do not fit a signed 32 bit integer.
#[derive(Debug, Clone, Copy, PartialEq, Eq, Structural)]
pub enum LocOffset {
    I32(i32),
    U32(u32),
}

/// One location of a stack map record.
#[derive(Debug, Clone, Copy, PartialEq, Eq, Structural)]
pub struct SMLoc {
    /// Where the value is kept.
    pub kind: LocKind,
    /// The size of the value in bytes.
    pub size: u16,
    /// The DWARF number of the register that holds the value or that the
    /// offset is relative to.
    pub dwarf_reg: u16,
    /// The displacement from the register, the constant itself, or the
    /// index into the constant pool.
    pub offset: LocOffset,
}

/// One entry of the function table.
#[derive(Debug, Clone, Copy, PartialEq, Eq, Structural)]
pub struct SMFunc {
    /// Function address.
    pub addr: u64,
    /// Function's stack size.
    pub stack_size: u64,
}

/// One stack map record.
#[derive(Debug, PartialEq, Eq)]
pub struct SMRec {
    // Stackmap ID.
    id: u64,
    // Stackmap offset from start of containing func.
    offset: u32,
    locs: Vec<SMLoc>,
}

/// What a stack map record holds.
pub struct SMRecView {
    /// Stackmap ID.
    pub id: u64,
    /// Stackmap offset from start of containing func.
    pub offset: u32,
    /// The locations of the live values, in the order of the record.
    pub locs: Seq<SMLoc>,
}

impl LocKind {
    /// The kind that the byte `val` stands for, if it stands for one.
    pub open spec fn spec_from_hex(val: u8) -> Option<LocKind> {
        if val == 1 {
            Some(LocKind::Register)
        } else if val == 2 {
            Some(LocKind::Direct)
        } else if val == 3 {
            Some(LocKind::Indirect)
        } else if val == 4 {
            Some(LocKind::Constant)
        } else if val == 5 {
            Some(LocKind::ConstIndex)
        } else {
            None
        }
    }

    /// Maps the kind byte of a location to its kind.
    pub fn from_hex(val: u8) -> (r: Result<LocKind, SMParserError>)
        ensures
            r == match LocKind::spec_from_hex(val) {
                Some(kind) => Ok::<LocKind, SMParserError>(kind),
                None => Err(SMParserError::UnknownLocationKind(val)),
            },
    {
        match val {
            0x1 => Ok(LocKind::Register),
            0x2 => Ok(LocKind::Direct),
            0x3 => Ok(LocKind::Indirect),
            0x4 => Ok(LocKind::Constant),
            0x5 => Ok(LocKind::ConstIndex),
            _ => Err(SMParserError::UnknownLocationKind(val)),
        }
    }
}

impl View for SMRec {
    type V = SMRecView;

    closed spec fn view(&self) -> SMRecView {
        SMRecView { id: self.id, offset: self.offset, locs: self.locs@ }
    }
}

impl Clone for SMRec {
    fn clone(&self) -> (rec: Self)
        ensures
            rec@ == self@,
    {
        SMRec { id: self.id, offset: self.offset, locs: self.locs.clone() }
    }
}

impl SMRec {
    /// A record with the given identifier, instruction offset and locations.
    pub fn new(id: u64, offset: u32, locs: Vec<SMLoc>) -> (rec: SMRec)
        ensures
            rec@ == (SMRecView { id, offset, locs: locs@ }),
    {
        SMRec { id, offset, locs }
    }

    /// Returns the stackmap ID.
    pub fn id(&self) -> (id: u64)
        ensures
            id == self@.id,
    {
        self.id
    }

    /// Returns the offset of the stackmap from the start of the containing function.
    pub fn offset(&self) -> (offset: u32)
        ensures
            offset == self@.offset,
    {
        self.offset
    }

    /// Returns the locations of the live values, in the order of the record.
    pub fn locs(&self) -> (locs: &Vec<SMLoc>)
        ensures
            locs@ == self@.locs,
    {
        &self.locs
    }
}

impl SMFunc {
    /// Get the function address.
    pub fn addr(&self) -> (addr: u64)
        ensures
            addr == self.addr,
    {
        self.addr
    }

    /// Get the size of the stack of the function.
    pub fn stack_size(&self) -> (stack_size: u64)
        ensures
            stack_size == self.stack_size,
    {
        self.stack_size
    }
}

} // verus!
