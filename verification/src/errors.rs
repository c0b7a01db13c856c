use vstd::prelude::*;

verus! {

/// Why a stack map section could not be decoded.
#[derive(Debug, Clone, Copy, PartialEq, Eq, Structural)]
pub enum SMParserError {
    /// The ELF file has no section named `.llvm_stackmaps`.
    SectionNotFound,
    /// The version byte of the header is not the supported one.
    UnsupportedVersion { expected: u8, found: u8 },
    /// A reserved field of the header is not zero; `value` is what was found.
    MalformedHeader { value: u16 },
    /// The kind byte of a location is none of the five defined kinds.
    UnknownLocationKind(u8),
    /// A reserved field of a location is not zero.
    MalformedLocation,
    /// A field lies beyond the end of the section, or a skip leaves the range
    /// of positions that a cursor can hold.
    Truncated,
}

} // verus!
