//! The sections of a parsed ELF file, as far as this crate looks at them.

use vstd::prelude::*;

verus! {

/// `elf::File`, a parsed ELF file. Verus sees nothing inside it.
#[verifier::external_type_specification]
#[verifier::external_body]
pub struct ExElfFile(elf::File);

/// The sections of a parsed ELF file, in the order of its section table:
/// of each its name and its contents.
pub uninterp spec fn elf_sections(file: elf::File) -> Seq<(Seq<char>, Seq<u8>)>;

/// The name of the section that holds the stack maps.
pub const STACKMAP_SECTION_NAME: &'static str = ".llvm_stackmaps";

/// The contents of the first section called `name`, if there is one.
pub open spec fn section_named(sections: Seq<(Seq<char>, Seq<u8>)>, name: Seq<char>) -> Option<
    Seq<u8>,
>
    decreases sections.len(),
{
    if sections.len() == 0 {
        None
    } else if sections[0].0 == name {
        Some(sections[0].1)
    } else {
        section_named(sections.drop_first(), name)
    }
}

/// The contents of the stack map section of `file`, if it has one.
pub open spec fn stackmap_section(file: elf::File) -> Option<Seq<u8>> {
    section_named(elf_sections(file), STACKMAP_SECTION_NAME@)
}

/// Calls `elf::File::get_section`, which walks the section table from the
/// front and stops at the first section whose name equals `name`.
///
/// Not proved: that the result is the contents of that section, and that
/// there is none when no section has that name.
#[verifier::external_body]
pub(crate) fn find_section<'a>(file: &'a elf::File, name: &str) -> (r: Option<&'a Vec<u8>>)
    ensures
        match r {
            Some(data) => section_named(elf_sections(*file), name@) == Some(data@),
            None => section_named(elf_sections(*file), name@) is None,
        },
{
    file.get_section(name).map(|section| &section.data)
}

} // verus!
