use ykstackmaps::{SMParserError, StackMapParser};

fn elf_with_sections(sections: Vec<(&str, Vec<u8>)>) -> elf::File {
    let mut file = elf::File::new();
    for (name, data) in sections {
        file.sections.push(elf::Section {
            shdr: elf::types::SectionHeader {
                name: String::from(name),
                shtype: elf::types::SHT_PROGBITS,
                flags: elf::types::SHF_ALLOC,
                addr: 0,
                offset: 0,
                size: data.len() as u64,
                link: 0,
                info: 0,
                addralign: 8,
                entsize: 0,
            },
            data,
        });
    }
    file
}

fn elf_with_stackmaps(data: Vec<u8>) -> elf::File {
    elf_with_sections(vec![(".llvm_stackmaps", data)])
}

fn header(num_funcs: u32, num_consts: u32, num_recs: u32) -> Vec<u8> {
    let mut out = vec![3u8, 0, 0, 0];
    out.extend_from_slice(&num_funcs.to_ne_bytes());
    out.extend_from_slice(&num_consts.to_ne_bytes());
    out.extend_from_slice(&num_recs.to_ne_bytes());
    out
}

fn parse(data: Vec<u8>) -> Result<StackMapParser, SMParserError> {
    StackMapParser::new(elf_with_stackmaps(data))
}

#[test]
fn header_counts_are_read() {
    let parser = parse(header(5, 9, 1234567)).unwrap();
    assert_eq!(parser.num_funcs(), 5);
    assert_eq!(parser.num_stackmaps(), 1234567);
    let parser = parse(header(u32::MAX, 0, 0)).unwrap();
    assert_eq!(parser.num_funcs(), u32::MAX);
    assert_eq!(parser.num_stackmaps(), 0);
}

#[test]
fn header_alone_is_a_section_with_empty_tables() {
    let parser = parse(header(0, 0, 0)).unwrap();
    assert!(parser.iter_functions().next().is_none());
    assert!(parser.iter_stackmaps().next().is_none());
}

#[test]
fn missing_section_is_reported() {
    let file = elf_with_sections(vec![(".text", header(0, 0, 0))]);
    assert_eq!(StackMapParser::new(file).err(), Some(SMParserError::SectionNotFound));
    assert_eq!(StackMapParser::new(elf::File::new()).err(), Some(SMParserError::SectionNotFound));
}

#[test]
fn the_section_is_found_among_others() {
    let file = elf_with_sections(vec![
        (".text", vec![0xff; 64]),
        (".llvm_stackmaps", header(2, 0, 7)),
        (".llvm_stackmaps", header(3, 0, 8)),
        (".data", vec![0xff; 64]),
    ]);
    let parser = StackMapParser::new(file).unwrap();
    assert_eq!(parser.num_funcs(), 2);
    assert_eq!(parser.num_stackmaps(), 7);
}

#[test]
fn other_versions_are_refused() {
    for version in [0u8, 1, 2, 4, 0xff] {
        let mut data = header(1, 2, 3);
        data[0] = version;
        assert_eq!(
            parse(data).err(),
            Some(SMParserError::UnsupportedVersion { expected: 3, found: version })
        );
    }
}

#[test]
fn version_mismatch_does_not_depend_on_the_other_bytes() {
    let expected = Some(SMParserError::UnsupportedVersion { expected: 3, found: 2 });
    // Well-formed behind the version byte.
    let mut data = header(0, 0, 0);
    data[0] = 2;
    assert_eq!(parse(data).err(), expected);
    // Reserved bytes set.
    assert_eq!(parse(vec![2, 1, 1, 1, 0, 0, 0, 0, 0, 0, 0, 0, 0, 0, 0, 0]).err(), expected);
    // Nothing behind the version byte.
    assert_eq!(parse(vec![2]).err(), expected);
    // Garbage behind it.
    assert_eq!(parse(vec![2, 0xff, 0xee, 0xdd, 0xcc]).err(), expected);
}

#[test]
fn reserved_byte_of_the_header_must_be_zero() {
    for value in [1u8, 0x7f, 0xff] {
        let mut data = header(1, 2, 3);
        data[1] = value;
        assert_eq!(
            parse(data).err(),
            Some(SMParserError::MalformedHeader { value: u16::from(value) })
        );
    }
}

#[test]
fn reserved_pair_of_the_header_must_be_zero() {
    for (at, value) in [(2usize, 1u8), (3, 1), (2, 0xff), (3, 0x80)] {
        let mut data = header(1, 2, 3);
        data[at] = value;
        let found = u16::from_ne_bytes([data[2], data[3]]);
        assert_ne!(found, 0);
        assert_eq!(parse(data).err(), Some(SMParserError::MalformedHeader { value: found }));
    }
    let mut data = header(1, 2, 3);
    data[2] = 0x34;
    data[3] = 0x12;
    assert_eq!(
        parse(data).err(),
        Some(SMParserError::MalformedHeader { value: u16::from_ne_bytes([0x34, 0x12]) })
    );
}

#[test]
fn the_first_reserved_byte_is_reported_first() {
    let mut data = header(1, 2, 3);
    data[1] = 5;
    data[2] = 6;
    assert_eq!(parse(data).err(), Some(SMParserError::MalformedHeader { value: 5 }));
}

#[test]
fn a_short_header_is_truncated() {
    let whole = header(1, 2, 3);
    for len in 0..16 {
        assert_eq!(parse(whole[..len].to_vec()).err(), Some(SMParserError::Truncated));
    }
    assert!(parse(whole).is_ok());
}
