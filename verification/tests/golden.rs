use ykstackmaps::{LocKind, LocOffset, SMFunc, SMLoc, SMRec, StackMapParser};

fn elf_with_stackmaps(data: Vec<u8>) -> elf::File {
    let mut file = elf::File::new();
    file.sections.push(elf::Section {
        shdr: elf::types::SectionHeader {
            name: String::from(".llvm_stackmaps"),
            shtype: elf::types::SHT_PROGBITS,
            flags: elf::types::SHF_ALLOC,
            addr: 0,
            offset: 0,
            size: data.len() as u64,
            link: 0,
            info: 0,
            addralign: 8,
            entsize: 0,
        },
        data,
    });
    file
}

fn header(num_funcs: u32, num_consts: u32, num_recs: u32) -> Vec<u8> {
    let mut out = vec![3u8, 0, 0, 0];
    out.extend_from_slice(&num_funcs.to_ne_bytes());
    out.extend_from_slice(&num_consts.to_ne_bytes());
    out.extend_from_slice(&num_recs.to_ne_bytes());
    out
}

// One function {addr: 0x1000, stack_size: 32}, one record {id: 7, offset: 16}
// with a single Direct location {size: 8, dwarf_reg: 6, offset: -24}.
fn golden_section() -> Vec<u8> {
    let mut out = header(1, 0, 1);
    out.extend_from_slice(&0x1000u64.to_ne_bytes());
    out.extend_from_slice(&32u64.to_ne_bytes());
    out.extend_from_slice(&1u64.to_ne_bytes());
    out.extend_from_slice(&7u64.to_ne_bytes());
    out.extend_from_slice(&16u32.to_ne_bytes());
    out.extend_from_slice(&0u16.to_ne_bytes());
    out.extend_from_slice(&1u16.to_ne_bytes());
    out.push(2);
    out.push(0);
    out.extend_from_slice(&8u16.to_ne_bytes());
    out.extend_from_slice(&6u16.to_ne_bytes());
    out.extend_from_slice(&0u16.to_ne_bytes());
    out.extend_from_slice(&(-24i32).to_ne_bytes());
    // Padding to a multiple of eight, then two bytes of padding.
    out.extend_from_slice(&[0u8; 4]);
    out.extend_from_slice(&[0u8; 2]);
    out.extend_from_slice(&0u16.to_ne_bytes());
    out.extend_from_slice(&[0u8; 4]);
    out
}

#[test]
fn golden_section_decodes_to_its_fields() {
    let data = golden_section();
    assert_eq!(data.len(), 80);
    let parser = StackMapParser::new(elf_with_stackmaps(data)).unwrap();
    assert_eq!(parser.num_funcs(), 1);
    assert_eq!(parser.num_stackmaps(), 1);

    let mut funcs = parser.iter_functions();
    let func = funcs.next().unwrap().unwrap();
    assert_eq!(func, SMFunc { addr: 0x1000, stack_size: 32 });
    assert_eq!(func.addr(), 0x1000);
    assert_eq!(func.stack_size(), 32);
    assert_eq!(funcs.position(), 40);
    assert!(funcs.next().is_none());

    let mut recs = parser.iter_stackmaps();
    assert_eq!(recs.position(), 40);
    let rec = recs.next().unwrap().unwrap();
    assert_eq!(rec.id(), 7);
    assert_eq!(rec.offset(), 16);
    assert_eq!(
        rec.locs(),
        &vec![SMLoc {
            kind: LocKind::Direct,
            size: 8,
            dwarf_reg: 6,
            offset: LocOffset::I32(-24),
        }]
    );
    assert_eq!(
        rec,
        SMRec::new(
            7,
            16,
            vec![SMLoc {
                kind: LocKind::Direct,
                size: 8,
                dwarf_reg: 6,
                offset: LocOffset::I32(-24),
            }]
        )
    );
    // The cursor ends exactly at the end of the section.
    assert_eq!(recs.position(), 80);
    assert!(recs.next().is_none());
    assert_eq!(recs.position(), 80);
}
