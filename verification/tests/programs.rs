use ykstackmaps::{LocKind, LocOffset, SMFunc, SMLoc, SMRec, StackMapParser};

fn elf_with_stackmaps(data: Vec<u8>) -> elf::File {
    let mut file = elf::File::new();
    for (name, contents) in [
        ("", Vec::new()),
        (".text", vec![0x55, 0x48, 0x89, 0xe5, 0xc3]),
        (".llvm_stackmaps", data),
        (".shstrtab", b"\0.text\0.llvm_stackmaps\0.shstrtab\0".to_vec()),
    ] {
        file.sections.push(elf::Section {
            shdr: elf::types::SectionHeader {
                name: String::from(name),
                shtype: elf::types::SHT_PROGBITS,
                flags: elf::types::SHF_ALLOC,
                addr: 0,
                offset: 0,
                size: contents.len() as u64,
                link: 0,
                info: 0,
                addralign: 8,
                entsize: 0,
            },
            data: contents,
        });
    }
    file
}

fn location(loc: &SMLoc) -> Vec<u8> {
    let kind = match loc.kind {
        LocKind::Register => 1u8,
        LocKind::Direct => 2,
        LocKind::Indirect => 3,
        LocKind::Constant => 4,
        LocKind::ConstIndex => 5,
    };
    let mut out = vec![kind, 0];
    out.extend_from_slice(&loc.size.to_ne_bytes());
    out.extend_from_slice(&loc.dwarf_reg.to_ne_bytes());
    out.extend_from_slice(&0u16.to_ne_bytes());
    match loc.offset {
        LocOffset::I32(v) => out.extend_from_slice(&v.to_ne_bytes()),
        LocOffset::U32(v) => out.extend_from_slice(&v.to_ne_bytes()),
    }
    out
}

// The section that holds the given functions, each with its number of
// records, the given constants and the given records, each with its number
// of live-outs.
fn section(funcs: &[(SMFunc, u64)], consts: &[u64], recs: &[(SMRec, u16)]) -> Vec<u8> {
    let mut out = vec![3u8, 0, 0, 0];
    out.extend_from_slice(&(funcs.len() as u32).to_ne_bytes());
    out.extend_from_slice(&(consts.len() as u32).to_ne_bytes());
    out.extend_from_slice(&(recs.len() as u32).to_ne_bytes());
    for (func, count) in funcs {
        out.extend_from_slice(&func.addr.to_ne_bytes());
        out.extend_from_slice(&func.stack_size.to_ne_bytes());
        out.extend_from_slice(&count.to_ne_bytes());
    }
    for value in consts {
        out.extend_from_slice(&value.to_ne_bytes());
    }
    for (rec, liveouts) in recs {
        out.extend_from_slice(&rec.id().to_ne_bytes());
        out.extend_from_slice(&rec.offset().to_ne_bytes());
        out.extend_from_slice(&0u16.to_ne_bytes());
        out.extend_from_slice(&(rec.locs().len() as u16).to_ne_bytes());
        for loc in rec.locs() {
            out.extend_from_slice(&location(loc));
        }
        while out.len() % 8 != 0 {
            out.push(0);
        }
        out.extend_from_slice(&0u16.to_ne_bytes());
        out.extend_from_slice(&liveouts.to_ne_bytes());
        for reg in 0..*liveouts {
            out.extend_from_slice(&reg.to_ne_bytes());
            out.push(0);
            out.push(8);
        }
        while out.len() % 8 != 0 {
            out.push(0);
        }
    }
    out
}

fn register(dwarf_reg: u16) -> SMLoc {
    SMLoc { kind: LocKind::Register, size: 8, dwarf_reg, offset: LocOffset::I32(0) }
}

fn direct(dwarf_reg: u16, offset: i32) -> SMLoc {
    SMLoc { kind: LocKind::Direct, size: 8, dwarf_reg, offset: LocOffset::I32(offset) }
}

fn indirect(dwarf_reg: u16, offset: i32) -> SMLoc {
    SMLoc { kind: LocKind::Indirect, size: 8, dwarf_reg, offset: LocOffset::I32(offset) }
}

fn constant(value: u32) -> SMLoc {
    SMLoc { kind: LocKind::Constant, size: 8, dwarf_reg: 0, offset: LocOffset::U32(value) }
}

fn const_index(index: i32) -> SMLoc {
    SMLoc { kind: LocKind::ConstIndex, size: 8, dwarf_reg: 0, offset: LocOffset::I32(index) }
}

fn check_expected_stackmaps(data: Vec<u8>, expect_funcs: Vec<SMFunc>, expect_stkmaps: Vec<SMRec>) {
    let p = StackMapParser::new(elf_with_stackmaps(data)).unwrap();

    assert_eq!(expect_funcs.len(), p.num_funcs() as usize);
    assert_eq!(expect_stkmaps.len(), p.num_stackmaps() as usize);
    let mut funcs = p.iter_functions();
    for expect in expect_funcs {
        assert_eq!(funcs.next().unwrap().unwrap(), expect);
    }
    assert!(funcs.next().is_none());

    let mut stkmaps = p.iter_stackmaps();
    for expect in expect_stkmaps {
        assert_eq!(stkmaps.next().unwrap().unwrap(), expect);
    }
    assert!(stkmaps.next().is_none());
}

// One function with one safepoint that records nothing but a constant.
#[test]
fn test_hello_world1() {
    let funcs = vec![SMFunc { addr: 0x401130, stack_size: 8 }];
    let recs = vec![SMRec::new(0, 9, vec![constant(0)])];
    let data = section(&[(funcs[0], 1)], &[], &[(recs[0].clone(), 0)]);
    check_expected_stackmaps(data, funcs, recs);
}

// Two functions; the safepoints record a register, two stack slots, a spilled
// value and a small constant.
#[test]
fn test_hello_world2() {
    let funcs = vec![
        SMFunc { addr: 0x401130, stack_size: 24 },
        SMFunc { addr: 0x401170, stack_size: 40 },
    ];
    let recs = vec![
        SMRec::new(1, 22, vec![register(3), direct(6, -4)]),
        SMRec::new(2, 18, vec![direct(6, -8), indirect(7, 16), constant(33)]),
        SMRec::new(3, 41, vec![]),
    ];
    let data = section(
        &[(funcs[0], 1), (funcs[1], 2)],
        &[],
        &[(recs[0].clone(), 0), (recs[1].clone(), 2), (recs[2].clone(), 0)],
    );
    check_expected_stackmaps(data, funcs, recs);
}

// Four functions, a constant pool, and records of every location kind, with
// identifiers that repeat and constants that do not fit a signed integer.
#[test]
fn test_fannkuch_redux() {
    let funcs = vec![
        SMFunc { addr: 0x401140, stack_size: 56 },
        SMFunc { addr: 0x401390, stack_size: 88 },
        SMFunc { addr: 0x4015d0, stack_size: 8 },
        SMFunc { addr: 0xffff_ffff_8100_0000, stack_size: 24 },
    ];
    let mut recs = vec![
        SMRec::new(
            0,
            57,
            vec![
                register(0),
                register(15),
                direct(7, 8),
                direct(6, -48),
                indirect(7, 24),
                indirect(6, -2147483648),
            ],
        ),
        SMRec::new(0, 131, vec![constant(4294967295), constant(2147483648), const_index(0)]),
        SMRec::new(17, 4, vec![const_index(1), const_index(2)]),
        SMRec::new(0xdead_beef_0000_0001, 4096, vec![]),
    ];
    for i in 0..12u64 {
        let mut locs = Vec::new();
        for j in 0..i {
            locs.push(indirect(7, 8 * j as i32 - 40));
        }
        recs.push(SMRec::new(100 + i, 16 * i as u32, locs));
    }
    let with_liveouts: Vec<(SMRec, u16)> =
        recs.iter().enumerate().map(|(i, rec)| (rec.clone(), (i % 5) as u16)).collect();
    let data = section(
        &[(funcs[0], 2), (funcs[1], 1), (funcs[2], 1), (funcs[3], 12)],
        &[0x1_0000_0000, 0x7fff_ffff_ffff_ffff, u64::MAX],
        &with_liveouts,
    );
    check_expected_stackmaps(data, funcs, recs);
}
