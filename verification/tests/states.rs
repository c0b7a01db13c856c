use ykstackmaps::{IterState, StackMapParser};

fn elf_with_stackmaps(data: Vec<u8>) -> elf::File {
    let mut file = elf::File::new();
    file.sections.push(elf::Section {
        shdr: elf::types::SectionHeader {
            name: String::from(".llvm_stackmaps"),
            shtype: elf::types::SHT_PROGBITS,
            flags: elf::types::SHF_ALLOC,
            addr: 0,
            offset: 0,
            size: data.len() as u64,
            link: 0,
            info: 0,
            addralign: 8,
            entsize: 0,
        },
        data,
    });
    file
}

fn header(num_funcs: u32, num_consts: u32, num_recs: u32) -> Vec<u8> {
    let mut out = vec![3u8, 0, 0, 0];
    out.extend_from_slice(&num_funcs.to_ne_bytes());
    out.extend_from_slice(&num_consts.to_ne_bytes());
    out.extend_from_slice(&num_recs.to_ne_bytes());
    out
}

// A record without locations and without live-outs: 24 bytes.
fn empty_record(id: u64) -> Vec<u8> {
    let mut out = Vec::new();
    out.extend_from_slice(&id.to_ne_bytes());
    out.extend_from_slice(&[0u8; 16]);
    out
}

#[test]
fn a_record_iterator_goes_from_not_started_to_exhausted() {
    let mut data = header(0, 0, 2);
    data.extend_from_slice(&empty_record(1));
    data.extend_from_slice(&empty_record(2));
    let parser = StackMapParser::new(elf_with_stackmaps(data)).unwrap();
    let mut it = parser.iter_stackmaps();
    assert_eq!(it.state(), IterState::NotStarted);
    assert_eq!(it.next().unwrap().unwrap().id(), 1);
    assert_eq!(it.state(), IterState::InProgress);
    assert_eq!(it.next().unwrap().unwrap().id(), 2);
    assert_eq!(it.state(), IterState::Exhausted);
    assert!(it.next().is_none());
    assert_eq!(it.state(), IterState::Exhausted);
}

#[test]
fn a_record_iterator_fails_once() {
    let mut data = header(0, 0, 3);
    data.extend_from_slice(&empty_record(1));
    data.extend_from_slice(&empty_record(2)[..10]);
    let parser = StackMapParser::new(elf_with_stackmaps(data)).unwrap();
    let mut it = parser.iter_stackmaps();
    assert!(it.next().unwrap().is_ok());
    assert_eq!(it.state(), IterState::InProgress);
    assert!(it.next().unwrap().is_err());
    assert_eq!(it.state(), IterState::Failed);
    assert!(it.next().is_none());
    assert_eq!(it.state(), IterState::Failed);
}

#[test]
fn an_iterator_over_an_empty_table_is_exhausted_from_the_start() {
    let parser = StackMapParser::new(elf_with_stackmaps(header(0, 0, 0))).unwrap();
    let mut recs = parser.iter_stackmaps();
    assert_eq!(recs.state(), IterState::Exhausted);
    assert!(recs.next().is_none());
    assert_eq!(recs.state(), IterState::Exhausted);
    let mut funcs = parser.iter_functions();
    assert_eq!(funcs.state(), IterState::Exhausted);
    assert!(funcs.next().is_none());
    assert_eq!(funcs.position(), 16);
}

#[test]
fn a_function_iterator_goes_through_its_states() {
    let mut data = header(2, 0, 0);
    data.extend_from_slice(&[0u8; 48]);
    let parser = StackMapParser::new(elf_with_stackmaps(data)).unwrap();
    let mut it = parser.iter_functions();
    assert_eq!(it.state(), IterState::NotStarted);
    assert!(it.next().unwrap().is_ok());
    assert_eq!(it.state(), IterState::InProgress);
    assert!(it.next().unwrap().is_ok());
    assert_eq!(it.state(), IterState::Exhausted);

    let parser = StackMapParser::new(elf_with_stackmaps(header(2, 0, 0))).unwrap();
    let mut it = parser.iter_functions();
    assert_eq!(it.state(), IterState::NotStarted);
    assert!(it.next().unwrap().is_err());
    assert_eq!(it.state(), IterState::Failed);
    assert!(it.next().is_none());
}
