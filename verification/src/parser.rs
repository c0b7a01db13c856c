//! The parser of a stack map section and its two iterators.

use crate::decode::{decode_function, decode_record};
use crate::endian::{lemma_pair_zero, Endian};
use crate::errors::SMParserError;
use crate::format::{
    func_items, lemma_func_items_step, lemma_rec_end_aligned, lemma_rec_items_step, rec_items,
    spec_check_header, spec_func, spec_header, spec_rec, stackmaps_start, u16_at, Header,
    OFFS_STACK_SIZE_ENTRIES, SIZE_CONSTANT_ENTRY, SIZE_STACK_SIZE_ENTRY, STACKMAP_VERSION,
};
use crate::laws::lemma_rec_locations;
use crate::records::{SMFunc, SMRec, SMRecView};
use crate::section::stackmap_section;
use crate::util::{cursor_from_elf, ByteCursor};
use vstd::prelude::*;

verus! {

/// Where an iterator stands.
#[derive(Debug, Clone, Copy, PartialEq, Eq, Structural)]
pub enum IterState {
    /// Nothing was asked of the iterator yet; it has not looked at the section.
    NotStarted,
    /// At least one entry was handed out, and more are to come.
    InProgress,
    /// Every entry was handed out. The iterator hands out nothing more.
    Exhausted,
    /// An entry could not be decoded and the failure was handed out. The
    /// iterator hands out nothing more.
    Failed,
}

/// The state of an iterator that has handed out a failure or not, has so many
/// entries to go, and has looked at the section or not.
pub open spec fn iter_state(failed: bool, remaining: u32, started: bool) -> IterState {
    if failed {
        IterState::Failed
    } else if remaining == 0 {
        IterState::Exhausted
    } else if started {
        IterState::InProgress
    } else {
        IterState::NotStarted
    }
}

/// What an item of the record iterator holds.
pub open spec fn rec_item_view(item: Result<SMRec, SMParserError>) -> Result<
    SMRecView,
    SMParserError,
> {
    match item {
        Ok(rec) => Ok(rec@),
        Err(e) => Err(e),
    }
}

/// An iterator over stackmap record entries.
pub struct SMRecIterator<'a> {
    elf_file: &'a elf::File,
    // Lazily created so that creating the iterator doesn't need to return a
    // `Result`.
    cursor: Option<ByteCursor<'a>>,
    // Start position of the cursor.
    start_pos: u64,
    // How many records are still to be decoded.
    num_stackmaps: u32,
    // The byte order of the section.
    order: Endian,
    // Whether a failure was handed out.
    failed: bool,
}

impl<'a> SMRecIterator<'a> {
    #[verifier::type_invariant]
    spec fn inv(self) -> bool {
        self.cursor matches Some(c) ==> stackmap_section(*self.elf_file) == Some(c.bytes())
            && c.order() == self.order
    }

    /// The byte order in which the iterator reads the section.
    pub closed spec fn order(&self) -> Endian {
        self.order
    }

    /// The bytes of the section that the iterator walks, if the file has one.
    pub closed spec fn section(&self) -> Option<Seq<u8>> {
        stackmap_section(*self.elf_file)
    }

    /// Where the next record starts.
    pub closed spec fn spec_position(&self) -> u64 {
        match self.cursor {
            Some(c) => c.position(),
            None => self.start_pos,
        }
    }

    /// How many records are still to be decoded.
    pub closed spec fn remaining(&self) -> u32 {
        self.num_stackmaps
    }

    /// Whether the iterator has looked at the section.
    pub closed spec fn started(&self) -> bool {
        self.cursor is Some
    }

    /// Whether the iterator has handed out a failure.
    pub closed spec fn failed(&self) -> bool {
        self.failed
    }

    /// Where the iterator stands.
    pub open spec fn spec_state(&self) -> IterState {
        iter_state(self.failed(), self.remaining(), self.started())
    }

    /// What the iterator decodes when it is next asked: nothing, if every
    /// record was handed out or a failure was; else the record at its
    /// position and where the next one starts, or why there is no such record.
    pub open spec fn upcoming(&self) -> Option<Result<(SMRecView, int), SMParserError>> {
        if self.failed() || self.remaining() == 0 {
            None
        } else {
            match self.section() {
                Some(s) => Some(spec_rec(self.order(), s, self.position() as int)),
                None => Some(Err(SMParserError::SectionNotFound)),
            }
        }
    }

    /// The location count in the bytes of the record at the position of the
    /// iterator.
    pub open spec fn upcoming_locs(&self) -> u16 {
        u16_at(self.order(), self.section()->0, self.position() + 14)
    }

    /// What the iterator has still to hand out, first to last.
    pub open spec fn pending(&self) -> Seq<Result<SMRecView, SMParserError>> {
        if self.failed() || self.remaining() == 0 {
            Seq::empty()
        } else {
            match self.section() {
                Some(s) => rec_items(
                    self.order(),
                    s,
                    self.position() as int,
                    self.remaining() as nat,
                ),
                None => seq![Err(SMParserError::SectionNotFound)],
            }
        }
    }

    /// Where the next record starts: behind the last one that was decoded.
    #[verifier::when_used_as_spec(spec_position)]
    pub fn position(&self) -> (p: u64)
        ensures
            p == self.position(),
    {
        match self.cursor {
            Some(c) => c.position(),
            None => self.start_pos,
        }
    }

    /// Where the iterator stands.
    #[verifier::when_used_as_spec(spec_state)]
    pub fn state(&self) -> (state: IterState)
        ensures
            state == self.state(),
    {
        if self.failed {
            IterState::Failed
        } else if self.num_stackmaps == 0 {
            IterState::Exhausted
        } else if self.cursor.is_some() {
            IterState::InProgress
        } else {
            IterState::NotStarted
        }
    }

    /// Decodes the next record.
    ///
    /// Returns `None` once every record was handed out. A record that cannot
    /// be decoded is handed out as `Some(Err(..))`, and nothing after it.
    /// Behind a record that was decoded the iterator stands at a multiple of
    /// eight, and the record holds as many locations as its count says.
    pub fn next(&mut self) -> (r: Option<Result<SMRec, SMParserError>>)
        ensures
            final(self).section() == old(self).section(),
            final(self).order() == old(self).order(),
            match old(self).upcoming() {
                None => r is None && *final(self) == *old(self),
                Some(Err(e)) => {
                    &&& r == Some(Err::<SMRec, SMParserError>(e))
                    &&& final(self).failed()
                    &&& final(self).position() == old(self).position()
                    &&& final(self).remaining() == old(self).remaining()
                    &&& final(self).started() == old(self).started()
                },
                Some(Ok((rec, next))) => {
                    &&& r matches Some(Ok(got)) && got@ == rec
                    &&& rec.locs.len() == old(self).upcoming_locs()
                    &&& final(self).position() == next
                    &&& final(self).position() % 8 == 0
                    &&& final(self).remaining() == old(self).remaining() - 1
                    &&& final(self).started()
                    &&& !final(self).failed()
                },
            },
            r is None <==> old(self).pending().len() == 0,
            r matches Some(item) ==> rec_item_view(item) == old(self).pending()[0]
                && final(self).pending() == old(self).pending().drop_first(),
    {
        proof {
            use_type_invariant(&*self);
            if let Some(s) = self.section() {
                if self.remaining() > 0 {
                    let p = self.position() as int;
                    lemma_rec_items_step(self.order(), s, p, self.remaining() as nat);
                    lemma_rec_end_aligned(self.order(), s, p);
                    if spec_rec(self.order(), s, p) is Ok {
                        lemma_rec_locations(self.order(), s, p);
                    }
                }
            }
        }
        if self.failed || self.num_stackmaps == 0 {
            return None;
        }
        let mut cursor = match self.cursor {
            Some(c) => c,
            None => match cursor_from_elf(self.elf_file, self.start_pos, self.order) {
                Ok(c) => c,
                Err(e) => {
                    self.failed = true;
                    return Some(Err(e));
                },
            },
        };
        match decode_record(&mut cursor) {
            Ok(rec) => {
                self.cursor = Some(cursor);
                self.num_stackmaps = self.num_stackmaps - 1;
                Some(Ok(rec))
            },
            Err(e) => {
                self.failed = true;
                Some(Err(e))
            },
        }
    }
}

/// An iterator over function entries.
pub struct SMFuncIterator<'a> {
    elf_file: &'a elf::File,
    // Lazily created so that creating the iterator doesn't need to return a
    // `Result`.
    cursor: Option<ByteCursor<'a>>,
    // Start position of the cursor.
    start_pos: u64,
    // How many entries are still to be decoded.
    num_funcs: u32,
    // The byte order of the section.
    order: Endian,
    // Whether a failure was handed out.
    failed: bool,
}

impl<'a> SMFuncIterator<'a> {
    #[verifier::type_invariant]
    spec fn inv(self) -> bool {
        self.cursor matches Some(c) ==> stackmap_section(*self.elf_file) == Some(c.bytes())
            && c.order() == self.order
    }

    /// The byte order in which the iterator reads the section.
    pub closed spec fn order(&self) -> Endian {
        self.order
    }

    /// The bytes of the section that the iterator walks, if the file has one.
    pub closed spec fn section(&self) -> Option<Seq<u8>> {
        stackmap_section(*self.elf_file)
    }

    /// Where the next entry starts.
    pub closed spec fn spec_position(&self) -> u64 {
        match self.cursor {
            Some(c) => c.position(),
            None => self.start_pos,
        }
    }

    /// How many entries are still to be decoded.
    pub closed spec fn remaining(&self) -> u32 {
        self.num_funcs
    }

    /// Whether the iterator has looked at the section.
    pub closed spec fn started(&self) -> bool {
        self.cursor is Some
    }

    /// Whether the iterator has handed out a failure.
    pub closed spec fn failed(&self) -> bool {
        self.failed
    }

    /// Where the iterator stands.
    pub open spec fn spec_state(&self) -> IterState {
        iter_state(self.failed(), self.remaining(), self.started())
    }

    /// What the iterator decodes when it is next asked: nothing, if every
    /// entry was handed out or a failure was; else the entry at its position
    /// and where the next one starts, or why there is no such entry.
    pub open spec fn upcoming(&self) -> Option<Result<(SMFunc, int), SMParserError>> {
        if self.failed() || self.remaining() == 0 {
            None
        } else {
            match self.section() {
                Some(s) => Some(spec_func(self.order(), s, self.position() as int)),
                None => Some(Err(SMParserError::SectionNotFound)),
            }
        }
    }

    /// What the iterator has still to hand out, first to last.
    pub open spec fn pending(&self) -> Seq<Result<SMFunc, SMParserError>> {
        if self.failed() || self.remaining() == 0 {
            Seq::empty()
        } else {
            match self.section() {
                Some(s) => func_items(
                    self.order(),
                    s,
                    self.position() as int,
                    self.remaining() as nat,
                ),
                None => seq![Err(SMParserError::SectionNotFound)],
            }
        }
    }

    /// Where the next entry starts: behind the last one that was decoded.
    #[verifier::when_used_as_spec(spec_position)]
    pub fn position(&self) -> (p: u64)
        ensures
            p == self.position(),
    {
        match self.cursor {
            Some(c) => c.position(),
            None => self.start_pos,
        }
    }

    /// Where the iterator stands.
    #[verifier::when_used_as_spec(spec_state)]
    pub fn state(&self) -> (state: IterState)
        ensures
            state == self.state(),
    {
        if self.failed {
            IterState::Failed
        } else if self.num_funcs == 0 {
            IterState::Exhausted
        } else if self.cursor.is_some() {
            IterState::InProgress
        } else {
            IterState::NotStarted
        }
    }

    /// Decodes the next entry.
    ///
    /// Returns `None` once every entry was handed out. An entry that cannot
    /// be decoded is handed out as `Some(Err(..))`, and nothing after it.
    pub fn next(&mut self) -> (r: Option<Result<SMFunc, SMParserError>>)
        ensures
            final(self).section() == old(self).section(),
            final(self).order() == old(self).order(),
            match old(self).upcoming() {
                None => r is None && *final(self) == *old(self),
                Some(Err(e)) => {
                    &&& r == Some(Err::<SMFunc, SMParserError>(e))
                    &&& final(self).failed()
                    &&& final(self).position() == old(self).position()
                    &&& final(self).remaining() == old(self).remaining()
                    &&& final(self).started() == old(self).started()
                },
                Some(Ok((func, next))) => {
                    &&& r == Some(Ok::<SMFunc, SMParserError>(func))
                    &&& final(self).position() == next
                    &&& final(self).remaining() == old(self).remaining() - 1
                    &&& final(self).started()
                    &&& !final(self).failed()
                },
            },
            r is None <==> old(self).pending().len() == 0,
            r matches Some(item) ==> item == old(self).pending()[0] && final(self).pending()
                == old(self).pending().drop_first(),
    {
        proof {
            use_type_invariant(&*self);
            if let Some(s) = self.section() {
                if self.remaining() > 0 {
                    let p = self.position() as int;
                    lemma_func_items_step(self.order(), s, p, self.remaining() as nat);
                }
            }
        }
        if self.failed || self.num_funcs == 0 {
            return None;
        }
        let mut cursor = match self.cursor {
            Some(c) => c,
            None => match cursor_from_elf(self.elf_file, self.start_pos, self.order) {
                Ok(c) => c,
                Err(e) => {
                    self.failed = true;
                    return Some(Err(e));
                },
            },
        };
        match decode_function(&mut cursor) {
            Ok(func) => {
                self.cursor = Some(cursor);
                self.num_funcs = self.num_funcs - 1;
                Some(Ok(func))
            },
            Err(e) => {
                self.failed = true;
                Some(Err(e))
            },
        }
    }
}

/// Top-level struct through which the user interfaces with the stackmap section.
pub struct StackMapParser {
    elf_file: elf::File,
    order: Endian,
    num_funcs: u32,
    num_consts: u32,
    num_stackmaps: u32,
}

impl StackMapParser {
    #[verifier::type_invariant]
    spec fn inv(self) -> bool {
        stackmap_section(self.elf_file) matches Some(s) && spec_header(self.order, s) == Ok::<
            Header,
            SMParserError,
        >(self.header())
    }

    /// The ELF file that the parser reads.
    pub closed spec fn file(&self) -> elf::File {
        self.elf_file
    }

    /// The byte order in which the parser reads the section.
    pub closed spec fn spec_order(&self) -> Endian {
        self.order
    }

    /// The table sizes that the parser found in the header of the section.
    pub closed spec fn header(&self) -> Header {
        Header {
            num_funcs: self.num_funcs,
            num_consts: self.num_consts,
            num_stackmaps: self.num_stackmaps,
        }
    }

    /// The bytes of the section.
    pub open spec fn section(&self) -> Seq<u8> {
        stackmap_section(self.file())->0
    }

    /// The number of stack map records that the header announces.
    pub open spec fn spec_num_stackmaps(&self) -> u32 {
        self.header().num_stackmaps
    }

    /// The number of function entries that the header announces.
    pub open spec fn spec_num_funcs(&self) -> u32 {
        self.header().num_funcs
    }

    /// Where the stack map records start.
    pub open spec fn records_start(&self) -> int {
        stackmaps_start(self.header().num_funcs, self.header().num_consts)
    }

    /// Whether `r` is what comes of parsing `elf_file` in the byte order
    /// `order`: a failure if the file has no stack map section or the first
    /// sixteen bytes of the section are not a header of the supported
    /// version, and else a parser that holds the file, the byte order and the
    /// table sizes of the header.
    pub open spec fn parsed(
        r: Result<StackMapParser, SMParserError>,
        elf_file: elf::File,
        order: Endian,
    ) -> bool {
        match stackmap_section(elf_file) {
            None => r matches Err(e) && e == SMParserError::SectionNotFound,
            Some(s) => match spec_header(order, s) {
                Err(bad) => r matches Err(e) && e == bad,
                Ok(header) => r matches Ok(parser) && parser.file() == elf_file && parser.order()
                    == order && parser.header() == header,
            },
        }
    }

    /// Finds the stack map section of `elf_file` and validates its header,
    /// reading the section in the byte order of the target that the crate is
    /// built for.
    ///
    /// The tables behind the header are not looked at.
    pub fn new(elf_file: elf::File) -> (r: Result<Self, SMParserError>)
        ensures
            Self::parsed(r, elf_file, Endian::Little) || Self::parsed(r, elf_file, Endian::Big),
    {
        Self::with_order(elf_file, Endian::native())
    }

    /// Finds the stack map section of `elf_file` and validates its header,
    /// reading the section in the byte order `order`.
    ///
    /// The tables behind the header are not looked at.
    pub fn with_order(elf_file: elf::File, order: Endian) -> (r: Result<Self, SMParserError>)
        ensures
            Self::parsed(r, elf_file, order),
    {
        match Self::read_header(&elf_file, order) {
            Ok(header) => Ok(
                Self {
                    elf_file,
                    order,
                    num_funcs: header.num_funcs,
                    num_consts: header.num_consts,
                    num_stackmaps: header.num_stackmaps,
                },
            ),
            Err(e) => Err(e),
        }
    }

    /// Reads the header of the stack map section of `elf_file`.
    fn read_header(elf_file: &elf::File, order: Endian) -> (r: Result<Header, SMParserError>)
        ensures
            r == match stackmap_section(*elf_file) {
                None => Err::<Header, SMParserError>(SMParserError::SectionNotFound),
                Some(s) => spec_header(order, s),
            },
    {
        let mut cursor = cursor_from_elf(elf_file, 0, order)?;
        Self::check_header(&mut cursor)?;
        // Read in table sizes.
        // uint32: NumFunctions
        let num_funcs = cursor.read_u32()?;
        // uint32: NumConstants
        let num_consts = cursor.read_u32()?;
        // uint32: NumRecords
        let num_stackmaps = cursor.read_u32()?;
        Ok(Header { num_funcs, num_consts, num_stackmaps })
    }

    /// Returns the number of stackmap record entries in the stackmap section.
    #[verifier::when_used_as_spec(spec_num_stackmaps)]
    pub fn num_stackmaps(&self) -> (n: u32)
        ensures
            n == self.num_stackmaps(),
    {
        self.num_stackmaps
    }

    /// Returns the number of function entries in the stackmap section.
    #[verifier::when_used_as_spec(spec_num_funcs)]
    pub fn num_funcs(&self) -> (n: u32)
        ensures
            n == self.num_funcs(),
    {
        self.num_funcs
    }

    /// Returns the byte order in which the section is read.
    #[verifier::when_used_as_spec(spec_order)]
    pub fn order(&self) -> (order: Endian)
        ensures
            order == self.order(),
    {
        self.order
    }

    /// Check the stackmap header looks sane.
    fn check_header(cursor: &mut ByteCursor) -> (r: Result<(), SMParserError>)
        requires
            old(cursor).position() == 0,
        ensures
            old(cursor).moved_to(*final(cursor)),
            r == spec_check_header(old(cursor).order(), old(cursor).bytes()),
            r is Ok ==> final(cursor).position() == 4,
    {
        // uint8: Stack Map Version
        let version = cursor.read_u8()?;
        if version != STACKMAP_VERSION {
            return Err(
                SMParserError::UnsupportedVersion { expected: STACKMAP_VERSION, found: version },
            );
        }
        // uint8: Reserved (expected to be 0)
        let b1 = cursor.read_u8()?;
        if b1 != 0 {
            return Err(SMParserError::MalformedHeader { value: b1 as u16 });
        }
        // uint16: Reserved (expected to be 0)
        let b2_3 = cursor.read_u16()?;
        proof {
            lemma_pair_zero(cursor.order(), cursor.bytes().subrange(2, 4));
        }
        if b2_3 != 0 {
            return Err(SMParserError::MalformedHeader { value: b2_3 });
        }
        Ok(())
    }

    /// Make an iterator over the stackmap record entries in the stackmap section.
    ///
    /// Once the iterator has handed out an error it hands out nothing more.
    pub fn iter_stackmaps(&self) -> (it: SMRecIterator<'_>)
        ensures
            spec_header(self.order(), self.section()) == Ok::<Header, SMParserError>(self.header()),
            it.section() == Some(self.section()),
            it.order() == self.order(),
            it.position() == self.records_start(),
            it.remaining() == self.num_stackmaps(),
            !it.started(),
            !it.failed(),
            it.pending() == rec_items(
                self.order(),
                self.section(),
                self.records_start(),
                self.num_stackmaps() as nat,
            ),
    {
        proof {
            use_type_invariant(self);
            assert(self.num_funcs * SIZE_STACK_SIZE_ENTRY == self.num_funcs * 24);
            assert(self.num_consts * SIZE_CONSTANT_ENTRY == self.num_consts * 8);
        }
        let start_pos = OFFS_STACK_SIZE_ENTRIES + self.num_funcs as u64
            * SIZE_STACK_SIZE_ENTRY as u64 + self.num_consts as u64 * SIZE_CONSTANT_ENTRY as u64;
        SMRecIterator {
            elf_file: &self.elf_file,
            cursor: None,
            start_pos,
            num_stackmaps: self.num_stackmaps,
            order: self.order,
            failed: false,
        }
    }

    /// Make an iterator over functions defined in the stackmap section.
    ///
    /// Once the iterator has handed out an error it hands out nothing more.
    pub fn iter_functions(&self) -> (it: SMFuncIterator<'_>)
        ensures
            spec_header(self.order(), self.section()) == Ok::<Header, SMParserError>(self.header()),
            it.section() == Some(self.section()),
            it.order() == self.order(),
            it.position() == OFFS_STACK_SIZE_ENTRIES,
            it.remaining() == self.num_funcs(),
            !it.started(),
            !it.failed(),
            it.pending() == func_items(
                self.order(),
                self.section(),
                OFFS_STACK_SIZE_ENTRIES as int,
                self.num_funcs() as nat,
            ),
    {
        proof {
            use_type_invariant(self);
        }
        SMFuncIterator {
            elf_file: &self.elf_file,
            cursor: None,
            start_pos: OFFS_STACK_SIZE_ENTRIES,
            num_funcs: self.num_funcs,
            order: self.order,
            failed: false,
        }
    }
}

} // verus!
