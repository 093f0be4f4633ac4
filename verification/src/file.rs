//! The container file facade: header validation and entry to the section
//! table.

use vstd::prelude::*;
use vstd::string::StringSliceAdditionalSpecFns;
use crate::endian::{be_u32, read_u32_be};
use crate::error::Error;
use crate::pef::{
    PEFContainerHeader, PEFSectionHeader, spec_container_header, CONTAINER_HEADER_SIZE,
    SECTION_HEADER_SIZE, TAG1, ARCHITECTURE_PPC, ARCHITECTURE_68K,
};
use crate::pef::{SectionKind, PEFLoaderInfoHeader, LOADER_INFO_HEADER_SIZE};
use crate::section::{SectionTable, SectionIndex, spec_entry, spec_table_consistent,
    spec_name_matches, spec_data, spec_data_in_bounds, spec_cstr, PefSectionIterator,
    PefSegmentIterator, PefComdatIterator};
use crate::loader::{ExportTable, EntryPoint, entry_location, parse_imported_libraries,
    parse_imported_symbols, parse_export_table, parse_relocation_headers,
    RelocationHeader, SymbolClass};

verus! {

broadcast use vstd::slice::group_slice_axioms;

/// The architecture a container was generated for.
#[derive(Debug, Clone, Copy, PartialEq, Eq, Structural)]
pub enum Architecture {
    /// The PowerPC implementation.
    PowerPc,
    /// The 68K implementation.
    M68k,
    /// Any other architecture tag.
    Unknown,
}

/// The object-file kind reported by the shared object-view taxonomy. This
/// format does not distinguish kinds, so the facade always reports
/// `Unknown`.
#[derive(Debug, Clone, Copy, PartialEq, Eq, Structural)]
pub enum ObjectKind {
    /// The kind could not be determined.
    Unknown,
    /// A relocatable object.
    Relocatable,
    /// An executable.
    Executable,
    /// A dynamic library.
    Dynamic,
}

/// The architecture named by a raw architecture tag.
pub open spec fn spec_architecture(tag: u32) -> Architecture {
    if tag == ARCHITECTURE_PPC {
        Architecture::PowerPc
    } else if tag == ARCHITECTURE_68K {
        Architecture::M68k
    } else {
        Architecture::Unknown
    }
}

/// The outcome of reading the container header at offset zero of `b`: too
/// short if there is no room even for the magic, invalid magic if the first
/// four bytes are not the required tag, too short if the rest of the header
/// does not fit, and the decoded header otherwise.
pub open spec fn spec_parse_container_header(b: Seq<u8>) -> Result<PEFContainerHeader, Error> {
    if b.len() < 4 {
        Err(Error::TooShort)
    } else if be_u32(b, 0) != TAG1 {
        Err(Error::InvalidMagic)
    } else if b.len() < CONTAINER_HEADER_SIZE {
        Err(Error::TooShort)
    } else {
        Ok(spec_container_header(b))
    }
}

impl PEFContainerHeader {
    /// Read the container header from the start of the file data.
    ///
    /// Checks that the `tag1` field holds the required magic value; the
    /// second tag and the format version are exposed but not validated.
    /// The header-level invariant that `inst_section_count` does not exceed
    /// `section_count` is deliberately validated at [`SectionTable::parse`],
    /// not here: a malformed count fails the accessor that needs the section
    /// table, while the raw header stays inspectable.
    pub fn parse(data: &[u8]) -> (r: Result<PEFContainerHeader, Error>)
        ensures
            r == spec_parse_container_header(data@),
    {
        if data.len() < 4 {
            return Err(Error::TooShort);
        }
        if read_u32_be(data, 0) != TAG1 {
            return Err(Error::InvalidMagic);
        }
        if data.len() < CONTAINER_HEADER_SIZE as usize {
            return Err(Error::TooShort);
        }
        Ok(PEFContainerHeader {
            tag1: read_u32_be(data, 0),
            tag2: read_u32_be(data, 4),
            architecture: read_u32_be(data, 8),
            format_version: read_u32_be(data, 12),
            date_time_stamp: read_u32_be(data, 16),
            old_def_version: read_u32_be(data, 20),
            old_imp_version: read_u32_be(data, 24),
            current_version: read_u32_be(data, 28),
            section_count: crate::endian::read_u16_be(data, 32),
            inst_section_count: crate::endian::read_u16_be(data, 34),
            reserved_a: read_u32_be(data, 36),
        })
    }
}

/// A container image file: the validated header together with the file
/// bytes, which every derived view borrows.
#[derive(Debug, Clone, Copy)]
pub struct PefFile<'data> {
    header: PEFContainerHeader,
    data: &'data [u8],
}

impl<'data> PefFile<'data> {
    /// The validated container header.
    pub closed spec fn spec_header(self) -> PEFContainerHeader {
        self.header
    }

    /// The underlying file bytes.
    pub closed spec fn spec_data(self) -> Seq<u8> {
        self.data@
    }

    /// The offset of the section name table: the bytes that follow the last
    /// section header.
    pub open spec fn spec_name_table_offset(self) -> int {
        CONTAINER_HEADER_SIZE + SECTION_HEADER_SIZE * self.spec_header().section_count
    }

    /// Whether some entry of the section table is a loader section.
    pub open spec fn spec_has_loader(self) -> bool {
        exists|i: int| 0 <= i < self.spec_header().section_count as int
            && (#[trigger] spec_entry(self.spec_data(), CONTAINER_HEADER_SIZE as int,
                i)).section_kind == SectionKind::Loader
    }

    /// The 0-based position of the loader section in the section table;
    /// meaningful when one exists, and unique in a consistent table.
    pub open spec fn spec_loader_index(self) -> int {
        choose|i: int| 0 <= i < self.spec_header().section_count as int
            && (#[trigger] spec_entry(self.spec_data(), CONTAINER_HEADER_SIZE as int,
                i)).section_kind == SectionKind::Loader
    }

    /// The loader section's header.
    pub open spec fn spec_loader_section(self) -> PEFSectionHeader {
        spec_entry(self.spec_data(), CONTAINER_HEADER_SIZE as int, self.spec_loader_index())
    }

    /// The loader section's contents.
    pub open spec fn spec_loader_data(self) -> Seq<u8> {
        crate::section::spec_data(self.spec_loader_section(), self.spec_data())
    }

    /// The loader info header of the loader section's contents.
    pub open spec fn spec_loader_info(self) -> PEFLoaderInfoHeader {
        crate::pef::spec_loader_info_header(self.spec_loader_data())
    }

    /// Whether the whole section table lies inside the buffer.
    pub open spec fn spec_table_in_bounds(self) -> bool {
        CONTAINER_HEADER_SIZE + SECTION_HEADER_SIZE * self.spec_header().section_count
            <= self.spec_data().len()
    }

    /// The outcome of parsing the section table: the error it fails with,
    /// or `None` when it succeeds.
    pub open spec fn spec_table_err(self) -> Option<Error> {
        if !self.spec_table_in_bounds() {
            Some(Error::OutOfBounds)
        } else if !spec_table_consistent(self.spec_data(), CONTAINER_HEADER_SIZE as int,
            self.spec_header()) {
            Some(Error::InconsistentSectionTable)
        } else {
            None
        }
    }

    /// The outcome of reaching the loader section's contents: a section
    /// table error, or out of bounds when the loader section's file range
    /// reads past the buffer.
    pub open spec fn spec_loader_data_err(self) -> Option<Error> {
        if self.spec_table_err() is Some {
            self.spec_table_err()
        } else if self.spec_has_loader() && !crate::section::spec_data_in_bounds(
            self.spec_loader_section(), self.spec_data()) {
            Some(Error::OutOfBounds)
        } else {
            None
        }
    }

    /// The outcome of reaching the loader info header: a loader-data error,
    /// or too short when the loader section cannot hold the header.
    pub open spec fn spec_loader_info_err(self) -> Option<Error> {
        if self.spec_loader_data_err() is Some {
            self.spec_loader_data_err()
        } else if self.spec_has_loader()
            && self.spec_loader_data().len() < LOADER_INFO_HEADER_SIZE {
            Some(Error::TooShort)
        } else {
            None
        }
    }

    /// The outcome of assembling the import list: the loader chain's error,
    /// then the library records' bounds and tiling, the symbol records'
    /// bounds and classes, and finally the names' resolution.
    pub open spec fn spec_imports_err(self) -> Option<Error> {
        if self.spec_loader_info_err() is Some {
            self.spec_loader_info_err()
        } else if !self.spec_has_loader() {
            None
        } else if !crate::loader::spec_libs_fit(self.spec_loader_data(),
            self.spec_loader_info()) {
            Some(Error::OutOfBounds)
        } else if !crate::loader::spec_raw_tiling(self.spec_loader_data(),
            self.spec_loader_info()) {
            Some(Error::InconsistentImportTable)
        } else if !crate::loader::spec_syms_fit(self.spec_loader_data(),
            self.spec_loader_info()) {
            Some(Error::OutOfBounds)
        } else if !crate::loader::spec_syms_decodable(self.spec_loader_data(),
            self.spec_loader_info()) {
            Some(Error::InconsistentImportTable)
        } else if !crate::loader::spec_import_names_ok(self.spec_loader_data(),
            self.spec_loader_info()) {
            Some(Error::OutOfBounds)
        } else {
            None
        }
    }

    /// The resolved address of a (section, offset) location: the section's
    /// preferred address plus the offset when the 1-based index is valid,
    /// the bare offset otherwise.
    pub open spec fn spec_resolved_address(self, sec: i32, off: u32) -> int {
        if 1 <= sec <= self.spec_header().section_count {
            spec_entry(self.spec_data(), CONTAINER_HEADER_SIZE as int,
                sec - 1).default_address + off
        } else {
            off as int
        }
    }

    /// The resolved defining section of a (section, offset) location.
    pub open spec fn spec_resolved_section(self, sec: i32) -> SymbolSection {
        if 1 <= sec <= self.spec_header().section_count {
            SymbolSection::Section(SectionIndex(sec as usize))
        } else {
            SymbolSection::Undefined
        }
    }

    /// Parse the raw file data.
    ///
    /// Succeeds exactly when the container header parses (see
    /// [`spec_parse_container_header`]).
    pub fn parse(data: &'data [u8]) -> (r: Result<PefFile<'data>, Error>)
        ensures
            match r {
                Ok(f) => {
                    &&& spec_parse_container_header(data@) is Ok
                    &&& f.spec_header() == spec_parse_container_header(data@)->Ok_0
                    &&& f.spec_data() == data@
                },
                Err(e) => spec_parse_container_header(data@) == Err::<PEFContainerHeader, Error>(e),
            },
    {
        let header = PEFContainerHeader::parse(data)?;
        Ok(PefFile { header, data })
    }

    /// The validated container header.
    pub fn header(&self) -> (r: &PEFContainerHeader)
        ensures
            *r == self.spec_header(),
    {
        &self.header
    }

    /// The raw file bytes.
    pub fn data(&self) -> (r: &'data [u8])
        ensures
            r@ == self.spec_data(),
    {
        self.data
    }

    /// The architecture named by the header's architecture tag.
    pub fn architecture(&self) -> (r: Architecture)
        ensures
            r == spec_architecture(self.spec_header().architecture),
    {
        if self.header.architecture == ARCHITECTURE_PPC {
            Architecture::PowerPc
        } else if self.header.architecture == ARCHITECTURE_68K {
            Architecture::M68k
        } else {
            Architecture::Unknown
        }
    }

    /// Every multi-byte field of this format is big-endian.
    pub fn is_little_endian(&self) -> (r: bool)
        ensures
            !r,
    {
        false
    }

    /// This format is 32-bit only.
    pub fn is_64(&self) -> (r: bool)
        ensures
            !r,
    {
        false
    }

    /// The object kind in the shared taxonomy; this format does not record
    /// one.
    pub fn kind(&self) -> (r: ObjectKind)
        ensures
            r == ObjectKind::Unknown,
    {
        ObjectKind::Unknown
    }

    /// Parse the section table that follows the container header.
    pub fn section_table(&self) -> (r: Result<SectionTable, Error>)
        ensures
            match r {
                Ok(t) => {
                    &&& t.wf()
                    &&& spec_table_consistent(self.spec_data(), CONTAINER_HEADER_SIZE as int,
                        self.spec_header())
                    &&& CONTAINER_HEADER_SIZE + SECTION_HEADER_SIZE
                        * self.spec_header().section_count <= self.spec_data().len()
                    &&& t@.len() == self.spec_header().section_count
                    &&& forall|i: int| 0 <= i < self.spec_header().section_count as int ==>
                        t@[i] == #[trigger] spec_entry(self.spec_data(), CONTAINER_HEADER_SIZE as int, i)
                    &&& t.spec_inst_count() == self.spec_header().inst_section_count
                },
                Err(Error::OutOfBounds) => CONTAINER_HEADER_SIZE + SECTION_HEADER_SIZE
                    * self.spec_header().section_count > self.spec_data().len(),
                Err(Error::InconsistentSectionTable) => {
                    &&& CONTAINER_HEADER_SIZE + SECTION_HEADER_SIZE
                        * self.spec_header().section_count <= self.spec_data().len()
                    &&& !spec_table_consistent(self.spec_data(), CONTAINER_HEADER_SIZE as int,
                        self.spec_header())
                },
                Err(_) => false,
            },
    {
        SectionTable::parse(&self.header, self.data, CONTAINER_HEADER_SIZE as usize)
    }

    /// Return the section header at the given 1-based index.
    pub fn section_by_index(&self, index: SectionIndex) -> (r: Result<PEFSectionHeader, Error>)
        ensures
            match r {
                Ok(h) => {
                    &&& self.spec_table_err() is None
                    &&& 1 <= index.0 <= self.spec_header().section_count
                    &&& h == spec_entry(self.spec_data(), CONTAINER_HEADER_SIZE as int,
                        index.0 - 1)
                },
                Err(e) => if e == Error::InvalidIndex {
                    self.spec_table_err() is None
                        && !(1 <= index.0 <= self.spec_header().section_count)
                } else {
                    self.spec_table_err() == Some(e)
                },
            },
    {
        let table = self.section_table()?;
        table.section(index)
    }

    /// The section name table: the bytes that follow the last section
    /// header, holding the sections' null-terminated names.
    pub fn name_table(&self) -> (r: Result<&'data [u8], Error>)
        ensures
            match r {
                Ok(s) => {
                    &&& self.spec_name_table_offset() <= self.spec_data().len()
                    &&& s@ == self.spec_data().skip(self.spec_name_table_offset())
                },
                Err(Error::OutOfBounds) => self.spec_name_table_offset() > self.spec_data().len(),
                Err(_) => false,
            },
    {
        let count = self.header.section_count as usize;
        proof {
            assert(CONTAINER_HEADER_SIZE as usize == 40 && SECTION_HEADER_SIZE as usize == 28);
            assert((SECTION_HEADER_SIZE as usize) * count <= 28 * 0xFFFF) by (nonlinear_arith)
                requires count <= 0xFFFF;
        }
        let end = (CONTAINER_HEADER_SIZE as usize) + (SECTION_HEADER_SIZE as usize) * count;
        if end > self.data.len() {
            return Err(Error::OutOfBounds);
        }
        let s = vstd::slice::slice_subrange(self.data, end, self.data.len());
        proof {
            assert(s@ =~= self.spec_data().skip(self.spec_name_table_offset()));
        }
        Ok(s)
    }

    /// Return the first section whose name, resolved through the section
    /// name table, equals `name`, with its 1-based index.
    pub fn section_by_name_bytes(&self, name: &[u8]) -> (r: Result<
        Option<(SectionIndex, PEFSectionHeader)>, Error>)
        ensures
            match r {
                Ok(Some(p)) => {
                    &&& self.spec_table_err() is None
                    &&& 1 <= p.0.0 <= self.spec_header().section_count
                    &&& p.1 == spec_entry(self.spec_data(), CONTAINER_HEADER_SIZE as int, p.0.0 - 1)
                    &&& spec_name_matches(p.1,
                        self.spec_data().skip(self.spec_name_table_offset()), name@)
                    &&& forall|j: int| 0 <= j < p.0.0 - 1 ==>
                        !spec_name_matches(
                            #[trigger] spec_entry(self.spec_data(), CONTAINER_HEADER_SIZE as int,
                                j),
                            self.spec_data().skip(self.spec_name_table_offset()), name@)
                },
                Ok(None) => self.spec_table_err() is None && forall|j: int|
                    0 <= j < self.spec_header().section_count as int ==>
                        !spec_name_matches(
                            #[trigger] spec_entry(self.spec_data(), CONTAINER_HEADER_SIZE as int, j),
                            self.spec_data().skip(self.spec_name_table_offset()), name@),
                Err(e) => self.spec_table_err() == Some(e),
            },
    {
        let table = self.section_table()?;
        let strings = self.name_table()?;
        Ok(table.section_by_name(strings, name))
    }
}


/// A symbol kind in the shared object-view taxonomy.
#[derive(Debug, Clone, Copy, PartialEq, Eq, Structural)]
pub enum SymbolKind {
    /// The kind could not be determined.
    Unknown,
    /// Executable code.
    Text,
    /// Data.
    Data,
}

/// A symbol scope in the shared object-view taxonomy.
#[derive(Debug, Clone, Copy, PartialEq, Eq, Structural)]
pub enum SymbolScope {
    /// The scope could not be determined.
    Unknown,
    /// Visible within one compilation unit only.
    Compilation,
    /// Visible within the image at link time.
    Linkage,
    /// Visible to other images.
    Dynamic,
}

/// The section a symbol is defined in, in the shared taxonomy.
#[derive(Debug, Clone, Copy, PartialEq, Eq, Structural)]
pub enum SymbolSection {
    /// The defining section could not be determined.
    Unknown,
    /// The symbol is undefined (imported, with no defining section here).
    Undefined,
    /// The symbol has an absolute value.
    Absolute,
    /// The symbol is a common data declaration.
    Common,
    /// The symbol is defined in the section with this 1-based index.
    Section(SectionIndex),
}

/// A 0-based index of a symbol in a symbol table.
#[derive(Debug, Clone, Copy, PartialEq, Eq, Structural)]
pub struct SymbolIndex(pub usize);

/// The resolved data of one symbol in the facade's symbol table.
#[derive(Debug, Clone)]
pub struct PefSymbolData {
    /// The symbol's name.
    pub name: Vec<u8>,
    /// The symbol's resolved address.
    pub address: u64,
    /// The symbol's size; this format records none, so always zero.
    pub size: u64,
    /// The symbol's kind in the shared taxonomy.
    pub kind: SymbolKind,
    /// The section the symbol is defined in.
    pub section: SymbolSection,
    /// The symbol's scope in the shared taxonomy.
    pub scope: SymbolScope,
}

/// The facade's symbol table: the resolved exports of the container plus
/// synthesized entries for the main, initialization and termination entry
/// points when present.
#[derive(Debug, Clone)]
pub struct PefSymbolTable {
    /// The resolved symbols.
    pub symbols: Vec<PefSymbolData>,
}

/// A symbol of a container, with its index in the symbol table.
#[derive(Debug, Clone, Copy)]
pub struct PefSymbol<'table> {
    /// The symbol's 0-based index.
    pub index: SymbolIndex,
    /// The symbol's resolved data.
    pub symbol: &'table PefSymbolData,
}

/// An iterator for the symbols of a symbol table.
#[derive(Debug, Clone)]
pub struct PefSymbolIterator<'table> {
    /// The table whose symbols are iterated.
    pub table: &'table PefSymbolTable,
    /// The position of the next symbol to yield.
    pub next: usize,
}

impl PefSymbolTable {
    /// The number of symbols.
    pub fn len(&self) -> (r: usize)
        ensures
            r == self.symbols@.len(),
    {
        self.symbols.len()
    }

    /// Iterate over the symbols.
    pub fn symbols(&self) -> (r: PefSymbolIterator<'_>)
        ensures
            r.table == self,
            r.next == 0,
    {
        PefSymbolIterator { table: self, next: 0 }
    }

    /// Return the symbol at the given 0-based index.
    pub fn symbol_by_index(&self, index: SymbolIndex) -> (r: Result<PefSymbol<'_>, Error>)
        ensures
            match r {
                Ok(s) => index.0 < self.symbols@.len() && s.index == index
                    && *s.symbol == self.symbols@[index.0 as int],
                Err(Error::InvalidIndex) => index.0 >= self.symbols@.len(),
                Err(_) => false,
            },
    {
        if index.0 < self.symbols.len() {
            Ok(PefSymbol { index, symbol: &self.symbols[index.0] })
        } else {
            Err(Error::InvalidIndex)
        }
    }
}

impl<'table> PefSymbolIterator<'table> {
    /// Yield the next symbol, with its index.
    pub fn next(&mut self) -> (r: Option<PefSymbol<'table>>)
        ensures
            final(self).table == old(self).table,
            old(self).next < old(self).table.symbols@.len() ==> {
                &&& (r matches Some(s) && s.index == SymbolIndex(old(self).next)
                    && *s.symbol == old(self).table.symbols@[old(self).next as int])
                &&& final(self).next == old(self).next + 1
            },
            old(self).next >= old(self).table.symbols@.len() ==> r is None
                && final(self).next == old(self).next,
    {
        if self.next < self.table.symbols.len() {
            let index = SymbolIndex(self.next);
            let symbol = &self.table.symbols[self.next];
            self.next = self.next + 1;
            Some(PefSymbol { index, symbol })
        } else {
            None
        }
    }
}

/// Relies on core::str::from_utf8: it succeeds exactly on valid UTF-8
/// input, and the returned string is a view of exactly those bytes.
#[verifier::external_body]
pub(crate) fn utf8_str(bytes: &[u8]) -> (r: Option<&str>)
    ensures
        r is Some <==> vstd::utf8::valid_utf8(bytes@),
        r matches Some(s) ==> s.spec_bytes() == bytes@,
{
    match core::str::from_utf8(bytes) {
        Ok(s) => Some(s),
        Err(_) => None,
    }
}

impl<'table> PefSymbol<'table> {
    /// The symbol's name as text: the UTF-8 decoding of the name bytes.
    ///
    /// Fails with [`Error::NonUtf8Name`] exactly when the name bytes are
    /// not valid UTF-8; the raw bytes remain accessible through
    /// [`PefSymbol::name_bytes`] regardless.
    pub fn name(&self) -> (r: Result<&'table str, Error>)
        ensures
            match r {
                Ok(s) => vstd::utf8::valid_utf8(self.symbol.name@)
                    && s.spec_bytes() == self.symbol.name@,
                Err(Error::NonUtf8Name) => !vstd::utf8::valid_utf8(self.symbol.name@),
                Err(_) => false,
            },
    {
        match utf8_str(self.symbol.name.as_slice()) {
            Some(s) => Ok(s),
            None => Err(Error::NonUtf8Name),
        }
    }

    /// The symbol's 0-based index.
    pub fn index(&self) -> (r: SymbolIndex)
        ensures
            r == self.index,
    {
        self.index
    }

    /// The symbol's name bytes.
    pub fn name_bytes(&self) -> (r: Result<&'table [u8], Error>)
        ensures
            r matches Ok(n) && n@ == self.symbol.name@,
    {
        Ok(self.symbol.name.as_slice())
    }

    /// The symbol's resolved address.
    pub fn address(&self) -> (r: u64)
        ensures
            r == self.symbol.address,
    {
        self.symbol.address
    }

    /// The symbol's size; this format records none.
    pub fn size(&self) -> (r: u64)
        ensures
            r == self.symbol.size,
    {
        self.symbol.size
    }

    /// The symbol's kind in the shared taxonomy.
    pub fn kind(&self) -> (r: SymbolKind)
        ensures
            r == self.symbol.kind,
    {
        self.symbol.kind
    }

    /// The section the symbol is defined in.
    pub fn section(&self) -> (r: SymbolSection)
        ensures
            r == self.symbol.section,
    {
        self.symbol.section
    }

    /// Whether the symbol has no defining section here.
    pub fn is_undefined(&self) -> (r: bool)
        ensures
            r == (self.symbol.section == SymbolSection::Undefined),
    {
        self.symbol.section == SymbolSection::Undefined
    }

    /// Whether the symbol defines code or data in some section.
    pub fn is_definition(&self) -> (r: bool)
        ensures
            r == ((self.symbol.kind == SymbolKind::Text || self.symbol.kind == SymbolKind::Data)
                && self.symbol.section != SymbolSection::Undefined),
    {
        (self.symbol.kind == SymbolKind::Text || self.symbol.kind == SymbolKind::Data)
            && !(self.symbol.section == SymbolSection::Undefined)
    }

    /// Whether the symbol is a common data declaration.
    pub fn is_common(&self) -> (r: bool)
        ensures
            r == (self.symbol.section == SymbolSection::Common),
    {
        self.symbol.section == SymbolSection::Common
    }

    /// This format records no weak definitions in its export table.
    pub fn is_weak(&self) -> (r: bool)
        ensures
            !r,
    {
        false
    }

    /// The symbol's scope in the shared taxonomy.
    pub fn scope(&self) -> (r: SymbolScope)
        ensures
            r == self.symbol.scope,
    {
        self.symbol.scope
    }

    /// Whether the symbol is visible beyond one compilation unit.
    pub fn is_global(&self) -> (r: bool)
        ensures
            r == (self.symbol.scope != SymbolScope::Compilation),
    {
        !(self.symbol.scope == SymbolScope::Compilation)
    }

    /// Whether the symbol is private to one compilation unit.
    pub fn is_local(&self) -> (r: bool)
        ensures
            r == (self.symbol.scope == SymbolScope::Compilation),
    {
        self.symbol.scope == SymbolScope::Compilation
    }
}



/// The number of symbols the facade's symbol table holds for a loader info
/// header: one per export, plus one per present entry point.
pub open spec fn spec_symbol_count(info: PEFLoaderInfoHeader) -> int {
    info.exported_symbol_count
        + (if info.main_section == -1 { 0int } else { 1int })
        + (if info.init_section == -1 { 0int } else { 1int })
        + (if info.term_section == -1 { 0int } else { 1int })
}

/// One imported symbol paired with the library it comes from, as the shared
/// object-view taxonomy reports imports.
#[derive(Debug, Clone)]
pub struct Import {
    /// The name of the library the symbol is imported from.
    pub library: Vec<u8>,
    /// The imported symbol's name.
    pub name: Vec<u8>,
    /// Whether the import is weak.
    pub weak: bool,
}

/// One exported symbol with its resolved address, as the shared object-view
/// taxonomy reports exports.
#[derive(Debug, Clone)]
pub struct Export {
    /// The exported symbol's name.
    pub name: Vec<u8>,
    /// The symbol's resolved address: its section's preferred address plus
    /// its offset, or the bare offset if the section reference is not a
    /// valid index.
    pub address: u64,
}

/// Whether `imp` is the `j`-th import of the loader section's contents
/// `b`: the `j`-th imported-symbol record's name and weak bit, paired with
/// the name of the library whose range owns `j`.
pub open spec fn spec_import_matches(b: Seq<u8>, info: PEFLoaderInfoHeader, j: int, imp: Import) -> bool {
    &&& Some(imp.name@) == spec_cstr(b, info.loader_strings_offset
        + crate::loader::spec_raw_symbol(b, info, j).name_offset)
    &&& imp.weak == crate::loader::spec_raw_symbol(b, info, j).weak
    &&& exists|k: int| 0 <= k < info.imported_library_count as int
        && (#[trigger] crate::loader::spec_raw_library(b, info, k)).first_imported_symbol
            <= j < crate::loader::spec_raw_library(b, info, k).first_imported_symbol
                + crate::loader::spec_raw_library(b, info, k).imported_symbol_count
        && Some(imp.library@) == spec_cstr(b, info.loader_strings_offset
            + crate::loader::spec_raw_library(b, info, k).name_offset)
}

/// The symbol kind of the shared taxonomy for a symbol class: code-like
/// classes are text, data-like classes are data.
pub open spec fn spec_kind_of_class(c: SymbolClass) -> SymbolKind {
    match c {
        SymbolClass::Code => SymbolKind::Text,
        SymbolClass::Glue => SymbolKind::Text,
        SymbolClass::Data => SymbolKind::Data,
        SymbolClass::TVector => SymbolKind::Data,
        SymbolClass::TOC => SymbolKind::Data,
    }
}

/// Map a symbol class onto the shared symbol-kind taxonomy.
pub fn kind_of_class(c: SymbolClass) -> (r: SymbolKind)
    ensures
        r == spec_kind_of_class(c),
{
    match c {
        SymbolClass::Code => SymbolKind::Text,
        SymbolClass::Glue => SymbolKind::Text,
        SymbolClass::Data => SymbolKind::Data,
        SymbolClass::TVector => SymbolKind::Data,
        SymbolClass::TOC => SymbolKind::Data,
    }
}

impl<'data> PefFile<'data> {
    /// Iterate over all sections.
    pub fn sections(&self) -> (r: Result<PefSectionIterator<'data, '_>, Error>)
        ensures
            match r {
                Ok(it) => {
                    &&& self.spec_table_err() is None
                    &&& it.file == self
                    &&& it.next == 0 && it.table.wf()
                    &&& it.table@.len() == self.spec_header().section_count
                    &&& forall|i: int| 0 <= i < it.table@.len() ==>
                        it.table@[i] == #[trigger] spec_entry(self.spec_data(),
                            CONTAINER_HEADER_SIZE as int, i)
                },
                Err(e) => self.spec_table_err() == Some(e),
            },
    {
        let table = self.section_table()?;
        Ok(PefSectionIterator { file: self, table, next: 0 })
    }

    /// Iterate over the segments: the instantiated sections, which carry
    /// memory geometry.
    pub fn segments(&self) -> (r: Result<PefSegmentIterator<'data, '_>, Error>)
        ensures
            match r {
                Ok(it) => {
                    &&& self.spec_table_err() is None
                    &&& it.file == self
                    &&& it.next == 0 && it.table.wf()
                    &&& it.table.spec_inst_count() == self.spec_header().inst_section_count
                    &&& it.table@.len() == self.spec_header().section_count
                    &&& forall|i: int| 0 <= i < it.table@.len() ==>
                        it.table@[i] == #[trigger] spec_entry(self.spec_data(),
                            CONTAINER_HEADER_SIZE as int, i)
                },
                Err(e) => self.spec_table_err() == Some(e),
            },
    {
        let table = self.section_table()?;
        Ok(PefSegmentIterator { file: self, table, next: 0 })
    }

    /// Iterate over the COMDAT section groups: this format has none.
    pub fn comdats(&self) -> (r: PefComdatIterator<'data, '_>)
    {
        PefComdatIterator { file: self }
    }

    /// Find the single loader section, with its 1-based index.
    ///
    /// Returns `None` when the container has no loader section, which is a
    /// normal result for a container without imports or exports.
    pub fn loader_section(&self) -> (r: Result<Option<(SectionIndex, PEFSectionHeader)>, Error>)
        ensures
            match r {
                Ok(Some(p)) => {
                    &&& self.spec_table_err() is None
                    &&& 1 <= p.0.0 <= self.spec_header().section_count
                    &&& p.1 == spec_entry(self.spec_data(), CONTAINER_HEADER_SIZE as int,
                        p.0.0 - 1)
                    &&& p.1.section_kind == SectionKind::Loader
                    &&& self.spec_has_loader()
                    &&& self.spec_loader_index() == p.0.0 - 1
                    &&& p.1 == self.spec_loader_section()
                },
                Ok(None) => self.spec_table_err() is None && !self.spec_has_loader(),
                Err(e) => self.spec_table_err() == Some(e),
            },
    {
        let table = self.section_table()?;
        let n = table.len();
        let headers = table.iter();
        let mut i: usize = 0;
        while i < n
            invariant
                0 <= i <= n,
                n == table@.len(),
                headers@ == table@,
                n == self.spec_header().section_count,
                self.spec_table_err() is None,
                forall|j: int| 0 <= j < n ==>
                    table@[j] == #[trigger] spec_entry(self.spec_data(),
                        CONTAINER_HEADER_SIZE as int, j),
                forall|j: int| 0 <= j < i ==>
                    (#[trigger] table@[j]).section_kind != SectionKind::Loader,
            decreases n - i,
        {
            let h = *vstd::slice::slice_index_get(headers, i);
            if h.section_kind == SectionKind::Loader {
                proof {
                    assert(spec_entry(self.spec_data(), CONTAINER_HEADER_SIZE as int,
                        i as int).section_kind == SectionKind::Loader);
                    assert(self.spec_has_loader());
                    let ic = self.spec_loader_index();
                    assert(spec_entry(self.spec_data(), CONTAINER_HEADER_SIZE as int,
                        ic).section_kind == SectionKind::Loader && 0 <= ic
                        < self.spec_header().section_count as int);
                    assert(ic == i as int);
                }
                return Ok(Some((SectionIndex(i + 1), h)));
            }
            i = i + 1;
        }
        Ok(None)
    }

    /// The loader section's contents, or `None` when the container has no
    /// loader section.
    pub fn loader_data(&self) -> (r: Result<Option<&'data [u8]>, Error>)
        ensures
            match r {
                Ok(Some(d)) => {
                    &&& self.spec_loader_data_err() is None
                    &&& self.spec_has_loader()
                    &&& d@ == self.spec_loader_data()
                },
                Ok(None) => self.spec_loader_data_err() is None && !self.spec_has_loader(),
                Err(e) => self.spec_loader_data_err() == Some(e),
            },
    {
        match self.loader_section()? {
            Some(p) => {
                let d = p.1.pe_data(self.data())?;
                Ok(Some(d))
            },
            None => Ok(None),
        }
    }

    /// Parse the loader info header, or `None` when the container has no
    /// loader section.
    pub fn loader_info(&self) -> (r: Result<Option<PEFLoaderInfoHeader>, Error>)
        ensures
            match r {
                Ok(Some(info)) => self.spec_loader_info_err() is None
                    && self.spec_has_loader() && info == self.spec_loader_info(),
                Ok(None) => self.spec_loader_info_err() is None && !self.spec_has_loader(),
                Err(e) => self.spec_loader_info_err() == Some(e),
            },
    {
        match self.loader_data()? {
            Some(d) => {
                let info = PEFLoaderInfoHeader::parse(d)?;
                Ok(Some(info))
            },
            None => Ok(None),
        }
    }

    /// Parse the export hash table, or `None` when the container has no
    /// loader section. On success the table satisfies its structural
    /// invariant, so lookups are exact.
    pub fn export_table(&self) -> (r: Result<Option<ExportTable>, Error>)
        ensures
            match r {
                Ok(Some(t)) => {
                    &&& self.spec_loader_info_err() is None
                    &&& t.wf()
                    &&& self.spec_has_loader()
                    &&& t@.len() == self.spec_loader_info().exported_symbol_count
                    &&& t.spec_power() == self.spec_loader_info().export_hash_table_power
                    &&& forall|i: int| 0 <= i < t@.len() ==>
                        crate::loader::spec_export_entry_matches(self.spec_loader_data(),
                            self.spec_loader_info(), i, #[trigger] t@[i])
                },
                Ok(None) => self.spec_loader_info_err() is None && !self.spec_has_loader(),
                Err(e) => self.spec_loader_info_err() == Some(e)
                    || (self.spec_loader_info_err() is None && self.spec_has_loader()
                        && (e == Error::OutOfBounds || e == Error::InconsistentExportTable)),
            },
            (self.spec_loader_info_err() is None && self.spec_has_loader()
                && crate::loader::spec_export_valid(self.spec_loader_data(),
                    self.spec_loader_info())) ==> r is Ok,
    {
        match self.loader_data()? {
            Some(d) => {
                let info = PEFLoaderInfoHeader::parse(d)?;
                let t = parse_export_table(d, &info)?;
                Ok(Some(t))
            },
            None => Ok(None),
        }
    }

    /// The relocation stream headers of the loader section; empty when the
    /// container has no loader section.
    pub fn relocation_headers(&self) -> (r: Result<Vec<RelocationHeader>, Error>)
        ensures
            match r {
                Ok(v) => {
                    &&& self.spec_loader_info_err() is None
                    &&& !self.spec_has_loader() ==> v@.len() == 0
                    &&& self.spec_has_loader() ==> {
                        &&& v@.len() == self.spec_loader_info().reloc_section_count
                        &&& forall|i: int| 0 <= i < v@.len() ==>
                            v@[i] == #[trigger] crate::loader::spec_relocation_header(
                                self.spec_loader_data(),
                                self.spec_loader_info().reloc_instr_offset
                                    + crate::loader::RELOC_HEADER_SIZE * i)
                    }
                },
                Err(e) => self.spec_loader_info_err() == Some(e)
                    || (self.spec_loader_info_err() is None && self.spec_has_loader()
                        && e == Error::OutOfBounds
                        && self.spec_loader_info().reloc_instr_offset
                            + crate::loader::RELOC_HEADER_SIZE
                            * self.spec_loader_info().reloc_section_count
                            > self.spec_loader_data().len()),
            },
    {
        match self.loader_data()? {
            Some(d) => {
                let info = PEFLoaderInfoHeader::parse(d)?;
                parse_relocation_headers(d, &info)
            },
            None => Ok(Vec::new()),
        }
    }
}



/// Resolve a (section, offset) location against a section table: the
/// section's preferred address plus the offset when the 1-based index is
/// valid, the bare offset with no defining section otherwise.
fn resolve_location(table: &SectionTable, section_index: i32, offset: u32) -> (r: (u64, SymbolSection))
    ensures
        1 <= section_index <= table@.len() ==> r == ((
            table@[section_index - 1].default_address + offset) as u64,
            SymbolSection::Section(SectionIndex(section_index as usize))),
        !(1 <= section_index <= table@.len()) ==> r == (offset as u64, SymbolSection::Undefined),
{
    if section_index >= 1 && (section_index as u64) <= (table.len() as u64) {
        match table.section(SectionIndex(section_index as usize)) {
            Ok(h) => (
                (h.default_address as u64) + (offset as u64),
                SymbolSection::Section(SectionIndex(section_index as usize)),
            ),
            Err(_) => ((offset as u64), SymbolSection::Undefined),
        }
    } else {
        ((offset as u64), SymbolSection::Undefined)
    }
}

/// The name given to a synthesized entry-point symbol: "main", "init" or
/// "term".
fn entry_point_name(kind: u8) -> (r: Vec<u8>)
    ensures
        kind == 0 ==> r@ == seq![0x6Du8, 0x61u8, 0x69u8, 0x6Eu8],
        kind == 1 ==> r@ == seq![0x69u8, 0x6Eu8, 0x69u8, 0x74u8],
        kind >= 2 ==> r@ == seq![0x74u8, 0x65u8, 0x72u8, 0x6Du8],
{
    let mut name: Vec<u8> = Vec::new();
    if kind == 0 {
        name.push(0x6D);
        name.push(0x61);
        name.push(0x69);
        name.push(0x6E);
        proof {
            assert(name@ =~= seq![0x6Du8, 0x61u8, 0x69u8, 0x6Eu8]);
        }
    } else if kind == 1 {
        name.push(0x69);
        name.push(0x6E);
        name.push(0x69);
        name.push(0x74);
        proof {
            assert(name@ =~= seq![0x69u8, 0x6Eu8, 0x69u8, 0x74u8]);
        }
    } else {
        name.push(0x74);
        name.push(0x65);
        name.push(0x72);
        name.push(0x6D);
        proof {
            assert(name@ =~= seq![0x74u8, 0x65u8, 0x72u8, 0x6Du8]);
        }
    }
    name
}

impl<'data> PefFile<'data> {
    /// The main entry point, or `None` when the loader header records none
    /// or the container has no loader section.
    pub fn main_entry(&self) -> (r: Result<Option<EntryPoint>, Error>)
        ensures
            match r {
                Ok(None) => self.spec_loader_info_err() is None
                    && (!self.spec_has_loader() || self.spec_loader_info().main_section == -1),
                Ok(Some(e)) => {
                    &&& self.spec_loader_info_err() is None
                    &&& self.spec_has_loader()
                    &&& 1 <= self.spec_loader_info().main_section
                        <= self.spec_header().section_count
                    &&& e == (EntryPoint {
                        section: SectionIndex(self.spec_loader_info().main_section as usize),
                        offset: self.spec_loader_info().main_offset,
                    })
                },
                Err(e) => self.spec_loader_info_err() == Some(e)
                    || (self.spec_loader_info_err() is None && self.spec_has_loader()
                        && e == Error::InvalidIndex
                        && self.spec_loader_info().main_section != -1
                        && !(1 <= self.spec_loader_info().main_section
                            <= self.spec_header().section_count)),
            },
    {
        match self.loader_info()? {
            Some(info) => {
                let table = self.section_table()?;
                entry_location(info.main_section, info.main_offset, table.len())
            },
            None => Ok(None),
        }
    }

    /// The initialization entry point, or `None` when absent.
    pub fn init_entry(&self) -> (r: Result<Option<EntryPoint>, Error>)
        ensures
            match r {
                Ok(None) => self.spec_loader_info_err() is None
                    && (!self.spec_has_loader() || self.spec_loader_info().init_section == -1),
                Ok(Some(e)) => {
                    &&& self.spec_loader_info_err() is None
                    &&& self.spec_has_loader()
                    &&& 1 <= self.spec_loader_info().init_section
                        <= self.spec_header().section_count
                    &&& e == (EntryPoint {
                        section: SectionIndex(self.spec_loader_info().init_section as usize),
                        offset: self.spec_loader_info().init_offset,
                    })
                },
                Err(e) => self.spec_loader_info_err() == Some(e)
                    || (self.spec_loader_info_err() is None && self.spec_has_loader()
                        && e == Error::InvalidIndex
                        && self.spec_loader_info().init_section != -1
                        && !(1 <= self.spec_loader_info().init_section
                            <= self.spec_header().section_count)),
            },
    {
        match self.loader_info()? {
            Some(info) => {
                let table = self.section_table()?;
                entry_location(info.init_section, info.init_offset, table.len())
            },
            None => Ok(None),
        }
    }

    /// The termination entry point, or `None` when absent.
    pub fn term_entry(&self) -> (r: Result<Option<EntryPoint>, Error>)
        ensures
            match r {
                Ok(None) => self.spec_loader_info_err() is None
                    && (!self.spec_has_loader() || self.spec_loader_info().term_section == -1),
                Ok(Some(e)) => {
                    &&& self.spec_loader_info_err() is None
                    &&& self.spec_has_loader()
                    &&& 1 <= self.spec_loader_info().term_section
                        <= self.spec_header().section_count
                    &&& e == (EntryPoint {
                        section: SectionIndex(self.spec_loader_info().term_section as usize),
                        offset: self.spec_loader_info().term_offset,
                    })
                },
                Err(e) => self.spec_loader_info_err() == Some(e)
                    || (self.spec_loader_info_err() is None && self.spec_has_loader()
                        && e == Error::InvalidIndex
                        && self.spec_loader_info().term_section != -1
                        && !(1 <= self.spec_loader_info().term_section
                            <= self.spec_header().section_count)),
            },
    {
        match self.loader_info()? {
            Some(info) => {
                let table = self.section_table()?;
                entry_location(info.term_section, info.term_offset, table.len())
            },
            None => Ok(None),
        }
    }

    /// The imported symbols, each paired with its owning library in table
    /// order; empty when the container has no loader section.
    ///
    /// The owning ranges are validated to tile the imported-symbol array
    /// (see [`parse_imported_libraries`]).
    #[verifier::loop_isolation(false)]
    #[verifier::rlimit(60)]
    pub fn imports(&self) -> (r: Result<Vec<Import>, Error>)
        ensures
            match r {
                Ok(v) => {
                    &&& self.spec_imports_err() is None
                    &&& !self.spec_has_loader() ==> v@.len() == 0
                    &&& self.spec_has_loader() ==> {
                        &&& v@.len() == self.spec_loader_info().total_imported_symbol_count
                        &&& forall|j: int| 0 <= j < v@.len() ==>
                            spec_import_matches(self.spec_loader_data(),
                                self.spec_loader_info(), j, #[trigger] v@[j])
                    }
                },
                Err(e) => self.spec_imports_err() == Some(e),
            },
    {
        let d = match self.loader_data()? {
            Some(d) => d,
            None => {
                return Ok(Vec::new());
            },
        };
        let info = PEFLoaderInfoHeader::parse(d)?;
        let libs = parse_imported_libraries(d, &info)?;
        let syms = parse_imported_symbols(d, &info)?;
        let mut out: Vec<Import> = Vec::new();
        let nlibs = libs.len();
        let mut li: usize = 0;
        while li < nlibs
            invariant
                0 <= li <= nlibs,
                out@.len() == crate::loader::spec_prefix_count(libs@, li as int),
                forall|kk: int| 0 <= kk < li ==>
                    spec_cstr(d@, info.loader_strings_offset + (#[trigger]
                        crate::loader::spec_raw_library(d@, info, kk)).name_offset) is Some,
                forall|jj: int| 0 <= jj < out@.len() ==>
                    spec_import_matches(d@, info, jj, #[trigger] out@[jj]),
            decreases nlibs - li,
        {
            let lib = libs[li];
            proof {
                assert(crate::loader::spec_raw_library(d@, info, li as int)
                    == libs@[li as int]);
            }
            let lo64 = (info.loader_strings_offset as u64) + (lib.name_offset as u64);
            if lo64 >= d.len() as u64 {
                return Err(Error::OutOfBounds);
            }
            let libname = match crate::section::read_cstr(d, lo64 as usize) {
                Some(nb) => nb,
                None => {
                    return Err(Error::OutOfBounds);
                },
            };
            proof {
                crate::loader::lemma_prefix_monotone(libs@, li + 1, libs@.len() as int);
            }
            let count = lib.imported_symbol_count as usize;
            let first = lib.first_imported_symbol as usize;
            let mut k: usize = 0;
            while k < count
                invariant
                    0 <= k <= count,
                    0 <= li < nlibs,
                    first + count <= syms@.len(),
                    lib == libs@[li as int],
                    first == lib.first_imported_symbol,
                    count == lib.imported_symbol_count,
                    spec_cstr(d@, lo64 as int) == Some(libname@),
                    lo64 == info.loader_strings_offset + lib.name_offset,
                    out@.len() == crate::loader::spec_prefix_count(libs@, li as int) + k,
                    forall|kk: int| 0 <= kk < li + 1 ==>
                        spec_cstr(d@, info.loader_strings_offset + (#[trigger]
                            crate::loader::spec_raw_library(d@, info, kk)).name_offset)
                            is Some,
                    forall|jj: int| 0 <= jj < out@.len() ==>
                        spec_import_matches(d@, info, jj, #[trigger] out@[jj]),
                decreases count - k,
            {
                let j = first + k;
                proof {
                    assert(Some(syms@[j as int]) == crate::loader::spec_imported_symbol(d@,
                        LOADER_INFO_HEADER_SIZE + crate::loader::IMPORTED_LIBRARY_SIZE
                            * info.imported_library_count
                            + crate::loader::IMPORTED_SYMBOL_SIZE * (j as int)));
                    assert(crate::loader::spec_raw_symbol(d@, info, j as int)
                        == syms@[j as int]);
                }
                let sym = syms[j];
                let so64 = (info.loader_strings_offset as u64) + (sym.name_offset as u64);
                if so64 >= d.len() as u64 {
                    proof {
                        assert(!crate::loader::spec_import_names_ok(d@, info));
                    }
                    return Err(Error::OutOfBounds);
                }
                let symname = match crate::section::read_cstr(d, so64 as usize) {
                    Some(nb) => nb,
                    None => {
                        proof {
                            assert(!crate::loader::spec_import_names_ok(d@, info));
                        }
                        return Err(Error::OutOfBounds);
                    },
                };
                let ghost pre_out = out@;
                out.push(Import {
                    library: vstd::slice::slice_to_vec(libname),
                    name: vstd::slice::slice_to_vec(symname),
                    weak: sym.weak,
                });
                proof {
                    assert(spec_import_matches(d@, info, j as int, out@[j as int]));
                }
                k = k + 1;
            }
            li = li + 1;
        }
        proof {
            assert forall|j: int| 0 <= j < info.total_imported_symbol_count as int implies
                spec_cstr(d@, info.loader_strings_offset + (#[trigger]
                    crate::loader::spec_raw_symbol(d@, info, j)).name_offset) is Some by {
                assert(spec_import_matches(d@, info, j, out@[j]));
            }
        }
        Ok(out)
    }

    /// The exported symbols with their resolved addresses; empty when the
    /// container has no loader section.
    #[verifier::loop_isolation(false)]
    pub fn exports(&self) -> (r: Result<Vec<Export>, Error>)
        ensures
            match r {
                Ok(v) => {
                    &&& self.spec_loader_info_err() is None
                    &&& !self.spec_has_loader() ==> v@.len() == 0
                    &&& self.spec_has_loader() ==> {
                        &&& v@.len() == self.spec_loader_info().exported_symbol_count
                        &&& forall|i: int| 0 <= i < v@.len() ==> {
                            &&& Some((#[trigger] v@[i]).name@) == crate::loader::spec_export_name(
                                self.spec_loader_data(), self.spec_loader_info(), i)
                            &&& v@[i].address == self.spec_resolved_address(
                                crate::loader::spec_export_section(self.spec_loader_data(),
                                    self.spec_loader_info(), i) as i32,
                                crate::loader::spec_export_offset(self.spec_loader_data(),
                                    self.spec_loader_info(), i) as u32)
                        }
                    }
                },
                Err(e) => self.spec_loader_info_err() == Some(e)
                    || (self.spec_loader_info_err() is None && self.spec_has_loader()
                        && (e == Error::OutOfBounds || e == Error::InconsistentExportTable)),
            },
            (self.spec_loader_info_err() is None && self.spec_has_loader()
                && crate::loader::spec_export_valid(self.spec_loader_data(),
                    self.spec_loader_info())) ==> r is Ok,
    {
        let t = match self.export_table()? {
            Some(t) => t,
            None => {
                return Ok(Vec::new());
            },
        };
        let table = self.section_table()?;
        let n = t.len();
        let mut out: Vec<Export> = Vec::new();
        let mut i: usize = 0;
        while i < n
            invariant
                0 <= i <= n,
                out@.len() == i,
                forall|ii: int| 0 <= ii < out@.len() ==> {
                    &&& Some((#[trigger] out@[ii]).name@) == crate::loader::spec_export_name(
                        self.spec_loader_data(), self.spec_loader_info(), ii)
                    &&& out@[ii].address == self.spec_resolved_address(
                        crate::loader::spec_export_section(self.spec_loader_data(),
                            self.spec_loader_info(), ii) as i32,
                        crate::loader::spec_export_offset(self.spec_loader_data(),
                            self.spec_loader_info(), ii) as u32)
                },
            decreases n - i,
        {
            let e = t.entry(i)?;
            let (address, _) = resolve_location(&table, e.section_index, e.symbol_offset);
            out.push(Export {
                name: vstd::slice::slice_to_vec(e.name.as_slice()),
                address,
            });
            proof {
                assert(crate::loader::spec_export_entry_matches(self.spec_loader_data(),
                    self.spec_loader_info(), i as int, t@[i as int]));
                assert(crate::loader::spec_export_section(self.spec_loader_data(),
                    self.spec_loader_info(), i as int) as i32 == t@[i as int].section_index);
                assert(crate::loader::spec_export_offset(self.spec_loader_data(),
                    self.spec_loader_info(), i as int) as u32 == t@[i as int].symbol_offset);
            }
            i = i + 1;
        }
        Ok(out)
    }

    /// Build the facade's symbol table: the resolved exports plus
    /// synthesized entries for the main, initialization and termination
    /// entry points when present. Empty when the container has no loader
    /// section.
    #[verifier::loop_isolation(false)]
    #[verifier::rlimit(60)]
    pub fn symbol_table(&self) -> (r: Result<PefSymbolTable, Error>)
        ensures
            match r {
                Ok(t) => {
                    &&& self.spec_loader_info_err() is None
                    &&& !self.spec_has_loader() ==> t.symbols@.len() == 0
                    &&& self.spec_has_loader() ==> {
                        let ld = self.spec_loader_data();
                        let inf = self.spec_loader_info();
                        let n = inf.exported_symbol_count as int;
                        let m1: int = if inf.main_section == -1 { 0 } else { 1 };
                        let i1: int = if inf.init_section == -1 { 0 } else { 1 };
                        &&& t.symbols@.len() == spec_symbol_count(inf)
                        &&& forall|i: int| 0 <= i < n ==> {
                            &&& Some((#[trigger] t.symbols@[i]).name@)
                                == crate::loader::spec_export_name(ld, inf, i)
                            &&& t.symbols@[i].address == self.spec_resolved_address(
                                crate::loader::spec_export_section(ld, inf, i) as i32,
                                crate::loader::spec_export_offset(ld, inf, i) as u32)
                            &&& (crate::loader::spec_export_class(ld, inf, i)
                                matches Some(c) && t.symbols@[i].kind == spec_kind_of_class(c))
                            &&& t.symbols@[i].section == self.spec_resolved_section(
                                crate::loader::spec_export_section(ld, inf, i) as i32)
                            &&& t.symbols@[i].scope == SymbolScope::Dynamic
                        }
                        &&& inf.main_section != -1 ==> {
                            &&& 1 <= inf.main_section <= self.spec_header().section_count
                            &&& t.symbols@[n].name@ == seq![0x6Du8, 0x61u8, 0x69u8, 0x6Eu8]
                            &&& t.symbols@[n].address == self.spec_resolved_address(
                                inf.main_section, inf.main_offset)
                            &&& t.symbols@[n].section
                                == self.spec_resolved_section(inf.main_section)
                            &&& t.symbols@[n].kind == SymbolKind::Text
                            &&& t.symbols@[n].scope == SymbolScope::Linkage
                        }
                        &&& inf.init_section != -1 ==> {
                            &&& 1 <= inf.init_section <= self.spec_header().section_count
                            &&& t.symbols@[n + m1].name@ == seq![0x69u8, 0x6Eu8, 0x69u8, 0x74u8]
                            &&& t.symbols@[n + m1].address == self.spec_resolved_address(
                                inf.init_section, inf.init_offset)
                            &&& t.symbols@[n + m1].section
                                == self.spec_resolved_section(inf.init_section)
                            &&& t.symbols@[n + m1].kind == SymbolKind::Text
                            &&& t.symbols@[n + m1].scope == SymbolScope::Linkage
                        }
                        &&& inf.term_section != -1 ==> {
                            &&& 1 <= inf.term_section <= self.spec_header().section_count
                            &&& t.symbols@[n + m1 + i1].name@
                                == seq![0x74u8, 0x65u8, 0x72u8, 0x6Du8]
                            &&& t.symbols@[n + m1 + i1].address == self.spec_resolved_address(
                                inf.term_section, inf.term_offset)
                            &&& t.symbols@[n + m1 + i1].section
                                == self.spec_resolved_section(inf.term_section)
                            &&& t.symbols@[n + m1 + i1].kind == SymbolKind::Text
                            &&& t.symbols@[n + m1 + i1].scope == SymbolScope::Linkage
                        }
                    }
                },
                Err(e) => self.spec_loader_info_err() == Some(e)
                    || (self.spec_loader_info_err() is None && self.spec_has_loader()
                        && (e == Error::OutOfBounds || e == Error::InconsistentExportTable
                            || (e == Error::InvalidIndex && ({
                                let inf = self.spec_loader_info();
                                ||| inf.main_section != -1 && !(1 <= inf.main_section
                                    <= self.spec_header().section_count)
                                ||| inf.init_section != -1 && !(1 <= inf.init_section
                                    <= self.spec_header().section_count)
                                ||| inf.term_section != -1 && !(1 <= inf.term_section
                                    <= self.spec_header().section_count)
                            })))),
            },
            ({
                let inf = self.spec_loader_info();
                &&& self.spec_loader_info_err() is None
                &&& self.spec_has_loader()
                &&& crate::loader::spec_export_valid(self.spec_loader_data(), inf)
                &&& inf.main_section == -1 || 1 <= inf.main_section
                    <= self.spec_header().section_count
                &&& inf.init_section == -1 || 1 <= inf.init_section
                    <= self.spec_header().section_count
                &&& inf.term_section == -1 || 1 <= inf.term_section
                    <= self.spec_header().section_count
            }) ==> r is Ok,
    {
        let d = match self.loader_data()? {
            Some(d) => d,
            None => {
                return Ok(PefSymbolTable { symbols: Vec::new() });
            },
        };
        let info = PEFLoaderInfoHeader::parse(d)?;
        let table = self.section_table()?;
        let et = parse_export_table(d, &info)?;
        let mut symbols: Vec<PefSymbolData> = Vec::new();
        let n = et.len();
        let mut i: usize = 0;
        while i < n
            invariant
                0 <= i <= n,
                symbols@.len() == i,
                forall|ii: int| 0 <= ii < symbols@.len() ==> {
                    &&& Some((#[trigger] symbols@[ii]).name@)
                        == crate::loader::spec_export_name(self.spec_loader_data(),
                            self.spec_loader_info(), ii)
                    &&& symbols@[ii].address == self.spec_resolved_address(
                        crate::loader::spec_export_section(self.spec_loader_data(),
                            self.spec_loader_info(), ii) as i32,
                        crate::loader::spec_export_offset(self.spec_loader_data(),
                            self.spec_loader_info(), ii) as u32)
                    &&& (crate::loader::spec_export_class(self.spec_loader_data(),
                        self.spec_loader_info(), ii)
                        matches Some(c) && symbols@[ii].kind == spec_kind_of_class(c))
                    &&& symbols@[ii].section == self.spec_resolved_section(
                        crate::loader::spec_export_section(self.spec_loader_data(),
                            self.spec_loader_info(), ii) as i32)
                    &&& symbols@[ii].scope == SymbolScope::Dynamic
                },
            decreases n - i,
        {
            let e = et.entry(i)?;
            let (address, section) = resolve_location(&table, e.section_index, e.symbol_offset);
            symbols.push(PefSymbolData {
                name: vstd::slice::slice_to_vec(e.name.as_slice()),
                address,
                size: 0,
                kind: kind_of_class(e.class),
                section,
                scope: SymbolScope::Dynamic,
            });
            proof {
                assert(crate::loader::spec_export_entry_matches(self.spec_loader_data(),
                    self.spec_loader_info(), i as int, et@[i as int]));
                assert(crate::loader::spec_export_section(self.spec_loader_data(),
                    self.spec_loader_info(), i as int) as i32 == et@[i as int].section_index);
                assert(crate::loader::spec_export_offset(self.spec_loader_data(),
                    self.spec_loader_info(), i as int) as u32 == et@[i as int].symbol_offset);
            }
            i = i + 1;
        }
        match entry_location(info.main_section, info.main_offset, table.len())? {
            Some(_) => {
                let (address, section) = resolve_location(&table, info.main_section,
                    info.main_offset);
                symbols.push(PefSymbolData {
                    name: entry_point_name(0),
                    address,
                    size: 0,
                    kind: SymbolKind::Text,
                    section,
                    scope: SymbolScope::Linkage,
                });
            },
            None => {},
        }
        match entry_location(info.init_section, info.init_offset, table.len())? {
            Some(_) => {
                let (address, section) = resolve_location(&table, info.init_section,
                    info.init_offset);
                symbols.push(PefSymbolData {
                    name: entry_point_name(1),
                    address,
                    size: 0,
                    kind: SymbolKind::Text,
                    section,
                    scope: SymbolScope::Linkage,
                });
            },
            None => {},
        }
        match entry_location(info.term_section, info.term_offset, table.len())? {
            Some(_) => {
                let (address, section) = resolve_location(&table, info.term_section,
                    info.term_offset);
                symbols.push(PefSymbolData {
                    name: entry_point_name(2),
                    address,
                    size: 0,
                    kind: SymbolKind::Text,
                    section,
                    scope: SymbolScope::Linkage,
                });
            },
            None => {},
        }
        Ok(PefSymbolTable { symbols })
    }
}

/// Parsing is deterministic: every parsed view the crate exposes is pinned
/// by its contract to a function of the buffer bytes alone, so parsing the
/// same bytes twice yields identical structural views.
pub proof fn lemma_parse_deterministic(b1: Seq<u8>, b2: Seq<u8>)
    requires
        b1 == b2,
    ensures
        spec_parse_container_header(b1) == spec_parse_container_header(b2),
        forall|i: int| #[trigger] spec_entry(b1, CONTAINER_HEADER_SIZE as int, i)
            == spec_entry(b2, CONTAINER_HEADER_SIZE as int, i),
        crate::pef::spec_loader_info_header(b1) == crate::pef::spec_loader_info_header(b2),
{
}


} // verus!
