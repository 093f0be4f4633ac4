//! The section table: parsing, per-section geometry, and lookups by index,
//! name and address.
//!
//! The table starts immediately after the container header and holds
//! `section_count` fixed-size entries. Section indices are 1-based wherever
//! the format references a section.

use vstd::prelude::*;
use vstd::string::StringSliceAdditionalSpecFns;
use crate::endian::{read_u8, read_u32_be, read_i32_be, range_in_bounds};
use crate::error::Error;
use crate::file::PefFile;
use crate::loader::Relocation;
use crate::pef::{
    PEFContainerHeader, PEFSectionHeader, SectionKind,
    spec_section_header, SECTION_HEADER_SIZE,
};

verus! {

broadcast use vstd::slice::group_slice_axioms;

/// A 1-based index of a section in the section table.
#[derive(Debug, Clone, Copy, PartialEq, Eq, Structural)]
pub struct SectionIndex(pub usize);

/// The null-terminated byte string starting at `off` in `s`, without its
/// terminator, or `None` if `off` is outside `s` or no terminator follows.
pub open spec fn spec_cstr(s: Seq<u8>, off: int) -> Option<Seq<u8>>
    decreases s.len() - off,
{
    if off < 0 || off >= s.len() {
        None
    } else if s[off] == 0 {
        Some(Seq::empty())
    } else {
        match spec_cstr(s, off + 1) {
            Some(t) => Some(seq![s[off]] + t),
            None => None,
        }
    }
}

/// When the bytes from `off` up to a terminator at `end` are all non-zero,
/// the string at `off` is exactly that range.
pub proof fn lemma_cstr_range(s: Seq<u8>, off: int, end: int)
    requires
        0 <= off <= end < s.len(),
        forall|k: int| off <= k < end ==> s[k] != 0,
        s[end] == 0,
    ensures
        spec_cstr(s, off) == Some(s.subrange(off, end)),
    decreases end - off,
{
    if off == end {
        assert(s.subrange(off, end) =~= Seq::empty());
    } else {
        lemma_cstr_range(s, off + 1, end);
        assert(seq![s[off]] + s.subrange(off + 1, end) =~= s.subrange(off, end));
    }
}

/// When no terminator follows `off`, there is no string at `off`.
pub proof fn lemma_cstr_none(s: Seq<u8>, off: int)
    requires
        forall|k: int| off <= k < s.len() ==> s[k] != 0,
    ensures
        spec_cstr(s, off) is None,
    decreases s.len() - off,
{
    if 0 <= off < s.len() {
        lemma_cstr_none(s, off + 1);
    }
}

/// Read the null-terminated byte string starting at `off` in `strings`,
/// without its terminator.
pub fn read_cstr<'a>(strings: &'a [u8], off: usize) -> (r: Option<&'a [u8]>)
    ensures
        match r {
            Some(sub) => spec_cstr(strings@, off as int) == Some(sub@),
            None => spec_cstr(strings@, off as int) is None,
        },
{
    let n = strings.len();
    if off >= n {
        proof { lemma_cstr_none(strings@, off as int); }
        return None;
    }
    let mut end = off;
    while end < n && read_u8(strings, end) != 0
        invariant
            off <= end <= n,
            n == strings@.len(),
            forall|k: int| off <= k < end ==> strings@[k] != 0,
        decreases n - end,
    {
        end = end + 1;
    }
    if end == n {
        proof { lemma_cstr_none(strings@, off as int); }
        None
    } else {
        proof { lemma_cstr_range(strings@, off as int, end as int); }
        Some(vstd::slice::slice_subrange(strings, off, end))
    }
}

/// Parse the section header whose first byte sits at `off`; `None` if its
/// kind or sharing byte is outside the closed sets.
pub fn parse_section_header(data: &[u8], off: usize) -> (r: Option<PEFSectionHeader>)
    requires
        off + SECTION_HEADER_SIZE <= data.len(),
    ensures
        r == spec_section_header(data@, off as int),
{
    let kind_byte = read_u8(data, off + 24);
    let share_byte = read_u8(data, off + 25);
    match (crate::pef::section_kind_from_u8(kind_byte), crate::pef::share_kind_from_u8(share_byte)) {
        (Some(section_kind), Some(share_kind)) => Some(PEFSectionHeader {
            name_offset: read_i32_be(data, off),
            default_address: read_u32_be(data, off + 4),
            total_size: read_u32_be(data, off + 8),
            unpacked_size: read_u32_be(data, off + 12),
            packed_size: read_u32_be(data, off + 16),
            container_offset: read_u32_be(data, off + 20),
            section_kind,
            share_kind,
            alignment: read_u8(data, off + 26),
            reserved_a: read_u8(data, off + 27),
        }),
        _ => None,
    }
}

/// The table of section headers of one container.
#[derive(Debug, Clone)]
pub struct SectionTable {
    sections: Vec<PEFSectionHeader>,
    inst_count: usize,
}

/// Every entry of the table at `off` in `b` has a known kind and sharing
/// byte.
pub open spec fn spec_entries_decodable(b: Seq<u8>, off: int, n: int) -> bool {
    forall|i: int| 0 <= i < n ==> (#[trigger] spec_section_header(b, off + SECTION_HEADER_SIZE * i)) is Some
}

/// The `i`-th entry of the table at `off` in `b`.
pub open spec fn spec_entry(b: Seq<u8>, off: int, i: int) -> PEFSectionHeader {
    spec_section_header(b, off + SECTION_HEADER_SIZE * i)->Some_0
}

/// The table at `off` in `b`, read under `header`, is structurally
/// consistent: every entry decodes, there are no more instantiated sections
/// than sections, every instantiated section's total size covers its unpacked
/// size, and at most one section is a loader section.
pub open spec fn spec_table_consistent(b: Seq<u8>, off: int, header: PEFContainerHeader) -> bool {
    let n = header.section_count as int;
    &&& spec_entries_decodable(b, off, n)
    &&& header.inst_section_count <= header.section_count
    &&& forall|i: int| 0 <= i < header.inst_section_count as int ==>
        (#[trigger] spec_entry(b, off, i)).total_size >= spec_entry(b, off, i).unpacked_size
    &&& forall|i: int, j: int|
        #![trigger spec_entry(b, off, i), spec_entry(b, off, j)]
        0 <= i < n && 0 <= j < n
            && spec_entry(b, off, i).section_kind == SectionKind::Loader
            && spec_entry(b, off, j).section_kind == SectionKind::Loader
        ==> i == j
}

impl View for SectionTable {
    type V = Seq<PEFSectionHeader>;

    /// The parsed entries, in table order.
    closed spec fn view(&self) -> Seq<PEFSectionHeader> {
        self.sections@
    }
}

impl SectionTable {
    /// The number of leading sections that are instantiated at run time.
    pub closed spec fn spec_inst_count(self) -> nat {
        self.inst_count as nat
    }

    /// The structural invariant of every parsed table: no more instantiated
    /// sections than sections, every instantiated section's total size at
    /// least its unpacked size, and at most one loader section.
    pub closed spec fn wf(self) -> bool {
        &&& self.inst_count <= self.sections@.len()
        &&& forall|i: int| 0 <= i < self.inst_count ==>
            (#[trigger] self.sections@[i]).total_size >= self.sections@[i].unpacked_size
        &&& forall|i: int, j: int|
            #![trigger self.sections@[i], self.sections@[j]]
            0 <= i < self.sections@.len() && 0 <= j < self.sections@.len()
                && self.sections@[i].section_kind == SectionKind::Loader
                && self.sections@[j].section_kind == SectionKind::Loader
            ==> i == j
    }

    /// What the structural invariant guarantees of the parsed view: the
    /// instantiated prefix is no longer than the table, every instantiated
    /// section's total size covers its unpacked size, and at most one section
    /// is a loader section.
    pub proof fn lemma_wf(self)
        requires
            self.wf(),
        ensures
            self.spec_inst_count() <= self@.len(),
            forall|i: int| 0 <= i < self.spec_inst_count() ==>
                (#[trigger] self@[i]).total_size >= self@[i].unpacked_size,
            forall|i: int, j: int|
                #![trigger self@[i], self@[j]]
                0 <= i < self@.len() && 0 <= j < self@.len()
                    && self@[i].section_kind == SectionKind::Loader
                    && self@[j].section_kind == SectionKind::Loader
                ==> i == j,
    {
    }

    /// Parse the section table.
    ///
    /// `data` must be the entire file data and `offset` the table's position,
    /// immediately after the container header. Succeeds exactly when the
    /// whole table lies inside the buffer and is structurally consistent.
    pub fn parse(header: &PEFContainerHeader, data: &[u8], offset: usize) -> (r: Result<SectionTable, Error>)
        ensures
            match r {
                Ok(t) => {
                    &&& t.wf()
                    &&& offset + SECTION_HEADER_SIZE * header.section_count <= data@.len()
                    &&& spec_table_consistent(data@, offset as int, *header)
                    &&& t@.len() == header.section_count
                    &&& forall|i: int| 0 <= i < header.section_count as int ==>
                        t@[i] == #[trigger] spec_entry(data@, offset as int, i)
                    &&& t.spec_inst_count() == header.inst_section_count
                },
                Err(Error::OutOfBounds) =>
                    offset + SECTION_HEADER_SIZE * header.section_count > data@.len(),
                Err(Error::InconsistentSectionTable) => {
                    &&& offset + SECTION_HEADER_SIZE * header.section_count <= data@.len()
                    &&& !spec_table_consistent(data@, offset as int, *header)
                },
                Err(_) => false,
            },
    {
        let n = header.section_count as usize;
        if (offset as u128) + (SECTION_HEADER_SIZE as u128) * (n as u128) > data.len() as u128 {
            return Err(Error::OutOfBounds);
        }
        let mut sections: Vec<PEFSectionHeader> = Vec::new();
        let mut i: usize = 0;
        let mut first_loader: Option<usize> = None;
        while i < n
            invariant
                0 <= i <= n,
                n == header.section_count,
                offset + SECTION_HEADER_SIZE * n <= data.len(),
                sections@.len() == i,
                forall|j: int| 0 <= j < i ==>
                    (#[trigger] spec_section_header(data@, offset + SECTION_HEADER_SIZE * j)) is Some,
                forall|j: int| 0 <= j < i ==>
                    sections@[j] == #[trigger] spec_entry(data@, offset as int, j),
                match first_loader {
                    None => forall|j: int| 0 <= j < i ==>
                        (#[trigger] sections@[j]).section_kind != SectionKind::Loader,
                    Some(l) => l < i
                        && sections@[l as int].section_kind == SectionKind::Loader
                        && forall|j: int| 0 <= j < i && j != l ==>
                            (#[trigger] sections@[j]).section_kind != SectionKind::Loader,
                },
            decreases n - i,
        {
            let off_i = offset + (SECTION_HEADER_SIZE as usize) * i;
            match parse_section_header(data, off_i) {
                Some(h) => {
                    if h.section_kind == SectionKind::Loader {
                        match first_loader {
                            Some(l) => {
                                proof {
                                    assert(spec_entry(data@, offset as int, l as int)
                                        == sections@[l as int]);
                                    assert(spec_entry(data@, offset as int, i as int) == h);
                                    assert(!spec_table_consistent(data@, offset as int, *header));
                                }
                                return Err(Error::InconsistentSectionTable);
                            },
                            None => {
                                first_loader = Some(i);
                            },
                        }
                    }
                    sections.push(h);
                },
                None => {
                    proof {
                        assert(!spec_entries_decodable(data@, offset as int, n as int));
                    }
                    return Err(Error::InconsistentSectionTable);
                },
            }
            i = i + 1;
        }
        let inst = header.inst_section_count as usize;
        if inst > n {
            return Err(Error::InconsistentSectionTable);
        }
        let mut k: usize = 0;
        while k < inst
            invariant
                0 <= k <= inst <= n,
                n == header.section_count,
                inst == header.inst_section_count,
                offset + SECTION_HEADER_SIZE * n <= data.len(),
                sections@.len() == n,
                forall|j: int| 0 <= j < n ==>
                    sections@[j] == #[trigger] spec_entry(data@, offset as int, j),
                spec_entries_decodable(data@, offset as int, n as int),
                forall|j: int| 0 <= j < k ==>
                    (#[trigger] sections@[j]).total_size >= sections@[j].unpacked_size,
            decreases inst - k,
        {
            let h = sections[k];
            if h.total_size < h.unpacked_size {
                proof {
                    assert(spec_entry(data@, offset as int, k as int) == h);
                    assert(!spec_table_consistent(data@, offset as int, *header));
                }
                return Err(Error::InconsistentSectionTable);
            }
            k = k + 1;
        }
        Ok(SectionTable { sections, inst_count: inst })
    }
}


/// `a` and `b` hold the same bytes.
pub fn bytes_equal(a: &[u8], b: &[u8]) -> (r: bool)
    ensures
        r == (a@ == b@),
{
    let n = a.len();
    if n != b.len() {
        return false;
    }
    let mut i: usize = 0;
    while i < n
        invariant
            0 <= i <= n,
            n == a@.len(),
            n == b@.len(),
            forall|k: int| 0 <= k < i ==> a@[k] == b@[k],
        decreases n - i,
    {
        if read_u8(a, i) != read_u8(b, i) {
            return false;
        }
        i = i + 1;
    }
    proof {
        assert(a@ =~= b@);
    }
    true
}

/// The size of a section's file range: the smaller of its on-disk size and
/// its total in-memory size.
pub open spec fn spec_file_size(h: PEFSectionHeader) -> int {
    if h.packed_size < h.total_size {
        h.packed_size as int
    } else {
        h.total_size as int
    }
}

/// Whether the virtual address `va` lies in the section's address range.
pub open spec fn spec_contains_rva(h: PEFSectionHeader, va: u32) -> bool {
    h.default_address <= va < h.default_address + h.total_size
}

/// The file offset of the virtual address `va` in the section and the size
/// from there to the end of the section's file range, if the section's file
/// range covers `va`.
pub open spec fn spec_file_range_at(h: PEFSectionHeader, va: u32) -> Option<(u32, u32)> {
    if va < h.default_address {
        None
    } else if va - h.default_address >= spec_file_size(h) {
        None
    } else if h.container_offset + (va - h.default_address) > u32::MAX {
        None
    } else {
        Some((
            (h.container_offset + (va - h.default_address)) as u32,
            (spec_file_size(h) - (va - h.default_address)) as u32,
        ))
    }
}

/// Whether the section's file range lies inside a buffer of `b`'s length.
pub open spec fn spec_data_in_bounds(h: PEFSectionHeader, b: Seq<u8>) -> bool {
    h.container_offset + spec_file_size(h) <= b.len()
}

/// The bytes of the section's file range in `b`.
pub open spec fn spec_data(h: PEFSectionHeader, b: Seq<u8>) -> Seq<u8> {
    b.subrange(h.container_offset as int, h.container_offset + spec_file_size(h))
}

/// The data starting at virtual address `va`, up to the end of the section's
/// file range, if the section covers `va` and the range lies inside `b`.
pub open spec fn spec_data_at(h: PEFSectionHeader, b: Seq<u8>, va: u32) -> Option<Seq<u8>> {
    match spec_file_range_at(h, va) {
        Some(p) => if p.0 + p.1 <= b.len() {
            Some(b.subrange(p.0 as int, p.0 + p.1))
        } else {
            None
        },
        None => None,
    }
}

/// The whole file range of the section together with its virtual address, if
/// the section covers `va` and the range lies inside `b`.
pub open spec fn spec_data_containing(h: PEFSectionHeader, b: Seq<u8>, va: u32) -> Option<(Seq<u8>, u32)> {
    if spec_contains_rva(h, va) && spec_data_in_bounds(h, b) {
        Some((spec_data(h, b), h.default_address))
    } else {
        None
    }
}

impl PEFSectionHeader {
    /// Return the offset and size of the section's contents in the file.
    ///
    /// The size of the range is the minimum of the on-disk size and the total
    /// size.
    pub fn pef_file_range(&self) -> (r: (u32, u32))
        ensures
            r.0 == self.container_offset,
            r.1 == spec_file_size(*self),
    {
        if self.packed_size < self.total_size {
            (self.container_offset, self.packed_size)
        } else {
            (self.container_offset, self.total_size)
        }
    }

    /// Return the virtual address and total size of the section.
    pub fn pef_address_range(&self) -> (r: (u32, u32))
        ensures
            r.0 == self.default_address,
            r.1 == self.total_size,
    {
        (self.default_address, self.total_size)
    }

    /// Test whether the given virtual address is part of this section.
    pub fn contains_rva(&self, va: u32) -> (r: bool)
        ensures
            r == spec_contains_rva(*self, va),
    {
        va >= self.default_address
            && ((va - self.default_address) as u64) < (self.total_size as u64)
    }

    /// Return the file offset of the given virtual address and the remaining
    /// size up to the end of the section's file range.
    ///
    /// Returns `None` if the section's file range does not contain the
    /// address.
    pub fn pef_file_range_at(&self, va: u32) -> (r: Option<(u32, u32)>)
        ensures
            r == spec_file_range_at(*self, va),
    {
        if va < self.default_address {
            return None;
        }
        let rel = va - self.default_address;
        let size = if self.packed_size < self.total_size {
            self.packed_size
        } else {
            self.total_size
        };
        if rel >= size {
            return None;
        }
        if (self.container_offset as u64) + (rel as u64) > (u32::MAX as u64) {
            return None;
        }
        Some((self.container_offset + rel, size - rel))
    }

    /// Return the section's file-range bytes.
    ///
    /// The length of the data is the minimum of the on-disk size and the
    /// total size.
    pub fn pe_data<'a>(&self, data: &'a [u8]) -> (r: Result<&'a [u8], Error>)
        ensures
            match r {
                Ok(s) => spec_data_in_bounds(*self, data@) && s@ == spec_data(*self, data@),
                Err(Error::OutOfBounds) => !spec_data_in_bounds(*self, data@),
                Err(_) => false,
            },
    {
        let (off, size) = self.pef_file_range();
        if range_in_bounds(data.len(), off, size) {
            Ok(vstd::slice::slice_subrange(data, off as usize, off as usize + size as usize))
        } else {
            Err(Error::OutOfBounds)
        }
    }

    /// Return the data starting at the given virtual address, up to the end
    /// of the section's file range.
    ///
    /// Returns `None` if the section does not contain the address or its
    /// range reads past the buffer.
    pub fn pe_data_at<'a>(&self, data: &'a [u8], va: u32) -> (r: Option<&'a [u8]>)
        ensures
            match r {
                Some(s) => spec_data_at(*self, data@, va) == Some(s@),
                None => spec_data_at(*self, data@, va) is None,
            },
    {
        match self.pef_file_range_at(va) {
            Some(p) => {
                if range_in_bounds(data.len(), p.0, p.1) {
                    Some(vstd::slice::slice_subrange(
                        data, p.0 as usize, p.0 as usize + p.1 as usize))
                } else {
                    None
                }
            },
            None => None,
        }
    }

    /// For a pattern-initialized data section, expand the pattern program —
    /// the whole `packed_size` bytes at the section's file offset — to
    /// exactly `unpacked_size` bytes of initialized data. This is the one
    /// place the crate materializes an owned copy.
    pub fn expanded_data(&self, data: &[u8]) -> (r: Result<Vec<u8>, Error>)
        ensures
            ({
                let prog = data@.subrange(self.container_offset as int,
                    self.container_offset + self.packed_size);
                match r {
                    Ok(v) => {
                        &&& self.container_offset + self.packed_size <= data@.len()
                        &&& crate::pattern::spec_expand(prog, self.unpacked_size as int)
                            matches crate::pattern::PatOutcome::Done(out, _end) && out == v@
                        &&& v@.len() == self.unpacked_size
                    },
                    Err(Error::OutOfBounds) => self.container_offset + self.packed_size
                        > data@.len(),
                    Err(Error::PatternTruncated) => self.container_offset + self.packed_size
                        <= data@.len() && crate::pattern::spec_expand(prog,
                            self.unpacked_size as int) is Truncated,
                    Err(Error::PatternSizeMismatch) => self.container_offset + self.packed_size
                        <= data@.len() && crate::pattern::spec_expand(prog,
                            self.unpacked_size as int) is SizeMismatch,
                    Err(_) => false,
                }
            }),
    {
        if !range_in_bounds(data.len(), self.container_offset, self.packed_size) {
            return Err(Error::OutOfBounds);
        }
        let prog = vstd::slice::slice_subrange(data, self.container_offset as usize,
            self.container_offset as usize + self.packed_size as usize);
        crate::pattern::expand_pattern(prog, self.unpacked_size as usize)
    }

    /// Return the section's file-range bytes and its virtual address if the
    /// section contains the given virtual address.
    pub fn pe_data_containing<'a>(&self, data: &'a [u8], va: u32) -> (r: Option<(&'a [u8], u32)>)
        ensures
            match r {
                Some(p) => spec_data_containing(*self, data@, va) == Some((p.0@, p.1)),
                None => spec_data_containing(*self, data@, va) is None,
            },
    {
        if !self.contains_rva(va) {
            return None;
        }
        match self.pe_data(data) {
            Ok(s) => Some((s, self.default_address)),
            Err(_) => None,
        }
    }
}



/// Whether a section's recorded name, resolved through the name table
/// `strings`, is exactly `name`. Sections with a negative (absent) name
/// offset or an unterminated name match nothing.
pub open spec fn spec_name_matches(h: PEFSectionHeader, strings: Seq<u8>, name: Seq<u8>) -> bool {
    h.name_offset >= 0 && spec_cstr(strings, h.name_offset as int) == Some(name)
}

/// The first section at or after position `i` whose file range covers `va`,
/// scanning in table order.
pub open spec fn spec_first_file_range_at(ss: Seq<PEFSectionHeader>, va: u32, i: int) -> Option<(u32, u32)>
    decreases ss.len() - i,
{
    if i < 0 || i >= ss.len() {
        None
    } else {
        match spec_file_range_at(ss[i], va) {
            Some(p) => Some(p),
            None => spec_first_file_range_at(ss, va, i + 1),
        }
    }
}

/// The first section data at or after position `i` covering `va`, scanning
/// in table order and ignoring sections whose data reads out of bounds.
pub open spec fn spec_first_data_at(ss: Seq<PEFSectionHeader>, b: Seq<u8>, va: u32, i: int) -> Option<Seq<u8>>
    decreases ss.len() - i,
{
    if i < 0 || i >= ss.len() {
        None
    } else {
        match spec_data_at(ss[i], b, va) {
            Some(d) => Some(d),
            None => spec_first_data_at(ss, b, va, i + 1),
        }
    }
}

/// The first section at or after position `i` that contains `va` and has
/// in-bounds data, scanning in table order.
pub open spec fn spec_first_data_containing(ss: Seq<PEFSectionHeader>, b: Seq<u8>, va: u32, i: int) -> Option<(Seq<u8>, u32)>
    decreases ss.len() - i,
{
    if i < 0 || i >= ss.len() {
        None
    } else {
        match spec_data_containing(ss[i], b, va) {
            Some(d) => Some(d),
            None => spec_first_data_containing(ss, b, va, i + 1),
        }
    }
}

/// The first section at or after position `i` whose address range contains
/// `va`, scanning in table order.
pub open spec fn spec_first_containing(ss: Seq<PEFSectionHeader>, va: u32, i: int) -> Option<PEFSectionHeader>
    decreases ss.len() - i,
{
    if i < 0 || i >= ss.len() {
        None
    } else if spec_contains_rva(ss[i], va) {
        Some(ss[i])
    } else {
        spec_first_containing(ss, va, i + 1)
    }
}

/// The largest file offset used by any section's on-disk contents: the
/// maximum of `container_offset + packed_size` over the sections.
pub open spec fn spec_max_file_offset(ss: Seq<PEFSectionHeader>) -> int
    decreases ss.len(),
{
    if ss.len() == 0 {
        0
    } else {
        let rest = spec_max_file_offset(ss.drop_last());
        let end = ss.last().container_offset + ss.last().packed_size;
        if end > rest {
            end
        } else {
            rest
        }
    }
}

impl SectionTable {
    /// The section headers, in table order.
    ///
    /// Warning: section indices elsewhere in the format start at 1.
    pub fn iter(&self) -> (r: &[PEFSectionHeader])
        ensures
            r@ == self@,
    {
        self.sections.as_slice()
    }

    /// The section headers paired with their 1-based indices, in table order.
    pub fn enumerate(&self) -> (r: Vec<(SectionIndex, PEFSectionHeader)>)
        ensures
            r@.len() == self@.len(),
            forall|i: int| 0 <= i < self@.len() ==>
                (#[trigger] r@[i]).0 == SectionIndex((i + 1) as usize)
                    && r@[i].1 == self@[i],
    {
        let n = self.sections.len();
        let mut out: Vec<(SectionIndex, PEFSectionHeader)> = Vec::new();
        let mut i: usize = 0;
        while i < n
            invariant
                0 <= i <= n,
                n == self@.len(),
                out@.len() == i,
                forall|j: int| 0 <= j < i ==>
                    (#[trigger] out@[j]).0 == SectionIndex((j + 1) as usize)
                        && out@[j].1 == self@[j],
            decreases n - i,
        {
            out.push((SectionIndex(i + 1), self.sections[i]));
            i = i + 1;
        }
        out
    }

    /// Return true if the section table is empty.
    pub fn is_empty(&self) -> (r: bool)
        ensures
            r == (self@.len() == 0),
    {
        self.sections.is_empty()
    }

    /// The number of section headers.
    pub fn len(&self) -> (r: usize)
        ensures
            r == self@.len(),
    {
        self.sections.len()
    }

    /// The number of leading sections that are instantiated at run time.
    pub fn inst_count(&self) -> (r: usize)
        ensures
            r == self.spec_inst_count(),
    {
        self.inst_count
    }

    /// Return the section header at the given 1-based index.
    pub fn section(&self, index: SectionIndex) -> (r: Result<PEFSectionHeader, Error>)
        ensures
            match r {
                Ok(h) => 1 <= index.0 <= self@.len() && h == self@[index.0 - 1],
                Err(Error::InvalidIndex) => !(1 <= index.0 <= self@.len()),
                Err(_) => false,
            },
    {
        if index.0 >= 1 && index.0 <= self.sections.len() {
            Ok(self.sections[index.0 - 1])
        } else {
            Err(Error::InvalidIndex)
        }
    }

    /// Return the first section, in table order, whose name resolved through
    /// the name table `strings` equals `name`, with its 1-based index.
    ///
    /// Ignores unnamed sections and sections with invalid names.
    pub fn section_by_name(&self, strings: &[u8], name: &[u8]) -> (r: Option<(SectionIndex, PEFSectionHeader)>)
        ensures
            match r {
                Some(p) => {
                    &&& 1 <= p.0.0 <= self@.len()
                    &&& p.1 == self@[p.0.0 - 1]
                    &&& spec_name_matches(p.1, strings@, name@)
                    &&& forall|j: int| 0 <= j < p.0.0 - 1 ==>
                        !spec_name_matches(#[trigger] self@[j], strings@, name@)
                },
                None => forall|j: int| 0 <= j < self@.len() ==>
                    !spec_name_matches(#[trigger] self@[j], strings@, name@),
            },
    {
        let n = self.sections.len();
        let mut i: usize = 0;
        while i < n
            invariant
                0 <= i <= n,
                n == self@.len(),
                forall|j: int| 0 <= j < i ==>
                    !spec_name_matches(#[trigger] self@[j], strings@, name@),
            decreases n - i,
        {
            let h = self.sections[i];
            if h.name_offset >= 0 {
                match read_cstr(strings, h.name_offset as usize) {
                    Some(s) => {
                        if bytes_equal(s, name) {
                            return Some((SectionIndex(i + 1), h));
                        }
                    },
                    None => {},
                }
            }
            i = i + 1;
        }
        None
    }

    /// Compute the maximum file offset used by the sections' on-disk
    /// contents. This usually matches the end of the file, unless the
    /// container carries a data overlay past the last section.
    pub fn max_section_file_offset(&self) -> (r: u64)
        ensures
            r == spec_max_file_offset(self@),
    {
        let n = self.sections.len();
        let mut max: u64 = 0;
        let mut i: usize = 0;
        while i < n
            invariant
                0 <= i <= n,
                n == self@.len(),
                max == spec_max_file_offset(self@.take(i as int)),
            decreases n - i,
        {
            let h = self.sections[i];
            let end = (h.container_offset as u64) + (h.packed_size as u64);
            if end > max {
                max = end;
            }
            proof {
                assert(self@.take(i + 1).drop_last() =~= self@.take(i as int));
                assert(self@.take(i + 1).last() == self@[i as int]);
            }
            i = i + 1;
        }
        proof {
            assert(self@.take(n as int) =~= self@);
        }
        max
    }

    /// Return the file offset of the given virtual address and the size up to
    /// the end of the first section, in table order, whose file range covers
    /// it.
    pub fn pe_file_range_at(&self, va: u32) -> (r: Option<(u32, u32)>)
        ensures
            r == spec_first_file_range_at(self@, va, 0),
    {
        let n = self.sections.len();
        let mut i: usize = 0;
        while i < n
            invariant
                0 <= i <= n,
                n == self@.len(),
                spec_first_file_range_at(self@, va, 0)
                    == spec_first_file_range_at(self@, va, i as int),
            decreases n - i,
        {
            match self.sections[i].pef_file_range_at(va) {
                Some(p) => {
                    return Some(p);
                },
                None => {},
            }
            i = i + 1;
        }
        None
    }

    /// Return the data starting at the given virtual address, up to the end
    /// of the first section, in table order, that covers it.
    ///
    /// Ignores sections with out-of-bounds data.
    pub fn pe_data_at<'a>(&self, data: &'a [u8], va: u32) -> (r: Option<&'a [u8]>)
        ensures
            match r {
                Some(s) => spec_first_data_at(self@, data@, va, 0) == Some(s@),
                None => spec_first_data_at(self@, data@, va, 0) is None,
            },
    {
        let n = self.sections.len();
        let mut i: usize = 0;
        while i < n
            invariant
                0 <= i <= n,
                n == self@.len(),
                spec_first_data_at(self@, data@, va, 0)
                    == spec_first_data_at(self@, data@, va, i as int),
            decreases n - i,
        {
            match self.sections[i].pe_data_at(data, va) {
                Some(s) => {
                    return Some(s);
                },
                None => {},
            }
            i = i + 1;
        }
        None
    }

    /// Return the data and virtual address of the first section, in table
    /// order, that contains the given virtual address.
    ///
    /// Ignores sections with out-of-bounds data.
    pub fn pe_data_containing<'a>(&self, data: &'a [u8], va: u32) -> (r: Option<(&'a [u8], u32)>)
        ensures
            match r {
                Some(p) => spec_first_data_containing(self@, data@, va, 0) == Some((p.0@, p.1)),
                None => spec_first_data_containing(self@, data@, va, 0) is None,
            },
    {
        let n = self.sections.len();
        let mut i: usize = 0;
        while i < n
            invariant
                0 <= i <= n,
                n == self@.len(),
                spec_first_data_containing(self@, data@, va, 0)
                    == spec_first_data_containing(self@, data@, va, i as int),
            decreases n - i,
        {
            match self.sections[i].pe_data_containing(data, va) {
                Some(p) => {
                    return Some(p);
                },
                None => {},
            }
            i = i + 1;
        }
        None
    }

    /// Return the first section, in table order, whose address range contains
    /// the given virtual address.
    pub fn section_containing(&self, va: u32) -> (r: Option<PEFSectionHeader>)
        ensures
            r == spec_first_containing(self@, va, 0),
    {
        let n = self.sections.len();
        let mut i: usize = 0;
        while i < n
            invariant
                0 <= i <= n,
                n == self@.len(),
                spec_first_containing(self@, va, 0)
                    == spec_first_containing(self@, va, i as int),
            decreases n - i,
        {
            let h = self.sections[i];
            if h.contains_rva(va) {
                return Some(h);
            }
            i = i + 1;
        }
        None
    }
}



/// The in-memory alignment named by a power-of-two exponent; exponents of
/// 64 or more cannot be represented in 64 bits and report zero.
pub open spec fn spec_align(a: u8) -> u64 {
    if a >= 64 {
        0u64
    } else {
        1u64 << a
    }
}

/// Compute the in-memory alignment named by a power-of-two exponent.
pub fn align_of_exponent(a: u8) -> (r: u64)
    ensures
        r == spec_align(a),
{
    if a >= 64 {
        0
    } else {
        1u64 << a
    }
}

/// A loadable (instantiated) section of a container, with its memory
/// geometry.
#[derive(Debug, Clone, Copy)]
pub struct PefSegment<'data, 'file> {
    /// The file the segment belongs to.
    pub file: &'file PefFile<'data>,
    /// The segment's section header.
    pub section: PEFSectionHeader,
}

impl<'data, 'file> PefSegment<'data, 'file> {
    /// Get the file containing this segment.
    pub fn pe_file(&self) -> (r: &'file PefFile<'data>)
        ensures
            r == self.file,
    {
        self.file
    }

    /// Get the raw section header.
    pub fn pe_section(&self) -> (r: PEFSectionHeader)
        ensures
            r == self.section,
    {
        self.section
    }

    /// The segment's preferred in-memory address.
    pub fn address(&self) -> (r: u64)
        ensures
            r == self.section.default_address,
    {
        self.section.default_address as u64
    }

    /// The segment's total in-memory size.
    pub fn size(&self) -> (r: u64)
        ensures
            r == self.section.total_size,
    {
        self.section.total_size as u64
    }

    /// The segment's in-memory alignment in bytes.
    pub fn align(&self) -> (r: u64)
        ensures
            r == spec_align(self.section.alignment),
    {
        align_of_exponent(self.section.alignment)
    }

    /// The offset and size of the segment's contents in the file.
    pub fn file_range(&self) -> (r: (u64, u64))
        ensures
            r.0 == self.section.container_offset,
            r.1 == spec_file_size(self.section),
    {
        let (off, size) = self.section.pef_file_range();
        (off as u64, size as u64)
    }

    /// The segment's file-range bytes.
    pub fn data(&self) -> (r: Result<&'data [u8], Error>)
        ensures
            match r {
                Ok(s) => spec_data_in_bounds(self.section, self.file.spec_data())
                    && s@ == spec_data(self.section, self.file.spec_data()),
                Err(Error::OutOfBounds) => !spec_data_in_bounds(self.section,
                    self.file.spec_data()),
                Err(_) => false,
            },
    {
        self.section.pe_data(self.file.data())
    }
}

/// An iterator for the loadable (instantiated) sections of a container.
#[derive(Debug, Clone)]
pub struct PefSegmentIterator<'data, 'file> {
    /// The file whose segments are iterated.
    pub file: &'file PefFile<'data>,
    /// The parsed section table.
    pub table: SectionTable,
    /// The position of the next segment to yield.
    pub next: usize,
}

impl<'data, 'file> PefSegmentIterator<'data, 'file> {
    /// Yield the next instantiated section as a segment.
    pub fn next(&mut self) -> (r: Option<PefSegment<'data, 'file>>)
        requires
            old(self).table.wf(),
        ensures
            final(self).file == old(self).file,
            final(self).table == old(self).table,
            old(self).next < old(self).table.spec_inst_count() ==> {
                &&& (r matches Some(s) && s.file == old(self).file
                    && s.section == old(self).table@[old(self).next as int])
                &&& final(self).next == old(self).next + 1
            },
            old(self).next >= old(self).table.spec_inst_count() ==> r is None
                && final(self).next == old(self).next,
    {
        proof {
            self.table.lemma_wf();
        }
        if self.next < self.table.inst_count() {
            let section = match self.table.section(SectionIndex(self.next + 1)) {
                Ok(h) => h,
                Err(_) => {
                    return None;
                },
            };
            self.next = self.next + 1;
            Some(PefSegment { file: self.file, section })
        } else {
            None
        }
    }
}

/// A section view of a container, with its 1-based index.
#[derive(Debug, Clone, Copy)]
pub struct PefSection<'data, 'file> {
    /// The file the section belongs to.
    pub file: &'file PefFile<'data>,
    /// The section's 1-based index.
    pub index: SectionIndex,
    /// The section's header.
    pub section: PEFSectionHeader,
}

impl<'data, 'file> PefSection<'data, 'file> {
    /// Get the file containing this section.
    pub fn pe_file(&self) -> (r: &'file PefFile<'data>)
        ensures
            r == self.file,
    {
        self.file
    }

    /// Get the raw section header.
    pub fn pe_section(&self) -> (r: PEFSectionHeader)
        ensures
            r == self.section,
    {
        self.section
    }

    /// The section's 1-based index.
    pub fn index(&self) -> (r: SectionIndex)
        ensures
            r == self.index,
    {
        self.index
    }

    /// The section's preferred in-memory address.
    pub fn address(&self) -> (r: u64)
        ensures
            r == self.section.default_address,
    {
        self.section.default_address as u64
    }

    /// The section's total in-memory size.
    pub fn size(&self) -> (r: u64)
        ensures
            r == self.section.total_size,
    {
        self.section.total_size as u64
    }

    /// The section's in-memory alignment in bytes.
    pub fn align(&self) -> (r: u64)
        ensures
            r == spec_align(self.section.alignment),
    {
        align_of_exponent(self.section.alignment)
    }

    /// The offset and size of the section's contents in the file.
    pub fn file_range(&self) -> (r: Option<(u64, u64)>)
        ensures
            r matches Some(p) && p.0 == self.section.container_offset
                && p.1 == spec_file_size(self.section),
    {
        let (off, size) = self.section.pef_file_range();
        Some((off as u64, size as u64))
    }

    /// The section's file-range bytes.
    pub fn data(&self) -> (r: Result<&'data [u8], Error>)
        ensures
            match r {
                Ok(s) => spec_data_in_bounds(self.section, self.file.spec_data())
                    && s@ == spec_data(self.section, self.file.spec_data()),
                Err(Error::OutOfBounds) => !spec_data_in_bounds(self.section,
                    self.file.spec_data()),
                Err(_) => false,
            },
    {
        self.section.pe_data(self.file.data())
    }

    /// The section's content kind.
    pub fn kind(&self) -> (r: SectionKind)
        ensures
            r == self.section.section_kind,
    {
        self.section.section_kind
    }

    /// The section's name bytes, resolved through the section name table.
    ///
    /// An unnamed section (negative name offset), a name table past the end
    /// of the file, or an unterminated name is [`Error::OutOfBounds`].
    pub fn name_bytes(&self) -> (r: Result<&'data [u8], Error>)
        ensures
            match r {
                Ok(nb) => self.section.name_offset >= 0 && spec_cstr(
                    self.file.spec_data().skip(self.file.spec_name_table_offset()),
                    self.section.name_offset as int) == Some(nb@),
                Err(Error::OutOfBounds) => self.section.name_offset < 0
                    || self.file.spec_name_table_offset() > self.file.spec_data().len()
                    || spec_cstr(
                        self.file.spec_data().skip(self.file.spec_name_table_offset()),
                        self.section.name_offset as int) is None,
                Err(_) => false,
            },
    {
        if self.section.name_offset < 0 {
            return Err(Error::OutOfBounds);
        }
        let strings = self.file.name_table()?;
        match read_cstr(strings, self.section.name_offset as usize) {
            Some(nb) => Ok(nb),
            None => Err(Error::OutOfBounds),
        }
    }

    /// The section's name as text: the UTF-8 decoding of the name bytes.
    ///
    /// Fails with [`Error::NonUtf8Name`] exactly when the resolved name is
    /// not valid UTF-8; the raw bytes remain accessible through
    /// [`PefSection::name_bytes`], whose errors propagate unchanged.
    pub fn name(&self) -> (r: Result<&'data str, Error>)
        ensures
            match r {
                Ok(s) => self.section.name_offset >= 0
                    && (spec_cstr(
                        self.file.spec_data().skip(self.file.spec_name_table_offset()),
                        self.section.name_offset as int) matches Some(nb)
                        && vstd::utf8::valid_utf8(nb) && s.spec_bytes() == nb),
                Err(Error::NonUtf8Name) => self.section.name_offset >= 0
                    && (spec_cstr(
                        self.file.spec_data().skip(self.file.spec_name_table_offset()),
                        self.section.name_offset as int) matches Some(nb)
                        && !vstd::utf8::valid_utf8(nb)),
                Err(Error::OutOfBounds) => self.section.name_offset < 0
                    || self.file.spec_name_table_offset() > self.file.spec_data().len()
                    || spec_cstr(
                        self.file.spec_data().skip(self.file.spec_name_table_offset()),
                        self.section.name_offset as int) is None,
                Err(_) => false,
            },
    {
        let nb = self.name_bytes()?;
        match crate::file::utf8_str(nb) {
            Some(s) => Ok(s),
            None => Err(Error::NonUtf8Name),
        }
    }

    /// This format records no segment names for sections.
    pub fn segment_name_bytes(&self) -> (r: Result<Option<&'data [u8]>, Error>)
        ensures
            r matches Ok(n) && n is None,
    {
        Ok(None)
    }

    /// This format records no segment names for sections.
    pub fn segment_name(&self) -> (r: Result<Option<&'data str>, Error>)
        ensures
            r matches Ok(n) && n is None,
    {
        Ok(None)
    }

    /// The section's relocations under the shared per-section relocation
    /// model: always empty, since this format keeps relocations as
    /// loader-relative instruction streams exposed separately.
    pub fn relocations(&self) -> (r: PefRelocationIterator)
    {
        PefRelocationIterator {}
    }
}

/// An iterator for the sections of a container.
#[derive(Debug, Clone)]
pub struct PefSectionIterator<'data, 'file> {
    /// The file whose sections are iterated.
    pub file: &'file PefFile<'data>,
    /// The parsed section table.
    pub table: SectionTable,
    /// The position of the next section to yield.
    pub next: usize,
}

impl<'data, 'file> PefSectionIterator<'data, 'file> {
    /// Yield the next section, with its 1-based index.
    pub fn next(&mut self) -> (r: Option<PefSection<'data, 'file>>)
        ensures
            final(self).file == old(self).file,
            final(self).table == old(self).table,
            old(self).next < old(self).table@.len() ==> {
                &&& (r matches Some(s) && s.file == old(self).file
                    && s.index == SectionIndex((old(self).next + 1) as usize)
                    && s.section == old(self).table@[old(self).next as int])
                &&& final(self).next == old(self).next + 1
            },
            old(self).next >= old(self).table@.len() ==> r is None
                && final(self).next == old(self).next,
    {
        if self.next < self.table.len() {
            let section = match self.table.section(SectionIndex(self.next + 1)) {
                Ok(h) => h,
                Err(_) => {
                    return None;
                },
            };
            let index = SectionIndex(self.next + 1);
            self.next = self.next + 1;
            Some(PefSection { file: self.file, index, section })
        } else {
            None
        }
    }
}

/// A COMDAT section group of a container. This format has none; the type
/// exists to satisfy the shared object-view shape.
#[derive(Debug, Clone, Copy)]
pub struct PefComdat<'data, 'file> {
    /// The file the group would belong to.
    pub file: &'file PefFile<'data>,
}

/// An iterator for the COMDAT section groups of a container: always empty.
#[derive(Debug, Clone, Copy)]
pub struct PefComdatIterator<'data, 'file> {
    /// The file whose groups are iterated.
    pub file: &'file PefFile<'data>,
}

impl<'data, 'file> PefComdatIterator<'data, 'file> {
    /// This format has no COMDAT groups.
    pub fn next(&mut self) -> (r: Option<PefComdat<'data, 'file>>)
        ensures
            r is None,
    {
        None
    }
}

/// An iterator for the sections of a COMDAT group: always empty.
#[derive(Debug, Clone, Copy)]
pub struct PefComdatSectionIterator<'data, 'file> {
    /// The file whose groups are iterated.
    pub file: &'file PefFile<'data>,
}

impl<'data, 'file> PefComdatSectionIterator<'data, 'file> {
    /// This format has no COMDAT groups.
    pub fn next(&mut self) -> (r: Option<SectionIndex>)
        ensures
            r is None,
    {
        None
    }
}

/// An iterator for a section's relocations under the shared per-section
/// model: always empty for this format (see [`PefSection::relocations`]).
#[derive(Debug, Clone, Copy)]
pub struct PefRelocationIterator {}

impl PefRelocationIterator {
    /// This format exposes no per-section relocations.
    pub fn next(&mut self) -> (r: Option<(u64, Relocation)>)
        ensures
            r is None,
    {
        None
    }
}


} // verus!
