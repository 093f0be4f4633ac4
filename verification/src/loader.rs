//! The loader section: imported libraries and symbols, the loader string
//! table, relocation stream headers, and the export hash table.
//!
//! Every offset here is relative to the loader section's start. The loader
//! info header sits at offset zero; the imported-library records follow it
//! immediately, 24 bytes each; the imported-symbol records follow the
//! libraries, 4 bytes each, a packed (class, name-offset) word. Names are
//! null-terminated strings at `loader_strings_offset` plus the record's name
//! offset. The export hash table sits at `export_hash_offset`: one 32-bit
//! bucket head per bucket (the all-ones value meaning an empty bucket),
//! followed by the 20-byte chain-entry records: a packed (class,
//! name-offset) word, the symbol's byte offset, its 1-based section index,
//! the index of the next entry on the same bucket chain (all-ones for none),
//! and the number of characters hashed.

use vstd::prelude::*;
use crate::endian::{be_u32, be_i32, read_u8, read_u32_be, read_i32_be};
use crate::error::Error;
use crate::pef::{PEFLoaderInfoHeader, spec_loader_info_header, LOADER_INFO_HEADER_SIZE};
use crate::section::{spec_cstr, read_cstr, bytes_equal, SectionIndex};

verus! {

broadcast use vstd::slice::group_slice_axioms;

/// Size in bytes of one imported-library record on disk.
pub const IMPORTED_LIBRARY_SIZE: u32 = 24;

/// Size in bytes of one imported-symbol record on disk.
pub const IMPORTED_SYMBOL_SIZE: u32 = 4;

/// Size in bytes of one export chain-entry record on disk.
pub const EXPORT_ENTRY_SIZE: u32 = 20;

/// The value of a bucket head or chain link that points at no entry.
pub const NO_EXPORT_INDEX: u32 = 0xFFFF_FFFF;

/// The class of an imported or exported symbol.
#[derive(Debug, Clone, Copy, PartialEq, Eq, Structural)]
pub enum SymbolClass {
    /// A code address.
    Code,
    /// A data address.
    Data,
    /// A standard procedure pointer.
    TVector,
    /// A direct data area (table of contents) symbol.
    TOC,
    /// A linker-inserted glue symbol.
    Glue,
}

/// The symbol class encoded by a raw class value, if it is one of the
/// closed set.
pub open spec fn spec_symbol_class(v: u8) -> Option<SymbolClass> {
    if v == 0 { Some(SymbolClass::Code) }
    else if v == 1 { Some(SymbolClass::Data) }
    else if v == 2 { Some(SymbolClass::TVector) }
    else if v == 3 { Some(SymbolClass::TOC) }
    else if v == 4 { Some(SymbolClass::Glue) }
    else { None }
}

/// Decode a raw symbol-class value.
pub fn symbol_class_from_u8(v: u8) -> (r: Option<SymbolClass>)
    ensures
        r == spec_symbol_class(v),
{
    match v {
        0 => Some(SymbolClass::Code),
        1 => Some(SymbolClass::Data),
        2 => Some(SymbolClass::TVector),
        3 => Some(SymbolClass::TOC),
        4 => Some(SymbolClass::Glue),
        _ => None,
    }
}

/// One imported library: its name, the contiguous range of imported-symbol
/// records it owns, and its options.
#[derive(Debug, Clone, Copy, PartialEq, Eq, Structural)]
pub struct ImportedLibrary {
    /// Offset of the library's name in the loader string table.
    pub name_offset: u32,
    /// Version information checked at load time.
    pub old_imp_version: u32,
    /// Version information checked at load time.
    pub current_version: u32,
    /// The number of imported-symbol records this library owns.
    pub imported_symbol_count: u32,
    /// The index of the first imported-symbol record this library owns.
    pub first_imported_symbol: u32,
    /// Option bits, such as the weak-link flag.
    pub options: u8,
}

/// One imported symbol: its class, weak-import flag and the offset of its
/// name in the loader string table.
#[derive(Debug, Clone, Copy, PartialEq, Eq, Structural)]
pub struct ImportedSymbol {
    /// The symbol's class.
    pub class: SymbolClass,
    /// Whether the import is weak.
    pub weak: bool,
    /// Offset of the symbol's name in the loader string table.
    pub name_offset: u32,
}

/// The imported-library record whose first byte sits at `off` in the loader
/// section's contents `b`.
pub open spec fn spec_imported_library(b: Seq<u8>, off: int) -> ImportedLibrary {
    ImportedLibrary {
        name_offset: be_u32(b, off) as u32,
        old_imp_version: be_u32(b, off + 4) as u32,
        current_version: be_u32(b, off + 8) as u32,
        imported_symbol_count: be_u32(b, off + 12) as u32,
        first_imported_symbol: be_u32(b, off + 16) as u32,
        options: b[off + 20],
    }
}

/// The imported-symbol record encoded by the 32-bit word at `off` in the
/// loader section's contents `b`: the class (with its weak bit) in the top
/// byte, the name offset in the low 24 bits. `None` if the class value is
/// outside the closed set.
pub open spec fn spec_imported_symbol(b: Seq<u8>, off: int) -> Option<ImportedSymbol> {
    let w = be_u32(b, off);
    let cls = w / 0x100_0000;
    let weak = cls >= 0x80;
    let base = if weak { cls - 0x80 } else { cls };
    match spec_symbol_class(base as u8) {
        Some(class) => Some(ImportedSymbol {
            class,
            weak,
            name_offset: (w % 0x100_0000) as u32,
        }),
        None => None,
    }
}

impl PEFLoaderInfoHeader {
    /// Read the loader info header from the start of the loader section's
    /// contents.
    pub fn parse(loader: &[u8]) -> (r: Result<PEFLoaderInfoHeader, Error>)
        ensures
            match r {
                Ok(h) => loader@.len() >= LOADER_INFO_HEADER_SIZE
                    && h == spec_loader_info_header(loader@),
                Err(Error::TooShort) => loader@.len() < LOADER_INFO_HEADER_SIZE,
                Err(_) => false,
            },
    {
        if loader.len() < LOADER_INFO_HEADER_SIZE as usize {
            return Err(Error::TooShort);
        }
        Ok(PEFLoaderInfoHeader {
            main_section: read_i32_be(loader, 0),
            main_offset: read_u32_be(loader, 4),
            init_section: read_i32_be(loader, 8),
            init_offset: read_u32_be(loader, 12),
            term_section: read_i32_be(loader, 16),
            term_offset: read_u32_be(loader, 20),
            imported_library_count: read_u32_be(loader, 24),
            total_imported_symbol_count: read_u32_be(loader, 28),
            reloc_section_count: read_u32_be(loader, 32),
            reloc_instr_offset: read_u32_be(loader, 36),
            loader_strings_offset: read_u32_be(loader, 40),
            export_hash_offset: read_u32_be(loader, 44),
            export_hash_table_power: read_u32_be(loader, 48),
            exported_symbol_count: read_u32_be(loader, 52),
        })
    }
}

/// The number of imported symbols owned by the first `i` libraries.
pub open spec fn spec_prefix_count(libs: Seq<ImportedLibrary>, i: int) -> int
    decreases i,
{
    if i <= 0 {
        0
    } else {
        spec_prefix_count(libs, i - 1) + libs[i - 1].imported_symbol_count
    }
}

/// The library ranges tile the imported-symbol array: each library's range
/// starts where the previous one ended, and together they end exactly at
/// `total`.
pub open spec fn spec_import_tiling(libs: Seq<ImportedLibrary>, total: int) -> bool {
    &&& forall|i: int| 0 <= i < libs.len() ==>
        (#[trigger] libs[i]).first_imported_symbol == spec_prefix_count(libs, i)
    &&& spec_prefix_count(libs, libs.len() as int) == total
}

/// The number of imported symbols owned by the first `i` library records
/// of the loader section's contents, read straight off the bytes.
pub open spec fn spec_raw_prefix(b: Seq<u8>, i: int) -> int
    decreases i,
{
    if i <= 0 {
        0
    } else {
        spec_raw_prefix(b, i - 1) + spec_imported_library(b,
            LOADER_INFO_HEADER_SIZE + IMPORTED_LIBRARY_SIZE * (i - 1)).imported_symbol_count
    }
}

/// The library records of the loader section's contents tile the
/// imported-symbol array `[0, total)` in table order.
pub open spec fn spec_raw_tiling(b: Seq<u8>, info: PEFLoaderInfoHeader) -> bool {
    &&& forall|i: int| 0 <= i < info.imported_library_count as int ==>
        (#[trigger] spec_imported_library(b, LOADER_INFO_HEADER_SIZE
            + IMPORTED_LIBRARY_SIZE * i)).first_imported_symbol == spec_raw_prefix(b, i)
    &&& spec_raw_prefix(b, info.imported_library_count as int)
        == info.total_imported_symbol_count
}

/// A parsed prefix count equals the raw one when the parsed records equal
/// the raw records.
proof fn lemma_prefix_eq_raw(b: Seq<u8>, libs: Seq<ImportedLibrary>, n: int)
    requires
        0 <= n <= libs.len(),
        forall|j: int| 0 <= j < n ==>
            libs[j] == #[trigger] spec_imported_library(b,
                LOADER_INFO_HEADER_SIZE + IMPORTED_LIBRARY_SIZE * j),
    ensures
        spec_prefix_count(libs, n) == spec_raw_prefix(b, n),
    decreases n,
{
    if n > 0 {
        lemma_prefix_eq_raw(b, libs, n - 1);
    }
}

/// Prefix counts never decrease.
pub proof fn lemma_prefix_monotone(libs: Seq<ImportedLibrary>, i: int, j: int)
    requires
        0 <= i <= j <= libs.len(),
    ensures
        spec_prefix_count(libs, i) <= spec_prefix_count(libs, j),
    decreases j - i,
{
    if i < j {
        lemma_prefix_monotone(libs, i, j - 1);
    }
}

/// When the ranges tile `[0, total)`, every symbol index below `total` falls
/// in the range of exactly one library.
pub proof fn lemma_import_tiling_covers(libs: Seq<ImportedLibrary>, total: int, s: int)
    requires
        spec_import_tiling(libs, total),
        0 <= s < total,
    ensures
        exists|k: int| 0 <= k < libs.len()
            && (#[trigger] libs[k]).first_imported_symbol <= s
                < libs[k].first_imported_symbol + libs[k].imported_symbol_count,
        forall|k1: int, k2: int|
            #![trigger libs[k1], libs[k2]]
            0 <= k1 < libs.len() && 0 <= k2 < libs.len()
                && libs[k1].first_imported_symbol <= s
                    < libs[k1].first_imported_symbol + libs[k1].imported_symbol_count
                && libs[k2].first_imported_symbol <= s
                    < libs[k2].first_imported_symbol + libs[k2].imported_symbol_count
            ==> k1 == k2,
{
    lemma_tiling_covers_prefix(libs, libs.len() as int, s);
    assert forall|k1: int, k2: int|
        #![trigger libs[k1], libs[k2]]
        0 <= k1 < libs.len() && 0 <= k2 < libs.len()
            && libs[k1].first_imported_symbol <= s
                < libs[k1].first_imported_symbol + libs[k1].imported_symbol_count
            && libs[k2].first_imported_symbol <= s
                < libs[k2].first_imported_symbol + libs[k2].imported_symbol_count
        implies k1 == k2 by {
        if k1 < k2 {
            lemma_prefix_monotone(libs, k1 + 1, k2);
            assert(false);
        }
        if k2 < k1 {
            lemma_prefix_monotone(libs, k2 + 1, k1);
            assert(false);
        }
    }
}

/// Helper for coverage: a symbol index below the `n`-th prefix count falls
/// in some library among the first `n`.
proof fn lemma_tiling_covers_prefix(libs: Seq<ImportedLibrary>, n: int, s: int)
    requires
        0 <= n <= libs.len(),
        forall|i: int| 0 <= i < libs.len() ==>
            (#[trigger] libs[i]).first_imported_symbol == spec_prefix_count(libs, i),
        0 <= s < spec_prefix_count(libs, n),
    ensures
        exists|k: int| 0 <= k < n
            && (#[trigger] libs[k]).first_imported_symbol <= s
                < libs[k].first_imported_symbol + libs[k].imported_symbol_count,
    decreases n,
{
    if n > 0 {
        if s >= spec_prefix_count(libs, n - 1) {
            assert(libs[n - 1].first_imported_symbol <= s
                < libs[n - 1].first_imported_symbol + libs[n - 1].imported_symbol_count);
        } else {
            lemma_tiling_covers_prefix(libs, n - 1, s);
        }
    }
}

/// The imported-library records fit inside the loader section's contents.
pub open spec fn spec_libs_fit(b: Seq<u8>, info: PEFLoaderInfoHeader) -> bool {
    LOADER_INFO_HEADER_SIZE + IMPORTED_LIBRARY_SIZE * info.imported_library_count <= b.len()
}

/// The imported-symbol records fit inside the loader section's contents.
pub open spec fn spec_syms_fit(b: Seq<u8>, info: PEFLoaderInfoHeader) -> bool {
    LOADER_INFO_HEADER_SIZE + IMPORTED_LIBRARY_SIZE * info.imported_library_count
        + IMPORTED_SYMBOL_SIZE * info.total_imported_symbol_count <= b.len()
}

/// The `i`-th imported-library record of the loader section's contents.
pub open spec fn spec_raw_library(b: Seq<u8>, info: PEFLoaderInfoHeader, i: int) -> ImportedLibrary {
    spec_imported_library(b, LOADER_INFO_HEADER_SIZE + IMPORTED_LIBRARY_SIZE * i)
}

/// The `j`-th imported-symbol record of the loader section's contents.
pub open spec fn spec_raw_symbol(b: Seq<u8>, info: PEFLoaderInfoHeader, j: int) -> ImportedSymbol {
    spec_imported_symbol(b, LOADER_INFO_HEADER_SIZE + IMPORTED_LIBRARY_SIZE
        * info.imported_library_count + IMPORTED_SYMBOL_SIZE * j)->Some_0
}

/// Every imported-symbol record carries a known class.
pub open spec fn spec_syms_decodable(b: Seq<u8>, info: PEFLoaderInfoHeader) -> bool {
    forall|j: int| 0 <= j < info.total_imported_symbol_count as int ==>
        (#[trigger] spec_imported_symbol(b, LOADER_INFO_HEADER_SIZE + IMPORTED_LIBRARY_SIZE
            * info.imported_library_count + IMPORTED_SYMBOL_SIZE * j)) is Some
}

/// Every imported library's and imported symbol's name resolves in the
/// loader string table.
pub open spec fn spec_import_names_ok(b: Seq<u8>, info: PEFLoaderInfoHeader) -> bool {
    &&& forall|k: int| 0 <= k < info.imported_library_count as int ==>
        spec_cstr(b, info.loader_strings_offset
            + (#[trigger] spec_raw_library(b, info, k)).name_offset) is Some
    &&& forall|j: int| 0 <= j < info.total_imported_symbol_count as int ==>
        spec_cstr(b, info.loader_strings_offset
            + (#[trigger] spec_raw_symbol(b, info, j)).name_offset) is Some
}

/// Parse the imported-library records that follow the loader info header.
///
/// Succeeds exactly when all the records lie inside the loader section and
/// their ranges tile the imported-symbol array `[0, total)` in table order
/// with no gaps or overlaps.
pub fn parse_imported_libraries(loader: &[u8], info: &PEFLoaderInfoHeader) -> (r: Result<
    Vec<ImportedLibrary>, Error>)
    ensures
        match r {
            Ok(libs) => {
                &&& LOADER_INFO_HEADER_SIZE + IMPORTED_LIBRARY_SIZE
                    * info.imported_library_count <= loader@.len()
                &&& libs@.len() == info.imported_library_count
                &&& forall|i: int| 0 <= i < libs@.len() ==>
                    libs@[i] == #[trigger] spec_imported_library(loader@,
                        LOADER_INFO_HEADER_SIZE + IMPORTED_LIBRARY_SIZE * i)
                &&& spec_import_tiling(libs@, info.total_imported_symbol_count as int)
                &&& spec_raw_tiling(loader@, *info)
            },
            Err(Error::OutOfBounds) => LOADER_INFO_HEADER_SIZE + IMPORTED_LIBRARY_SIZE
                * info.imported_library_count > loader@.len(),
            Err(Error::InconsistentImportTable) => {
                &&& LOADER_INFO_HEADER_SIZE + IMPORTED_LIBRARY_SIZE
                    * info.imported_library_count <= loader@.len()
                &&& !spec_raw_tiling(loader@, *info)
            },
            Err(_) => false,
        },
{
    let count = info.imported_library_count as usize;
    if (LOADER_INFO_HEADER_SIZE as u64) + (IMPORTED_LIBRARY_SIZE as u64) * (count as u64)
        > loader.len() as u64 {
        return Err(Error::OutOfBounds);
    }
    let mut libs: Vec<ImportedLibrary> = Vec::new();
    let mut acc: u64 = 0;
    let mut i: usize = 0;
    while i < count
        invariant
            0 <= i <= count,
            count == info.imported_library_count,
            LOADER_INFO_HEADER_SIZE + IMPORTED_LIBRARY_SIZE * count <= loader.len(),
            libs@.len() == i,
            forall|j: int| 0 <= j < i ==>
                libs@[j] == #[trigger] spec_imported_library(loader@,
                    LOADER_INFO_HEADER_SIZE + IMPORTED_LIBRARY_SIZE * j),
            acc == spec_prefix_count(libs@, i as int),
            forall|j: int| 0 <= j < i ==>
                (#[trigger] libs@[j]).first_imported_symbol == spec_prefix_count(libs@, j),
            acc <= 0xFFFF_FFFF * 0x1_0000,
        decreases count - i,
    {
        let off = (LOADER_INFO_HEADER_SIZE as usize) + (IMPORTED_LIBRARY_SIZE as usize) * i;
        let lib = ImportedLibrary {
            name_offset: read_u32_be(loader, off),
            old_imp_version: read_u32_be(loader, off + 4),
            current_version: read_u32_be(loader, off + 8),
            imported_symbol_count: read_u32_be(loader, off + 12),
            first_imported_symbol: read_u32_be(loader, off + 16),
            options: read_u8(loader, off + 20),
        };
        if (lib.first_imported_symbol as u64) != acc {
            proof {
                assert(lib == spec_imported_library(loader@,
                    LOADER_INFO_HEADER_SIZE + IMPORTED_LIBRARY_SIZE * (i as int)));
                lemma_prefix_eq_raw(loader@, libs@, i as int);
            }
            return Err(Error::InconsistentImportTable);
        }
        acc = acc + lib.imported_symbol_count as u64;
        let ghost pre_libs = libs@;
        libs.push(lib);
        proof {
            assert forall|j: int| 0 <= j < i + 1 implies
                spec_prefix_count(libs@, j) == spec_prefix_count(pre_libs, j) by {
                lemma_prefix_count_push(pre_libs, lib, j);
            }
        }
        i = i + 1;
    }
    proof {
        assert forall|j: int| 0 <= j < count as int implies
            spec_prefix_count(libs@, j) == spec_raw_prefix(loader@, j) by {
            lemma_prefix_eq_raw(loader@, libs@, j);
        }
        lemma_prefix_eq_raw(loader@, libs@, count as int);
    }
    if acc != info.total_imported_symbol_count as u64 {
        return Err(Error::InconsistentImportTable);
    }
    Ok(libs)
}

/// A prefix count over the first `j` libraries is unchanged by appending a
/// library.
proof fn lemma_prefix_count_push(libs: Seq<ImportedLibrary>, lib: ImportedLibrary, j: int)
    requires
        0 <= j <= libs.len(),
    ensures
        spec_prefix_count(libs.push(lib), j) == spec_prefix_count(libs, j),
    decreases j,
{
    if j > 0 {
        lemma_prefix_count_push(libs, lib, j - 1);
    }
}

/// Parse the imported-symbol records that follow the imported libraries.
pub fn parse_imported_symbols(loader: &[u8], info: &PEFLoaderInfoHeader) -> (r: Result<
    Vec<ImportedSymbol>, Error>)
    ensures
        ({
            let base = LOADER_INFO_HEADER_SIZE + IMPORTED_LIBRARY_SIZE
                * info.imported_library_count;
            match r {
                Ok(syms) => {
                    &&& base + IMPORTED_SYMBOL_SIZE * info.total_imported_symbol_count
                        <= loader@.len()
                    &&& syms@.len() == info.total_imported_symbol_count
                    &&& forall|i: int| 0 <= i < syms@.len() ==>
                        Some(syms@[i]) == #[trigger] spec_imported_symbol(loader@,
                            base + IMPORTED_SYMBOL_SIZE * i)
                },
                Err(Error::OutOfBounds) => base + IMPORTED_SYMBOL_SIZE
                    * info.total_imported_symbol_count > loader@.len(),
                Err(Error::InconsistentImportTable) => {
                    &&& base + IMPORTED_SYMBOL_SIZE * info.total_imported_symbol_count
                        <= loader@.len()
                    &&& exists|i: int| 0 <= i < info.total_imported_symbol_count as int
                        && #[trigger] spec_imported_symbol(loader@,
                            base + IMPORTED_SYMBOL_SIZE * i) is None
                },
                Err(_) => false,
            }
        }),
{
    let count = info.total_imported_symbol_count as usize;
    let libc = info.imported_library_count as usize;
    let ghost gbase = LOADER_INFO_HEADER_SIZE + IMPORTED_LIBRARY_SIZE
        * info.imported_library_count;
    proof {
        assert((IMPORTED_LIBRARY_SIZE as u64) * (libc as u64) <= 24 * 0xFFFF_FFFFu64
            && (IMPORTED_SYMBOL_SIZE as u64) * (count as u64) <= 4 * 0xFFFF_FFFFu64)
            by (nonlinear_arith)
            requires
                libc <= 0xFFFF_FFFF,
                count <= 0xFFFF_FFFF,
                IMPORTED_LIBRARY_SIZE == 24,
                IMPORTED_SYMBOL_SIZE == 4;
    }
    if (LOADER_INFO_HEADER_SIZE as u64) + (IMPORTED_LIBRARY_SIZE as u64) * (libc as u64)
        + (IMPORTED_SYMBOL_SIZE as u64) * (count as u64) > loader.len() as u64 {
        return Err(Error::OutOfBounds);
    }
    let base = (LOADER_INFO_HEADER_SIZE as usize) + (IMPORTED_LIBRARY_SIZE as usize) * libc;
    let mut syms: Vec<ImportedSymbol> = Vec::new();
    let mut i: usize = 0;
    while i < count
        invariant
            0 <= i <= count,
            count == info.total_imported_symbol_count,
            base == gbase,
            gbase == LOADER_INFO_HEADER_SIZE + IMPORTED_LIBRARY_SIZE
                * info.imported_library_count,
            base + IMPORTED_SYMBOL_SIZE * count <= loader.len(),
            syms@.len() == i,
            forall|j: int| 0 <= j < i ==>
                Some(syms@[j]) == #[trigger] spec_imported_symbol(loader@,
                    gbase + IMPORTED_SYMBOL_SIZE * j),
        decreases count - i,
    {
        let w = read_u32_be(loader, base + (IMPORTED_SYMBOL_SIZE as usize) * i);
        let cls = (w / 0x100_0000) as u8;
        let weak = cls >= 0x80;
        let basecls = if weak { cls - 0x80 } else { cls };
        match symbol_class_from_u8(basecls) {
            Some(class) => {
                syms.push(ImportedSymbol {
                    class,
                    weak,
                    name_offset: w % 0x100_0000,
                });
            },
            None => {
                proof {
                    assert(spec_imported_symbol(loader@,
                        gbase + IMPORTED_SYMBOL_SIZE * (i as int)) is None);
                    assert(gbase == LOADER_INFO_HEADER_SIZE + IMPORTED_LIBRARY_SIZE
                        * info.imported_library_count);
                    assert(spec_imported_symbol(loader@,
                        (LOADER_INFO_HEADER_SIZE + IMPORTED_LIBRARY_SIZE
                            * info.imported_library_count)
                            + IMPORTED_SYMBOL_SIZE * (i as int)) is None);
                }
                return Err(Error::InconsistentImportTable);
            },
        }
        i = i + 1;
    }
    Ok(syms)
}


/// Arithmetic (sign-propagating) right shift by 16 of a 32-bit value held
/// as a nonnegative integer.
pub open spec fn spec_asr16(h: int) -> int {
    if h >= 0x8000_0000 {
        h / 0x1_0000 + 0xFFFF_0000
    } else {
        h / 0x1_0000
    }
}

/// One step of the export hash accumulator: shift left by one, subtract the
/// arithmetic right shift by sixteen, add the character, all modulo 2^32.
pub open spec fn spec_hash_step(h: int, c: u8) -> int {
    ((h * 2) % 0x1_0000_0000 + 0x1_0000_0000 - spec_asr16(h) + c) % 0x1_0000_0000
}

/// The hash accumulator over a whole name.
pub open spec fn spec_hash_acc(s: Seq<u8>) -> int
    decreases s.len(),
{
    if s.len() == 0 {
        0
    } else {
        spec_hash_step(spec_hash_acc(s.drop_last()), s.last())
    }
}

/// The accumulator always stays a 32-bit value.
pub proof fn lemma_hash_acc_range(s: Seq<u8>)
    ensures
        0 <= spec_hash_acc(s) < 0x1_0000_0000,
    decreases s.len(),
{
    if s.len() > 0 {
        lemma_hash_acc_range(s.drop_last());
    }
}

/// The export hash word of a name: the hashed length in the top half, the
/// folded accumulator in the bottom half. The accumulator cast loses
/// nothing; see [`lemma_hash_acc_range`].
pub open spec fn spec_hash_word(s: Seq<u8>) -> u32 {
    let h = spec_hash_acc(s) as u32;
    (((s.len() % 0x1_0000) as u32) << 16) | ((h ^ (h >> 16)) & 0xFFFF)
}

/// The number of buckets declared by a power-of-two exponent.
pub open spec fn spec_bucket_count(power: u32) -> u32
    recommends
        power < 32,
{
    1u32 << power
}

/// The bucket a name's hash word falls in.
pub open spec fn spec_bucket_of(s: Seq<u8>, power: u32) -> int {
    (spec_hash_word(s) % spec_bucket_count(power)) as int
}

/// Compute the export hash word of a name.
pub fn hash_word(name: &[u8]) -> (r: u32)
    ensures
        r == spec_hash_word(name@),
{
    let n = name.len();
    let mut h: u32 = 0;
    let mut i: usize = 0;
    proof {
        assert(name@.take(0) =~= Seq::<u8>::empty());
    }
    while i < n
        invariant
            0 <= i <= n,
            n == name@.len(),
            h == spec_hash_acc(name@.take(i as int)),
        decreases n - i,
    {
        let c = read_u8(name, i);
        let shl1: u32 = (((h as u64) * 2) % 0x1_0000_0000) as u32;
        let asr: u32 = if h >= 0x8000_0000 {
            h / 0x1_0000 + 0xFFFF_0000
        } else {
            h / 0x1_0000
        };
        let step: u64 = ((shl1 as u64) + 0x1_0000_0000u64 - (asr as u64) + (c as u64))
            % 0x1_0000_0000;
        proof {
            assert(name@.take(i + 1).drop_last() =~= name@.take(i as int));
            assert(name@.take(i + 1).last() == name@[i as int]);
        }
        h = step as u32;
        i = i + 1;
    }
    proof {
        assert(name@.take(n as int) =~= name@);
    }
    let len16: u32 = (n % 0x1_0000) as u32;
    (len16 << 16) | ((h ^ (h >> 16)) & 0xFFFF)
}

/// One exported symbol, with its name resolved through the loader string
/// table.
#[derive(Debug, Clone)]
pub struct ExportedSymbol {
    /// The symbol's name.
    pub name: Vec<u8>,
    /// The symbol's class.
    pub class: SymbolClass,
    /// The 1-based index of the section holding the symbol.
    pub section_index: i32,
    /// The symbol's byte offset from the start of that section.
    pub symbol_offset: u32,
    /// The number of characters hashed, as recorded in the entry.
    pub hashed_length: u32,
}

/// The export hash table: `2^power` bucket chains over the exported-symbol
/// entries.
#[derive(Debug, Clone)]
pub struct ExportTable {
    power: u32,
    buckets: Vec<Vec<u32>>,
    entries: Vec<ExportedSymbol>,
}

/// The number of `true` values in a sequence of flags.
pub open spec fn spec_count_true(s: Seq<bool>) -> int
    decreases s.len(),
{
    if s.len() == 0 {
        0
    } else {
        spec_count_true(s.drop_last()) + if s.last() { 1int } else { 0int }
    }
}

/// There are never more `true` flags than flags.
pub proof fn lemma_count_true_le(s: Seq<bool>)
    ensures
        0 <= spec_count_true(s) <= s.len(),
    decreases s.len(),
{
    if s.len() > 0 {
        lemma_count_true_le(s.drop_last());
    }
}

/// Setting a `false` flag to `true` raises the count by one.
pub proof fn lemma_count_true_update(s: Seq<bool>, i: int)
    requires
        0 <= i < s.len(),
        !s[i],
    ensures
        spec_count_true(s.update(i, true)) == spec_count_true(s) + 1,
    decreases s.len(),
{
    if i == s.len() - 1 {
        assert(s.update(i, true).drop_last() =~= s.drop_last());
    } else {
        assert(s.update(i, true).drop_last() =~= s.drop_last().update(i, true));
        lemma_count_true_update(s.drop_last(), i);
    }
}

/// When every flag counts, every flag is set.
pub proof fn lemma_count_true_full(s: Seq<bool>)
    requires
        spec_count_true(s) == s.len(),
    ensures
        forall|i: int| 0 <= i < s.len() ==> s[i],
    decreases s.len(),
{
    if s.len() > 0 {
        lemma_count_true_le(s.drop_last());
        lemma_count_true_full(s.drop_last());
        assert forall|i: int| 0 <= i < s.len() implies s[i] by {
            if i < s.len() - 1 {
                assert(s.drop_last()[i]);
            }
        }
    }
}

impl View for ExportTable {
    type V = Seq<ExportedSymbol>;

    /// The exported-symbol entries, in on-disk order.
    closed spec fn view(&self) -> Seq<ExportedSymbol> {
        self.entries@
    }
}

impl ExportTable {
    /// The declared power-of-two exponent of the bucket count.
    pub closed spec fn spec_power(self) -> u32 {
        self.power
    }

    /// The structural invariant of every parsed export table: the bucket
    /// vector has the declared size; every chain member is a valid entry
    /// index whose name hashes to that chain's bucket; every entry's
    /// recorded hashed length agrees with its name; and every entry sits on
    /// the chain of the bucket its name hashes to.
    pub closed spec fn wf(self) -> bool {
        &&& self.power < 32
        &&& self.entries@.len() <= 0xFFFF_FFFF
        &&& self.buckets@.len() == spec_bucket_count(self.power)
        &&& forall|b: int, k: int|
            0 <= b < self.buckets@.len() && 0 <= k < self.buckets@[b]@.len()
            ==> (#[trigger] self.buckets@[b]@[k]) < self.entries@.len()
                && spec_bucket_of(self.entries@[self.buckets@[b]@[k] as int].name@, self.power)
                    == b
        &&& forall|i: int| 0 <= i < self.entries@.len() ==>
            (#[trigger] self.entries@[i]).hashed_length == self.entries@[i].name@.len() % 0x1_0000
        &&& forall|i: int| 0 <= i < self.entries@.len() ==>
            self.buckets@[spec_bucket_of((#[trigger] self.entries@[i]).name@, self.power)]@
                .contains(i as u32)
    }

    /// The number of exported symbols.
    pub fn len(&self) -> (r: usize)
        ensures
            r == self@.len(),
    {
        self.entries.len()
    }

    /// The exported symbol at the given 0-based index.
    pub fn entry(&self, index: usize) -> (r: Result<&ExportedSymbol, Error>)
        ensures
            match r {
                Ok(e) => index < self@.len() && *e == self@[index as int],
                Err(Error::InvalidIndex) => index >= self@.len(),
                Err(_) => false,
            },
    {
        if index < self.entries.len() {
            Ok(&self.entries[index])
        } else {
            Err(Error::InvalidIndex)
        }
    }

    /// Resolve a symbol name to the index of its exported-symbol entry.
    ///
    /// Computes the name's hash, walks the chain of the bucket the hash
    /// falls in, and returns the first entry whose name is exactly `name`.
    /// Returns `None` exactly when no entry at all has that name: a present
    /// symbol is always found, and a match is never a false positive.
    pub fn lookup(&self, name: &[u8]) -> (r: Option<usize>)
        requires
            self.wf(),
        ensures
            match r {
                Some(i) => i < self@.len() && self@[i as int].name@ == name@,
                None => forall|i: int| 0 <= i < self@.len() ==>
                    (#[trigger] self@[i]).name@ != name@,
            },
    {
        let hw = hash_word(name);
        proof {
            let p = self.power;
            assert(1u32 << p != 0) by (bit_vector)
                requires p < 32u32;
        }
        let nbuckets: u32 = 1u32 << self.power;
        let b = (hw % nbuckets) as usize;
        let chain: &Vec<u32> = &self.buckets[b];
        let m = chain.len();
        let mut k: usize = 0;
        while k < m
            invariant
                0 <= k <= m,
                m == chain@.len(),
                chain == self.buckets@[b as int],
                b == spec_bucket_of(name@, self.power),
                b < self.buckets@.len(),
                self.wf(),
                forall|kk: int| 0 <= kk < k ==>
                    self@[#[trigger] chain@[kk] as int].name@ != name@,
            decreases m - k,
        {
            let idx = chain[k] as usize;
            let e = &self.entries[idx];
            if bytes_equal(e.name.as_slice(), name) {
                return Some(idx);
            }
            k = k + 1;
        }
        proof {
            assert forall|i: int| 0 <= i < self@.len() implies
                (#[trigger] self@[i]).name@ != name@ by {
                if self@[i].name@ == name@ {
                    assert(spec_bucket_of(self@[i].name@, self.power) == b as int);
                    assert(self.buckets@[b as int]@.contains(i as u32));
                    let kk = choose|kk: int|
                        0 <= kk < chain@.len() && chain@[kk] == i as u32;
                    assert(self@[chain@[kk] as int].name@ != name@);
                }
            }
        }
        None
    }
}



/// All-false flags count zero.
pub proof fn lemma_count_true_zero(s: Seq<bool>)
    requires
        forall|i: int| 0 <= i < s.len() ==> !s[i],
    ensures
        spec_count_true(s) == 0,
    decreases s.len(),
{
    if s.len() > 0 {
        lemma_count_true_zero(s.drop_last());
    }
}

/// The byte offset of the `i`-th export chain-entry record within the
/// loader section's contents.
pub open spec fn spec_export_entry_off(info: PEFLoaderInfoHeader, i: int) -> int {
    info.export_hash_offset + 4 * spec_bucket_count(info.export_hash_table_power)
        + EXPORT_ENTRY_SIZE * i
}

/// The class value recorded by the `i`-th export chain-entry record.
pub open spec fn spec_export_class(b: Seq<u8>, info: PEFLoaderInfoHeader, i: int) -> Option<SymbolClass> {
    spec_symbol_class((be_u32(b, spec_export_entry_off(info, i)) / 0x100_0000) as u8)
}

/// The name of the `i`-th exported symbol, resolved through the loader
/// string table.
pub open spec fn spec_export_name(b: Seq<u8>, info: PEFLoaderInfoHeader, i: int) -> Option<Seq<u8>> {
    spec_cstr(b, info.loader_strings_offset
        + be_u32(b, spec_export_entry_off(info, i)) % 0x100_0000)
}

/// The 1-based section reference recorded by the `i`-th export chain-entry
/// record.
pub open spec fn spec_export_section(b: Seq<u8>, info: PEFLoaderInfoHeader, i: int) -> int {
    be_i32(b, spec_export_entry_off(info, i) + 8)
}

/// The byte offset within its section recorded by the `i`-th export
/// chain-entry record.
pub open spec fn spec_export_offset(b: Seq<u8>, info: PEFLoaderInfoHeader, i: int) -> int {
    be_u32(b, spec_export_entry_off(info, i) + 4)
}

/// The bucket-head value of bucket `bk` of the export hash table.
pub open spec fn spec_export_head(b: Seq<u8>, info: PEFLoaderInfoHeader, bk: int) -> int {
    be_u32(b, info.export_hash_offset + 4 * bk)
}

/// The chain link recorded by the `i`-th export chain-entry record.
pub open spec fn spec_export_next(b: Seq<u8>, info: PEFLoaderInfoHeader, i: int) -> int {
    be_u32(b, spec_export_entry_off(info, i) + 12)
}

/// The hashed length recorded by the `i`-th export chain-entry record.
pub open spec fn spec_export_hashed(b: Seq<u8>, info: PEFLoaderInfoHeader, i: int) -> int {
    be_u32(b, spec_export_entry_off(info, i) + 16)
}

/// The bucket heads and chain-entry records all lie inside the loader
/// section's contents.
pub open spec fn spec_export_area_fit(b: Seq<u8>, info: PEFLoaderInfoHeader) -> bool {
    info.export_hash_offset + 4 * (spec_bucket_count(info.export_hash_table_power) as int)
        + EXPORT_ENTRY_SIZE * info.exported_symbol_count <= b.len()
}

/// Every chain-entry record carries a known class, a name that resolves in
/// the loader string table, and the hashed length of that name.
pub open spec fn spec_export_entries_ok(b: Seq<u8>, info: PEFLoaderInfoHeader) -> bool {
    forall|i: int| 0 <= i < info.exported_symbol_count as int ==> {
        &&& (#[trigger] spec_export_class(b, info, i)) is Some
        &&& spec_export_name(b, info, i) is Some
        &&& spec_export_hashed(b, info, i)
            == spec_export_name(b, info, i)->Some_0.len() % 0x1_0000
    }
}

/// Every bucket head is empty or names an entry whose name hashes to that
/// bucket.
pub open spec fn spec_export_heads_ok(b: Seq<u8>, info: PEFLoaderInfoHeader) -> bool {
    forall|bk: int| 0 <= bk < spec_bucket_count(info.export_hash_table_power) as int ==> {
        ||| (#[trigger] spec_export_head(b, info, bk)) == NO_EXPORT_INDEX
        ||| (spec_export_head(b, info, bk) < info.exported_symbol_count
            && spec_bucket_of(spec_export_name(b, info, spec_export_head(b, info, bk))->Some_0,
                info.export_hash_table_power) == bk)
    }
}

/// Every chain link is empty or points forward to a later entry of the same
/// bucket: chains read front to back and can hold no cycle.
pub open spec fn spec_export_links_ok(b: Seq<u8>, info: PEFLoaderInfoHeader) -> bool {
    forall|i: int| 0 <= i < info.exported_symbol_count as int ==> {
        ||| (#[trigger] spec_export_next(b, info, i)) == NO_EXPORT_INDEX
        ||| (i < spec_export_next(b, info, i) < info.exported_symbol_count
            && spec_bucket_of(spec_export_name(b, info, spec_export_next(b, info, i))->Some_0,
                info.export_hash_table_power)
                == spec_bucket_of(spec_export_name(b, info, i)->Some_0,
                    info.export_hash_table_power))
    }
}

/// Some bucket head or chain link points at entry `j`.
pub open spec fn spec_export_pointed(b: Seq<u8>, info: PEFLoaderInfoHeader, j: int) -> bool {
    ||| exists|bk: int| 0 <= bk < spec_bucket_count(info.export_hash_table_power) as int
        && #[trigger] spec_export_head(b, info, bk) == j
    ||| exists|i: int| 0 <= i < info.exported_symbol_count as int
        && #[trigger] spec_export_next(b, info, i) == j
}

/// Every entry is on some chain.
pub open spec fn spec_export_reachable(b: Seq<u8>, info: PEFLoaderInfoHeader) -> bool {
    forall|j: int| 0 <= j < info.exported_symbol_count as int ==>
        #[trigger] spec_export_pointed(b, info, j)
}

/// No entry is pointed at twice: bucket heads are distinct, chain links are
/// distinct, and no head coincides with a link.
pub open spec fn spec_export_unshared(b: Seq<u8>, info: PEFLoaderInfoHeader) -> bool {
    let nb = spec_bucket_count(info.export_hash_table_power) as int;
    let n = info.exported_symbol_count as int;
    &&& forall|bk1: int, bk2: int|
        #![trigger spec_export_head(b, info, bk1), spec_export_head(b, info, bk2)]
        0 <= bk1 < nb && 0 <= bk2 < nb
            && spec_export_head(b, info, bk1) != NO_EXPORT_INDEX
            && spec_export_head(b, info, bk1) == spec_export_head(b, info, bk2)
        ==> bk1 == bk2
    &&& forall|i1: int, i2: int|
        #![trigger spec_export_next(b, info, i1), spec_export_next(b, info, i2)]
        0 <= i1 < n && 0 <= i2 < n
            && spec_export_next(b, info, i1) != NO_EXPORT_INDEX
            && spec_export_next(b, info, i1) == spec_export_next(b, info, i2)
        ==> i1 == i2
    &&& forall|bk: int, i: int|
        #![trigger spec_export_head(b, info, bk), spec_export_next(b, info, i)]
        0 <= bk < nb && 0 <= i < n && spec_export_head(b, info, bk) != NO_EXPORT_INDEX
        ==> spec_export_head(b, info, bk) != spec_export_next(b, info, i)
}

/// A structurally well-formed export hash table, read straight off the
/// loader section's contents: such a table is owed a successful parse.
pub open spec fn spec_export_valid(b: Seq<u8>, info: PEFLoaderInfoHeader) -> bool {
    &&& info.export_hash_table_power < 32
    &&& spec_export_area_fit(b, info)
    &&& spec_export_entries_ok(b, info)
    &&& spec_export_heads_ok(b, info)
    &&& spec_export_links_ok(b, info)
    &&& spec_export_reachable(b, info)
    &&& spec_export_unshared(b, info)
}

/// All-true flags count their length.
pub proof fn lemma_count_true_all(s: Seq<bool>)
    requires
        forall|i: int| 0 <= i < s.len() ==> s[i],
    ensures
        spec_count_true(s) == s.len(),
    decreases s.len(),
{
    if s.len() > 0 {
        lemma_count_true_all(s.drop_last());
    }
}

/// Under a well-formed export table whose heads have all been followed and
/// whose visited set is closed under chain links, every entry is visited:
/// its unique pointer is a bucket head, or the forward link of a smaller
/// entry visited before it.
proof fn lemma_export_cover(b: Seq<u8>, info: PEFLoaderInfoHeader, visited: Seq<bool>, j: int)
    requires
        spec_export_valid(b, info),
        visited.len() == info.exported_symbol_count,
        forall|bk: int| 0 <= bk < spec_bucket_count(info.export_hash_table_power) as int
            && (#[trigger] spec_export_head(b, info, bk)) != NO_EXPORT_INDEX
            && spec_export_head(b, info, bk) < visited.len()
            ==> visited[spec_export_head(b, info, bk)],
        forall|i: int| 0 <= i < visited.len() && visited[i]
            && (#[trigger] spec_export_next(b, info, i)) != NO_EXPORT_INDEX
            && spec_export_next(b, info, i) < visited.len()
            ==> visited[spec_export_next(b, info, i)],
        0 <= j < info.exported_symbol_count as int,
    ensures
        visited[j],
    decreases j,
{
    assert(spec_export_pointed(b, info, j));
    if exists|bk: int| 0 <= bk < spec_bucket_count(info.export_hash_table_power) as int
        && #[trigger] spec_export_head(b, info, bk) == j {
        let bk = choose|bk: int|
            0 <= bk < spec_bucket_count(info.export_hash_table_power) as int
                && #[trigger] spec_export_head(b, info, bk) == j;
        assert(spec_export_head(b, info, bk) != NO_EXPORT_INDEX);
    } else {
        let i = choose|i: int| 0 <= i < info.exported_symbol_count as int
            && #[trigger] spec_export_next(b, info, i) == j;
        assert(spec_export_next(b, info, i) != NO_EXPORT_INDEX);
        assert(i < j);
        lemma_export_cover(b, info, visited, i);
    }
}

/// Whether `e` holds exactly the fields of the `i`-th export chain-entry
/// record of the loader section's contents `b`, its name resolved through
/// the loader string table.
pub open spec fn spec_export_entry_matches(b: Seq<u8>, info: PEFLoaderInfoHeader, i: int, e: ExportedSymbol) -> bool {
    &&& Some(e.class) == spec_export_class(b, info, i)
    &&& spec_export_name(b, info, i) == Some(e.name@)
    &&& e.symbol_offset == spec_export_offset(b, info, i)
    &&& e.section_index == spec_export_section(b, info, i)
    &&& e.hashed_length == spec_export_hashed(b, info, i)
}

/// Parse the export hash table: the bucket heads at `export_hash_offset`,
/// the chain-entry records that follow them, and the bucket chains.
///
/// Fails with [`Error::OutOfBounds`] when a record or a name reads past the
/// loader section, and with [`Error::InconsistentExportTable`] when the
/// declared power is out of range, an entry's class or recorded hashed
/// length is wrong, a bucket head or chain link dangles, a chain revisits an
/// entry or holds an entry whose name hashes elsewhere, or some entry is on
/// no chain. On success the table satisfies its structural invariant
/// ([`ExportTable::wf`]), so lookups are exact; a structurally well-formed
/// table ([`spec_export_valid`]) is owed a successful parse.
#[verifier::loop_isolation(false)]
#[verifier::rlimit(60)]
pub fn parse_export_table(loader: &[u8], info: &PEFLoaderInfoHeader) -> (r: Result<ExportTable, Error>)
    ensures
        match r {
            Ok(t) => {
                &&& t.wf()
                &&& t.spec_power() == info.export_hash_table_power
                &&& t@.len() == info.exported_symbol_count
                &&& forall|i: int| 0 <= i < t@.len() ==>
                    spec_export_entry_matches(loader@, *info, i, #[trigger] t@[i])
            },
            Err(e) => e == Error::OutOfBounds || e == Error::InconsistentExportTable,
        },
        spec_export_valid(loader@, *info) ==> r is Ok,
        r matches Err(e) ==> {
            &&& e == Error::OutOfBounds ==> !spec_export_area_fit(loader@, *info)
                || exists|i: int| 0 <= i < info.exported_symbol_count as int
                    && (#[trigger] spec_export_name(loader@, *info, i)) is None
            &&& e == Error::InconsistentExportTable ==> info.export_hash_table_power >= 32
                || !spec_export_entries_ok(loader@, *info)
                || !spec_export_heads_ok(loader@, *info)
                || !spec_export_links_ok(loader@, *info)
                || !spec_export_reachable(loader@, *info)
                || !spec_export_unshared(loader@, *info)
        },
{
    let power = info.export_hash_table_power;
    if power >= 32 {
        return Err(Error::InconsistentExportTable);
    }
    let nbuckets_u32: u32 = 1u32 << power;
    let nbuckets = nbuckets_u32 as usize;
    let count = info.exported_symbol_count as usize;
    let hash_off = info.export_hash_offset;
    proof {
        assert((EXPORT_ENTRY_SIZE as u64) * (count as u64) <= 20 * 0xFFFF_FFFFu64)
            by (nonlinear_arith)
            requires
                count <= 0xFFFF_FFFF,
                EXPORT_ENTRY_SIZE == 20;
    }
    if (hash_off as u64) + 4u64 * (nbuckets as u64)
        + (EXPORT_ENTRY_SIZE as u64) * (count as u64) > loader.len() as u64 {
        proof {
            assert((EXPORT_ENTRY_SIZE as u64) * (count as u64)
                == EXPORT_ENTRY_SIZE * (count as int)) by (nonlinear_arith)
                requires
                    count <= 0xFFFF_FFFF,
                    EXPORT_ENTRY_SIZE == 20;
            assert(!spec_export_area_fit(loader@, *info));
        }
        return Err(Error::OutOfBounds);
    }
    let entry_base = (hash_off as usize) + 4 * nbuckets;
    proof {
        assert(entry_base + (EXPORT_ENTRY_SIZE as usize) * count <= loader.len())
            by (nonlinear_arith)
            requires
                (hash_off as u64) + 4u64 * (nbuckets as u64)
                    + (EXPORT_ENTRY_SIZE as u64) * (count as u64) <= loader.len() as u64,
                entry_base == hash_off + 4 * nbuckets,
                EXPORT_ENTRY_SIZE == 20;
    }
    let mut entries: Vec<ExportedSymbol> = Vec::new();
    let mut nexts: Vec<u32> = Vec::new();
    let mut i: usize = 0;
    while i < count
        invariant
            0 <= i <= count,
            entries@.len() == i,
            nexts@.len() == i,
            forall|j: int| 0 <= j < i ==>
                nexts@[j] == #[trigger] spec_export_next(loader@, *info, j),
            forall|j: int| 0 <= j < i ==>
                spec_export_entry_matches(loader@, *info, j, #[trigger] entries@[j]),
            forall|j: int| 0 <= j < i ==>
                (#[trigger] entries@[j]).hashed_length == entries@[j].name@.len() % 0x1_0000,
        decreases count - i,
    {
        proof {
            assert((EXPORT_ENTRY_SIZE as usize) * i + EXPORT_ENTRY_SIZE
                <= (EXPORT_ENTRY_SIZE as usize) * count)
                by (nonlinear_arith)
                requires 0 <= i < count;
        }
        let eoff = entry_base + (EXPORT_ENTRY_SIZE as usize) * i;
        let w = read_u32_be(loader, eoff);
        let clsv = (w / 0x100_0000) as u8;
        let class = match symbol_class_from_u8(clsv) {
            Some(c) => c,
            None => {
                proof {
                    assert((#[trigger] spec_export_class(loader@, *info, i as int)) is None);
                    assert(!spec_export_entries_ok(loader@, *info));
                }
                return Err(Error::InconsistentExportTable);
            },
        };
        let name_off = w % 0x100_0000;
        let soff64 = (info.loader_strings_offset as u64) + (name_off as u64);
        if soff64 >= loader.len() as u64 {
            proof {
                assert((#[trigger] spec_export_name(loader@, *info, i as int)) is None);
                assert(!spec_export_entries_ok(loader@, *info));
            }
            return Err(Error::OutOfBounds);
        }
        let name_slice = match read_cstr(loader, soff64 as usize) {
            Some(ns) => ns,
            None => {
                proof {
                    assert((#[trigger] spec_export_name(loader@, *info, i as int)) is None);
                    assert(!spec_export_entries_ok(loader@, *info));
                }
                return Err(Error::OutOfBounds);
            },
        };
        let name = vstd::slice::slice_to_vec(name_slice);
        let symbol_offset = read_u32_be(loader, eoff + 4);
        let section_index = read_i32_be(loader, eoff + 8);
        let next = read_u32_be(loader, eoff + 12);
        let hashed_length = read_u32_be(loader, eoff + 16);
        if (name.len() % 0x1_0000) as u64 != hashed_length as u64 {
            proof {
                assert((#[trigger] spec_export_class(loader@, *info, i as int)) is Some);
                assert(spec_export_name(loader@, *info, i as int) == Some(name@));
                assert(spec_export_hashed(loader@, *info, i as int) == hashed_length);
                assert(!spec_export_entries_ok(loader@, *info));
            }
            return Err(Error::InconsistentExportTable);
        }
        entries.push(ExportedSymbol { name, class, section_index, symbol_offset, hashed_length });
        nexts.push(next);
        proof {
            assert(spec_export_entry_matches(loader@, *info, i as int, entries@[i as int]));
        }
        i = i + 1;
    }
    proof {
        assert forall|i2: int| 0 <= i2 < count as int implies {
            &&& (#[trigger] spec_export_class(loader@, *info, i2)) is Some
            &&& spec_export_name(loader@, *info, i2) is Some
            &&& spec_export_hashed(loader@, *info, i2)
                == spec_export_name(loader@, *info, i2)->Some_0.len() % 0x1_0000
        } by {
            assert(spec_export_entry_matches(loader@, *info, i2, entries@[i2]));
        }
        assert(spec_export_entries_ok(loader@, *info));
    }
    let mut buckets: Vec<Vec<u32>> = Vec::new();
    let mut visited: Vec<bool> = vec![false; count];
    let mut visited_count: usize = 0;
    proof {
        lemma_count_true_zero(visited@);
    }
    let mut b: usize = 0;
    while b < nbuckets
        invariant
            0 <= b <= nbuckets,
            buckets@.len() == b,
            visited@.len() == count,
            visited_count == spec_count_true(visited@),
            visited_count <= count,
            forall|bb: int, k: int|
                0 <= bb < b && 0 <= k < buckets@[bb]@.len() ==>
                    (#[trigger] buckets@[bb]@[k]) < count
                        && spec_bucket_of(entries@[buckets@[bb]@[k] as int].name@, power) == bb,
            forall|ii: int| 0 <= ii < count && visited@[ii] ==>
                spec_bucket_of((#[trigger] entries@[ii]).name@, power) < b
                    && buckets@[spec_bucket_of(entries@[ii].name@, power)]@.contains(ii as u32),
            forall|bk: int| 0 <= bk < b as int
                && (#[trigger] spec_export_head(loader@, *info, bk)) != NO_EXPORT_INDEX
                ==> spec_export_head(loader@, *info, bk) < count
                    && visited@[spec_export_head(loader@, *info, bk)],
            forall|i2: int| 0 <= i2 < count && visited@[i2]
                ==> (#[trigger] spec_export_next(loader@, *info, i2)) == NO_EXPORT_INDEX
                    || (spec_export_next(loader@, *info, i2) < count
                        && visited@[spec_export_next(loader@, *info, i2)]),
            forall|jj: int| 0 <= jj < count && #[trigger] visited@[jj] ==>
                (exists|bk: int| 0 <= bk < b as int
                    && #[trigger] spec_export_head(loader@, *info, bk) == jj)
                || (exists|i2: int| 0 <= i2 < count && visited@[i2]
                    && #[trigger] spec_export_next(loader@, *info, i2) == jj),
        decreases nbuckets - b,
    {
        let head = read_u32_be(loader, (hash_off as usize) + 4 * b);
        proof {
            assert(head == spec_export_head(loader@, *info, b as int));
        }
        let mut chain: Vec<u32> = Vec::new();
        let mut idx = head;
        while idx != NO_EXPORT_INDEX
            invariant
                visited@.len() == count,
                visited_count == spec_count_true(visited@),
                visited_count <= count,
                (chain@.len() == 0 && idx == spec_export_head(loader@, *info, b as int))
                    || (chain@.len() > 0
                        && idx == spec_export_next(loader@, *info, chain@.last() as int)),
                chain@.len() > 0 ==> chain@[0] == spec_export_head(loader@, *info, b as int),
                forall|k: int| 0 <= k < chain@.len() ==>
                    (#[trigger] chain@[k]) < count
                        && spec_bucket_of(entries@[chain@[k] as int].name@, power) == b as int
                        && visited@[chain@[k] as int],
                forall|ii: int| 0 <= ii < count && visited@[ii] ==>
                    (spec_bucket_of((#[trigger] entries@[ii]).name@, power) < b
                        && buckets@[spec_bucket_of(entries@[ii].name@, power)]@
                            .contains(ii as u32))
                    || (spec_bucket_of(entries@[ii].name@, power) == b as int
                        && chain@.contains(ii as u32)),
                forall|bk: int| 0 <= bk < b as int
                    && (#[trigger] spec_export_head(loader@, *info, bk)) != NO_EXPORT_INDEX
                    ==> spec_export_head(loader@, *info, bk) < count
                        && visited@[spec_export_head(loader@, *info, bk)],
                forall|i2: int| 0 <= i2 < count && visited@[i2]
                    && !(chain@.len() > 0 && i2 == chain@.last() as int)
                    ==> (#[trigger] spec_export_next(loader@, *info, i2)) == NO_EXPORT_INDEX
                        || (spec_export_next(loader@, *info, i2) < count
                            && visited@[spec_export_next(loader@, *info, i2)]),
                forall|jj: int| 0 <= jj < count && #[trigger] visited@[jj] ==>
                    (exists|bk: int| 0 <= bk < b as int
                        && #[trigger] spec_export_head(loader@, *info, bk) == jj)
                    || (chain@.len() > 0 && chain@[0] == jj
                        && spec_export_head(loader@, *info, b as int) == jj)
                    || (exists|i2: int| 0 <= i2 < count && visited@[i2]
                        && #[trigger] spec_export_next(loader@, *info, i2) == jj
                        && !(chain@.len() > 0 && i2 == chain@.last() as int)),
            decreases count - visited_count,
        {
            let idxu = idx as usize;
            if idxu >= count {
                proof {
                    if spec_export_valid(loader@, *info) {
                        if chain@.len() == 0 {
                            assert(spec_export_head(loader@, *info, b as int) == idx);
                        } else {
                            assert(spec_export_next(loader@, *info, chain@.last() as int)
                                == idx);
                            assert(chain@.last() < count);
                        }
                        assert(false);
                    }
                }
                return Err(Error::InconsistentExportTable);
            }
            if visited[idxu] {
                proof {
                    if spec_export_valid(loader@, *info) {
                        if chain@.len() == 0 {
                            assert(idx == spec_export_head(loader@, *info, b as int));
                            if exists|bk: int| 0 <= bk < b as int
                                && #[trigger] spec_export_head(loader@, *info, bk)
                                    == idxu as int {
                                let bk0 = choose|bk: int| 0 <= bk < b as int
                                    && #[trigger] spec_export_head(loader@, *info, bk)
                                        == idxu as int;
                                assert(false);
                            } else {
                                let i0 = choose|i2: int| 0 <= i2 < count && visited@[i2]
                                    && #[trigger] spec_export_next(loader@, *info, i2)
                                        == idxu as int
                                    && !(chain@.len() > 0 && i2 == chain@.last() as int);
                                assert(false);
                            }
                        } else {
                            let tl = chain@.last() as int;
                            assert(idx == spec_export_next(loader@, *info, tl));
                            assert(tl < count);
                            if exists|bk: int| 0 <= bk < b as int
                                && #[trigger] spec_export_head(loader@, *info, bk)
                                    == idxu as int {
                                let bk0 = choose|bk: int| 0 <= bk < b as int
                                    && #[trigger] spec_export_head(loader@, *info, bk)
                                        == idxu as int;
                                assert(false);
                            } else if chain@[0] == idxu as int
                                && spec_export_head(loader@, *info, b as int) == idxu as int {
                                assert(false);
                            } else {
                                let i0 = choose|i2: int| 0 <= i2 < count && visited@[i2]
                                    && #[trigger] spec_export_next(loader@, *info, i2)
                                        == idxu as int
                                    && !(chain@.len() > 0 && i2 == chain@.last() as int);
                                assert(i0 != tl);
                                assert(false);
                            }
                        }
                        assert(false);
                    }
                }
                return Err(Error::InconsistentExportTable);
            }
            let e = &entries[idxu];
            let hw = hash_word(e.name.as_slice());
            let bkt = hw % nbuckets_u32;
            if bkt as usize != b {
                proof {
                    if spec_export_valid(loader@, *info) {
                        assert(spec_export_entry_matches(loader@, *info, idxu as int,
                            entries@[idxu as int]));
                        assert(entries@[idxu as int].name@
                            == spec_export_name(loader@, *info, idxu as int)->Some_0);
                        if chain@.len() == 0 {
                            assert(idx == spec_export_head(loader@, *info, b as int));
                        } else {
                            let tl = chain@.last() as int;
                            assert(idx == spec_export_next(loader@, *info, tl));
                            assert(spec_bucket_of(entries@[tl].name@, power) == b as int);
                            assert(spec_export_entry_matches(loader@, *info, tl,
                                entries@[tl]));
                            assert(entries@[tl].name@
                                == spec_export_name(loader@, *info, tl)->Some_0);
                        }
                        assert(false);
                    }
                }
                return Err(Error::InconsistentExportTable);
            }
            let ghost pre_visited = visited@;
            visited.set(idxu, true);
            proof {
                lemma_count_true_update(pre_visited, idxu as int);
            }
            visited_count = visited_count + 1;
            proof {
                lemma_count_true_le(visited@);
            }
            let ghost pre_chain = chain@;
            chain.push(idx);
            let next_link = nexts[idxu];
            proof {
                assert(chain@[chain@.len() - 1] == idx);
                assert(chain@.last() as int == idxu as int);
                assert(next_link == spec_export_next(loader@, *info, idxu as int));
                assert forall|ii: int| 0 <= ii < count && visited@[ii] implies
                    (spec_bucket_of((#[trigger] entries@[ii]).name@, power) < b
                        && buckets@[spec_bucket_of(entries@[ii].name@, power)]@
                            .contains(ii as u32))
                    || (spec_bucket_of(entries@[ii].name@, power) == b as int
                        && chain@.contains(ii as u32)) by {
                    if ii == idxu as int {
                        assert(chain@.contains(ii as u32));
                    } else {
                        assert(pre_visited[ii]);
                        if spec_bucket_of(entries@[ii].name@, power) == b as int {
                            let k = choose|k: int|
                                0 <= k < pre_chain.len() && pre_chain[k] == ii as u32;
                            assert(chain@[k] == ii as u32);
                        }
                    }
                }
                assert forall|jj: int| 0 <= jj < count && #[trigger] visited@[jj] implies
                    (exists|bk: int| 0 <= bk < b as int
                        && #[trigger] spec_export_head(loader@, *info, bk) == jj)
                    || (chain@.len() > 0 && chain@[0] == jj
                        && spec_export_head(loader@, *info, b as int) == jj)
                    || (exists|i2: int| 0 <= i2 < count && visited@[i2]
                        && #[trigger] spec_export_next(loader@, *info, i2) == jj
                        && !(chain@.len() > 0 && i2 == chain@.last() as int)) by {
                    if jj == idxu as int {
                        if pre_chain.len() == 0 {
                            assert(chain@[0] == jj
                                && spec_export_head(loader@, *info, b as int) == jj);
                        } else {
                            let tl0 = pre_chain.last() as int;
                            assert(visited@[tl0]);
                            assert(spec_export_next(loader@, *info, tl0) == jj);
                            assert(tl0 != chain@.last() as int);
                        }
                    } else {
                        assert(pre_visited[jj]);
                    }
                }
            }
            idx = next_link;
        }
        buckets.push(chain);
        proof {
            if spec_export_head(loader@, *info, b as int) != NO_EXPORT_INDEX {
                assert(chain@.len() > 0);
                assert(chain@[0] < count && visited@[chain@[0] as int]);
            }
        }
        b = b + 1;
    }
    if visited_count != count {
        proof {
            if spec_export_valid(loader@, *info) {
                assert forall|j: int| 0 <= j < count as int implies visited@[j] by {
                    lemma_export_cover(loader@, *info, visited@, j);
                }
                lemma_count_true_all(visited@);
                assert(false);
            }
        }
        return Err(Error::InconsistentExportTable);
    }
    proof {
        lemma_count_true_full(visited@);
    }
    Ok(ExportTable { power, buckets, entries })
}



/// Size in bytes of one relocation stream header on disk.
pub const RELOC_HEADER_SIZE: u32 = 12;

/// One relocation stream header: the 1-based section the stream applies to,
/// the number of 16-bit relocation instruction chunks, and the byte offset
/// of the stream's first chunk within the relocation area.
#[derive(Debug, Clone, Copy, PartialEq, Eq, Structural)]
pub struct RelocationHeader {
    /// The 1-based index of the section the relocations apply to.
    pub section_index: u16,
    /// The number of 16-bit instruction chunks in the stream.
    pub reloc_count: u32,
    /// The byte offset of the stream within the relocation area.
    pub first_reloc_offset: u32,
}

/// One relocation directive, as produced by interpreting a relocation
/// instruction stream at load time: a byte offset into the section's
/// instantiated image, an instruction kind, and its operand.
#[derive(Debug, Clone, Copy, PartialEq, Eq, Structural)]
pub struct Relocation {
    /// The byte offset the directive applies to.
    pub offset: u32,
    /// The directive's instruction kind.
    pub kind: u16,
    /// The directive's operand.
    pub operand: u32,
}

/// The relocation stream header whose first byte sits at `off` in the
/// loader section's contents `b`.
pub open spec fn spec_relocation_header(b: Seq<u8>, off: int) -> RelocationHeader {
    RelocationHeader {
        section_index: crate::endian::be_u16(b, off) as u16,
        reloc_count: be_u32(b, off + 4) as u32,
        first_reloc_offset: be_u32(b, off + 8) as u32,
    }
}

/// Parse the relocation stream headers at `reloc_instr_offset`.
///
/// The streams themselves are exposed as data, not interpreted.
pub fn parse_relocation_headers(loader: &[u8], info: &PEFLoaderInfoHeader) -> (r: Result<
    Vec<RelocationHeader>, Error>)
    ensures
        match r {
            Ok(hs) => {
                &&& info.reloc_instr_offset + RELOC_HEADER_SIZE * info.reloc_section_count
                    <= loader@.len()
                &&& hs@.len() == info.reloc_section_count
                &&& forall|i: int| 0 <= i < hs@.len() ==>
                    hs@[i] == #[trigger] spec_relocation_header(loader@,
                        info.reloc_instr_offset + RELOC_HEADER_SIZE * i)
            },
            Err(Error::OutOfBounds) => info.reloc_instr_offset + RELOC_HEADER_SIZE
                * info.reloc_section_count > loader@.len(),
            Err(_) => false,
        },
{
    let count = info.reloc_section_count as usize;
    let roff = info.reloc_instr_offset;
    proof {
        assert((RELOC_HEADER_SIZE as u64) * (count as u64) <= 12 * 0xFFFF_FFFFu64)
            by (nonlinear_arith)
            requires
                count <= 0xFFFF_FFFF,
                RELOC_HEADER_SIZE == 12;
    }
    if (roff as u64) + (RELOC_HEADER_SIZE as u64) * (count as u64) > loader.len() as u64 {
        return Err(Error::OutOfBounds);
    }
    let mut headers: Vec<RelocationHeader> = Vec::new();
    let mut i: usize = 0;
    while i < count
        invariant
            0 <= i <= count,
            count == info.reloc_section_count,
            roff == info.reloc_instr_offset,
            roff + RELOC_HEADER_SIZE * count <= loader.len(),
            headers@.len() == i,
            forall|j: int| 0 <= j < i ==>
                headers@[j] == #[trigger] spec_relocation_header(loader@,
                    info.reloc_instr_offset + RELOC_HEADER_SIZE * j),
        decreases count - i,
    {
        proof {
            assert((RELOC_HEADER_SIZE as usize) * i + RELOC_HEADER_SIZE
                <= (RELOC_HEADER_SIZE as usize) * count)
                by (nonlinear_arith)
                requires 0 <= i < count;
        }
        let off = (roff as usize) + (RELOC_HEADER_SIZE as usize) * i;
        headers.push(RelocationHeader {
            section_index: crate::endian::read_u16_be(loader, off),
            reloc_count: read_u32_be(loader, off + 4),
            first_reloc_offset: read_u32_be(loader, off + 8),
        });
        i = i + 1;
    }
    Ok(headers)
}

/// The starting offset of a relocation stream within the loader section:
/// the relocation area begins after the stream headers, and the stream sits
/// at its recorded offset within that area.
pub open spec fn spec_reloc_stream_start(info: PEFLoaderInfoHeader, h: RelocationHeader) -> int {
    info.reloc_instr_offset + RELOC_HEADER_SIZE * info.reloc_section_count
        + h.first_reloc_offset
}

/// The bytes of one relocation instruction stream: `reloc_count` 16-bit
/// chunks. The stream is exposed as data, not interpreted.
pub fn relocation_stream<'a>(loader: &'a [u8], info: &PEFLoaderInfoHeader,
    h: &RelocationHeader) -> (r: Result<&'a [u8], Error>)
    ensures
        match r {
            Ok(s) => {
                &&& spec_reloc_stream_start(*info, *h) + 2 * h.reloc_count <= loader@.len()
                &&& s@ == loader@.subrange(spec_reloc_stream_start(*info, *h),
                    spec_reloc_stream_start(*info, *h) + 2 * h.reloc_count)
            },
            Err(Error::OutOfBounds) => spec_reloc_stream_start(*info, *h)
                + 2 * h.reloc_count > loader@.len(),
            Err(_) => false,
        },
{
    let rcount = info.reloc_section_count as u64;
    proof {
        assert((RELOC_HEADER_SIZE as u64) * (info.reloc_section_count as u64)
            == RELOC_HEADER_SIZE * info.reloc_section_count) by (nonlinear_arith)
            requires RELOC_HEADER_SIZE == 12;
    }
    let start: u64 = (info.reloc_instr_offset as u64)
        + (RELOC_HEADER_SIZE as u64) * rcount + (h.first_reloc_offset as u64);
    let end: u64 = start + 2 * (h.reloc_count as u64);
    if end > loader.len() as u64 {
        return Err(Error::OutOfBounds);
    }
    Ok(vstd::slice::slice_subrange(loader, start as usize, end as usize))
}

/// A resolved entry point: a 1-based section index and a byte offset into
/// that section.
#[derive(Debug, Clone, Copy, PartialEq, Eq, Structural)]
pub struct EntryPoint {
    /// The 1-based index of the section holding the entry point.
    pub section: SectionIndex,
    /// The byte offset of the entry point from the section's start.
    pub offset: u32,
}

/// Resolve one of the loader header's entry-point references against a
/// section table of `table_len` sections.
///
/// A section value of -1 means the entry point is absent, which is a normal
/// result, not an error; any other value outside `1..=table_len` is
/// [`Error::InvalidIndex`].
pub fn entry_location(section: i32, offset: u32, table_len: usize) -> (r: Result<
    Option<EntryPoint>, Error>)
    ensures
        match r {
            Ok(None) => section == -1,
            Ok(Some(e)) => 1 <= section <= table_len
                && e == (EntryPoint { section: SectionIndex(section as usize), offset: offset }),
            Err(Error::InvalidIndex) => section != -1 && !(1 <= section <= table_len),
            Err(_) => false,
        },
{
    if section == -1 {
        Ok(None)
    } else if section >= 1 && (section as u64) <= (table_len as u64) {
        Ok(Some(EntryPoint { section: SectionIndex(section as usize), offset }))
    } else {
        Err(Error::InvalidIndex)
    }
}


} // verus!
