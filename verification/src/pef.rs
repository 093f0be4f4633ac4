//! Definitions of the container format's on-disk records.
//!
//! All multi-byte fields are big-endian. The container header sits at offset
//! zero; the section table follows immediately; every "section index" used by
//! the loader metadata is 1-based.

use vstd::prelude::*;
use crate::endian::{be_u16, be_u32, be_i32};

verus! {

/// Required value of the container header's first tag ("Joy!").
pub const TAG1: u32 = 0x4A6F_7921;

/// Required value of the container header's second tag ("peff").
pub const TAG2: u32 = 0x7065_6666;

/// Architecture tag of the PowerPC implementation ("pwpc").
pub const ARCHITECTURE_PPC: u32 = 0x7077_7063;

/// Architecture tag of the 68K implementation ("m68k").
pub const ARCHITECTURE_68K: u32 = 0x6D36_386B;

/// Size in bytes of the container header on disk.
pub const CONTAINER_HEADER_SIZE: u32 = 40;

/// Size in bytes of one section header on disk.
pub const SECTION_HEADER_SIZE: u32 = 28;

/// The content kind of a section.
#[derive(Debug, Clone, Copy, PartialEq, Eq, Structural)]
pub enum SectionKind {
    /// Read-only executable code in an uncompressed binary format.
    Code,
    /// Uncompressed, initialized read/write data followed by zero-initialized
    /// read/write data.
    UnpackedData,
    /// Read/write data initialized by a pattern program held in the section's
    /// contents.
    PatternInitializedData,
    /// Uncompressed, initialized, read-only data.
    Constant,
    /// Import, export and entry-point metadata; at most one per container.
    Loader,
    /// Reserved for future use.
    Debug,
    /// Contents that are both executable and modifiable.
    ExecutableData,
    /// Reserved for future use.
    Exception,
    /// Reserved for future use.
    Traceback,
}

/// How a section's instance is shared among processes.
#[derive(Debug, Clone, Copy, PartialEq, Eq, Structural)]
pub enum ShareKind {
    /// Shared within a process; a fresh copy is made for other processes.
    ProcessShare,
    /// Shared between all processes in the system.
    GlobalShare,
    /// Shared between all processes, read-only in user mode.
    ProtectedShare,
}

/// The section kind encoded by a raw byte, if the byte is one of the closed
/// set of kinds.
pub open spec fn spec_section_kind(v: u8) -> Option<SectionKind> {
    if v == 0 { Some(SectionKind::Code) }
    else if v == 1 { Some(SectionKind::UnpackedData) }
    else if v == 2 { Some(SectionKind::PatternInitializedData) }
    else if v == 3 { Some(SectionKind::Constant) }
    else if v == 4 { Some(SectionKind::Loader) }
    else if v == 5 { Some(SectionKind::Debug) }
    else if v == 6 { Some(SectionKind::ExecutableData) }
    else if v == 7 { Some(SectionKind::Exception) }
    else if v == 8 { Some(SectionKind::Traceback) }
    else { None }
}

/// Decode a raw section-kind byte.
pub fn section_kind_from_u8(v: u8) -> (r: Option<SectionKind>)
    ensures
        r == spec_section_kind(v),
{
    match v {
        0 => Some(SectionKind::Code),
        1 => Some(SectionKind::UnpackedData),
        2 => Some(SectionKind::PatternInitializedData),
        3 => Some(SectionKind::Constant),
        4 => Some(SectionKind::Loader),
        5 => Some(SectionKind::Debug),
        6 => Some(SectionKind::ExecutableData),
        7 => Some(SectionKind::Exception),
        8 => Some(SectionKind::Traceback),
        _ => None,
    }
}

/// The sharing kind encoded by a raw byte, if the byte is one of the closed
/// set of kinds.
pub open spec fn spec_share_kind(v: u8) -> Option<ShareKind> {
    if v == 1 { Some(ShareKind::ProcessShare) }
    else if v == 4 { Some(ShareKind::GlobalShare) }
    else if v == 5 { Some(ShareKind::ProtectedShare) }
    else { None }
}

/// Decode a raw sharing-kind byte.
pub fn share_kind_from_u8(v: u8) -> (r: Option<ShareKind>)
    ensures
        r == spec_share_kind(v),
{
    match v {
        1 => Some(ShareKind::ProcessShare),
        4 => Some(ShareKind::GlobalShare),
        5 => Some(ShareKind::ProtectedShare),
        _ => None,
    }
}

/// The file-level record at offset zero of every container.
#[derive(Debug, Clone, Copy, PartialEq, Eq, Structural)]
pub struct PEFContainerHeader {
    /// First magic tag; must equal [`TAG1`] for the parse to succeed.
    pub tag1: u32,
    /// Second magic tag; exposed but not validated.
    pub tag2: u32,
    /// Architecture tag; one of the known values or unknown.
    pub architecture: u32,
    /// Format version; exposed but not validated.
    pub format_version: u32,
    /// Creation timestamp, seconds since the format's fixed epoch; opaque.
    pub date_time_stamp: u32,
    /// Compatibility version information.
    pub old_def_version: u32,
    /// Compatibility version information.
    pub old_imp_version: u32,
    /// Compatibility version information.
    pub current_version: u32,
    /// Total number of sections in the container.
    pub section_count: u16,
    /// Number of leading sections that are instantiated in memory at run
    /// time.
    pub inst_section_count: u16,
    /// Reserved for future use.
    pub reserved_a: u32,
}

/// The container header encoded by the first [`CONTAINER_HEADER_SIZE`] bytes
/// of `b`.
pub open spec fn spec_container_header(b: Seq<u8>) -> PEFContainerHeader {
    PEFContainerHeader {
        tag1: be_u32(b, 0) as u32,
        tag2: be_u32(b, 4) as u32,
        architecture: be_u32(b, 8) as u32,
        format_version: be_u32(b, 12) as u32,
        date_time_stamp: be_u32(b, 16) as u32,
        old_def_version: be_u32(b, 20) as u32,
        old_imp_version: be_u32(b, 24) as u32,
        current_version: be_u32(b, 28) as u32,
        section_count: be_u16(b, 32) as u16,
        inst_section_count: be_u16(b, 34) as u16,
        reserved_a: be_u32(b, 36) as u32,
    }
}

/// One entry of the section table.
#[derive(Debug, Clone, Copy, PartialEq, Eq, Structural)]
pub struct PEFSectionHeader {
    /// Offset from the start of the section name table to the section's
    /// null-terminated name; a negative value means the section is unnamed.
    pub name_offset: i32,
    /// Preferred in-memory address of the section's instance.
    pub default_address: u32,
    /// Size in bytes required by the section's contents at execution time;
    /// the part past `unpacked_size` is zero-initialized.
    pub total_size: u32,
    /// Size of the contents that are explicitly initialized from the
    /// container; for packed data, the size the contents expand to.
    pub unpacked_size: u32,
    /// Size of the section's contents in the container; for packed data, the
    /// size of the pattern program.
    pub packed_size: u32,
    /// Offset from the beginning of the container to the section's contents.
    pub container_offset: u32,
    /// The content kind of the section.
    pub section_kind: SectionKind,
    /// How the section is shared among processes.
    pub share_kind: ShareKind,
    /// Desired in-memory alignment, as a power-of-two exponent.
    pub alignment: u8,
    /// Reserved for future use.
    pub reserved_a: u8,
}

/// The section header encoded by the [`SECTION_HEADER_SIZE`] bytes at `off`
/// in `b`, or `None` if the kind or sharing byte is not one of the closed
/// sets.
pub open spec fn spec_section_header(b: Seq<u8>, off: int) -> Option<PEFSectionHeader> {
    match (spec_section_kind(b[off + 24]), spec_share_kind(b[off + 25])) {
        (Some(section_kind), Some(share_kind)) => Some(PEFSectionHeader {
            name_offset: be_i32(b, off) as i32,
            default_address: be_u32(b, off + 4) as u32,
            total_size: be_u32(b, off + 8) as u32,
            unpacked_size: be_u32(b, off + 12) as u32,
            packed_size: be_u32(b, off + 16) as u32,
            container_offset: be_u32(b, off + 20) as u32,
            section_kind: section_kind,
            share_kind: share_kind,
            alignment: b[off + 26],
            reserved_a: b[off + 27],
        }),
        _ => None,
    }
}

/// The record at offset zero inside the single loader section, addressing
/// every other loader-internal table relative to the loader section's start.
#[derive(Debug, Clone, Copy, PartialEq, Eq, Structural)]
pub struct PEFLoaderInfoHeader {
    /// 1-based section number holding the main symbol, or -1 if absent.
    pub main_section: i32,
    /// Offset in bytes from the start of that section to the main symbol.
    pub main_offset: u32,
    /// 1-based section number holding the initialization function's
    /// transition vector, or -1 if absent.
    pub init_section: i32,
    /// Offset in bytes from the start of that section to the vector.
    pub init_offset: u32,
    /// 1-based section number holding the termination routine's transition
    /// vector, or -1 if absent.
    pub term_section: i32,
    /// Offset in bytes from the start of that section to the vector.
    pub term_offset: u32,
    /// Number of imported libraries.
    pub imported_library_count: u32,
    /// Total number of imported symbols.
    pub total_imported_symbol_count: u32,
    /// Number of sections carrying load-time relocations.
    pub reloc_section_count: u32,
    /// Offset from the start of the loader section to the relocations area.
    pub reloc_instr_offset: u32,
    /// Offset from the start of the loader section to the loader string
    /// table.
    pub loader_strings_offset: u32,
    /// Offset from the start of the loader section to the export hash table.
    pub export_hash_offset: u32,
    /// Number of export hash buckets, as a power-of-two exponent.
    pub export_hash_table_power: u32,
    /// Number of symbols exported from this container.
    pub exported_symbol_count: u32,
}

/// Size in bytes of the loader info header on disk.
pub const LOADER_INFO_HEADER_SIZE: u32 = 56;

/// The loader info header encoded by the first [`LOADER_INFO_HEADER_SIZE`]
/// bytes of the loader section's contents `b`.
pub open spec fn spec_loader_info_header(b: Seq<u8>) -> PEFLoaderInfoHeader {
    PEFLoaderInfoHeader {
        main_section: be_i32(b, 0) as i32,
        main_offset: be_u32(b, 4) as u32,
        init_section: be_i32(b, 8) as i32,
        init_offset: be_u32(b, 12) as u32,
        term_section: be_i32(b, 16) as i32,
        term_offset: be_u32(b, 20) as u32,
        imported_library_count: be_u32(b, 24) as u32,
        total_imported_symbol_count: be_u32(b, 28) as u32,
        reloc_section_count: be_u32(b, 32) as u32,
        reloc_instr_offset: be_u32(b, 36) as u32,
        loader_strings_offset: be_u32(b, 40) as u32,
        export_hash_offset: be_u32(b, 44) as u32,
        export_hash_table_power: be_u32(b, 48) as u32,
        exported_symbol_count: be_u32(b, 52) as u32,
    }
}

} // verus!
