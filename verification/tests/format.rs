//! Tests for the container header, the section table and the pattern-data
//! expander.

use peff::error::Error;
use peff::file::PefFile;
use peff::pef::{PEFContainerHeader, PEFSectionHeader, SectionKind, ShareKind, TAG1, TAG2,
    ARCHITECTURE_PPC};
use peff::pattern::expand_pattern;
use peff::section::SectionIndex;

fn push_u32(buf: &mut Vec<u8>, v: u32) {
    buf.push((v >> 24) as u8);
    buf.push((v >> 16) as u8);
    buf.push((v >> 8) as u8);
    buf.push(v as u8);
}

fn push_u16(buf: &mut Vec<u8>, v: u16) {
    buf.push((v >> 8) as u8);
    buf.push(v as u8);
}

fn push_i32(buf: &mut Vec<u8>, v: i32) {
    push_u32(buf, v as u32);
}

fn container_header(section_count: u16, inst_section_count: u16) -> Vec<u8> {
    let mut buf = Vec::new();
    push_u32(&mut buf, TAG1);
    push_u32(&mut buf, TAG2);
    push_u32(&mut buf, ARCHITECTURE_PPC);
    push_u32(&mut buf, 1);
    push_u32(&mut buf, 0);
    push_u32(&mut buf, 0);
    push_u32(&mut buf, 0);
    push_u32(&mut buf, 0);
    push_u16(&mut buf, section_count);
    push_u16(&mut buf, inst_section_count);
    push_u32(&mut buf, 0);
    buf
}

#[allow(clippy::too_many_arguments)]
fn section_header(
    name_offset: i32,
    default_address: u32,
    total_size: u32,
    unpacked_size: u32,
    packed_size: u32,
    container_offset: u32,
    kind: u8,
    share: u8,
) -> Vec<u8> {
    let mut buf = Vec::new();
    push_i32(&mut buf, name_offset);
    push_u32(&mut buf, default_address);
    push_u32(&mut buf, total_size);
    push_u32(&mut buf, unpacked_size);
    push_u32(&mut buf, packed_size);
    push_u32(&mut buf, container_offset);
    buf.push(kind);
    buf.push(share);
    buf.push(2);
    buf.push(0);
    buf
}

fn minimal_container() -> Vec<u8> {
    let mut data = container_header(1, 1);
    let mut sec = section_header(-1, 0x1000, 0x40, 0x40, 0x40, 68, 0, 1);
    data.append(&mut sec);
    for i in 0..0x40u32 {
        data.push(i as u8);
    }
    data
}

#[test]
fn parse_header_fields() {
    let data = minimal_container();
    let header = PEFContainerHeader::parse(&data).expect("header should parse");
    assert_eq!(header.tag1, TAG1);
    assert_eq!(header.tag2, TAG2);
    assert_eq!(header.architecture, ARCHITECTURE_PPC);
    assert_eq!(header.format_version, 1);
    assert_eq!(header.section_count, 1);
    assert_eq!(header.inst_section_count, 1);
}

#[test]
fn parse_twice_is_deterministic() {
    let data = minimal_container();
    let h1 = PEFContainerHeader::parse(&data).unwrap();
    let h2 = PEFContainerHeader::parse(&data).unwrap();
    assert_eq!(h1, h2);
    let f1 = PefFile::parse(&data).unwrap();
    let f2 = PefFile::parse(&data).unwrap();
    let t1 = f1.section_table().unwrap();
    let t2 = f2.section_table().unwrap();
    assert_eq!(t1.len(), t2.len());
    for i in 0..t1.len() {
        let s1 = t1.section(SectionIndex(i + 1)).unwrap();
        let s2 = t2.section(SectionIndex(i + 1)).unwrap();
        assert_eq!(s1, s2);
    }
}

#[test]
fn bad_magic_is_invalid_magic_regardless_of_rest() {
    let mut data = minimal_container();
    data[0] = 0x00;
    assert_eq!(PEFContainerHeader::parse(&data), Err(Error::InvalidMagic));
    let short = vec![0xDEu8, 0xAD, 0xBE, 0xEF];
    assert_eq!(PEFContainerHeader::parse(&short), Err(Error::InvalidMagic));
    let mut long = vec![0u8; 400];
    long[0] = 0x4A;
    assert_eq!(PEFContainerHeader::parse(&long), Err(Error::InvalidMagic));
}

#[test]
fn truncated_buffer_is_too_short() {
    let data = minimal_container();
    assert_eq!(PEFContainerHeader::parse(&data[..4]), Err(Error::TooShort));
    assert_eq!(PEFContainerHeader::parse(&data[..39]), Err(Error::TooShort));
    assert_eq!(PEFContainerHeader::parse(&data[..3]), Err(Error::TooShort));
    assert_eq!(PEFContainerHeader::parse(&[]), Err(Error::TooShort));
}

#[test]
fn minimal_container_has_one_code_section_and_no_symbols() {
    let data = minimal_container();
    let file = PefFile::parse(&data).expect("file should parse");
    let mut sections = file.sections().unwrap();
    let first = sections.next().expect("one section expected");
    assert_eq!(first.kind(), SectionKind::Code);
    assert_eq!(first.index(), SectionIndex(1));
    assert!(sections.next().is_none());
    let table = file.symbol_table().unwrap();
    assert_eq!(table.len(), 0);
    assert!(table.symbols().next().is_none());
    assert_eq!(file.main_entry().unwrap(), None);
    assert_eq!(file.init_entry().unwrap(), None);
    assert_eq!(file.term_entry().unwrap(), None);
    assert_eq!(file.exports().unwrap().len(), 0);
    assert_eq!(file.imports().unwrap().len(), 0);
}

#[test]
fn instantiated_count_larger_than_count_is_rejected() {
    let mut data = container_header(1, 2);
    let mut sec = section_header(-1, 0, 0x40, 0x40, 0x40, 68, 0, 1);
    data.append(&mut sec);
    let file = PefFile::parse(&data).unwrap();
    assert_eq!(file.section_table().unwrap_err(), Error::InconsistentSectionTable);
}

#[test]
fn instantiated_section_with_short_total_size_is_rejected() {
    let mut data = container_header(1, 1);
    let mut sec = section_header(-1, 0, 0x10, 0x40, 0x40, 68, 1, 1);
    data.append(&mut sec);
    let file = PefFile::parse(&data).unwrap();
    assert_eq!(file.section_table().unwrap_err(), Error::InconsistentSectionTable);
}

#[test]
fn two_loader_sections_are_rejected() {
    let mut data = container_header(2, 0);
    let mut s1 = section_header(-1, 0, 0x10, 0x10, 0x10, 96, 4, 1);
    let mut s2 = section_header(-1, 0, 0x10, 0x10, 0x10, 96, 4, 1);
    data.append(&mut s1);
    data.append(&mut s2);
    let file = PefFile::parse(&data).unwrap();
    assert_eq!(file.section_table().unwrap_err(), Error::InconsistentSectionTable);
}

#[test]
fn section_table_shorter_than_declared_is_out_of_bounds() {
    let data = container_header(3, 0);
    let file = PefFile::parse(&data).unwrap();
    assert_eq!(file.section_table().unwrap_err(), Error::OutOfBounds);
}

#[test]
fn section_by_name_finds_named_section() {
    let mut data = container_header(1, 1);
    let mut sec = section_header(0, 0, 0x4, 0x4, 0x4, 68, 0, 1);
    data.append(&mut sec);
    data.push(b'c');
    data.push(b'o');
    data.push(b'd');
    data.push(b'e');
    data.push(0);
    let file = PefFile::parse(&data).unwrap();
    let found = file.section_by_name_bytes(b"code").unwrap();
    let (index, header) = found.expect("the section should be found by name");
    assert_eq!(index, SectionIndex(1));
    assert_eq!(header.name_offset, 0);
    assert!(file.section_by_name_bytes(b"data").unwrap().is_none());
}

#[test]
fn section_geometry_and_address_lookup() {
    let header = PEFSectionHeader {
        name_offset: -1,
        default_address: 0x1000,
        total_size: 0x100,
        unpacked_size: 0x80,
        packed_size: 0x80,
        container_offset: 0x40,
        section_kind: SectionKind::Code,
        share_kind: ShareKind::ProcessShare,
        alignment: 4,
        reserved_a: 0,
    };
    assert_eq!(header.pef_file_range(), (0x40, 0x80));
    assert_eq!(header.pef_address_range(), (0x1000, 0x100));
    assert!(header.contains_rva(0x1000));
    assert!(header.contains_rva(0x10FF));
    assert!(!header.contains_rva(0x1100));
    assert!(!header.contains_rva(0x0FFF));
    assert_eq!(header.pef_file_range_at(0x1010), Some((0x50, 0x70)));
    assert_eq!(header.pef_file_range_at(0x1080), None);
    assert_eq!(header.pef_file_range_at(0x2000), None);
}

#[test]
fn section_data_is_the_file_range() {
    let data = minimal_container();
    let file = PefFile::parse(&data).unwrap();
    let table = file.section_table().unwrap();
    let header = table.section(SectionIndex(1)).unwrap();
    let bytes = header.pe_data(&data).unwrap();
    assert_eq!(bytes.len(), 0x40);
    assert_eq!(bytes[0], 0);
    assert_eq!(bytes[5], 5);
    let at = header.pe_data_at(&data, 0x1004).expect("address inside the section");
    assert_eq!(at[0], 4);
    let containing = table.section_containing(0x1004).unwrap();
    assert_eq!(containing.default_address, 0x1000);
    assert!(table.section_containing(0x9999).is_none());
    assert_eq!(table.max_section_file_offset(), 68 + 0x40);
}

#[test]
fn section_index_lookup_checks_range() {
    let data = minimal_container();
    let file = PefFile::parse(&data).unwrap();
    let table = file.section_table().unwrap();
    assert!(table.section(SectionIndex(1)).is_ok());
    assert_eq!(table.section(SectionIndex(0)).unwrap_err(), Error::InvalidIndex);
    assert_eq!(table.section(SectionIndex(2)).unwrap_err(), Error::InvalidIndex);
    assert!(!table.is_empty());
    assert_eq!(table.len(), 1);
    let pairs = table.enumerate();
    assert_eq!(pairs.len(), 1);
    assert_eq!(pairs[0].0, SectionIndex(1));
}

#[test]
fn pattern_zero_fill() {
    let prog = vec![0b0000_0011u8];
    let out = expand_pattern(&prog, 3).unwrap();
    assert_eq!(out, vec![0u8, 0, 0]);
}

#[test]
fn pattern_literal_run() {
    let prog = vec![0b0100_0010u8, 0xAA, 0xBB];
    let out = expand_pattern(&prog, 2).unwrap();
    assert_eq!(out, vec![0xAAu8, 0xBB]);
}

#[test]
fn pattern_extended_count() {
    let prog = vec![0b0000_0000u8, 0x00];
    let out = expand_pattern(&prog, 64).unwrap();
    assert_eq!(out.len(), 64);
    assert!(out.iter().all(|&b| b == 0));
}

#[test]
fn pattern_repeat_block() {
    let prog = vec![0b0100_0010u8, 0xAB, 0xCD, 0b1000_0010, 0x01];
    let out = expand_pattern(&prog, 6).unwrap();
    assert_eq!(out, vec![0xABu8, 0xCD, 0xAB, 0xCD, 0xAB, 0xCD]);
}

#[test]
fn pattern_repeat_with_increment_builds_ascending_table() {
    let prog = vec![0b0100_0010u8, 0x10, 0x01, 0b1100_0010, 0x01, 0x05];
    let out = expand_pattern(&prog, 6).unwrap();
    assert_eq!(out, vec![0x10u8, 0x01, 0x10, 0x06, 0x10, 0x0B]);
}

#[test]
fn pattern_increment_wraps_around() {
    let prog = vec![0b0100_0001u8, 0xFE, 0b1100_0001, 0x01, 0x03];
    let out = expand_pattern(&prog, 3).unwrap();
    assert_eq!(out, vec![0xFEu8, 0x01, 0x04]);
}

#[test]
fn pattern_truncated_by_one_byte_fails_truncated() {
    let prog = vec![0b0100_0010u8, 0xAB, 0xCD, 0b1000_0010, 0x01];
    assert!(expand_pattern(&prog, 6).is_ok());
    assert_eq!(expand_pattern(&prog[..4], 6), Err(Error::PatternTruncated));
    let lit = vec![0b0100_0010u8, 0xAA, 0xBB];
    assert_eq!(expand_pattern(&lit[..2], 2), Err(Error::PatternTruncated));
    assert_eq!(expand_pattern(&[], 1), Err(Error::PatternTruncated));
}

#[test]
fn pattern_overshoot_fails_size_mismatch() {
    let prog = vec![0b0100_0010u8, 0xAA, 0xBB];
    assert_eq!(expand_pattern(&prog, 1), Err(Error::PatternSizeMismatch));
    let rep = vec![0b0100_0001u8, 0xAA, 0b1000_0010, 0x01];
    assert_eq!(expand_pattern(&rep, 2), Err(Error::PatternSizeMismatch));
}

#[test]
fn pattern_expansion_through_section() {
    let mut data = container_header(1, 1);
    let mut sec = section_header(-1, 0, 8, 8, 3, 68, 2, 1);
    data.append(&mut sec);
    data.push(0b0100_0010);
    data.push(0x11);
    data.push(0x22);
    let file = PefFile::parse(&data).unwrap();
    let table = file.section_table().unwrap();
    let header = table.section(SectionIndex(1)).unwrap();
    assert_eq!(header.section_kind, SectionKind::PatternInitializedData);
    assert_eq!(header.expanded_data(&data), Err(Error::PatternTruncated));
    let mut data2 = container_header(1, 1);
    let mut sec2 = section_header(-1, 0, 8, 2, 3, 68, 2, 1);
    data2.append(&mut sec2);
    data2.push(0b0100_0010);
    data2.push(0x11);
    data2.push(0x22);
    let file2 = PefFile::parse(&data2).unwrap();
    let table2 = file2.section_table().unwrap();
    let header2 = table2.section(SectionIndex(1)).unwrap();
    assert_eq!(header2.expanded_data(&data2).unwrap(), vec![0x11u8, 0x22]);
}

#[test]
fn unknown_section_kind_is_rejected() {
    let mut data = container_header(1, 0);
    let mut sec = section_header(-1, 0, 0, 0, 0, 68, 9, 1);
    data.append(&mut sec);
    let file = PefFile::parse(&data).unwrap();
    assert_eq!(file.section_table().unwrap_err(), Error::InconsistentSectionTable);
}

#[test]
fn facade_reports_format_properties() {
    let data = minimal_container();
    let file = PefFile::parse(&data).unwrap();
    assert!(!file.is_little_endian());
    assert!(!file.is_64());
    assert_eq!(file.architecture(), peff::file::Architecture::PowerPc);
    assert_eq!(file.kind(), peff::file::ObjectKind::Unknown);
    let mut segments = file.segments().unwrap();
    let seg = segments.next().expect("one instantiated section");
    assert_eq!(seg.address(), 0x1000);
    assert_eq!(seg.size(), 0x40);
    assert_eq!(seg.align(), 4);
    assert!(segments.next().is_none());
    let mut comdats = file.comdats();
    assert!(comdats.next().is_none());
}

#[test]
fn table_level_address_lookups() {
    let data = minimal_container();
    let file = PefFile::parse(&data).unwrap();
    let table = file.section_table().unwrap();
    assert_eq!(table.pe_file_range_at(0x1004), Some((68 + 4, 0x40 - 4)));
    assert_eq!(table.pe_file_range_at(0x2000), None);
    let (bytes, base) = table.pe_data_containing(&data, 0x1004).unwrap();
    assert_eq!(base, 0x1000);
    assert_eq!(bytes.len(), 0x40);
    assert!(table.pe_data_containing(&data, 0x2000).is_none());
}

#[test]
fn per_section_relocations_are_empty() {
    let data = minimal_container();
    let file = PefFile::parse(&data).unwrap();
    let mut sections = file.sections().unwrap();
    let first = sections.next().unwrap();
    let mut relocs = first.relocations();
    assert!(relocs.next().is_none());
    assert_eq!(file.relocation_headers().unwrap().len(), 0);
}

#[test]
fn error_messages_name_the_failure() {
    assert_eq!(Error::InvalidMagic.message(), "invalid container magic");
    assert_eq!(Error::PatternTruncated.message(), "pattern program truncated");
}

#[test]
fn section_view_name_accessors() {
    let mut data = container_header(1, 1);
    let mut sec = section_header(0, 0, 0x4, 0x4, 0x4, 68, 0, 1);
    data.append(&mut sec);
    data.push(b'c');
    data.push(b'o');
    data.push(b'd');
    data.push(b'e');
    data.push(0);
    let file = PefFile::parse(&data).unwrap();
    let mut sections = file.sections().unwrap();
    let view = sections.next().unwrap();
    assert_eq!(view.name_bytes().unwrap(), &b"code"[..]);
    assert_eq!(view.name().unwrap(), "code");
    assert_eq!(view.segment_name().unwrap(), None);
    let unnamed = minimal_container();
    let file2 = PefFile::parse(&unnamed).unwrap();
    let mut sections2 = file2.sections().unwrap();
    let view2 = sections2.next().unwrap();
    assert_eq!(view2.name_bytes().unwrap_err(), Error::OutOfBounds);
    // A multi-byte UTF-8 section name decodes; a lone continuation byte
    // does not.
    let mut named = container_header(1, 1);
    let mut sec3 = section_header(0, 0, 0x4, 0x4, 0x4, 68, 0, 1);
    named.append(&mut sec3);
    named.push(0xC3);
    named.push(0xA9);
    named.push(0);
    let file3 = PefFile::parse(&named).unwrap();
    let mut sections3 = file3.sections().unwrap();
    let view3 = sections3.next().unwrap();
    assert_eq!(view3.name().unwrap(), "\u{e9}");
    let mut bad = container_header(1, 1);
    let mut sec4 = section_header(0, 0, 0x4, 0x4, 0x4, 68, 0, 1);
    bad.append(&mut sec4);
    bad.push(0xA9);
    bad.push(0);
    let file4 = PefFile::parse(&bad).unwrap();
    let mut sections4 = file4.sections().unwrap();
    let view4 = sections4.next().unwrap();
    assert_eq!(view4.name().unwrap_err(), Error::NonUtf8Name);
}
