//! Tests for the loader section: imported libraries and symbols, the export
//! hash table and symbol resolution.

use peff::error::Error;
use peff::file::PefFile;
use peff::loader::{hash_word, parse_export_table, parse_imported_libraries,
    parse_imported_symbols, parse_relocation_headers, relocation_stream, EntryPoint,
    RelocationHeader, SymbolClass};
use peff::pef::{PEFLoaderInfoHeader, TAG1, TAG2, ARCHITECTURE_PPC};
use peff::section::SectionIndex;

fn push_u32(buf: &mut Vec<u8>, v: u32) {
    buf.push((v >> 24) as u8);
    buf.push((v >> 16) as u8);
    buf.push((v >> 8) as u8);
    buf.push(v as u8);
}

fn push_u16(buf: &mut Vec<u8>, v: u16) {
    buf.push((v >> 8) as u8);
    buf.push(v as u8);
}

fn push_i32(buf: &mut Vec<u8>, v: i32) {
    push_u32(buf, v as u32);
}

/// A loader info header with the given table geometry; every offset is
/// relative to the loader section's start.
struct LoaderSpec {
    main_section: i32,
    main_offset: u32,
    imported_library_count: u32,
    total_imported_symbol_count: u32,
    loader_strings_offset: u32,
    export_hash_offset: u32,
    export_hash_table_power: u32,
    exported_symbol_count: u32,
}

fn loader_info_bytes(s: &LoaderSpec) -> Vec<u8> {
    let mut buf = Vec::new();
    push_i32(&mut buf, s.main_section);
    push_u32(&mut buf, s.main_offset);
    push_i32(&mut buf, -1);
    push_u32(&mut buf, 0);
    push_i32(&mut buf, -1);
    push_u32(&mut buf, 0);
    push_u32(&mut buf, s.imported_library_count);
    push_u32(&mut buf, s.total_imported_symbol_count);
    push_u32(&mut buf, 0);
    push_u32(&mut buf, 0);
    push_u32(&mut buf, s.loader_strings_offset);
    push_u32(&mut buf, s.export_hash_offset);
    push_u32(&mut buf, s.export_hash_table_power);
    push_u32(&mut buf, s.exported_symbol_count);
    buf
}

fn push_library(buf: &mut Vec<u8>, name_offset: u32, count: u32, first: u32) {
    push_u32(buf, name_offset);
    push_u32(buf, 0);
    push_u32(buf, 0);
    push_u32(buf, count);
    push_u32(buf, first);
    buf.push(0);
    buf.push(0);
    push_u16(buf, 0);
}

fn push_imported_symbol(buf: &mut Vec<u8>, class: u8, name_offset: u32) {
    push_u32(buf, ((class as u32) << 24) | name_offset);
}

fn push_export_entry(
    buf: &mut Vec<u8>,
    class: u8,
    name_offset: u32,
    symbol_offset: u32,
    section_index: i32,
    next: u32,
    hashed_length: u32,
) {
    push_u32(buf, ((class as u32) << 24) | name_offset);
    push_u32(buf, symbol_offset);
    push_i32(buf, section_index);
    push_u32(buf, next);
    push_u32(buf, hashed_length);
}

/// Wrap loader-section bytes in a whole container: one instantiated code
/// section and the loader section.
fn container_with_loader(loader: Vec<u8>) -> Vec<u8> {
    let mut data = Vec::new();
    push_u32(&mut data, TAG1);
    push_u32(&mut data, TAG2);
    push_u32(&mut data, ARCHITECTURE_PPC);
    push_u32(&mut data, 1);
    push_u32(&mut data, 0);
    push_u32(&mut data, 0);
    push_u32(&mut data, 0);
    push_u32(&mut data, 0);
    push_u16(&mut data, 2);
    push_u16(&mut data, 1);
    push_u32(&mut data, 0);
    // Code section at index 1.
    push_i32(&mut data, -1);
    push_u32(&mut data, 0x1000);
    push_u32(&mut data, 0x10);
    push_u32(&mut data, 0x10);
    push_u32(&mut data, 0x10);
    push_u32(&mut data, 96);
    data.push(0);
    data.push(1);
    data.push(2);
    data.push(0);
    // Loader section at index 2.
    let loader_len = loader.len() as u32;
    push_i32(&mut data, -1);
    push_u32(&mut data, 0);
    push_u32(&mut data, loader_len);
    push_u32(&mut data, loader_len);
    push_u32(&mut data, loader_len);
    push_u32(&mut data, 112);
    data.push(4);
    data.push(1);
    data.push(2);
    data.push(0);
    // Code section contents.
    for i in 0..0x10u32 {
        data.push(i as u8);
    }
    // Loader section contents.
    data.extend_from_slice(&loader);
    data
}

fn push_cstr(buf: &mut Vec<u8>, s: &[u8]) -> u32 {
    let off = buf.len() as u32;
    buf.extend_from_slice(s);
    buf.push(0);
    off
}

/// Loader bytes with one exported symbol named "entry" at section 1 offset
/// 0, a one-bucket hash table, and no imports.
fn export_loader(power: u32) -> Vec<u8> {
    // Layout: info (56) | strings | hash table.
    let mut strings = Vec::new();
    let name_off = push_cstr(&mut strings, b"entry");
    let strings_off = 56u32;
    let hash_off = strings_off + strings.len() as u32;
    let spec = LoaderSpec {
        main_section: 1,
        main_offset: 4,
        imported_library_count: 0,
        total_imported_symbol_count: 0,
        loader_strings_offset: strings_off,
        export_hash_offset: hash_off,
        export_hash_table_power: power,
        exported_symbol_count: 1,
    };
    let mut loader = loader_info_bytes(&spec);
    loader.extend_from_slice(&strings);
    // One bucket head pointing at entry 0, the rest empty.
    let nbuckets = 1u32 << power;
    let target_bucket = hash_word(b"entry") % nbuckets;
    for b in 0..nbuckets {
        if b == target_bucket {
            push_u32(&mut loader, 0);
        } else {
            push_u32(&mut loader, 0xFFFF_FFFF);
        }
    }
    push_export_entry(&mut loader, 2, name_off, 0, 1, 0xFFFF_FFFF, 5);
    loader
}

#[test]
fn export_lookup_single_entry() {
    let data = container_with_loader(export_loader(0));
    let file = PefFile::parse(&data).unwrap();
    let table = file.export_table().unwrap().expect("loader section present");
    assert_eq!(table.len(), 1);
    let found = table.lookup(b"entry").expect("inserted symbol must be found");
    let entry = table.entry(found).unwrap();
    assert_eq!(entry.name, b"entry".to_vec());
    assert_eq!(entry.section_index, 1);
    assert_eq!(entry.symbol_offset, 0);
    assert_eq!(entry.class, SymbolClass::TVector);
    assert_eq!(table.lookup(b"missing"), None);
    assert_eq!(table.lookup(b""), None);
}

#[test]
fn export_lookup_two_buckets() {
    let data = container_with_loader(export_loader(1));
    let file = PefFile::parse(&data).unwrap();
    let table = file.export_table().unwrap().expect("loader section present");
    assert!(table.lookup(b"entry").is_some());
    assert_eq!(table.lookup(b"entr"), None);
    assert_eq!(table.lookup(b"entry2"), None);
}

#[test]
fn export_entry_on_wrong_bucket_chain_is_rejected() {
    // Same table, but the entry hangs off the other bucket of two.
    let mut loader = export_loader(1);
    let hash_off: usize = {
        let info = PEFLoaderInfoHeader::parse(&loader).unwrap();
        info.export_hash_offset as usize
    };
    // Swap the two bucket heads.
    let b0: [u8; 4] = [loader[hash_off], loader[hash_off + 1], loader[hash_off + 2],
        loader[hash_off + 3]];
    for k in 0..4usize {
        loader[hash_off + k] = loader[hash_off + 4 + k];
    }
    for k in 0..4usize {
        loader[hash_off + 4 + k] = b0[k];
    }
    let info = PEFLoaderInfoHeader::parse(&loader).unwrap();
    assert_eq!(
        parse_export_table(&loader, &info).unwrap_err(),
        Error::InconsistentExportTable
    );
}

#[test]
fn export_lookup_longer_chain() {
    // Three symbols, one bucket: a chain of three entries.
    let mut strings = Vec::new();
    let off_a = push_cstr(&mut strings, b"alpha");
    let off_b = push_cstr(&mut strings, b"beta");
    let off_c = push_cstr(&mut strings, b"gamma");
    let strings_off = 56u32;
    let hash_off = strings_off + strings.len() as u32;
    let spec = LoaderSpec {
        main_section: -1,
        main_offset: 0,
        imported_library_count: 0,
        total_imported_symbol_count: 0,
        loader_strings_offset: strings_off,
        export_hash_offset: hash_off,
        export_hash_table_power: 0,
        exported_symbol_count: 3,
    };
    let mut loader = loader_info_bytes(&spec);
    loader.extend_from_slice(&strings);
    push_u32(&mut loader, 0);
    push_export_entry(&mut loader, 0, off_a, 0x10, 1, 1, 5);
    push_export_entry(&mut loader, 1, off_b, 0x20, 1, 2, 4);
    push_export_entry(&mut loader, 2, off_c, 0x30, -2, 0xFFFF_FFFF, 5);
    let info = PEFLoaderInfoHeader::parse(&loader).unwrap();
    let table = parse_export_table(&loader, &info).unwrap();
    assert_eq!(table.len(), 3);
    let a = table.lookup(b"alpha").expect("alpha present");
    assert_eq!(table.entry(a).unwrap().symbol_offset, 0x10);
    assert_eq!(table.entry(a).unwrap().class, SymbolClass::Code);
    let b = table.lookup(b"beta").expect("beta present");
    assert_eq!(table.entry(b).unwrap().symbol_offset, 0x20);
    let c = table.lookup(b"gamma").expect("gamma present");
    assert_eq!(table.entry(c).unwrap().symbol_offset, 0x30);
    assert_eq!(table.lookup(b"delta"), None);
    assert_eq!(table.lookup(b"alph"), None);
}

#[test]
fn export_wrong_hashed_length_is_rejected() {
    let mut loader = export_loader(0);
    // The recorded hashed length sits in the last four bytes of the entry.
    let n: usize = loader.len();
    loader[n - 1] = 7;
    let info = PEFLoaderInfoHeader::parse(&loader).unwrap();
    assert_eq!(
        parse_export_table(&loader, &info).unwrap_err(),
        Error::InconsistentExportTable
    );
}

#[test]
fn export_dangling_chain_link_is_rejected() {
    let mut loader = export_loader(0);
    // The next link sits just before the hashed length.
    let n: usize = loader.len();
    loader[n - 8] = 0;
    loader[n - 7] = 0;
    loader[n - 6] = 0;
    loader[n - 5] = 9;
    let info = PEFLoaderInfoHeader::parse(&loader).unwrap();
    assert_eq!(
        parse_export_table(&loader, &info).unwrap_err(),
        Error::InconsistentExportTable
    );
}

#[test]
fn entry_points_resolve_against_section_table() {
    let data = container_with_loader(export_loader(0));
    let file = PefFile::parse(&data).unwrap();
    assert_eq!(
        file.main_entry().unwrap(),
        Some(EntryPoint { section: SectionIndex(1), offset: 4 })
    );
    assert_eq!(file.init_entry().unwrap(), None);
    assert_eq!(file.term_entry().unwrap(), None);
    let symbols = file.symbol_table().unwrap();
    // One export plus the synthesized main entry point.
    assert_eq!(symbols.len(), 2);
    let mut it = symbols.symbols();
    let first = it.next().unwrap();
    assert_eq!(first.name_bytes().unwrap(), &b"entry"[..]);
    assert_eq!(first.address(), 0x1000);
    assert!(first.is_global());
    let second = it.next().unwrap();
    assert_eq!(second.name_bytes().unwrap(), &b"main"[..]);
    assert_eq!(second.address(), 0x1000 + 4);
    assert!(it.next().is_none());
}

fn import_loader(first1: u32) -> Vec<u8> {
    // Two libraries owning three imported symbols, then strings, then an
    // empty (one-bucket) hash table.
    let mut strings = Vec::new();
    let lib_a = push_cstr(&mut strings, b"InterfaceLib");
    let lib_b = push_cstr(&mut strings, b"MathLib");
    let sym_x = push_cstr(&mut strings, b"x");
    let sym_y = push_cstr(&mut strings, b"y");
    let sym_z = push_cstr(&mut strings, b"z");
    let strings_off = 56 + 2 * 24 + 3 * 4u32;
    let hash_off = strings_off + strings.len() as u32;
    let spec = LoaderSpec {
        main_section: -1,
        main_offset: 0,
        imported_library_count: 2,
        total_imported_symbol_count: 3,
        loader_strings_offset: strings_off,
        export_hash_offset: hash_off,
        export_hash_table_power: 0,
        exported_symbol_count: 0,
    };
    let mut loader = loader_info_bytes(&spec);
    push_library(&mut loader, lib_a, 2, 0);
    push_library(&mut loader, lib_b, 1, first1);
    push_imported_symbol(&mut loader, 0, sym_x);
    push_imported_symbol(&mut loader, 1, sym_y);
    push_imported_symbol(&mut loader, 0x82, sym_z);
    loader.extend_from_slice(&strings);
    push_u32(&mut loader, 0xFFFF_FFFF);
    loader
}

#[test]
fn loader_without_exports_still_parses() {
    // A loader section with imports only: the export table has one empty
    // bucket and no entries, and every export accessor succeeds empty.
    let data = container_with_loader(import_loader(2));
    let file = PefFile::parse(&data).unwrap();
    let table = file.export_table().unwrap().expect("loader section present");
    assert_eq!(table.len(), 0);
    assert_eq!(table.lookup(b"anything"), None);
    assert!(file.exports().unwrap().is_empty());
    assert_eq!(file.symbol_table().unwrap().len(), 0);
}

#[test]
fn import_ranges_tile_the_symbol_array() {
    let data = container_with_loader(import_loader(2));
    let file = PefFile::parse(&data).unwrap();
    let imports = file.imports().unwrap();
    assert_eq!(imports.len(), 3);
    assert_eq!(imports[0].library, b"InterfaceLib".to_vec());
    assert_eq!(imports[0].name, b"x".to_vec());
    assert!(!imports[0].weak);
    assert_eq!(imports[1].library, b"InterfaceLib".to_vec());
    assert_eq!(imports[1].name, b"y".to_vec());
    assert_eq!(imports[2].library, b"MathLib".to_vec());
    assert_eq!(imports[2].name, b"z".to_vec());
    assert!(imports[2].weak);
}

#[test]
fn import_range_gap_is_rejected() {
    let loader = import_loader(1);
    let info = PEFLoaderInfoHeader::parse(&loader).unwrap();
    assert_eq!(
        parse_imported_libraries(&loader, &info).unwrap_err(),
        Error::InconsistentImportTable
    );
    let data = container_with_loader(import_loader(1));
    let file = PefFile::parse(&data).unwrap();
    assert_eq!(file.imports().unwrap_err(), Error::InconsistentImportTable);
}

#[test]
fn imported_symbol_classes_and_weak_bit() {
    let loader = import_loader(2);
    let info = PEFLoaderInfoHeader::parse(&loader).unwrap();
    let syms = parse_imported_symbols(&loader, &info).unwrap();
    assert_eq!(syms.len(), 3);
    assert_eq!(syms[0].class, SymbolClass::Code);
    assert!(!syms[0].weak);
    assert_eq!(syms[1].class, SymbolClass::Data);
    assert_eq!(syms[2].class, SymbolClass::TVector);
    assert!(syms[2].weak);
}

#[test]
fn unknown_import_class_is_rejected() {
    let mut loader = import_loader(2);
    // The class byte of the first imported symbol.
    let off: usize = 56 + 2 * 24;
    loader[off] = 9;
    let info = PEFLoaderInfoHeader::parse(&loader).unwrap();
    assert_eq!(
        parse_imported_symbols(&loader, &info).unwrap_err(),
        Error::InconsistentImportTable
    );
}

#[test]
fn loader_info_too_short() {
    let loader = vec![0u8; 55];
    assert_eq!(PEFLoaderInfoHeader::parse(&loader), Err(Error::TooShort));
}

#[test]
fn hash_word_depends_on_bytes_and_length() {
    assert_eq!(hash_word(b"entry"), hash_word(b"entry"));
    assert_ne!(hash_word(b"entry"), hash_word(b"entrz"));
    assert_ne!(hash_word(b"entry"), hash_word(b"entr"));
    // The top half holds the hashed length.
    assert_eq!(hash_word(b"entry") >> 16, 5);
    assert_eq!(hash_word(b"") >> 16, 0);
}

#[test]
fn symbol_name_text_and_non_text() {
    let data = container_with_loader(export_loader(0));
    let file = PefFile::parse(&data).unwrap();
    let symbols = file.symbol_table().unwrap();
    let first = symbols.symbol_by_index(peff::file::SymbolIndex(0)).unwrap();
    assert_eq!(first.name().unwrap(), "entry");
    // A name with a byte outside the 7-bit range is not plain text.
    let mut strings = Vec::new();
    strings.push(0x66);
    strings.push(0xC3);
    strings.push(0);
    let strings_off = 56u32;
    let hash_off = strings_off + strings.len() as u32;
    let spec = LoaderSpec {
        main_section: -1,
        main_offset: 0,
        imported_library_count: 0,
        total_imported_symbol_count: 0,
        loader_strings_offset: strings_off,
        export_hash_offset: hash_off,
        export_hash_table_power: 0,
        exported_symbol_count: 1,
    };
    let mut loader = loader_info_bytes(&spec);
    loader.extend_from_slice(&strings);
    push_u32(&mut loader, 0);
    push_export_entry(&mut loader, 0, 0, 0, 1, 0xFFFF_FFFF, 2);
    let data2 = container_with_loader(loader);
    let file2 = PefFile::parse(&data2).unwrap();
    let symbols2 = file2.symbol_table().unwrap();
    let sym = symbols2.symbol_by_index(peff::file::SymbolIndex(0)).unwrap();
    assert_eq!(sym.name_bytes().unwrap(), &[0x66u8, 0xC3][..]);
    assert_eq!(sym.name().unwrap_err(), Error::NonUtf8Name);
}

#[test]
fn symbol_name_decodes_multi_byte_utf8() {
    // A two-byte UTF-8 name (one accented character) is valid text.
    let mut strings = Vec::new();
    strings.push(0xC3);
    strings.push(0xA9);
    strings.push(0);
    let strings_off = 56u32;
    let hash_off = strings_off + strings.len() as u32;
    let spec = LoaderSpec {
        main_section: -1,
        main_offset: 0,
        imported_library_count: 0,
        total_imported_symbol_count: 0,
        loader_strings_offset: strings_off,
        export_hash_offset: hash_off,
        export_hash_table_power: 0,
        exported_symbol_count: 1,
    };
    let mut loader = loader_info_bytes(&spec);
    loader.extend_from_slice(&strings);
    push_u32(&mut loader, 0);
    push_export_entry(&mut loader, 0, 0, 0, 1, 0xFFFF_FFFF, 2);
    let data = container_with_loader(loader);
    let file = PefFile::parse(&data).unwrap();
    let symbols = file.symbol_table().unwrap();
    let sym = symbols.symbol_by_index(peff::file::SymbolIndex(0)).unwrap();
    assert_eq!(sym.name().unwrap(), "\u{e9}");
}

#[test]
fn relocation_streams_are_exposed_as_data() {
    let mut loader = Vec::new();
    push_i32(&mut loader, -1);
    push_u32(&mut loader, 0);
    push_i32(&mut loader, -1);
    push_u32(&mut loader, 0);
    push_i32(&mut loader, -1);
    push_u32(&mut loader, 0);
    push_u32(&mut loader, 0);
    push_u32(&mut loader, 0);
    push_u32(&mut loader, 1);
    push_u32(&mut loader, 56);
    push_u32(&mut loader, 72);
    push_u32(&mut loader, 72);
    push_u32(&mut loader, 0);
    push_u32(&mut loader, 0);
    // One stream header at offset 56, then its four stream bytes.
    push_u16(&mut loader, 1);
    push_u16(&mut loader, 0);
    push_u32(&mut loader, 2);
    push_u32(&mut loader, 0);
    loader.extend_from_slice(&[0xDE, 0xAD, 0xBE, 0xEF]);
    // One empty export hash bucket.
    push_u32(&mut loader, 0xFFFF_FFFF);
    let info = PEFLoaderInfoHeader::parse(&loader).unwrap();
    let headers = parse_relocation_headers(&loader, &info).unwrap();
    assert_eq!(headers.len(), 1);
    assert_eq!(headers[0].section_index, 1);
    assert_eq!(headers[0].reloc_count, 2);
    let stream = relocation_stream(&loader, &info, &headers[0]).unwrap();
    assert_eq!(stream, &[0xDEu8, 0xAD, 0xBE, 0xEF][..]);
    let too_long = RelocationHeader {
        section_index: 1,
        reloc_count: 40,
        first_reloc_offset: 0,
    };
    assert_eq!(
        relocation_stream(&loader, &info, &too_long).unwrap_err(),
        Error::OutOfBounds
    );
}
