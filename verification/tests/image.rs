//! Analyses of small hand-built images.

use pe_analyzer::analysis::{analyze, AnalysisResult};
use pe_analyzer::error::{AnalysisError, Directory, Phase};
use pe_analyzer::export::ExportFunction;
use pe_analyzer::import::{ImportFunction, ImportTableEntry};
use pe_analyzer::section::Section;

const COFF: usize = 0x80;
const OPTIONAL: usize = COFF + 0x18;
const IMAGE_SIZE: usize = 0x600;
/// The one section maps virtual addresses from 0x1000 on to the file from 0x200 on.
const SECTION_RVA: u32 = 0x1000;
const SECTION_RAW: u32 = 0x200;

fn put(buf: &mut Vec<u8>, at: usize, bytes: &[u8]) {
    buf[at..at + bytes.len()].copy_from_slice(bytes);
}

fn put_u16(buf: &mut Vec<u8>, at: usize, v: u16) {
    put(buf, at, &v.to_le_bytes());
}

fn put_u32(buf: &mut Vec<u8>, at: usize, v: u32) {
    put(buf, at, &v.to_le_bytes());
}

fn put_u64(buf: &mut Vec<u8>, at: usize, v: u64) {
    put(buf, at, &v.to_le_bytes());
}

/// File offset of a virtual address inside the one section.
fn at(rva: u32) -> usize {
    (rva - SECTION_RVA + SECTION_RAW) as usize
}

fn optional_header_size(is_64bit: bool) -> usize {
    if is_64bit {
        0xF0
    } else {
        0xE0
    }
}

fn directories(is_64bit: bool) -> usize {
    OPTIONAL + if is_64bit { 0x70 } else { 0x60 }
}

fn section_table(is_64bit: bool) -> usize {
    OPTIONAL + optional_header_size(is_64bit)
}

/// An image with one section `.text` and empty export and import slots.
fn bare_image(is_64bit: bool) -> Vec<u8> {
    let mut buf = vec![0u8; IMAGE_SIZE];
    put(&mut buf, 0, b"MZ");
    put_u32(&mut buf, 0x3C, COFF as u32);
    put(&mut buf, COFF, b"PE\0\0");
    put_u16(&mut buf, COFF + 0x06, 1);
    put_u16(&mut buf, COFF + 0x14, optional_header_size(is_64bit) as u16);
    put_u16(&mut buf, OPTIONAL, if is_64bit { 0x20B } else { 0x10B });
    let entry = section_table(is_64bit);
    put(&mut buf, entry, b".text\0\0\0");
    put_u32(&mut buf, entry + 8, 0x1000);
    put_u32(&mut buf, entry + 12, SECTION_RVA);
    put_u32(&mut buf, entry + 20, SECTION_RAW);
    buf
}

fn set_export_slot(buf: &mut Vec<u8>, is_64bit: bool, rva: u32, size: u32) {
    put_u32(buf, directories(is_64bit), rva);
    put_u32(buf, directories(is_64bit) + 4, size);
}

fn set_import_slot(buf: &mut Vec<u8>, is_64bit: bool, rva: u32, size: u32) {
    put_u32(buf, directories(is_64bit) + 8, rva);
    put_u32(buf, directories(is_64bit) + 12, size);
}

/// Writes the six fields of an export directory at `dir`.
fn put_export_directory(
    buf: &mut Vec<u8>,
    dir: u32,
    base: u32,
    addresses: u32,
    names: u32,
    address_table: u32,
    name_table: u32,
    ordinal_table: u32,
) {
    let fields = at(dir) + 0x10;
    put_u32(buf, fields, base);
    put_u32(buf, fields + 4, addresses);
    put_u32(buf, fields + 8, names);
    put_u32(buf, fields + 12, address_table);
    put_u32(buf, fields + 16, name_table);
    put_u32(buf, fields + 20, ordinal_table);
}

/// One export `Foo` with ordinal base 1 at index 0 of the address table.
fn add_foo_export(buf: &mut Vec<u8>, is_64bit: bool) {
    set_export_slot(buf, is_64bit, 0x1000, 0x28);
    put_export_directory(buf, 0x1000, 1, 1, 1, 0x1040, 0x1050, 0x1060);
    put_u32(buf, at(0x1040), 0x1100);
    put_u32(buf, at(0x1050), 0x1070);
    put_u16(buf, at(0x1060), 0);
    put(buf, at(0x1070), b"Foo\0");
}

/// One descriptor for `KERNEL32.DLL` whose lookup table lies at 0x10C0.
fn add_kernel32_descriptor(buf: &mut Vec<u8>, is_64bit: bool) {
    set_import_slot(buf, is_64bit, 0x1080, 20);
    put_u32(buf, at(0x1080), 0x10C0);
    put_u32(buf, at(0x1080) + 12, 0x10E0);
    put(buf, at(0x10E0), b"KERNEL32.DLL\0");
}

fn text_section() -> Section {
    Section {
        name: ".text".to_string(),
        virtual_address: SECTION_RVA,
        raw_pointer: SECTION_RAW,
        virtual_end: 0x2000,
    }
}

fn ok(buf: &[u8]) -> AnalysisResult {
    match analyze("image.exe", buf) {
        Ok(r) => r,
        Err(e) => panic!("analysis failed: {:?}", e),
    }
}

fn err(buf: &[u8]) -> AnalysisError {
    match analyze("image.exe", buf) {
        Ok(_) => panic!("analysis succeeded"),
        Err(e) => e,
    }
}

#[test]
fn bare_image_has_its_section_and_no_tables() {
    let buf = bare_image(false);
    let r = ok(&buf);
    assert_eq!(
        r,
        AnalysisResult {
            path: "image.exe".to_string(),
            size: IMAGE_SIZE as u64,
            is_64bit: false,
            sections: vec![text_section()],
            exports: vec![],
            imports: vec![],
        }
    );
}

#[test]
fn size_is_the_length_of_the_buffer() {
    for extra in [0usize, 1, 7, 4096] {
        let mut buf = bare_image(true);
        buf.resize(IMAGE_SIZE + extra, 0xAA);
        let r = ok(&buf);
        assert_eq!(r.size, (IMAGE_SIZE + extra) as u64);
        assert!(r.is_64bit);
        assert_eq!(r.path, "image.exe");
    }
}

#[test]
fn round_trip_of_a_32_bit_image() {
    let mut buf = bare_image(false);
    add_foo_export(&mut buf, false);
    add_kernel32_descriptor(&mut buf, false);
    put_u32(&mut buf, at(0x10C0), 0x10F0);
    put_u32(&mut buf, at(0x10C4), 0);
    put_u16(&mut buf, at(0x10F0), 5);
    put(&mut buf, at(0x10F2), b"ExitProcess\0");
    let r = ok(&buf);
    assert!(!r.is_64bit);
    assert_eq!(r.sections, vec![text_section()]);
    assert_eq!(
        r.exports,
        vec![ExportFunction { name: "Foo".to_string(), ordinal: 1, address_rva: 0x1100 }]
    );
    assert_eq!(
        r.imports,
        vec![ImportTableEntry {
            library_name: "KERNEL32.DLL".to_string(),
            functions: vec![ImportFunction {
                name: "ExitProcess".to_string(),
                is_ordinal: false,
                ordinal: 0,
                hint: 5,
            }],
        }]
    );
}

#[test]
fn ordinal_import_in_a_64_bit_image() {
    let mut buf = bare_image(true);
    add_kernel32_descriptor(&mut buf, true);
    put_u64(&mut buf, at(0x10C0), 0x8000_0000_0000_002A);
    put_u64(&mut buf, at(0x10C8), 0);
    let r = ok(&buf);
    assert!(r.is_64bit);
    assert_eq!(
        r.imports,
        vec![ImportTableEntry {
            library_name: "KERNEL32.DLL".to_string(),
            functions: vec![ImportFunction {
                name: String::new(),
                is_ordinal: true,
                ordinal: 42,
                hint: 0,
            }],
        }]
    );
}

#[test]
fn ordinal_import_in_a_32_bit_image() {
    let mut buf = bare_image(false);
    add_kernel32_descriptor(&mut buf, false);
    put_u32(&mut buf, at(0x10C0), 0x8001_0007);
    put_u32(&mut buf, at(0x10C4), 0);
    let r = ok(&buf);
    assert_eq!(
        r.imports[0].functions,
        vec![ImportFunction { name: String::new(), is_ordinal: true, ordinal: 7, hint: 0 }]
    );
}

#[test]
fn zero_size_slots_give_empty_lists_whatever_the_address() {
    for is_64bit in [false, true] {
        let mut buf = bare_image(is_64bit);
        set_export_slot(&mut buf, is_64bit, 0xDEAD_0000, 0);
        set_import_slot(&mut buf, is_64bit, 0xBEEF_0000, 0);
        let r = ok(&buf);
        assert!(r.exports.is_empty());
        assert!(r.imports.is_empty());
    }
}

#[test]
fn zero_size_export_slot_leaves_the_imports() {
    let mut buf = bare_image(false);
    add_kernel32_descriptor(&mut buf, false);
    put_u32(&mut buf, at(0x10C0), 0x8000_0001);
    let r = ok(&buf);
    assert!(r.exports.is_empty());
    assert_eq!(r.imports.len(), 1);
}

#[test]
fn missing_dos_magic_is_no_pe_file() {
    let mut buf = bare_image(false);
    buf[0] = b'Z';
    buf[1] = b'M';
    assert_eq!(err(&buf), AnalysisError::NotAPeFile);
    assert_eq!(err(&[0x4D, 0x00]), AnalysisError::NotAPeFile);
    assert_eq!(err(&[0x00, 0x5A, 1, 2, 3]), AnalysisError::NotAPeFile);
    let mut noise = vec![0xFFu8; 4096];
    noise[0] = 0x4D;
    assert_eq!(err(&noise), AnalysisError::NotAPeFile);
}

#[test]
fn wrong_pe_signature_is_no_pe_file() {
    for (i, b) in [(0usize, b'Q'), (1, b'F'), (2, 1u8), (3, 1u8)] {
        let mut buf = bare_image(false);
        buf[COFF + i] = b;
        assert_eq!(err(&buf), AnalysisError::NotAPeFile);
    }
}

#[test]
fn unknown_magic_is_an_unknown_format() {
    for magic in [0u16, 0x10A, 0x10C, 0x107, 0x20A, 0xFFFF] {
        let mut buf = bare_image(false);
        put_u16(&mut buf, OPTIONAL, magic);
        assert_eq!(err(&buf), AnalysisError::UnknownImageFormat);
    }
}

#[test]
fn truncated_header_is_an_io_error() {
    let buf = bare_image(false);
    let header = AnalysisError::IoError(Phase::Header);
    assert_eq!(err(&[]), header);
    assert_eq!(err(&[0x4D]), header);
    assert_eq!(err(&buf[..2]), header);
    assert_eq!(err(&buf[..0x3F]), header);
    assert_eq!(err(&buf[..0x40]), header);
    assert_eq!(err(&buf[..COFF + 3]), header);
    assert_eq!(err(&buf[..COFF + 4]), header);
    assert_eq!(err(&buf[..OPTIONAL + 1]), header);
}

#[test]
fn coff_pointer_past_the_end_is_an_io_error() {
    let mut buf = bare_image(false);
    put_u32(&mut buf, 0x3C, 0xFFFF_FFFF);
    assert_eq!(err(&buf), AnalysisError::IoError(Phase::Header));
    put_u32(&mut buf, 0x3C, IMAGE_SIZE as u32 - 3);
    assert_eq!(err(&buf), AnalysisError::IoError(Phase::Header));
}

#[test]
fn truncated_section_table_is_an_io_error() {
    let buf = bare_image(false);
    let table = section_table(false);
    assert_eq!(err(&buf[..OPTIONAL + 2]), AnalysisError::IoError(Phase::SectionTable));
    assert_eq!(err(&buf[..table + 23]), AnalysisError::IoError(Phase::SectionTable));
    let mut many = bare_image(false);
    put_u16(&mut many, COFF + 0x06, 0xFFFF);
    assert_eq!(err(&many), AnalysisError::IoError(Phase::SectionTable));
}

#[test]
fn last_section_entry_needs_its_first_24_bytes_only() {
    // A 64-bit header with no optional header to speak of: the section table
    // comes first and the data directories lie behind it.
    let mut buf = vec![0u8; OPTIONAL + 0x70 + 16];
    put(&mut buf, 0, b"MZ");
    put_u32(&mut buf, 0x3C, COFF as u32);
    put(&mut buf, COFF, b"PE\0\0");
    put_u16(&mut buf, COFF + 0x06, 3);
    put_u16(&mut buf, COFF + 0x14, 2);
    put_u16(&mut buf, OPTIONAL, 0x20B);
    // entries at OPTIONAL + 2, + 42, + 82; the third ends its read at + 106
    let r = ok(&buf);
    assert_eq!(r.sections.len(), 3);
    assert_eq!(err(&buf[..OPTIONAL + 105]), AnalysisError::IoError(Phase::SectionTable));
    assert_eq!(err(&buf[..OPTIONAL + 106]), AnalysisError::IoError(Phase::DataDirectories));
}

#[test]
fn truncated_data_directories_are_an_io_error() {
    let mut buf = bare_image(false);
    put_u16(&mut buf, COFF + 0x06, 0);
    let end = directories(false) + 16;
    assert_eq!(err(&buf[..end - 1]), AnalysisError::IoError(Phase::DataDirectories));
    let r = ok(&buf[..end]);
    assert!(r.sections.is_empty());
    assert_eq!(r.size, end as u64);
}

#[test]
fn sections_keep_file_order_and_trimmed_names() {
    let mut buf = bare_image(true);
    put_u16(&mut buf, COFF + 0x06, 3);
    let second = section_table(true) + 40;
    put(&mut buf, second, b"eightchr");
    put_u32(&mut buf, second + 8, 0x10);
    put_u32(&mut buf, second + 12, 0x500);
    put_u32(&mut buf, second + 20, 0x40);
    let third = second + 40;
    put(&mut buf, third, b"a\0b\0\0\0\0\0");
    put_u32(&mut buf, third + 8, 0xFFFF_FFFF);
    put_u32(&mut buf, third + 12, 0xFFFF_FFFF);
    put_u32(&mut buf, third + 20, 0xFFFF_FFFF);
    let r = ok(&buf);
    assert_eq!(
        r.sections,
        vec![
            text_section(),
            Section {
                name: "eightchr".to_string(),
                virtual_address: 0x500,
                raw_pointer: 0x40,
                virtual_end: 0x510,
            },
            Section {
                name: "a\0b".to_string(),
                virtual_address: 0xFFFF_FFFF,
                raw_pointer: 0xFFFF_FFFF,
                virtual_end: 0x1_FFFF_FFFE,
            },
        ]
    );
}

#[test]
fn section_name_that_is_not_utf8_is_decoded_lossily() {
    let mut buf = bare_image(false);
    put(&mut buf, section_table(false), b".t\xFFxt\0\0\0");
    let r = ok(&buf);
    assert_eq!(r.sections[0].name, ".t\u{FFFD}xt");
}

#[test]
fn unresolved_export_directory_is_fatal() {
    let mut buf = bare_image(false);
    set_export_slot(&mut buf, false, 0x3000, 0x28);
    assert_eq!(err(&buf), AnalysisError::DirectoryUnresolved(Directory::Export));
    set_export_slot(&mut buf, false, 0x2000, 0x28);
    assert_eq!(err(&buf), AnalysisError::DirectoryUnresolved(Directory::Export));
    set_export_slot(&mut buf, false, 0xFFF, 1);
    assert_eq!(err(&buf), AnalysisError::DirectoryUnresolved(Directory::Export));
}

#[test]
fn unresolved_export_tables_are_fatal_in_their_order() {
    let mut buf = bare_image(false);
    add_foo_export(&mut buf, false);
    put_export_directory(&mut buf, 0x1000, 1, 1, 1, 0x9000, 0x9000, 0x9000);
    assert_eq!(err(&buf), AnalysisError::DirectoryUnresolved(Directory::ExportAddressTable));
    put_export_directory(&mut buf, 0x1000, 1, 1, 1, 0x1040, 0x9000, 0x9000);
    assert_eq!(err(&buf), AnalysisError::DirectoryUnresolved(Directory::ExportNamePointerTable));
    put_export_directory(&mut buf, 0x1000, 1, 1, 1, 0x1040, 0x1050, 0x9000);
    assert_eq!(err(&buf), AnalysisError::DirectoryUnresolved(Directory::ExportOrdinalTable));
    put_export_directory(&mut buf, 0x1000, 1, 1, 1, 0x1040, 0x1050, 0x1060);
    assert_eq!(ok(&buf).exports.len(), 1);
}

#[test]
fn export_tables_past_the_end_are_an_io_error() {
    let io = AnalysisError::IoError(Phase::ExportTable);
    let mut buf = bare_image(false);
    add_foo_export(&mut buf, false);
    put_export_directory(&mut buf, 0x1000, 1, 0xFFFF_FFFF, 1, 0x1040, 0x1050, 0x1060);
    assert_eq!(err(&buf), io);
    put_export_directory(&mut buf, 0x1000, 1, 1, 0x1000, 0x1040, 0x1050, 0x1060);
    assert_eq!(err(&buf), io);
    // the directory itself at the very end of the section's data
    let mut cut = bare_image(false);
    set_export_slot(&mut cut, false, 0x13F0, 0x28);
    assert_eq!(err(&cut), io);
    // an address table of exactly the bytes that are left
    let mut exact = bare_image(false);
    set_export_slot(&mut exact, false, 0x1000, 0x28);
    put_export_directory(&mut exact, 0x1000, 0, 4, 0, 0x13F0, 0x1000, 0x1000);
    assert_eq!(ok(&exact).exports.len(), 4);
    put_export_directory(&mut exact, 0x1000, 0, 5, 0, 0x13F0, 0x1000, 0x1000);
    assert_eq!(err(&exact), io);
}

#[test]
fn export_name_without_terminator_is_an_io_error() {
    let mut buf = bare_image(false);
    add_foo_export(&mut buf, false);
    put_u32(&mut buf, at(0x1050), 0x13FD);
    put(&mut buf, at(0x13FD), b"abc");
    assert_eq!(err(&buf), AnalysisError::IoError(Phase::ExportTable));
}

#[test]
fn unresolved_export_name_is_recorded_as_empty() {
    let mut buf = bare_image(false);
    add_foo_export(&mut buf, false);
    put_u32(&mut buf, at(0x1050), 0x7777_0000);
    assert_eq!(
        ok(&buf).exports,
        vec![ExportFunction { name: String::new(), ordinal: 1, address_rva: 0x1100 }]
    );
}

#[test]
fn exports_are_linked_through_the_ordinal_table_and_sorted() {
    let mut buf = bare_image(false);
    set_export_slot(&mut buf, false, 0x1000, 0x28);
    put_export_directory(&mut buf, 0x1000, 10, 4, 2, 0x1040, 0x1050, 0x1060);
    for (i, address) in [0x1111u32, 0x2222, 0x3333, 0x4444].iter().enumerate() {
        put_u32(&mut buf, at(0x1040) + 4 * i, *address);
    }
    put_u32(&mut buf, at(0x1050), 0x1070);
    put_u32(&mut buf, at(0x1054), 0x1078);
    put_u16(&mut buf, at(0x1060), 3);
    put_u16(&mut buf, at(0x1062), 1);
    put(&mut buf, at(0x1070), b"last\0");
    put(&mut buf, at(0x1078), b"second\0");
    assert_eq!(
        ok(&buf).exports,
        vec![
            ExportFunction { name: String::new(), ordinal: 0, address_rva: 0x1111 },
            ExportFunction { name: String::new(), ordinal: 0, address_rva: 0x3333 },
            ExportFunction { name: "second".to_string(), ordinal: 11, address_rva: 0x2222 },
            ExportFunction { name: "last".to_string(), ordinal: 13, address_rva: 0x4444 },
        ]
    );
}

#[test]
fn export_ordinal_does_not_wrap() {
    let mut buf = bare_image(false);
    add_foo_export(&mut buf, false);
    put_export_directory(&mut buf, 0x1000, 0xFFFF_FFFF, 2, 1, 0x1040, 0x1050, 0x1060);
    put_u32(&mut buf, at(0x1044), 0x1200);
    put_u16(&mut buf, at(0x1060), 1);
    assert_eq!(
        ok(&buf).exports,
        vec![
            ExportFunction { name: String::new(), ordinal: 0, address_rva: 0x1100 },
            ExportFunction { name: "Foo".to_string(), ordinal: 0x1_0000_0000, address_rva: 0x1200 },
        ]
    );
}

#[test]
fn unresolved_import_directory_is_fatal() {
    let mut buf = bare_image(true);
    set_import_slot(&mut buf, true, 0x2000, 20);
    assert_eq!(err(&buf), AnalysisError::DirectoryUnresolved(Directory::Import));
}

#[test]
fn export_errors_come_before_import_errors() {
    let mut buf = bare_image(false);
    set_export_slot(&mut buf, false, 0x5000, 1);
    set_import_slot(&mut buf, false, 0x6000, 20);
    assert_eq!(err(&buf), AnalysisError::DirectoryUnresolved(Directory::Export));
}

#[test]
fn unresolved_descriptors_are_passed_over() {
    let mut buf = bare_image(false);
    // three descriptors: lookup table unresolved, name unresolved, good
    set_import_slot(&mut buf, false, 0x1080, 60);
    put_u32(&mut buf, at(0x1080), 0x9000);
    put_u32(&mut buf, at(0x1080) + 12, 0x10E0);
    put_u32(&mut buf, at(0x1094), 0x10C0);
    put_u32(&mut buf, at(0x1094) + 12, 0x9000);
    put_u32(&mut buf, at(0x10A8), 0x10C0);
    put_u32(&mut buf, at(0x10A8) + 12, 0x10E0);
    put(&mut buf, at(0x10E0), b"user32.dll\0");
    put_u32(&mut buf, at(0x10C0), 0x8000_0003);
    let r = ok(&buf);
    assert_eq!(
        r.imports,
        vec![ImportTableEntry {
            library_name: "user32.dll".to_string(),
            functions: vec![ImportFunction {
                name: String::new(),
                is_ordinal: true,
                ordinal: 3,
                hint: 0,
            }],
        }]
    );
}

#[test]
fn descriptor_count_is_the_size_divided_by_twenty() {
    let mut buf = bare_image(false);
    add_kernel32_descriptor(&mut buf, false);
    put_u32(&mut buf, at(0x1094), 0x10C0);
    put_u32(&mut buf, at(0x1094) + 12, 0x10E0);
    for (size, count) in [(19u32, 0usize), (20, 1), (39, 1), (40, 2)] {
        set_import_slot(&mut buf, false, 0x1080, size);
        assert_eq!(ok(&buf).imports.len(), count);
    }
}

#[test]
fn name_field_is_not_read_when_the_lookup_table_is_unresolved() {
    // the descriptor's first field is the last four bytes of the file
    let mut buf = bare_image(false);
    set_import_slot(&mut buf, false, 0x13FC, 20);
    put_u32(&mut buf, at(0x13FC), 0x9000);
    assert!(ok(&buf).imports.is_empty());
    put_u32(&mut buf, at(0x13FC), 0x1000);
    assert_eq!(err(&buf), AnalysisError::IoError(Phase::ImportTable));
}

#[test]
fn imports_are_sorted_by_hint_and_unresolved_entries_passed_over() {
    let mut buf = bare_image(false);
    add_kernel32_descriptor(&mut buf, false);
    put_u32(&mut buf, at(0x10C0), 0x1100);
    put_u32(&mut buf, at(0x10C4), 0x8000_0009);
    put_u32(&mut buf, at(0x10C8), 0x7000_0000);
    put_u32(&mut buf, at(0x10CC), 0x1120);
    put_u32(&mut buf, at(0x10D0), 0x1140);
    put_u32(&mut buf, at(0x10D4), 0);
    put_u32(&mut buf, at(0x10D8), 0x8000_0001);
    put_u16(&mut buf, at(0x1100), 7);
    put(&mut buf, at(0x1102), b"Seven\0");
    put_u16(&mut buf, at(0x1120), 2);
    put(&mut buf, at(0x1122), b"Two\0");
    put_u16(&mut buf, at(0x1140), 7);
    put(&mut buf, at(0x1142), b"AlsoSeven\0");
    let names: Vec<(String, bool, u16, u16)> = ok(&buf).imports[0]
        .functions
        .iter()
        .map(|f| (f.name.clone(), f.is_ordinal, f.ordinal, f.hint))
        .collect();
    assert_eq!(
        names,
        vec![
            (String::new(), true, 9, 0),
            ("Two".to_string(), false, 0, 2),
            ("Seven".to_string(), false, 0, 7),
            ("AlsoSeven".to_string(), false, 0, 7),
        ]
    );
}

#[test]
fn lookup_table_without_terminator_is_an_io_error() {
    let mut buf = bare_image(true);
    add_kernel32_descriptor(&mut buf, true);
    let mut entry = at(0x10C0);
    while entry + 8 <= IMAGE_SIZE {
        put_u64(&mut buf, entry, 0x8000_0000_0000_0001);
        entry += 8;
    }
    assert_eq!(err(&buf), AnalysisError::IoError(Phase::ImportTable));
}

#[test]
fn truncated_hint_and_name_are_an_io_error() {
    let io = AnalysisError::IoError(Phase::ImportTable);
    let mut buf = bare_image(false);
    add_kernel32_descriptor(&mut buf, false);
    put_u32(&mut buf, at(0x10C0), 0x13FF);
    assert_eq!(err(&buf), io);
    put_u32(&mut buf, at(0x10C0), 0x13FC);
    put(&mut buf, at(0x13FC), b"\x01\x00ab");
    assert_eq!(err(&buf), io);
    put(&mut buf, at(0x13FC), b"\x01\x00a\0");
    assert_eq!(ok(&buf).imports[0].functions[0].name, "a");
}

#[test]
fn library_name_without_terminator_is_an_io_error() {
    let mut buf = bare_image(false);
    add_kernel32_descriptor(&mut buf, false);
    put_u32(&mut buf, at(0x1080) + 12, 0x13FE);
    put(&mut buf, at(0x13FE), b"ab");
    assert_eq!(err(&buf), AnalysisError::IoError(Phase::ImportTable));
}

#[test]
fn hint_name_address_of_a_64_bit_entry_is_its_low_32_bits() {
    let mut buf = bare_image(true);
    add_kernel32_descriptor(&mut buf, true);
    put_u64(&mut buf, at(0x10C0), 0x0000_0123_0000_1100);
    put_u16(&mut buf, at(0x1100), 1);
    put(&mut buf, at(0x1102), b"Wide\0");
    assert_eq!(
        ok(&buf).imports[0].functions,
        vec![ImportFunction { name: "Wide".to_string(), is_ordinal: false, ordinal: 0, hint: 1 }]
    );
}

#[test]
fn first_matching_section_translates() {
    // a second section over the same addresses, with other data behind it
    let mut buf = bare_image(false);
    put_u16(&mut buf, COFF + 0x06, 2);
    let second = section_table(false) + 40;
    put(&mut buf, second, b".dup\0\0\0\0");
    put_u32(&mut buf, second + 8, 0x2000);
    put_u32(&mut buf, second + 12, SECTION_RVA);
    put_u32(&mut buf, second + 20, 0x400);
    add_foo_export(&mut buf, false);
    put(&mut buf, 0x400 + 0x70, b"Bar\0");
    assert_eq!(ok(&buf).exports[0].name, "Foo");
}
