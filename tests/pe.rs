use binscope::error::ParseError;
use binscope::inspect::{inspect, Report};
use binscope::pe::{decode_thunk, parse_pe, ImportedSymbol, PeReport, ThunkKind};

fn put16(b: &mut Vec<u8>, at: usize, v: u16) {
    b[at..at + 2].copy_from_slice(&v.to_le_bytes());
}

fn put32(b: &mut Vec<u8>, at: usize, v: u32) {
    b[at..at + 4].copy_from_slice(&v.to_le_bytes());
}

fn put64(b: &mut Vec<u8>, at: usize, v: u64) {
    b[at..at + 8].copy_from_slice(&v.to_le_bytes());
}

const LFANEW: usize = 0x40;
const OPT: usize = LFANEW + 24;
const TABLE: usize = OPT + 240;

/// A PE32+ image with one section `.text` (VA 0x1000, raw data at 0x200,
/// 0x200 bytes) and empty data directories.
fn sample_pe() -> Vec<u8> {
    let mut b = vec![0u8; 0x400];
    b[0] = b'M';
    b[1] = b'Z';
    put32(&mut b, 0x3C, LFANEW as u32);
    b[LFANEW..LFANEW + 4].copy_from_slice(b"PE\0\0");
    put16(&mut b, LFANEW + 4, 0x8664);
    put16(&mut b, LFANEW + 6, 1);
    put32(&mut b, LFANEW + 8, 86400);
    put16(&mut b, LFANEW + 20, 240);
    put16(&mut b, OPT, 0x20B);
    put32(&mut b, LFANEW + 40, 0x1010);
    b[TABLE..TABLE + 5].copy_from_slice(b".text");
    put32(&mut b, TABLE + 8, 0x180);
    put32(&mut b, TABLE + 12, 0x1000);
    put32(&mut b, TABLE + 16, 0x200);
    put32(&mut b, TABLE + 20, 0x200);
    b
}

/// `sample_pe` with an import table (KERNEL32.dll: ExitProcess by name,
/// ordinal 7) and an export table (MyFunc, ordinal 0 with base 1).
fn sample_pe_with_tables() -> Vec<u8> {
    let mut b = sample_pe();
    let dd = OPT + 112;
    put32(&mut b, dd, 0x1100);
    put32(&mut b, dd + 8, 0x1000);
    // import descriptor at RVA 0x1000 (file 0x200), then a zero one
    put32(&mut b, 0x200, 0x1040);
    put32(&mut b, 0x200 + 12, 0x1080);
    // thunks at RVA 0x1040 (file 0x240)
    put64(&mut b, 0x240, 0x1090);
    put64(&mut b, 0x248, 0x8000_0000_0000_0000 | 7);
    put64(&mut b, 0x250, 0);
    b[0x280..0x280 + 13].copy_from_slice(b"KERNEL32.dll\0");
    put16(&mut b, 0x290, 0x15);
    b[0x292..0x292 + 12].copy_from_slice(b"ExitProcess\0");
    // export directory at RVA 0x1100 (file 0x300)
    put32(&mut b, 0x300 + 16, 1);
    put32(&mut b, 0x300 + 20, 1);
    put32(&mut b, 0x300 + 24, 1);
    put32(&mut b, 0x300 + 32, 0x1140);
    put32(&mut b, 0x300 + 36, 0x1148);
    put32(&mut b, 0x340, 0x1150);
    put16(&mut b, 0x348, 0);
    b[0x350..0x350 + 7].copy_from_slice(b"MyFunc\0");
    b
}

fn imports_of(rep: &PeReport) -> Vec<(String, String)> {
    rep.imports
        .iter()
        .map(|r| {
            let sym = match &r.symbol {
                ImportedSymbol::Name(n) => n.clone(),
                ImportedSymbol::Ordinal(o) => format!("#{}", o),
            };
            (r.library.clone(), sym)
        })
        .collect()
}

#[test]
fn pe_zero_directories_give_empty_tables() {
    let rep = parse_pe(&sample_pe()).unwrap();
    assert!(rep.imports.is_empty());
    assert!(rep.exports.is_empty());
    assert_eq!(rep.dirs.import_rva, 0);
    assert_eq!(rep.dirs.export_rva, 0);
}

#[test]
fn pe_header_fields() {
    let rep = parse_pe(&sample_pe()).unwrap();
    assert_eq!(rep.header.machine, 0x8664);
    assert_eq!(rep.header.num_sections, 1);
    assert_eq!(rep.header.entry_point_rva, 0x1010);
    assert_eq!(rep.header.timestamp, 86400);
    assert_eq!(rep.timestamp_utc, "1970-01-02 00:00:00 UTC");
    assert!(rep.dirs.is_pe32_plus);
    assert_eq!(rep.sections.len(), 1);
    assert_eq!(rep.sections[0].name, ".text");
    assert_eq!(rep.sections[0].header.virtual_address, 0x1000);
    assert_eq!(rep.sections[0].header.virtual_size, 0x180);
    assert_eq!(rep.sections[0].header.raw_size, 0x200);
    assert_eq!(rep.sections[0].header.raw_offset, 0x200);
}

#[test]
fn pe_imports_by_name_and_ordinal() {
    let rep = parse_pe(&sample_pe_with_tables()).unwrap();
    assert_eq!(
        imports_of(&rep),
        vec![
            ("KERNEL32.dll".to_string(), "ExitProcess".to_string()),
            ("KERNEL32.dll".to_string(), "#7".to_string()),
        ]
    );
}

#[test]
fn pe_exports_add_the_ordinal_base() {
    let rep = parse_pe(&sample_pe_with_tables()).unwrap();
    assert_eq!(rep.exports.len(), 1);
    assert_eq!(rep.exports[0].name, "MyFunc");
    assert_eq!(rep.exports[0].ordinal, 1);
}

#[test]
fn pe_export_with_unmapped_name_is_skipped() {
    let mut img = sample_pe_with_tables();
    put32(&mut img, 0x340, 0x9000);
    let rep = parse_pe(&img).unwrap();
    assert!(rep.exports.is_empty());
    assert_eq!(imports_of(&rep).len(), 2);
}

#[test]
fn pe_unmapped_import_directory_is_fatal() {
    let mut img = sample_pe_with_tables();
    put32(&mut img, OPT + 112 + 8, 0x9000);
    assert_eq!(parse_pe(&img).err(), Some(ParseError::UnmappedAddress));
}

#[test]
fn pe_thunk_with_high_bit_is_an_ordinal() {
    assert_eq!(decode_thunk(0x8000_0000_0000_0000 | 7), ThunkKind::Ordinal(7));
    assert_eq!(decode_thunk(0x8000_0000_0001_0007), ThunkKind::Ordinal(7));
    assert_eq!(decode_thunk(0x1090), ThunkKind::NameRva(0x1090));
    assert_eq!(decode_thunk(0x7FFF_FFFF_8000_1090), ThunkKind::NameRva(0x1090));
}

#[test]
fn pe_decode_twice_gives_the_same_report() {
    let img = sample_pe_with_tables();
    let a = parse_pe(&img).unwrap();
    let b = parse_pe(&img).unwrap();
    assert_eq!(a.header, b.header);
    assert_eq!(a.timestamp_utc, b.timestamp_utc);
    assert_eq!(imports_of(&a), imports_of(&b));
    assert_eq!(a.exports.len(), b.exports.len());
    assert_eq!(a.exports[0].name, b.exports[0].name);
    assert_eq!(img, sample_pe_with_tables());
}

#[test]
fn pe_truncated_section_table_is_out_of_bounds() {
    let img = sample_pe();
    let cut = &img[..TABLE + 39];
    assert_eq!(parse_pe(cut).err(), Some(ParseError::OutOfBounds));
}

#[test]
fn pe_truncated_headers() {
    let img = sample_pe();
    assert_eq!(parse_pe(&img[..0x3E]).err(), Some(ParseError::TruncatedHeader));
    assert_eq!(parse_pe(&img[..LFANEW + 30]).err(), Some(ParseError::TruncatedHeader));
}

#[test]
fn pe_bad_signatures() {
    let mut img = sample_pe();
    img[LFANEW] = b'X';
    assert_eq!(parse_pe(&img).err(), Some(ParseError::InvalidSignature));
    assert_eq!(parse_pe(b"ZM").err(), Some(ParseError::InvalidSignature));
}

#[test]
fn inspect_dispatches_on_pe() {
    match inspect(&sample_pe()) {
        Ok(Report::Pe(rep)) => assert_eq!(rep.header.machine, 0x8664),
        _ => panic!("expected a PE report"),
    }
}
