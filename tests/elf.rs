use binscope::elf::{parse_elf, ElfReport};
use binscope::error::ParseError;
use binscope::inspect::{inspect, Report};

fn put16(b: &mut Vec<u8>, at: usize, v: u16) {
    b[at..at + 2].copy_from_slice(&v.to_le_bytes());
}

fn put32(b: &mut Vec<u8>, at: usize, v: u32) {
    b[at..at + 4].copy_from_slice(&v.to_le_bytes());
}

fn put64(b: &mut Vec<u8>, at: usize, v: u64) {
    b[at..at + 8].copy_from_slice(&v.to_le_bytes());
}

const SHOFF: usize = 160;

/// A 64-bit little-endian image: null, .shstrtab, .dynstr, .dynamic,
/// .symtab.
fn sample_elf() -> Vec<u8> {
    let mut b = vec![0u8; SHOFF + 5 * 64];
    b[0..4].copy_from_slice(&[0x7F, b'E', b'L', b'F']);
    b[4] = 2;
    b[5] = 1;
    b[6] = 1;
    put64(&mut b, 24, 0x401000);
    put64(&mut b, 40, SHOFF as u64);
    put16(&mut b, 58, 64);
    put16(&mut b, 60, 5);
    put16(&mut b, 62, 1);
    // .shstrtab at 64
    let shstr = b"\0.shstrtab\0.dynstr\0.dynamic\0.symtab\0";
    b[64..64 + shstr.len()].copy_from_slice(shstr);
    // .dynstr at 104
    let dynstr = b"\0libc.so.6\0main\0";
    b[104..104 + dynstr.len()].copy_from_slice(dynstr);
    // .dynamic at 120: DT_NEEDED, DT_NULL
    put64(&mut b, 120, 1);
    put64(&mut b, 128, 1);
    put64(&mut b, 136, 0);
    put64(&mut b, 144, 0);
    let sections: [(u32, u32, u64, u64, u32, u64); 5] = [
        (0, 0, 0, 0, 0, 0),
        (1, 3, 64, shstr.len() as u64, 0, 0),
        (11, 3, 104, dynstr.len() as u64, 0, 0),
        (19, 6, 120, 32, 2, 16),
        (28, 2, 0, 0, 2, 24),
    ];
    for (i, s) in sections.iter().enumerate() {
        let base = SHOFF + i * 64;
        put32(&mut b, base, s.0);
        put32(&mut b, base + 4, s.1);
        put64(&mut b, base + 24, s.2);
        put64(&mut b, base + 32, s.3);
        put32(&mut b, base + 40, s.4);
        put64(&mut b, base + 56, s.5);
    }
    b
}

/// `sample_elf` with a symbol table of two entries appended: the null
/// symbol and `main`.
fn sample_elf_with_symbols() -> Vec<u8> {
    let mut b = sample_elf();
    let at = b.len();
    b.extend_from_slice(&[0u8; 48]);
    put32(&mut b, at + 24, 11);
    let base = SHOFF + 4 * 64;
    put64(&mut b, base + 24, at as u64);
    put64(&mut b, base + 32, 48);
    b
}

fn names(rep: &ElfReport) -> Vec<String> {
    rep.sections.iter().map(|s| s.name.clone()).collect()
}

#[test]
fn elf_needed_library_is_found() {
    let rep = parse_elf(&sample_elf()).unwrap();
    assert_eq!(rep.needed, vec!["libc.so.6".to_string()]);
    assert!(rep.symbols.is_empty());
}

#[test]
fn elf_header_and_sections() {
    let rep = parse_elf(&sample_elf()).unwrap();
    assert!(rep.header.is_64);
    assert_eq!(rep.header.entry, 0x401000);
    assert_eq!(rep.header.shnum, 5);
    assert_eq!(names(&rep), vec!["", ".shstrtab", ".dynstr", ".dynamic", ".symtab"]);
    assert_eq!(rep.sections[3].header.sh_link, 2);
    assert_eq!(rep.sections[3].header.sh_entsize, 16);
    assert_eq!(rep.sections[3].header.sh_type, 6);
}

#[test]
fn elf_symbols_skip_empty_names() {
    let rep = parse_elf(&sample_elf_with_symbols()).unwrap();
    assert_eq!(rep.symbols, vec!["main".to_string()]);
    assert_eq!(rep.needed, vec!["libc.so.6".to_string()]);
}

#[test]
fn elf_decode_twice_gives_the_same_report() {
    let img = sample_elf_with_symbols();
    let a = parse_elf(&img).unwrap();
    let b = parse_elf(&img).unwrap();
    assert_eq!(a.header, b.header);
    assert_eq!(names(&a), names(&b));
    assert_eq!(a.needed, b.needed);
    assert_eq!(a.symbols, b.symbols);
    assert_eq!(img, sample_elf_with_symbols());
}

#[test]
fn elf_truncated_section_table_is_out_of_bounds() {
    let img = sample_elf();
    let cut = &img[..img.len() - 1];
    assert_eq!(parse_elf(cut).err(), Some(ParseError::OutOfBounds));
}

#[test]
fn elf_truncated_string_table_is_out_of_bounds() {
    let mut img = sample_elf();
    // move the section-name table so that it ends one byte past the image
    let start = (img.len() - 36) as u64;
    put64(&mut img, SHOFF + 64 + 24, start);
    put64(&mut img, SHOFF + 64 + 32, 37);
    assert_eq!(parse_elf(&img).err(), Some(ParseError::OutOfBounds));
}

#[test]
fn elf_truncated_header() {
    let img = sample_elf();
    assert_eq!(parse_elf(&img[..40]).err(), Some(ParseError::TruncatedHeader));
    assert_eq!(parse_elf(&img[..5]).err(), Some(ParseError::TruncatedHeader));
}

#[test]
fn elf_bad_magic() {
    let mut img = sample_elf();
    img[1] = b'X';
    assert_eq!(parse_elf(&img).err(), Some(ParseError::InvalidSignature));
}

#[test]
fn elf_string_table_index_out_of_range() {
    let mut img = sample_elf();
    put16(&mut img, 62, 5);
    assert_eq!(parse_elf(&img).err(), Some(ParseError::InvalidStringTableIndex));
}

#[test]
fn elf_dynamic_link_out_of_range() {
    let mut img = sample_elf();
    put32(&mut img, SHOFF + 3 * 64 + 40, 9);
    assert_eq!(parse_elf(&img).err(), Some(ParseError::InvalidStringTableIndex));
}

#[test]
fn elf_32_bit_big_endian_header() {
    let mut b = vec![0u8; 52];
    b[0..4].copy_from_slice(&[0x7F, b'E', b'L', b'F']);
    b[4] = 1;
    b[5] = 2;
    b[24..28].copy_from_slice(&0x8048000u32.to_be_bytes());
    let rep = parse_elf(&b).err();
    // no sections: the section-name index 0 is out of range
    assert_eq!(rep, Some(ParseError::InvalidStringTableIndex));
    let h = binscope::elf::parse_elf_header(&b).unwrap();
    assert!(!h.is_64);
    assert_eq!(h.endian, binscope::reader::Endian::Big);
    assert_eq!(h.entry, 0x8048000);
}

#[test]
fn inspect_dispatches_on_elf() {
    match inspect(&sample_elf()) {
        Ok(Report::Elf(rep)) => assert_eq!(rep.needed, vec!["libc.so.6".to_string()]),
        _ => panic!("expected an ELF report"),
    }
}

#[test]
fn inspect_unknown_bytes() {
    assert_eq!(inspect(b"hello world").err(), Some(ParseError::UnrecognizedFormat));
    assert_eq!(inspect(&[]).err(), Some(ParseError::UnrecognizedFormat));
}

#[test]
fn inspect_macho_reports_identity_only() {
    match inspect(&0xFEEDFACFu32.to_be_bytes()) {
        Ok(Report::MachO(rep)) => {
            assert_eq!(rep.magic, 0xFEEDFACF);
            assert!(!rep.tables_decoded);
        }
        _ => panic!("expected a Mach-O report"),
    }
    assert_eq!(binscope::macho::parse_macho(b"MZ\0\0").err(), Some(ParseError::InvalidSignature));
}
