use binscope::detector::{detect_file_type, FileType};
use binscope::error::ParseError;
use binscope::reader::{read_cstring, read_u16, read_u32, read_u64, Endian};
use binscope::rva::rva_to_file_offset;

#[test]
fn detect_short_buffers_are_unrecognized() {
    assert_eq!(detect_file_type(&[]), None);
    assert_eq!(detect_file_type(&[0x4D]), None);
    assert_eq!(detect_file_type(&[0x7F]), None);
}

#[test]
fn detect_mz_is_pe_whatever_follows() {
    assert_eq!(detect_file_type(b"MZ"), Some(FileType::PE));
    assert_eq!(detect_file_type(b"MZ\x7FELF"), Some(FileType::PE));
    assert_eq!(detect_file_type(&[0x4D, 0x5A, 0xFE, 0xED, 0xFA, 0xCE]), Some(FileType::PE));
}

#[test]
fn detect_elf_magic() {
    assert_eq!(detect_file_type(&[0x7F, 0x45, 0x4C, 0x46]), Some(FileType::ELF));
    assert_eq!(detect_file_type(&[0x7F, 0x45, 0x4C, 0x46, 2, 1, 1]), Some(FileType::ELF));
    assert_eq!(detect_file_type(&[0x7F, 0x45, 0x4C]), None);
}

#[test]
fn detect_macho_magics() {
    for m in [0xFEEDFACEu32, 0xFEEDFACF, 0xCAFEBABE, 0xCAFEBABF] {
        assert_eq!(detect_file_type(&m.to_be_bytes()), Some(FileType::MachO));
    }
    assert_eq!(detect_file_type(&0xCEFAEDFEu32.to_be_bytes()), None);
    assert_eq!(detect_file_type(b"hello"), None);
}

#[test]
fn reads_respect_endianness() {
    let d = [0x01, 0x02, 0x03, 0x04, 0x05, 0x06, 0x07, 0x08];
    assert_eq!(read_u16(&d, 0, Endian::Little), Ok(0x0201));
    assert_eq!(read_u16(&d, 0, Endian::Big), Ok(0x0102));
    assert_eq!(read_u32(&d, 4, Endian::Little), Ok(0x08070605));
    assert_eq!(read_u32(&d, 4, Endian::Big), Ok(0x05060708));
    assert_eq!(read_u64(&d, 0, Endian::Little), Ok(0x0807060504030201));
    assert_eq!(read_u64(&d, 0, Endian::Big), Ok(0x0102030405060708));
}

#[test]
fn reads_past_the_end_fail() {
    let d = [0u8; 8];
    assert_eq!(read_u16(&d, 7, Endian::Little), Err(ParseError::OutOfBounds));
    assert_eq!(read_u32(&d, 5, Endian::Little), Err(ParseError::OutOfBounds));
    assert_eq!(read_u64(&d, 1, Endian::Big), Err(ParseError::OutOfBounds));
    assert_eq!(read_u64(&d, usize::MAX, Endian::Big), Err(ParseError::OutOfBounds));
    assert_eq!(read_u16(&d, 6, Endian::Little), Ok(0));
}

#[test]
fn cstring_stops_at_nul_or_end() {
    let d = b"abc\0def";
    assert_eq!(read_cstring(d, 0).unwrap(), "abc");
    assert_eq!(read_cstring(d, 4).unwrap(), "def");
    assert_eq!(read_cstring(d, 3).unwrap(), "");
    assert_eq!(read_cstring(d, 7), Err(ParseError::OutOfBounds));
    assert_eq!(read_cstring(&[0xE9, 0], 0).unwrap(), "\u{e9}");
}

#[test]
fn rva_resolves_within_the_section() {
    let secs = [(0x1000u32, 0x400u32, 0x200u32)];
    assert_eq!(rva_to_file_offset(0x1050, &secs), Ok(0x450));
    assert_eq!(rva_to_file_offset(0x1200, &secs), Err(ParseError::UnmappedAddress));
    assert_eq!(rva_to_file_offset(0x1199, &secs), Ok(0x599));
    assert_eq!(rva_to_file_offset(0x1000, &secs), Ok(0x400));
    assert_eq!(rva_to_file_offset(0xFFF, &secs), Err(ParseError::UnmappedAddress));
}

#[test]
fn rva_first_matching_section_wins() {
    let secs = [(0x1000u32, 0x400u32, 0x200u32), (0x1100u32, 0x800u32, 0x200u32)];
    assert_eq!(rva_to_file_offset(0x1150, &secs), Ok(0x550));
    assert_eq!(rva_to_file_offset(0x1250, &secs), Ok(0x950));
    assert_eq!(rva_to_file_offset(0x10, &[]), Err(ParseError::UnmappedAddress));
}

#[test]
fn rva_near_the_top_of_the_address_space() {
    let secs = [(0xFFFF_FF00u32, 0x10u32, 0x200u32)];
    assert_eq!(rva_to_file_offset(0xFFFF_FFFF, &secs), Ok(0x10F));
}
