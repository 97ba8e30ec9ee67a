//! Classification of an image by the magic bytes at its start.
use vstd::prelude::*;

use crate::reader::be4;

verus! {

/// The container formats that can be recognised.
#[derive(Debug, Clone, Copy, PartialEq, Eq, Structural)]
pub enum FileType {
    PE,
    ELF,
    MachO,
}

/// One of the four Mach-O magic numbers, read big-endian.
pub open spec fn is_macho_magic(m: int) -> bool {
    m == 0xFEEDFACE || m == 0xFEEDFACF || m == 0xCAFEBABE || m == 0xCAFEBABF
}

pub open spec fn starts_mz(d: Seq<u8>) -> bool {
    d.len() >= 2 && d[0] == 0x4D && d[1] == 0x5A
}

pub open spec fn starts_elf(d: Seq<u8>) -> bool {
    d.len() >= 4 && d[0] == 0x7F && d[1] == 0x45 && d[2] == 0x4C && d[3] == 0x46
}

pub open spec fn starts_macho(d: Seq<u8>) -> bool {
    d.len() >= 4 && is_macho_magic(be4(d, 0))
}

/// The format of `d` by its first bytes, the first matching rule winning.
pub open spec fn spec_detect(d: Seq<u8>) -> Option<FileType> {
    if starts_mz(d) {
        Some(FileType::PE)
    } else if starts_elf(d) {
        Some(FileType::ELF)
    } else if starts_macho(d) {
        Some(FileType::MachO)
    } else {
        None
    }
}

/// Classifies `data` by its magic bytes: `MZ` gives PE, `7F 'E' 'L' 'F'`
/// gives ELF, a Mach-O magic read big-endian gives MachO, anything else is
/// unrecognised (`None`).
pub fn detect_file_type(data: &[u8]) -> (r: Option<FileType>)
    ensures
        r == spec_detect(data@),
        data@.len() < 2 ==> r is None,
        starts_mz(data@) ==> r == Some(FileType::PE),
        starts_elf(data@) ==> r == Some(FileType::ELF),
        starts_macho(data@) ==> r == Some(FileType::MachO),
{
    let n = data.len();
    if n >= 2 && data[0] == 0x4D && data[1] == 0x5A {
        Some(FileType::PE)
    } else if n >= 4 && data[0] == 0x7F && data[1] == 0x45 && data[2] == 0x4C && data[3] == 0x46 {
        Some(FileType::ELF)
    } else if n >= 4 {
        let m = 0x100_0000u32 * data[0] as u32 + 0x1_0000u32 * data[1] as u32 + 0x100u32
            * data[2] as u32 + data[3] as u32;
        if m == 0xFEEDFACE || m == 0xFEEDFACF || m == 0xCAFEBABE || m == 0xCAFEBABF {
            Some(FileType::MachO)
        } else {
            None
        }
    } else {
        None
    }
}

} // verus!
