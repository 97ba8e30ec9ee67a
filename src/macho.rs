//! Mach-O: the format is recognised, its tables are not decoded.
use vstd::prelude::*;

use crate::detector::starts_macho;
use crate::error::ParseError;
use crate::reader::be4;

verus! {

/// What is known of a Mach-O image: its magic number. Load commands and
/// the export trie are not decoded.
#[derive(Debug, Clone, Copy, PartialEq, Eq, Structural)]
pub struct MachOReport {
    /// The first four bytes, read big-endian.
    pub magic: u32,
    /// Whether load commands and tables were decoded; never, for now.
    pub tables_decoded: bool,
}

/// Checks the Mach-O magic and reports the format only.
pub fn parse_macho(data: &[u8]) -> (r: Result<MachOReport, ParseError>)
    ensures
        starts_macho(data@) ==> r == Ok::<MachOReport, ParseError>(
            MachOReport { magic: be4(data@, 0) as u32, tables_decoded: false },
        ),
        !starts_macho(data@) ==> r == Err::<MachOReport, ParseError>(ParseError::InvalidSignature),
{
    if data.len() < 4 {
        return Err(ParseError::InvalidSignature);
    }
    let m = 0x100_0000u32 * data[0] as u32 + 0x1_0000u32 * data[1] as u32 + 0x100u32
        * data[2] as u32 + data[3] as u32;
    if m == 0xFEEDFACE || m == 0xFEEDFACF || m == 0xCAFEBABE || m == 0xCAFEBABF {
        Ok(MachOReport { magic: m, tables_decoded: false })
    } else {
        Err(ParseError::InvalidSignature)
    }
}

} // verus!
