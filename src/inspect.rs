//! Detection followed by the decoder of the detected format.
use vstd::prelude::*;

use crate::detector::{detect_file_type, spec_detect, FileType};
use crate::elf::{parse_elf, spec_parse_elf, ElfModel, ElfReport};
use crate::error::ParseError;
use crate::macho::{parse_macho, MachOReport};
use crate::pe::{parse_pe, spec_parse_pe, PeModel, PeReport};

verus! {

/// The report of whichever decoder the image's format called for.
pub enum Report {
    Elf(ElfReport),
    Pe(PeReport),
    MachO(MachOReport),
}

/// Classifies `data` and runs the matching decoder; an image of no known
/// format gives `UnrecognizedFormat`.
pub fn inspect(data: &[u8]) -> (r: Result<Report, ParseError>)
    ensures
        spec_detect(data@) is None ==> r == Err::<Report, ParseError>(
            ParseError::UnrecognizedFormat,
        ),
        spec_detect(data@) == Some(FileType::ELF) ==> match r {
            Ok(Report::Elf(rep)) => spec_parse_elf(data@) is Ok && rep.holds(
                spec_parse_elf(data@)->Ok_0,
            ),
            Err(e) => spec_parse_elf(data@) == Err::<ElfModel, ParseError>(e),
            _ => false,
        },
        spec_detect(data@) == Some(FileType::PE) ==> match r {
            Ok(Report::Pe(rep)) => spec_parse_pe(data@) is Ok && rep.holds(
                spec_parse_pe(data@)->Ok_0,
            ),
            Err(e) => spec_parse_pe(data@) == Err::<PeModel, ParseError>(e),
            _ => false,
        },
        spec_detect(data@) == Some(FileType::MachO) ==> match r {
            Ok(Report::MachO(rep)) => !rep.tables_decoded,
            _ => false,
        },
{
    match detect_file_type(data) {
        Some(FileType::ELF) => match parse_elf(data) {
            Ok(rep) => Ok(Report::Elf(rep)),
            Err(e) => Err(e),
        },
        Some(FileType::PE) => match parse_pe(data) {
            Ok(rep) => Ok(Report::Pe(rep)),
            Err(e) => Err(e),
        },
        Some(FileType::MachO) => match parse_macho(data) {
            Ok(rep) => Ok(Report::MachO(rep)),
            Err(e) => Err(e),
        },
        None => Err(ParseError::UnrecognizedFormat),
    }
}

} // verus!
