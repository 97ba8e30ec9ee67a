use vstd::prelude::*;

verus! {

/// Why a decode failed.
#[derive(Debug, Clone, Copy, PartialEq, Eq, Structural)]
pub enum ParseError {
    /// No known container magic was found.
    UnrecognizedFormat,
    /// A fixed-position header field lies beyond the end of the image.
    TruncatedHeader,
    /// A required magic or signature does not match.
    InvalidSignature,
    /// A computed offset plus width exceeds the image length.
    OutOfBounds,
    /// A relative virtual address lies in no section.
    UnmappedAddress,
    /// A string-table section index is out of range of the section list.
    InvalidStringTableIndex,
}

} // verus!
