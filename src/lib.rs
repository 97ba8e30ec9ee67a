//! Structural inspection of executable images: container detection and
//! decoders for ELF and PE section, import and export tables.
pub mod error;
pub mod reader;
pub mod rva;
pub mod detector;
pub mod elf;
pub mod pe;
pub mod macho;
pub mod inspect;
