//! Decoding of COFF object-file structural metadata.
//!
//! A COFF object file starts with a 20-byte file header, followed
//! immediately by a table of 40-byte section headers.  Each section header
//! locates, by absolute byte offset, a table of 16-byte relocation records;
//! the file header locates, likewise by absolute offset, a table of 18-byte
//! symbol records.  All multi-byte fields are big-endian, and records are
//! packed with no padding.
//!
//! The crate decodes these records from an in-memory byte source, walks the
//! offset pointers to gather every table, and renders the decoded records as
//! text lines.  Encoders for the same layouts are provided so that files can
//! be assembled as well as inspected, and decoding an encoded record is
//! proved to give the record back.

use vstd::prelude::*;

pub mod codec;
pub mod cursor;
pub mod records;
pub mod render;
pub mod walker;

verus! {

/// Width in bytes of an encoded file header.
pub const FILE_HEADER_BYTES: usize = 20;

/// Width in bytes of an encoded section header.
pub const SECTION_HEADER_BYTES: usize = 40;

/// Width in bytes of an encoded relocation record.
pub const RELOCATION_BYTES: usize = 16;

/// Width in bytes of an encoded symbol record.
pub const SYMBOL_BYTES: usize = 18;

} // verus!
