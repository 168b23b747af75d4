//! The four decoded record types and their mathematical models.
//!
//! `FileHeader` and `Relocation` carry only plain integers, so the records
//! themselves serve as their own models.  `SectionHeader` and `Symbol` carry
//! an eight-byte name field; their models (`SpecSectionHeader`,
//! `SpecSymbol`) hold that field as a `Seq<u8>` so that contracts can speak
//! of it alongside byte-source slices.

use vstd::prelude::*;

verus! {

/// Decoded file header (20 bytes on disk).
///
/// `num_sections` and `num_symbols` are trusted counts that drive the later
/// decoding phases; `symbol_table_offset` is an absolute byte offset.
#[derive(Clone, Copy, Debug, PartialEq, Eq)]
pub struct FileHeader {
    pub magic: u16,
    pub num_sections: u16,
    pub timestamp: u32,
    pub symbol_table_offset: u32,
    pub num_symbols: u32,
    pub optional_header_size: u16,
    pub flags: u16,
}

/// Decoded section header (40 bytes on disk).
///
/// `relocation_offset` and `num_relocations` locate this section's
/// relocation table, independently of where the section data lies.
#[derive(Clone, Copy, Debug, PartialEq, Eq)]
pub struct SectionHeader {
    /// Fixed eight-byte name, NUL-padded on the right if shorter.
    pub name: [u8; 8],
    pub physical_addr: u32,
    pub virtual_addr: u32,
    pub size: u32,
    pub data_offset: u32,
    pub relocation_offset: u32,
    pub line_number_offset: u32,
    pub num_relocations: u16,
    pub num_line_numbers: u16,
    pub flags: u32,
}

/// Model of a section header: the name as a byte sequence.
#[verifier::ext_equal]
pub ghost struct SpecSectionHeader {
    pub name: Seq<u8>,
    pub physical_addr: u32,
    pub virtual_addr: u32,
    pub size: u32,
    pub data_offset: u32,
    pub relocation_offset: u32,
    pub line_number_offset: u32,
    pub num_relocations: u16,
    pub num_line_numbers: u16,
    pub flags: u32,
}

impl View for SectionHeader {
    type V = SpecSectionHeader;

    open spec fn view(&self) -> SpecSectionHeader {
        SpecSectionHeader {
            name: self.name@,
            physical_addr: self.physical_addr,
            virtual_addr: self.virtual_addr,
            size: self.size,
            data_offset: self.data_offset,
            relocation_offset: self.relocation_offset,
            line_number_offset: self.line_number_offset,
            num_relocations: self.num_relocations,
            num_line_numbers: self.num_line_numbers,
            flags: self.flags,
        }
    }
}

impl SpecSectionHeader {
    /// A well-formed section header model has exactly eight name bytes.
    pub open spec fn wf(self) -> bool {
        self.name.len() == 8
    }
}

/// Decoded relocation record (16 bytes on disk).
#[derive(Clone, Copy, Debug, PartialEq, Eq)]
pub struct Relocation {
    pub virtual_addr: u32,
    pub symbol_index: u32,
    pub offset: u32,
    pub reloc_type: u16,
    pub extra: u16,
}

/// The decoded interpretation of a symbol's eight name bytes.
#[derive(Clone, Copy, Debug, PartialEq, Eq)]
pub enum SymbolName {
    /// At least one of the first four bytes was non-zero: all eight bytes
    /// hold the literal name, NUL-padded on the right.
    Literal([u8; 8]),
    /// The first four bytes were all zero: the name lives in an external
    /// string table, at this offset (bytes 4..8, read big-endian).
    TableOffset(u32),
}

/// Model of a symbol name: a literal name as a byte sequence.
#[verifier::ext_equal]
pub ghost enum SpecSymbolName {
    Literal(Seq<u8>),
    TableOffset(u32),
}

impl View for SymbolName {
    type V = SpecSymbolName;

    open spec fn view(&self) -> SpecSymbolName {
        match *self {
            SymbolName::Literal(bytes) => SpecSymbolName::Literal(bytes@),
            SymbolName::TableOffset(off) => SpecSymbolName::TableOffset(off),
        }
    }
}

impl SpecSymbolName {
    /// A well-formed literal name has exactly eight bytes, not all of the
    /// first four zero (eight leading zero bytes would decode as a table
    /// offset instead).
    pub open spec fn wf(self) -> bool {
        match self {
            SpecSymbolName::Literal(bytes) => {
                &&& bytes.len() == 8
                &&& !(bytes[0] == 0 && bytes[1] == 0 && bytes[2] == 0 && bytes[3] == 0)
            },
            SpecSymbolName::TableOffset(_) => true,
        }
    }
}

/// Decoded symbol record (18 bytes on disk).
#[derive(Clone, Copy, Debug, PartialEq, Eq)]
pub struct Symbol {
    pub name: SymbolName,
    pub value: u32,
    pub section_number: i16,
    pub sym_type: u16,
    pub storage_class: u8,
    pub num_aux_entries: u8,
}

/// Model of a symbol.
#[verifier::ext_equal]
pub ghost struct SpecSymbol {
    pub name: SpecSymbolName,
    pub value: u32,
    pub section_number: i16,
    pub sym_type: u16,
    pub storage_class: u8,
    pub num_aux_entries: u8,
}

impl View for Symbol {
    type V = SpecSymbol;

    open spec fn view(&self) -> SpecSymbol {
        SpecSymbol {
            name: self.name@,
            value: self.value,
            section_number: self.section_number,
            sym_type: self.sym_type,
            storage_class: self.storage_class,
            num_aux_entries: self.num_aux_entries,
        }
    }
}

impl SpecSymbol {
    /// A well-formed symbol model carries a well-formed name.
    pub open spec fn wf(self) -> bool {
        self.name.wf()
    }
}

} // verus!
