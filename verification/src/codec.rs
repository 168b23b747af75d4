//! Byte layouts of the four record types.
//!
//! All multi-byte integers are big-endian and all records are packed with no
//! padding.  For each record there is a spec-level decoder over a byte
//! sequence, a spec-level encoder back to bytes, an executable decoder that
//! consumes exactly the record's width from a cursor, and an executable
//! encoder.  Decoding what was encoded is proved to give the record back.

use vstd::prelude::*;

use crate::cursor::Cursor;
use crate::cursor::CursorError;
use crate::records::FileHeader;
use crate::records::Relocation;
use crate::records::SectionHeader;
use crate::records::SpecSectionHeader;
use crate::records::SpecSymbol;
use crate::records::SpecSymbolName;
use crate::records::Symbol;
use crate::records::SymbolName;
use crate::FILE_HEADER_BYTES;
use crate::RELOCATION_BYTES;
use crate::SECTION_HEADER_BYTES;
use crate::SYMBOL_BYTES;

verus! {

// ---------------------------------------------------------------------------
// Big-endian fields.
// ---------------------------------------------------------------------------
/// The big-endian `u16` at offset `i` of `b`.
pub open spec fn spec_u16_at(b: Seq<u8>, i: int) -> u16
    recommends
        0 <= i,
        i + 2 <= b.len(),
{
    ((b[i] as u16) << 8) | (b[i + 1] as u16)
}

/// The big-endian `u32` at offset `i` of `b`.
pub open spec fn spec_u32_at(b: Seq<u8>, i: int) -> u32
    recommends
        0 <= i,
        i + 4 <= b.len(),
{
    ((b[i] as u32) << 24) | ((b[i + 1] as u32) << 16) | ((b[i + 2] as u32) << 8) | (b[i
        + 3] as u32)
}

/// The big-endian `i16` at offset `i` of `b`: the `u16` bits reinterpreted
/// as a two's-complement signed value.
pub open spec fn spec_i16_at(b: Seq<u8>, i: int) -> i16
    recommends
        0 <= i,
        i + 2 <= b.len(),
{
    spec_u16_at(b, i) as i16
}

/// The two big-endian bytes of `v`, most significant first.
pub open spec fn spec_u16_bytes(v: u16) -> Seq<u8> {
    seq![(v >> 8) as u8, v as u8]
}

/// The four big-endian bytes of `v`, most significant first.
pub open spec fn spec_u32_bytes(v: u32) -> Seq<u8> {
    seq![(v >> 24) as u8, (v >> 16) as u8, (v >> 8) as u8, v as u8]
}

pub proof fn lemma_u16_field_round_trip(v: u16)
    ensures
        spec_u16_at(spec_u16_bytes(v), 0) == v,
{
    assert((((v >> 8) as u8 as u16) << 8) | (v as u8 as u16) == v) by (bit_vector);
}

pub proof fn lemma_u32_field_round_trip(v: u32)
    ensures
        spec_u32_at(spec_u32_bytes(v), 0) == v,
{
    assert((((v >> 24) as u8 as u32) << 24) | (((v >> 16) as u8 as u32) << 16) | (((v
        >> 8) as u8 as u32) << 8) | (v as u8 as u32) == v) by (bit_vector);
}

fn be_u16(b: &[u8], i: usize) -> (r: u16)
    requires
        i + 2 <= b@.len(),
    ensures
        r == spec_u16_at(b@, i as int),
{
    ((b[i] as u16) << 8) | (b[i + 1] as u16)
}

fn be_u32(b: &[u8], i: usize) -> (r: u32)
    requires
        i + 4 <= b@.len(),
    ensures
        r == spec_u32_at(b@, i as int),
{
    ((b[i] as u32) << 24) | ((b[i + 1] as u32) << 16) | ((b[i + 2] as u32) << 8) | (b[i
        + 3] as u32)
}

/// Appends the two big-endian bytes of `v` to `out`.
fn push_u16(out: &mut Vec<u8>, v: u16)
    ensures
        final(out)@ == old(out)@ + spec_u16_bytes(v),
{
    out.push((v >> 8) as u8);
    out.push(v as u8);
    assert(final(out)@ =~= old(out)@ + spec_u16_bytes(v));
}

/// Appends the four big-endian bytes of `v` to `out`.
fn push_u32(out: &mut Vec<u8>, v: u32)
    ensures
        final(out)@ == old(out)@ + spec_u32_bytes(v),
{
    out.push((v >> 24) as u8);
    out.push((v >> 16) as u8);
    out.push((v >> 8) as u8);
    out.push(v as u8);
    assert(final(out)@ =~= old(out)@ + spec_u32_bytes(v));
}

// ---------------------------------------------------------------------------
// File header.
// ---------------------------------------------------------------------------
/// The file header whose 20-byte encoding starts at offset `i` of `b`.
pub open spec fn spec_decode_file_header(b: Seq<u8>, i: int) -> FileHeader
    recommends
        0 <= i,
        i + FILE_HEADER_BYTES <= b.len(),
{
    FileHeader {
        magic: spec_u16_at(b, i),
        num_sections: spec_u16_at(b, i + 2),
        timestamp: spec_u32_at(b, i + 4),
        symbol_table_offset: spec_u32_at(b, i + 8),
        num_symbols: spec_u32_at(b, i + 12),
        optional_header_size: spec_u16_at(b, i + 16),
        flags: spec_u16_at(b, i + 18),
    }
}

/// The 20-byte encoding of a file header.
pub open spec fn spec_encode_file_header(h: FileHeader) -> Seq<u8> {
    spec_u16_bytes(h.magic) + spec_u16_bytes(h.num_sections) + spec_u32_bytes(h.timestamp)
        + spec_u32_bytes(h.symbol_table_offset) + spec_u32_bytes(h.num_symbols) + spec_u16_bytes(
        h.optional_header_size,
    ) + spec_u16_bytes(h.flags)
}

/// Decodes one file header from the cursor's current position, advancing it
/// by exactly 20 bytes; fails, moving nothing, if fewer bytes remain.
pub fn decode_file_header(c: &mut Cursor<'_>) -> (r: Result<FileHeader, CursorError>)
    requires
        old(c).wf(),
    ensures
        final(c).wf(),
        final(c).bytes() == old(c).bytes(),
        old(c).position() + FILE_HEADER_BYTES <= old(c).bytes().len() ==> {
            &&& r == Ok::<FileHeader, CursorError>(
                spec_decode_file_header(old(c).bytes(), old(c).position()),
            )
            &&& final(c).position() == old(c).position() + FILE_HEADER_BYTES
        },
        old(c).position() + FILE_HEADER_BYTES > old(c).bytes().len() ==> {
            &&& r == Err::<FileHeader, CursorError>(
                CursorError::Truncated {
                    offset: old(c).position() as u64,
                    expected: FILE_HEADER_BYTES as u64,
                    available: (old(c).bytes().len() - old(c).position()) as u64,
                },
            )
            &&& final(c).position() == old(c).position()
        },
{
    let v = c.read_exact(FILE_HEADER_BYTES)?;
    Ok(
        FileHeader {
            magic: be_u16(v.as_slice(), 0),
            num_sections: be_u16(v.as_slice(), 2),
            timestamp: be_u32(v.as_slice(), 4),
            symbol_table_offset: be_u32(v.as_slice(), 8),
            num_symbols: be_u32(v.as_slice(), 12),
            optional_header_size: be_u16(v.as_slice(), 16),
            flags: be_u16(v.as_slice(), 18),
        },
    )
}

/// Encodes a file header as its 20 bytes.
pub fn encode_file_header(h: &FileHeader) -> (r: Vec<u8>)
    ensures
        r@ == spec_encode_file_header(*h),
        r@.len() == FILE_HEADER_BYTES,
{
    let mut out: Vec<u8> = Vec::new();
    push_u16(&mut out, h.magic);
    push_u16(&mut out, h.num_sections);
    push_u32(&mut out, h.timestamp);
    push_u32(&mut out, h.symbol_table_offset);
    push_u32(&mut out, h.num_symbols);
    push_u16(&mut out, h.optional_header_size);
    push_u16(&mut out, h.flags);
    assert(out@ =~= spec_encode_file_header(*h));
    out
}

/// Decoding the encoding of a file header gives the header back.
pub proof fn lemma_file_header_round_trip(h: FileHeader)
    ensures
        spec_encode_file_header(h).len() == FILE_HEADER_BYTES,
        spec_decode_file_header(spec_encode_file_header(h), 0) == h,
{
    let b = spec_encode_file_header(h);
    lemma_u16_field_round_trip(h.magic);
    lemma_u16_field_round_trip(h.num_sections);
    lemma_u32_field_round_trip(h.timestamp);
    lemma_u32_field_round_trip(h.symbol_table_offset);
    lemma_u32_field_round_trip(h.num_symbols);
    lemma_u16_field_round_trip(h.optional_header_size);
    lemma_u16_field_round_trip(h.flags);
    assert(spec_u16_bytes(h.magic) =~= b.subrange(0, 2));
    assert(spec_u16_bytes(h.num_sections) =~= b.subrange(2, 4));
    assert(spec_u32_bytes(h.timestamp) =~= b.subrange(4, 8));
    assert(spec_u32_bytes(h.symbol_table_offset) =~= b.subrange(8, 12));
    assert(spec_u32_bytes(h.num_symbols) =~= b.subrange(12, 16));
    assert(spec_u16_bytes(h.optional_header_size) =~= b.subrange(16, 18));
    assert(spec_u16_bytes(h.flags) =~= b.subrange(18, 20));
}


// ---------------------------------------------------------------------------
// Section header.
// ---------------------------------------------------------------------------
/// The section header whose 40-byte encoding starts at offset `i` of `b`.
pub open spec fn spec_decode_section_header(b: Seq<u8>, i: int) -> SpecSectionHeader
    recommends
        0 <= i,
        i + SECTION_HEADER_BYTES <= b.len(),
{
    SpecSectionHeader {
        name: b.subrange(i, i + 8),
        physical_addr: spec_u32_at(b, i + 8),
        virtual_addr: spec_u32_at(b, i + 12),
        size: spec_u32_at(b, i + 16),
        data_offset: spec_u32_at(b, i + 20),
        relocation_offset: spec_u32_at(b, i + 24),
        line_number_offset: spec_u32_at(b, i + 28),
        num_relocations: spec_u16_at(b, i + 32),
        num_line_numbers: spec_u16_at(b, i + 34),
        flags: spec_u32_at(b, i + 36),
    }
}

/// The 40-byte encoding of a section header.
pub open spec fn spec_encode_section_header(s: SpecSectionHeader) -> Seq<u8>
    recommends
        s.wf(),
{
    s.name + spec_u32_bytes(s.physical_addr) + spec_u32_bytes(s.virtual_addr) + spec_u32_bytes(
        s.size,
    ) + spec_u32_bytes(s.data_offset) + spec_u32_bytes(s.relocation_offset) + spec_u32_bytes(
        s.line_number_offset,
    ) + spec_u16_bytes(s.num_relocations) + spec_u16_bytes(s.num_line_numbers) + spec_u32_bytes(
        s.flags,
    )
}

/// Decodes one section header from the cursor's current position, advancing
/// it by exactly 40 bytes; fails, moving nothing, if fewer bytes remain.
pub fn decode_section_header(c: &mut Cursor<'_>) -> (r: Result<SectionHeader, CursorError>)
    requires
        old(c).wf(),
    ensures
        final(c).wf(),
        final(c).bytes() == old(c).bytes(),
        old(c).position() + SECTION_HEADER_BYTES <= old(c).bytes().len() ==> {
            &&& r matches Ok(s) && s@ == spec_decode_section_header(
                old(c).bytes(),
                old(c).position(),
            )
            &&& final(c).position() == old(c).position() + SECTION_HEADER_BYTES
        },
        old(c).position() + SECTION_HEADER_BYTES > old(c).bytes().len() ==> {
            &&& r == Err::<SectionHeader, CursorError>(
                CursorError::Truncated {
                    offset: old(c).position() as u64,
                    expected: SECTION_HEADER_BYTES as u64,
                    available: (old(c).bytes().len() - old(c).position()) as u64,
                },
            )
            &&& final(c).position() == old(c).position()
        },
{
    let v = c.read_exact(SECTION_HEADER_BYTES)?;
    let name: [u8; 8] = [v[0], v[1], v[2], v[3], v[4], v[5], v[6], v[7]];
    let s = SectionHeader {
        name,
        physical_addr: be_u32(v.as_slice(), 8),
        virtual_addr: be_u32(v.as_slice(), 12),
        size: be_u32(v.as_slice(), 16),
        data_offset: be_u32(v.as_slice(), 20),
        relocation_offset: be_u32(v.as_slice(), 24),
        line_number_offset: be_u32(v.as_slice(), 28),
        num_relocations: be_u16(v.as_slice(), 32),
        num_line_numbers: be_u16(v.as_slice(), 34),
        flags: be_u32(v.as_slice(), 36),
    };
    proof {
        assert(name@ =~= old(c).bytes().subrange(
            old(c).position(),
            old(c).position() + 8,
        ));
        assert(s@ =~= spec_decode_section_header(old(c).bytes(), old(c).position()));
    }
    Ok(s)
}

/// Encodes a section header as its 40 bytes.
pub fn encode_section_header(s: &SectionHeader) -> (r: Vec<u8>)
    ensures
        r@ == spec_encode_section_header(s@),
        r@.len() == SECTION_HEADER_BYTES,
{
    let mut out: Vec<u8> = Vec::new();
    let mut j: usize = 0;
    while j < 8
        invariant
            j <= 8,
            out@ =~= s.name@.subrange(0, j as int),
        decreases 8 - j,
    {
        out.push(s.name[j]);
        assert(out@ =~= s.name@.subrange(0, j + 1));
        j += 1;
    }
    assert(out@ =~= s.name@);
    push_u32(&mut out, s.physical_addr);
    push_u32(&mut out, s.virtual_addr);
    push_u32(&mut out, s.size);
    push_u32(&mut out, s.data_offset);
    push_u32(&mut out, s.relocation_offset);
    push_u32(&mut out, s.line_number_offset);
    push_u16(&mut out, s.num_relocations);
    push_u16(&mut out, s.num_line_numbers);
    push_u32(&mut out, s.flags);
    assert(out@ =~= spec_encode_section_header(s@));
    out
}

/// Decoding the encoding of a well-formed section header gives the header
/// back.
pub proof fn lemma_section_header_round_trip(s: SpecSectionHeader)
    requires
        s.wf(),
    ensures
        spec_encode_section_header(s).len() == SECTION_HEADER_BYTES,
        spec_decode_section_header(spec_encode_section_header(s), 0) == s,
{
    let b = spec_encode_section_header(s);
    lemma_u32_field_round_trip(s.physical_addr);
    lemma_u32_field_round_trip(s.virtual_addr);
    lemma_u32_field_round_trip(s.size);
    lemma_u32_field_round_trip(s.data_offset);
    lemma_u32_field_round_trip(s.relocation_offset);
    lemma_u32_field_round_trip(s.line_number_offset);
    lemma_u16_field_round_trip(s.num_relocations);
    lemma_u16_field_round_trip(s.num_line_numbers);
    lemma_u32_field_round_trip(s.flags);
    assert(b.subrange(0, 8) =~= s.name);
    assert(spec_u32_bytes(s.physical_addr) =~= b.subrange(8, 12));
    assert(spec_u32_bytes(s.virtual_addr) =~= b.subrange(12, 16));
    assert(spec_u32_bytes(s.size) =~= b.subrange(16, 20));
    assert(spec_u32_bytes(s.data_offset) =~= b.subrange(20, 24));
    assert(spec_u32_bytes(s.relocation_offset) =~= b.subrange(24, 28));
    assert(spec_u32_bytes(s.line_number_offset) =~= b.subrange(28, 32));
    assert(spec_u16_bytes(s.num_relocations) =~= b.subrange(32, 34));
    assert(spec_u16_bytes(s.num_line_numbers) =~= b.subrange(34, 36));
    assert(spec_u32_bytes(s.flags) =~= b.subrange(36, 40));
    assert(spec_decode_section_header(b, 0) =~= s);
}

// ---------------------------------------------------------------------------
// Relocation.
// ---------------------------------------------------------------------------
/// The relocation whose 16-byte encoding starts at offset `i` of `b`.
pub open spec fn spec_decode_relocation(b: Seq<u8>, i: int) -> Relocation
    recommends
        0 <= i,
        i + RELOCATION_BYTES <= b.len(),
{
    Relocation {
        virtual_addr: spec_u32_at(b, i),
        symbol_index: spec_u32_at(b, i + 4),
        offset: spec_u32_at(b, i + 8),
        reloc_type: spec_u16_at(b, i + 12),
        extra: spec_u16_at(b, i + 14),
    }
}

/// The 16-byte encoding of a relocation.
pub open spec fn spec_encode_relocation(r: Relocation) -> Seq<u8> {
    spec_u32_bytes(r.virtual_addr) + spec_u32_bytes(r.symbol_index) + spec_u32_bytes(r.offset)
        + spec_u16_bytes(r.reloc_type) + spec_u16_bytes(r.extra)
}

/// Decodes one relocation from the cursor's current position, advancing it
/// by exactly 16 bytes; fails, moving nothing, if fewer bytes remain.
pub fn decode_relocation(c: &mut Cursor<'_>) -> (r: Result<Relocation, CursorError>)
    requires
        old(c).wf(),
    ensures
        final(c).wf(),
        final(c).bytes() == old(c).bytes(),
        old(c).position() + RELOCATION_BYTES <= old(c).bytes().len() ==> {
            &&& r == Ok::<Relocation, CursorError>(
                spec_decode_relocation(old(c).bytes(), old(c).position()),
            )
            &&& final(c).position() == old(c).position() + RELOCATION_BYTES
        },
        old(c).position() + RELOCATION_BYTES > old(c).bytes().len() ==> {
            &&& r == Err::<Relocation, CursorError>(
                CursorError::Truncated {
                    offset: old(c).position() as u64,
                    expected: RELOCATION_BYTES as u64,
                    available: (old(c).bytes().len() - old(c).position()) as u64,
                },
            )
            &&& final(c).position() == old(c).position()
        },
{
    let v = c.read_exact(RELOCATION_BYTES)?;
    Ok(
        Relocation {
            virtual_addr: be_u32(v.as_slice(), 0),
            symbol_index: be_u32(v.as_slice(), 4),
            offset: be_u32(v.as_slice(), 8),
            reloc_type: be_u16(v.as_slice(), 12),
            extra: be_u16(v.as_slice(), 14),
        },
    )
}

/// Encodes a relocation as its 16 bytes.
pub fn encode_relocation(r: &Relocation) -> (out: Vec<u8>)
    ensures
        out@ == spec_encode_relocation(*r),
        out@.len() == RELOCATION_BYTES,
{
    let mut out: Vec<u8> = Vec::new();
    push_u32(&mut out, r.virtual_addr);
    push_u32(&mut out, r.symbol_index);
    push_u32(&mut out, r.offset);
    push_u16(&mut out, r.reloc_type);
    push_u16(&mut out, r.extra);
    assert(out@ =~= spec_encode_relocation(*r));
    out
}

/// Decoding the encoding of a relocation gives the relocation back.
pub proof fn lemma_relocation_round_trip(r: Relocation)
    ensures
        spec_encode_relocation(r).len() == RELOCATION_BYTES,
        spec_decode_relocation(spec_encode_relocation(r), 0) == r,
{
    let b = spec_encode_relocation(r);
    lemma_u32_field_round_trip(r.virtual_addr);
    lemma_u32_field_round_trip(r.symbol_index);
    lemma_u32_field_round_trip(r.offset);
    lemma_u16_field_round_trip(r.reloc_type);
    lemma_u16_field_round_trip(r.extra);
    assert(spec_u32_bytes(r.virtual_addr) =~= b.subrange(0, 4));
    assert(spec_u32_bytes(r.symbol_index) =~= b.subrange(4, 8));
    assert(spec_u32_bytes(r.offset) =~= b.subrange(8, 12));
    assert(spec_u16_bytes(r.reloc_type) =~= b.subrange(12, 14));
    assert(spec_u16_bytes(r.extra) =~= b.subrange(14, 16));
}

// ---------------------------------------------------------------------------
// Symbol.
// ---------------------------------------------------------------------------
/// The interpretation of the eight symbol-name bytes at offset `i` of `b`:
/// a string-table offset when the first four bytes are all zero, otherwise
/// the literal NUL-padded name.
pub open spec fn spec_decode_symbol_name(b: Seq<u8>, i: int) -> SpecSymbolName
    recommends
        0 <= i,
        i + 8 <= b.len(),
{
    if b[i] == 0 && b[i + 1] == 0 && b[i + 2] == 0 && b[i + 3] == 0 {
        SpecSymbolName::TableOffset(spec_u32_at(b, i + 4))
    } else {
        SpecSymbolName::Literal(b.subrange(i, i + 8))
    }
}

/// The eight-byte encoding of a symbol name.
pub open spec fn spec_encode_symbol_name(n: SpecSymbolName) -> Seq<u8>
    recommends
        n.wf(),
{
    match n {
        SpecSymbolName::Literal(bytes) => bytes,
        SpecSymbolName::TableOffset(off) => seq![0u8, 0u8, 0u8, 0u8] + spec_u32_bytes(off),
    }
}

/// The symbol whose 18-byte encoding starts at offset `i` of `b`.
pub open spec fn spec_decode_symbol(b: Seq<u8>, i: int) -> SpecSymbol
    recommends
        0 <= i,
        i + SYMBOL_BYTES <= b.len(),
{
    SpecSymbol {
        name: spec_decode_symbol_name(b, i),
        value: spec_u32_at(b, i + 8),
        section_number: spec_i16_at(b, i + 12),
        sym_type: spec_u16_at(b, i + 14),
        storage_class: b[i + 16],
        num_aux_entries: b[i + 17],
    }
}

/// The 18-byte encoding of a symbol.
pub open spec fn spec_encode_symbol(s: SpecSymbol) -> Seq<u8>
    recommends
        s.wf(),
{
    spec_encode_symbol_name(s.name) + spec_u32_bytes(s.value) + spec_u16_bytes(
        s.section_number as u16,
    ) + spec_u16_bytes(s.sym_type) + seq![s.storage_class, s.num_aux_entries]
}

/// Decodes one symbol from the cursor's current position, advancing it by
/// exactly 18 bytes; fails, moving nothing, if fewer bytes remain.  The
/// decoded name is always well formed.
pub fn decode_symbol(c: &mut Cursor<'_>) -> (r: Result<Symbol, CursorError>)
    requires
        old(c).wf(),
    ensures
        final(c).wf(),
        final(c).bytes() == old(c).bytes(),
        old(c).position() + SYMBOL_BYTES <= old(c).bytes().len() ==> {
            &&& r matches Ok(s) && s@ == spec_decode_symbol(old(c).bytes(), old(c).position())
            &&& r matches Ok(s) && s@.wf()
            &&& final(c).position() == old(c).position() + SYMBOL_BYTES
        },
        old(c).position() + SYMBOL_BYTES > old(c).bytes().len() ==> {
            &&& r == Err::<Symbol, CursorError>(
                CursorError::Truncated {
                    offset: old(c).position() as u64,
                    expected: SYMBOL_BYTES as u64,
                    available: (old(c).bytes().len() - old(c).position()) as u64,
                },
            )
            &&& final(c).position() == old(c).position()
        },
{
    let v = c.read_exact(SYMBOL_BYTES)?;
    let name = if v[0] == 0 && v[1] == 0 && v[2] == 0 && v[3] == 0 {
        SymbolName::TableOffset(be_u32(v.as_slice(), 4))
    } else {
        let bytes: [u8; 8] = [v[0], v[1], v[2], v[3], v[4], v[5], v[6], v[7]];
        proof {
            assert(bytes@ =~= old(c).bytes().subrange(
                old(c).position(),
                old(c).position() + 8,
            ));
        }
        SymbolName::Literal(bytes)
    };
    let s = Symbol {
        name,
        value: be_u32(v.as_slice(), 8),
        section_number: be_u16(v.as_slice(), 12) as i16,
        sym_type: be_u16(v.as_slice(), 14),
        storage_class: v[16],
        num_aux_entries: v[17],
    };
    proof {
        assert(s@ =~= spec_decode_symbol(old(c).bytes(), old(c).position()));
    }
    Ok(s)
}

/// Encodes a symbol as its 18 bytes.  A literal name is written as it
/// stands; only well-formed symbols (`wf`) decode back to themselves, since
/// a literal name whose first four bytes are all zero would read back as a
/// table offset.
pub fn encode_symbol(s: &Symbol) -> (out: Vec<u8>)
    ensures
        out@ == spec_encode_symbol(s@),
        out@.len() == SYMBOL_BYTES,
{
    let mut out: Vec<u8> = Vec::new();
    match &s.name {
        SymbolName::Literal(bytes) => {
            let mut j: usize = 0;
            while j < 8
                invariant
                    j <= 8,
                    out@ =~= bytes@.subrange(0, j as int),
                decreases 8 - j,
            {
                out.push(bytes[j]);
                assert(out@ =~= bytes@.subrange(0, j + 1));
                j += 1;
            }
            assert(out@ =~= bytes@);
        },
        SymbolName::TableOffset(off) => {
            out.push(0);
            out.push(0);
            out.push(0);
            out.push(0);
            push_u32(&mut out, *off);
            assert(out@ =~= seq![0u8, 0u8, 0u8, 0u8] + spec_u32_bytes(*off));
        },
    }
    push_u32(&mut out, s.value);
    push_u16(&mut out, s.section_number as u16);
    push_u16(&mut out, s.sym_type);
    out.push(s.storage_class);
    out.push(s.num_aux_entries);
    assert(out@ =~= spec_encode_symbol(s@));
    out
}

/// Decoding the encoding of a well-formed symbol gives the symbol back.
pub proof fn lemma_symbol_round_trip(s: SpecSymbol)
    requires
        s.wf(),
    ensures
        spec_encode_symbol(s).len() == SYMBOL_BYTES,
        spec_decode_symbol(spec_encode_symbol(s), 0) == s,
{
    let b = spec_encode_symbol(s);
    lemma_u32_field_round_trip(s.value);
    lemma_u16_field_round_trip(s.section_number as u16);
    lemma_u16_field_round_trip(s.sym_type);
    let sn = s.section_number;
    assert(sn as u16 as i16 == sn) by (bit_vector);
    assert(spec_encode_symbol_name(s.name).len() == 8);
    assert(spec_encode_symbol_name(s.name) =~= b.subrange(0, 8));
    assert(spec_u32_bytes(s.value) =~= b.subrange(8, 12));
    assert(spec_u16_bytes(s.section_number as u16) =~= b.subrange(12, 14));
    assert(spec_u16_bytes(s.sym_type) =~= b.subrange(14, 16));
    match s.name {
        SpecSymbolName::Literal(bytes) => {
            assert(b.subrange(0, 8) =~= bytes);
            assert(!(b[0] == 0 && b[1] == 0 && b[2] == 0 && b[3] == 0));
        },
        SpecSymbolName::TableOffset(off) => {
            lemma_u32_field_round_trip(off);
            assert(b[0] == 0 && b[1] == 0 && b[2] == 0 && b[3] == 0);
            assert(spec_u32_bytes(off) =~= b.subrange(4, 8));
        },
    }
    assert(spec_decode_symbol(b, 0) =~= s);
}

} // verus!
