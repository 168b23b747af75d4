use coffdump::codec::{
    decode_file_header, decode_relocation, decode_section_header, decode_symbol,
    encode_file_header, encode_relocation, encode_section_header, encode_symbol,
};
use coffdump::cursor::{Cursor, CursorError};
use coffdump::records::{FileHeader, Relocation, SectionHeader, Symbol, SymbolName};

fn sample_header() -> FileHeader {
    FileHeader {
        magic: 0x01df,
        num_sections: 3,
        timestamp: 0x5f00_1234,
        symbol_table_offset: 0x0000_0154,
        num_symbols: 7,
        optional_header_size: 0,
        flags: 0x0004,
    }
}

fn sample_section() -> SectionHeader {
    SectionHeader {
        name: [0x2e, 0x74, 0x65, 0x78, 0x74, 0, 0, 0],
        physical_addr: 0x1000_0000,
        virtual_addr: 0x1000_0040,
        size: 0x80,
        data_offset: 0x64,
        relocation_offset: 0xe4,
        line_number_offset: 0,
        num_relocations: 2,
        num_line_numbers: 0,
        flags: 0x20,
    }
}

fn sample_relocation() -> Relocation {
    Relocation {
        virtual_addr: 0x1000_0010,
        symbol_index: 5,
        offset: 0x0000_0002,
        reloc_type: 0x0011,
        extra: 0xbeef,
    }
}

#[test]
fn round_trip_file_header() {
    let h = sample_header();
    let bytes = encode_file_header(&h);
    assert_eq!(bytes.len(), 20);
    let mut c = Cursor::new(&bytes);
    let back = decode_file_header(&mut c).unwrap();
    assert_eq!(back, h);
}

#[test]
fn round_trip_section_header() {
    let s = sample_section();
    let bytes = encode_section_header(&s);
    assert_eq!(bytes.len(), 40);
    let mut c = Cursor::new(&bytes);
    let back = decode_section_header(&mut c).unwrap();
    assert_eq!(back, s);
}

#[test]
fn round_trip_relocation() {
    let r = sample_relocation();
    let bytes = encode_relocation(&r);
    assert_eq!(bytes.len(), 16);
    let mut c = Cursor::new(&bytes);
    let back = decode_relocation(&mut c).unwrap();
    assert_eq!(back, r);
}

#[test]
fn round_trip_symbol_literal_name() {
    let s = Symbol {
        name: SymbolName::Literal([0x41, 0x42, 0, 0, 0, 0, 0, 0]),
        value: 0x0000_0040,
        section_number: 1,
        sym_type: 0x0020,
        storage_class: 0x02,
        num_aux_entries: 0,
    };
    let bytes = encode_symbol(&s);
    assert_eq!(bytes.len(), 18);
    let mut c = Cursor::new(&bytes);
    let back = decode_symbol(&mut c).unwrap();
    assert_eq!(back, s);
}

#[test]
fn round_trip_symbol_table_offset_name() {
    let s = Symbol {
        name: SymbolName::TableOffset(0x0000_0020),
        value: 0,
        section_number: -2,
        sym_type: 0,
        storage_class: 0x69,
        num_aux_entries: 1,
    };
    let bytes = encode_symbol(&s);
    let mut c = Cursor::new(&bytes);
    let back = decode_symbol(&mut c).unwrap();
    assert_eq!(back, s);
}

#[test]
fn symbol_name_offset_when_first_four_bytes_zero() {
    // Name bytes [0,0,0,0,0,0,0,0x20]: the first four are all zero, so the
    // name is a string-table offset read big-endian from bytes 4..8.
    let mut bytes = vec![0u8, 0, 0, 0, 0, 0, 0, 0x20];
    bytes.extend_from_slice(&[0, 0, 0, 0x40]); // value
    bytes.extend_from_slice(&[0, 1]); // section number
    bytes.extend_from_slice(&[0, 0]); // type
    bytes.push(2); // storage class
    bytes.push(0); // aux entries
    let mut c = Cursor::new(&bytes);
    let sym = decode_symbol(&mut c).unwrap();
    assert_eq!(sym.name, SymbolName::TableOffset(0x20));
}

#[test]
fn symbol_name_literal_when_any_of_first_four_nonzero() {
    // Name bytes [0x41,0x42,0,...]: a literal NUL-padded name ("AB").
    let mut bytes = vec![0x41u8, 0x42, 0, 0, 0, 0, 0, 0];
    bytes.extend_from_slice(&[0, 0, 0, 0]); // value
    bytes.extend_from_slice(&[0, 1]); // section number
    bytes.extend_from_slice(&[0, 0]); // type
    bytes.push(2); // storage class
    bytes.push(0); // aux entries
    let mut c = Cursor::new(&bytes);
    let sym = decode_symbol(&mut c).unwrap();
    assert_eq!(sym.name, SymbolName::Literal([0x41, 0x42, 0, 0, 0, 0, 0, 0]));
}

#[test]
fn decode_stops_one_byte_short() {
    let h = sample_header();
    let mut bytes = encode_file_header(&h);
    bytes.pop();
    let mut c = Cursor::new(&bytes);
    let e = decode_file_header(&mut c).unwrap_err();
    assert_eq!(
        e,
        CursorError::Truncated { offset: 0, expected: 20, available: 19 }
    );
}

#[test]
fn negative_section_number_uses_two_s_complement() {
    let s = Symbol {
        name: SymbolName::Literal([0x41, 0, 0, 0, 0, 0, 0, 0]),
        value: 0,
        section_number: -1,
        sym_type: 0,
        storage_class: 0,
        num_aux_entries: 0,
    };
    let bytes = encode_symbol(&s);
    assert_eq!(bytes[12], 0xff);
    assert_eq!(bytes[13], 0xff);
    let mut c = Cursor::new(&bytes);
    assert_eq!(decode_symbol(&mut c).unwrap().section_number, -1);
}

#[test]
fn file_header_layout_matches_bincode_big_endian_fixed() {
    let h = sample_header();
    let config = bincode::config::standard()
        .with_fixed_int_encoding()
        .with_big_endian();
    let reference = bincode::encode_to_vec(
        (
            h.magic,
            h.num_sections,
            h.timestamp,
            h.symbol_table_offset,
            h.num_symbols,
            h.optional_header_size,
            h.flags,
        ),
        config,
    )
    .unwrap();
    assert_eq!(encode_file_header(&h), reference);
}

#[test]
fn section_header_layout_matches_bincode_big_endian_fixed() {
    let s = sample_section();
    let config = bincode::config::standard()
        .with_fixed_int_encoding()
        .with_big_endian();
    let mut reference = bincode::encode_to_vec(s.name, config).unwrap();
    reference.extend_from_slice(
        &bincode::encode_to_vec(
            (
                s.physical_addr,
                s.virtual_addr,
                s.size,
                s.data_offset,
                s.relocation_offset,
                s.line_number_offset,
                s.num_relocations,
                s.num_line_numbers,
                s.flags,
            ),
            config,
        )
        .unwrap(),
    );
    assert_eq!(encode_section_header(&s), reference);
}

#[test]
fn signed_field_layout_matches_bincode_big_endian_fixed() {
    let config = bincode::config::standard()
        .with_fixed_int_encoding()
        .with_big_endian();
    let reference = bincode::encode_to_vec(-2i16, config).unwrap();
    let s = Symbol {
        name: SymbolName::Literal([0x41, 0, 0, 0, 0, 0, 0, 0]),
        value: 0,
        section_number: -2,
        sym_type: 0,
        storage_class: 0,
        num_aux_entries: 0,
    };
    let bytes = encode_symbol(&s);
    assert_eq!(&bytes[12..14], reference.as_slice());
}

#[test]
fn literal_when_only_first_byte_is_zero() {
    // Only all four leading zero bytes select the table-offset form; a
    // name such as [0, 0x41, ...] is still a literal.
    let mut bytes = vec![0u8, 0x41, 0, 0, 0, 0, 0, 0];
    bytes.extend_from_slice(&[0u8; 10]);
    let mut c = Cursor::new(&bytes);
    let sym = decode_symbol(&mut c).unwrap();
    assert_eq!(sym.name, SymbolName::Literal([0, 0x41, 0, 0, 0, 0, 0, 0]));
}
