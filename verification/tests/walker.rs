use coffdump::codec::{encode_file_header, encode_relocation, encode_section_header, encode_symbol};
use coffdump::records::{FileHeader, Relocation, SectionHeader, Symbol, SymbolName};
use coffdump::render::{print_filhdr, print_relocinfo, print_scnhdr, print_symtab};
use coffdump::walker::{parse_coff, DecodeError, Phase};

fn header(num_sections: u16, symbol_table_offset: u32, num_symbols: u32) -> FileHeader {
    FileHeader {
        magic: 0x01df,
        num_sections,
        timestamp: 0x0000_0001,
        symbol_table_offset,
        num_symbols,
        optional_header_size: 0,
        flags: 0x0004,
    }
}

fn section(name: [u8; 8], relocation_offset: u32, num_relocations: u16) -> SectionHeader {
    SectionHeader {
        name,
        physical_addr: 0x1000_0000,
        virtual_addr: 0x1000_0000,
        size: 0x40,
        data_offset: 0,
        relocation_offset,
        line_number_offset: 0,
        num_relocations,
        num_line_numbers: 0,
        flags: 0x20,
    }
}

fn relocation(virtual_addr: u32, symbol_index: u32) -> Relocation {
    Relocation {
        virtual_addr,
        symbol_index,
        offset: 0,
        reloc_type: 0x11,
        extra: 0,
    }
}

fn symbol(tag: u8) -> Symbol {
    Symbol {
        name: SymbolName::Literal([tag, 0x79, 0x6d, 0, 0, 0, 0, 0]),
        value: 0x40,
        section_number: 1,
        sym_type: 0x20,
        storage_class: 2,
        num_aux_entries: 0,
    }
}

/// A minimal well-formed file: one section with two relocations, then the
/// one-entry symbol table, every table contiguous after the section table.
#[test]
fn end_to_end_minimal_file() {
    // Layout: header 0..20, section 20..60, relocations 60..92, symbol
    // table 92..110.
    let hdr = header(1, 92, 1);
    let sec = section(*b".text\0\0\0", 60, 2);
    let r1 = relocation(0x10, 5);
    let r2 = relocation(0x20, 6);
    let sym = symbol(0x73);

    let mut file = encode_file_header(&hdr);
    file.extend_from_slice(&encode_section_header(&sec));
    file.extend_from_slice(&encode_relocation(&r1));
    file.extend_from_slice(&encode_relocation(&r2));
    file.extend_from_slice(&encode_symbol(&sym));
    assert_eq!(file.len(), 110);

    let coff = parse_coff(&file).unwrap();
    assert_eq!(coff.header, hdr);
    assert_eq!(coff.sections, vec![sec]);
    assert_eq!(coff.relocations, vec![vec![r1, r2]]);
    assert_eq!(coff.symbols, vec![sym]);
}

/// Relocation tables located correctly although they lie after the symbol
/// table and in reverse section order.
#[test]
fn relocation_tables_in_any_order_and_location() {
    // Layout: header 0..20, sections 20..100, symbol table 100..118,
    // section 2's relocation table 118..134, section 1's table 134..150.
    let hdr = header(2, 100, 1);
    let sec1 = section(*b".text\0\0\0", 134, 1);
    let sec2 = section(*b".data\0\0\0", 118, 1);
    let ra = relocation(0xaaaa, 1);
    let rb = relocation(0xbbbb, 2);
    let sym = symbol(0x73);

    let mut file = encode_file_header(&hdr);
    file.extend_from_slice(&encode_section_header(&sec1));
    file.extend_from_slice(&encode_section_header(&sec2));
    file.extend_from_slice(&encode_symbol(&sym));
    file.extend_from_slice(&encode_relocation(&rb)); // section 2's table
    file.extend_from_slice(&encode_relocation(&ra)); // section 1's table
    assert_eq!(file.len(), 150);

    let coff = parse_coff(&file).unwrap();
    assert_eq!(coff.relocations, vec![vec![ra], vec![rb]]);
}

/// The decoded collection sizes always equal the counts that drove them.
#[test]
fn decoded_counts_match_header_counts() {
    // Layout: header 0..20, sections 20..100, relocations 100..116 and
    // 116..164, symbols 164..200.
    let hdr = header(2, 164, 2);
    let sec1 = section(*b".text\0\0\0", 100, 1);
    let sec2 = section(*b".data\0\0\0", 116, 3);
    let mut file = encode_file_header(&hdr);
    file.extend_from_slice(&encode_section_header(&sec1));
    file.extend_from_slice(&encode_section_header(&sec2));
    for i in 0..4u32 {
        file.extend_from_slice(&encode_relocation(&relocation(i, i)));
    }
    file.extend_from_slice(&encode_symbol(&symbol(0x61)));
    file.extend_from_slice(&encode_symbol(&symbol(0x62)));

    let coff = parse_coff(&file).unwrap();
    assert_eq!(coff.sections.len(), usize::from(coff.header.num_sections));
    assert_eq!(coff.relocations.len(), coff.sections.len());
    for (i, sec) in coff.sections.iter().enumerate() {
        assert_eq!(coff.relocations[i].len(), usize::from(sec.num_relocations));
    }
    assert_eq!(coff.symbols.len(), coff.header.num_symbols as usize);
}

/// A file of zero counts decodes to empty collections.
#[test]
fn zero_sections_and_symbols() {
    let hdr = header(0, 20, 0);
    let file = encode_file_header(&hdr);
    let coff = parse_coff(&file).unwrap();
    assert!(coff.sections.is_empty());
    assert!(coff.relocations.is_empty());
    assert!(coff.symbols.is_empty());
}

/// A section without relocations never has its relocation offset examined.
#[test]
fn zero_relocations_skip_the_offset() {
    let hdr = header(1, 60, 0);
    let sec = section(*b".bss\0\0\0\0", 0xffff_ff00, 0);
    let mut file = encode_file_header(&hdr);
    file.extend_from_slice(&encode_section_header(&sec));
    let coff = parse_coff(&file).unwrap();
    assert_eq!(coff.relocations, vec![Vec::new()]);
}

#[test]
fn truncated_header_nineteen_of_twenty_bytes() {
    let hdr = header(1, 0, 0);
    let mut file = encode_file_header(&hdr);
    file.pop();
    let e = parse_coff(&file).unwrap_err();
    assert_eq!(
        e,
        DecodeError::Truncated {
            phase: Phase::Header,
            offset: 0,
            expected: 20,
            available: 19,
        }
    );
}

#[test]
fn truncated_section_table() {
    let hdr = header(1, 0, 0);
    let sec = section(*b".text\0\0\0", 0, 0);
    let mut file = encode_file_header(&hdr);
    file.extend_from_slice(&encode_section_header(&sec)[..30]);
    let e = parse_coff(&file).unwrap_err();
    assert_eq!(
        e,
        DecodeError::Truncated {
            phase: Phase::Sections,
            offset: 20,
            expected: 40,
            available: 30,
        }
    );
}

#[test]
fn truncated_second_section() {
    let hdr = header(2, 0, 0);
    let sec = section(*b".text\0\0\0", 0, 0);
    let mut file = encode_file_header(&hdr);
    file.extend_from_slice(&encode_section_header(&sec));
    file.extend_from_slice(&encode_section_header(&sec)[..10]);
    let e = parse_coff(&file).unwrap_err();
    assert_eq!(
        e,
        DecodeError::Truncated {
            phase: Phase::Sections,
            offset: 60,
            expected: 40,
            available: 10,
        }
    );
}

#[test]
fn relocation_offset_out_of_range() {
    let hdr = header(1, 60, 0);
    let sec = section(*b".text\0\0\0", 200, 1);
    let mut file = encode_file_header(&hdr);
    file.extend_from_slice(&encode_section_header(&sec));
    let e = parse_coff(&file).unwrap_err();
    assert_eq!(
        e,
        DecodeError::OutOfRange {
            phase: Phase::Relocations,
            offset: 200,
            length: 60,
        }
    );
}

#[test]
fn truncated_relocation_table() {
    let hdr = header(1, 60, 0);
    let sec = section(*b".text\0\0\0", 60, 1);
    let mut file = encode_file_header(&hdr);
    file.extend_from_slice(&encode_section_header(&sec));
    file.extend_from_slice(&[0u8; 10]);
    let e = parse_coff(&file).unwrap_err();
    assert_eq!(
        e,
        DecodeError::Truncated {
            phase: Phase::Relocations,
            offset: 60,
            expected: 16,
            available: 10,
        }
    );
}

#[test]
fn symbol_table_offset_out_of_range() {
    let hdr = header(0, 200, 1);
    let file = encode_file_header(&hdr);
    let e = parse_coff(&file).unwrap_err();
    assert_eq!(
        e,
        DecodeError::OutOfRange {
            phase: Phase::Symbols,
            offset: 200,
            length: 20,
        }
    );
}

#[test]
fn truncated_second_symbol() {
    let hdr = header(0, 20, 2);
    let mut file = encode_file_header(&hdr);
    file.extend_from_slice(&encode_symbol(&symbol(0x61)));
    file.extend_from_slice(&[0u8; 2]);
    let e = parse_coff(&file).unwrap_err();
    assert_eq!(
        e,
        DecodeError::Truncated {
            phase: Phase::Symbols,
            offset: 38,
            expected: 18,
            available: 2,
        }
    );
}

/// The same relocation bytes moved to a different free spot in the file,
/// with the section's offset updated, decode to the same table.
#[test]
fn moving_a_relocation_table_leaves_its_records_unchanged() {
    let r = relocation(0x1234, 9);
    // First layout: table right after the section table.
    let hdr = header(1, 76, 0);
    let sec_near = section(*b".text\0\0\0", 60, 1);
    let mut near = encode_file_header(&hdr);
    near.extend_from_slice(&encode_section_header(&sec_near));
    near.extend_from_slice(&encode_relocation(&r));
    near.extend_from_slice(&[0u8; 16]);
    // Second layout: same length, table in the tail, junk where it was.
    let sec_far = section(*b".text\0\0\0", 76, 1);
    let mut far = encode_file_header(&header(1, 60, 0));
    far.extend_from_slice(&encode_section_header(&sec_far));
    far.extend_from_slice(&[0xa5u8; 16]);
    far.extend_from_slice(&encode_relocation(&r));
    assert_eq!(near.len(), far.len());

    let coff_near = parse_coff(&near).unwrap();
    let coff_far = parse_coff(&far).unwrap();
    assert_eq!(coff_near.relocations, coff_far.relocations);
    assert_eq!(coff_near.relocations, vec![vec![r]]);
}

#[test]
fn parse_then_render_every_collection() {
    let hdr = header(1, 92, 1);
    let sec = section(*b".text\0\0\0", 60, 2);
    let mut file = encode_file_header(&hdr);
    file.extend_from_slice(&encode_section_header(&sec));
    file.extend_from_slice(&encode_relocation(&relocation(0x10, 5)));
    file.extend_from_slice(&encode_relocation(&relocation(0x20, 6)));
    file.extend_from_slice(&encode_symbol(&symbol(0x73)));

    let coff = parse_coff(&file).unwrap();
    assert_eq!(
        print_filhdr(&coff.header),
        "magic=0x01df nscns=1 timdat=0x00000001 symptr=0x0000005c nsyms=1 opthdr=0x0000 flags=0x0004"
    );
    assert_eq!(
        print_scnhdr(&coff.sections[0]),
        "name=.text paddr=0x10000000 vaddr=0x10000000 size=64 scnptr=0x00000000 relptr=0x0000003c lnnoptr=0x00000000 nreloc=2 nlnno=0 flags=0x00000020"
    );
    let groups = print_relocinfo(&coff.relocations);
    assert_eq!(groups.len(), 1);
    assert_eq!(
        groups[0][0],
        "scnum=1 vaddr=0x00000010 symndx=5 offset=0x00000000 type=0x0011 extra=0x0000"
    );
    assert_eq!(
        groups[0][1],
        "scnum=1 vaddr=0x00000020 symndx=6 offset=0x00000000 type=0x0011 extra=0x0000"
    );
    let lines = print_symtab(&coff.symbols);
    assert_eq!(
        lines,
        vec!["name=sym value=0x00000040 scnum=1 type=0x0020 class=0x02 numaux=0x00"]
    );
}
