//! Rendering of decoded records as text lines.
//!
//! Every decoded field value is surfaced: integers as fixed-width
//! lowercase hex (`0x...`) or decimal, and eight-byte name fields as their
//! text when they are printable NUL-padded names.  A name field is not
//! guaranteed to be text — a name may really be raw bytes — so a name that
//! is not a printable padded name falls back to a hex rendering of its
//! bytes instead of failing the run.

use vstd::prelude::*;
use vstd::string::StringExecFns;

use crate::records::FileHeader;
use crate::records::Relocation;
use crate::records::SectionHeader;
use crate::records::SpecSectionHeader;
use crate::records::SpecSymbol;
use crate::records::SpecSymbolName;
use crate::records::Symbol;
use crate::records::SymbolName;

verus! {

/// Relies on `String::push`: appends exactly the one character at the end.
#[verifier::external_body]
fn push_char(s: &mut String, c: char)
    ensures
        final(s)@ == old(s)@.push(c),
{
    s.push(c)
}

/// The lowercase hex digit for a value below sixteen.
pub open spec fn spec_hex_digit(d: u8) -> char {
    if d == 0 {
        '0'
    } else if d == 1 {
        '1'
    } else if d == 2 {
        '2'
    } else if d == 3 {
        '3'
    } else if d == 4 {
        '4'
    } else if d == 5 {
        '5'
    } else if d == 6 {
        '6'
    } else if d == 7 {
        '7'
    } else if d == 8 {
        '8'
    } else if d == 9 {
        '9'
    } else if d == 10 {
        'a'
    } else if d == 11 {
        'b'
    } else if d == 12 {
        'c'
    } else if d == 13 {
        'd'
    } else if d == 14 {
        'e'
    } else {
        'f'
    }
}

fn hex_digit_char(d: u8) -> (c: char)
    requires
        d < 16,
    ensures
        c == spec_hex_digit(d),
{
    if d == 0 {
        '0'
    } else if d == 1 {
        '1'
    } else if d == 2 {
        '2'
    } else if d == 3 {
        '3'
    } else if d == 4 {
        '4'
    } else if d == 5 {
        '5'
    } else if d == 6 {
        '6'
    } else if d == 7 {
        '7'
    } else if d == 8 {
        '8'
    } else if d == 9 {
        '9'
    } else if d == 10 {
        'a'
    } else if d == 11 {
        'b'
    } else if d == 12 {
        'c'
    } else if d == 13 {
        'd'
    } else if d == 14 {
        'e'
    } else {
        'f'
    }
}

/// The last `n` hex digits of `v`, most significant first.
pub open spec fn spec_hex(v: int, n: nat) -> Seq<char>
    recommends
        0 <= v,
    decreases n,
{
    if n == 0 {
        Seq::empty()
    } else {
        spec_hex(v / 16, (n - 1) as nat).push(spec_hex_digit((v % 16) as u8))
    }
}

/// Renders `v` as exactly `n` lowercase hex digits (the low `4 * n` bits).
pub fn hex_fixed(v: u32, n: usize) -> (r: String)
    ensures
        r@ == spec_hex(v as int, n as nat),
    decreases n,
{
    if n == 0 {
        String::new()
    } else {
        let mut s = hex_fixed(v / 16, n - 1);
        push_char(&mut s, hex_digit_char((v % 16) as u8));
        s
    }
}

/// The decimal digits of `v`, most significant first, no sign and no
/// leading zeros (a single zero for zero).
pub open spec fn spec_dec(v: int) -> Seq<char>
    recommends
        0 <= v,
    decreases v,
{
    if v < 10 {
        seq![spec_hex_digit((v % 10) as u8)]
    } else {
        spec_dec(v / 10).push(spec_hex_digit((v % 10) as u8))
    }
}

/// Renders `v` in decimal.
pub fn dec_u32(v: u32) -> (r: String)
    ensures
        r@ == spec_dec(v as int),
    decreases v,
{
    if v < 10 {
        let mut s = String::new();
        push_char(&mut s, hex_digit_char(v as u8));
        proof {
            assert(s@ =~= spec_dec(v as int));
        }
        s
    } else {
        let mut s = dec_u32(v / 10);
        push_char(&mut s, hex_digit_char((v % 10) as u8));
        s
    }
}

/// The decimal digits of `v`, with a leading minus sign when negative.
pub open spec fn spec_dec_signed(v: int) -> Seq<char> {
    if v < 0 {
        seq!['-'] + spec_dec(-v)
    } else {
        spec_dec(v)
    }
}

/// Renders `v` in signed decimal.
pub fn dec_i16(v: i16) -> (r: String)
    ensures
        r@ == spec_dec_signed(v as int),
{
    if v < 0 {
        let magnitude = (-(v as i32)) as u32;
        let mut s = String::new();
        push_char(&mut s, '-');
        let digits = dec_u32(magnitude);
        s.append(digits.as_str());
        proof {
            assert(s@ =~= spec_dec_signed(v as int));
        }
        s
    } else {
        dec_u32(v as u32)
    }
}

/// Two hex digits for each byte from `i` on, in order.
pub open spec fn spec_bytes_hex_from(bs: Seq<u8>, i: int) -> Seq<char>
    decreases bs.len() - i,
{
    if i < 0 || i >= bs.len() {
        Seq::empty()
    } else {
        spec_hex(bs[i] as int, 2) + spec_bytes_hex_from(bs, i + 1)
    }
}

/// Two hex digits for each byte, in order.
pub open spec fn spec_bytes_hex(bs: Seq<u8>) -> Seq<char> {
    spec_bytes_hex_from(bs, 0)
}

/// Renders each byte as two hex digits.
pub fn bytes_hex(bs: &[u8]) -> (r: String)
    ensures
        r@ == spec_bytes_hex(bs@),
{
    let mut r = String::new();
    let mut i: usize = bs.len();
    while i > 0
        invariant
            i <= bs@.len(),
            r@ == spec_bytes_hex_from(bs@, i as int),
        decreases i,
    {
        i = i - 1;
        let pair = hex_fixed(bs[i] as u32, 2);
        r = pair.concat(r.as_str());
    }
    r
}

/// The index of the first NUL byte, or the length if there is none.
pub open spec fn spec_first_zero_from(bs: Seq<u8>, i: int) -> int
    decreases bs.len() - i,
{
    if i < 0 || i >= bs.len() {
        bs.len() as int
    } else if bs[i] == 0 {
        i
    } else {
        spec_first_zero_from(bs, i + 1)
    }
}

/// The index of the first NUL byte, or the length if there is none.
pub open spec fn spec_first_zero(bs: Seq<u8>) -> int {
    spec_first_zero_from(bs, 0)
}

proof fn lemma_first_zero_from(bs: Seq<u8>, m: int, j: int)
    requires
        0 <= m <= j <= bs.len(),
        forall|i: int| m <= i < j ==> bs[i] != 0,
        j < bs.len() ==> bs[j] == 0,
    ensures
        spec_first_zero_from(bs, m) == j,
    decreases j - m,
{
    if m < j {
        lemma_first_zero_from(bs, m + 1, j);
    }
}

/// A name field is printable text when everything before the first NUL is
/// a printable character and everything from the first NUL on is NUL
/// padding.
pub open spec fn spec_name_is_text(bs: Seq<u8>) -> bool {
    let k = spec_first_zero(bs);
    &&& forall|i: int| 0 <= i < k ==> 0x20 <= #[trigger] bs[i] <= 0x7e
    &&& forall|i: int| k <= i < bs.len() ==> #[trigger] bs[i] == 0
}

/// The characters of a printable name: the bytes before the first NUL.
pub open spec fn spec_name_text(bs: Seq<u8>) -> Seq<char> {
    Seq::new(spec_first_zero(bs) as nat, |i: int| bs[i] as char)
}

/// A name field as text: the printable NUL-padded name itself, or, when
/// the bytes are not such a name, `0x` and their hex rendering.
pub open spec fn spec_name_render(bs: Seq<u8>) -> Seq<char> {
    if spec_name_is_text(bs) {
        spec_name_text(bs)
    } else {
        "0x"@ + spec_bytes_hex(bs)
    }
}

fn first_zero_index(bs: &[u8]) -> (k: usize)
    ensures
        0 <= k <= bs@.len(),
        k as int == spec_first_zero(bs@),
        forall|i: int| 0 <= i < k ==> bs@[i] != 0,
        k < bs@.len() ==> bs@[k as int] == 0,
{
    let mut k: usize = 0;
    while k < bs.len() && bs[k] != 0
        invariant
            k <= bs@.len(),
            forall|i: int| 0 <= i < k ==> bs@[i] != 0,
        decreases bs@.len() - k,
    {
        k += 1;
    }
    proof {
        lemma_first_zero_from(bs@, 0, k as int);
    }
    k
}

/// Renders a name field: its text when it is a printable NUL-padded name,
/// its bytes in hex otherwise.
pub fn name_render(bs: &[u8]) -> (r: String)
    ensures
        r@ == spec_name_render(bs@),
{
    let k = first_zero_index(bs);
    let mut printable = true;
    let mut i: usize = 0;
    while i < k
        invariant
            i <= k <= bs@.len(),
            printable <==> (forall|j: int| 0 <= j < i ==> 0x20 <= #[trigger] bs@[j] <= 0x7e),
        decreases k - i,
    {
        if bs[i] < 0x20 || bs[i] > 0x7e {
            printable = false;
        }
        i += 1;
    }
    let mut padded = true;
    let mut i: usize = k;
    while i < bs.len()
        invariant
            k <= i <= bs@.len(),
            padded <==> (forall|j: int| k <= j < i ==> #[trigger] bs@[j] == 0),
        decreases bs@.len() - i,
    {
        if bs[i] != 0 {
            padded = false;
        }
        i += 1;
    }
    if printable && padded {
        let mut r = String::new();
        let mut i: usize = 0;
        while i < k
            invariant
                i <= k <= bs@.len(),
                k as int == spec_first_zero(bs@),
                r@.len() == i,
                forall|j: int| 0 <= j < i ==> #[trigger] r@[j] == bs@[j] as char,
            decreases k - i,
        {
            push_char(&mut r, bs[i] as char);
            i += 1;
        }
        proof {
            assert(r@ =~= spec_name_text(bs@));
        }
        r
    } else {
        let mut r = String::new();
        r.append("0x");
        let digits = bytes_hex(bs);
        r.append(digits.as_str());
        proof {
            assert(r@ =~= "0x"@ + spec_bytes_hex(bs@));
        }
        r
    }
}

// ---------------------------------------------------------------------------
// One line per record.
// ---------------------------------------------------------------------------
/// The text line for a file header.
pub open spec fn spec_file_header_line(h: FileHeader) -> Seq<char> {
    "magic=0x"@ + spec_hex(h.magic as int, 4) + " nscns="@ + spec_dec(h.num_sections as int)
        + " timdat=0x"@ + spec_hex(h.timestamp as int, 8) + " symptr=0x"@ + spec_hex(
        h.symbol_table_offset as int,
        8,
    ) + " nsyms="@ + spec_dec(h.num_symbols as int) + " opthdr=0x"@ + spec_hex(
        h.optional_header_size as int,
        4,
    ) + " flags=0x"@ + spec_hex(h.flags as int, 4)
}

/// Formats a file header as one line carrying every field.
pub fn print_filhdr(h: &FileHeader) -> (r: String)
    ensures
        r@ == spec_file_header_line(*h),
{
    let mut s = String::new();
    s.append("magic=0x");
    let t = hex_fixed(h.magic as u32, 4);
    s.append(t.as_str());
    s.append(" nscns=");
    let t = dec_u32(h.num_sections as u32);
    s.append(t.as_str());
    s.append(" timdat=0x");
    let t = hex_fixed(h.timestamp, 8);
    s.append(t.as_str());
    s.append(" symptr=0x");
    let t = hex_fixed(h.symbol_table_offset, 8);
    s.append(t.as_str());
    s.append(" nsyms=");
    let t = dec_u32(h.num_symbols);
    s.append(t.as_str());
    s.append(" opthdr=0x");
    let t = hex_fixed(h.optional_header_size as u32, 4);
    s.append(t.as_str());
    s.append(" flags=0x");
    let t = hex_fixed(h.flags as u32, 4);
    s.append(t.as_str());
    proof {
        assert(s@ =~= spec_file_header_line(*h));
    }
    s
}

/// The text line for a section header.
pub open spec fn spec_section_line(ss: SpecSectionHeader) -> Seq<char> {
    "name="@ + spec_name_render(ss.name) + " paddr=0x"@ + spec_hex(ss.physical_addr as int, 8)
        + " vaddr=0x"@ + spec_hex(ss.virtual_addr as int, 8) + " size="@ + spec_dec(
        ss.size as int,
    ) + " scnptr=0x"@ + spec_hex(ss.data_offset as int, 8) + " relptr=0x"@ + spec_hex(
        ss.relocation_offset as int,
        8,
    ) + " lnnoptr=0x"@ + spec_hex(ss.line_number_offset as int, 8) + " nreloc="@ + spec_dec(
        ss.num_relocations as int,
    ) + " nlnno="@ + spec_dec(ss.num_line_numbers as int) + " flags=0x"@ + spec_hex(
        ss.flags as int,
        8,
    )
}

/// Formats a section header as one line carrying every field.
pub fn print_scnhdr(sec: &SectionHeader) -> (r: String)
    ensures
        r@ == spec_section_line(sec@),
{
    let mut s = String::new();
    s.append("name=");
    let t = name_render(sec.name.as_slice());
    s.append(t.as_str());
    s.append(" paddr=0x");
    let t = hex_fixed(sec.physical_addr, 8);
    s.append(t.as_str());
    s.append(" vaddr=0x");
    let t = hex_fixed(sec.virtual_addr, 8);
    s.append(t.as_str());
    s.append(" size=");
    let t = dec_u32(sec.size);
    s.append(t.as_str());
    s.append(" scnptr=0x");
    let t = hex_fixed(sec.data_offset, 8);
    s.append(t.as_str());
    s.append(" relptr=0x");
    let t = hex_fixed(sec.relocation_offset, 8);
    s.append(t.as_str());
    s.append(" lnnoptr=0x");
    let t = hex_fixed(sec.line_number_offset, 8);
    s.append(t.as_str());
    s.append(" nreloc=");
    let t = dec_u32(sec.num_relocations as u32);
    s.append(t.as_str());
    s.append(" nlnno=");
    let t = dec_u32(sec.num_line_numbers as u32);
    s.append(t.as_str());
    s.append(" flags=0x");
    let t = hex_fixed(sec.flags, 8);
    s.append(t.as_str());
    proof {
        assert(s@ =~= spec_section_line(sec@));
    }
    s
}

/// The text line for a relocation.
pub open spec fn spec_reloc_line(rl: Relocation) -> Seq<char> {
    "vaddr=0x"@ + spec_hex(rl.virtual_addr as int, 8) + " symndx="@ + spec_dec(
        rl.symbol_index as int,
    ) + " offset=0x"@ + spec_hex(rl.offset as int, 8) + " type=0x"@ + spec_hex(
        rl.reloc_type as int,
        4,
    ) + " extra=0x"@ + spec_hex(rl.extra as int, 4)
}

/// Formats a relocation as one line carrying every field.
pub fn print_reloc(rl: &Relocation) -> (r: String)
    ensures
        r@ == spec_reloc_line(*rl),
{
    let mut s = String::new();
    s.append("vaddr=0x");
    let t = hex_fixed(rl.virtual_addr, 8);
    s.append(t.as_str());
    s.append(" symndx=");
    let t = dec_u32(rl.symbol_index);
    s.append(t.as_str());
    s.append(" offset=0x");
    let t = hex_fixed(rl.offset, 8);
    s.append(t.as_str());
    s.append(" type=0x");
    let t = hex_fixed(rl.reloc_type as u32, 4);
    s.append(t.as_str());
    s.append(" extra=0x");
    let t = hex_fixed(rl.extra as u32, 4);
    s.append(t.as_str());
    proof {
        assert(s@ =~= spec_reloc_line(*rl));
    }
    s
}

/// The text line for one relocation of the section displayed as `scnum`
/// (sections are shown 1-based).
pub open spec fn spec_relocinfo_line(scnum: int, rl: Relocation) -> Seq<char> {
    "scnum="@ + spec_dec(scnum) + " "@ + spec_reloc_line(rl)
}

/// Formats every relocation table: one group of lines per section, in
/// section order, each line tagged with its owning section's 1-based
/// number.
pub fn print_relocinfo(relocs: &Vec<Vec<Relocation>>) -> (r: Vec<Vec<String>>)
    requires
        relocs@.len() <= u32::MAX,
    ensures
        r@.len() == relocs@.len(),
        forall|i: int| 0 <= i < r@.len() ==> (#[trigger] r@[i])@.len() == relocs@[i]@.len(),
        forall|i: int, j: int|
            0 <= i < r@.len() && 0 <= j < r@[i]@.len() ==> (#[trigger] r@[i]@[j])@
                == spec_relocinfo_line(i + 1, relocs@[i]@[j]),
{
    let mut r: Vec<Vec<String>> = Vec::new();
    let mut i: usize = 0;
    while i < relocs.len()
        invariant
            relocs@.len() <= u32::MAX,
            i <= relocs@.len(),
            r@.len() == i,
            forall|k: int| 0 <= k < i ==> (#[trigger] r@[k])@.len() == relocs@[k]@.len(),
            forall|k: int, j: int|
                0 <= k < i && 0 <= j < r@[k]@.len() ==> (#[trigger] r@[k]@[j])@
                    == spec_relocinfo_line(k + 1, relocs@[k]@[j]),
        decreases relocs@.len() - i,
    {
        let scnum = (i as u32) + 1;
        let table = &relocs[i];
        let mut lines: Vec<String> = Vec::new();
        let mut j: usize = 0;
        while j < table.len()
            invariant
                i < relocs@.len(),
                table@ == relocs@[i as int]@,
                scnum == i + 1,
                j <= table@.len(),
                lines@.len() == j,
                forall|m: int|
                    0 <= m < j ==> (#[trigger] lines@[m])@ == spec_relocinfo_line(
                        i + 1,
                        table@[m],
                    ),
            decreases table@.len() - j,
        {
            let mut s = String::new();
            s.append("scnum=");
            let t = dec_u32(scnum);
            s.append(t.as_str());
            s.append(" ");
            let t = print_reloc(&table[j]);
            s.append(t.as_str());
            proof {
                assert(s@ =~= spec_relocinfo_line(i + 1, table@[j as int]));
            }
            lines.push(s);
            j += 1;
        }
        r.push(lines);
        i += 1;
    }
    r
}

/// The text line for a symbol name: the name itself, or `@0x` and the
/// string-table offset for a long name.
pub open spec fn spec_symbol_name_render(n: SpecSymbolName) -> Seq<char> {
    match n {
        SpecSymbolName::Literal(bs) => spec_name_render(bs),
        SpecSymbolName::TableOffset(off) => "@0x"@ + spec_hex(off as int, 8),
    }
}

/// The text line for a symbol.
pub open spec fn spec_symbol_line(sym: SpecSymbol) -> Seq<char> {
    "name="@ + spec_symbol_name_render(sym.name) + " value=0x"@ + spec_hex(sym.value as int, 8)
        + " scnum="@ + spec_dec_signed(sym.section_number as int) + " type=0x"@ + spec_hex(
        sym.sym_type as int,
        4,
    ) + " class=0x"@ + spec_hex(sym.storage_class as int, 2) + " numaux=0x"@ + spec_hex(
        sym.num_aux_entries as int,
        2,
    )
}

/// Formats a symbol as one line carrying every field.
pub fn print_sym(sym: &Symbol) -> (r: String)
    ensures
        r@ == spec_symbol_line(sym@),
{
    let mut s = String::new();
    s.append("name=");
    match &sym.name {
        SymbolName::Literal(bytes) => {
            let t = name_render(bytes.as_slice());
            s.append(t.as_str());
        },
        SymbolName::TableOffset(off) => {
            s.append("@0x");
            let t = hex_fixed(*off, 8);
            s.append(t.as_str());
        },
    }
    s.append(" value=0x");
    let t = hex_fixed(sym.value, 8);
    s.append(t.as_str());
    s.append(" scnum=");
    let t = dec_i16(sym.section_number);
    s.append(t.as_str());
    s.append(" type=0x");
    let t = hex_fixed(sym.sym_type as u32, 4);
    s.append(t.as_str());
    s.append(" class=0x");
    let t = hex_fixed(sym.storage_class as u32, 2);
    s.append(t.as_str());
    s.append(" numaux=0x");
    let t = hex_fixed(sym.num_aux_entries as u32, 2);
    s.append(t.as_str());
    proof {
        assert(s@ =~= spec_symbol_line(sym@));
    }
    s
}

/// Formats a symbol table: one line per symbol, in table order.
pub fn print_symtab(syms: &Vec<Symbol>) -> (r: Vec<String>)
    ensures
        r@.len() == syms@.len(),
        forall|i: int| 0 <= i < r@.len() ==> (#[trigger] r@[i])@ == spec_symbol_line(syms@[i]@),
{
    let mut r: Vec<String> = Vec::new();
    let mut i: usize = 0;
    while i < syms.len()
        invariant
            i <= syms@.len(),
            r@.len() == i,
            forall|k: int| 0 <= k < i ==> (#[trigger] r@[k])@ == spec_symbol_line(syms@[k]@),
        decreases syms@.len() - i,
    {
        let line = print_sym(&syms[i]);
        r.push(line);
        i += 1;
    }
    r
}

} // verus!
