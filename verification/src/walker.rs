//! The layout walker: decodes a whole COFF byte source in four phases.
//!
//! Header first; then `num_sections` section headers immediately following
//! it; then, for each section in order, that section's relocation table at
//! its `relocation_offset`; finally the symbol table at the header's
//! `symbol_table_offset`.  Any decode or seek failure is fatal to the run:
//! there is no partial result.
//!
//! `spec_parse` is the mathematical description of the walk, and
//! `parse_coff` is proved to return exactly its result, errors included.

use vstd::arithmetic::div_mod::lemma_fundamental_div_mod_converse;
use vstd::prelude::*;

use crate::codec::decode_file_header;
use crate::codec::decode_relocation;
use crate::codec::decode_section_header;
use crate::codec::decode_symbol;
use crate::codec::spec_decode_file_header;
use crate::codec::spec_decode_relocation;
use crate::codec::spec_decode_section_header;
use crate::codec::spec_decode_symbol;
use crate::cursor::Cursor;
use crate::cursor::CursorError;
use crate::records::FileHeader;
use crate::records::Relocation;
use crate::records::SectionHeader;
use crate::records::SpecSectionHeader;
use crate::records::SpecSymbol;
use crate::records::Symbol;

verus! {

/// The four sequential phases of the walk; errors name the phase they
/// struck in.
#[derive(Clone, Copy, Debug, PartialEq, Eq)]
pub enum Phase {
    Header,
    Sections,
    Relocations,
    Symbols,
}

/// A fatal decoding failure, with the byte-level context needed to
/// diagnose a malformed file.
#[derive(Clone, Copy, Debug, PartialEq, Eq)]
pub enum DecodeError {
    /// A record at `offset` needed `expected` bytes but only `available`
    /// remained.
    Truncated { phase: Phase, offset: u64, expected: u64, available: u64 },
    /// A table offset pointed past the end of the source of length
    /// `length`.
    OutOfRange { phase: Phase, offset: u64, length: u64 },
}

/// The cursor's error, tagged with the phase it struck in.
pub open spec fn spec_tag_error(e: CursorError, phase: Phase) -> DecodeError {
    match e {
        CursorError::Truncated { offset, expected, available } => DecodeError::Truncated {
            phase,
            offset,
            expected,
            available,
        },
        CursorError::OutOfRange { offset, length } => DecodeError::OutOfRange {
            phase,
            offset,
            length,
        },
    }
}

fn tag_error(e: CursorError, phase: Phase) -> (r: DecodeError)
    ensures
        r == spec_tag_error(e, phase),
{
    match e {
        CursorError::Truncated { offset, expected, available } => DecodeError::Truncated {
            phase,
            offset,
            expected,
            available,
        },
        CursorError::OutOfRange { offset, length } => DecodeError::OutOfRange {
            phase,
            offset,
            length,
        },
    }
}

/// The error for a run of `width`-byte records starting at `start` that
/// runs past the end of a `len`-byte source: the first record that does not
/// fit whole is the one reported.
pub open spec fn spec_trunc_error(phase: Phase, start: int, width: int, len: int) -> DecodeError
    recommends
        0 < width,
        0 <= start <= len,
{
    let k = (len - start) / width;
    DecodeError::Truncated {
        phase,
        offset: (start + width * k) as u64,
        expected: width as u64,
        available: (len - (start + width * k)) as u64,
    }
}

/// Everything one run decodes: the model of a whole file.
#[verifier::ext_equal]
pub ghost struct SpecCoff {
    pub header: FileHeader,
    pub sections: Seq<SpecSectionHeader>,
    /// One table per section, in section order.
    pub relocations: Seq<Seq<Relocation>>,
    pub symbols: Seq<SpecSymbol>,
}

/// The `n` section headers that immediately follow the file header.
pub open spec fn spec_section_table(b: Seq<u8>, n: int) -> Seq<SpecSectionHeader> {
    Seq::new(n as nat, |i: int| spec_decode_section_header(b, 20 + 40 * i))
}

/// The `n` relocation records starting at offset `off`.
pub open spec fn spec_relocation_table(b: Seq<u8>, off: int, n: int) -> Seq<Relocation> {
    Seq::new(n as nat, |j: int| spec_decode_relocation(b, off + 16 * j))
}

/// The `n` symbol records starting at offset `sp`.
pub open spec fn spec_symbol_table(b: Seq<u8>, sp: int, n: int) -> Seq<SpecSymbol> {
    Seq::new(n as nat, |i: int| spec_decode_symbol(b, sp + 18 * i))
}

/// One section's relocation table, located purely by the section's own
/// `relocation_offset`.  A section with no relocations contributes an empty
/// table and no seek, so its offset is never examined.
pub open spec fn spec_parse_one_reloc_table(b: Seq<u8>, s: SpecSectionHeader) -> Result<
    Seq<Relocation>,
    DecodeError,
> {
    let off = s.relocation_offset as int;
    let n = s.num_relocations as int;
    if n == 0 {
        Ok(Seq::empty())
    } else if off > b.len() {
        Err(
            DecodeError::OutOfRange {
                phase: Phase::Relocations,
                offset: s.relocation_offset as u64,
                length: b.len() as u64,
            },
        )
    } else if b.len() < off + 16 * n {
        Err(spec_trunc_error(Phase::Relocations, off, 16, b.len() as int))
    } else {
        Ok(spec_relocation_table(b, off, n))
    }
}

/// The relocation tables of the first `i` sections, in section order,
/// stopping at the first failure.
pub open spec fn spec_reloc_tables_prefix(
    b: Seq<u8>,
    secs: Seq<SpecSectionHeader>,
    i: int,
) -> Result<Seq<Seq<Relocation>>, DecodeError>
    recommends
        0 <= i <= secs.len(),
    decreases i,
{
    if i <= 0 {
        Ok(Seq::empty())
    } else {
        match spec_reloc_tables_prefix(b, secs, i - 1) {
            Err(e) => Err(e),
            Ok(ts) => match spec_parse_one_reloc_table(b, secs[i - 1]) {
                Err(e) => Err(e),
                Ok(t) => Ok(ts.push(t)),
            },
        }
    }
}

/// The whole walk over a byte source: the four phases in order, each
/// entered only once its predecessor has completed.
pub open spec fn spec_parse(b: Seq<u8>) -> Result<SpecCoff, DecodeError> {
    if b.len() < 20 {
        Err(spec_trunc_error(Phase::Header, 0, 20, b.len() as int))
    } else {
        let h = spec_decode_file_header(b, 0);
        let nsec = h.num_sections as int;
        if b.len() < 20 + 40 * nsec {
            Err(spec_trunc_error(Phase::Sections, 20, 40, b.len() as int))
        } else {
            let secs = spec_section_table(b, nsec);
            match spec_reloc_tables_prefix(b, secs, nsec) {
                Err(e) => Err(e),
                Ok(tables) => {
                    let sp = h.symbol_table_offset as int;
                    let nsym = h.num_symbols as int;
                    if sp > b.len() {
                        Err(
                            DecodeError::OutOfRange {
                                phase: Phase::Symbols,
                                offset: h.symbol_table_offset as u64,
                                length: b.len() as u64,
                            },
                        )
                    } else if b.len() < sp + 18 * nsym {
                        Err(spec_trunc_error(Phase::Symbols, sp, 18, b.len() as int))
                    } else {
                        Ok(
                            SpecCoff {
                                header: h,
                                sections: secs,
                                relocations: tables,
                                symbols: spec_symbol_table(b, sp, nsym),
                            },
                        )
                    }
                },
            }
        }
    }
}

/// Everything one run decodes.
#[derive(Clone, Debug, PartialEq, Eq)]
pub struct CoffFile {
    pub header: FileHeader,
    pub sections: Vec<SectionHeader>,
    /// One table per section, in section order.
    pub relocations: Vec<Vec<Relocation>>,
    pub symbols: Vec<Symbol>,
}

/// The models of a sequence of relocation tables.
pub open spec fn spec_tables_view(ts: Seq<Vec<Relocation>>) -> Seq<Seq<Relocation>> {
    Seq::new(ts.len(), |i: int| ts[i]@)
}

impl View for CoffFile {
    type V = SpecCoff;

    open spec fn view(&self) -> SpecCoff {
        SpecCoff {
            header: self.header,
            sections: Seq::new(self.sections@.len(), |i: int| self.sections@[i]@),
            relocations: spec_tables_view(self.relocations@),
            symbols: Seq::new(self.symbols@.len(), |i: int| self.symbols@[i]@),
        }
    }
}

/// Once a section's table has failed, the whole prefix up to any later
/// point fails with that same error.
proof fn lemma_reloc_tables_prefix_err(b: Seq<u8>, secs: Seq<SpecSectionHeader>, i: int, m: int)
    requires
        0 <= i < m <= secs.len(),
        spec_reloc_tables_prefix(b, secs, i) is Ok,
        spec_parse_one_reloc_table(b, secs[i]) is Err,
    ensures
        spec_reloc_tables_prefix(b, secs, m) == Err::<Seq<Seq<Relocation>>, DecodeError>(
            spec_parse_one_reloc_table(b, secs[i])->Err_0,
        ),
    decreases m,
{
    if m == i + 1 {
    } else {
        lemma_reloc_tables_prefix_err(b, secs, i, m - 1);
    }
}

/// Parses a whole COFF byte source, returning exactly what `spec_parse`
/// says: on success every decoded record, and on failure the first error
/// the four-phase walk meets.  The decoded collections agree with the
/// counts that drove them: as many section headers as the file header's
/// `num_sections`, one relocation table per section with that section's
/// `num_relocations` records, and as many symbols as `num_symbols`.
#[verifier::loop_isolation(false)]
pub fn parse_coff(data: &[u8]) -> (r: Result<CoffFile, DecodeError>)
    ensures
        (match r {
            Ok(f) => spec_parse(data@) == Ok::<SpecCoff, DecodeError>(f@),
            Err(e) => spec_parse(data@) == Err::<SpecCoff, DecodeError>(e),
        }),
        r matches Ok(f) ==> {
            &&& f@.header == spec_decode_file_header(data@, 0)
            &&& f@.sections.len() == f@.header.num_sections as int
            &&& f@.relocations.len() == f@.sections.len()
            &&& forall|i: int|
                0 <= i < f@.sections.len() ==> #[trigger] f@.relocations[i].len()
                    == f@.sections[i].num_relocations as int
            &&& f@.symbols.len() == f@.header.num_symbols as int
            &&& forall|i: int| 0 <= i < f@.sections.len() ==> (#[trigger] f@.sections[i]).wf()
            &&& forall|i: int| 0 <= i < f@.symbols.len() ==> (#[trigger] f@.symbols[i]).wf()
        },
{
    let ghost b = data@;
    let mut cursor = Cursor::new(data);

    // Phase one: the file header, at the very start.
    let header = match decode_file_header(&mut cursor) {
        Ok(h) => h,
        Err(e) => {
            proof {
                lemma_fundamental_div_mod_converse(b.len() as int, 20, 0, b.len() as int);
            }
            return Err(tag_error(e, Phase::Header));
        },
    };

    // Phase two: `num_sections` section headers, contiguous after the
    // header.
    let n_sections = header.num_sections as usize;
    let ghost secs = spec_section_table(b, header.num_sections as int);
    let mut sections: Vec<SectionHeader> = Vec::new();
    let mut i: usize = 0;
    while i < n_sections
        invariant
            cursor.wf(),
            cursor.bytes() == b,
            b == data@,
            header == spec_decode_file_header(b, 0),
            n_sections == header.num_sections,
            secs == spec_section_table(b, header.num_sections as int),
            i <= n_sections,
            cursor.position() == 20 + 40 * i,
            sections@.len() == i,
            forall|k: int| 0 <= k < i ==> (#[trigger] sections@[k])@ == secs[k],
        decreases n_sections - i,
    {
        match decode_section_header(&mut cursor) {
            Ok(s) => {
                sections.push(s);
            },
            Err(e) => {
                proof {
                    assert(b.len() < 20 + 40 * (i + 1));
                    assert(b.len() < 20 + 40 * (header.num_sections as int)) by (nonlinear_arith)
                        requires
                            b.len() < 20 + 40 * (i + 1),
                            i < header.num_sections as int,
                    ;
                    lemma_fundamental_div_mod_converse(
                        b.len() - 20,
                        40,
                        i as int,
                        b.len() - (20 + 40 * i),
                    );
                }
                return Err(tag_error(e, Phase::Sections));
            },
        }
        i += 1;
    }
    proof {
        assert(b.len() >= 20 + 40 * (header.num_sections as int));
        assert(Seq::new(sections@.len(), |k: int| sections@[k]@) =~= secs);
    }

    // Phase three: each section's relocation table, located by that
    // section's own offset.
    let mut relocations: Vec<Vec<Relocation>> = Vec::new();
    proof {
        assert(spec_tables_view(relocations@) =~= Seq::<Seq<Relocation>>::empty());
    }
    let mut i: usize = 0;
    while i < n_sections
        invariant
            cursor.wf(),
            cursor.bytes() == b,
            b == data@,
            header == spec_decode_file_header(b, 0),
            n_sections == header.num_sections,
            secs == spec_section_table(b, header.num_sections as int),
            b.len() >= 20 + 40 * (header.num_sections as int),
            sections@.len() == n_sections,
            forall|k: int| 0 <= k < n_sections ==> (#[trigger] sections@[k])@ == secs[k],
            i <= n_sections,
            relocations@.len() == i,
            forall|k: int|
                0 <= k < i ==> (#[trigger] relocations@[k])@.len() == secs[k].num_relocations as int,
            spec_reloc_tables_prefix(b, secs, i as int) == Ok::<Seq<Seq<Relocation>>, DecodeError>(
                spec_tables_view(relocations@),
            ),
        decreases n_sections - i,
    {
        let relocation_offset = sections[i].relocation_offset;
        let n_relocs = sections[i].num_relocations as usize;
        let ghost prev = spec_tables_view(relocations@);
        let mut table: Vec<Relocation> = Vec::new();
        if n_relocs > 0 {
            match cursor.seek_absolute(relocation_offset) {
                Ok(_) => {},
                Err(e) => {
                    proof {
                        assert(spec_parse_one_reloc_table(b, secs[i as int]) == Err::<
                            Seq<Relocation>,
                            DecodeError,
                        >(spec_tag_error(e, Phase::Relocations)));
                        lemma_reloc_tables_prefix_err(b, secs, i as int, secs.len() as int);
                    }
                    return Err(tag_error(e, Phase::Relocations));
                },
            }
            let mut j: usize = 0;
            while j < n_relocs
                invariant
                    cursor.wf(),
                    cursor.bytes() == b,
                    b == data@,
                    secs == spec_section_table(b, header.num_sections as int),
                    i < secs.len(),
                    secs[i as int].relocation_offset == relocation_offset,
                    secs[i as int].num_relocations == n_relocs,
                    n_relocs > 0,
                    relocation_offset as int <= b.len(),
                    j <= n_relocs,
                    cursor.position() == relocation_offset + 16 * j,
                    table@.len() == j,
                    forall|k: int|
                        0 <= k < j ==> #[trigger] table@[k] == spec_decode_relocation(
                            b,
                            relocation_offset + 16 * k,
                        ),
                decreases n_relocs - j,
            {
                match decode_relocation(&mut cursor) {
                    Ok(rl) => {
                        table.push(rl);
                    },
                    Err(e) => {
                        proof {
                            assert(b.len() < relocation_offset + 16 * (j + 1));
                            assert(b.len() < relocation_offset + 16 * (n_relocs as int))
                                by (nonlinear_arith)
                                requires
                                    b.len() < relocation_offset + 16 * (j + 1),
                                    j < n_relocs as int,
                            ;
                            lemma_fundamental_div_mod_converse(
                                b.len() - relocation_offset,
                                16,
                                j as int,
                                b.len() - (relocation_offset + 16 * j),
                            );
                            assert(spec_parse_one_reloc_table(b, secs[i as int])
                                == Err::<Seq<Relocation>, DecodeError>(
                                spec_tag_error(e, Phase::Relocations),
                            ));
                            lemma_reloc_tables_prefix_err(b, secs, i as int, secs.len() as int);
                        }
                        return Err(tag_error(e, Phase::Relocations));
                    },
                }
                j += 1;
            }
            proof {
                assert(table@ =~= spec_relocation_table(
                    b,
                    relocation_offset as int,
                    n_relocs as int,
                ));
            }
        }
        proof {
            assert(spec_parse_one_reloc_table(b, secs[i as int]) == Ok::<
                Seq<Relocation>,
                DecodeError,
            >(table@));
        }
        relocations.push(table);
        proof {
            assert(spec_tables_view(relocations@) =~= prev.push(table@));
        }
        i += 1;
    }

    // Phase four: the symbol table, at the header's offset.
    match cursor.seek_absolute(header.symbol_table_offset) {
        Ok(_) => {},
        Err(e) => {
            return Err(tag_error(e, Phase::Symbols));
        },
    }
    let n_symbols = header.num_symbols as usize;
    let ghost sp = header.symbol_table_offset as int;
    let mut symbols: Vec<Symbol> = Vec::new();
    let mut i: usize = 0;
    while i < n_symbols
        invariant
            cursor.wf(),
            cursor.bytes() == b,
            b == data@,
            n_symbols == spec_decode_file_header(b, 0).num_symbols,
            sp == spec_decode_file_header(b, 0).symbol_table_offset as int,
            sp <= b.len(),
            i <= n_symbols,
            cursor.position() == sp + 18 * i,
            symbols@.len() == i,
            forall|k: int|
                0 <= k < i ==> (#[trigger] symbols@[k])@ == spec_decode_symbol(b, sp + 18 * k),
        decreases n_symbols - i,
    {
        match decode_symbol(&mut cursor) {
            Ok(s) => {
                symbols.push(s);
            },
            Err(e) => {
                proof {
                    assert(b.len() < sp + 18 * (i + 1));
                    assert(b.len() < sp + 18 * (n_symbols as int)) by (nonlinear_arith)
                        requires
                            b.len() < sp + 18 * (i + 1),
                            i < n_symbols as int,
                    ;
                    lemma_fundamental_div_mod_converse(
                        b.len() - sp,
                        18,
                        i as int,
                        b.len() - (sp + 18 * i),
                    );
                }
                return Err(tag_error(e, Phase::Symbols));
            },
        }
        i += 1;
    }

    let file = CoffFile { header, sections, relocations, symbols };
    proof {
        assert(file@.sections =~= secs);
        assert(file@.symbols =~= spec_symbol_table(
            b,
            sp,
            spec_decode_file_header(b, 0).num_symbols as int,
        ));
        assert(file@ =~= spec_parse(b)->Ok_0);
    }
    Ok(file)
}

// ---------------------------------------------------------------------------
// Laws of the walk.
// ---------------------------------------------------------------------------
/// Each section that has relocations keeps its whole table inside the
/// source.
pub open spec fn spec_reloc_tables_in_bounds(b: Seq<u8>, secs: Seq<SpecSectionHeader>) -> bool {
    forall|i: int|
        0 <= i < secs.len() ==> ((#[trigger] secs[i]).num_relocations > 0
            ==> secs[i].relocation_offset + 16 * (secs[i].num_relocations as int) <= b.len())
}

/// Every region the walk reads lies whole within the byte source: the
/// header, the section table, each relocation table, and the symbol table.
pub open spec fn spec_file_in_bounds(b: Seq<u8>) -> bool {
    &&& b.len() >= 20
    &&& {
        let h = spec_decode_file_header(b, 0);
        &&& b.len() >= 20 + 40 * (h.num_sections as int)
        &&& spec_reloc_tables_in_bounds(b, spec_section_table(b, h.num_sections as int))
        &&& h.symbol_table_offset as int <= b.len()
        &&& b.len() >= h.symbol_table_offset + 18 * (h.num_symbols as int)
    }
}

proof fn lemma_reloc_tables_prefix_ok(b: Seq<u8>, secs: Seq<SpecSectionHeader>, i: int)
    requires
        0 <= i <= secs.len(),
    ensures
        spec_reloc_tables_prefix(b, secs, i) is Ok <==> (forall|k: int|
            0 <= k < i ==> (#[trigger] spec_parse_one_reloc_table(b, secs[k])) is Ok),
    decreases i,
{
    if i > 0 {
        lemma_reloc_tables_prefix_ok(b, secs, i - 1);
    }
}

/// Truncation is always detected: the walk succeeds exactly when every
/// region it reads lies whole within the source, so a file truncated
/// anywhere in any record fails.
pub proof fn lemma_parse_ok_iff_in_bounds(b: Seq<u8>)
    ensures
        spec_parse(b) is Ok <==> spec_file_in_bounds(b),
{
    if b.len() >= 20 {
        let h = spec_decode_file_header(b, 0);
        if b.len() >= 20 + 40 * (h.num_sections as int) {
            let secs = spec_section_table(b, h.num_sections as int);
            lemma_reloc_tables_prefix_ok(b, secs, secs.len() as int);
            if spec_reloc_tables_prefix(b, secs, secs.len() as int) is Ok {
                assert forall|k: int|
                    0 <= k < secs.len() implies ((#[trigger] secs[k]).num_relocations > 0
                    ==> secs[k].relocation_offset + 16 * (secs[k].num_relocations as int)
                        <= b.len()) by {
                    assert(spec_parse_one_reloc_table(b, secs[k]) is Ok);
                }
                assert(spec_reloc_tables_in_bounds(b, secs));
            } else {
                let k = choose|k: int|
                    0 <= k < secs.len() && !((#[trigger] spec_parse_one_reloc_table(
                        b,
                        secs[k],
                    )) is Ok);
                assert(secs[k].num_relocations > 0 && secs[k].relocation_offset + 16 * (
                secs[k].num_relocations as int) > b.len());
                assert(!spec_reloc_tables_in_bounds(b, secs));
                assert(spec_parse(b) is Err);
            }
        }
    }
}

/// Offset independence, for one table: a section's relocation table is a
/// function of the section header and of the bytes in the window the table
/// occupies alone, wherever in the source that window lies.
pub proof fn lemma_reloc_table_offset_independence(
    b1: Seq<u8>,
    b2: Seq<u8>,
    s: SpecSectionHeader,
)
    requires
        b1.len() == b2.len(),
        s.num_relocations > 0 && s.relocation_offset + 16 * (s.num_relocations as int) <= b1.len()
            ==> b1.subrange(
            s.relocation_offset as int,
            s.relocation_offset + 16 * (s.num_relocations as int),
        ) == b2.subrange(
            s.relocation_offset as int,
            s.relocation_offset + 16 * (s.num_relocations as int),
        ),
    ensures
        spec_parse_one_reloc_table(b1, s) == spec_parse_one_reloc_table(b2, s),
{
    let off = s.relocation_offset as int;
    let n = s.num_relocations as int;
    if n > 0 && off + 16 * n <= b1.len() {
        let w1 = b1.subrange(off, off + 16 * n);
        let w2 = b2.subrange(off, off + 16 * n);
        assert forall|x: int| off <= x < off + 16 * n implies b1[x] == b2[x] by {
            assert(b1[x] == w1[x - off]);
            assert(b2[x] == w2[x - off]);
        }
        assert forall|j: int| 0 <= j < n implies #[trigger] spec_decode_relocation(b1, off + 16 * j)
            == spec_decode_relocation(b2, off + 16 * j) by {
            assert(off + 16 * j + 16 <= off + 16 * n) by (nonlinear_arith)
                requires
                    j < n,
            ;
        }
        assert(spec_relocation_table(b1, off, n) =~= spec_relocation_table(b2, off, n));
    }
}

/// Offset independence, for every table at once: two equally long sources
/// that agree on each section's relocation window give every section the
/// same table.
pub proof fn lemma_reloc_tables_offset_independence(
    b1: Seq<u8>,
    b2: Seq<u8>,
    secs: Seq<SpecSectionHeader>,
    i: int,
)
    requires
        0 <= i <= secs.len(),
        b1.len() == b2.len(),
        forall|k: int|
            0 <= k < secs.len() ==> ((#[trigger] secs[k]).num_relocations > 0
                && secs[k].relocation_offset + 16 * (secs[k].num_relocations as int) <= b1.len()
                ==> b1.subrange(
                secs[k].relocation_offset as int,
                secs[k].relocation_offset + 16 * (secs[k].num_relocations as int),
            ) == b2.subrange(
                secs[k].relocation_offset as int,
                secs[k].relocation_offset + 16 * (secs[k].num_relocations as int),
            )),
    ensures
        spec_reloc_tables_prefix(b1, secs, i) == spec_reloc_tables_prefix(b2, secs, i),
    decreases i,
{
    if i > 0 {
        lemma_reloc_tables_offset_independence(b1, b2, secs, i - 1);
        lemma_reloc_table_offset_independence(b1, b2, secs[i - 1]);
    }
}

/// The regions the walk reads agree between two equally long sources: the
/// header, the section table, each section's relocation window, and the
/// symbol-table window.  Regions the walk never reads (section data, and
/// any table that lies out of bounds) are left free to differ.
pub open spec fn spec_same_read_regions(b1: Seq<u8>, b2: Seq<u8>) -> bool {
    &&& b1.len() == b2.len()
    &&& (b1.len() >= 20 ==> b1.subrange(0, 20) == b2.subrange(0, 20))
    &&& (b1.len() >= 20 ==> {
        let h = spec_decode_file_header(b1, 0);
        let nsec = h.num_sections as int;
        let sp = h.symbol_table_offset as int;
        let nsym = h.num_symbols as int;
        &&& (b1.len() >= 20 + 40 * nsec ==> {
            let secs = spec_section_table(b1, nsec);
            &&& b1.subrange(20, 20 + 40 * nsec) == b2.subrange(20, 20 + 40 * nsec)
            &&& (forall|k: int|
                0 <= k < nsec ==> ((#[trigger] secs[k]).num_relocations > 0
                    && secs[k].relocation_offset + 16 * (secs[k].num_relocations as int)
                        <= b1.len() ==> b1.subrange(
                    secs[k].relocation_offset as int,
                    secs[k].relocation_offset + 16 * (secs[k].num_relocations as int),
                ) == b2.subrange(
                    secs[k].relocation_offset as int,
                    secs[k].relocation_offset + 16 * (secs[k].num_relocations as int),
                )))
        })
        &&& (b1.len() >= sp + 18 * nsym ==> b1.subrange(sp, sp + 18 * nsym) == b2.subrange(
            sp,
            sp + 18 * nsym,
        ))
    })
}

/// Offset independence for the whole walk: two sources of the same length
/// that agree on the regions the walk reads decode identically, record for
/// record and error for error, however the tables are placed and whatever
/// the bytes between them hold.
pub proof fn lemma_parse_offset_independence(b1: Seq<u8>, b2: Seq<u8>)
    requires
        spec_same_read_regions(b1, b2),
    ensures
        spec_parse(b1) == spec_parse(b2),
{
    if b1.len() >= 20 {
        let w1 = b1.subrange(0, 20);
        let w2 = b2.subrange(0, 20);
        assert forall|x: int| 0 <= x < 20 implies b1[x] == b2[x] by {
            assert(b1[x] == w1[x]);
            assert(b2[x] == w2[x]);
        }
        let h = spec_decode_file_header(b1, 0);
        assert(spec_decode_file_header(b2, 0) == h);
        let nsec = h.num_sections as int;
        if b1.len() >= 20 + 40 * nsec {
            let s1 = b1.subrange(20, 20 + 40 * nsec);
            let s2 = b2.subrange(20, 20 + 40 * nsec);
            assert forall|x: int| 20 <= x < 20 + 40 * nsec implies b1[x] == b2[x] by {
                assert(b1[x] == s1[x - 20]);
                assert(b2[x] == s2[x - 20]);
            }
            assert forall|i: int| 0 <= i < nsec implies #[trigger] spec_decode_section_header(
                b1,
                20 + 40 * i,
            ) == spec_decode_section_header(b2, 20 + 40 * i) by {
                let off = 20 + 40 * i;
                assert(20 + 40 * i + 40 <= 20 + 40 * nsec) by (nonlinear_arith)
                    requires
                        i < nsec,
                ;
                assert(b1.subrange(off, off + 8) =~= b2.subrange(off, off + 8));
                assert(spec_decode_section_header(b1, off) =~= spec_decode_section_header(
                    b2,
                    off,
                ));
            }
            let secs = spec_section_table(b1, nsec);
            assert(spec_section_table(b2, nsec) =~= secs);
            lemma_reloc_tables_offset_independence(b1, b2, secs, nsec);
            if spec_reloc_tables_prefix(b1, secs, nsec) is Ok {
                let sp = h.symbol_table_offset as int;
                let nsym = h.num_symbols as int;
                if sp <= b1.len() && b1.len() >= sp + 18 * nsym {
                    let y1 = b1.subrange(sp, sp + 18 * nsym);
                    let y2 = b2.subrange(sp, sp + 18 * nsym);
                    assert forall|x: int| sp <= x < sp + 18 * nsym implies b1[x] == b2[x] by {
                        assert(b1[x] == y1[x - sp]);
                        assert(b2[x] == y2[x - sp]);
                    }
                    assert forall|i: int| 0 <= i < nsym implies #[trigger] spec_decode_symbol(
                        b1,
                        sp + 18 * i,
                    ) == spec_decode_symbol(b2, sp + 18 * i) by {
                        let off = sp + 18 * i;
                        assert(18 * i + 18 <= 18 * nsym) by (nonlinear_arith)
                            requires
                                i < nsym,
                        ;
                        assert(b1.subrange(off, off + 8) =~= b2.subrange(off, off + 8));
                        assert(spec_decode_symbol(b1, off) =~= spec_decode_symbol(b2, off));
                    }
                    assert(spec_symbol_table(b1, sp, nsym) =~= spec_symbol_table(b2, sp, nsym));
                    assert(spec_parse(b1)->Ok_0 =~= spec_parse(b2)->Ok_0);
                }
            }
        }
    }
}

} // verus!
