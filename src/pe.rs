//! PE (Portable Executable) decoding: DOS and NT headers, the section table,
//! the import descriptors with their thunks, and the export directory.
use vstd::prelude::*;

use crate::detector::starts_mz;
use crate::error::ParseError;
use crate::reader::{
    fits, latin1, latin1_string, read_cbytes_in, read_u16_at, read_u32_at, read_u64_at,
    spec_cbytes_in, u16_at, u32_at, u64_at, Endian,
};
use crate::rva::{rva_to_file_offset, spec_resolve};

verus! {

/// PE fields are little-endian.
pub open spec fn le() -> Endian {
    Endian::Little
}

/// The fields of the DOS and NT headers that the decoder reports.
#[derive(Debug, Clone, Copy, PartialEq, Eq, Structural)]
pub struct PeHeader {
    pub e_lfanew: u32,
    pub machine: u16,
    pub num_sections: u16,
    pub timestamp: u32,
    pub opt_header_size: u16,
    pub entry_point_rva: u32,
}

/// Offset of the NT-header offset field in the DOS header.
pub open spec fn lfanew_field() -> int {
    0x3C
}

/// Bytes of the NT header that are read, from its signature on.
pub open spec fn nt_span() -> int {
    44
}

/// The DOS and NT headers of `d`.
pub open spec fn spec_pe_header(d: Seq<u8>) -> Result<PeHeader, ParseError> {
    if !starts_mz(d) {
        Err(ParseError::InvalidSignature)
    } else if !fits(d, lfanew_field(), 4) {
        Err(ParseError::TruncatedHeader)
    } else {
        let lf = u32_at(d, lfanew_field(), le()) as int;
        if !fits(d, lf, 2) {
            Err(ParseError::TruncatedHeader)
        } else if d[lf] != 0x50 || d[lf + 1] != 0x45 {
            Err(ParseError::InvalidSignature)
        } else if !fits(d, lf, nt_span()) {
            Err(ParseError::TruncatedHeader)
        } else {
            Ok(PeHeader {
                e_lfanew: lf as u32,
                machine: u16_at(d, lf + 4, le()),
                num_sections: u16_at(d, lf + 6, le()),
                timestamp: u32_at(d, lf + 8, le()),
                opt_header_size: u16_at(d, lf + 20, le()),
                entry_point_rva: u32_at(d, lf + 40, le()),
            })
        }
    }
}

/// Reads the DOS and NT headers: the `MZ` and `PE` signatures must be there
/// and the header fields inside `data`.
pub fn parse_pe_header(data: &[u8]) -> (r: Result<PeHeader, ParseError>)
    ensures
        r == spec_pe_header(data@),
{
    let e = Endian::Little;
    if !(data.len() >= 2 && data[0] == 0x4D && data[1] == 0x5A) {
        return Err(ParseError::InvalidSignature);
    }
    let lf = match read_u32_at(data, 0x3C, e) {
        Ok(v) => v,
        Err(_) => return Err(ParseError::TruncatedHeader),
    };
    let n = data.len() as u64;
    let lo = lf as u64;
    if lo > n || n - lo < 2 {
        return Err(ParseError::TruncatedHeader);
    }
    if data[lf as usize] != 0x50 || data[lf as usize + 1] != 0x45 {
        return Err(ParseError::InvalidSignature);
    }
    if n - lo < 44 {
        return Err(ParseError::TruncatedHeader);
    }
    Ok(PeHeader {
        e_lfanew: lf,
        machine: read_u16_at(data, lo + 4, e)?,
        num_sections: read_u16_at(data, lo + 6, e)?,
        timestamp: read_u32_at(data, lo + 8, e)?,
        opt_header_size: read_u16_at(data, lo + 20, e)?,
        entry_point_rva: read_u32_at(data, lo + 40, e)?,
    })
}

/// The address fields of one section table entry.
#[derive(Debug, Clone, Copy, PartialEq, Eq, Structural)]
pub struct PeSectionHeader {
    pub virtual_size: u32,
    pub virtual_address: u32,
    pub raw_size: u32,
    pub raw_offset: u32,
}

/// One decoded section: its name and its addresses.
pub struct PeSection {
    pub name: String,
    pub header: PeSectionHeader,
}

/// File offset of the section table.
pub open spec fn section_table(h: PeHeader) -> int {
    h.e_lfanew + 24 + h.opt_header_size
}

pub open spec fn pe_section_base(h: PeHeader, i: int) -> int {
    section_table(h) + 40 * i
}

pub open spec fn decode_pe_section(d: Seq<u8>, b: int) -> PeSectionHeader {
    PeSectionHeader {
        virtual_size: u32_at(d, b + 8, le()),
        virtual_address: u32_at(d, b + 12, le()),
        raw_size: u32_at(d, b + 16, le()),
        raw_offset: u32_at(d, b + 20, le()),
    }
}

/// `b` without its trailing NUL bytes.
pub open spec fn trim_nul(b: Seq<u8>) -> Seq<u8>
    decreases b.len(),
{
    if b.len() > 0 && b.last() == 0 {
        trim_nul(b.drop_last())
    } else {
        b
    }
}

/// The eight-byte name field at `b`, without its NUL padding.
pub open spec fn pe_section_name(d: Seq<u8>, b: int) -> Seq<u8> {
    trim_nul(d.subrange(b, b + 8))
}

/// The section headers and names of `d`, or `OutOfBounds` where one of the
/// 40-byte entries does not lie inside `d`.
pub open spec fn spec_pe_sections(d: Seq<u8>, h: PeHeader) -> Result<
    (Seq<PeSectionHeader>, Seq<Seq<u8>>),
    ParseError,
> {
    if exists|i: int| 0 <= i < h.num_sections && !fits(d, pe_section_base(h, i), 40) {
        Err(ParseError::OutOfBounds)
    } else {
        Ok(
            (
                Seq::new(h.num_sections as nat, |i: int| decode_pe_section(d, pe_section_base(h, i))),
                Seq::new(h.num_sections as nat, |i: int| pe_section_name(d, pe_section_base(h, i))),
            ),
        )
    }
}

fn read_section_name(data: &[u8], b: usize) -> (r: Vec<u8>)
    requires
        b + 8 <= data.len(),
    ensures
        r@ == pe_section_name(data@, b as int),
{
    let mut end: usize = b + 8;
    while end > b && data[end - 1] == 0
        invariant
            b <= end <= b + 8,
            b + 8 <= data.len(),
            trim_nul(data@.subrange(b as int, end as int)) == pe_section_name(data@, b as int),
        decreases end - b,
    {
        assert(data@.subrange(b as int, end - 1) =~= data@.subrange(b as int, end as int).drop_last());
        end = end - 1;
    }
    let mut out: Vec<u8> = Vec::new();
    let mut i: usize = b;
    while i < end
        invariant
            b <= i <= end <= b + 8,
            b + 8 <= data.len(),
            out@ == data@.subrange(b as int, i as int),
        decreases end - i,
    {
        out.push(data[i]);
        i = i + 1;
        assert(out@ =~= data@.subrange(b as int, i as int));
    }
    out
}

/// Reads the section table that `h` locates.
pub fn parse_pe_sections(data: &[u8], h: PeHeader) -> (r: Result<Vec<PeSection>, ParseError>)
    ensures
        match r {
            Ok(v) => spec_pe_sections(data@, h) is Ok && v@.len() == h.num_sections && forall|i: int|
                0 <= i < v@.len() ==> (#[trigger] v@[i]).header == spec_pe_sections(
                    data@,
                    h,
                )->Ok_0.0[i] && v@[i].name@ == latin1(spec_pe_sections(data@, h)->Ok_0.1[i]),
            Err(e) => spec_pe_sections(data@, h) == Err::<
                (Seq<PeSectionHeader>, Seq<Seq<u8>>),
                ParseError,
            >(e),
        },
{
    let n = data.len() as u64;
    let e = Endian::Little;
    let table = h.e_lfanew as u64 + 24 + h.opt_header_size as u64;
    let mut out: Vec<PeSection> = Vec::new();
    let mut i: u16 = 0;
    while i < h.num_sections
        invariant
            i <= h.num_sections,
            n == data@.len(),
            table == section_table(h),
            e == le(),
            out@.len() == i,
            forall|j: int| 0 <= j < i ==> fits(data@, #[trigger] pe_section_base(h, j), 40),
            forall|j: int|
                0 <= j < i ==> (#[trigger] out@[j]).header == decode_pe_section(
                    data@,
                    pe_section_base(h, j),
                ) && out@[j].name@ == latin1(pe_section_name(data@, pe_section_base(h, j))),
        decreases h.num_sections - i,
    {
        let step = 40 * (i as u64);
        if table > n || step > n - table || 40 > n - table - step {
            assert(!fits(data@, pe_section_base(h, i as int), 40));
            return Err(ParseError::OutOfBounds);
        }
        let b = table + step;
        assert(b == pe_section_base(h, i as int));
        assert(b <= data.len());
        let name = read_section_name(data, b as usize);
        let sec = PeSectionHeader {
            virtual_size: read_u32_at(data, b + 8, e)?,
            virtual_address: read_u32_at(data, b + 12, e)?,
            raw_size: read_u32_at(data, b + 16, e)?,
            raw_offset: read_u32_at(data, b + 20, e)?,
        };
        let sec_name = latin1_string(&name);
        out.push(PeSection { name: sec_name, header: sec });
        i = i + 1;
    }
    Ok(out)
}

} // verus!

verus! {

/// The address fields of each section, as (virtual address, raw data offset,
/// raw size), the form the RVA resolver takes.
pub open spec fn tuples_of(secs: Seq<PeSectionHeader>) -> Seq<(u32, u32, u32)> {
    secs.map_values(|s: PeSectionHeader| (s.virtual_address, s.raw_offset, s.raw_size))
}

pub open spec fn headers_of(secs: Seq<PeSection>) -> Seq<PeSectionHeader> {
    secs.map_values(|s: PeSection| s.header)
}

/// The (virtual address, raw data offset, raw size) of each section, in
/// table order.
pub fn sections_to_tuples(sections: &[PeSection]) -> (r: Vec<(u32, u32, u32)>)
    ensures
        r@ == tuples_of(headers_of(sections@)),
{
    let mut out: Vec<(u32, u32, u32)> = Vec::new();
    let mut i: usize = 0;
    while i < sections.len()
        invariant
            i <= sections@.len(),
            out@ == tuples_of(headers_of(sections@.subrange(0, i as int))),
        decreases sections.len() - i,
    {
        let h = sections[i].header;
        out.push((h.virtual_address, h.raw_offset, h.raw_size));
        i = i + 1;
        assert(out@ =~= tuples_of(headers_of(sections@.subrange(0, i as int))));
    }
    assert(sections@.subrange(0, sections@.len() as int) =~= sections@);
    out
}

/// The export and import table addresses: entries 0 and 1 of the optional
/// header's data directory.
#[derive(Debug, Clone, Copy, PartialEq, Eq, Structural)]
pub struct DataDirectories {
    pub is_pe32_plus: bool,
    pub import_rva: u32,
    pub export_rva: u32,
}

/// File offset of the data directory: its place in the optional header
/// depends on the PE32 / PE32+ magic.
pub open spec fn data_dir_offset(d: Seq<u8>, h: PeHeader) -> int {
    let opt = h.e_lfanew + 24;
    if u16_at(d, opt, le()) == 0x20B { opt + 112 } else { opt + 96 }
}

pub open spec fn spec_data_dirs(d: Seq<u8>, h: PeHeader) -> Result<DataDirectories, ParseError> {
    let dd = data_dir_offset(d, h);
    if !fits(d, dd, 16) {
        Err(ParseError::TruncatedHeader)
    } else {
        Ok(DataDirectories {
            is_pe32_plus: u16_at(d, h.e_lfanew + 24, le()) == 0x20B,
            export_rva: u32_at(d, dd, le()),
            import_rva: u32_at(d, dd + 8, le()),
        })
    }
}

/// Reads the import and export directory addresses.
pub fn parse_data_dirs(data: &[u8], h: PeHeader) -> (r: Result<DataDirectories, ParseError>)
    requires
        spec_pe_header(data@) == Ok::<PeHeader, ParseError>(h),
    ensures
        r == spec_data_dirs(data@, h),
{
    let e = Endian::Little;
    let opt = h.e_lfanew as u64 + 24;
    let magic = read_u16_at(data, opt, e)?;
    let plus = magic == 0x20B;
    let dd = if plus { opt + 112 } else { opt + 96 };
    if dd > data.len() as u64 || data.len() as u64 - dd < 16 {
        return Err(ParseError::TruncatedHeader);
    }
    Ok(DataDirectories {
        is_pe32_plus: plus,
        export_rva: read_u32_at(data, dd, e)?,
        import_rva: read_u32_at(data, dd + 8, e)?,
    })
}

/// What one import-lookup thunk refers to.
#[derive(Debug, Clone, Copy, PartialEq, Eq, Structural)]
pub enum ThunkKind {
    /// Import by ordinal: the high bit is set, the ordinal is the low 16 bits.
    Ordinal(u16),
    /// Import by name: the address of a hint/name record.
    NameRva(u32),
}

pub open spec fn spec_thunk(v: u64) -> ThunkKind {
    if v >= 0x8000_0000_0000_0000 {
        ThunkKind::Ordinal((v % 0x1_0000) as u16)
    } else {
        ThunkKind::NameRva((v % 0x8000_0000) as u32)
    }
}

/// Classifies a 64-bit thunk: with the high bit set it is an ordinal import
/// whose ordinal is the low 16 bits, otherwise the low 31 bits address a
/// hint/name record.
pub fn decode_thunk(v: u64) -> (r: ThunkKind)
    ensures
        r == spec_thunk(v),
        v >= 0x8000_0000_0000_0000 ==> r == ThunkKind::Ordinal((v % 0x1_0000) as u16),
        v < 0x8000_0000_0000_0000 ==> r == ThunkKind::NameRva((v % 0x8000_0000) as u32),
{
    if v >= 0x8000_0000_0000_0000 {
        ThunkKind::Ordinal((v % 0x1_0000) as u16)
    } else {
        ThunkKind::NameRva((v % 0x8000_0000) as u32)
    }
}

/// An imported symbol: by name or by ordinal.
pub enum ImportedSymbol {
    Name(String),
    Ordinal(u16),
}

/// One imported symbol with the library that provides it.
pub struct ImportRecord {
    pub library: String,
    pub symbol: ImportedSymbol,
}

pub enum SymbolModel {
    Name(Seq<char>),
    Ordinal(u16),
}

pub struct ImportModel {
    pub library: Seq<char>,
    pub symbol: SymbolModel,
}

pub open spec fn import_view(r: ImportRecord) -> ImportModel {
    ImportModel {
        library: r.library@,
        symbol: match r.symbol {
            ImportedSymbol::Name(s) => SymbolModel::Name(s@),
            ImportedSymbol::Ordinal(o) => SymbolModel::Ordinal(o),
        },
    }
}

pub open spec fn import_views(v: Seq<ImportRecord>) -> Seq<ImportModel> {
    v.map_values(|r: ImportRecord| import_view(r))
}

/// The string at file offset `o` of `d`.
pub open spec fn cstr_at(d: Seq<u8>, o: int) -> Result<Seq<u8>, ParseError> {
    spec_cbytes_in(d, 0, d.len() as int, o)
}

/// The imports of library `lib` that the thunk array at file offset `t`
/// lists, up to its zero entry. The walk stops early at a thunk outside `d`
/// or a name that does not resolve.
#[verifier::opaque]
pub open spec fn spec_thunks(d: Seq<u8>, secs: Seq<(u32, u32, u32)>, lib: Seq<u8>, t: int) -> Seq<
    ImportModel,
>
    decreases d.len() - t,
{
    if !fits(d, t, 8) {
        Seq::empty()
    } else {
        let v = u64_at(d, t, le());
        if v == 0 {
            Seq::empty()
        } else {
            match spec_thunk(v) {
                ThunkKind::Ordinal(o) => seq![
                    ImportModel { library: latin1(lib), symbol: SymbolModel::Ordinal(o) },
                ] + spec_thunks(d, secs, lib, t + 8),
                ThunkKind::NameRva(r) => match spec_resolve(secs, r) {
                    Err(_) => Seq::empty(),
                    Ok(ho) => match cstr_at(d, ho + 2) {
                        Err(_) => Seq::empty(),
                        Ok(name) => seq![
                            ImportModel {
                                library: latin1(lib),
                                symbol: SymbolModel::Name(latin1(name)),
                            },
                        ] + spec_thunks(d, secs, lib, t + 8),
                    },
                },
            }
        }
    }
}

/// The imports that the descriptor list at file offset `o` gives, up to the
/// descriptor whose first field is zero. The walk stops early at a
/// descriptor outside `d` or an address or name that does not resolve.
#[verifier::opaque]
pub open spec fn spec_descriptors(d: Seq<u8>, secs: Seq<(u32, u32, u32)>, o: int) -> Seq<
    ImportModel,
>
    decreases d.len() - o,
{
    if !fits(d, o, 20) {
        Seq::empty()
    } else {
        let first = u32_at(d, o, le());
        if first == 0 {
            Seq::empty()
        } else {
            match spec_resolve(secs, u32_at(d, o + 12, le())) {
                Err(_) => Seq::empty(),
                Ok(no) => match cstr_at(d, no as int) {
                    Err(_) => Seq::empty(),
                    Ok(lib) => match spec_resolve(secs, first) {
                        Err(_) => Seq::empty(),
                        Ok(to) => spec_thunks(d, secs, lib, to as int) + spec_descriptors(
                            d,
                            secs,
                            o + 20,
                        ),
                    },
                },
            }
        }
    }
}

/// The imports of `d`: none when the import address is zero, a failure when
/// it lies in no section.
pub open spec fn spec_imports(d: Seq<u8>, secs: Seq<(u32, u32, u32)>, rva: u32) -> Result<
    Seq<ImportModel>,
    ParseError,
> {
    if rva == 0 {
        Ok(Seq::empty())
    } else {
        match spec_resolve(secs, rva) {
            Err(e) => Err(e),
            Ok(o) => Ok(spec_descriptors(d, secs, o as int)),
        }
    }
}

fn read_cbytes(data: &[u8], o: u64) -> (r: Result<Vec<u8>, ParseError>)
    ensures
        match r {
            Ok(b) => cstr_at(data@, o as int) == Ok::<Seq<u8>, ParseError>(b@),
            Err(e) => cstr_at(data@, o as int) == Err::<Seq<u8>, ParseError>(e),
        },
{
    read_cbytes_in(data, 0, data.len() as u64, o)
}

/// Decodes the thunk at `t`: `None` where the walk ends there, else the
/// import it gives.
fn thunk_step(data: &[u8], secs: &Vec<(u32, u32, u32)>, lib: &Vec<u8>, t: u64) -> (r: Option<
    ImportRecord,
>)
    ensures
        r is None ==> spec_thunks(data@, secs@, lib@, t as int) == Seq::<ImportModel>::empty(),
        r is Some ==> fits(data@, t as int, 8) && spec_thunks(data@, secs@, lib@, t as int) == seq![
            import_view(r->Some_0),
        ] + spec_thunks(data@, secs@, lib@, t + 8),
{
    proof {
        reveal(spec_thunks);
    }
    let v = match read_u64_at(data, t, Endian::Little) {
        Ok(x) => x,
        Err(_) => return None,
    };
    if v == 0 {
        return None;
    }
    match decode_thunk(v) {
        ThunkKind::Ordinal(o) => Some(
            ImportRecord { library: latin1_string(lib), symbol: ImportedSymbol::Ordinal(o) },
        ),
        ThunkKind::NameRva(r) => {
            let ho = match rva_to_file_offset(r, secs.as_slice()) {
                Ok(x) => x,
                Err(_) => return None,
            };
            match read_cbytes(data, ho + 2) {
                Ok(name) => Some(
                    ImportRecord {
                        library: latin1_string(lib),
                        symbol: ImportedSymbol::Name(latin1_string(&name)),
                    },
                ),
                Err(_) => None,
            }
        },
    }
}

/// Appends the imports of library `lib` from the thunk array at `t`.
fn walk_thunks(
    data: &[u8],
    secs: &Vec<(u32, u32, u32)>,
    lib: &Vec<u8>,
    t: u64,
    out: &mut Vec<ImportRecord>,
)
    ensures
        import_views(final(out)@) == import_views(old(out)@) + spec_thunks(
            data@,
            secs@,
            lib@,
            t as int,
        ),
{
    let n = data.len() as u64;
    let ghost start = import_views(out@);
    let ghost t0 = t as int;
    if t > n {
        proof {
            reveal(spec_thunks);
        }
        assert(import_views(out@) =~= start + spec_thunks(data@, secs@, lib@, t0));
        return;
    }
    let mut cur = t;
    loop
        invariant
            n == data@.len(),
            cur <= n,
            t0 == t,
            start == import_views(old(out)@),
            start + spec_thunks(data@, secs@, lib@, t0) == import_views(out@) + spec_thunks(
                data@,
                secs@,
                lib@,
                cur as int,
            ),
        decreases n - cur,
    {
        match thunk_step(data, secs, lib, cur) {
            None => {
                assert(import_views(out@) =~= import_views(out@) + spec_thunks(
                    data@,
                    secs@,
                    lib@,
                    cur as int,
                ));
                return;
            },
            Some(rec) => {
                let ghost before = import_views(out@);
                out.push(rec);
                assert(import_views(out@) =~= before + seq![import_view(rec)]);
                assert(before + spec_thunks(data@, secs@, lib@, cur as int) =~= import_views(out@)
                    + spec_thunks(data@, secs@, lib@, cur + 8));
                cur = cur + 8;
            },
        }
    }
}

} // verus!

verus! {

/// Decodes the import descriptor at `o`: `None` where the walk ends there,
/// else its library name and the file offset of its thunk array.
fn descriptor_step(data: &[u8], secs: &Vec<(u32, u32, u32)>, o: u64) -> (r: Option<(Vec<u8>, u64)>)
    ensures
        r is None ==> spec_descriptors(data@, secs@, o as int) == Seq::<ImportModel>::empty(),
        r is Some ==> fits(data@, o as int, 20) && spec_descriptors(data@, secs@, o as int)
            == spec_thunks(data@, secs@, (r->Some_0).0@, (r->Some_0).1 as int) + spec_descriptors(
            data@,
            secs@,
            o + 20,
        ),
{
    proof {
        reveal(spec_descriptors);
    }
    let e = Endian::Little;
    if o > data.len() as u64 || data.len() as u64 - o < 20 {
        return None;
    }
    let first = read_u32_at(data, o, e).unwrap();
    if first == 0 {
        return None;
    }
    let name_rva = read_u32_at(data, o + 12, e).unwrap();
    let no = match rva_to_file_offset(name_rva, secs.as_slice()) {
        Ok(x) => x,
        Err(_) => return None,
    };
    let lib = match read_cbytes(data, no) {
        Ok(b) => b,
        Err(_) => return None,
    };
    match rva_to_file_offset(first, secs.as_slice()) {
        Ok(to) => Some((lib, to)),
        Err(_) => None,
    }
}

/// Appends the imports of the descriptor list at `o`.
fn walk_descriptors(data: &[u8], secs: &Vec<(u32, u32, u32)>, o: u64, out: &mut Vec<ImportRecord>)
    ensures
        import_views(final(out)@) == import_views(old(out)@) + spec_descriptors(
            data@,
            secs@,
            o as int,
        ),
{
    let n = data.len() as u64;
    let ghost start = import_views(out@);
    let ghost o0 = o as int;
    if o > n {
        proof {
            reveal(spec_descriptors);
        }
        assert(import_views(out@) =~= start + spec_descriptors(data@, secs@, o0));
        return;
    }
    let mut cur = o;
    loop
        invariant
            n == data@.len(),
            cur <= n,
            o0 == o,
            start == import_views(old(out)@),
            start + spec_descriptors(data@, secs@, o0) == import_views(out@) + spec_descriptors(
                data@,
                secs@,
                cur as int,
            ),
        decreases n - cur,
    {
        match descriptor_step(data, secs, cur) {
            None => {
                assert(import_views(out@) =~= import_views(out@) + spec_descriptors(
                    data@,
                    secs@,
                    cur as int,
                ));
                return;
            },
            Some((lib, to)) => {
                let ghost before = import_views(out@);
                walk_thunks(data, secs, &lib, to, out);
                assert(before + spec_descriptors(data@, secs@, cur as int) =~= import_views(out@)
                    + spec_descriptors(data@, secs@, cur + 20));
                cur = cur + 20;
            },
        }
    }
}

/// Decodes the import table at `import_rva`: no imports where it is zero,
/// `UnmappedAddress` where no section maps it.
pub fn parse_pe_imports(data: &[u8], import_rva: u32, sections: &Vec<(u32, u32, u32)>) -> (r:
    Result<Vec<ImportRecord>, ParseError>)
    ensures
        match r {
            Ok(v) => spec_imports(data@, sections@, import_rva) == Ok::<
                Seq<ImportModel>,
                ParseError,
            >(import_views(v@)),
            Err(e) => spec_imports(data@, sections@, import_rva) == Err::<
                Seq<ImportModel>,
                ParseError,
            >(e),
        },
{
    let mut out: Vec<ImportRecord> = Vec::new();
    assert(import_views(out@) =~= Seq::empty());
    if import_rva == 0 {
        return Ok(out);
    }
    let o = rva_to_file_offset(import_rva, sections.as_slice())?;
    walk_descriptors(data, sections, o, &mut out);
    assert(import_views(out@) =~= spec_descriptors(data@, sections@, o as int));
    Ok(out)
}

/// The fixed fields of the export directory.
#[derive(Debug, Clone, Copy, PartialEq, Eq, Structural)]
pub struct ExportDirectory {
    pub name_rva: u32,
    pub ordinal_base: u32,
    pub num_functions: u32,
    pub num_names: u32,
    pub address_table_rva: u32,
    pub name_table_rva: u32,
    pub ordinal_table_rva: u32,
}

pub open spec fn decode_export_dir(d: Seq<u8>, o: int) -> ExportDirectory {
    ExportDirectory {
        name_rva: u32_at(d, o + 12, le()),
        ordinal_base: u32_at(d, o + 16, le()),
        num_functions: u32_at(d, o + 20, le()),
        num_names: u32_at(d, o + 24, le()),
        address_table_rva: u32_at(d, o + 28, le()),
        name_table_rva: u32_at(d, o + 32, le()),
        ordinal_table_rva: u32_at(d, o + 36, le()),
    }
}

/// One exported name with its ordinal (table ordinal plus ordinal base).
pub struct ExportRecord {
    pub name: String,
    pub ordinal: u64,
}

pub struct ExportModel {
    pub name: Seq<char>,
    pub ordinal: u64,
}

pub open spec fn export_views(v: Seq<ExportRecord>) -> Seq<ExportModel> {
    v.map_values(|r: ExportRecord| ExportModel { name: r.name@, ordinal: r.ordinal })
}

/// The exports among the first `i` entries of the name-pointer table at
/// file offset `no` and the ordinal table at `oo`; an entry whose table
/// slots, name address or name do not resolve is skipped.
pub open spec fn spec_exports_upto(
    d: Seq<u8>,
    secs: Seq<(u32, u32, u32)>,
    base: u32,
    no: int,
    oo: int,
    i: int,
) -> Seq<ExportModel>
    decreases i,
{
    if i <= 0 {
        Seq::empty()
    } else {
        let acc = spec_exports_upto(d, secs, base, no, oo, i - 1);
        let k = i - 1;
        if !fits(d, no + 4 * k, 4) || !fits(d, oo + 2 * k, 2) {
            acc
        } else {
            match spec_resolve(secs, u32_at(d, no + 4 * k, le())) {
                Err(_) => acc,
                Ok(fo) => match cstr_at(d, fo as int) {
                    Err(_) => acc,
                    Ok(name) => acc.push(
                        ExportModel {
                            name: latin1(name),
                            ordinal: (u16_at(d, oo + 2 * k, le()) + base) as u64,
                        },
                    ),
                },
            }
        }
    }
}

proof fn lemma_exports_tail_skipped(
    d: Seq<u8>,
    secs: Seq<(u32, u32, u32)>,
    base: u32,
    no: int,
    oo: int,
    i: int,
    m: int,
)
    requires
        0 <= no,
        0 <= i <= m,
        no + 4 * i + 4 > d.len(),
    ensures
        spec_exports_upto(d, secs, base, no, oo, m) == spec_exports_upto(d, secs, base, no, oo, i),
    decreases m - i,
{
    if i < m {
        lemma_exports_tail_skipped(d, secs, base, no, oo, i, m - 1);
    }
}

/// The exports of `d`: none when the export address is zero; a failure
/// when it, or a table that named exports need, lies in no section, or when
/// the directory lies outside `d`.
pub open spec fn spec_exports(d: Seq<u8>, secs: Seq<(u32, u32, u32)>, rva: u32) -> Result<
    Seq<ExportModel>,
    ParseError,
> {
    if rva == 0 {
        Ok(Seq::empty())
    } else {
        match spec_resolve(secs, rva) {
            Err(e) => Err(e),
            Ok(eo) => if !fits(d, eo as int, 40) {
                Err(ParseError::OutOfBounds)
            } else {
                let dir = decode_export_dir(d, eo as int);
                if dir.num_names == 0 {
                    Ok(Seq::empty())
                } else {
                    match spec_resolve(secs, dir.name_table_rva) {
                        Err(e) => Err(e),
                        Ok(no) => match spec_resolve(secs, dir.ordinal_table_rva) {
                            Err(e) => Err(e),
                            Ok(oo) => Ok(
                                spec_exports_upto(
                                    d,
                                    secs,
                                    dir.ordinal_base,
                                    no as int,
                                    oo as int,
                                    dir.num_names as int,
                                ),
                            ),
                        },
                    }
                }
            },
        }
    }
}

/// Decodes the export table at `export_rva`: no exports where it is zero.
pub fn parse_pe_exports(data: &[u8], export_rva: u32, sections: &Vec<(u32, u32, u32)>) -> (r:
    Result<Vec<ExportRecord>, ParseError>)
    ensures
        match r {
            Ok(v) => spec_exports(data@, sections@, export_rva) == Ok::<
                Seq<ExportModel>,
                ParseError,
            >(export_views(v@)),
            Err(e) => spec_exports(data@, sections@, export_rva) == Err::<
                Seq<ExportModel>,
                ParseError,
            >(e),
        },
{
    let e = Endian::Little;
    let n = data.len() as u64;
    let mut out: Vec<ExportRecord> = Vec::new();
    assert(export_views(out@) =~= Seq::empty());
    if export_rva == 0 {
        return Ok(out);
    }
    let eo = rva_to_file_offset(export_rva, sections.as_slice())?;
    if eo > n || n - eo < 40 {
        return Err(ParseError::OutOfBounds);
    }
    let base = read_u32_at(data, eo + 16, e)?;
    let num_names = read_u32_at(data, eo + 24, e)?;
    let name_table = read_u32_at(data, eo + 32, e)?;
    let ord_table = read_u32_at(data, eo + 36, e)?;
    if num_names == 0 {
        return Ok(out);
    }
    let no = rva_to_file_offset(name_table, sections.as_slice())?;
    let oo = rva_to_file_offset(ord_table, sections.as_slice())?;
    let mut i: u32 = 0;
    while i < num_names
        invariant
            i <= num_names,
            e == le(),
            n == data@.len(),
            no <= 2 * 0xFFFF_FFFFu64,
            oo <= 2 * 0xFFFF_FFFFu64,
            export_views(out@) == spec_exports_upto(data@, sections@, base, no as int, oo as int, i as int),
        decreases num_names - i,
    {
        if n < 4 || no + 4 * (i as u64) > n - 4 {
            proof {
                lemma_exports_tail_skipped(
                    data@,
                    sections@,
                    base,
                    no as int,
                    oo as int,
                    i as int,
                    num_names as int,
                );
            }
            // every later name slot lies past the end too
            i = num_names;
            continue;
        }
        let ghost before = export_views(out@);
        let slot = read_u32_at(data, no + 4 * (i as u64), e);
        let ord = read_u16_at(data, oo + 2 * (i as u64), e);
        if let (Ok(name_rva), Ok(ordinal)) = (slot, ord) {
            if let Ok(fo) = rva_to_file_offset(name_rva, sections.as_slice()) {
                if let Ok(name) = read_cbytes(data, fo) {
                    out.push(ExportRecord { name: latin1_string(&name), ordinal: ordinal as u64 + base as u64 });
                    assert(export_views(out@) =~= before.push(export_views(out@).last()));
                }
            }
        }
        i = i + 1;
    }
    Ok(out)
}

} // verus!

verus! {

/// The UTC calendar time `secs` seconds after the Unix epoch, as text.
pub uninterp spec fn utc_text(secs: int) -> Seq<char>;

/// Relies on chrono's `DateTime::from_timestamp` and the `Display` of
/// `DateTime<Utc>`: the calendar time of a Unix second count, as text. Every
/// `u32` count lies in chrono's range.
#[verifier::external_body]
fn utc_timestamp_text(secs: u32) -> (r: String)
    ensures
        r@ == utc_text(secs as int),
{
    match chrono::DateTime::from_timestamp(secs as i64, 0) {
        Some(t) => t.to_string(),
        None => String::new(),
    }
}

/// What a successful PE decode yields, over mathematical values.
pub struct PeModel {
    pub header: PeHeader,
    pub sections: Seq<PeSectionHeader>,
    pub names: Seq<Seq<u8>>,
    pub dirs: DataDirectories,
    pub imports: Seq<ImportModel>,
    pub exports: Seq<ExportModel>,
}

/// The decode of a PE image `d`, or the first failure met.
pub open spec fn spec_parse_pe(d: Seq<u8>) -> Result<PeModel, ParseError> {
    match spec_pe_header(d) {
        Err(e) => Err(e),
        Ok(h) => match spec_pe_sections(d, h) {
            Err(e) => Err(e),
            Ok(st) => match spec_data_dirs(d, h) {
                Err(e) => Err(e),
                Ok(dirs) => match spec_imports(d, tuples_of(st.0), dirs.import_rva) {
                    Err(e) => Err(e),
                    Ok(imports) => match spec_exports(d, tuples_of(st.0), dirs.export_rva) {
                        Err(e) => Err(e),
                        Ok(exports) => Ok(
                            PeModel {
                                header: h,
                                sections: st.0,
                                names: st.1,
                                dirs,
                                imports,
                                exports,
                            },
                        ),
                    },
                },
            },
        },
    }
}

/// The structured result of decoding a PE image.
pub struct PeReport {
    pub header: PeHeader,
    /// The build timestamp as UTC calendar time.
    pub timestamp_utc: String,
    pub dirs: DataDirectories,
    pub sections: Vec<PeSection>,
    pub imports: Vec<ImportRecord>,
    pub exports: Vec<ExportRecord>,
}

impl PeReport {
    /// This report holds the model `m`, each name as the characters of its
    /// bytes.
    pub open spec fn holds(&self, m: PeModel) -> bool {
        &&& self.header == m.header
        &&& self.timestamp_utc@ == utc_text(m.header.timestamp as int)
        &&& self.dirs == m.dirs
        &&& headers_of(self.sections@) == m.sections
        &&& m.names.len() == m.sections.len()
        &&& forall|i: int|
            0 <= i < m.sections.len() ==> (#[trigger] self.sections@[i]).name@ == latin1(m.names[i])
        &&& import_views(self.imports@) == m.imports
        &&& export_views(self.exports@) == m.exports
    }
}

/// Decodes a PE image: headers, section table, imports and exports. Fails
/// as `spec_parse_pe` says, with no partial report.
pub fn parse_pe(data: &[u8]) -> (r: Result<PeReport, ParseError>)
    ensures
        match r {
            Ok(rep) => spec_parse_pe(data@) is Ok && rep.holds(spec_parse_pe(data@)->Ok_0),
            Err(e) => spec_parse_pe(data@) == Err::<PeModel, ParseError>(e),
        },
{
    let h = parse_pe_header(data)?;
    let sections = parse_pe_sections(data, h)?;
    let ghost st = spec_pe_sections(data@, h)->Ok_0;
    assert(headers_of(sections@) =~= st.0);
    let dirs = parse_data_dirs(data, h)?;
    let table = sections_to_tuples(sections.as_slice());
    let imports = parse_pe_imports(data, dirs.import_rva, &table)?;
    let exports = parse_pe_exports(data, dirs.export_rva, &table)?;
    let timestamp_utc = utc_timestamp_text(h.timestamp);
    Ok(PeReport { header: h, timestamp_utc, dirs, sections, imports, exports })
}

} // verus!

verus! {

/// What a PE report holds, with each string as its characters.
pub struct PeView {
    pub header: PeHeader,
    pub timestamp_utc: Seq<char>,
    pub dirs: DataDirectories,
    pub sections: Seq<(Seq<char>, PeSectionHeader)>,
    pub imports: Seq<ImportModel>,
    pub exports: Seq<ExportModel>,
}

impl PeReport {
    pub open spec fn view(&self) -> PeView {
        PeView {
            header: self.header,
            timestamp_utc: self.timestamp_utc@,
            dirs: self.dirs,
            sections: self.sections@.map_values(|s: PeSection| (s.name@, s.header)),
            imports: import_views(self.imports@),
            exports: export_views(self.exports@),
        }
    }
}

/// Decoding is a function of the image's bytes: two successful decodes of
/// the same bytes give reports with the same content.
pub proof fn lemma_pe_decode_deterministic(d: Seq<u8>, r1: PeReport, r2: PeReport)
    requires
        spec_parse_pe(d) is Ok,
        r1.holds(spec_parse_pe(d)->Ok_0),
        r2.holds(spec_parse_pe(d)->Ok_0),
    ensures
        r1.view() == r2.view(),
{
    assert forall|i: int| 0 <= i < r1.sections@.len() implies r1.sections@[i].header
        == r2.sections@[i].header by {
        assert(headers_of(r1.sections@)[i] == headers_of(r2.sections@)[i]);
    }
    assert(r1.view().sections =~= r2.view().sections);
}

/// A thunk with the high bit set is an ordinal import whose ordinal is its
/// low 16 bits, whatever the sections say: no name is looked up for it.
pub proof fn lemma_ordinal_thunk(d: Seq<u8>, secs: Seq<(u32, u32, u32)>, lib: Seq<u8>, t: int)
    requires
        fits(d, t, 8),
        u64_at(d, t, le()) >= 0x8000_0000_0000_0000,
    ensures
        spec_thunks(d, secs, lib, t).len() >= 1,
        spec_thunks(d, secs, lib, t)[0] == (ImportModel {
            library: latin1(lib),
            symbol: SymbolModel::Ordinal((u64_at(d, t, le()) % 0x1_0000) as u16),
        }),
{
    reveal(spec_thunks);
}

/// A PE image cut short inside its DOS header fails with `TruncatedHeader`.
pub proof fn lemma_pe_truncated_dos_header(d: Seq<u8>)
    requires
        starts_mz(d),
        d.len() < lfanew_field() + 4,
    ensures
        spec_parse_pe(d) == Err::<PeModel, ParseError>(ParseError::TruncatedHeader),
{
}

/// A PE image cut short before the end of a section table entry that its
/// header declares fails with `OutOfBounds`.
pub proof fn lemma_pe_truncated_section_table(d: Seq<u8>, k: int, i: int)
    requires
        spec_pe_header(d) is Ok,
        0 <= i < (spec_pe_header(d)->Ok_0).num_sections,
        (spec_pe_header(d)->Ok_0).e_lfanew + nt_span() <= k < pe_section_base(
            spec_pe_header(d)->Ok_0,
            i,
        ) + 40,
        lfanew_field() + 4 <= k <= d.len(),
    ensures
        spec_parse_pe(d.subrange(0, k)) == Err::<PeModel, ParseError>(ParseError::OutOfBounds),
{
    let t = d.subrange(0, k);
    let h = spec_pe_header(d)->Ok_0;
    let lf = h.e_lfanew as int;
    assert forall|j: int| 0 <= j < k implies t[j] == d[j] by {}
    assert(spec_pe_header(t) == Ok::<PeHeader, ParseError>(h));
    assert(!fits(t, pe_section_base(h, i), 40));
}

} // verus!
