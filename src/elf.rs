//! ELF decoding: header, section table, section names, the shared objects
//! named by `.dynamic` and the symbol names of `.symtab`.
use vstd::prelude::*;

use crate::detector::starts_elf;
use crate::error::ParseError;
use crate::reader::{
    fits, latin1, latin1_string, read_cbytes_in, read_u16_at, read_u32_at, read_u64_at,
    spec_cbytes_in, u16_at, u32_at, u64_at, Endian,
};

verus! {

/// The fields of the ELF file header that the decoder uses.
#[derive(Debug, Clone, Copy, PartialEq, Eq, Structural)]
pub struct ElfHeader {
    pub is_64: bool,
    pub endian: Endian,
    pub entry: u64,
    pub shoff: u64,
    pub shentsize: u16,
    pub shnum: u16,
    pub shstrndx: u16,
}

/// One entry of the section header table.
#[derive(Debug, Clone, Copy, PartialEq, Eq, Structural)]
pub struct SectionHeader {
    pub name_offset: u32,
    pub sh_type: u32,
    pub sh_offset: u64,
    pub sh_size: u64,
    pub sh_link: u32,
    pub sh_entsize: u64,
}

/// Byte length of the file header for the class byte at index 4.
pub open spec fn header_len(d: Seq<u8>) -> int {
    if d[4] == 1 { 52 } else { 64 }
}

/// The header of `d`: the magic must be present and the whole header inside
/// `d`. Class 1 is 32-bit, any other 64-bit; data byte 1 is little-endian,
/// any other big-endian.
pub open spec fn spec_elf_header(d: Seq<u8>) -> Result<ElfHeader, ParseError> {
    if !starts_elf(d) {
        Err(ParseError::InvalidSignature)
    } else if d.len() < 6 || d.len() < header_len(d) {
        Err(ParseError::TruncatedHeader)
    } else {
        let e = if d[5] == 1 { Endian::Little } else { Endian::Big };
        if d[4] == 1 {
            Ok(ElfHeader {
                is_64: false,
                endian: e,
                entry: u32_at(d, 24, e) as u64,
                shoff: u32_at(d, 32, e) as u64,
                shentsize: u16_at(d, 46, e),
                shnum: u16_at(d, 48, e),
                shstrndx: u16_at(d, 50, e),
            })
        } else {
            Ok(ElfHeader {
                is_64: true,
                endian: e,
                entry: u64_at(d, 24, e),
                shoff: u64_at(d, 40, e),
                shentsize: u16_at(d, 58, e),
                shnum: u16_at(d, 60, e),
                shstrndx: u16_at(d, 62, e),
            })
        }
    }
}

/// Reads the ELF file header.
pub fn parse_elf_header(data: &[u8]) -> (r: Result<ElfHeader, ParseError>)
    ensures
        r == spec_elf_header(data@),
{
    let n = data.len();
    if !(n >= 4 && data[0] == 0x7F && data[1] == 0x45 && data[2] == 0x4C && data[3] == 0x46) {
        return Err(ParseError::InvalidSignature);
    }
    if n < 6 || n < (if data[4] == 1 { 52 } else { 64 }) {
        return Err(ParseError::TruncatedHeader);
    }
    let e = if data[5] == 1 { Endian::Little } else { Endian::Big };
    if data[4] == 1 {
        Ok(ElfHeader {
            is_64: false,
            endian: e,
            entry: read_u32_at(data, 24, e)? as u64,
            shoff: read_u32_at(data, 32, e)? as u64,
            shentsize: read_u16_at(data, 46, e)?,
            shnum: read_u16_at(data, 48, e)?,
            shstrndx: read_u16_at(data, 50, e)?,
        })
    } else {
        Ok(ElfHeader {
            is_64: true,
            endian: e,
            entry: read_u64_at(data, 24, e)?,
            shoff: read_u64_at(data, 40, e)?,
            shentsize: read_u16_at(data, 58, e)?,
            shnum: read_u16_at(data, 60, e)?,
            shstrndx: read_u16_at(data, 62, e)?,
        })
    }
}

/// Bytes of a section header entry that are read.
pub open spec fn section_span(h: ElfHeader) -> int {
    if h.is_64 { 64 } else { 40 }
}

/// File offset of section header `i`.
pub open spec fn section_base(h: ElfHeader, i: int) -> int {
    h.shoff + i * h.shentsize
}

/// Section header entry `i` lies inside `d`.
pub open spec fn section_fits(d: Seq<u8>, h: ElfHeader, i: int) -> bool {
    fits(d, section_base(h, i), section_span(h))
}

/// The section header entry at byte `b` of `d`.
pub open spec fn decode_section(d: Seq<u8>, h: ElfHeader, b: int) -> SectionHeader {
    let e = h.endian;
    if h.is_64 {
        SectionHeader {
            name_offset: u32_at(d, b, e),
            sh_type: u32_at(d, b + 4, e),
            sh_offset: u64_at(d, b + 24, e),
            sh_size: u64_at(d, b + 32, e),
            sh_link: u32_at(d, b + 40, e),
            sh_entsize: u64_at(d, b + 56, e),
        }
    } else {
        SectionHeader {
            name_offset: u32_at(d, b, e),
            sh_type: u32_at(d, b + 4, e),
            sh_offset: u32_at(d, b + 16, e) as u64,
            sh_size: u32_at(d, b + 20, e) as u64,
            sh_link: u32_at(d, b + 24, e),
            sh_entsize: u32_at(d, b + 36, e) as u64,
        }
    }
}

/// The `shnum` section headers of `d`, or `OutOfBounds` where one of them
/// does not lie inside `d`.
pub open spec fn spec_section_headers(d: Seq<u8>, h: ElfHeader) -> Result<
    Seq<SectionHeader>,
    ParseError,
> {
    if exists|i: int| 0 <= i < h.shnum && !section_fits(d, h, i) {
        Err(ParseError::OutOfBounds)
    } else {
        Ok(Seq::new(h.shnum as nat, |i: int| decode_section(d, h, section_base(h, i))))
    }
}

/// Reads the section header table that `h` locates.
pub fn parse_section_headers(data: &[u8], h: ElfHeader) -> (r: Result<Vec<SectionHeader>, ParseError>)
    ensures
        match r {
            Ok(v) => spec_section_headers(data@, h) == Ok::<Seq<SectionHeader>, ParseError>(v@),
            Err(e) => spec_section_headers(data@, h) == Err::<Seq<SectionHeader>, ParseError>(e),
        },
{
    let n = data.len() as u64;
    let span: u64 = if h.is_64 { 64 } else { 40 };
    let e = h.endian;
    let mut out: Vec<SectionHeader> = Vec::new();
    let mut i: u16 = 0;
    while i < h.shnum
        invariant
            i <= h.shnum,
            n == data@.len(),
            span == section_span(h),
            e == h.endian,
            out@.len() == i,
            forall|j: int| 0 <= j < i ==> section_fits(data@, h, j),
            forall|j: int|
                0 <= j < i ==> out@[j] == decode_section(data@, h, section_base(h, j)),
        decreases h.shnum - i,
    {
        proof {
            let (a, c) = (i as int, h.shentsize as int);
            assert(a * c < 0x1_0000_0000) by (nonlinear_arith)
                requires
                    0 <= a < 0x1_0000,
                    0 <= c < 0x1_0000,
            ;
        }
        let step = (i as u64) * (h.shentsize as u64);
        if h.shoff > n || step > n - h.shoff || span > n - h.shoff - step {
            assert(!section_fits(data@, h, i as int));
            return Err(ParseError::OutOfBounds);
        }
        let b = h.shoff + step;
        let sec = if h.is_64 {
            SectionHeader {
                name_offset: read_u32_at(data, b, e)?,
                sh_type: read_u32_at(data, b + 4, e)?,
                sh_offset: read_u64_at(data, b + 24, e)?,
                sh_size: read_u64_at(data, b + 32, e)?,
                sh_link: read_u32_at(data, b + 40, e)?,
                sh_entsize: read_u64_at(data, b + 56, e)?,
            }
        } else {
            SectionHeader {
                name_offset: read_u32_at(data, b, e)?,
                sh_type: read_u32_at(data, b + 4, e)?,
                sh_offset: read_u32_at(data, b + 16, e)? as u64,
                sh_size: read_u32_at(data, b + 20, e)? as u64,
                sh_link: read_u32_at(data, b + 24, e)?,
                sh_entsize: read_u32_at(data, b + 36, e)? as u64,
            }
        };
        out.push(sec);
        i = i + 1;
    }
    assert(out@ =~= Seq::new(h.shnum as nat, |j: int| decode_section(data@, h, section_base(h, j))));
    Ok(out)
}

} // verus!

verus! {

/// The bytes of `.dynamic`.
pub open spec fn dynamic_name() -> Seq<u8> {
    seq![0x2eu8, 0x64, 0x79, 0x6e, 0x61, 0x6d, 0x69, 0x63]
}

/// The bytes of `.symtab`.
pub open spec fn symtab_name() -> Seq<u8> {
    seq![0x2eu8, 0x73, 0x79, 0x6d, 0x74, 0x61, 0x62]
}

/// The data of section `s` lies inside `d`.
pub open spec fn window_fits(d: Seq<u8>, s: SectionHeader) -> bool {
    s.sh_offset + s.sh_size <= d.len()
}

/// The string at `off` in the string-table section `t`.
pub open spec fn str_in(d: Seq<u8>, t: SectionHeader, off: int) -> Result<Seq<u8>, ParseError> {
    spec_cbytes_in(d, t.sh_offset as int, t.sh_size as int, off)
}

pub open spec fn byte_views(v: Seq<Vec<u8>>) -> Seq<Seq<u8>> {
    v.map_values(|b: Vec<u8>| b@)
}

/// The name of each section in the string table `t`, or `OutOfBounds` where a
/// name offset lies outside it.
pub open spec fn spec_section_names(d: Seq<u8>, secs: Seq<SectionHeader>, t: SectionHeader) -> Result<
    Seq<Seq<u8>>,
    ParseError,
> {
    if exists|i: int| 0 <= i < secs.len() && str_in(d, t, secs[i].name_offset as int) is Err {
        Err(ParseError::OutOfBounds)
    } else {
        Ok(Seq::new(secs.len(), |i: int| str_in(d, t, secs[i].name_offset as int)->Ok_0))
    }
}

/// Reads the name of each section of `secs` from the string table `t`.
pub fn read_section_names(data: &[u8], secs: &Vec<SectionHeader>, t: SectionHeader) -> (r: Result<
    Vec<Vec<u8>>,
    ParseError,
>)
    requires
        window_fits(data@, t),
    ensures
        match r {
            Ok(v) => spec_section_names(data@, secs@, t) == Ok::<Seq<Seq<u8>>, ParseError>(
                byte_views(v@),
            ),
            Err(e) => spec_section_names(data@, secs@, t) == Err::<Seq<Seq<u8>>, ParseError>(e),
        },
{
    let mut out: Vec<Vec<u8>> = Vec::new();
    let mut i: usize = 0;
    while i < secs.len()
        invariant
            i <= secs@.len(),
            window_fits(data@, t),
            out@.len() == i,
            forall|j: int|
                0 <= j < i ==> #[trigger] str_in(data@, t, secs@[j].name_offset as int) == Ok::<
                    Seq<u8>,
                    ParseError,
                >(out@[j]@),
        decreases secs.len() - i,
    {
        match read_cbytes_in(data, t.sh_offset, t.sh_size, secs[i].name_offset as u64) {
            Ok(b) => out.push(b),
            Err(e) => return Err(e),
        }
        i = i + 1;
    }
    assert(forall|j: int|
        0 <= j < secs@.len() ==> #[trigger] str_in(data@, t, secs@[j].name_offset as int) is Ok);
    assert(byte_views(out@) =~= Seq::new(
        secs@.len(),
        |j: int| str_in(data@, t, secs@[j].name_offset as int)->Ok_0,
    ));
    Ok(out)
}

/// The section at index `link`, which must exist and whose data must lie
/// inside `d`.
pub open spec fn spec_linked_table(d: Seq<u8>, secs: Seq<SectionHeader>, link: int) -> Result<
    SectionHeader,
    ParseError,
> {
    if link < 0 || link >= secs.len() {
        Err(ParseError::InvalidStringTableIndex)
    } else if !window_fits(d, secs[link]) {
        Err(ParseError::OutOfBounds)
    } else {
        Ok(secs[link])
    }
}

fn linked_table(data: &[u8], secs: &Vec<SectionHeader>, link: u64) -> (r: Result<
    SectionHeader,
    ParseError,
>)
    ensures
        r == spec_linked_table(data@, secs@, link as int),
{
    if link >= secs.len() as u64 {
        return Err(ParseError::InvalidStringTableIndex);
    }
    let t = secs[link as usize];
    if t.sh_offset > data.len() as u64 || t.sh_size > data.len() as u64 - t.sh_offset {
        return Err(ParseError::OutOfBounds);
    }
    Ok(t)
}

/// Number of fixed-size entries in section `s`; none where the entry size
/// is zero.
pub open spec fn entry_count(s: SectionHeader) -> int {
    if s.sh_entsize == 0 { 0 } else { (s.sh_size / s.sh_entsize) as int }
}

pub open spec fn entry_base(s: SectionHeader, j: int) -> int {
    s.sh_offset + j * s.sh_entsize
}

/// Bytes read of a dynamic entry: tag and value.
pub open spec fn dyn_span(h: ElfHeader) -> int {
    if h.is_64 { 16 } else { 8 }
}

pub open spec fn dyn_tag(d: Seq<u8>, h: ElfHeader, b: int) -> int {
    if h.is_64 { u64_at(d, b, h.endian) as int } else { u32_at(d, b, h.endian) as int }
}

pub open spec fn dyn_val(d: Seq<u8>, h: ElfHeader, b: int) -> int {
    if h.is_64 { u64_at(d, b + 8, h.endian) as int } else { u32_at(d, b + 4, h.endian) as int }
}

/// The dynamic tag that names a needed shared object.
pub open spec fn dt_needed() -> int {
    1
}

/// The needed shared-object names among the first `j` entries of the
/// dynamic section `s`, resolved in the string table `t`; a name that does
/// not resolve is skipped, an entry outside `d` fails the decode.
pub open spec fn spec_needed_upto(
    d: Seq<u8>,
    h: ElfHeader,
    s: SectionHeader,
    t: SectionHeader,
    j: int,
) -> Result<Seq<Seq<u8>>, ParseError>
    decreases j,
{
    if j <= 0 {
        Ok(Seq::empty())
    } else {
        match spec_needed_upto(d, h, s, t, j - 1) {
            Err(e) => Err(e),
            Ok(acc) => {
                let b = entry_base(s, j - 1);
                if !fits(d, b, dyn_span(h)) {
                    Err(ParseError::OutOfBounds)
                } else if dyn_tag(d, h, b) == dt_needed() {
                    match str_in(d, t, dyn_val(d, h, b)) {
                        Ok(name) => Ok(acc.push(name)),
                        Err(_) => Ok(acc),
                    }
                } else {
                    Ok(acc)
                }
            },
        }
    }
}

/// The non-empty symbol names among the first `j` entries of the symbol
/// table `s`, resolved in the string table `t`; a name that does not resolve
/// is skipped, an entry outside `d` fails the decode.
pub open spec fn spec_symbols_upto(
    d: Seq<u8>,
    h: ElfHeader,
    s: SectionHeader,
    t: SectionHeader,
    j: int,
) -> Result<Seq<Seq<u8>>, ParseError>
    decreases j,
{
    if j <= 0 {
        Ok(Seq::empty())
    } else {
        match spec_symbols_upto(d, h, s, t, j - 1) {
            Err(e) => Err(e),
            Ok(acc) => {
                let b = entry_base(s, j - 1);
                if !fits(d, b, 4) {
                    Err(ParseError::OutOfBounds)
                } else {
                    match str_in(d, t, u32_at(d, b, h.endian) as int) {
                        Ok(name) => if name.len() > 0 {
                            Ok(acc.push(name))
                        } else {
                            Ok(acc)
                        },
                        Err(_) => Ok(acc),
                    }
                }
            },
        }
    }
}

proof fn lemma_walk_error_stays(
    d: Seq<u8>,
    h: ElfHeader,
    s: SectionHeader,
    t: SectionHeader,
    k: int,
    m: int,
    dynamic: bool,
)
    requires
        k <= m,
    ensures
        dynamic && spec_needed_upto(d, h, s, t, k) is Err ==> spec_needed_upto(d, h, s, t, m)
            == spec_needed_upto(d, h, s, t, k),
        !dynamic && spec_symbols_upto(d, h, s, t, k) is Err ==> spec_symbols_upto(d, h, s, t, m)
            == spec_symbols_upto(d, h, s, t, k),
    decreases m - k,
{
    if k < m {
        lemma_walk_error_stays(d, h, s, t, k, m - 1, dynamic);
    }
}

proof fn lemma_entry_in_section(j: int, size: int, es: int)
    requires
        0 <= j,
        0 < es,
        0 <= size,
        j < size / es,
    ensures
        j * es + es <= size,
{
    vstd::arithmetic::div_mod::lemma_fundamental_div_mod(size, es);
    vstd::arithmetic::div_mod::lemma_mod_pos_bound(size, es);
    vstd::arithmetic::mul::lemma_mul_inequality(j + 1, size / es, es);
    assert((j + 1) * es == j * es + es) by (nonlinear_arith);
    assert(es * (size / es) == (size / es) * es) by (nonlinear_arith);
}

/// Walks the entries of section `s` (a dynamic section when `dynamic`, a
/// symbol table otherwise) and collects the names they give from the string
/// table `t`.
fn walk_entries(data: &[u8], h: ElfHeader, s: SectionHeader, t: SectionHeader, dynamic: bool) -> (r:
    Result<Vec<Vec<u8>>, ParseError>)
    requires
        window_fits(data@, t),
    ensures
        match r {
            Ok(v) => (if dynamic {
                spec_needed_upto(data@, h, s, t, entry_count(s))
            } else {
                spec_symbols_upto(data@, h, s, t, entry_count(s))
            }) == Ok::<Seq<Seq<u8>>, ParseError>(byte_views(v@)),
            Err(e) => (if dynamic {
                spec_needed_upto(data@, h, s, t, entry_count(s))
            } else {
                spec_symbols_upto(data@, h, s, t, entry_count(s))
            }) == Err::<Seq<Seq<u8>>, ParseError>(e),
        },
{
    let n = data.len() as u64;
    let e = h.endian;
    let span: u64 = if !dynamic { 4 } else if h.is_64 { 16 } else { 8 };
    let count: u64 = if s.sh_entsize == 0 { 0 } else { s.sh_size / s.sh_entsize };
    let mut out: Vec<Vec<u8>> = Vec::new();
    let mut j: u64 = 0;
    assert(byte_views(out@) =~= Seq::empty());
    while j < count
        invariant
            j <= count,
            count == entry_count(s),
            n == data@.len(),
            e == h.endian,
            span == (if !dynamic { 4 } else { dyn_span(h) }),
            window_fits(data@, t),
            (if dynamic {
                spec_needed_upto(data@, h, s, t, j as int)
            } else {
                spec_symbols_upto(data@, h, s, t, j as int)
            }) == Ok::<Seq<Seq<u8>>, ParseError>(byte_views(out@)),
        decreases count - j,
    {
        proof {
            lemma_entry_in_section(j as int, s.sh_size as int, s.sh_entsize as int);
        }
        let step = j * s.sh_entsize;
        if s.sh_offset > n || step > n - s.sh_offset || span > n - s.sh_offset - step {
            assert(!fits(data@, entry_base(s, j as int), span as int));
            proof {
                lemma_walk_error_stays(data@, h, s, t, j as int + 1, count as int, dynamic);
            }
            return Err(ParseError::OutOfBounds);
        }
        let b = s.sh_offset + step;
        assert(b == entry_base(s, j as int));
        if dynamic {
            let tag: u64 = if h.is_64 { read_u64_at(data, b, e)? } else { read_u32_at(data, b, e)? as u64 };
            if tag == 1 {
                let val: u64 = if h.is_64 {
                    read_u64_at(data, b + 8, e)?
                } else {
                    read_u32_at(data, b + 4, e)? as u64
                };
                match read_cbytes_in(data, t.sh_offset, t.sh_size, val) {
                    Ok(name) => {
                        proof {
                            assert(byte_views(out@.push(name)) =~= byte_views(out@).push(name@));
                        }
                        out.push(name);
                    },
                    Err(_) => {},
                }
            }
        } else {
            let off = read_u32_at(data, b, e)?;
            match read_cbytes_in(data, t.sh_offset, t.sh_size, off as u64) {
                Ok(name) => {
                    if name.len() > 0 {
                        proof {
                            assert(byte_views(out@.push(name)) =~= byte_views(out@).push(name@));
                        }
                        out.push(name);
                    }
                },
                Err(_) => {},
            }
        }
        j = j + 1;
    }
    Ok(out)
}

} // verus!

verus! {

/// The names that section `i` contributes: needed shared objects of a
/// dynamic section when `dynamic`, symbol names of a symbol table otherwise.
pub open spec fn spec_table_names(
    d: Seq<u8>,
    h: ElfHeader,
    secs: Seq<SectionHeader>,
    i: int,
    dynamic: bool,
) -> Result<Seq<Seq<u8>>, ParseError> {
    match spec_linked_table(d, secs, secs[i].sh_link as int) {
        Err(e) => Err(e),
        Ok(t) => if dynamic {
            spec_needed_upto(d, h, secs[i], t, entry_count(secs[i]))
        } else {
            spec_symbols_upto(d, h, secs[i], t, entry_count(secs[i]))
        },
    }
}

pub open spec fn wanted_name(dynamic: bool) -> Seq<u8> {
    if dynamic { dynamic_name() } else { symtab_name() }
}

/// The names contributed, in table order, by those of the first `k` sections
/// that are named `.dynamic` (when `dynamic`) or `.symtab` (otherwise).
pub open spec fn spec_collect(
    d: Seq<u8>,
    h: ElfHeader,
    secs: Seq<SectionHeader>,
    names: Seq<Seq<u8>>,
    k: int,
    dynamic: bool,
) -> Result<Seq<Seq<u8>>, ParseError>
    decreases k,
{
    if k <= 0 {
        Ok(Seq::empty())
    } else {
        match spec_collect(d, h, secs, names, k - 1, dynamic) {
            Err(e) => Err(e),
            Ok(acc) => if names[k - 1] == wanted_name(dynamic) {
                match spec_table_names(d, h, secs, k - 1, dynamic) {
                    Err(e) => Err(e),
                    Ok(v) => Ok(acc + v),
                }
            } else {
                Ok(acc)
            },
        }
    }
}

proof fn lemma_collect_error_stays(
    d: Seq<u8>,
    h: ElfHeader,
    secs: Seq<SectionHeader>,
    names: Seq<Seq<u8>>,
    k: int,
    m: int,
    dynamic: bool,
)
    requires
        k <= m,
        spec_collect(d, h, secs, names, k, dynamic) is Err,
    ensures
        spec_collect(d, h, secs, names, m, dynamic) == spec_collect(d, h, secs, names, k, dynamic),
    decreases m - k,
{
    if k < m {
        lemma_collect_error_stays(d, h, secs, names, k, m - 1, dynamic);
    }
}

fn is_wanted_name(b: &Vec<u8>, dynamic: bool) -> (r: bool)
    ensures
        r == (b@ == wanted_name(dynamic)),
{
    if dynamic {
        let r = b.len() == 8 && b[0] == 0x2e && b[1] == 0x64 && b[2] == 0x79 && b[3] == 0x6e
            && b[4] == 0x61 && b[5] == 0x6d && b[6] == 0x69 && b[7] == 0x63;
        if r {
            assert(b@ =~= dynamic_name());
        }
        r
    } else {
        let r = b.len() == 7 && b[0] == 0x2e && b[1] == 0x73 && b[2] == 0x79 && b[3] == 0x6d
            && b[4] == 0x74 && b[5] == 0x61 && b[6] == 0x62;
        if r {
            assert(b@ =~= symtab_name());
        }
        r
    }
}

/// Collects the names given by every section named `.dynamic` (when
/// `dynamic`) or `.symtab` (otherwise), in table order.
fn collect_names(
    data: &[u8],
    h: ElfHeader,
    secs: &Vec<SectionHeader>,
    names: &Vec<Vec<u8>>,
    dynamic: bool,
) -> (r: Result<Vec<Vec<u8>>, ParseError>)
    requires
        names@.len() == secs@.len(),
    ensures
        match r {
            Ok(v) => spec_collect(data@, h, secs@, byte_views(names@), secs@.len() as int, dynamic)
                == Ok::<Seq<Seq<u8>>, ParseError>(byte_views(v@)),
            Err(e) => spec_collect(data@, h, secs@, byte_views(names@), secs@.len() as int, dynamic)
                == Err::<Seq<Seq<u8>>, ParseError>(e),
        },
{
    let ghost nv = byte_views(names@);
    let mut out: Vec<Vec<u8>> = Vec::new();
    let mut k: usize = 0;
    assert(byte_views(out@) =~= Seq::empty());
    while k < secs.len()
        invariant
            k <= secs@.len(),
            names@.len() == secs@.len(),
            nv == byte_views(names@),
            spec_collect(data@, h, secs@, nv, k as int, dynamic) == Ok::<Seq<Seq<u8>>, ParseError>(
                byte_views(out@),
            ),
        decreases secs.len() - k,
    {
        if is_wanted_name(&names[k], dynamic) {
            let got = match linked_table(data, secs, secs[k].sh_link as u64) {
                Ok(t) => walk_entries(data, h, secs[k], t, dynamic),
                Err(e) => Err(e),
            };
            match got {
                Ok(v) => {
                    let ghost before = out@;
                    let mut v = v;
                    let ghost added = v@;
                    out.append(&mut v);
                    assert(byte_views(out@) =~= byte_views(before) + byte_views(added));
                },
                Err(e) => {
                    proof {
                        lemma_collect_error_stays(
                            data@,
                            h,
                            secs@,
                            nv,
                            k as int + 1,
                            secs@.len() as int,
                            dynamic,
                        );
                    }
                    return Err(e);
                },
            }
        }
        k = k + 1;
    }
    Ok(out)
}

/// What a successful ELF decode yields, over mathematical values.
pub struct ElfModel {
    pub header: ElfHeader,
    pub sections: Seq<SectionHeader>,
    pub names: Seq<Seq<u8>>,
    pub needed: Seq<Seq<u8>>,
    pub symbols: Seq<Seq<u8>>,
}

/// The decode of an ELF image `d`, or the first failure met: a bad header, a
/// section header outside `d`, a section-name table index out of range, a
/// string table or a table entry outside `d`.
pub open spec fn spec_parse_elf(d: Seq<u8>) -> Result<ElfModel, ParseError> {
    match spec_elf_header(d) {
        Err(e) => Err(e),
        Ok(h) => match spec_section_headers(d, h) {
            Err(e) => Err(e),
            Ok(secs) => if h.shstrndx >= secs.len() {
                Err(ParseError::InvalidStringTableIndex)
            } else if !window_fits(d, secs[h.shstrndx as int]) {
                Err(ParseError::OutOfBounds)
            } else {
                match spec_section_names(d, secs, secs[h.shstrndx as int]) {
                    Err(e) => Err(e),
                    Ok(names) => match spec_collect(d, h, secs, names, secs.len() as int, true) {
                        Err(e) => Err(e),
                        Ok(needed) => match spec_collect(
                            d,
                            h,
                            secs,
                            names,
                            secs.len() as int,
                            false,
                        ) {
                            Err(e) => Err(e),
                            Ok(symbols) => Ok(
                                ElfModel { header: h, sections: secs, names, needed, symbols },
                            ),
                        },
                    },
                }
            },
        },
    }
}

/// One decoded section: its name and its header entry.
pub struct ElfSection {
    pub name: String,
    pub header: SectionHeader,
}

/// The structured result of decoding an ELF image.
pub struct ElfReport {
    pub header: ElfHeader,
    pub sections: Vec<ElfSection>,
    /// Shared objects named by `DT_NEEDED` entries of `.dynamic` sections.
    pub needed: Vec<String>,
    /// Non-empty symbol names of `.symtab` sections.
    pub symbols: Vec<String>,
}

pub open spec fn strings_match(v: Seq<String>, m: Seq<Seq<u8>>) -> bool {
    v.len() == m.len() && forall|i: int| 0 <= i < v.len() ==> #[trigger] v[i]@ == latin1(m[i])
}

impl ElfReport {
    /// This report holds the model `m`, each string as the characters of its
    /// bytes.
    pub open spec fn holds(&self, m: ElfModel) -> bool {
        &&& self.header == m.header
        &&& self.sections@.len() == m.sections.len()
        &&& m.names.len() == m.sections.len()
        &&& forall|i: int|
            0 <= i < m.sections.len() ==> (#[trigger] self.sections@[i]).header == m.sections[i]
                && self.sections@[i].name@ == latin1(m.names[i])
        &&& strings_match(self.needed@, m.needed)
        &&& strings_match(self.symbols@, m.symbols)
    }
}

fn to_strings(v: &Vec<Vec<u8>>) -> (r: Vec<String>)
    ensures
        strings_match(r@, byte_views(v@)),
{
    let mut out: Vec<String> = Vec::new();
    let mut i: usize = 0;
    while i < v.len()
        invariant
            i <= v@.len(),
            out@.len() == i,
            forall|j: int| 0 <= j < i ==> #[trigger] out@[j]@ == latin1(v@[j]@),
        decreases v.len() - i,
    {
        out.push(latin1_string(&v[i]));
        i = i + 1;
    }
    out
}

/// Decodes an ELF image: header, every section header with its name, the
/// shared objects that `.dynamic` sections name and the non-empty symbol
/// names of `.symtab` sections. Fails as `spec_parse_elf` says, with no
/// partial report.
pub fn parse_elf(data: &[u8]) -> (r: Result<ElfReport, ParseError>)
    ensures
        match r {
            Ok(rep) => spec_parse_elf(data@) is Ok && rep.holds(spec_parse_elf(data@)->Ok_0),
            Err(e) => spec_parse_elf(data@) == Err::<ElfModel, ParseError>(e),
        },
{
    let h = parse_elf_header(data)?;
    let secs = parse_section_headers(data, h)?;
    if h.shstrndx as usize >= secs.len() {
        return Err(ParseError::InvalidStringTableIndex);
    }
    let t = secs[h.shstrndx as usize];
    if t.sh_offset > data.len() as u64 || t.sh_size > data.len() as u64 - t.sh_offset {
        return Err(ParseError::OutOfBounds);
    }
    let names = read_section_names(data, &secs, t)?;
    assert(byte_views(names@).len() == names@.len());
    let needed = collect_names(data, h, &secs, &names, true)?;
    let symbols = collect_names(data, h, &secs, &names, false)?;
    let mut sections: Vec<ElfSection> = Vec::new();
    let mut i: usize = 0;
    while i < secs.len()
        invariant
            i <= secs@.len(),
            names@.len() == secs@.len(),
            sections@.len() == i,
            forall|j: int|
                0 <= j < i ==> (#[trigger] sections@[j]).header == secs@[j] && sections@[j].name@
                    == latin1(names@[j]@),
        decreases secs.len() - i,
    {
        sections.push(ElfSection { name: latin1_string(&names[i]), header: secs[i] });
        i = i + 1;
    }
    Ok(ElfReport { header: h, sections, needed: to_strings(&needed), symbols: to_strings(&symbols) })
}

} // verus!

verus! {

/// What an ELF report holds, with each string as its characters.
pub struct ElfView {
    pub header: ElfHeader,
    pub sections: Seq<(Seq<char>, SectionHeader)>,
    pub needed: Seq<Seq<char>>,
    pub symbols: Seq<Seq<char>>,
}

impl ElfReport {
    pub open spec fn view(&self) -> ElfView {
        ElfView {
            header: self.header,
            sections: self.sections@.map_values(|s: ElfSection| (s.name@, s.header)),
            needed: self.needed@.map_values(|s: String| s@),
            symbols: self.symbols@.map_values(|s: String| s@),
        }
    }
}

/// Decoding is a function of the image's bytes: two successful decodes of
/// the same bytes give reports with the same content.
pub proof fn lemma_elf_decode_deterministic(d: Seq<u8>, r1: ElfReport, r2: ElfReport)
    requires
        spec_parse_elf(d) is Ok,
        r1.holds(spec_parse_elf(d)->Ok_0),
        r2.holds(spec_parse_elf(d)->Ok_0),
    ensures
        r1.view() == r2.view(),
{
    assert(r1.view().sections =~= r2.view().sections);
    assert(r1.view().needed =~= r2.view().needed);
    assert(r1.view().symbols =~= r2.view().symbols);
}

/// An ELF image cut short inside its file header fails with
/// `TruncatedHeader`.
pub proof fn lemma_elf_truncated_header(d: Seq<u8>)
    requires
        starts_elf(d),
        d.len() < 6 || d.len() < header_len(d),
    ensures
        spec_parse_elf(d) == Err::<ElfModel, ParseError>(ParseError::TruncatedHeader),
{
}

/// An ELF image cut short before the end of a section header entry that
/// its header declares fails with `OutOfBounds`.
pub proof fn lemma_elf_truncated_section_table(d: Seq<u8>, k: int, i: int)
    requires
        spec_elf_header(d) is Ok,
        0 <= i < (spec_elf_header(d)->Ok_0).shnum,
        header_len(d) <= k < section_base(spec_elf_header(d)->Ok_0, i) + section_span(
            spec_elf_header(d)->Ok_0,
        ),
        k <= d.len(),
    ensures
        spec_parse_elf(d.subrange(0, k)) == Err::<ElfModel, ParseError>(ParseError::OutOfBounds),
{
    let t = d.subrange(0, k);
    let h = spec_elf_header(d)->Ok_0;
    assert(t[0] == d[0] && t[1] == d[1] && t[2] == d[2] && t[3] == d[3] && t[4] == d[4] && t[5]
        == d[5]);
    assert forall|j: int| 0 <= j < header_len(d) implies t[j] == d[j] by {}
    assert(spec_elf_header(t) == Ok::<ElfHeader, ParseError>(h));
    assert(!section_fits(t, h, i));
}

} // verus!
