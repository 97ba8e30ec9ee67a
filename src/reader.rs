//! Bounds-checked reads of fixed-width integers and NUL-terminated strings.
use vstd::prelude::*;

use crate::error::ParseError;

verus! {

/// Byte order of multi-byte fields.
#[derive(Debug, Clone, Copy, PartialEq, Eq, Structural)]
pub enum Endian {
    Little,
    Big,
}

pub open spec fn le2(d: Seq<u8>, o: int) -> int {
    d[o] + 256 * d[o + 1]
}

pub open spec fn le4(d: Seq<u8>, o: int) -> int {
    le2(d, o) + 0x1_0000 * le2(d, o + 2)
}

pub open spec fn le8(d: Seq<u8>, o: int) -> int {
    le4(d, o) + 0x1_0000_0000 * le4(d, o + 4)
}

pub open spec fn be2(d: Seq<u8>, o: int) -> int {
    256 * d[o] + d[o + 1]
}

pub open spec fn be4(d: Seq<u8>, o: int) -> int {
    0x1_0000 * be2(d, o) + be2(d, o + 2)
}

pub open spec fn be8(d: Seq<u8>, o: int) -> int {
    0x1_0000_0000 * be4(d, o) + be4(d, o + 4)
}

/// The unsigned value of the two bytes at `o` in byte order `e`.
pub open spec fn u16_at(d: Seq<u8>, o: int, e: Endian) -> u16 {
    (match e {
        Endian::Little => le2(d, o),
        Endian::Big => be2(d, o),
    }) as u16
}

/// The unsigned value of the four bytes at `o` in byte order `e`.
pub open spec fn u32_at(d: Seq<u8>, o: int, e: Endian) -> u32 {
    (match e {
        Endian::Little => le4(d, o),
        Endian::Big => be4(d, o),
    }) as u32
}

/// The unsigned value of the eight bytes at `o` in byte order `e`.
pub open spec fn u64_at(d: Seq<u8>, o: int, e: Endian) -> u64 {
    (match e {
        Endian::Little => le8(d, o),
        Endian::Big => be8(d, o),
    }) as u64
}

/// The `width` bytes at `o` lie inside `d`.
pub open spec fn fits(d: Seq<u8>, o: int, width: int) -> bool {
    0 <= o && o + width <= d.len()
}

pub open spec fn spec_read_u16(d: Seq<u8>, o: int, e: Endian) -> Result<u16, ParseError> {
    if fits(d, o, 2) { Ok(u16_at(d, o, e)) } else { Err(ParseError::OutOfBounds) }
}

pub open spec fn spec_read_u32(d: Seq<u8>, o: int, e: Endian) -> Result<u32, ParseError> {
    if fits(d, o, 4) { Ok(u32_at(d, o, e)) } else { Err(ParseError::OutOfBounds) }
}

pub open spec fn spec_read_u64(d: Seq<u8>, o: int, e: Endian) -> Result<u64, ParseError> {
    if fits(d, o, 8) { Ok(u64_at(d, o, e)) } else { Err(ParseError::OutOfBounds) }
}

fn pair(data: &[u8], o: usize, e: Endian) -> (r: u16)
    requires
        o + 2 <= data.len(),
    ensures
        r == u16_at(data@, o as int, e),
        r == (match e {
            Endian::Little => le2(data@, o as int),
            Endian::Big => be2(data@, o as int),
        }),
{
    let a = data[o] as u16;
    let b = data[o + 1] as u16;
    match e {
        Endian::Little => a + 256 * b,
        Endian::Big => 256 * a + b,
    }
}

fn quad(data: &[u8], o: usize, e: Endian) -> (r: u32)
    requires
        o + 4 <= data.len(),
    ensures
        r == u32_at(data@, o as int, e),
        r == (match e {
            Endian::Little => le4(data@, o as int),
            Endian::Big => be4(data@, o as int),
        }),
{
    let a = pair(data, o, e) as u32;
    let b = pair(data, o + 2, e) as u32;
    match e {
        Endian::Little => a + 0x1_0000 * b,
        Endian::Big => 0x1_0000 * a + b,
    }
}

/// Reads the two bytes at `offset`, or fails with `OutOfBounds` where they do
/// not both lie inside `data`.
pub fn read_u16(data: &[u8], offset: usize, endian: Endian) -> (r: Result<u16, ParseError>)
    ensures
        r == spec_read_u16(data@, offset as int, endian),
{
    if offset > data.len() || data.len() - offset < 2 {
        return Err(ParseError::OutOfBounds);
    }
    Ok(pair(data, offset, endian))
}

/// Reads the four bytes at `offset`, or fails with `OutOfBounds` where they do
/// not all lie inside `data`.
pub fn read_u32(data: &[u8], offset: usize, endian: Endian) -> (r: Result<u32, ParseError>)
    ensures
        r == spec_read_u32(data@, offset as int, endian),
{
    if offset > data.len() || data.len() - offset < 4 {
        return Err(ParseError::OutOfBounds);
    }
    Ok(quad(data, offset, endian))
}

/// Reads the eight bytes at `offset`, or fails with `OutOfBounds` where they
/// do not all lie inside `data`.
pub fn read_u64(data: &[u8], offset: usize, endian: Endian) -> (r: Result<u64, ParseError>)
    ensures
        r == spec_read_u64(data@, offset as int, endian),
{
    if offset > data.len() || data.len() - offset < 8 {
        return Err(ParseError::OutOfBounds);
    }
    let a = quad(data, offset, endian) as u64;
    let b = quad(data, offset + 4, endian) as u64;
    match endian {
        Endian::Little => Ok(a + 0x1_0000_0000 * b),
        Endian::Big => Ok(0x1_0000_0000 * a + b),
    }
}

} // verus!

verus! {

/// `read_u16` at an offset computed in 64 bits.
pub fn read_u16_at(data: &[u8], offset: u64, endian: Endian) -> (r: Result<u16, ParseError>)
    ensures
        r == spec_read_u16(data@, offset as int, endian),
{
    if offset > data.len() as u64 {
        return Err(ParseError::OutOfBounds);
    }
    read_u16(data, offset as usize, endian)
}

/// `read_u32` at an offset computed in 64 bits.
pub fn read_u32_at(data: &[u8], offset: u64, endian: Endian) -> (r: Result<u32, ParseError>)
    ensures
        r == spec_read_u32(data@, offset as int, endian),
{
    if offset > data.len() as u64 {
        return Err(ParseError::OutOfBounds);
    }
    read_u32(data, offset as usize, endian)
}

/// `read_u64` at an offset computed in 64 bits.
pub fn read_u64_at(data: &[u8], offset: u64, endian: Endian) -> (r: Result<u64, ParseError>)
    ensures
        r == spec_read_u64(data@, offset as int, endian),
{
    if offset > data.len() as u64 {
        return Err(ParseError::OutOfBounds);
    }
    read_u64(data, offset as usize, endian)
}

} // verus!

verus! {

/// Each byte read as the character with the same code point.
pub open spec fn latin1(b: Seq<u8>) -> Seq<char> {
    Seq::new(b.len(), |k: int| b[k] as char)
}

/// The index of the first NUL byte at or after `i`, or `hi` if none comes
/// before it.
pub open spec fn cstr_end(d: Seq<u8>, i: int, hi: int) -> int
    decreases hi - i,
{
    if i >= hi || d[i] == 0 {
        i
    } else {
        cstr_end(d, i + 1, hi)
    }
}

/// The bytes from byte `lo + start` of the window `[lo, lo + size)` of `d`
/// up to its first NUL byte or the window's end; it fails where `start` lies
/// outside the window.
pub open spec fn spec_cbytes_in(d: Seq<u8>, lo: int, size: int, start: int) -> Result<
    Seq<u8>,
    ParseError,
> {
    if 0 <= start < size {
        Ok(d.subrange(lo + start, cstr_end(d, lo + start, lo + size)))
    } else {
        Err(ParseError::OutOfBounds)
    }
}

/// `spec_cbytes_in` read as characters.
pub open spec fn spec_cstring_in(d: Seq<u8>, lo: int, size: int, start: int) -> Result<
    Seq<char>,
    ParseError,
> {
    match spec_cbytes_in(d, lo, size, start) {
        Ok(b) => Ok(latin1(b)),
        Err(e) => Err(e),
    }
}

/// The string at `start` in the whole of `d`.
pub open spec fn spec_cstring(d: Seq<u8>, start: int) -> Result<Seq<char>, ParseError> {
    spec_cstring_in(d, 0, d.len() as int, start)
}

proof fn lemma_cstr_end_skip(d: Seq<u8>, j: int, i: int, hi: int)
    requires
        j <= i <= hi,
        forall|k: int| j <= k < i ==> d[k] != 0,
    ensures
        cstr_end(d, j, hi) == cstr_end(d, i, hi),
    decreases i - j,
{
    if j < i {
        lemma_cstr_end_skip(d, j + 1, i, hi);
    }
}

/// Relies on `String::push`: appends one character at the end.
#[verifier::external_body]
fn push_char(s: &mut String, c: char)
    ensures
        final(s)@ == old(s)@.push(c),
{
    s.push(c)
}

/// Reads the bytes of the NUL-terminated string at `start` inside the
/// window `[lo, lo + size)` of `data`; fails with `OutOfBounds` where `start`
/// is not inside the window.
pub fn read_cbytes_in(data: &[u8], lo: u64, size: u64, start: u64) -> (r: Result<Vec<u8>, ParseError>)
    requires
        lo + size <= data.len(),
    ensures
        match r {
            Ok(b) => spec_cbytes_in(data@, lo as int, size as int, start as int) == Ok::<
                Seq<u8>,
                ParseError,
            >(b@),
            Err(e) => spec_cbytes_in(data@, lo as int, size as int, start as int) == Err::<
                Seq<u8>,
                ParseError,
            >(e),
        },
{
    if start >= size {
        return Err(ParseError::OutOfBounds);
    }
    let hi = (lo + size) as usize;
    let first = (lo + start) as usize;
    let mut i = first;
    let mut out: Vec<u8> = Vec::new();
    while i < hi && data[i] != 0
        invariant
            first <= i <= hi,
            hi <= data.len(),
            hi == lo + size,
            first == lo + start,
            out@ == data@.subrange(first as int, i as int),
            forall|k: int| first <= k < i ==> data@[k] != 0,
        decreases hi - i,
    {
        out.push(data[i]);
        i = i + 1;
        assert(out@ =~= data@.subrange(first as int, i as int));
    }
    proof {
        lemma_cstr_end_skip(data@, first as int, i as int, hi as int);
    }
    Ok(out)
}

/// The characters whose code points are the bytes of `b`.
pub fn latin1_string(b: &Vec<u8>) -> (r: String)
    ensures
        r@ == latin1(b@),
{
    let mut s = String::new();
    let mut i: usize = 0;
    while i < b.len()
        invariant
            i <= b@.len(),
            s@ == latin1(b@.subrange(0, i as int)),
        decreases b.len() - i,
    {
        push_char(&mut s, b[i] as char);
        i = i + 1;
        assert(s@ =~= latin1(b@.subrange(0, i as int)));
    }
    assert(b@.subrange(0, b@.len() as int) =~= b@);
    s
}

/// Reads the NUL-terminated string at `start` inside the window
/// `[lo, lo + size)` of `data`, each byte taken as one character.
pub fn read_cstring_in(data: &[u8], lo: u64, size: u64, start: u64) -> (r: Result<String, ParseError>)
    requires
        lo + size <= data.len(),
    ensures
        match r {
            Ok(s) => spec_cstring_in(data@, lo as int, size as int, start as int) == Ok::<
                Seq<char>,
                ParseError,
            >(s@),
            Err(e) => spec_cstring_in(data@, lo as int, size as int, start as int) == Err::<
                Seq<char>,
                ParseError,
            >(e),
        },
{
    match read_cbytes_in(data, lo, size, start) {
        Ok(b) => Ok(latin1_string(&b)),
        Err(e) => Err(e),
    }
}

/// Reads the NUL-terminated string that starts at `start`: the bytes up to
/// the first NUL or the end of `data`, each taken as one character. Fails with
/// `OutOfBounds` where `start` is not an index of `data`.
pub fn read_cstring(data: &[u8], start: usize) -> (r: Result<String, ParseError>)
    ensures
        match r {
            Ok(s) => spec_cstring(data@, start as int) == Ok::<Seq<char>, ParseError>(s@),
            Err(e) => spec_cstring(data@, start as int) == Err::<Seq<char>, ParseError>(e),
        },
{
    read_cstring_in(data, 0, data.len() as u64, start as u64)
}

} // verus!
