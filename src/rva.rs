//! Translation of relative virtual addresses into file offsets.
use vstd::prelude::*;

use crate::error::ParseError;

verus! {

/// Section `s`, given as (virtual address, raw data offset, raw size), maps `rva`.
pub open spec fn maps(s: (u32, u32, u32), rva: u32) -> bool {
    s.0 <= rva && rva < s.0 + s.2
}

/// The file offset of `rva` through the first section from index `i` on that
/// maps it.
pub open spec fn spec_resolve_from(secs: Seq<(u32, u32, u32)>, rva: u32, i: int) -> Result<
    u64,
    ParseError,
>
    decreases secs.len() - i,
{
    if i < 0 || i >= secs.len() {
        Err(ParseError::UnmappedAddress)
    } else if maps(secs[i], rva) {
        Ok((secs[i].1 + (rva - secs[i].0)) as u64)
    } else {
        spec_resolve_from(secs, rva, i + 1)
    }
}

/// The file offset of `rva` through the first section of `secs` that maps
/// it, or `UnmappedAddress`.
pub open spec fn spec_resolve(secs: Seq<(u32, u32, u32)>, rva: u32) -> Result<u64, ParseError> {
    spec_resolve_from(secs, rva, 0)
}

/// Maps `rva` to a file offset through the first section, in table order,
/// whose `[virtual address, virtual address + raw size)` holds it: the
/// offset is the raw data offset plus the distance from the virtual address.
pub fn rva_to_file_offset(rva: u32, sections: &[(u32, u32, u32)]) -> (r: Result<u64, ParseError>)
    ensures
        r == spec_resolve(sections@, rva),
        r is Err ==> r == Err::<u64, ParseError>(ParseError::UnmappedAddress),
        r is Ok ==> r.unwrap() <= 2 * 0xFFFF_FFFFu64,
{
    let mut i: usize = 0;
    while i < sections.len()
        invariant
            0 <= i <= sections@.len(),
            spec_resolve(sections@, rva) == spec_resolve_from(sections@, rva, i as int),
        decreases sections.len() - i,
    {
        let (va, ptr, size) = sections[i];
        if rva >= va && (rva as u64) < va as u64 + size as u64 {
            return Ok(ptr as u64 + (rva - va) as u64);
        }
        i = i + 1;
    }
    Err(ParseError::UnmappedAddress)
}

} // verus!
