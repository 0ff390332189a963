//! First decode stage: magic, version, and the six record counts, read twice
//! (once from the 32-bit sub-header only to locate the 64-bit sub-header, and
//! once authoritatively from the 64-bit sub-header).

use vstd::prelude::*;
use crate::bytes::be_u32_at;
use crate::error::TzError;

verus! {

/// The fixed 4-byte tag every TZif buffer begins with.
pub const MAGIC: u32 = 0x545A6966;

/// The authoritative record counts of a TZif buffer, read from the 64-bit
/// sub-header, plus the byte offset `v2_header_start` at which that sub-header
/// begins. `v2_header_start` is always computed from the 32-bit sub-header's
/// counts, never read from the buffer.
#[derive(Debug, PartialEq, Eq, Structural, Clone, Copy)]
pub struct Header {
    pub tzh_ttisutcnt: usize,
    pub tzh_ttisstdcnt: usize,
    pub tzh_leapcnt: usize,
    pub tzh_timecnt: usize,
    pub tzh_typecnt: usize,
    pub tzh_charcnt: usize,
    pub v2_header_start: usize,
}

/// Where the 64-bit sub-header starts: the 32-bit sub-header (44 bytes)
/// followed by the 32-bit body, whose size follows from the counts stored at
/// offsets 0x14..0x2c (5 bytes per transition, 6 per local-time type, 8 per
/// leap record, 1 per abbreviation char, 1 per std flag, 1 per utc flag).
pub open spec fn spec_v2_start(b: Seq<u8>) -> int {
    be_u32_at(b, 0x20) * 5 + be_u32_at(b, 0x24) * 6 + be_u32_at(b, 0x1C) * 8 + be_u32_at(b, 0x28)
        + be_u32_at(b, 0x18) + be_u32_at(b, 0x14) + 44
}

/// The counts stored at offsets 0x14..0x2c relative to `base`, as a `Header`
/// whose 64-bit sub-header starts at `base`.
pub open spec fn spec_header_at(b: Seq<u8>, base: int) -> Header {
    Header {
        tzh_ttisutcnt: be_u32_at(b, base + 0x14) as usize,
        tzh_ttisstdcnt: be_u32_at(b, base + 0x18) as usize,
        tzh_leapcnt: be_u32_at(b, base + 0x1C) as usize,
        tzh_timecnt: be_u32_at(b, base + 0x20) as usize,
        tzh_typecnt: be_u32_at(b, base + 0x24) as usize,
        tzh_charcnt: be_u32_at(b, base + 0x28) as usize,
        v2_header_start: base as usize,
    }
}

/// Everything `parse_header` does, as a function of the buffer alone.
pub open spec fn spec_parse_header(b: Seq<u8>) -> Result<Header, TzError> {
    if b.len() < 4 {
        Err(TzError::BoundsError)
    } else if be_u32_at(b, 0) != MAGIC {
        Err(TzError::InvalidMagic)
    } else if b.len() < 5 {
        Err(TzError::BoundsError)
    } else if b[4] != 50 && b[4] != 51 {
        Err(TzError::UnsupportedFormat)
    } else if b.len() < 44 {
        Err(TzError::BoundsError)
    } else if spec_v2_start(b) + 44 > b.len() {
        Err(TzError::BoundsError)
    } else {
        Ok(spec_header_at(b, spec_v2_start(b)))
    }
}

} // verus!
