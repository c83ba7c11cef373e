//! Translation of chunk coordinates into a region coordinate and the chunk's
//! place inside that region.
use vstd::prelude::*;

verus! {

/// Number of chunks along each side of a region.
pub const REGION_WIDTH: i32 = 32;

/// The region that holds chunk coordinate `c` on one axis: `floor(c / 32)`.
/// (`/` on `int` rounds towards negative infinity for a positive divisor.)
pub open spec fn region_of(c: int) -> int {
    c / 32
}

/// The place of chunk coordinate `c` inside its region on one axis, in `[0, 32)`.
pub open spec fn offset_of(c: int) -> int {
    c - region_of(c) * 32
}

/// A chunk's region coordinate and its place inside that region.
#[derive(Clone, Copy, Debug, PartialEq, Eq)]
pub struct RegionAndOffset {
    pub region_x: i32,
    pub region_z: i32,
    pub region_chunk_x: u8,
    pub region_chunk_z: u8,
}

/// Floor division of one chunk coordinate by the region width.
fn floor_region(c: i32) -> (r: i32)
    ensures
        r as int == region_of(c as int),
{
    if c >= 0 {
        c / REGION_WIDTH
    } else {
        let m: i32 = -(c + 1);
        let q: i32 = m / REGION_WIDTH;
        proof {
            assert(q as int == m as int / 32);
            assert(-(q as int) - 1 == (c as int) / 32) by (nonlinear_arith)
                requires
                    m as int == -(c as int) - 1,
                    q as int == m as int / 32,
                    m >= 0,
            ;
        }
        -q - 1
    }
}

impl RegionAndOffset {
    /// The region that holds chunk (`chunk_x`, `chunk_z`), and the chunk's
    /// offset inside it. Negative coordinates round down, so chunk -1 lies
    /// in region -1 at offset 31.
    pub fn from_chunk(chunk_x: i32, chunk_z: i32) -> (r: Self)
        ensures
            r.region_x as int == region_of(chunk_x as int),
            r.region_z as int == region_of(chunk_z as int),
            r.region_chunk_x as int == offset_of(chunk_x as int),
            r.region_chunk_z as int == offset_of(chunk_z as int),
    {
        let region_x = floor_region(chunk_x);
        let region_z = floor_region(chunk_z);
        proof {
            lemma_region_offset(chunk_x as int);
            lemma_region_offset(chunk_z as int);
        }
        let dx = chunk_x as i64 - region_x as i64 * 32;
        let dz = chunk_z as i64 - region_z as i64 * 32;
        RegionAndOffset {
            region_x,
            region_z,
            region_chunk_x: dx as u8,
            region_chunk_z: dz as u8,
        }
    }
}

/// Every chunk coordinate, negative ones included, lies in region
/// `floor(c / 32)` at an offset in `[0, 32)`, and the two give the
/// coordinate back.
pub proof fn lemma_region_offset(c: int)
    ensures
        0 <= offset_of(c) < 32,
        region_of(c) * 32 + offset_of(c) == c,
        region_of(c) * 32 <= c < region_of(c) * 32 + 32,
{
}

} // verus!
