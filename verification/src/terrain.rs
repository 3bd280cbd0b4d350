use crate::error::TerrainError;
use vstd::arithmetic::power2::{lemma2_to64, lemma_pow2_unfold, pow2};
use vstd::prelude::*;

verus! {

/// Deepest subdivision whose grid side still fits in 32 bits.
pub const MAX_DEPTH: u8 = 31;

/// Number of cells along one side of a cube face at subdivision `depth`:
/// two to the power `depth`.
pub fn face_resolution(depth: u8) -> (out: Result<u32, TerrainError>)
    ensures
        out is Ok <==> depth <= MAX_DEPTH,
        out matches Ok(side) ==> side == pow2(depth as nat),
        out matches Err(e) ==> e == TerrainError::InvalidArgument,
{
    if depth > MAX_DEPTH {
        return Err(TerrainError::InvalidArgument);
    }
    let mut side: u32 = 1;
    let mut level: u8 = 0;
    proof {
        lemma2_to64();
    }
    while level < depth
        invariant
            level <= depth <= MAX_DEPTH,
            side == pow2(level as nat),
            side * pow2((31 - level) as nat) == 0x8000_0000,
        decreases depth - level,
    {
        proof {
            let rest = (31 - level) as nat;
            lemma_pow2_unfold(rest);
            lemma_pow2_unfold((level + 1) as nat);
            assert(side * (2 * pow2((rest - 1) as nat)) == (2 * side) * pow2((rest - 1) as nat))
                by (nonlinear_arith);
            assert(2 * side <= 0x8000_0000) by (nonlinear_arith)
                requires
                    (2 * side) * pow2((rest - 1) as nat) == 0x8000_0000,
                    pow2((rest - 1) as nat) >= 1,
                    side >= 0,
            ;
        }
        side = side * 2;
        level = level + 1;
    }
    Ok(side)
}

/// Whether a buffer of `len` elevations fits a grid of `resolution` samples
/// a side, which has one elevation for each of its `resolution * resolution`
/// samples.
pub fn check_sample_buffer(resolution: u32, len: usize) -> (out: Result<(), TerrainError>)
    ensures
        out is Ok <==> len == resolution * resolution,
        out matches Err(e) ==> e == TerrainError::SizeMismatch,
{
    assert(resolution * resolution <= 0xFFFF_FFFF * 0xFFFF_FFFF) by (nonlinear_arith)
        requires
            resolution <= 0xFFFF_FFFF,
    ;
    let wanted: u64 = (resolution as u64) * (resolution as u64);
    if len as u64 == wanted {
        Ok(())
    } else {
        Err(TerrainError::SizeMismatch)
    }
}

} // verus!
