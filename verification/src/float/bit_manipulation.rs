//! Exponential bit-depth reduction: clearing low mantissa bits of the
//! raw word, which coarsens the sample relative to its magnitude.

use super::conversion::{FromF32Components, ToF32Components, F32Components};
use crate::sample::{word_exp, word_frac, word_sign};
use vstd::prelude::*;

verus! {

/// Errors of the checked bit-depth reduction entry points.
#[derive(Debug, Clone, Copy, PartialEq, Eq, Structural)]
pub enum BitReductionError {
    OverBitReduction,
    InputExceedsRange,
}

/// The mantissa with its low `depth` bits cleared.
pub open spec fn reduced_mantissa(m: u32, depth: u8) -> u32 {
    (m >> (depth as u32)) << (depth as u32)
}

/// Clears the low `bit_depth` bits of the sample's mantissa; a zero
/// depth passes the word through untouched.
#[inline(always)]
pub fn bit_reduce_exp_unchecked(input: u32, bit_depth: u8) -> (r: u32)
    requires
        bit_depth <= 23,
    ensures
        bit_depth != 0 ==> word_sign(r) == word_sign(input) && word_exp(r) == word_exp(input)
            && word_frac(r) == reduced_mantissa(word_frac(input), bit_depth),
        bit_depth == 0 ==> r == input,
{
    if bit_depth != 0 {
        let mut components = input.to_f32_components();
        proof {
            assert(word_frac(input) >> (bit_depth as u32) << (bit_depth as u32) < 0x80_0000)
                by (bit_vector)
                requires
                    word_frac(input) < 0x80_0000u32 && bit_depth <= 23u8,
            ;
        }
        components = F32Components {
            mantissa: (components.mantissa >> bit_depth as u32) << bit_depth as u32,
            ..components
        };
        u32::from_f32_components(components)
    } else {
        input
    }
}

/// Checked exponential bit-depth reduction: at most twenty-three mantissa
/// bits can be cleared.
pub fn bit_reduce_exp(input: u32, bit_depth: u8) -> (r: Result<u32, BitReductionError>)
    ensures
        bit_depth > 23 ==> r == Err::<u32, BitReductionError>(BitReductionError::OverBitReduction),
        0 < bit_depth <= 23 ==> r is Ok && word_sign(r->Ok_0) == word_sign(input) && word_exp(
            r->Ok_0,
        ) == word_exp(input) && word_frac(r->Ok_0) == reduced_mantissa(
            word_frac(input),
            bit_depth,
        ),
        bit_depth == 0 ==> r == Ok::<u32, BitReductionError>(input),
{
    if bit_depth > 23 {
        return Err(BitReductionError::OverBitReduction);
    }
    Ok(bit_reduce_exp_unchecked(input, bit_depth))
}

} // verus!
