//! The IEEE 754 single word, taken apart: sign, biased exponent and
//! mantissa, extracted and reassembled exactly.

use crate::sample::{word_exp, word_frac, word_sign};
use vstd::prelude::*;

verus! {

/// The three fields of an IEEE 754 single word.
#[derive(Debug, Clone, Copy, PartialEq, Eq, Structural)]
pub struct F32Components {
    pub sign: bool,
    pub exponent: u8,
    pub mantissa: u32,
}

/// A well-formed set of components: the mantissa fits its twenty-three
/// bits.
pub open spec fn components_wf(c: F32Components) -> bool {
    c.mantissa < 0x80_0000
}

/// Extraction of the three IEEE 754 fields.
pub trait ToF32Components {
    fn to_f32_components(&self) -> F32Components;
}

/// Reassembly from the three IEEE 754 fields, defined for well-formed
/// components.
pub trait FromF32Components {
    type Output;

    fn from_f32_components(components: F32Components) -> Self::Output
        requires
            components_wf(components),
    ;
}

impl ToF32Components for u32 {
    /// The word's sign, biased exponent and mantissa fields.
    #[inline(always)]
    fn to_f32_components(&self) -> (r: F32Components)
        ensures
            r.sign == word_sign(*self),
            r.exponent == word_exp(*self),
            r.mantissa == word_frac(*self),
            components_wf(r),
    {
        proof {
            lemma_component_fields(*self);
        }
        F32Components {
            sign: ((*self >> 31) & 1) != 0,
            exponent: ((*self >> 23) & 0xFF) as u8,
            mantissa: *self & 0x7F_FFFF,
        }
    }
}

impl FromF32Components for u32 {
    type Output = u32;

    /// The word with the given sign, biased exponent and mantissa
    /// fields.
    #[inline(always)]
    fn from_f32_components(components: F32Components) -> (r: u32)
        ensures
            word_sign(r) == components.sign,
            word_exp(r) == components.exponent,
            word_frac(r) == components.mantissa,
    {
        let s: u32 = if components.sign {
            1
        } else {
            0
        };
        proof {
            lemma_component_assembly(s, components.exponent as u32, components.mantissa);
        }
        let r: u32 = (s << 31) + ((components.exponent as u32) << 23) + components.mantissa;
        r
    }
}

/// Round trip: taking a word apart and reassembling its components gives
/// the word back.
pub proof fn lemma_components_round_trip(w: u32)
    ensures
        ({
            let s: u32 = if word_sign(w) {
                1u32
            } else {
                0u32
            };
            ((s << 31) + (word_exp(w) << 23) + word_frac(w)) as u32 == w
        }),
{
    assert(w >> 31 == 1u32 ==> (1u32 << 31) + (((w >> 23) & 0xFF) << 23) + (w & 0x7F_FFFF) == w)
        by (bit_vector);
    assert(w >> 31 != 1u32 ==> (0u32 << 31) + (((w >> 23) & 0xFF) << 23) + (w & 0x7F_FFFF) == w)
        by (bit_vector);
}

proof fn lemma_component_fields(w: u32)
    ensures
        ((w >> 31) & 1 != 0) == word_sign(w),
        (w >> 23) & 0xFF < 256,
        w & 0x7F_FFFF < 0x80_0000,
{
    assert(((w >> 31) & 1 != 0) == (w >> 31 == 1u32) && (w >> 23) & 0xFF < 256 && w & 0x7F_FFFF
        < 0x80_0000) by (bit_vector);
}

proof fn lemma_component_assembly(s: u32, e: u32, m: u32)
    requires
        s <= 1,
        e < 256,
        m < 0x80_0000,
    ensures
        (s << 31) + (e << 23) + m <= u32::MAX,
        word_sign(((s << 31) + (e << 23) + m) as u32) == (s == 1),
        word_exp(((s << 31) + (e << 23) + m) as u32) == e,
        word_frac(((s << 31) + (e << 23) + m) as u32) == m,
{
    assert((s << 31) + (e << 23) + m <= u32::MAX && ((((s << 31) + (e << 23) + m) as u32) >> 31
        == 1u32) == (s == 1) && ((((s << 31) + (e << 23) + m) as u32) >> 23) & 0xFF == e && (((s
        << 31) + (e << 23) + m) as u32) & 0x7F_FFFF == m) by (bit_vector)
        requires
            s <= 1u32 && e < 256u32 && m < 0x80_0000u32,
    ;
}

} // verus!
