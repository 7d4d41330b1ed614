//! Envelope generators: per-sample curve machines that move the output
//! from an anchor level toward a stage target along a numerically
//! stabilized normalized exponential, advancing through a fixed set of
//! ordered stages.

pub mod adsr;
pub mod ar;
pub mod multi_stage;

use crate::sample::{
    add_of, add_word, clamp_of, clamp_word, div_of, div_word, exp_arg_of, exp_num, exp_word,
    le_word, lemma_add_of_like, lemma_div_of_like, lemma_exp_arg_limit, lemma_mul_of_like,
    lemma_nan_word, lemma_sub_of_like, lemma_word_from_int_holds, lt_word, mul_goes_nan, mul_of,
    mul_word, signum_of, signum_word, sub_of, sub_word, word_is_finite, word_is_nan, word_like,
    word_lt, EXP_ARG_LIMIT, POS_ONE,
};
use vstd::arithmetic::mul::lemma_mul_strictly_positive;
use vstd::arithmetic::power2::{
    lemma2_to64, lemma_pow2_adds, lemma_pow2_pos, lemma_pow2_strictly_increases, pow2,
};
use vstd::prelude::*;

verus! {

/// The largest allowed curvature magnitude, ten.
pub const BIGGEST_SLOPE: u32 = 0x4120_0000;

/// Minus ten, the other end of the allowed curvature range.
pub const BIGGEST_SLOPE_NEG: u32 = 0xC120_0000;

/// A hundredth: below this magnitude the curve degenerates to a linear
/// ramp, avoiding division by a vanishing exponential denominator.
pub const SLOPE_LINEAR_LIMIT: u32 = 0x3C23_D70A;

/// Minus a hundredth.
pub const SLOPE_LINEAR_LIMIT_NEG: u32 = 0xBC23_D70A;

/// The machine epsilon, the smallest allowed stage time increment.
pub const EPSILON_WORD: u32 = 0x3400_0000;

/// The largest finite sample, the cap of the stage time increment.
pub const MAX_WORD: u32 = 0x7F7F_FFFF;

/// A hundred machine epsilons: how close the computed value must come to
/// the stage target to count as having reached it.
pub const COMPLETION_TOLERANCE: u32 = 0x3748_0000;

/// A ten-thousandth, the stage time increment a fresh machine starts
/// with.
pub const INIT_STAGE_TIME: u32 = 0x38D1_B717;

/// Whether the curve takes its exponential path: the slope's magnitude
/// is above a hundredth (which also means the slope is a number).
pub open spec fn nexp_curved(slope: u32) -> bool {
    word_lt(SLOPE_LINEAR_LIMIT, slope) || word_lt(slope, SLOPE_LINEAR_LIMIT_NEG)
}

/// The numerically stabilized normalized exponential:
/// `(exp(slope * t) - 1) / (exp(slope) - 1)` for slopes of magnitude
/// above a hundredth, the linear ramp `t` below it.
pub open spec fn normalized_exp_of(val: u32, slope: u32) -> u32 {
    if nexp_curved(slope) {
        div_of(
            sub_of(exp_num(exp_arg_of(mul_of(slope, val))), POS_ONE),
            sub_of(exp_num(exp_arg_of(slope)), POS_ONE),
        )
    } else {
        val
    }
}

/// The exponential path is pinned only when its arguments are numbers:
/// for a not-a-number product the approximation works on
/// non-deterministic payload bits and nothing is claimed of it. Both
/// exponential arguments saturate at [`EXP_ARG_LIMIT`], the bound the
/// wrapper demands.
pub fn normalized_exp(val: u32, slope: u32) -> (r: u32)
    ensures
        !nexp_curved(slope) ==> r == val,
        nexp_curved(slope) && !mul_goes_nan(slope, val) ==> word_like(
            r,
            normalized_exp_of(val, slope),
        ),
{
    proof {
        lemma_exp_arg_limit();
    }
    if lt_word(SLOPE_LINEAR_LIMIT, slope) || lt_word(slope, SLOPE_LINEAR_LIMIT_NEG) {
        let u = mul_word(slope, val);
        let ua = if le_word(u, EXP_ARG_LIMIT) {
            u
        } else {
            EXP_ARG_LIMIT
        };
        let sa = if le_word(slope, EXP_ARG_LIMIT) {
            slope
        } else {
            EXP_ARG_LIMIT
        };
        let e1 = exp_word(ua);
        let e2 = exp_word(sa);
        let n1 = sub_word(e1, POS_ONE);
        let n2 = sub_word(e2, POS_ONE);
        let r = div_word(n1, n2);
        proof {
            if !mul_goes_nan(slope, val) {
                lemma_div_of_like(
                    n1,
                    n2,
                    sub_of(exp_num(exp_arg_of(mul_of(slope, val))), POS_ONE),
                    sub_of(exp_num(exp_arg_of(slope)), POS_ONE),
                );
            }
        }
        r
    } else {
        val
    }
}

/// The effective slope of a stage: the configured slope times the sign
/// of the distance from anchor to target, which keeps the bend in the
/// same perceptual direction whether the stage rises or falls.
pub open spec fn curve_slope_of(begin: u32, end: u32, slope: u32) -> u32 {
    mul_of(signum_of(sub_of(end, begin)), slope)
}

/// One evaluation of the per-stage curve: with `distance` from anchor to
/// target, `distance * normalized_exp(t, sign(distance) * slope) + begin`.
pub open spec fn curve_value_of(begin: u32, end: u32, slope: u32, t: u32) -> u32 {
    let distance = sub_of(end, begin);
    add_of(mul_of(distance, normalized_exp_of(t, curve_slope_of(begin, end, slope))), begin)
}

/// Whether the curve evaluation stays within pinned arithmetic: either
/// the linear ramp is taken, or the exponential's argument is a number.
pub open spec fn curve_numeric(begin: u32, end: u32, slope: u32, t: u32) -> bool {
    let s2 = curve_slope_of(begin, end, slope);
    !nexp_curved(s2) || !mul_goes_nan(s2, t)
}

pub fn curve_value(begin: u32, end: u32, slope: u32, t: u32) -> (r: u32)
    ensures
        curve_numeric(begin, end, slope, t) ==> word_like(
            r,
            curve_value_of(begin, end, slope, t),
        ),
{
    let distance = sub_word(end, begin);
    let sig = signum_word(distance);
    let s2 = mul_word(sig, slope);
    let nexp = normalized_exp(t, s2);
    let left = mul_word(distance, nexp);
    let r = add_word(left, begin);
    proof {
        lemma_nan_word();
        let dist_s = sub_of(end, begin);
        let s2_s = curve_slope_of(begin, end, slope);
        assert(signum_of(distance) == signum_of(dist_s));
        lemma_mul_of_like(sig, slope, signum_of(dist_s), slope);
        assert(word_like(s2, s2_s));
        if curve_numeric(begin, end, slope, t) {
            if nexp_curved(s2_s) {
                // the effective slope is a number, so the executable word
                // matches the canonical one exactly
                assert(s2 == s2_s);
                lemma_mul_of_like(distance, nexp, dist_s, normalized_exp_of(t, s2_s));
            } else {
                assert(!nexp_curved(s2));
                lemma_mul_of_like(distance, nexp, dist_s, normalized_exp_of(t, s2_s));
            }
            lemma_add_of_like(left, begin, mul_of(dist_s, normalized_exp_of(t, s2_s)), begin);
        }
    }
    r
}

/// The canonical curve evaluation is blind to not-a-number payloads: on
/// stage parameters and times that agree up to them, it returns the same
/// canonical word, and its pinning condition agrees.
pub proof fn lemma_curve_of_like(
    b1: u32,
    e1: u32,
    s1: u32,
    t1: u32,
    b2: u32,
    e2: u32,
    s2: u32,
    t2: u32,
)
    requires
        word_like(b1, b2),
        word_like(e1, e2),
        word_like(s1, s2),
        word_like(t1, t2),
    ensures
        curve_value_of(b1, e1, s1, t1) == curve_value_of(b2, e2, s2, t2),
        curve_numeric(b1, e1, s1, t1) == curve_numeric(b2, e2, s2, t2),
{
    lemma_nan_word();
    lemma_sub_of_like(e1, b1, e2, b2);
    let d = sub_of(e1, b1);
    lemma_mul_of_like(signum_of(d), s1, signum_of(d), s2);
    let sl = curve_slope_of(b1, e1, s1);
    lemma_mul_of_like(sl, t1, sl, t2);
    if nexp_curved(sl) {
        lemma_mul_of_like(d, normalized_exp_of(t1, sl), d, normalized_exp_of(t2, sl));
        lemma_add_of_like(
            mul_of(d, normalized_exp_of(t1, sl)),
            b1,
            mul_of(d, normalized_exp_of(t2, sl)),
            b2,
        );
    } else {
        lemma_mul_of_like(d, t1, d, t2);
        lemma_add_of_like(mul_of(d, t1), b1, mul_of(d, t2), b2);
    }
}

/// The per-sample time increment derived from a stage duration in
/// seconds: the reciprocal of the duration in samples, kept strictly
/// positive by clamping between the machine epsilon and the largest
/// finite sample.
pub open spec fn time_param_of(secs: u32, sr: u32) -> u32 {
    clamp_of(div_of(POS_ONE, mul_of(secs, sr)), EPSILON_WORD, MAX_WORD)
}

pub fn time_param(secs: u32, sr: u32) -> (r: u32)
    ensures
        word_like(r, time_param_of(secs, sr)),
{
    proof {
        lemma_envelope_words();
        lemma_nan_word();
    }
    clamp_word(div_word(POS_ONE, mul_word(secs, sr)), EPSILON_WORD, MAX_WORD)
}

/// The curvature clamped into `[-10, 10]`.
pub open spec fn slope_param_of(slope: u32) -> u32 {
    clamp_of(slope, BIGGEST_SLOPE_NEG, BIGGEST_SLOPE)
}

pub fn slope_param(slope: u32) -> (r: u32)
    ensures
        r == slope_param_of(slope),
{
    proof {
        lemma_envelope_words();
    }
    clamp_word(slope, BIGGEST_SLOPE_NEG, BIGGEST_SLOPE)
}

/// Classification of the envelope parameter bound words: all comparable,
/// with the bounds of each clamp in order.
pub proof fn lemma_envelope_words()
    ensures
        word_is_finite(EPSILON_WORD),
        word_is_finite(MAX_WORD),
        word_is_finite(BIGGEST_SLOPE),
        word_is_finite(BIGGEST_SLOPE_NEG),
        word_le_spec_bounds(),
{
    assert((0x3400_0000u32 >> 31) != 1u32 && (0x3400_0000u32 >> 23) & 0xFF == 0x68
        && 0x3400_0000u32 & 0x7F_FFFF == 0) by (bit_vector);
    assert((0x7F7F_FFFFu32 >> 31) != 1u32 && (0x7F7F_FFFFu32 >> 23) & 0xFF == 0xFE
        && 0x7F7F_FFFFu32 & 0x7F_FFFF == 0x7F_FFFF) by (bit_vector);
    assert((0x4120_0000u32 >> 31) != 1u32 && (0x4120_0000u32 >> 23) & 0xFF == 0x82
        && 0x4120_0000u32 & 0x7F_FFFF == 0x20_0000) by (bit_vector);
    assert((0xC120_0000u32 >> 31) == 1u32 && (0xC120_0000u32 >> 23) & 0xFF == 0x82
        && 0xC120_0000u32 & 0x7F_FFFF == 0x20_0000) by (bit_vector);
    lemma_pow2_pos(0x67);
    lemma_pow2_pos(0x81);
    lemma_pow2_pos(0xFD);
    lemma_mul_strictly_positive(0x80_0000, pow2(0x67) as int);
    lemma_mul_strictly_positive(0xA0_0000, pow2(0x81) as int);
    lemma_mul_strictly_positive(0xFF_FFFF, pow2(0xFD) as int);
    // epsilon is below the largest finite sample
    lemma_pow2_adds(23, 0x67);
    lemma_pow2_strictly_increases(0x67, 0xFD);
    // one sits between epsilon and the largest finite sample
    crate::sample::lemma_small_int_words();
    lemma_word_from_int_holds(1);
    lemma2_to64();
    assert(0x80_0000 * (pow2(0x67) as int) == pow2(126) as int) by (nonlinear_arith)
        requires
            pow2(126) == pow2(23) * pow2(0x67),
            pow2(23) == 0x80_0000,
    ;
    lemma_pow2_strictly_increases(126, 149);
    lemma_pow2_strictly_increases(149, 0xFD);
    vstd::arithmetic::mul::lemma_mul_inequality(1, 0xFF_FFFF, pow2(0xFD) as int);
    vstd::arithmetic::mul::lemma_mul_inequality(0x80_0000, 0xFF_FFFF, pow2(0xFD) as int);
    vstd::arithmetic::mul::lemma_mul_inequality(
        pow2(0x67) as int,
        pow2(0xFD) as int,
        0x80_0000,
    );
    vstd::arithmetic::mul::lemma_mul_is_commutative(0x80_0000, pow2(0x67) as int);
    vstd::arithmetic::mul::lemma_mul_is_commutative(0x80_0000, pow2(0xFD) as int);
}

/// The orderings that the parameter clamps need.
pub open spec fn word_le_spec_bounds() -> bool {
    &&& !word_is_nan(EPSILON_WORD)
    &&& !word_is_nan(MAX_WORD)
    &&& !word_is_nan(BIGGEST_SLOPE)
    &&& !word_is_nan(BIGGEST_SLOPE_NEG)
    &&& crate::sample::ord149(EPSILON_WORD) <= crate::sample::ord149(MAX_WORD)
    &&& crate::sample::ord149(BIGGEST_SLOPE_NEG) <= crate::sample::ord149(BIGGEST_SLOPE)
    &&& crate::sample::ord149(BIGGEST_SLOPE) > 0
    &&& crate::sample::ord149(BIGGEST_SLOPE_NEG) < 0
    &&& !word_is_nan(POS_ONE)
    &&& crate::sample::ord149(EPSILON_WORD) <= crate::sample::ord149(POS_ONE)
    &&& crate::sample::ord149(POS_ONE) <= crate::sample::ord149(MAX_WORD)
}

} // verus!
