//! A fixed-point Taylor series expansion of the sine function, evaluated
//! in thirty-two-bit integer arithmetic with arithmetic shifts. The
//! specification is the same evaluation in unbounded arithmetic with
//! floor divisions, which the shifts are proved to implement.

use vstd::arithmetic::div_mod::{
    lemma_div_is_ordered, lemma_div_multiples_vanish, lemma_fundamental_div_mod_converse,
};
use vstd::prelude::*;

verus! {

/// The polynomial constants of the expansion.
pub open spec fn sin_coeff(d: int) -> int {
    if d == 0 {
        102_944
    } else if d == 1 {
        -42_334
    } else if d == 2 {
        5223
    } else if d == 3 {
        -307
    } else {
        10
    }
}

/// One evaluation step: add the degree's constant, multiply by the
/// phase, shift down, and once more — `((res + b) * z / 2^15) * z / 2^15`
/// with flooring divisions.
pub open spec fn sin_step(res: int, b: int, z: int) -> int {
    ((((res + b) * z) / 0x8000) * z) / 0x8000
}

/// The accumulator at loop counter `d`, having processed the degrees
/// from `deg` down past `d + 1`.
pub open spec fn sin_acc(z: int, deg: int, d: int) -> int
    decreases deg - d,
{
    if d >= deg {
        0
    } else {
        sin_step(sin_acc(z, deg, d + 1), sin_coeff(d + 1), z)
    }
}

/// The full fixed-point sine: the polynomial accumulator plus the
/// constant term, a saturating multiply by the phase, and a final floor
/// division by `2^16`.
pub open spec fn sin_taylor(z: int, deg: int) -> int {
    let a = sin_acc(z, deg, 0) + sin_coeff(0);
    let p = a * z;
    let m = if p > 0x7FFF_FFFF {
        0x7FFF_FFFF
    } else if p < -0x8000_0000 {
        -0x8000_0000
    } else {
        p
    };
    m / 0x1_0000
}

/// The largest accumulator magnitude at loop counter `d`.
pub open spec fn sin_acc_bound(d: int) -> int {
    if d >= 4 {
        0
    } else if d == 3 {
        12
    } else if d == 2 {
        321
    } else if d == 1 {
        5546
    } else {
        47882
    }
}

/// Fixed point Taylor series expansion of the sine function.
///
/// `phase` spans the full `i16` range, corresponding to `sin(x)` for `x`
/// from `-pi/2` to `pi/2`; `degree` of the polynomial approximation is
/// capped at four. Returns the full `i16` range.
pub fn sin_i16(phase: i16, degree: u8) -> (r: i16)
    ensures
        degree > 4 ==> r as int == sin_taylor(phase as int, 4),
        degree <= 4 ==> r as int == sin_taylor(phase as int, degree as int),
{
    if degree > 4 {
        sin_i16_unchecked(phase, 4)
    } else {
        sin_i16_unchecked(phase, degree)
    }
}

/// Fixed point Taylor series expansion of the sine function; the caller
/// proves the degree is at most four.
pub fn sin_i16_unchecked(phase: i16, degree: u8) -> (r: i16)
    requires
        degree <= 4,
    ensures
        r as int == sin_taylor(phase as int, degree as int),
{
    let z: i32 = phase as i32;
    let mut d: usize = degree as usize;
    let mut res: i32 = 0;

    while d != 0
        invariant
            d <= degree as usize,
            degree <= 4,
            -0x8000 <= z <= 0x7FFF,
            res as int == sin_acc(z as int, degree as int, d as int),
            -sin_acc_bound(d as int) <= res as int <= sin_acc_bound(d as int),
        decreases d,
    {
        let b: i32 = sin_coeff_exec(d);
        let a: i32 = res + b;
        let ghost ma: int = if a < 0 {
            -(a as int)
        } else {
            a as int
        };
        proof {
            assert(-ma * 0x8000 <= (a as int) * (z as int) <= ma * 0x8000 && -47880 * 0x8000 <= (
            a as int) * (z as int) <= 47880 * 0x8000) by (nonlinear_arith)
                requires
                    -ma <= a as int <= ma,
                    0 <= ma <= 47880,
                    -0x8000 <= z as int <= 0x7FFF,
            ;
        }
        let t0: i32 = a * z;
        proof {
            lemma_i32_shr15(t0);
            lemma_shifted_bound(t0 as int, a as int);
        }
        let t1: i32 = t0 >> 15u32;
        let ghost mt: int = if t1 < 0 {
            -(t1 as int)
        } else {
            t1 as int
        };
        proof {
            assert(-mt * 0x8000 <= (t1 as int) * (z as int) <= mt * 0x8000 && -47880 * 0x8000 <= (
            t1 as int) * (z as int) <= 47880 * 0x8000) by (nonlinear_arith)
                requires
                    -mt <= t1 as int <= mt,
                    0 <= mt <= 47880,
                    -0x8000 <= z as int <= 0x7FFF,
            ;
        }
        let t2: i32 = t1 * z;
        proof {
            lemma_i32_shr15(t2);
            lemma_shifted_bound(t2 as int, t1 as int);
        }
        res = t2 >> 15u32;
        d = d - 1;
    }
    let a: i32 = res + sin_coeff_exec(0);
    proof {
        assert(-150826 * 0x8000 <= (a as int) * (z as int) <= 150826 * 0x8000)
            by (nonlinear_arith)
            requires
                -150826 <= a as int <= 150826,
                -0x8000 <= z as int <= 0x7FFF,
        ;
    }
    let p: i64 = (a as i64) * (z as i64);
    let m: i32 = if p > i32::MAX as i64 {
        i32::MAX
    } else if p < i32::MIN as i64 {
        i32::MIN
    } else {
        p as i32
    };
    proof {
        lemma_i32_shr16(m);
        lemma_div_is_ordered(i32::MIN as int, m as int, 0x1_0000);
        lemma_div_is_ordered(m as int, i32::MAX as int, 0x1_0000);
        lemma_fundamental_div_mod_converse(i32::MIN as int, 0x1_0000, -0x8000, 0);
        lemma_fundamental_div_mod_converse(i32::MAX as int, 0x1_0000, 0x7FFF, 0xFFFF);
    }
    let out: i32 = m >> 16u32;
    out as i16
}

/// The polynomial constant of a degree, as a machine integer.
fn sin_coeff_exec(d: usize) -> (r: i32)
    requires
        d <= 4,
    ensures
        r as int == sin_coeff(d as int),
{
    if d == 0 {
        102_944
    } else if d == 1 {
        -42_334
    } else if d == 2 {
        5223
    } else if d == 3 {
        -307
    } else {
        10
    }
}

/// An arithmetic shift right by fifteen is the flooring division by
/// `2^15`.
proof fn lemma_i32_shr15(x: i32)
    ensures
        (x >> 15u32) as int == (x as int) / 0x8000,
{
    assert((x >> 15u32) * 0x8000 <= x && x - (x >> 15u32) * 0x8000 < 0x8000 && x - (x >> 15u32)
        * 0x8000 >= 0) by (bit_vector);
    lemma_fundamental_div_mod_converse(
        x as int,
        0x8000,
        (x >> 15u32) as int,
        x as int - ((x >> 15u32) as int) * 0x8000,
    );
}

/// An arithmetic shift right by sixteen is the flooring division by
/// `2^16`.
proof fn lemma_i32_shr16(x: i32)
    ensures
        (x >> 16u32) as int == (x as int) / 0x1_0000,
{
    assert((x >> 16u32) * 0x1_0000 <= x && x - (x >> 16u32) * 0x1_0000 < 0x1_0000 && x - (x
        >> 16u32) * 0x1_0000 >= 0) by (bit_vector);
    lemma_fundamental_div_mod_converse(
        x as int,
        0x1_0000,
        (x >> 16u32) as int,
        x as int - ((x >> 16u32) as int) * 0x1_0000,
    );
}

/// A product bounded by `|a| * 2^15` floors back into `[-|a|, |a|]`.
proof fn lemma_shifted_bound(x: int, a: int)
    requires
        -47880 <= a <= 47880,
        (if a < 0 {
            -a
        } else {
            a
        }) * 0x8000 >= (if x < 0 {
            -x
        } else {
            x
        }),
    ensures
        -(if a < 0 {
            -a
        } else {
            a
        }) <= x / 0x8000 <= (if a < 0 {
            -a
        } else {
            a
        }),
{
    let mag = if a < 0 {
        -a
    } else {
        a
    };
    lemma_div_multiples_vanish(-mag, 0x8000);
    lemma_div_multiples_vanish(mag, 0x8000);
    lemma_div_is_ordered(-mag * 0x8000, x, 0x8000);
    lemma_div_is_ordered(x, mag * 0x8000, 0x8000);
}

} // verus!
