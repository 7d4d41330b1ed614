//! Interpolation kernels on raw sample words: linear interpolation between
//! two samples, the general Lagrange polynomial through a window of
//! samples, and a fixed four-point unrolled form of the same polynomial.
//!
//! The four-point form and the general form share one specification,
//! [`lagrange_of`]: both perform the same multiplications, divisions and
//! additions in the same order, so on the same four samples and offset
//! they return the same word.

use crate::sample::{
    add_of, add_word, div_of, div_word, is_infinite_word, is_nan_word, lemma_add_of_like,
    lemma_div_of_like, lemma_mul_of_like, lemma_nan_word, lemma_small_int_words,
    lemma_sub_of_like, lt_word, mul_of, mul_word, ord149, sub_of, sub_word, val149, word_from_int,
    word_is_finite, word_is_infinite, word_is_nan, word_is_zero, word_like, word_of_u32, NEG_ONE,
    POS_ONE, POS_ZERO,
};
use vstd::arithmetic::power2::pow2;
use vstd::prelude::*;

verus! {

/// Errors of the checked linear interpolation entry point.
#[derive(Debug, Clone, Copy, PartialEq, Eq, Structural)]
pub enum InterpolationError {
    InputNaN,
    InputInfinite,
    InterpolationRange,
}

/// The word the linear blend returns: `a * (1 - t) + b * t` in rounded
/// sample arithmetic.
pub open spec fn lerp_of(a: u32, b: u32, t: u32) -> u32 {
    add_of(mul_of(a, sub_of(POS_ONE, t)), mul_of(b, t))
}

/// Linear interpolation between `a` and `b` at fraction `interpolate`,
/// computed as `a * (1 - interpolate) + b * interpolate`. At a zero
/// fraction the blend is exact: it returns the value of `a` (bit for bit
/// when `a` is not a zero) whenever `a` is not a number-like edge case and
/// `b` is finite.
#[inline(always)]
pub fn lerp_unchecked(a: u32, b: u32, interpolate: u32) -> (r: u32)
    ensures
        word_like(r, lerp_of(a, b, interpolate)),
        (!word_is_nan(a) && !word_is_zero(a) && word_is_finite(b) && word_is_zero(interpolate))
            ==> r == a,
        (word_is_finite(a) && word_is_finite(b) && word_is_zero(interpolate)) ==> word_is_finite(r)
            && val149(r) == val149(a),
{
    proof {
        lemma_small_int_words();
        crate::sample::lemma_zero_words();
        crate::sample::lemma_word_from_int_holds(1);
    }
    let one_minus = sub_word(POS_ONE, interpolate);
    let left = mul_word(a, one_minus);
    let right = mul_word(b, interpolate);
    let r = add_word(left, right);
    proof {
        lemma_nan_word();
        lemma_mul_of_like(a, one_minus, a, sub_of(POS_ONE, interpolate));
        lemma_add_of_like(left, right, mul_of(a, sub_of(POS_ONE, interpolate)), mul_of(b, interpolate));
    }
    r
}

/// Checked linear interpolation: rejects not-a-number samples, infinite
/// samples, and a fraction outside `[0, 1]`, in that order; a not-a-number
/// fraction passes the range test as the comparisons both fail.
pub fn lerp(a: u32, b: u32, interpolate: u32) -> (r: Result<u32, InterpolationError>)
    ensures
        (word_is_nan(a) || word_is_nan(b)) ==> r == Err::<u32, InterpolationError>(
            InterpolationError::InputNaN,
        ),
        (!word_is_nan(a) && !word_is_nan(b) && (word_is_infinite(a) || word_is_infinite(b))) ==> r
            == Err::<u32, InterpolationError>(InterpolationError::InputInfinite),
        (word_is_finite(a) && word_is_finite(b) && !word_is_nan(interpolate) && (ord149(
            interpolate,
        ) < 0 || ord149(interpolate) > pow2(149) as int)) ==> r == Err::<u32, InterpolationError>(
            InterpolationError::InterpolationRange,
        ),
        (word_is_finite(a) && word_is_finite(b) && (word_is_nan(interpolate) || (0 <= ord149(
            interpolate,
        ) <= pow2(149) as int))) ==> r is Ok && word_like(r->Ok_0, lerp_of(a, b, interpolate)),
{
    if is_nan_word(a) || is_nan_word(b) {
        return Err(InterpolationError::InputNaN);
    }
    if is_infinite_word(a) || is_infinite_word(b) {
        return Err(InterpolationError::InputInfinite);
    }
    proof {
        lemma_small_int_words();
        crate::sample::lemma_word_from_int_holds(0);
        crate::sample::lemma_word_from_int_holds(1);
    }
    if lt_word(interpolate, POS_ZERO) || lt_word(POS_ONE, interpolate) {
        return Err(InterpolationError::InterpolationRange);
    }
    Ok(lerp_unchecked(a, b, interpolate))
}

/// One factor step of the Lagrange basis term for sample `i`: the running
/// term times `(x - j)`, divided by `(i - j)`, in rounded arithmetic; the
/// factor for `j == i` is skipped.
pub open spec fn lagrange_term(arr: Seq<u32>, x: u32, i: int, j: int) -> u32
    decreases j,
{
    if j <= 0 {
        arr[i]
    } else {
        let prev = lagrange_term(arr, x, i, j - 1);
        if i == j - 1 {
            prev
        } else {
            div_of(mul_of(prev, sub_of(x, word_from_int(j - 1))), word_from_int(i - (j - 1)))
        }
    }
}

/// The sum of the first `i` full basis terms, accumulated left to right
/// from a zero word.
pub open spec fn lagrange_sum(arr: Seq<u32>, x: u32, i: int) -> u32
    decreases i,
{
    if i <= 0 {
        POS_ZERO
    } else {
        add_of(lagrange_sum(arr, x, i - 1), lagrange_term(arr, x, i - 1, arr.len() as int))
    }
}

/// The word the Lagrange interpolation of the whole window returns at
/// offset `x`: `sum_i arr[i] * prod_{j != i} (x - j) / (i - j)`, with every
/// operation in rounded sample arithmetic, in the evaluation order both
/// implementations share.
pub open spec fn lagrange_of(arr: Seq<u32>, x: u32) -> u32 {
    lagrange_sum(arr, x, arr.len() as int)
}

/// General Lagrange interpolation through all the samples of the window,
/// evaluated at offset `x_point`; the offset may not exceed the last
/// sample's position.
pub fn lagrange(array: &[u32], x_point: u32) -> (r: u32)
    requires
        1 <= array@.len() <= 0x100_0000,
        !word_is_nan(x_point),
        ord149(x_point) <= (array@.len() - 1) * (pow2(149) as int),
    ensures
        word_like(r, lagrange_of(array@, x_point)),
{
    let n: usize = array.len();
    let mut y_point: u32 = POS_ZERO;
    let mut i: usize = 0;
    while i < n
        invariant
            i <= n,
            n == array@.len(),
            n <= 0x100_0000,
            word_like(y_point, lagrange_sum(array@, x_point, i as int)),
        decreases n - i,
    {
        let mut term: u32 = array[i];
        let mut j: usize = 0;
        while j < n
            invariant
                j <= n,
                i < n,
                n == array@.len(),
                n <= 0x100_0000,
                word_like(term, lagrange_term(array@, x_point, i as int, j as int)),
            decreases n - j,
        {
            if i != j {
                let ghost ts = lagrange_term(array@, x_point, i as int, j as int);
                let xm = sub_word(x_point, word_of_u32(j as u32));
                let num = mul_word(term, xm);
                let den = sub_word(word_of_u32(i as u32), word_of_u32(j as u32));
                let next = div_word(num, den);
                proof {
                    lemma_nan_word();
                    lemma_mul_of_like(term, xm, ts, sub_of(x_point, word_from_int(j as int)));
                    lemma_div_of_like(
                        num,
                        den,
                        mul_of(ts, sub_of(x_point, word_from_int(j as int))),
                        word_from_int(i - j),
                    );
                }
                term = next;
            }
            j = j + 1;
        }
        let ghost ss = lagrange_sum(array@, x_point, i as int);
        let ghost ts = lagrange_term(array@, x_point, i as int, n as int);
        let next = add_word(y_point, term);
        proof {
            lemma_nan_word();
            lemma_add_of_like(y_point, term, ss, ts);
        }
        y_point = next;
        i = i + 1;
    }
    y_point
}

/// The four-point unrolled Lagrange interpolation: the same operations as
/// [`lagrange`] on the window's first four samples, written out, so the
/// two agree word for word on a four-sample window.
#[inline(always)]
pub fn lagrange_only_4_elements(array: &[u32], x_point: u32) -> (r: u32)
    requires
        array@.len() >= 4,
    ensures
        word_like(r, lagrange_of(array@.subrange(0, 4), x_point)),
{
    proof {
        lemma_small_int_words();
    }
    let w1: u32 = POS_ONE;
    let w2: u32 = 0x4000_0000;
    let w3: u32 = 0x4040_0000;
    let m1: u32 = NEG_ONE;
    let m2: u32 = 0xC000_0000;
    let m3: u32 = 0xC040_0000;

    let mut y_point: u32 = POS_ZERO;
    let ghost s = array@.subrange(0, 4);
    let ghost mut ys: u32 = POS_ZERO;
    proof {
        reveal_with_fuel(lagrange_term, 6);
        reveal_with_fuel(lagrange_sum, 6);
        assert(s.len() == 4);
        assert(s[0] == array@[0] && s[1] == array@[1] && s[2] == array@[2] && s[3] == array@[3]);
        lemma_nan_word();
    }

    let mut term: u32 = array[0];
    term = four_point_factor(term, x_point, w1, m1, Ghost(term));
    term = four_point_factor(
        term,
        x_point,
        w2,
        m2,
        Ghost(div_of(mul_of(s[0], sub_of(x_point, w1)), m1)),
    );
    term = four_point_factor(term, x_point, w3, m3, Ghost(lagrange_term(s, x_point, 0, 3)));
    proof {
        reveal_with_fuel(lagrange_term, 6);
        reveal_with_fuel(lagrange_sum, 6);
        lemma_add_of_like(y_point, term, POS_ZERO, lagrange_term(s, x_point, 0, 4));
        ys = lagrange_sum(s, x_point, 1);
    }
    y_point = add_word(y_point, term);

    let mut term: u32 = array[1];
    term = four_point_factor(term, x_point, POS_ZERO, w1, Ghost(term));
    term = four_point_factor(term, x_point, w2, m1, Ghost(lagrange_term(s, x_point, 1, 2)));
    term = four_point_factor(term, x_point, w3, m2, Ghost(lagrange_term(s, x_point, 1, 3)));
    proof {
        reveal_with_fuel(lagrange_term, 6);
        reveal_with_fuel(lagrange_sum, 6);
        lemma_add_of_like(y_point, term, ys, lagrange_term(s, x_point, 1, 4));
        ys = lagrange_sum(s, x_point, 2);
    }
    y_point = add_word(y_point, term);

    let mut term: u32 = array[2];
    term = four_point_factor(term, x_point, POS_ZERO, w2, Ghost(term));
    term = four_point_factor(term, x_point, w1, w1, Ghost(lagrange_term(s, x_point, 2, 1)));
    term = four_point_factor(term, x_point, w3, m1, Ghost(lagrange_term(s, x_point, 2, 3)));
    proof {
        reveal_with_fuel(lagrange_term, 6);
        reveal_with_fuel(lagrange_sum, 6);
        lemma_add_of_like(y_point, term, ys, lagrange_term(s, x_point, 2, 4));
        ys = lagrange_sum(s, x_point, 3);
    }
    y_point = add_word(y_point, term);

    let mut term: u32 = array[3];
    term = four_point_factor(term, x_point, POS_ZERO, w3, Ghost(term));
    term = four_point_factor(term, x_point, w1, w2, Ghost(lagrange_term(s, x_point, 3, 1)));
    term = four_point_factor(term, x_point, w2, w1, Ghost(lagrange_term(s, x_point, 3, 2)));
    proof {
        reveal_with_fuel(lagrange_term, 6);
        reveal_with_fuel(lagrange_sum, 6);
        lemma_add_of_like(y_point, term, ys, lagrange_term(s, x_point, 3, 4));
    }
    y_point = add_word(y_point, term);

    y_point
}

/// One unrolled Lagrange factor: the running term times `(x - point)`,
/// over the constant denominator.
#[inline(always)]
fn four_point_factor(term: u32, x_point: u32, point: u32, den: u32, Ghost(ts): Ghost<u32>) -> (r:
    u32)
    requires
        word_like(term, ts),
    ensures
        word_like(r, div_of(mul_of(ts, sub_of(x_point, point)), den)),
{
    let xm = sub_word(x_point, point);
    let num = mul_word(term, xm);
    let q = div_word(num, den);
    proof {
        lemma_nan_word();
        lemma_mul_of_like(term, xm, ts, sub_of(x_point, point));
        lemma_div_of_like(num, den, mul_of(ts, sub_of(x_point, point)), den);
    }
    q
}

} // verus!
