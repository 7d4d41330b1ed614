//! The bit-level model of IEEE 754 single-precision samples.
//!
//! Every sample in this crate is carried as its raw 32-bit word. The spec
//! functions here give those words a meaning: the sign, exponent and fraction
//! fields, the classification predicates, and an exact integer value scaled
//! by `2^149` (the smallest positive subnormal is `2^-149`, so every finite
//! word's value times `2^149` is an integer). Contracts all over the crate
//! are stated against this model.
//!
//! Executable arithmetic on words goes through a small set of wrappers around
//! `micromath::F32`, a transparent wrapper of the hardware float type with
//! bit-pattern conversions. Each wrapper's contract states what the IEEE 754
//! rules pin down about the result: valid operations' rounded results are
//! given a name, exact cases (small-integer sums, multiplication by one,
//! subtraction of equal values) are stated outright, and invalid operations
//! are pinned only in their not-a-number-ness — the payload bits of a
//! hardware not-a-number are not deterministic, so computed words match the
//! canonical spec values up to [`word_like`].

use vstd::arithmetic::div_mod::{
    lemma_fundamental_div_mod, lemma_fundamental_div_mod_converse,
};
use vstd::arithmetic::mul::{
    lemma_mul_inequality, lemma_mul_is_associative, lemma_mul_is_commutative,
};
use vstd::arithmetic::power2::{
    lemma2_to64, lemma_pow2_adds, lemma_pow2_pos, lemma_pow2_strictly_increases, lemma_pow2_unfold,
    pow2,
};
use vstd::bits::lemma_u32_shl_is_mul;
use vstd::prelude::*;

verus! {

/// A sample or fractional index carried as a raw IEEE 754 single word.
pub type SampleWord = u32;

pub const POS_ZERO: u32 = 0x0000_0000;

pub const NEG_ZERO: u32 = 0x8000_0000;

pub const POS_ONE: u32 = 0x3F80_0000;

pub const NEG_ONE: u32 = 0xBF80_0000;

/// The canonical quiet not-a-number word.
pub const NAN_WORD: u32 = 0x7FC0_0000;

/// Eighty-eight: the largest argument the exponential wrapper admits.
/// The approximation behind it scales the argument by the binary
/// logarithm of Euler's number, and when the scaled exponent lands
/// exactly on one twenty-eight — real arguments from about 88.72 — its
/// exponent setter refuses the value in checked builds.
pub const EXP_ARG_LIMIT: u32 = 0x42B0_0000;

/// The sign bit of a word.
pub open spec fn word_sign(w: u32) -> bool {
    w >> 31 == 1u32
}

/// The biased exponent field of a word.
pub open spec fn word_exp(w: u32) -> u32 {
    (w >> 23) & 0xFF
}

/// The fraction (mantissa) field of a word.
pub open spec fn word_frac(w: u32) -> u32 {
    w & 0x7F_FFFF
}

pub open spec fn word_is_nan(w: u32) -> bool {
    word_exp(w) == 0xFF && word_frac(w) != 0
}

pub open spec fn word_is_infinite(w: u32) -> bool {
    word_exp(w) == 0xFF && word_frac(w) == 0
}

pub open spec fn word_is_finite(w: u32) -> bool {
    word_exp(w) != 0xFF
}

pub open spec fn word_is_zero(w: u32) -> bool {
    w == POS_ZERO || w == NEG_ZERO
}

/// Magnitude of a finite word, scaled by `2^149` so that it is an integer.
pub open spec fn mag149(w: u32) -> int {
    if word_exp(w) == 0 {
        word_frac(w) as int
    } else {
        (word_frac(w) + 0x80_0000) * (pow2((word_exp(w) - 1) as nat) as int)
    }
}

/// Signed value of a finite word, scaled by `2^149`.
pub open spec fn val149(w: u32) -> int {
    if word_sign(w) {
        -mag149(w)
    } else {
        mag149(w)
    }
}

/// Value used to order words, extending `val149` to the infinities: a
/// positive infinity is above every finite value, a negative one below.
/// `pow2(300)` clears the largest finite magnitude, which is under `2^278`.
pub open spec fn ord149(w: u32) -> int {
    if word_is_infinite(w) {
        if word_sign(w) {
            -(pow2(300) as int)
        } else {
            (pow2(300) as int)
        }
    } else {
        val149(w)
    }
}

/// The word holds exactly the integer `n`.
pub open spec fn word_holds_int(w: u32, n: int) -> bool {
    word_is_finite(w) && val149(w) == n * (pow2(149) as int)
}

/// A finite word whose value is an integer of magnitude at most `2^24`
/// (the range in which every integer is exactly representable).
pub open spec fn is_int_word(w: u32) -> bool {
    word_is_finite(w) && val149(w) % (pow2(149) as int) == 0 && -0x100_0000 <= word_int(w) <= 0x100_0000
}

/// The integer a finite, integral-valued word holds.
pub open spec fn word_int(w: u32) -> int {
    val149(w) / (pow2(149) as int)
}

/// Position of the highest set bit of a positive integer.
pub open spec fn log2floor(n: int) -> nat
    recommends
        n >= 1,
    decreases n,
{
    if n < 2 {
        0
    } else {
        (1 + log2floor(n / 2)) as nat
    }
}

/// The IEEE 754 single word encoding the integer `n`, for `1 <= n <= 2^24`.
pub open spec fn pos_int_word(n: int) -> u32 {
    let p = log2floor(n);
    if p <= 23 {
        (((127 + p) * 0x80_0000) + (n * (pow2((23 - p) as nat) as int) - 0x80_0000)) as u32
    } else {
        ((127 + p) * 0x80_0000) as u32
    }
}

/// The IEEE 754 single word encoding the integer `n`, for `|n| <= 2^24`;
/// zero encodes as the positive zero word.
pub open spec fn word_from_int(n: int) -> u32 {
    if n == 0 {
        POS_ZERO
    } else if n > 0 {
        pos_int_word(n)
    } else {
        (pos_int_word(-n) + 0x8000_0000) as u32
    }
}

/// Truncation of a word's value toward zero (the `as`-cast direction),
/// clamped to `i64`; not-a-number truncates to zero.
pub open spec fn trunc_clamped(w: u32) -> int {
    if word_is_nan(w) {
        0
    } else if ord149(w) >= 0 {
        let t = if word_is_infinite(w) {
            (pow2(300) as int)
        } else {
            val149(w) / (pow2(149) as int)
        };
        if t > i64::MAX as int {
            i64::MAX as int
        } else {
            t
        }
    } else {
        let t = if word_is_infinite(w) {
            -(pow2(300) as int) as int
        } else {
            -((-val149(w)) / (pow2(149) as int))
        };
        if t < i64::MIN as int {
            i64::MIN as int
        } else {
            t
        }
    }
}

/// Floor of a finite word's value (Euclidean division rounds toward
/// negative infinity).
pub open spec fn floor149(w: u32) -> int {
    val149(w) / (pow2(149) as int)
}

/// Words that agree except possibly in not-a-number payload bits: bit
/// equality, or both not a number. The payload bits of a hardware
/// not-a-number result are not deterministic, so computed samples are
/// pinned only up to this relation.
pub open spec fn word_like(a: u32, b: u32) -> bool {
    a == b || (word_is_nan(a) && word_is_nan(b))
}

/// When IEEE 754 addition is invalid: a not-a-number operand, or
/// infinities of opposite sign. Exactly then the sum is not a number.
pub open spec fn add_goes_nan(a: u32, b: u32) -> bool {
    ||| word_is_nan(a)
    ||| word_is_nan(b)
    ||| (word_is_infinite(a) && word_is_infinite(b) && word_sign(a) != word_sign(b))
}

/// When IEEE 754 subtraction is invalid: a not-a-number operand, or
/// infinities of the same sign.
pub open spec fn sub_goes_nan(a: u32, b: u32) -> bool {
    ||| word_is_nan(a)
    ||| word_is_nan(b)
    ||| (word_is_infinite(a) && word_is_infinite(b) && word_sign(a) == word_sign(b))
}

/// When IEEE 754 multiplication is invalid: a not-a-number operand, or
/// zero times an infinity.
pub open spec fn mul_goes_nan(a: u32, b: u32) -> bool {
    ||| word_is_nan(a)
    ||| word_is_nan(b)
    ||| (word_is_zero(a) && word_is_infinite(b))
    ||| (word_is_infinite(a) && word_is_zero(b))
}

/// When IEEE 754 division is invalid: a not-a-number operand, zero over
/// zero, or infinity over infinity.
pub open spec fn div_goes_nan(a: u32, b: u32) -> bool {
    ||| word_is_nan(a)
    ||| word_is_nan(b)
    ||| (word_is_zero(a) && word_is_zero(b))
    ||| (word_is_infinite(a) && word_is_infinite(b))
}

/// The IEEE 754 `<` ordering: false on not-a-number, the zeros equal.
pub open spec fn word_lt(a: u32, b: u32) -> bool {
    !word_is_nan(a) && !word_is_nan(b) && ord149(a) < ord149(b)
}

/// The IEEE 754 `<=` ordering: false on not-a-number, the zeros equal.
pub open spec fn word_le(a: u32, b: u32) -> bool {
    !word_is_nan(a) && !word_is_nan(b) && ord149(a) <= ord149(b)
}

/// The IEEE 754 `==`: both comparable and of equal value.
pub open spec fn word_eq(a: u32, b: u32) -> bool {
    !word_is_nan(a) && !word_is_nan(b) && ord149(a) == ord149(b)
}

/// What `f32::clamp` returns for comparable, ordered bounds.
pub open spec fn clamp_of(x: u32, lo: u32, hi: u32) -> u32 {
    if word_lt(x, lo) {
        lo
    } else if word_lt(hi, x) {
        hi
    } else {
        x
    }
}

/// What `f32::signum` returns: one with the argument's sign, or
/// not-a-number.
pub open spec fn signum_of(w: u32) -> u32 {
    if word_is_nan(w) {
        NAN_WORD
    } else if word_sign(w) {
        NEG_ONE
    } else {
        POS_ONE
    }
}

// ==================
// NAMED ROUNDED RESULTS
// ==================
// The names below stand for the rounded result words where the operation
// is valid; there they are genuine functions of the operand words. Where
// the operation is invalid the hardware returns a not-a-number whose
// payload bits are not deterministic, so the `..._of` forms canonicalize
// that case to [`NAN_WORD`], and executable results match them only up to
// [`word_like`].

pub uninterp spec fn add_num(a: u32, b: u32) -> u32;

pub uninterp spec fn sub_num(a: u32, b: u32) -> u32;

pub uninterp spec fn mul_num(a: u32, b: u32) -> u32;

pub uninterp spec fn div_num(a: u32, b: u32) -> u32;

pub uninterp spec fn exp_num(x: u32) -> u32;

/// The canonical sum word: the rounded sum where addition is valid, the
/// canonical not-a-number where it is not.
pub open spec fn add_of(a: u32, b: u32) -> u32 {
    if add_goes_nan(a, b) {
        NAN_WORD
    } else {
        add_num(a, b)
    }
}

pub open spec fn sub_of(a: u32, b: u32) -> u32 {
    if sub_goes_nan(a, b) {
        NAN_WORD
    } else {
        sub_num(a, b)
    }
}

pub open spec fn mul_of(a: u32, b: u32) -> u32 {
    if mul_goes_nan(a, b) {
        NAN_WORD
    } else {
        mul_num(a, b)
    }
}

pub open spec fn div_of(a: u32, b: u32) -> u32 {
    if div_goes_nan(a, b) {
        NAN_WORD
    } else {
        div_num(a, b)
    }
}

// ==================
// TRUSTED ARITHMETIC
// ==================

/// Relies on hardware `f32` addition (IEEE 754, round to nearest even),
/// reached through `micromath::F32`'s `Add`. Where the addition is valid
/// its rounded result is a function of the operand words and carries the
/// name `add_num`; where it is invalid the result is a not-a-number of
/// non-deterministic payload, so only its not-a-number-ness is stated.
/// Exact cases stated: a sum of in-range integers is returned exactly (a
/// zero sum rounds to positive zero unless both signs are negative), and
/// adding a zero to a non-zero number returns it unchanged. Rounding to
/// nearest is monotone and `2^24` is representable, so a sum whose exact
/// value has magnitude at most `2^24` stays in that range and is finite.
#[verifier::external_body]
pub fn add_word(a: u32, b: u32) -> (r: u32)
    ensures
        word_is_nan(r) == add_goes_nan(a, b),
        !add_goes_nan(a, b) ==> r == add_num(a, b),
        word_like(r, add_of(a, b)),
        (is_int_word(a) && is_int_word(b) && word_int(a) + word_int(b) != 0 && -0x100_0000
            <= word_int(a) + word_int(b) <= 0x100_0000) ==> r == word_from_int(
            word_int(a) + word_int(b),
        ),
        (is_int_word(a) && is_int_word(b) && word_int(a) + word_int(b) == 0 && !(word_sign(a)
            && word_sign(b))) ==> r == POS_ZERO,
        (!word_is_nan(a) && !word_is_zero(a) && word_is_zero(b)) ==> r == a,
        (word_is_zero(a) && !word_is_nan(b) && !word_is_zero(b)) ==> r == b,
        (a == NEG_ZERO && b == NEG_ZERO) ==> r == NEG_ZERO,
        (word_is_finite(a) && word_is_finite(b) && -0x100_0000 * (pow2(149) as int) <= val149(a)
            + val149(b) <= 0x100_0000 * (pow2(149) as int)) ==> word_is_finite(r) && -0x100_0000
            * (pow2(149) as int) <= val149(r) <= 0x100_0000 * (pow2(149) as int),
{
    (micromath::F32::from_bits(a) + micromath::F32::from_bits(b)).to_bits()
}

/// Relies on hardware `f32` subtraction (IEEE 754, round to nearest even),
/// reached through `micromath::F32`'s `Sub`. Where the subtraction is
/// valid its rounded result is a function of the operand words and
/// carries the name `sub_num`; where it is invalid only the result's
/// not-a-number-ness is stated, as not-a-number payloads are not
/// deterministic. Exact cases stated: a difference of in-range integers
/// is returned exactly, subtracting a value from an equal one gives
/// positive zero (except negative zero minus positive zero), and
/// subtracting a zero returns the left operand (except negative zero
/// minus negative zero). Rounding to nearest is monotone and zero and one
/// are representable, so a difference whose exact value lies in `[0, 1]`
/// stays in `[0, 1]` and is finite.
#[verifier::external_body]
pub fn sub_word(a: u32, b: u32) -> (r: u32)
    ensures
        word_is_nan(r) == sub_goes_nan(a, b),
        !sub_goes_nan(a, b) ==> r == sub_num(a, b),
        word_like(r, sub_of(a, b)),
        (is_int_word(a) && is_int_word(b) && word_int(a) - word_int(b) != 0 && -0x100_0000
            <= word_int(a) - word_int(b) <= 0x100_0000) ==> r == word_from_int(
            word_int(a) - word_int(b),
        ),
        (word_is_finite(a) && word_is_finite(b) && val149(a) == val149(b) && !(word_sign(a)
            && !word_sign(b))) ==> r == POS_ZERO,
        (a == NEG_ZERO && b == POS_ZERO) ==> r == NEG_ZERO,
        (!word_is_nan(a) && b == POS_ZERO) ==> r == a,
        (!word_is_nan(a) && a != NEG_ZERO && b == NEG_ZERO) ==> r == a,
        (word_is_finite(a) && word_is_finite(b) && 0 <= val149(a) - val149(b) <= pow2(149) as int)
            ==> word_is_finite(r) && 0 <= val149(r) <= pow2(149) as int,
{
    (micromath::F32::from_bits(a) - micromath::F32::from_bits(b)).to_bits()
}

/// Relies on hardware `f32` multiplication (IEEE 754, round to nearest
/// even), reached through `micromath::F32`'s `Mul`. Exact cases stated: a
/// non-zero in-range integer product is returned exactly, multiplying by
/// one returns the other operand, and a product with a zero factor and a
/// finite other factor is the zero whose sign is the signs' exclusive or.
/// Where the multiplication is valid its rounded result is a function of
/// the operand words and carries the name `mul_num`; where it is invalid
/// only the result's not-a-number-ness is stated.
#[verifier::external_body]
pub fn mul_word(a: u32, b: u32) -> (r: u32)
    ensures
        word_is_nan(r) == mul_goes_nan(a, b),
        !mul_goes_nan(a, b) ==> r == mul_num(a, b),
        word_like(r, mul_of(a, b)),
        (is_int_word(a) && is_int_word(b) && word_int(a) * word_int(b) != 0 && -0x100_0000
            <= word_int(a) * word_int(b) <= 0x100_0000) ==> r == word_from_int(
            word_int(a) * word_int(b),
        ),
        (!word_is_nan(a) && b == POS_ONE) ==> r == a,
        (a == POS_ONE && !word_is_nan(b)) ==> r == b,
        (word_is_finite(a) && word_is_zero(b)) ==> r == (if word_sign(a) != word_sign(b) {
            NEG_ZERO
        } else {
            POS_ZERO
        }),
        (word_is_zero(a) && word_is_finite(b)) ==> r == (if word_sign(a) != word_sign(b) {
            NEG_ZERO
        } else {
            POS_ZERO
        }),
{
    (micromath::F32::from_bits(a) * micromath::F32::from_bits(b)).to_bits()
}

/// Relies on hardware `f32` division (IEEE 754, round to nearest even),
/// reached through `micromath::F32`'s `Div`. Where the division is valid
/// its rounded result is a function of the operand words and carries the
/// name `div_num`; where it is invalid only the result's
/// not-a-number-ness is stated. Exact cases stated: dividing by one
/// returns the dividend, and dividing a finite non-zero value by itself
/// gives one.
#[verifier::external_body]
pub fn div_word(a: u32, b: u32) -> (r: u32)
    ensures
        word_is_nan(r) == div_goes_nan(a, b),
        !div_goes_nan(a, b) ==> r == div_num(a, b),
        word_like(r, div_of(a, b)),
        (!word_is_nan(a) && b == POS_ONE) ==> r == a,
        (word_is_finite(a) && !word_is_zero(a) && a == b) ==> r == POS_ONE,
{
    (micromath::F32::from_bits(a) / micromath::F32::from_bits(b)).to_bits()
}

/// Relies on `micromath::F32::exp`, an approximation of the exponential
/// function computed from the argument's bits alone — a genuine function
/// of the word for every argument that is a number. The argument must be
/// a number no greater than [`EXP_ARG_LIMIT`]: just above it the
/// approximation's scaled exponent lands exactly on one twenty-eight,
/// which its exponent setter asserts against in checked builds. A zero
/// argument returns one exactly (the approximation's own first branch).
#[verifier::external_body]
pub fn exp_word(x: u32) -> (r: u32)
    requires
        !word_is_nan(x),
        ord149(x) <= ord149(EXP_ARG_LIMIT),
    ensures
        r == exp_num(x),
        word_is_zero(x) ==> r == POS_ONE,
{
    micromath::F32::from_bits(x).exp().to_bits()
}

/// The word the exponential is actually fed: arguments above the safe
/// bound saturate to it.
pub open spec fn exp_arg_of(u: u32) -> u32 {
    if word_le(u, EXP_ARG_LIMIT) {
        u
    } else {
        EXP_ARG_LIMIT
    }
}

/// The exponential's argument bound is an ordinary finite word.
pub proof fn lemma_exp_arg_limit()
    ensures
        !word_is_nan(EXP_ARG_LIMIT),
        word_is_finite(EXP_ARG_LIMIT),
        !word_is_zero(EXP_ARG_LIMIT),
{
    assert((0x42B0_0000u32 >> 23) & 0xFF == 0x85 && 0x42B0_0000u32 & 0x7F_FFFF == 0x30_0000)
        by (bit_vector);
}

// ==================
// TRUSTED COMPARISONS
// ==================

/// Relies on `f32`'s `<` (IEEE 754 ordering: not-a-number compares false,
/// the zeros are equal), reached through `micromath::F32`'s `PartialOrd`.
#[verifier::external_body]
pub fn lt_word(a: u32, b: u32) -> (r: bool)
    ensures
        r == word_lt(a, b),
{
    micromath::F32::from_bits(a) < micromath::F32::from_bits(b)
}

/// Relies on `f32`'s `<=` (IEEE 754 ordering: not-a-number compares false,
/// the zeros are equal), reached through `micromath::F32`'s `PartialOrd`.
#[verifier::external_body]
pub fn le_word(a: u32, b: u32) -> (r: bool)
    ensures
        r == word_le(a, b),
{
    micromath::F32::from_bits(a) <= micromath::F32::from_bits(b)
}

/// Relies on the `as`-cast from `f32` to `i64` (truncation toward zero,
/// saturating at the bounds, not-a-number to zero), applied to the `f32`
/// held inside `micromath::F32`.
#[verifier::external_body]
pub fn trunc_word_i64(w: u32) -> (r: i64)
    ensures
        r == trunc_clamped(w),
{
    micromath::F32::from_bits(w).0 as i64
}

// ==================
// VERIFIED WORD OPERATIONS
// ==================

/// IEEE 754 equality: both comparable and of equal value.
pub fn eq_word(a: u32, b: u32) -> (r: bool)
    ensures
        r == word_eq(a, b),
{
    le_word(a, b) && le_word(b, a)
}

pub fn is_nan_word(w: u32) -> (r: bool)
    ensures
        r == word_is_nan(w),
{
    let e: u32 = (w >> 23) & 0xFF;
    let f: u32 = w & 0x7F_FFFF;
    e == 0xFF && f != 0
}

pub fn is_infinite_word(w: u32) -> (r: bool)
    ensures
        r == word_is_infinite(w),
{
    let e: u32 = (w >> 23) & 0xFF;
    let f: u32 = w & 0x7F_FFFF;
    e == 0xFF && f == 0
}

pub fn is_finite_word(w: u32) -> (r: bool)
    ensures
        r == word_is_finite(w),
{
    (w >> 23) & 0xFF != 0xFF
}

/// Magnitude: the word with the sign bit cleared (`f32::abs`).
pub fn abs_word(w: u32) -> (r: u32)
    ensures
        r == (w & 0x7FFF_FFFF),
        !word_sign(r),
        word_exp(r) == word_exp(w),
        word_frac(r) == word_frac(w),
        word_is_finite(r) == word_is_finite(w),
        word_is_nan(r) == word_is_nan(w),
        word_is_finite(w) ==> val149(r) == mag149(w),
{
    proof {
        lemma_sign_strip(w);
    }
    w & 0x7FFF_FFFF
}

/// The word with the sign bit flipped (`f32` negation).
pub fn neg_word(w: u32) -> (r: u32)
    ensures
        r == (w ^ 0x8000_0000),
        word_sign(r) == !word_sign(w),
        word_exp(r) == word_exp(w),
        word_frac(r) == word_frac(w),
        word_is_nan(r) == word_is_nan(w),
        word_is_finite(w) ==> val149(r) == -val149(w),
{
    proof {
        lemma_sign_flip(w);
    }
    w ^ 0x8000_0000
}

/// `f32::signum`: one with the argument's sign, or not-a-number.
pub fn signum_word(w: u32) -> (r: u32)
    ensures
        r == signum_of(w),
{
    if is_nan_word(w) {
        NAN_WORD
    } else if w >> 31 == 1 {
        NEG_ONE
    } else {
        POS_ONE
    }
}

/// `f32::clamp` with comparable, ordered bounds: below `lo` gives `lo`,
/// above `hi` gives `hi`, anything else (not-a-number included) passes
/// through.
pub fn clamp_word(x: u32, lo: u32, hi: u32) -> (r: u32)
    requires
        !word_is_nan(lo),
        !word_is_nan(hi),
        ord149(lo) <= ord149(hi),
    ensures
        r == clamp_of(x, lo, hi),
{
    if lt_word(x, lo) {
        lo
    } else if lt_word(hi, x) {
        hi
    } else {
        x
    }
}

/// The canonical not-a-number word is one, with or without its sign bit
/// masked off.
pub proof fn lemma_nan_word()
    ensures
        word_is_nan(NAN_WORD),
        NAN_WORD & 0x7FFF_FFFF == NAN_WORD,
        !word_is_finite(NAN_WORD),
        !word_is_zero(NAN_WORD),
        !word_is_infinite(NAN_WORD),
{
    assert((0x7FC0_0000u32 >> 23) & 0xFF == 0xFF && 0x7FC0_0000u32 & 0x7F_FFFF != 0
        && 0x7FC0_0000u32 & 0x7FFF_FFFF == 0x7FC0_0000u32) by (bit_vector);
}

/// The canonical operations respect payload-blind agreement: on operands
/// that agree up to not-a-number payloads, each returns words that agree
/// up to not-a-number payloads (in fact, equal canonical words).
pub proof fn lemma_add_of_like(a1: u32, b1: u32, a2: u32, b2: u32)
    requires
        word_like(a1, a2),
        word_like(b1, b2),
    ensures
        add_of(a1, b1) == add_of(a2, b2),
{
    lemma_nan_word();
}

pub proof fn lemma_sub_of_like(a1: u32, b1: u32, a2: u32, b2: u32)
    requires
        word_like(a1, a2),
        word_like(b1, b2),
    ensures
        sub_of(a1, b1) == sub_of(a2, b2),
{
    lemma_nan_word();
}

pub proof fn lemma_mul_of_like(a1: u32, b1: u32, a2: u32, b2: u32)
    requires
        word_like(a1, a2),
        word_like(b1, b2),
    ensures
        mul_of(a1, b1) == mul_of(a2, b2),
{
    lemma_nan_word();
}

pub proof fn lemma_div_of_like(a1: u32, b1: u32, a2: u32, b2: u32)
    requires
        word_like(a1, a2),
        word_like(b1, b2),
    ensures
        div_of(a1, b1) == div_of(a2, b2),
{
    lemma_nan_word();
}

/// Masking the sign bit off preserves not-a-number-ness.
pub proof fn lemma_abs_mask(w: u32)
    ensures
        word_is_nan(w & 0x7FFF_FFFF) == word_is_nan(w),
{
    assert(((w & 0x7FFF_FFFF) >> 23) & 0xFF == (w >> 23) & 0xFF && (w & 0x7FFF_FFFF) & 0x7F_FFFF
        == w & 0x7F_FFFF) by (bit_vector);
}

/// The orderings are blind to not-a-number payloads: on operands that
/// agree up to them, `<` and `<=` agree.
pub proof fn lemma_cmp_like(a1: u32, b1: u32, a2: u32, b2: u32)
    requires
        word_like(a1, a2),
        word_like(b1, b2),
    ensures
        word_lt(a1, b1) == word_lt(a2, b2),
        word_le(a1, b1) == word_le(a2, b2),
{
}

/// Clamping is blind to not-a-number payloads: a not-a-number input
/// passes through either way.
pub proof fn lemma_clamp_of_like(x1: u32, x2: u32, lo: u32, hi: u32)
    requires
        word_like(x1, x2),
    ensures
        word_like(clamp_of(x1, lo, hi), clamp_of(x2, lo, hi)),
{
}

/// A finite word of value zero is one of the two zero words.
pub proof fn lemma_val_zero_is_zero_word(w: u32)
    requires
        word_is_finite(w),
        val149(w) == 0,
    ensures
        word_is_zero(w),
{
    if word_exp(w) > 0 {
        lemma_pow2_pos((word_exp(w) - 1) as nat);
        vstd::arithmetic::mul::lemma_mul_strictly_positive(
            word_frac(w) + 0x80_0000,
            pow2((word_exp(w) - 1) as nat) as int,
        );
        assert(false);
    }
    assert((w >> 23) & 0xFF == 0 && w & 0x7F_FFFF == 0 ==> w == 0 || w == 0x8000_0000u32)
        by (bit_vector);
}

/// The two zero words both hold the integer zero.
pub proof fn lemma_zero_words()
    ensures
        word_is_finite(POS_ZERO),
        word_is_finite(NEG_ZERO),
        val149(POS_ZERO) == 0,
        val149(NEG_ZERO) == 0,
        is_int_word(POS_ZERO),
        is_int_word(NEG_ZERO),
        word_int(POS_ZERO) == 0,
        word_int(NEG_ZERO) == 0,
        !word_sign(POS_ZERO),
        word_sign(NEG_ZERO),
{
    assert(0x0000_0000u32 >> 31 != 1u32 && (0x0000_0000u32 >> 23) & 0xFF == 0 && 0x0000_0000u32
        & 0x7F_FFFF == 0) by (bit_vector);
    assert(0x8000_0000u32 >> 31 == 1u32 && (0x8000_0000u32 >> 23) & 0xFF == 0 && 0x8000_0000u32
        & 0x7F_FFFF == 0) by (bit_vector);
    lemma_pow2_pos(149);
    let k = pow2(149) as int;
    vstd::arithmetic::div_mod::lemma_small_mod(0, k as nat);
    assert(val149(POS_ZERO) == 0);
    assert(val149(NEG_ZERO) == 0);
    lemma_fundamental_div_mod_converse(0, k, 0, 0);
}

/// The canonical words of the small integers that the interpolation
/// kernels divide by.
pub proof fn lemma_small_int_words()
    ensures
        word_from_int(0) == POS_ZERO,
        word_from_int(1) == POS_ONE,
        word_from_int(2) == 0x4000_0000u32,
        word_from_int(3) == 0x4040_0000u32,
        word_from_int(-1) == NEG_ONE,
        word_from_int(-2) == 0xC000_0000u32,
        word_from_int(-3) == 0xC040_0000u32,
{
    lemma2_to64();
    reveal_with_fuel(log2floor, 3);
    assert(log2floor(1) == 0);
    assert(log2floor(2) == 1);
    assert(log2floor(3) == 1);
}

// ==================
// INTEGER <-> WORD CONVERSION
// ==================

proof fn lemma_log2floor_bounds(n: int)
    requires
        n >= 1,
    ensures
        pow2(log2floor(n)) as int <= n < pow2((log2floor(n) + 1) as nat) as int,
    decreases n,
{
    if n < 2 {
        lemma2_to64();
    } else {
        lemma_log2floor_bounds(n / 2);
        let p = log2floor(n / 2);
        lemma_pow2_unfold((p + 1) as nat);
        lemma_pow2_unfold((p + 2) as nat);
    }
}

/// What the canonical encoding of a positive integer `n <= 2^24` looks
/// like, field by field, and that it holds exactly `n`.
proof fn lemma_pos_int_word(n: int)
    requires
        1 <= n <= 0x100_0000,
    ensures
        pos_int_word(n) < 0x8000_0000,
        !word_sign(pos_int_word(n)),
        word_exp(pos_int_word(n)) == 127 + log2floor(n),
        word_is_finite(pos_int_word(n)),
        val149(pos_int_word(n)) == n * (pow2(149) as int),
{
    let p = log2floor(n);
    lemma_log2floor_bounds(n);
    if p >= 25 {
        lemma_pow2_strictly_increases(24, p);
        lemma2_to64();
        assert(false);
    }
    lemma2_to64();
    if p <= 23 {
        let mant = n * (pow2((23 - p) as nat) as int);
        lemma_mul_inequality(pow2(p) as int, n, pow2((23 - p) as nat) as int);
        lemma_mul_is_commutative(pow2(p) as int, pow2((23 - p) as nat) as int);
        lemma_pow2_adds(p, (23 - p) as nat);
        assert(mant >= pow2(23));
        lemma_mul_inequality(n, pow2((p + 1) as nat) - 1, pow2((23 - p) as nat) as int);
        lemma_pow2_adds((p + 1) as nat, (23 - p) as nat);
        lemma_pow2_pos((23 - p) as nat);
        assert(mant <= (pow2((p + 1) as nat) - 1) * (pow2((23 - p) as nat) as int));
        assert((pow2((p + 1) as nat) - 1) * (pow2((23 - p) as nat) as int) == pow2(24) - pow2(
            (23 - p) as nat,
        )) by (nonlinear_arith)
            requires
                pow2((p + 1) as nat) * pow2((23 - p) as nat) == pow2(24),
        ;
        assert(mant < pow2(24));
        let e = 127 + p;
        let f = mant - 0x80_0000;
        let w = pos_int_word(n);
        assert(w == e * 0x80_0000 + f);
        lemma_word_fields_pos(w, e as u32, f as u32);
        assert(mag149(w) == (f + 0x80_0000) * (pow2((e - 1) as nat) as int));
        assert(mag149(w) == mant * (pow2((126 + p) as nat) as int));
        lemma_mul_is_associative(n, pow2((23 - p) as nat) as int, pow2((126 + p) as nat) as int);
        lemma_pow2_adds((23 - p) as nat, (126 + p) as nat);
        assert(mag149(w) == n * (pow2(149) as int));
    } else {
        assert(p == 24);
        lemma_pow2_strictly_increases(24, 25);
        assert(n == 0x100_0000);
        let w = pos_int_word(n);
        assert(w == 151 * 0x80_0000);
        lemma_word_fields_pos(w, 151u32, 0u32);
        assert(mag149(w) == 0x80_0000 * (pow2(150) as int));
        lemma_pow2_adds(23, 150);
        lemma_pow2_adds(24, 149);
        assert(mag149(w) == pow2(173) as int);
        assert(n * (pow2(149) as int) == pow2(173) as int) by {
            lemma_pow2_adds(24, 149);
        }
    }
}

proof fn lemma_word_fields_pos(w: u32, e: u32, f: u32)
    requires
        e <= 254,
        f < 0x80_0000,
        w == e * 0x80_0000 + f,
    ensures
        !word_sign(w),
        word_exp(w) == e,
        word_frac(w) == f,
{
    assert(w >> 31 != 1u32 && (w >> 23) & 0xFF == e && w & 0x7F_FFFF == f) by (bit_vector)
        requires
            e <= 254u32 && f < 0x80_0000u32 && w == e * 0x80_0000 + f,
    ;
}

proof fn lemma_word_fields_neg(w: u32, p: u32)
    requires
        p < 0x8000_0000,
        w == p + 0x8000_0000,
    ensures
        word_sign(w),
        word_exp(w) == word_exp(p),
        word_frac(w) == word_frac(p),
{
    assert(w >> 31 == 1u32 && (w >> 23) & 0xFF == (p >> 23) & 0xFF && w & 0x7F_FFFF == p
        & 0x7F_FFFF) by (bit_vector)
        requires
            p < 0x8000_0000u32 && w == p + 0x8000_0000,
    ;
}

/// The canonical encoding of an in-range integer holds exactly that
/// integer.
pub proof fn lemma_word_from_int_holds(n: int)
    requires
        -0x100_0000 <= n <= 0x100_0000,
    ensures
        word_is_finite(word_from_int(n)),
        val149(word_from_int(n)) == n * (pow2(149) as int),
        is_int_word(word_from_int(n)),
        word_int(word_from_int(n)) == n,
        word_sign(word_from_int(n)) == (n < 0),
        word_from_int(n) != NEG_ZERO,
        n >= 0 ==> word_from_int(n) < 0x8000_0000,
{
    lemma_pow2_pos(149);
    let k = pow2(149) as int;
    if n == 0 {
        assert(!word_sign(POS_ZERO) && word_exp(POS_ZERO) == 0 && word_frac(POS_ZERO) == 0)
            by (bit_vector);
        assert(val149(POS_ZERO) == 0);
        assert(n * k == 0) by (nonlinear_arith)
            requires
                n == 0,
        ;
    } else if n > 0 {
        lemma_pos_int_word(n);
    } else {
        lemma_pos_int_word(-n);
        let pos = pos_int_word(-n);
        let w = word_from_int(n);
        lemma_word_fields_neg(w, pos);
        assert(mag149(w) == mag149(pos));
        vstd::arithmetic::mul::lemma_mul_unary_negation(-n, k);
        assert(val149(w) == -((-n) * k));
        assert(-((-n) * k) == n * k) by (nonlinear_arith);
        lemma_mul_inequality(1, -n, k);
        assert(mag149(w) >= k);
        assert(w != NEG_ZERO) by {
            assert(word_exp(NEG_ZERO) == 0 && word_frac(NEG_ZERO) == 0) by (bit_vector);
            if w == NEG_ZERO {
                assert(mag149(w) == 0);
            }
        }
    }
    lemma_fundamental_div_mod_converse(n * k, k, n, 0);
}

/// The canonical word for an unsigned integer up to `2^24`.
pub fn word_of_u32(n: u32) -> (r: u32)
    requires
        n <= 0x100_0000,
    ensures
        r == word_from_int(n as int),
        is_int_word(r),
        word_int(r) == n as int,
        r < 0x8000_0000,
{
    proof {
        lemma_word_from_int_holds(n as int);
    }
    if n == 0 {
        return POS_ZERO;
    }
    let ghost n_int = n as int;
    let mut p: u32 = 0;
    let mut m: u32 = n;
    proof {
        lemma2_to64();
    }
    while m >= 2
        invariant
            1 <= m,
            p <= 24,
            1 <= n <= 0x100_0000,
            m as int == n as int / (pow2(p as nat) as int),
            log2floor(n as int) == p + log2floor(m as int),
        decreases m,
    {
        proof {
            lemma_pow2_pos(p as nat);
            lemma_pow2_unfold((p + 1) as nat);
            lemma_pow2_pos((p + 1) as nat);
            assert((n as int / (pow2(p as nat) as int)) / 2 == n as int / (pow2(
                (p + 1) as nat,
            ) as int)) by {
                vstd::arithmetic::div_mod::lemma_div_denominator(
                    n as int,
                    pow2(p as nat) as int,
                    2,
                );
            }
            if p + 1 > 24 {
                lemma_fundamental_div_mod(n as int, pow2(p as nat) as int);
                lemma_mul_inequality(2, m as int, pow2(p as nat) as int);
                lemma_mul_is_commutative(m as int, pow2(p as nat) as int);
                assert(n as int >= 2 * (pow2(p as nat) as int));
                lemma_pow2_strictly_increases(24, (p + 1) as nat);
                lemma2_to64();
                assert(false);
            }
        }
        m = m / 2;
        p = p + 1;
    }
    proof {
        lemma_pow2_pos(p as nat);
        lemma_fundamental_div_mod(n as int, pow2(p as nat) as int);
        assert(pow2(p as nat) as int <= n as int);
        assert(2 * (pow2(p as nat) as int) > n as int);
        lemma_pow2_unfold((p + 1) as nat);
    }
    if p == 24 {
        proof {
            lemma2_to64();
            assert(n == 0x100_0000);
            assert(151u32 * 0x80_0000 == 0x4B80_0000);
        }
        0x4B80_0000
    } else {
        let mant: u32 = n << (23 - p);
        proof {
            lemma_pow2_adds((p + 1) as nat, (23 - p) as nat);
            lemma2_to64();
            lemma_mul_inequality(
                n as int,
                2 * (pow2(p as nat) as int) - 1,
                pow2((23 - p) as nat) as int,
            );
            lemma_pow2_pos((23 - p) as nat);
            lemma_pow2_unfold((p + 1) as nat);
            assert((2 * (pow2(p as nat) as int) - 1) * (pow2((23 - p) as nat) as int) < pow2(24))
                by (nonlinear_arith)
                requires
                    pow2((p + 1) as nat) * pow2((23 - p) as nat) == pow2(24),
                    pow2((p + 1) as nat) == 2 * pow2(p as nat),
                    pow2((23 - p) as nat) >= 1,
            ;
            lemma_u32_shl_is_mul(n, (23 - p) as u32);
            lemma_mul_inequality(pow2(p as nat) as int, n as int, pow2((23 - p) as nat) as int);
            lemma_mul_is_commutative(pow2(p as nat) as int, pow2((23 - p) as nat) as int);
            lemma_pow2_adds(p as nat, (23 - p) as nat);
            assert(mant >= 0x80_0000);
        }
        let e: u32 = 127 + p;
        let eshift: u32 = e << 23;
        proof {
            lemma2_to64();
            lemma_u32_shl_is_mul(e, 23);
            assert(eshift == e * 0x80_0000);
            assert(e * 0x80_0000 <= 151 * 0x80_0000) by (nonlinear_arith)
                requires
                    e <= 151,
            ;
        }
        let w: u32 = eshift + (mant - 0x80_0000);
        w
    }
}

/// The canonical word for a signed integer of magnitude up to `2^24`.
pub fn word_of_i64(n: i64) -> (r: u32)
    requires
        -0x100_0000 <= n <= 0x100_0000,
    ensures
        r == word_from_int(n as int),
        is_int_word(r),
        word_int(r) == n as int,
{
    proof {
        lemma_word_from_int_holds(n as int);
    }
    if n >= 0 {
        word_of_u32(n as u32)
    } else {
        let pos: u32 = word_of_u32((-n) as u32);
        pos + 0x8000_0000
    }
}

/// Floor of a finite word whose value has magnitude at most `2^24`.
pub fn floor_word_i64(w: u32) -> (r: i64)
    requires
        word_is_finite(w),
        -0x100_0000 * (pow2(149) as int) <= val149(w) <= 0x100_0000 * (pow2(149) as int),
    ensures
        r == floor149(w),
        -0x100_0000 <= r <= 0x100_0000,
{
    proof {
        lemma_pow2_pos(149);
    }
    let ghost k = pow2(149) as int;
    let t: i64 = trunc_word_i64(w);
    proof {
        lemma_fundamental_div_mod_converse(0x100_0000 * k, k, 0x100_0000, 0);
        if val149(w) >= 0 {
            vstd::arithmetic::div_mod::lemma_div_pos_is_pos(val149(w), k);
            vstd::arithmetic::div_mod::lemma_div_is_ordered(val149(w), 0x100_0000 * k, k);
        } else {
            vstd::arithmetic::div_mod::lemma_div_pos_is_pos(-val149(w), k);
            vstd::arithmetic::div_mod::lemma_div_is_ordered(-val149(w), 0x100_0000 * k, k);
        }
        assert(-0x100_0000 <= t as int <= 0x100_0000);
    }
    let wt: u32 = word_of_i64(t);
    proof {
        lemma_word_from_int_holds(t as int);
        assert(val149(wt) == (t as int) * k);
        lemma_fundamental_div_mod(val149(w), k);
        if val149(w) >= 0 {
            // truncation and floor agree; the encoded word is at most the value
            assert(t as int == val149(w) / k);
            assert(val149(wt) <= val149(w));
        } else {
            let mag = -val149(w);
            let q = mag / k;
            let rem = mag % k;
            lemma_fundamental_div_mod(mag, k);
            vstd::arithmetic::mul::lemma_mul_unary_negation(q, k);
            if rem == 0 {
                // integral value: floor equals truncation
                lemma_fundamental_div_mod_converse(val149(w), k, -q, 0);
                assert(floor149(w) == t as int);
                assert(val149(wt) == val149(w));
            } else {
                // fractional negative value: floor is one below truncation
                assert((-q - 1) * k + (k - rem) == -(q * k) - rem) by (nonlinear_arith);
                lemma_fundamental_div_mod_converse(val149(w), k, -q - 1, k - rem);
                assert(floor149(w) == t as int - 1);
                assert(val149(wt) > val149(w));
                // the bound cannot be hit when the value is fractional
                if q == 0x100_0000 {
                    lemma_mul_is_commutative(q, k);
                    assert(false);
                }
            }
        }
    }
    if lt_word(w, wt) {
        t - 1
    } else {
        t
    }
}

proof fn lemma_sign_strip(w: u32)
    ensures
        (w & 0x7FFF_FFFF) >> 31 != 1u32,
        ((w & 0x7FFF_FFFF) >> 23) & 0xFF == (w >> 23) & 0xFF,
        (w & 0x7FFF_FFFF) & 0x7F_FFFF == w & 0x7F_FFFF,
{
    assert((w & 0x7FFF_FFFF) >> 31 != 1u32) by (bit_vector);
    assert(((w & 0x7FFF_FFFF) >> 23) & 0xFF == (w >> 23) & 0xFF) by (bit_vector);
    assert((w & 0x7FFF_FFFF) & 0x7F_FFFF == w & 0x7F_FFFF) by (bit_vector);
}

proof fn lemma_sign_flip(w: u32)
    ensures
        ((w ^ 0x8000_0000) >> 31 == 1u32) == !(w >> 31 == 1u32),
        ((w ^ 0x8000_0000) >> 23) & 0xFF == (w >> 23) & 0xFF,
        (w ^ 0x8000_0000) & 0x7F_FFFF == w & 0x7F_FFFF,
{
    assert(((w ^ 0x8000_0000) >> 31 == 1u32) == !(w >> 31 == 1u32)) by (bit_vector);
    assert(((w ^ 0x8000_0000) >> 23) & 0xFF == (w >> 23) & 0xFF) by (bit_vector);
    assert((w ^ 0x8000_0000) & 0x7F_FFFF == w & 0x7F_FFFF) by (bit_vector);
}

} // verus!
