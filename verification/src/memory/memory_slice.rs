//! A sample buffer handle with a capability fixed at construction:
//! read-only (`NonMutable`) or read-write (`Mutable`). The read-write
//! capability implies the read capability, never the reverse.
//!
//! Samples are raw IEEE 754 single words; the handle owns its storage and
//! its view is the sequence of words it holds. Checked accessors return a
//! [`MemSliceError`] instead of panicking; the unchecked twins demand the
//! bound as a precondition, which every caller must prove.

use super::{MemSliceError, Mutable, MutLocation, NonMutLocation, NonMutable};
use crate::interpolation::{lagrange, lagrange_of, lagrange_only_4_elements, lerp_of};
use crate::sample::{
    add_of, add_word, eq_word, floor149, floor_word_i64, lemma_add_of_like, lemma_mul_of_like,
    lemma_small_int_words, lemma_sub_of_like, lemma_nan_word, lemma_val_zero_is_zero_word,
    lemma_word_from_int_holds, lemma_zero_words, lt_word, mul_of, ord149, sub_of, sub_word,
    trunc_word_i64, val149, word_from_int, word_is_finite, word_is_infinite, word_is_nan,
    word_like, word_of_i64, word_of_u32, POS_ONE, POS_ZERO,
};
use vstd::arithmetic::div_mod::{
    lemma_fundamental_div_mod, lemma_fundamental_div_mod_converse, lemma_small_mod,
};
use vstd::arithmetic::power2::pow2;
use vstd::prelude::*;

verus! {

/// Ten machine epsilons: the deliberate tolerance that lets a fractional
/// index standing exactly on the last valid cell resolve without reading
/// the missing next sample.
pub const LERP_EDGE_TOLERANCE: u32 = 0x35A0_0000;

/// The cell a fractional index selects: its floor, with not-a-number
/// reading cell zero (the cast truncates it to zero).
pub open spec fn lerp_cell(w: u32) -> int {
    if word_is_nan(w) {
        0
    } else {
        floor149(w)
    }
}

/// Whether an index standing on the last cell of a slice of length `n`
/// falls inside the edge tolerance `n - 1 + 10 * epsilon`, in rounded
/// sample arithmetic.
pub open spec fn lerp_edge_within_tolerance(n: int, index: u32) -> bool {
    let lim = add_of(word_from_int(n - 1), LERP_EDGE_TOLERANCE);
    !word_is_nan(lim) && ord149(index) < ord149(lim)
}

/// The window of circularly consecutive samples that the wrapped Lagrange
/// interpolation reads: `ws` cells centered after `f`, the last cell
/// zero-filled when the window size is odd.
pub open spec fn wrapped_window(s: Seq<u32>, f: int, ws: int) -> Seq<u32> {
    let lower = -(ws / 2) + 1;
    let fill = 2 * (ws / 2);
    Seq::new(
        ws as nat,
        |t: int|
            if t < fill {
                s[(f + lower + t) % (s.len() as int)]
            } else {
                POS_ZERO
            },
    )
}

/// A capability-tagged window of samples. The capability type parameter
/// decides at compile time which operations exist; a read-only consumer
/// cannot write through the slice.
#[derive(Debug, Clone)]
pub struct MemorySlice<Mutability> {
    data: Vec<u32>,
    cap: Mutability,
}

impl<Mutability> View for MemorySlice<Mutability> {
    type V = Seq<u32>;

    closed spec fn view(&self) -> Seq<u32> {
        self.data@
    }
}

/// An empty read-only slice.
pub fn null() -> (r: MemorySlice<NonMutable>)
    ensures
        r@ == Seq::<u32>::empty(),
{
    let r = MemorySlice { data: Vec::new(), cap: NonMutable };
    proof {
        assert(r@ =~= Seq::<u32>::empty());
    }
    r
}

/// An empty read-write slice.
pub fn null_mut() -> (r: MemorySlice<Mutable>)
    ensures
        r@ == Seq::<u32>::empty(),
{
    let r = MemorySlice { data: Vec::new(), cap: Mutable };
    proof {
        assert(r@ =~= Seq::<u32>::empty());
    }
    r
}

/// Binds a read-only slice over the given samples.
pub fn from_slice(samples: Vec<u32>) -> (r: MemorySlice<NonMutable>)
    ensures
        r@ == samples@,
{
    MemorySlice { data: samples, cap: NonMutable }
}

/// Binds a read-write slice over the given samples.
pub fn from_slice_mut(samples: Vec<u32>) -> (r: MemorySlice<Mutable>)
    ensures
        r@ == samples@,
{
    MemorySlice { data: samples, cap: Mutable }
}

impl<Mutability> MemorySlice<Mutability> {
    pub fn len(&self) -> (r: usize)
        ensures
            r == self@.len(),
    {
        self.data.len()
    }
}

impl<Mutability> MemorySlice<Mutability> where Mutability: NonMutLocation + Copy {
    /// A fresh slice over a copied range of this one, with the same
    /// capability; the sub-slice holds its own copy of the samples. Fails
    /// exactly as the bounds fail: the offset must lie inside the slice,
    /// and the bound is strict — a range ending at the final cell is
    /// refused.
    pub fn get_sub_slice(&self, offset: usize, sub_length: usize) -> (r: Result<
        MemorySlice<Mutability>,
        MemSliceError,
    >)
        ensures
            offset >= self@.len() ==> r == Err::<MemorySlice<Mutability>, MemSliceError>(
                MemSliceError::IndexOutOfBound,
            ),
            offset < self@.len() && offset + sub_length >= self@.len() ==> r == Err::<
                MemorySlice<Mutability>,
                MemSliceError,
            >(MemSliceError::LengthOutOfBound),
            offset + sub_length < self@.len() ==> r is Ok && r->Ok_0@ == self@.subrange(
                offset as int,
                offset + sub_length,
            ),
    {
        if offset >= self.data.len() {
            return Err(MemSliceError::IndexOutOfBound);
        }
        if sub_length >= self.data.len() - offset {
            return Err(MemSliceError::LengthOutOfBound);
        }
        let mut sub: Vec<u32> = Vec::new();
        let mut i: usize = 0;
        proof {
            assert(sub@ =~= self@.subrange(offset as int, offset as int));
        }
        while i < sub_length
            invariant
                i <= sub_length,
                offset + sub_length < self@.len(),
                self@.len() <= usize::MAX,
                sub@ == self@.subrange(offset as int, offset + i),
            decreases sub_length - i,
        {
            assert(offset + i < self@.len());
            sub.push(self.data[offset + i]);
            i = i + 1;
            proof {
                assert(sub@ =~= self@.subrange(offset as int, offset + i));
            }
        }
        Ok(MemorySlice { data: sub, cap: self.cap })
    }

    /// Direct read for the hot path; the caller proves the bound.
    #[inline(always)]
    pub fn get_unchecked(&self, index: usize) -> (r: u32)
        requires
            index < self@.len(),
        ensures
            r == self@[index as int],
    {
        self.data[index]
    }

    /// Bounds-checked read: fails with `IndexOutOfBound` exactly when the
    /// index is at or past the length.
    pub fn get(&self, index: usize) -> (r: Result<u32, MemSliceError>)
        ensures
            index < self@.len() ==> r == Ok::<u32, MemSliceError>(self@[index as int]),
            index >= self@.len() ==> r == Err::<u32, MemSliceError>(MemSliceError::IndexOutOfBound),
    {
        if index >= self.data.len() {
            return Err(MemSliceError::IndexOutOfBound);
        }
        Ok(self.get_unchecked(index))
    }

    /// Circular read: any signed index lands in `[0, len)` by Euclidean
    /// modulo. Needs a non-empty slice.
    #[inline(always)]
    pub fn get_wrapped_unchecked(&self, index: isize) -> (r: u32)
        requires
            self@.len() > 0,
        ensures
            r == self@[(index as int) % (self@.len() as int)],
    {
        let i = euclid_index(index, self.data.len());
        self.data[i]
    }

    /// Circular read, the fast path taken when the index already lies in
    /// range.
    #[inline(always)]
    pub fn get_wrapped(&self, index: isize) -> (r: u32)
        requires
            self@.len() > 0,
        ensures
            r == self@[(index as int) % (self@.len() as int)],
    {
        if index < 0 || index >= self.data.len() as isize {
            return self.get_wrapped_unchecked(index);
        }
        proof {
            lemma_small_mod(index as nat, self@.len() as nat);
        }
        self.get_unchecked(index as usize)
    }

    /// Four circularly consecutive samples starting at the given index.
    pub fn get_slice_of_four_wrapped(&self, index: isize) -> (r: [u32; 4])
        requires
            self@.len() > 0,
            index <= isize::MAX - 3,
        ensures
            forall|k: int|
                0 <= k < 4 ==> r@[k] == self@[(index + k) % (self@.len() as int)],
    {
        [
            self.get_wrapped(index),
            self.get_wrapped(index + 1),
            self.get_wrapped(index + 2),
            self.get_wrapped(index + 3),
        ]
    }

    /// Rebinds this handle to other storage; the length and contents
    /// change together, atomically from the caller's point of view.
    #[inline(always)]
    pub fn change_slice_unchecked(&mut self, samples: Vec<u32>)
        ensures
            final(self)@ == samples@,
    {
        self.data = samples;
    }

    /// The samples behind the handle.
    #[inline(always)]
    pub fn as_slice(&self) -> (r: &Vec<u32>)
        ensures
            r@ == self@,
    {
        &self.data
    }

    /// Linear interpolation between the cells at the index's floor and the
    /// next cell; the caller proves that both lie inside the slice.
    #[inline(always)]
    pub fn lerp_unchecked(&self, index: u32) -> (r: u32)
        requires
            self@.len() <= 0x100_0000,
            word_is_finite(index),
            0 <= val149(index),
            val149(index) < (self@.len() - 1) * (pow2(149) as int),
        ensures
            word_like(
                r,
                lerp_of(
                    self@[floor149(index)],
                    self@[floor149(index) + 1],
                    sub_of(index, word_from_int(floor149(index))),
                ),
            ),
    {
        proof {
            lemma_pow2_pos_149();
            let k = pow2(149) as int;
            vstd::arithmetic::mul::lemma_mul_inequality(self@.len() - 1, 0x100_0000, k);
            vstd::arithmetic::div_mod::lemma_div_pos_is_pos(val149(index), k);
            vstd::arithmetic::div_mod::lemma_div_is_ordered(
                val149(index),
                0x100_0000 * k,
                k,
            );
            lemma_fundamental_div_mod_converse(0x100_0000 * k, k, 0x100_0000, 0);
            lemma_fundamental_div_mod(val149(index), k);
            if floor149(index) >= self@.len() - 1 {
                vstd::arithmetic::mul::lemma_mul_inequality(
                    self@.len() - 1,
                    floor149(index),
                    k,
                );
                assert(false);
            }
        }
        let t: i64 = trunc_word_i64(index);
        let a = self.get_unchecked(t as usize);
        let b = self.get_unchecked(t as usize + 1);
        let frac = sub_word(index, word_of_i64(t));
        crate::interpolation::lerp_unchecked(a, b, frac)
    }

    /// Checked linear interpolation. A negative index is rejected; an
    /// index standing exactly on the last cell resolves to that sample
    /// inside the edge tolerance; otherwise both neighbor cells are
    /// bounds-checked and blended.
    pub fn lerp(&self, index: u32) -> (r: Result<u32, MemSliceError>)
        requires
            1 <= self@.len() <= 0x100_0000,
        ensures
            (!word_is_nan(index) && ord149(index) < 0) ==> r == Err::<u32, MemSliceError>(
                MemSliceError::IndexOutOfBound,
            ),
            (!word_is_nan(index) && ord149(index) == (self@.len() - 1) * (pow2(149) as int)
                && lerp_edge_within_tolerance(self@.len() as int, index)) ==> r == Ok::<
                u32,
                MemSliceError,
            >(self@[self@.len() - 1]),
            ((word_is_nan(index) || ord149(index) >= 0) && !(!word_is_nan(index) && ord149(index)
                == (self@.len() - 1) * (pow2(149) as int) && lerp_edge_within_tolerance(
                self@.len() as int,
                index,
            ))) ==> (if lerp_cell(index) >= self@.len() - 1 {
                r == Err::<u32, MemSliceError>(MemSliceError::IndexOutOfBound)
            } else {
                r is Ok && word_like(
                    r->Ok_0,
                    lerp_of(
                        self@[lerp_cell(index)],
                        self@[lerp_cell(index) + 1],
                        sub_of(index, word_from_int(lerp_cell(index))),
                    ),
                )
            }),
    {
        proof {
            lemma_zero_words();
            lemma_small_int_words();
            lemma_pow2_pos_149();
        }
        if lt_word(index, POS_ZERO) {
            return Err(MemSliceError::IndexOutOfBound);
        }
        let n = self.data.len();
        let last = word_of_u32((n - 1) as u32);
        let lim = add_word(sub_word(word_of_u32(n as u32), POS_ONE), LERP_EDGE_TOLERANCE);
        proof {
            lemma_word_from_int_holds(n - 1);
            lemma_word_from_int_holds(1);
        }
        if eq_word(index, last) && lt_word(index, lim) {
            let t: i64 = trunc_word_i64(index);
            proof {
                let k = pow2(149) as int;
                vstd::arithmetic::power2::lemma2_to64();
                vstd::arithmetic::power2::lemma_pow2_adds(24, 149);
                vstd::arithmetic::power2::lemma_pow2_strictly_increases(173, 300);
                vstd::arithmetic::mul::lemma_mul_inequality(self@.len() - 1, 0x100_0000, k);
                assert(word_is_finite(index));
                lemma_fundamental_div_mod_converse(val149(index), k, self@.len() - 1, 0);
            }
            return Ok(self.get_unchecked(t as usize));
        }
        let t: i64 = trunc_word_i64(index);
        proof {
            let k = pow2(149) as int;
            vstd::arithmetic::power2::lemma2_to64();
            if !word_is_nan(index) {
                if word_is_infinite(index) {
                    // positive infinity: the selected cell lies far past the end
                    vstd::arithmetic::power2::lemma_pow2_pos(300);
                    vstd::arithmetic::power2::lemma_pow2_strictly_increases(63, 300);
                    vstd::arithmetic::power2::lemma_pow2_adds(105, 149);
                    vstd::arithmetic::power2::lemma_pow2_strictly_increases(1, 105);
                    let m = 0x80_0000 * (pow2(105) as int);
                    assert(val149(index) == 0x80_0000 * (pow2(254) as int));
                    assert(val149(index) == m * k) by (nonlinear_arith)
                        requires
                            val149(index) == 0x80_0000 * (pow2(254) as int),
                            pow2(254) == pow2(105) * pow2(149),
                            k == pow2(149) as int,
                            m == 0x80_0000 * (pow2(105) as int),
                    ;
                    lemma_fundamental_div_mod_converse(val149(index), k, m, 0);
                    vstd::arithmetic::mul::lemma_mul_inequality(2, pow2(105) as int, 0x80_0000);
                } else {
                    lemma_fundamental_div_mod(val149(index), k);
                    vstd::arithmetic::div_mod::lemma_div_pos_is_pos(val149(index), k);
                }
            }
        }
        if t >= self.data.len() as i64 - 1 {
            return Err(MemSliceError::IndexOutOfBound);
        }
        proof {
            if word_is_infinite(index) {
                // excluded: its truncation saturates past every length
                vstd::arithmetic::power2::lemma2_to64_rest();
                vstd::arithmetic::power2::lemma_pow2_strictly_increases(63, 300);
                assert(false);
            }
            assert(t as int == lerp_cell(index));
        }
        let a = self.get_unchecked(t as usize);
        let b = self.get_unchecked(t as usize + 1);
        let wt = word_of_i64(t);
        let frac = sub_word(index, wt);
        let blend = crate::interpolation::lerp_unchecked(a, b, frac);
        proof {
            lemma_nan_word();
            lemma_sub_of_like(POS_ONE, frac, POS_ONE, sub_of(index, word_from_int(t as int)));
            lemma_mul_of_like(
                a,
                sub_of(POS_ONE, frac),
                a,
                sub_of(POS_ONE, sub_of(index, word_from_int(t as int))),
            );
            lemma_mul_of_like(b, frac, b, sub_of(index, word_from_int(t as int)));
            lemma_add_of_like(
                mul_of(a, sub_of(POS_ONE, frac)),
                mul_of(b, frac),
                mul_of(a, sub_of(POS_ONE, sub_of(index, word_from_int(t as int)))),
                mul_of(b, sub_of(index, word_from_int(t as int))),
            );
        }
        Ok(blend)
    }

    /// Circular linear interpolation: both neighbor reads wrap, so it is
    /// defined for every admitted fractional index; the index must be
    /// finite of magnitude at most `2^24`, the range in which cell
    /// numbers are exact in single precision. At an integral index with
    /// finite neighbor samples it returns exactly the sample at that
    /// cell.
    #[inline(always)]
    #[verifier::rlimit(30)]
    pub fn lerp_wrapped(&self, index: u32) -> (r: u32)
        requires
            1 <= self@.len() <= 0x100_0000,
            word_is_finite(index),
            -0x100_0000 * (pow2(149) as int) <= val149(index) <= 0x100_0000 * (pow2(149) as int),
        ensures
            word_like(
                r,
                lerp_of(
                    self@[floor149(index) % (self@.len() as int)],
                    self@[(floor149(index) + 1) % (self@.len() as int)],
                    sub_of(index, word_from_int(floor149(index))),
                ),
            ),
            (val149(index) % (pow2(149) as int) == 0 && word_is_finite(
                self@[floor149(index) % (self@.len() as int)],
            ) && word_is_finite(self@[(floor149(index) + 1) % (self@.len() as int)]))
                ==> word_is_finite(r) && val149(r) == val149(
                self@[floor149(index) % (self@.len() as int)],
            ),
    {
        proof {
            lemma_pow2_pos_149();
        }
        let int_index: i64 = floor_word_i64(index);
        let a = self.get_wrapped(int_index as isize);
        let b = self.get_wrapped((int_index + 1) as isize);
        let wf = word_of_i64(int_index);
        let frac = sub_word(index, wf);
        proof {
            let k = pow2(149) as int;
            lemma_word_from_int_holds(int_index as int);
            if val149(index) % k == 0 {
                lemma_fundamental_div_mod(val149(index), k);
                if val149(index) == 0 {
                    lemma_val_zero_is_zero_word(index);
                    lemma_zero_words();
                }
            }
        }
        let r = crate::interpolation::lerp_unchecked(a, b, frac);
        proof {
            let k = pow2(149) as int;
            let cell = floor149(index) % (self@.len() as int);
            if val149(index) % k == 0 && word_is_finite(self@[cell]) && word_is_finite(
                self@[(floor149(index) + 1) % (self@.len() as int)],
            ) {
                lemma_word_from_int_holds(int_index as int);
                lemma_fundamental_div_mod(val149(index), k);
                vstd::arithmetic::mul::lemma_mul_is_commutative(int_index as int, k);
                assert(val149(index) == val149(wf));
                assert(crate::sample::word_is_zero(frac));
                assert(a == self@[cell]);
                assert(word_is_finite(r) && val149(r) == val149(self@[cell]));
            }
        }
        r
    }

    /// Circular Lagrange interpolation: gathers a window of up to
    /// `window_size` wrapped samples (at most a hundred) centered after
    /// the index's floor and evaluates the general Lagrange polynomial at
    /// the fractional offset. A window of one is refused: the polynomial
    /// below demands an offset no greater than the window's last
    /// position, which a fractional offset in a one-sample window
    /// violates.
    pub fn lagrange_wrapped(&self, index: u32, window_size: usize) -> (r: u32)
        requires
            1 <= self@.len() <= 0x100_0000,
            word_is_finite(index),
            -0x100_0000 * (pow2(149) as int) <= val149(index) <= 0x100_0000 * (pow2(149) as int),
            window_size >= 2,
        ensures
            word_like(
                r,
                lagrange_of(
                    wrapped_window(
                    self@,
                    floor149(index),
                        if window_size > 100 {
                            100int
                        } else {
                            window_size as int
                        },
                    ),
                    sub_of(index, word_from_int(floor149(index))),
                ),
            ),
    {
        proof {
            lemma_pow2_pos_149();
        }
        let ghost k = pow2(149) as int;
        let ws: usize = if window_size > 100 {
            100
        } else {
            window_size
        };
        let int_index: i64 = floor_word_i64(index);
        let lower: i64 = -((ws / 2) as i64) + 1;
        let fill: usize = 2 * (ws / 2);
        let mut window: Vec<u32> = Vec::new();
        let mut t: usize = 0;
        proof {
            assert(window@ =~= wrapped_window(self@, int_index as int, ws as int).take(0));
        }
        while t < ws
            invariant
                t <= ws,
                2 <= ws <= 100,
                fill == 2 * (ws / 2),
                lower == -((ws / 2) as int) + 1,
                -0x100_0000 <= int_index <= 0x100_0000,
                1 <= self@.len() <= 0x100_0000,
                window@ == wrapped_window(self@, int_index as int, ws as int).take(t as int),
            decreases ws - t,
        {
            if t < fill {
                let cell = self.get_wrapped_unchecked((int_index + lower + t as i64) as isize);
                window.push(cell);
            } else {
                window.push(POS_ZERO);
            }
            t = t + 1;
            proof {
                assert(window@ =~= wrapped_window(self@, int_index as int, ws as int).take(
                    t as int,
                ));
            }
        }
        let wf = word_of_i64(int_index);
        let frac = sub_word(index, wf);
        proof {
            lemma_word_from_int_holds(int_index as int);
            lemma_fundamental_div_mod(val149(index), k);
            vstd::arithmetic::mul::lemma_mul_inequality(1, ws - 1, k);
            assert(window@ =~= wrapped_window(self@, int_index as int, ws as int));
        }
        lagrange(window.as_slice(), frac)
    }

    /// Circular Lagrange interpolation through exactly four wrapped
    /// samples starting at the index's floor, evaluated by the unrolled
    /// four-point kernel at the fractional offset.
    pub fn lagrange_four_points_wrapped(&self, index: u32) -> (r: u32)
        requires
            1 <= self@.len() <= 0x100_0000,
            word_is_finite(index),
            -0x100_0000 * (pow2(149) as int) <= val149(index) <= 0x100_0000 * (pow2(149) as int),
        ensures
            word_like(
                r,
                lagrange_of(
                    Seq::new(4, |t: int| self@[(floor149(index) + t) % (self@.len() as int)]),
                    sub_of(index, word_from_int(floor149(index))),
                ),
            ),
    {
        proof {
            lemma_pow2_pos_149();
        }
        let int_index: i64 = floor_word_i64(index);
        let four = self.get_slice_of_four_wrapped(int_index as isize);
        let mut window: Vec<u32> = Vec::new();
        window.push(four[0]);
        window.push(four[1]);
        window.push(four[2]);
        window.push(four[3]);
        let wf = word_of_i64(int_index);
        let frac = sub_word(index, wf);
        proof {
            lemma_word_from_int_holds(int_index as int);
        }
        let r = lagrange_only_4_elements(window.as_slice(), frac);
        proof {
            assert(window@.subrange(0, 4) =~= Seq::new(
                4,
                |t: int| self@[(floor149(index) + t) % (self@.len() as int)],
            ));
        }
        r
    }
}

/// `2^149` is positive.
proof fn lemma_pow2_pos_149()
    ensures
        pow2(149) > 0,
{
    vstd::arithmetic::power2::lemma_pow2_pos(149);
}

impl MemorySlice<Mutable> {
    /// Gives up the write capability: a read-only view over the same
    /// samples. There is no conversion the other way.
    pub fn read_only(self) -> (r: MemorySlice<NonMutable>)
        ensures
            r@ == self@,
    {
        MemorySlice { data: self.data, cap: NonMutable }
    }
}

impl<Mutability> MemorySlice<Mutability> where Mutability: MutLocation {
    /// Direct write for the hot path; the caller proves the bound.
    #[inline(always)]
    pub fn assign_unchecked(&mut self, index: usize, value: u32)
        requires
            index < old(self)@.len(),
        ensures
            final(self)@ == old(self)@.update(index as int, value),
    {
        self.data[index] = value;
    }

    /// Bounds-checked write: fails with `IndexOutOfBound` exactly when the
    /// index is at or past the length, leaving the samples unchanged.
    pub fn assign(&mut self, index: usize, value: u32) -> (r: Result<(), MemSliceError>)
        ensures
            index < old(self)@.len() ==> final(self)@ == old(self)@.update(index as int, value)
                && r == Ok::<(), MemSliceError>(()),
            index >= old(self)@.len() ==> final(self)@ == old(self)@ && r == Err::<
                (),
                MemSliceError,
            >(MemSliceError::IndexOutOfBound),
    {
        if index >= self.data.len() {
            return Err(MemSliceError::IndexOutOfBound);
        }
        self.assign_unchecked(index, value);
        Ok(())
    }

    /// Rebinds this handle to other storage, as a read-write slice.
    #[inline(always)]
    pub fn change_mut_slice_unchecked(&mut self, samples: Vec<u32>)
        ensures
            final(self)@ == samples@,
    {
        self.data = samples;
    }

    /// The samples behind the handle.
    #[inline(always)]
    pub fn as_slice_mut(&self) -> (r: &Vec<u32>)
        ensures
            r@ == self@,
    {
        &self.data
    }
}

/// Euclidean remainder of a signed index by a positive length: the unique
/// representative in `[0, len)`, also for negative indices.
pub fn euclid_index(index: isize, len: usize) -> (r: usize)
    requires
        len > 0,
    ensures
        r < len,
        r as int == (index as int) % (len as int),
{
    if index >= 0 {
        let r = (index as usize) % len;
        r
    } else {
        let j: isize = -(index + 1);
        let rj: usize = (j as usize) % len;
        let r = len - 1 - rj;
        proof {
            let l = len as int;
            let qj = (j as int) / l;
            vstd::arithmetic::div_mod::lemma_mod_bound(j as int, l);
            lemma_fundamental_div_mod(j as int, l);
            assert((-qj - 1) * l == -(qj * l) - l) by (nonlinear_arith);
            lemma_fundamental_div_mod_converse(index as int, l, -qj - 1, l - 1 - (rj as int));
        }
        r
    }
}

/// Writing a value at a cell and reading that cell gives the value back,
/// and no other cell changes: the read/write round trip over the view
/// that `assign` updates and `get` indexes.
pub proof fn lemma_write_then_read(s: Seq<u32>, i: int, v: u32)
    requires
        0 <= i < s.len(),
    ensures
        s.update(i, v)[i] == v,
        forall|j: int| 0 <= j < s.len() && j != i ==> s.update(i, v)[j] == s[j],
{
}

/// The circular read is a true modulo: reducing any signed index first by
/// the truncating remainder and then shifting into range lands on the same
/// cell as the Euclidean remainder, also for negative indices.
pub proof fn lemma_wrap_is_true_modulo(index: int, len: int)
    requires
        len > 0,
    ensures
        ((index % len) + len) % len == index % len,
{
    lemma_fundamental_div_mod(index, len);
    lemma_fundamental_div_mod_converse((index % len) + len, len, 1, index % len);
    lemma_small_mod((index % len) as nat, len as nat);
}

} // verus!
