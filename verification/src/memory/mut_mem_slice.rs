//! A standalone read-write sample slice with its length exposed as a
//! plain field, over the same buffer logic as
//! [`super::memory_slice::MemorySlice`].

use super::memory_slice::{
    lerp_cell, lerp_edge_within_tolerance, null_mut, wrapped_window, MemorySlice,
};
use super::{MemSliceError, Mutable};
use crate::interpolation::{lagrange_of, lerp_of};
use crate::sample::{
    floor149, ord149, sub_of, val149, word_from_int, word_is_finite, word_is_nan, word_like,
};
use vstd::arithmetic::power2::pow2;
use vstd::prelude::*;

verus! {

/// A read-write slice whose length rides along as a public field; the
/// field always equals the number of samples held.
pub struct MutMemSlice {
    pub inner: MemorySlice<Mutable>,
    pub length: usize,
}

impl View for MutMemSlice {
    type V = Seq<u32>;

    closed spec fn view(&self) -> Seq<u32> {
        self.inner@
    }
}

impl MutMemSlice {
    /// The cached length matches the samples held.
    pub open spec fn wf(&self) -> bool {
        self.length == self@.len()
    }

    /// An empty slice.
    #[inline(always)]
    pub fn null() -> (r: MutMemSlice)
        ensures
            r.wf(),
            r@ == Seq::<u32>::empty(),
    {
        MutMemSlice { inner: null_mut(), length: 0 }
    }

    /// A fresh slice over a copied range of this one; the offset must
    /// lie inside the slice and the range must end strictly before its
    /// end.
    pub fn get_sub_slice(&self, offset: usize, sub_length: usize) -> (r: Result<
        MutMemSlice,
        MemSliceError,
    >)
        requires
            self.wf(),
        ensures
            offset >= self@.len() ==> r == Err::<MutMemSlice, MemSliceError>(
                MemSliceError::IndexOutOfBound,
            ),
            offset < self@.len() && offset + sub_length >= self@.len() ==> r == Err::<
                MutMemSlice,
                MemSliceError,
            >(MemSliceError::LengthOutOfBound),
            offset + sub_length < self@.len() ==> r is Ok && r->Ok_0.wf() && r->Ok_0@
                == self@.subrange(offset as int, offset + sub_length),
    {
        match self.inner.get_sub_slice(offset, sub_length) {
            Ok(inner) => {
                let length = inner.len();
                Ok(MutMemSlice { inner, length })
            },
            Err(e) => Err(e),
        }
    }

    /// Direct read for the hot path; the caller proves the bound.
    #[inline(always)]
    pub fn get_unchecked(&self, index: usize) -> (r: u32)
        requires
            self.wf(),
            index < self@.len(),
        ensures
            r == self@[index as int],
    {
        self.inner.get_unchecked(index)
    }

    /// Bounds-checked read: fails with `IndexOutOfBound` exactly when
    /// the index is at or past the length.
    pub fn get(&self, index: usize) -> (r: Result<u32, MemSliceError>)
        requires
            self.wf(),
        ensures
            index < self@.len() ==> r == Ok::<u32, MemSliceError>(self@[index as int]),
            index >= self@.len() ==> r == Err::<u32, MemSliceError>(MemSliceError::IndexOutOfBound),
    {
        self.inner.get(index)
    }

    /// Circular read by Euclidean modulo.
    #[inline(always)]
    pub fn get_wrapped_unchecked(&self, index: isize) -> (r: u32)
        requires
            self.wf(),
            self@.len() > 0,
        ensures
            r == self@[(index as int) % (self@.len() as int)],
    {
        self.inner.get_wrapped_unchecked(index)
    }

    /// Circular read, the fast path taken when the index already lies in
    /// range.
    #[inline(always)]
    pub fn get_wrapped(&self, index: isize) -> (r: u32)
        requires
            self.wf(),
            self@.len() > 0,
        ensures
            r == self@[(index as int) % (self@.len() as int)],
    {
        self.inner.get_wrapped(index)
    }

    /// Four circularly consecutive samples starting at the given index.
    pub fn get_slice_of_four_wrapped(&self, index: isize) -> (r: [u32; 4])
        requires
            self.wf(),
            self@.len() > 0,
            index <= isize::MAX - 3,
        ensures
            forall|k: int| 0 <= k < 4 ==> r@[k] == self@[(index + k) % (self@.len() as int)],
    {
        self.inner.get_slice_of_four_wrapped(index)
    }

    /// Linear interpolation between the cells at the index's floor and
    /// the next cell; the caller proves that both lie inside the slice.
    #[inline(always)]
    pub fn lerp_unchecked(&self, index: u32) -> (r: u32)
        requires
            self.wf(),
            self@.len() <= 0x100_0000,
            word_is_finite(index),
            0 <= val149(index),
            val149(index) < (self@.len() - 1) * (pow2(149) as int),
        ensures
            word_like(
                r,
                lerp_of(
                    self@[floor149(index)],
                    self@[floor149(index) + 1],
                    sub_of(index, word_from_int(floor149(index))),
                ),
            ),
    {
        self.inner.lerp_unchecked(index)
    }

    /// Checked linear interpolation with the edge tolerance on the last
    /// cell.
    pub fn lerp(&self, index: u32) -> (r: Result<u32, MemSliceError>)
        requires
            self.wf(),
            1 <= self@.len() <= 0x100_0000,
        ensures
            (!word_is_nan(index) && ord149(index) < 0) ==> r == Err::<u32, MemSliceError>(
                MemSliceError::IndexOutOfBound,
            ),
            (!word_is_nan(index) && ord149(index) == (self@.len() - 1) * (pow2(149) as int)
                && lerp_edge_within_tolerance(self@.len() as int, index)) ==> r == Ok::<
                u32,
                MemSliceError,
            >(self@[self@.len() - 1]),
            ((word_is_nan(index) || ord149(index) >= 0) && !(!word_is_nan(index) && ord149(index)
                == (self@.len() - 1) * (pow2(149) as int) && lerp_edge_within_tolerance(
                self@.len() as int,
                index,
            ))) ==> (if lerp_cell(index) >= self@.len() - 1 {
                r == Err::<u32, MemSliceError>(MemSliceError::IndexOutOfBound)
            } else {
                r is Ok && word_like(
                    r->Ok_0,
                    lerp_of(
                        self@[lerp_cell(index)],
                        self@[lerp_cell(index) + 1],
                        sub_of(index, word_from_int(lerp_cell(index))),
                    ),
                )
            }),
    {
        self.inner.lerp(index)
    }

    /// Circular linear interpolation, defined for every in-range
    /// fractional index.
    #[inline(always)]
    pub fn lerp_wrapped(&self, index: u32) -> (r: u32)
        requires
            self.wf(),
            1 <= self@.len() <= 0x100_0000,
            word_is_finite(index),
            -0x100_0000 * (pow2(149) as int) <= val149(index) <= 0x100_0000 * (pow2(149) as int),
        ensures
            word_like(
                r,
                lerp_of(
                    self@[floor149(index) % (self@.len() as int)],
                    self@[(floor149(index) + 1) % (self@.len() as int)],
                    sub_of(index, word_from_int(floor149(index))),
                ),
            ),
            (val149(index) % (pow2(149) as int) == 0 && word_is_finite(
                self@[floor149(index) % (self@.len() as int)],
            ) && word_is_finite(self@[(floor149(index) + 1) % (self@.len() as int)]))
                ==> word_is_finite(r) && val149(r) == val149(
                self@[floor149(index) % (self@.len() as int)],
            ),
    {
        self.inner.lerp_wrapped(index)
    }

    /// Circular Lagrange interpolation through a window of up to
    /// `window_size` wrapped samples.
    pub fn lagrange_wrapped(&self, index: u32, window_size: usize) -> (r: u32)
        requires
            self.wf(),
            1 <= self@.len() <= 0x100_0000,
            word_is_finite(index),
            -0x100_0000 * (pow2(149) as int) <= val149(index) <= 0x100_0000 * (pow2(149) as int),
            window_size >= 2,
        ensures
            word_like(
                r,
                lagrange_of(
                    wrapped_window(
                        self@,
                        floor149(index),
                        if window_size > 100 {
                            100int
                        } else {
                            window_size as int
                        },
                    ),
                    sub_of(index, word_from_int(floor149(index))),
                ),
            ),
    {
        self.inner.lagrange_wrapped(index, window_size)
    }

    /// Circular Lagrange interpolation through exactly four wrapped
    /// samples starting at the index's floor, evaluated by the unrolled
    /// four-point kernel at the fractional offset.
    pub fn lagrange_four_points_wrapped(&self, index: u32) -> (r: u32)
        requires
            self.wf(),
            1 <= self@.len() <= 0x100_0000,
            word_is_finite(index),
            -0x100_0000 * (pow2(149) as int) <= val149(index) <= 0x100_0000 * (pow2(149) as int),
        ensures
            word_like(
                r,
                lagrange_of(
                    Seq::new(4, |t: int| self@[(floor149(index) + t) % (self@.len() as int)]),
                    sub_of(index, word_from_int(floor149(index))),
                ),
            ),
    {
        self.inner.lagrange_four_points_wrapped(index)
    }

    /// Direct write for the hot path; the caller proves the bound.
    #[inline(always)]
    pub fn assign_unchecked(&mut self, index: usize, value: u32)
        requires
            old(self).wf(),
            index < old(self)@.len(),
        ensures
            final(self).wf(),
            final(self)@ == old(self)@.update(index as int, value),
            final(self).length == old(self).length,
    {
        self.inner.assign_unchecked(index, value);
    }

    /// Bounds-checked write: fails with `IndexOutOfBound` exactly when
    /// the index is at or past the length, leaving the samples unchanged.
    pub fn assign(&mut self, index: usize, value: u32) -> (r: Result<(), MemSliceError>)
        requires
            old(self).wf(),
        ensures
            final(self).wf(),
            final(self).length == old(self).length,
            index < old(self)@.len() ==> final(self)@ == old(self)@.update(index as int, value)
                && r == Ok::<(), MemSliceError>(()),
            index >= old(self)@.len() ==> final(self)@ == old(self)@ && r == Err::<
                (),
                MemSliceError,
            >(MemSliceError::IndexOutOfBound),
    {
        self.inner.assign(index, value)
    }

    /// Rebinds this handle to other storage; contents and length change
    /// together.
    #[inline(always)]
    pub fn set_slice_unchecked(&mut self, samples: Vec<u32>)
        ensures
            final(self).wf(),
            final(self)@ == samples@,
    {
        self.length = samples.len();
        self.inner.change_mut_slice_unchecked(samples);
    }

    /// The samples behind the handle.
    #[inline(always)]
    pub fn as_slice(&self) -> (r: &Vec<u32>)
        ensures
            r@ == self@,
    {
        self.inner.as_slice_mut()
    }
}

/// Binds a read-write slice over the given samples.
#[inline(always)]
pub fn from_slice(samples: Vec<u32>) -> (r: MutMemSlice)
    ensures
        r.wf(),
        r@ == samples@,
{
    let length = samples.len();
    MutMemSlice { inner: super::memory_slice::from_slice_mut(samples), length }
}

} // verus!
