//! A fixed-length sample delay: a read-write buffer slice plus a write
//! cursor. Reading returns the cell under the cursor *before* it is
//! overwritten, so the value emitted at tick `n` is exactly the value
//! written at tick `n - length`; [`lemma_delay_of_length`] proves that
//! from the tick contract.

use crate::memory::memory_slice::MemorySlice;
use crate::memory::Mutable;
use crate::interpolation::lerp_of;
use crate::sample::{
    add_of, add_word, floor149, sub_of, val149, word_from_int, word_is_finite, word_like,
    word_of_u32,
};
use vstd::arithmetic::div_mod::{lemma_fundamental_div_mod_converse, lemma_small_mod};
use vstd::arithmetic::power2::pow2;
use vstd::prelude::*;

verus! {

/// A delay line over a read-write buffer; `index` is the cursor of the
/// next cell due for writing.
pub struct DelayLine {
    pub buffer: MemorySlice<Mutable>,
    pub index: usize,
}

impl DelayLine {
    /// A usable delay line: non-empty, cursor in range, and short enough
    /// that every cell index is exact in single-precision arithmetic.
    pub open spec fn wf(&self) -> bool {
        0 < self.buffer@.len() <= 0x100_0000 && self.index < self.buffer@.len()
    }

    pub fn new(buffer: MemorySlice<Mutable>) -> (r: DelayLine)
        requires
            0 < buffer@.len() <= 0x100_0000,
        ensures
            r.wf(),
            r.buffer@ == buffer@,
            r.index == 0,
    {
        Self { buffer, index: 0 }
    }

    /// Rebinds the delay line to another buffer; the cursor resets to
    /// zero so that it cannot point past a shorter buffer.
    #[inline(always)]
    pub fn change_buffer(&mut self, new_slice: MemorySlice<Mutable>)
        requires
            0 < new_slice@.len() <= 0x100_0000,
        ensures
            final(self).wf(),
            final(self).buffer@ == new_slice@,
            final(self).index == 0,
    {
        self.buffer = new_slice;
        self.index = 0;
    }

    /// The oldest sample in the history: the cell the cursor points at,
    /// read before it is overwritten.
    pub fn read(&self) -> (r: u32)
        requires
            self.wf(),
        ensures
            r == self.buffer@[self.index as int],
    {
        self.buffer.get_unchecked(self.index)
    }

    /// A circular read at a signed offset from the cursor.
    pub fn read_wrapped_at(&self, offset: isize) -> (r: u32)
        requires
            self.wf(),
            isize::MIN <= self.index + offset <= isize::MAX,
        ensures
            r == self.buffer@[(self.index + offset) % (self.buffer@.len() as int)],
    {
        self.buffer.get_wrapped(self.index as isize + offset)
    }

    /// A circular, linearly interpolated read at a fractional offset from
    /// the cursor, for continuously variable delay lengths.
    pub fn read_lerp_wrapped_at(&self, offset: u32) -> (r: u32)
        requires
            self.wf(),
            word_is_finite(offset),
            -0x100_0000 * (pow2(149) as int) <= self.index * (pow2(149) as int) + val149(offset)
                <= 0x100_0000 * (pow2(149) as int),
        ensures
            ({
                let w = add_of(word_from_int(self.index as int), offset);
                let f = floor149(w);
                let n = self.buffer@.len() as int;
                word_like(
                    r,
                    lerp_of(
                        self.buffer@[f % n],
                        self.buffer@[(f + 1) % n],
                        sub_of(w, word_from_int(f)),
                    ),
                )
            }),
    {
        proof {
            vstd::arithmetic::power2::lemma_pow2_pos(149);
            crate::sample::lemma_word_from_int_holds(self.index as int);
        }
        let wi = word_of_u32(self.index as u32);
        let w = add_word(wi, offset);
        self.buffer.lerp_wrapped(w)
    }

    /// A circular Lagrange-interpolated read at a fractional offset from
    /// the cursor, through a five-sample window.
    pub fn read_lagrange_wrapped_at(&self, offset: u32) -> (r: u32)
        requires
            self.wf(),
            word_is_finite(offset),
            -0x100_0000 * (pow2(149) as int) <= self.index * (pow2(149) as int) + val149(offset)
                <= 0x100_0000 * (pow2(149) as int),
        ensures
            ({
                let w = add_of(word_from_int(self.index as int), offset);
                let f = floor149(w);
                word_like(
                    r,
                    crate::interpolation::lagrange_of(
                        crate::memory::memory_slice::wrapped_window(self.buffer@, f, 5),
                        sub_of(w, word_from_int(f)),
                    ),
                )
            }),
    {
        proof {
            vstd::arithmetic::power2::lemma_pow2_pos(149);
            crate::sample::lemma_word_from_int_holds(self.index as int);
        }
        let wi = word_of_u32(self.index as u32);
        let w = add_word(wi, offset);
        self.buffer.lagrange_wrapped(w, 5)
    }

    /// Writes `value` at the cursor, then advances it by one, wrapping to
    /// zero at the end of the buffer.
    pub fn write_and_advance(&mut self, value: u32)
        requires
            old(self).wf(),
        ensures
            final(self).wf(),
            final(self).buffer@ == old(self).buffer@.update(old(self).index as int, value),
            final(self).index == (old(self).index + 1) % (old(self).buffer@.len() as int),
    {
        self.buffer.assign_unchecked(self.index, value);
        let len = self.buffer.len();
        proof {
            if old(self).index + 1 == len {
                lemma_fundamental_div_mod_converse(len as int, len as int, 1, 0);
            } else {
                lemma_small_mod((old(self).index + 1) as nat, len as nat);
            }
        }
        if self.index == len - 1 {
            self.index = 0;
        } else {
            self.index = self.index + 1;
        }
    }
}

/// The delayed contents and cursor after writing the samples of `vs` in
/// order through [`DelayLine::write_and_advance`]'s contract: each write
/// lands at the cursor, which then advances circularly.
pub open spec fn ticked(s: Seq<u32>, c: int, vs: Seq<u32>) -> (Seq<u32>, int)
    decreases vs.len(),
{
    if vs.len() == 0 {
        (s, c)
    } else {
        ticked(s.update(c, vs[0]), (c + 1) % (s.len() as int), vs.drop_first())
    }
}

/// A delay line of length `L` delays by exactly `L` samples: after the
/// writes of `vs`, the cell under the cursor — what `read` returns — is
/// the value written `L` ticks ago when at least `L` writes happened, and
/// the line's initial content at that cell before that.
pub proof fn lemma_delay_of_length(s: Seq<u32>, c: int, vs: Seq<u32>)
    requires
        0 < s.len(),
        0 <= c < s.len(),
    ensures
        ticked(s, c, vs).0.len() == s.len(),
        ticked(s, c, vs).1 == (c + vs.len()) % (s.len() as int),
        vs.len() >= s.len() ==> ticked(s, c, vs).0[ticked(s, c, vs).1] == vs[vs.len() - s.len()],
        vs.len() < s.len() ==> ticked(s, c, vs).0[ticked(s, c, vs).1] == s[(c + vs.len()) % (
        s.len() as int)],
    decreases vs.len(),
{
    let l = s.len() as int;
    if vs.len() == 0 {
        lemma_small_mod(c as nat, s.len());
    } else {
        let s1 = s.update(c, vs[0]);
        let c1 = (c + 1) % l;
        vstd::arithmetic::div_mod::lemma_mod_bound(c + 1, l);
        lemma_delay_of_length(s1, c1, vs.drop_first());
        let n = vs.len() as int;
        // the final cursor is the same either way round
        assert((c1 + (n - 1)) % l == (c + n) % l) by {
            if c + 1 == l {
                lemma_fundamental_div_mod_converse(l, l, 1, 0);
                vstd::arithmetic::div_mod::lemma_mod_multiples_vanish(1, n - 1, l);
            } else {
                lemma_small_mod((c + 1) as nat, s.len());
            }
        }
        if n - 1 < l {
            // the cell read after the remaining writes is untouched by the
            // first write exactly when fewer than `L` writes follow it
            let cell = (c1 + (n - 1)) % l;
            vstd::arithmetic::div_mod::lemma_mod_bound(c1 + (n - 1), l);
            if n == l {
                lemma_fundamental_div_mod_converse(c + n, l, 1, c);
            } else {
                assert(cell != c) by {
                    if c + n < l {
                        lemma_small_mod((c + n) as nat, s.len());
                    } else {
                        lemma_fundamental_div_mod_converse(c + n, l, 1, c + n - l);
                    }
                }
            }
        }
    }
}

} // verus!
