//! An all-pass filter: a delay line with a fixed one-half feedback,
//! shown here to exercise the delay line's read-before-write contract.

use crate::delay_line::DelayLine;
use crate::memory::memory_slice::MemorySlice;
use crate::memory::Mutable;
use crate::sample::{
    add_of, add_word, lemma_add_of_like, lemma_nan_word, mul_of, mul_word, neg_word, word_like,
};
use vstd::prelude::*;

verus! {

/// The feedback coefficient one half.
pub const FEEDBACK_HALF: u32 = 0x3F00_0000;

pub struct AllPass {
    pub delay_line: DelayLine,
}

impl AllPass {
    pub fn new(buffer: MemorySlice<Mutable>) -> (r: AllPass)
        requires
            0 < buffer@.len() <= 0x100_0000,
        ensures
            r.delay_line.wf(),
            r.delay_line.buffer@ == buffer@,
            r.delay_line.index == 0,
    {
        Self { delay_line: DelayLine::new(buffer) }
    }

    #[inline(always)]
    pub fn change_buffer(&mut self, new_slice: MemorySlice<Mutable>)
        requires
            0 < new_slice@.len() <= 0x100_0000,
        ensures
            final(self).delay_line.wf(),
            final(self).delay_line.buffer@ == new_slice@,
            final(self).delay_line.index == 0,
    {
        self.delay_line.change_buffer(new_slice);
    }

    /// One sample step: emits the delayed sample plus the negated input,
    /// and feeds the input plus half the delayed sample back into the
    /// line.
    pub fn tick(&mut self, input: u32) -> (r: u32)
        requires
            old(self).delay_line.wf(),
        ensures
            final(self).delay_line.wf(),
            ({
                let delayed = old(self).delay_line.buffer@[old(self).delay_line.index as int];
                let written = add_of(input, mul_of(delayed, FEEDBACK_HALF));
                word_like(r, add_of(input ^ 0x8000_0000, delayed))
                    && final(self).delay_line.buffer@.len() == old(self).delay_line.buffer@.len()
                    && word_like(
                    final(self).delay_line.buffer@[old(self).delay_line.index as int],
                    written,
                ) && (forall|j: int|
                    0 <= j < old(self).delay_line.buffer@.len() && j != old(
                        self,
                    ).delay_line.index ==> final(self).delay_line.buffer@[j] == old(
                        self,
                    ).delay_line.buffer@[j]) && final(self).delay_line.index == (old(
                    self,
                ).delay_line.index + 1) % (old(self).delay_line.buffer@.len() as int)
            }),
    {
        let delayed = self.delay_line.read();
        let output = add_word(neg_word(input), delayed);
        let feedback: u32 = FEEDBACK_HALF;
        let fed = mul_word(delayed, feedback);
        let written = add_word(input, fed);
        proof {
            lemma_nan_word();
            lemma_add_of_like(input, fed, input, mul_of(delayed, FEEDBACK_HALF));
        }
        self.delay_line.write_and_advance(written);
        output
    }
}

} // verus!
