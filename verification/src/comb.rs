//! A comb filter: a delay line with damped feedback, shown here to
//! exercise the delay line's read-before-write contract in a feedback
//! topology.

use crate::delay_line::DelayLine;
use crate::memory::memory_slice::MemorySlice;
use crate::memory::Mutable;
use crate::sample::{
    add_of, add_word, lemma_add_of_like, lemma_mul_of_like, lemma_nan_word, mul_of, mul_word,
    sub_of, sub_word, word_like, POS_ONE, POS_ZERO,
};
use vstd::prelude::*;

verus! {

/// One half, the default feedback and dampening coefficient.
pub const COMB_DEFAULT_HALF: u32 = 0x3F00_0000;

pub struct Comb {
    pub delay_line: DelayLine,
    pub feedback: u32,
    pub filter_state: u32,
    pub dampening: u32,
    pub dampening_inverse: u32,
}

impl Comb {
    pub fn new(buffer: MemorySlice<Mutable>) -> (r: Comb)
        requires
            0 < buffer@.len() <= 0x100_0000,
        ensures
            r.delay_line.wf(),
            r.delay_line.buffer@ == buffer@,
            r.delay_line.index == 0,
            r.feedback == COMB_DEFAULT_HALF,
            r.filter_state == POS_ZERO,
            r.dampening == COMB_DEFAULT_HALF,
            r.dampening_inverse == COMB_DEFAULT_HALF,
    {
        Self {
            delay_line: DelayLine::new(buffer),
            feedback: COMB_DEFAULT_HALF,
            filter_state: POS_ZERO,
            dampening: COMB_DEFAULT_HALF,
            dampening_inverse: COMB_DEFAULT_HALF,
        }
    }

    #[inline(always)]
    pub fn change_buffer(&mut self, new_slice: MemorySlice<Mutable>)
        requires
            0 < new_slice@.len() <= 0x100_0000,
        ensures
            final(self).delay_line.wf(),
            final(self).delay_line.buffer@ == new_slice@,
            final(self).delay_line.index == 0,
            final(self).feedback == old(self).feedback,
            final(self).filter_state == old(self).filter_state,
            final(self).dampening == old(self).dampening,
            final(self).dampening_inverse == old(self).dampening_inverse,
    {
        self.delay_line.change_buffer(new_slice);
    }

    /// Sets the dampening coefficient and caches its complement.
    pub fn set_dampening(&mut self, value: u32)
        ensures
            final(self).dampening == value,
            word_like(final(self).dampening_inverse, sub_of(POS_ONE, value)),
            final(self).delay_line == old(self).delay_line,
            final(self).feedback == old(self).feedback,
            final(self).filter_state == old(self).filter_state,
    {
        self.dampening = value;
        self.dampening_inverse = sub_word(POS_ONE, value);
    }

    pub fn set_feedback(&mut self, value: u32)
        ensures
            final(self).feedback == value,
            final(self).delay_line == old(self).delay_line,
            final(self).filter_state == old(self).filter_state,
            final(self).dampening == old(self).dampening,
            final(self).dampening_inverse == old(self).dampening_inverse,
    {
        self.feedback = value;
    }

    /// One sample step: emits the delayed sample, updates the one-pole
    /// dampening filter with it, and writes the input plus the damped
    /// feedback into the line.
    pub fn tick(&mut self, input: u32) -> (r: u32)
        requires
            old(self).delay_line.wf(),
        ensures
            final(self).delay_line.wf(),
            ({
                let delayed = old(self).delay_line.buffer@[old(self).delay_line.index as int];
                let state = add_of(
                    mul_of(delayed, old(self).dampening_inverse),
                    mul_of(old(self).filter_state, old(self).dampening),
                );
                let written = add_of(input, mul_of(state, old(self).feedback));
                r == delayed && word_like(final(self).filter_state, state)
                    && final(self).delay_line.buffer@.len() == old(
                    self,
                ).delay_line.buffer@.len() && word_like(
                    final(self).delay_line.buffer@[old(self).delay_line.index as int],
                    written,
                ) && (forall|j: int|
                    0 <= j < old(self).delay_line.buffer@.len() && j != old(
                        self,
                    ).delay_line.index ==> final(self).delay_line.buffer@[j] == old(
                        self,
                    ).delay_line.buffer@[j]) && final(self).delay_line.index == (old(
                    self,
                ).delay_line.index + 1) % (old(self).delay_line.buffer@.len() as int)
            }),
            final(self).feedback == old(self).feedback,
            final(self).dampening == old(self).dampening,
            final(self).dampening_inverse == old(self).dampening_inverse,
    {
        let output = self.delay_line.read();
        let state = add_word(
            mul_word(output, self.dampening_inverse),
            mul_word(self.filter_state, self.dampening),
        );
        let ghost state_s = add_of(
            mul_of(output, self.dampening_inverse),
            mul_of(self.filter_state, self.dampening),
        );
        self.filter_state = state;
        let fed = mul_word(state, self.feedback);
        let written = add_word(input, fed);
        proof {
            lemma_nan_word();
            lemma_mul_of_like(state, self.feedback, state_s, self.feedback);
            lemma_add_of_like(input, fed, input, mul_of(state_s, self.feedback));
        }
        self.delay_line.write_and_advance(written);
        output
    }
}

} // verus!
