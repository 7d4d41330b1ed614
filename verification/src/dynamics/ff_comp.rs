//! A feed-forward compressor: rectification, a threshold/ratio gain
//! computer, and an attack/release envelope as level detector inside a
//! closed control loop. Every tick either retriggers the envelope's
//! attack (input above threshold) or releases it, feeds the knee-corrected
//! level into the envelope's attack target, and turns the envelope output
//! and the makeup gain into a multiplicative control voltage applied to
//! the original input.

use crate::envelope::ar::{
    ar_like, ar_release_spec, ar_tick_numeric, ar_tick_spec, ar_trigger_spec,
    lemma_ar_tick_spec_like, ARPhase, AttackRelease,
};
use crate::envelope::{EPSILON_WORD, MAX_WORD};
use crate::sample::{
    abs_word, add_of, add_word, clamp_of, clamp_word, div_of, div_word, lemma_add_of_like,
    lemma_clamp_of_like, lemma_div_of_like, lemma_mul_of_like, lemma_nan_word, lemma_sub_of_like,
    lt_word, mul_of, mul_word, sub_of, sub_word, word_like, word_lt, POS_ONE, POS_ZERO,
};
use vstd::prelude::*;

verus! {

/// Minus ten and ten, the slope clamp of the two setter entry points.
pub const SLOPE_TEN: u32 = 0x4120_0000;

pub const SLOPE_TEN_NEG: u32 = 0xC120_0000;

/// A feed-forward compressor with adjustable time and slope parameters.
pub struct FFCompressor {
    /// between zero and one
    pub threshold: u32,
    /// at least one
    pub ratio: u32,
    /// at least one
    pub makeup_gain: u32,
    /// the level detector
    pub env: AttackRelease,
    /// the control voltage applied to the last input
    pub cv: u32,
}

/// The gain computer: above the threshold the knee-corrected level
/// `threshold + (input - threshold) / ratio`, below it the input itself.
pub open spec fn knee_of(threshold: u32, ratio: u32, input: u32) -> u32 {
    if word_lt(threshold, input) {
        add_of(threshold, div_of(sub_of(input, threshold), ratio))
    } else {
        input
    }
}

/// Whether the tick's envelope step stays within pinned arithmetic.
pub open spec fn comp_tick_numeric(c: &FFCompressor, input: u32) -> bool {
    ar_tick_numeric(comp_env_fed(c, input))
}

/// The envelope as the tick feeds it: after the control edge, with the
/// knee-corrected level as its running attack target.
pub open spec fn comp_env_fed(c: &FFCompressor, input: u32) -> AttackRelease {
    let rect = input & 0x7FFF_FFFF;
    let triggered = word_lt(c.threshold, rect);
    let kneed = div_of(rect, knee_of(c.threshold, c.ratio, rect));
    let env1 = (if triggered {
        ar_trigger_spec(c.env)
    } else {
        ar_release_spec(c.env)
    });
    AttackRelease { attack_level: kneed, ..env1 }
}

/// The whole tick, as a function of the compressor's state and the
/// input: the envelope after the control edge, the level update and its
/// own tick, and the resulting control voltage.
pub open spec fn comp_tick_env(c: &FFCompressor, input: u32) -> AttackRelease {
    let rect = input & 0x7FFF_FFFF;
    let triggered = word_lt(c.threshold, rect);
    let kneed = div_of(rect, knee_of(c.threshold, c.ratio, rect));
    let env1 = (if triggered {
        ar_trigger_spec(c.env)
    } else {
        ar_release_spec(c.env)
    });
    ar_tick_spec(AttackRelease { attack_level: kneed, ..env1 })
}

/// The control voltage the tick computes: the makeup gain over the
/// envelope output clamped to at least one.
pub open spec fn comp_tick_cv(c: &FFCompressor, input: u32) -> u32 {
    div_of(c.makeup_gain, clamp_of(comp_tick_env(c, input).envelope_value, POS_ONE, MAX_WORD))
}

impl FFCompressor {
    pub fn new(threshold: u32, ratio: u32, makeup_gain: u32) -> (r: FFCompressor)
        ensures
            r.threshold == threshold,
            r.ratio == ratio,
            r.makeup_gain == makeup_gain,
            r.cv == POS_ONE,
            r.env.attack_level == POS_ONE,
            r.env.release_level == POS_ONE,
            r.env.current_stage == ARPhase::HOLD,
            r.env.stage_begin_level == POS_ONE,
            r.env.t == POS_ZERO,
            r.env.envelope_value == POS_ZERO,
    {
        let mut env = AttackRelease::new(POS_ZERO);
        env.set_level(ARPhase::ATTACK, POS_ONE);
        env.set_level(ARPhase::RELEASE, POS_ONE);
        env.reset(POS_ONE);
        FFCompressor { threshold, ratio, makeup_gain, env, cv: POS_ONE }
    }

    /// One sample step: rectify, compute the knee-corrected level,
    /// drive the level detector, and apply the makeup-corrected control
    /// voltage to the original input.
    pub fn tick(&mut self, input: u32) -> (r: u32)
        ensures
            final(self).threshold == old(self).threshold,
            final(self).ratio == old(self).ratio,
            final(self).makeup_gain == old(self).makeup_gain,
            comp_tick_numeric(old(self), input) ==> ar_like(
                final(self).env,
                comp_tick_env(old(self), input),
            ) && word_like(final(self).cv, comp_tick_cv(old(self), input)) && word_like(
                r,
                mul_of(input, comp_tick_cv(old(self), input)),
            ),
    {
        proof {
            crate::sample::lemma_zero_words();
            crate::sample::lemma_small_int_words();
            crate::sample::lemma_word_from_int_holds(1);
            crate::envelope::lemma_envelope_words();
            lemma_nan_word();
        }
        let rectified = abs_word(input);
        let gain = self.compute_gain(rectified);
        let kneed = div_word(rectified, gain);
        proof {
            lemma_div_of_like(
                rectified,
                gain,
                rectified,
                knee_of(old(self).threshold, old(self).ratio, rectified),
            );
            if comp_tick_numeric(old(self), input) {
                lemma_ar_tick_spec_like(
                    AttackRelease { attack_level: kneed, ..self.env },
                    comp_env_fed(old(self), input),
                );
            }
        }
        let level = self.level_detect(kneed);
        let cv = div_word(self.makeup_gain, level);
        self.cv = cv;
        let r = mul_word(input, cv);
        proof {
            if comp_tick_numeric(old(self), input) {
                lemma_clamp_of_like(
                    self.env.envelope_value,
                    comp_tick_env(old(self), input).envelope_value,
                    POS_ONE,
                    MAX_WORD,
                );
                lemma_div_of_like(
                    self.makeup_gain,
                    level,
                    old(self).makeup_gain,
                    clamp_of(comp_tick_env(old(self), input).envelope_value, POS_ONE, MAX_WORD),
                );
                lemma_mul_of_like(input, cv, input, comp_tick_cv(old(self), input));
            }
        }
        r
    }

    /// The gain computer, which doubles as the envelope's control edge:
    /// above the threshold it retriggers the attack, below it releases.
    fn compute_gain(&mut self, input: u32) -> (r: u32)
        ensures
            word_like(r, knee_of(old(self).threshold, old(self).ratio, input)),
            word_lt(old(self).threshold, input) ==> final(self).env == ar_trigger_spec(
                old(self).env,
            ),
            !word_lt(old(self).threshold, input) ==> final(self).env == ar_release_spec(
                old(self).env,
            ),
            final(self).threshold == old(self).threshold,
            final(self).ratio == old(self).ratio,
            final(self).makeup_gain == old(self).makeup_gain,
            final(self).cv == old(self).cv,
    {
        if lt_word(self.threshold, input) {
            self.env.trigger();
            let d = sub_word(input, self.threshold);
            let q = div_word(d, self.ratio);
            let r = add_word(self.threshold, q);
            proof {
                lemma_nan_word();
                lemma_div_of_like(d, self.ratio, sub_of(input, self.threshold), self.ratio);
                lemma_add_of_like(
                    self.threshold,
                    q,
                    self.threshold,
                    div_of(sub_of(input, self.threshold), self.ratio),
                );
            }
            r
        } else {
            self.env.release();
            input
        }
    }

    /// The level detector: the input becomes the envelope's running
    /// attack target, and the ticked envelope output is floored at one.
    fn level_detect(&mut self, input: u32) -> (r: u32)
        ensures
            ar_tick_numeric(AttackRelease { attack_level: input, ..old(self).env }) ==> ar_like(
                final(self).env,
                ar_tick_spec(AttackRelease { attack_level: input, ..old(self).env }),
            ),
            r == clamp_of(final(self).env.envelope_value, POS_ONE, MAX_WORD),
            final(self).threshold == old(self).threshold,
            final(self).ratio == old(self).ratio,
            final(self).makeup_gain == old(self).makeup_gain,
            final(self).cv == old(self).cv,
    {
        proof {
            crate::sample::lemma_zero_words();
            crate::sample::lemma_small_int_words();
            crate::sample::lemma_word_from_int_holds(1);
            crate::envelope::lemma_envelope_words();
        }
        self.env.set_level(ARPhase::ATTACK, input);
        let out = self.env.tick();
        clamp_word(out, POS_ONE, MAX_WORD)
    }

    pub fn set_attack(&mut self, val: u32, sr: u32)
        ensures
            word_like(
                final(self).env.attack_time,
                crate::envelope::time_param_of(clamp_of(val, EPSILON_WORD, MAX_WORD), sr),
            ),
            comp_others_unchanged(old(self), final(self)),
            final(self).env.release_time == old(self).env.release_time,
            final(self).env.attack_slope == old(self).env.attack_slope,
            final(self).env.release_slope == old(self).env.release_slope,
            final(self).env.attack_level == old(self).env.attack_level,
            final(self).env.release_level == old(self).env.release_level,
    {
        proof {
            crate::envelope::lemma_envelope_words();
        }
        let v = clamp_word(val, EPSILON_WORD, MAX_WORD);
        self.env.set_time(ARPhase::ATTACK, v, sr);
    }

    pub fn set_release(&mut self, val: u32, sr: u32)
        ensures
            word_like(
                final(self).env.release_time,
                crate::envelope::time_param_of(clamp_of(val, EPSILON_WORD, MAX_WORD), sr),
            ),
            comp_others_unchanged(old(self), final(self)),
            final(self).env.attack_time == old(self).env.attack_time,
            final(self).env.attack_slope == old(self).env.attack_slope,
            final(self).env.release_slope == old(self).env.release_slope,
            final(self).env.attack_level == old(self).env.attack_level,
            final(self).env.release_level == old(self).env.release_level,
    {
        proof {
            crate::envelope::lemma_envelope_words();
        }
        let v = clamp_word(val, EPSILON_WORD, MAX_WORD);
        self.env.set_time(ARPhase::RELEASE, v, sr);
    }

    pub fn set_attack_slope(&mut self, val: u32)
        ensures
            final(self).env.attack_slope == crate::envelope::slope_param_of(
                clamp_of(val, SLOPE_TEN_NEG, SLOPE_TEN),
            ),
            comp_others_unchanged(old(self), final(self)),
            final(self).env.attack_time == old(self).env.attack_time,
            final(self).env.release_time == old(self).env.release_time,
            final(self).env.release_slope == old(self).env.release_slope,
            final(self).env.attack_level == old(self).env.attack_level,
            final(self).env.release_level == old(self).env.release_level,
    {
        proof {
            crate::envelope::lemma_envelope_words();
        }
        let v = clamp_word(val, SLOPE_TEN_NEG, SLOPE_TEN);
        self.env.set_slope(ARPhase::ATTACK, v);
    }

    pub fn set_release_slope(&mut self, val: u32)
        ensures
            final(self).env.release_slope == crate::envelope::slope_param_of(
                clamp_of(val, SLOPE_TEN_NEG, SLOPE_TEN),
            ),
            comp_others_unchanged(old(self), final(self)),
            final(self).env.attack_time == old(self).env.attack_time,
            final(self).env.release_time == old(self).env.release_time,
            final(self).env.attack_slope == old(self).env.attack_slope,
            final(self).env.attack_level == old(self).env.attack_level,
            final(self).env.release_level == old(self).env.release_level,
    {
        proof {
            crate::envelope::lemma_envelope_words();
        }
        let v = clamp_word(val, SLOPE_TEN_NEG, SLOPE_TEN);
        self.env.set_slope(ARPhase::RELEASE, v);
    }

    /// Clamped into `(0, 1]`: at least epsilon, at most one.
    pub fn set_threshold(&mut self, val: u32)
        ensures
            final(self).threshold == clamp_of(val, EPSILON_WORD, POS_ONE),
            final(self).ratio == old(self).ratio,
            final(self).makeup_gain == old(self).makeup_gain,
            final(self).env == old(self).env,
            final(self).cv == old(self).cv,
    {
        proof {
            crate::sample::lemma_small_int_words();
            crate::sample::lemma_word_from_int_holds(1);
            crate::envelope::lemma_envelope_words();
        }
        self.threshold = clamp_word(val, EPSILON_WORD, POS_ONE);
    }

    /// Clamped to at least one.
    pub fn set_ratio(&mut self, val: u32)
        ensures
            final(self).ratio == clamp_of(val, POS_ONE, MAX_WORD),
            final(self).threshold == old(self).threshold,
            final(self).makeup_gain == old(self).makeup_gain,
            final(self).env == old(self).env,
            final(self).cv == old(self).cv,
    {
        proof {
            crate::sample::lemma_small_int_words();
            crate::sample::lemma_word_from_int_holds(1);
            crate::envelope::lemma_envelope_words();
        }
        self.ratio = clamp_word(val, POS_ONE, MAX_WORD);
    }

    /// Clamped to at least one.
    pub fn set_makeup_gain(&mut self, val: u32)
        ensures
            final(self).makeup_gain == clamp_of(val, POS_ONE, MAX_WORD),
            final(self).threshold == old(self).threshold,
            final(self).ratio == old(self).ratio,
            final(self).env == old(self).env,
            final(self).cv == old(self).cv,
    {
        proof {
            crate::sample::lemma_small_int_words();
            crate::sample::lemma_word_from_int_holds(1);
            crate::envelope::lemma_envelope_words();
        }
        self.makeup_gain = clamp_word(val, POS_ONE, MAX_WORD);
    }

    pub fn get_current_cv(&self) -> (r: u32)
        ensures
            r == self.cv,
    {
        self.cv
    }

    pub fn get_current_env_val(&self) -> (r: u32)
        ensures
            r == self.env.envelope_value,
    {
        self.env.get_current_env_val()
    }

    pub fn get_current_threshold(&self) -> (r: u32)
        ensures
            r == self.threshold,
    {
        self.threshold
    }

    /// The detector's stage as a signed byte: zero for attack, one for
    /// release, minus one for holding.
    pub fn get_current_env_stage(&self) -> (r: i8)
        ensures
            self.env.current_stage == ARPhase::HOLD ==> r == -1,
            self.env.current_stage == ARPhase::ATTACK ==> r == 0,
            self.env.current_stage == ARPhase::RELEASE ==> r == 1,
    {
        match self.env.get_stage() {
            ARPhase::HOLD => -1,
            ARPhase::ATTACK => 0,
            ARPhase::RELEASE => 1,
        }
    }
}

/// The compressor's own parameters and voltage, and the envelope's
/// dynamic state, are unchanged (for the setter entry points).
pub open spec fn comp_others_unchanged(c0: &FFCompressor, c1: &FFCompressor) -> bool {
    &&& c1.threshold == c0.threshold
    &&& c1.ratio == c0.ratio
    &&& c1.makeup_gain == c0.makeup_gain
    &&& c1.cv == c0.cv
    &&& c1.env.t == c0.env.t
    &&& c1.env.envelope_value == c0.env.envelope_value
    &&& c1.env.stage_begin_level == c0.env.stage_begin_level
    &&& c1.env.current_stage == c0.env.current_stage
}

} // verus!
