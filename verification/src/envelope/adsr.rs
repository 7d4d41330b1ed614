//! A three-stage audio-rate envelope with the permissive early-exit
//! completion guard: a stage ends as soon as its computed value comes
//! within tolerance of the stage target or leaves the legal `[0, 1]`
//! range, and the output snaps to the exact target. Stage anchors are the
//! configured levels themselves (the initial level for the first stage),
//! not a captured output.

use super::{COMPLETION_TOLERANCE, MAX_WORD};
use crate::sample::{
    abs_word, add_of, add_word, clamp_of, clamp_word, div_of, div_word, exp_arg_of, exp_num,
    exp_word, le_word, lemma_abs_mask, lemma_add_of_like, lemma_cmp_like, lemma_div_of_like,
    lemma_exp_arg_limit, lemma_mul_of_like, lemma_nan_word, lemma_sub_of_like, lt_word,
    mul_goes_nan, mul_of, mul_word, sub_of, sub_word, word_le, word_like, word_lt, EXP_ARG_LIMIT,
    POS_ONE, POS_ZERO,
};
use vstd::prelude::*;

verus! {

/// A tenth: below this curvature magnitude this machine's curve
/// degenerates to a linear ramp.
pub const ADSR_LINEAR_LIMIT: u32 = 0x3DCC_CCCD;

/// Minus a tenth.
pub const ADSR_LINEAR_LIMIT_NEG: u32 = 0xBDCC_CCCD;

/// A thousandth, the stage time increment a fresh machine starts with.
pub const ADSR_INIT_TIME: u32 = 0x3A83_126F;

/// The machine's state: idle, or one of the three stages.
#[derive(Debug, PartialEq, Eq, Structural, Clone, Copy)]
pub enum EnvelopeState {
    Idle,
    Stage0,
    Stage1,
    Stage2,
}

/// Whether this machine's curve takes its exponential path: the slope's
/// magnitude is above a tenth (which also means the slope is a number).
pub open spec fn adsr_curved(slope: u32) -> bool {
    word_lt(ADSR_LINEAR_LIMIT, slope) || word_lt(slope, ADSR_LINEAR_LIMIT_NEG)
}

/// The normalized exponential with this machine's wider linear window:
/// the ramp below a tenth of curvature.
pub open spec fn adsr_normalized_exp_of(val: u32, slope: u32) -> u32 {
    if adsr_curved(slope) {
        div_of(
            sub_of(exp_num(exp_arg_of(mul_of(slope, val))), POS_ONE),
            sub_of(exp_num(exp_arg_of(slope)), POS_ONE),
        )
    } else {
        val
    }
}

/// Whether one stage step stays within pinned arithmetic: either the
/// linear ramp is taken, or the exponential's argument is a number.
pub open spec fn adsr_step_numeric(slope: u32, t1: u32) -> bool {
    !adsr_curved(slope) || !mul_goes_nan(slope, t1)
}

/// The first stage's curve: from the initial level toward the first
/// target.
pub open spec fn adsr_rise_of(begin: u32, end: u32, slope: u32, t: u32) -> u32 {
    add_of(mul_of(sub_of(end, begin), adsr_normalized_exp_of(t, slope)), begin)
}

/// A later stage's curve: from the previous target toward this one, on
/// the complement of the normalized exponential.
pub open spec fn adsr_fall_of(begin: u32, end: u32, slope: u32, t: u32) -> u32 {
    add_of(mul_of(sub_of(begin, end), sub_of(POS_ONE, adsr_normalized_exp_of(t, slope))), end)
}

/// The early-exit completion guard: the computed value is within a
/// hundred epsilons of the target, or outside `[0, 1]`.
pub open spec fn adsr_complete(v: u32, target: u32) -> bool {
    ||| word_le((sub_of(v, target) & 0x7FFF_FFFF), COMPLETION_TOLERANCE)
    ||| word_lt(POS_ONE, v)
    ||| word_lt(v, POS_ZERO)
}

/// A three-stage envelope driven one frame per tick.
pub struct AudioRateADSR {
    /// per-sample time increment of each stage
    pub stage_time: Vec<u32>,
    /// level each stage moves toward, always between zero and one
    pub stage_level: Vec<u32>,
    /// curvature of each stage, always between minus ten and ten
    pub stage_slope: Vec<u32>,
    /// where the first stage starts, always between zero and one
    pub init_level: u32,
    /// normalized elapsed time within the current stage
    pub t: u32,
    /// the current output
    pub envelope_value: u32,
    /// the tick rate
    pub sr: u32,
    pub state: EnvelopeState,
}

impl AudioRateADSR {
    /// One parameter per stage.
    pub open spec fn wf(&self) -> bool {
        self.stage_time@.len() == 3 && self.stage_level@.len() == 3 && self.stage_slope@.len() == 3
    }

    pub fn new(sr: u32) -> (r: AudioRateADSR)
        ensures
            r.wf(),
            r.stage_time@ == Seq::new(3, |k: int| ADSR_INIT_TIME),
            r.stage_level@ == Seq::new(3, |k: int| POS_ZERO),
            r.stage_slope@ == Seq::new(3, |k: int| POS_ZERO),
            r.init_level == POS_ZERO,
            r.t == POS_ZERO,
            r.envelope_value == POS_ZERO,
            r.sr == sr,
            r.state == EnvelopeState::Idle,
    {
        let mut times: Vec<u32> = Vec::new();
        let mut levels: Vec<u32> = Vec::new();
        let mut slopes: Vec<u32> = Vec::new();
        times.push(ADSR_INIT_TIME);
        times.push(ADSR_INIT_TIME);
        times.push(ADSR_INIT_TIME);
        levels.push(POS_ZERO);
        levels.push(POS_ZERO);
        levels.push(POS_ZERO);
        slopes.push(POS_ZERO);
        slopes.push(POS_ZERO);
        slopes.push(POS_ZERO);
        proof {
            assert(times@ =~= Seq::new(3, |k: int| ADSR_INIT_TIME));
            assert(levels@ =~= Seq::new(3, |k: int| POS_ZERO));
            assert(slopes@ =~= Seq::new(3, |k: int| POS_ZERO));
        }
        AudioRateADSR {
            stage_time: times,
            stage_level: levels,
            stage_slope: slopes,
            init_level: POS_ZERO,
            t: POS_ZERO,
            envelope_value: POS_ZERO,
            sr,
            state: EnvelopeState::Idle,
        }
    }

    /// Sets where the first stage starts, clamped into `[0, 1]`.
    pub fn set_init_level(&mut self, val: u32)
        requires
            old(self).wf(),
        ensures
            final(self).wf(),
            final(self).init_level == clamp_of(val, POS_ZERO, POS_ONE),
            final(self).stage_time@ == old(self).stage_time@,
            final(self).stage_level@ == old(self).stage_level@,
            final(self).stage_slope@ == old(self).stage_slope@,
            final(self).t == old(self).t,
            final(self).envelope_value == old(self).envelope_value,
            final(self).sr == old(self).sr,
            final(self).state == old(self).state,
    {
        proof {
            zero_one_words();
        }
        self.init_level = clamp_word(val, POS_ZERO, POS_ONE);
    }

    /// Sets stage `n`'s duration in seconds (converted at the machine's
    /// current tick rate), target level and slope.
    pub fn set_stage(&mut self, n: usize, stage_in_secs: u32, stage_level: u32, stage_slope: u32)
        requires
            old(self).wf(),
            n < 3,
        ensures
            final(self).wf(),
            final(self).stage_time@.len() == 3,
            word_like(
                final(self).stage_time@[n as int],
                adsr_time_of(stage_in_secs, old(self).sr),
            ),
            forall|m: int|
                0 <= m < 3 && m != n ==> final(self).stage_time@[m] == old(self).stage_time@[m],
            final(self).stage_level@ == old(self).stage_level@.update(
                n as int,
                clamp_of(stage_level, POS_ZERO, POS_ONE),
            ),
            final(self).stage_slope@ == old(self).stage_slope@.update(
                n as int,
                super::slope_param_of(stage_slope),
            ),
            final(self).init_level == old(self).init_level,
            final(self).t == old(self).t,
            final(self).envelope_value == old(self).envelope_value,
            final(self).sr == old(self).sr,
            final(self).state == old(self).state,
    {
        proof {
            zero_one_words();
            super::lemma_envelope_words();
        }
        let time = clamp_word(
            div_word(POS_ONE, mul_word(stage_in_secs, self.sr)),
            super::EPSILON_WORD,
            MAX_WORD,
        );
        let level = clamp_word(stage_level, POS_ZERO, POS_ONE);
        let slope = super::slope_param(stage_slope);
        self.stage_time[n] = time;
        self.stage_level[n] = level;
        self.stage_slope[n] = slope;
    }

    /// Changes the tick rate, pushing every stage through the parameter
    /// path again: each stored increment is divided by the new rate and
    /// re-derived at the old one, and levels and slopes are re-clamped.
    pub fn set_sr(&mut self, sr: u32)
        requires
            old(self).wf(),
        ensures
            final(self).wf(),
            final(self).sr == sr,
            final(self).stage_time@.len() == 3,
            forall|n: int|
                0 <= n < 3 ==> word_like(
                    final(self).stage_time@[n],
                    adsr_time_of(div_of(old(self).stage_time@[n], sr), old(self).sr),
                ),
            final(self).stage_level@ == Seq::new(
                3,
                |n: int| clamp_of(old(self).stage_level@[n], POS_ZERO, POS_ONE),
            ),
            final(self).stage_slope@ == Seq::new(
                3,
                |n: int| super::slope_param_of(old(self).stage_slope@[n]),
            ),
            final(self).init_level == old(self).init_level,
            final(self).t == old(self).t,
            final(self).envelope_value == old(self).envelope_value,
            final(self).state == old(self).state,
    {
        let mut n: usize = 0;
        while n < 3
            invariant
                self.wf(),
                n <= 3,
                self.sr == old(self).sr,
                self.init_level == old(self).init_level,
                self.t == old(self).t,
                self.envelope_value == old(self).envelope_value,
                self.state == old(self).state,
                forall|m: int|
                    0 <= m < n ==> word_like(
                        self.stage_time@[m],
                        adsr_time_of(div_of(old(self).stage_time@[m], sr), old(self).sr),
                    ),
                forall|m: int|
                    0 <= m < n ==> self.stage_level@[m] == clamp_of(
                        old(self).stage_level@[m],
                        POS_ZERO,
                        POS_ONE,
                    ),
                forall|m: int|
                    0 <= m < n ==> self.stage_slope@[m] == super::slope_param_of(
                        old(self).stage_slope@[m],
                    ),
                forall|m: int| n <= m < 3 ==> self.stage_time@[m] == old(self).stage_time@[m],
                forall|m: int| n <= m < 3 ==> self.stage_level@[m] == old(self).stage_level@[m],
                forall|m: int| n <= m < 3 ==> self.stage_slope@[m] == old(self).stage_slope@[m],
            decreases 3 - n,
        {
            let secs = div_word(self.stage_time[n], sr);
            let level = self.stage_level[n];
            let slope = self.stage_slope[n];
            proof {
                lemma_mul_of_like(secs, self.sr, div_of(old(self).stage_time@[n as int], sr), self.sr);
                lemma_div_of_like(
                    POS_ONE,
                    mul_of(secs, self.sr),
                    POS_ONE,
                    mul_of(div_of(old(self).stage_time@[n as int], sr), self.sr),
                );
            }
            self.set_stage(n, secs, level, slope);
            n = n + 1;
        }
        proof {
            assert(self.stage_level@ =~= Seq::new(
                3,
                |n: int| clamp_of(old(self).stage_level@[n], POS_ZERO, POS_ONE),
            ));
            assert(self.stage_slope@ =~= Seq::new(
                3,
                |n: int| super::slope_param_of(old(self).stage_slope@[n]),
            ));
        }
        self.sr = sr;
    }

    pub fn get_state(&self) -> (r: EnvelopeState)
        ensures
            r == self.state,
    {
        self.state
    }

    /// One sample step: idle outputs silence; a stage evaluates its
    /// curve at the advanced time and advances to the next stage — or to
    /// idle from the last — when the early-exit guard fires, snapping to
    /// the exact target.
    pub fn tick(&mut self) -> (r: u32)
        requires
            old(self).wf(),
        ensures
            final(self).wf(),
            final(self).stage_time@ == old(self).stage_time@,
            final(self).stage_level@ == old(self).stage_level@,
            final(self).stage_slope@ == old(self).stage_slope@,
            final(self).init_level == old(self).init_level,
            final(self).sr == old(self).sr,
            old(self).state == EnvelopeState::Idle ==> r == POS_ZERO && *final(self) == *old(self),
            (old(self).state == EnvelopeState::Stage0 && adsr_step_numeric(
                old(self).stage_slope@[0],
                add_of(old(self).t, old(self).stage_time@[0]),
            )) ==> adsr_stage_step(
                old(self),
                final(self),
                r,
                old(self).init_level,
                0,
                EnvelopeState::Stage0,
                EnvelopeState::Stage1,
                true,
            ),
            (old(self).state == EnvelopeState::Stage1 && adsr_step_numeric(
                old(self).stage_slope@[1],
                add_of(old(self).t, old(self).stage_time@[1]),
            )) ==> adsr_stage_step(
                old(self),
                final(self),
                r,
                old(self).stage_level@[0],
                1,
                EnvelopeState::Stage1,
                EnvelopeState::Stage2,
                false,
            ),
            (old(self).state == EnvelopeState::Stage2 && adsr_step_numeric(
                old(self).stage_slope@[2],
                add_of(old(self).t, old(self).stage_time@[2]),
            )) ==> adsr_stage_step(
                old(self),
                final(self),
                r,
                old(self).stage_level@[1],
                2,
                EnvelopeState::Stage2,
                EnvelopeState::Idle,
                false,
            ),
    {
        match self.state {
            EnvelopeState::Idle => POS_ZERO,
            EnvelopeState::Stage0 => self.tick_stage(0, self.init_level, true),
            EnvelopeState::Stage1 => {
                let begin = self.stage_level[0];
                self.tick_stage(1, begin, false)
            },
            EnvelopeState::Stage2 => {
                let begin = self.stage_level[1];
                self.tick_stage(2, begin, false)
            },
        }
    }

    /// Hard reset to idle silence.
    pub fn reset(&mut self)
        requires
            old(self).wf(),
        ensures
            final(self).wf(),
            final(self).envelope_value == POS_ZERO,
            final(self).state == EnvelopeState::Idle,
            final(self).stage_time@ == old(self).stage_time@,
            final(self).stage_level@ == old(self).stage_level@,
            final(self).stage_slope@ == old(self).stage_slope@,
            final(self).init_level == old(self).init_level,
            final(self).t == old(self).t,
            final(self).sr == old(self).sr,
    {
        self.envelope_value = POS_ZERO;
        self.state = EnvelopeState::Idle;
    }

    /// Starts the first stage; a retrigger from a later stage keeps the
    /// elapsed time, a start from idle or the first stage resets it.
    pub fn trigger_on(&mut self)
        requires
            old(self).wf(),
        ensures
            final(self).wf(),
            final(self).state == EnvelopeState::Stage0,
            (old(self).state == EnvelopeState::Idle || old(self).state == EnvelopeState::Stage0)
                ==> final(self).t == POS_ZERO,
            (old(self).state == EnvelopeState::Stage1 || old(self).state == EnvelopeState::Stage2)
                ==> final(self).t == old(self).t,
            final(self).envelope_value == old(self).envelope_value,
            final(self).stage_time@ == old(self).stage_time@,
            final(self).stage_level@ == old(self).stage_level@,
            final(self).stage_slope@ == old(self).stage_slope@,
            final(self).init_level == old(self).init_level,
            final(self).sr == old(self).sr,
    {
        match self.state {
            EnvelopeState::Idle | EnvelopeState::Stage0 => {
                self.state = EnvelopeState::Stage0;
                self.t = POS_ZERO;
            },
            _ => {
                self.state = EnvelopeState::Stage0;
            },
        }
    }

    /// Jumps to the final stage from either of the first two; ignored
    /// otherwise.
    pub fn trigger_off(&mut self)
        requires
            old(self).wf(),
        ensures
            final(self).wf(),
            (old(self).state == EnvelopeState::Stage0 || old(self).state == EnvelopeState::Stage1)
                ==> final(self).state == EnvelopeState::Stage2 && final(self).t == POS_ZERO
                && final(self).envelope_value == old(self).envelope_value
                && final(self).stage_time@ == old(self).stage_time@
                && final(self).stage_level@ == old(self).stage_level@
                && final(self).stage_slope@ == old(self).stage_slope@
                && final(self).init_level == old(self).init_level
                && final(self).sr == old(self).sr,
            !(old(self).state == EnvelopeState::Stage0 || old(self).state == EnvelopeState::Stage1)
                ==> *final(self) == *old(self),
    {
        match self.state {
            EnvelopeState::Stage0 | EnvelopeState::Stage1 => {
                self.state = EnvelopeState::Stage2;
                self.t = POS_ZERO;
            },
            _ => {},
        }
    }

    /// The shared stage step: advance the time, evaluate the curve from
    /// `begin` toward this stage's level, and apply the early-exit guard.
    fn tick_stage(&mut self, n: usize, begin: u32, rise: bool) -> (r: u32)
        requires
            old(self).wf(),
            n < 3,
            old(self).state == (if n == 0 {
                EnvelopeState::Stage0
            } else if n == 1 {
                EnvelopeState::Stage1
            } else {
                EnvelopeState::Stage2
            }),
        ensures
            final(self).wf(),
            final(self).stage_time@ == old(self).stage_time@,
            final(self).stage_level@ == old(self).stage_level@,
            final(self).stage_slope@ == old(self).stage_slope@,
            final(self).init_level == old(self).init_level,
            final(self).sr == old(self).sr,
            r == final(self).envelope_value,
            adsr_step_numeric(
                old(self).stage_slope@[n as int],
                add_of(old(self).t, old(self).stage_time@[n as int]),
            ) ==> adsr_stage_step(
                old(self),
                final(self),
                r,
                begin,
                n as int,
                old(self).state,
                (if n == 0 {
                    EnvelopeState::Stage1
                } else if n == 1 {
                    EnvelopeState::Stage2
                } else {
                    EnvelopeState::Idle
                }),
                rise,
            ),
    {
        let t1 = add_word(self.t, self.stage_time[n]);
        self.t = t1;
        let target = self.stage_level[n];
        let slope = self.stage_slope[n];
        let nexp = self.normalized_exp_exec(t1, slope);
        let ghost t1s = add_of(old(self).t, old(self).stage_time@[n as int]);
        let ghost ns = adsr_normalized_exp_of(t1s, slope);
        proof {
            if adsr_step_numeric(slope, t1s) {
                lemma_nan_word();
                lemma_mul_of_like(slope, t1, slope, t1s);
                assert(word_like(nexp, ns));
            }
        }
        let v = if rise {
            let d = sub_word(target, begin);
            let m = mul_word(d, nexp);
            let v = add_word(m, begin);
            proof {
                if adsr_step_numeric(slope, t1s) {
                    lemma_mul_of_like(d, nexp, sub_of(target, begin), ns);
                    lemma_add_of_like(m, begin, mul_of(sub_of(target, begin), ns), begin);
                }
            }
            v
        } else {
            let d = sub_word(begin, target);
            let om = sub_word(POS_ONE, nexp);
            let m = mul_word(d, om);
            let v = add_word(m, target);
            proof {
                if adsr_step_numeric(slope, t1s) {
                    lemma_sub_of_like(POS_ONE, nexp, POS_ONE, ns);
                    lemma_mul_of_like(d, om, sub_of(begin, target), sub_of(POS_ONE, ns));
                    lemma_add_of_like(
                        m,
                        target,
                        mul_of(sub_of(begin, target), sub_of(POS_ONE, ns)),
                        target,
                    );
                }
            }
            v
        };
        self.envelope_value = v;
        let diff = abs_word(sub_word(v, target));
        proof {
            if adsr_step_numeric(slope, t1s) {
                let vs = (if rise {
                    adsr_rise_of(begin, target, slope, t1s)
                } else {
                    adsr_fall_of(begin, target, slope, t1s)
                });
                assert(word_like(v, vs));
                lemma_sub_of_like(v, target, vs, target);
                lemma_abs_mask(sub_of(vs, target));
                lemma_cmp_like(
                    diff,
                    COMPLETION_TOLERANCE,
                    (sub_of(vs, target) & 0x7FFF_FFFF),
                    COMPLETION_TOLERANCE,
                );
                lemma_cmp_like(POS_ONE, v, POS_ONE, vs);
                lemma_cmp_like(v, POS_ZERO, vs, POS_ZERO);
            }
        }
        if le_word(diff, COMPLETION_TOLERANCE) || lt_word(POS_ONE, v) || lt_word(v, POS_ZERO) {
            self.state = if n == 0 {
                EnvelopeState::Stage1
            } else if n == 1 {
                EnvelopeState::Stage2
            } else {
                EnvelopeState::Idle
            };
            self.envelope_value = target;
            self.t = POS_ZERO;
        }
        self.envelope_value
    }

    /// The normalized exponential with this machine's linear window; the
    /// exponential path is pinned only when its argument is a number, and
    /// both exponential arguments saturate at [`EXP_ARG_LIMIT`], the
    /// bound the wrapper demands.
    fn normalized_exp_exec(&self, val: u32, slope: u32) -> (r: u32)
        ensures
            !adsr_curved(slope) ==> r == val,
            adsr_curved(slope) && !mul_goes_nan(slope, val) ==> word_like(
                r,
                adsr_normalized_exp_of(val, slope),
            ),
    {
        proof {
            lemma_exp_arg_limit();
        }
        if lt_word(ADSR_LINEAR_LIMIT, slope) || lt_word(slope, ADSR_LINEAR_LIMIT_NEG) {
            let u = mul_word(slope, val);
            let ua = if le_word(u, EXP_ARG_LIMIT) {
                u
            } else {
                EXP_ARG_LIMIT
            };
            let sa = if le_word(slope, EXP_ARG_LIMIT) {
                slope
            } else {
                EXP_ARG_LIMIT
            };
            let e1 = exp_word(ua);
            let e2 = exp_word(sa);
            let n1 = sub_word(e1, POS_ONE);
            let n2 = sub_word(e2, POS_ONE);
            let r = div_word(n1, n2);
            proof {
                if !mul_goes_nan(slope, val) {
                    lemma_div_of_like(
                        n1,
                        n2,
                        sub_of(exp_num(exp_arg_of(mul_of(slope, val))), POS_ONE),
                        sub_of(exp_num(exp_arg_of(slope)), POS_ONE),
                    );
                }
            }
            r
        } else {
            val
        }
    }
}

/// The stage time increment at the machine's own rate:
/// `1 / (seconds * rate)`, clamped between epsilon and the largest
/// finite sample.
pub open spec fn adsr_time_of(secs: u32, sr: u32) -> u32 {
    clamp_of(div_of(POS_ONE, mul_of(secs, sr)), super::EPSILON_WORD, MAX_WORD)
}

/// What one stage step does: the time advances by the stage increment,
/// the output takes the curve value, and if the guard fires the machine
/// snaps to the exact target, resets its time and moves to `next`.
pub open spec fn adsr_stage_step(
    s0: &AudioRateADSR,
    s1: &AudioRateADSR,
    r: u32,
    begin: u32,
    n: int,
    stay: EnvelopeState,
    next: EnvelopeState,
    rise: bool,
) -> bool {
    let t1 = add_of(s0.t, s0.stage_time@[n]);
    let v = (if rise {
        adsr_rise_of(begin, s0.stage_level@[n], s0.stage_slope@[n], t1)
    } else {
        adsr_fall_of(begin, s0.stage_level@[n], s0.stage_slope@[n], t1)
    });
    if adsr_complete(v, s0.stage_level@[n]) {
        s1.state == next && s1.envelope_value == s0.stage_level@[n] && s1.t == POS_ZERO && r
            == s0.stage_level@[n]
    } else {
        s1.state == stay && word_like(s1.envelope_value, v) && word_like(s1.t, t1) && r
            == s1.envelope_value
    }
}

/// The two zero-or-one clamp bounds are comparable and in order.
proof fn zero_one_words()
    ensures
        !crate::sample::word_is_nan(POS_ZERO),
        !crate::sample::word_is_nan(POS_ONE),
        crate::sample::ord149(POS_ZERO) <= crate::sample::ord149(POS_ONE),
{
    crate::sample::lemma_zero_words();
    crate::sample::lemma_small_int_words();
    crate::sample::lemma_word_from_int_holds(1);
}

} // verus!
